//! Whole generations, run by real engines on several managers in one process.

use cait_sith::protocol::Participant;
use k256::elliptic_curve::Field;
use k256::{AffinePoint, ProjectivePoint, Scalar, Secp256k1};
use presignature::error::{GenerationError, PokeError};
use presignature::manager::PresignatureManager;
use presignature::types::{PresignatureId, PresignatureMessage, Triple, TripleId, TriplePub, TripleShare};
use rand_core::OsRng;
use std::collections::HashMap;

/// A triple source that reserves two triples or none.
struct Source {
    triples: HashMap<TripleId, Triple>,
}

impl Source {
    fn reserve_pair(&mut self, id0: TripleId, id1: TripleId) -> Result<(Triple, Triple), TripleId> {
        if !self.triples.contains_key(&id0) {
            return Err(id0);
        }
        if !self.triples.contains_key(&id1) {
            return Err(id1);
        }
        Ok((self.triples.remove(&id0).unwrap(), self.triples.remove(&id1).unwrap()))
    }
}

struct Node {
    me: Participant,
    manager: PresignatureManager,
    source: Source,
    public_key: AffinePoint,
    share: Scalar,
}

fn deal(id: TripleId, participants: &[Participant], threshold: usize) -> Vec<Triple> {
    let (public, shares) = cait_sith::triples::deal::<Secp256k1>(&mut OsRng, participants, threshold);
    shares
        .into_iter()
        .map(|share| Triple {
            id,
            share: TripleShare { a: share.a, b: share.b, c: share.c },
            public: TriplePub {
                big_a: public.big_a,
                big_b: public.big_b,
                big_c: public.big_c,
                participants: public.participants.clone(),
                threshold: public.threshold,
            },
        })
        .collect()
}

/// A group of `n` nodes with threshold 2 that share a key and hold their
/// shares of the triples 10 and 11.
fn network(n: u32) -> Vec<Node> {
    let participants: Vec<Participant> = (0..n).map(Participant::from).collect();
    let constant = Scalar::random(&mut OsRng);
    let slope = Scalar::random(&mut OsRng);
    let public_key = (ProjectivePoint::GENERATOR * constant).to_affine();
    let mut first = deal(10, &participants, 2).into_iter();
    let mut second = deal(11, &participants, 2).into_iter();
    let mut nodes = Vec::new();
    for i in 0..n {
        let me = participants[i as usize];
        let mut triples = HashMap::new();
        triples.insert(10, first.next().unwrap());
        triples.insert(11, second.next().unwrap());
        nodes.push(Node {
            me,
            manager: PresignatureManager::new(participants.clone(), me, 2, 7),
            source: Source { triples },
            public_key,
            share: constant + slope * Scalar::from(u64::from(i) + 1),
        });
    }
    nodes
}

/// Hands each message to the node it is for, which joins the generation on
/// first contact. Returns the identifiers that the messages named.
fn deliver(nodes: &mut [Node], batch: Vec<(Participant, PresignatureMessage)>) -> Vec<PresignatureId> {
    let mut ids = Vec::new();
    for (to, message) in batch {
        ids.push(message.id);
        if to == message.from {
            continue;
        }
        let node = nodes.iter_mut().find(|node| node.me == to).unwrap();
        let reserved = if node.manager.needs_triples(message.id) {
            node.source.reserve_pair(message.triple0, message.triple1)
        } else {
            Err(message.triple0)
        };
        match node.manager.get_or_generate(message.id, reserved, &node.public_key, &node.share) {
            Ok(engine) => engine.message(message.from, message.data),
            Err(GenerationError::AlreadyGenerated) => {},
            Err(e) => panic!("join failed: {:?}", e),
        }
    }
    ids
}

/// Pokes every node in turn and delivers what comes out, until every node
/// holds a presignature. Returns the identifier of the generation.
fn run(nodes: &mut [Node]) -> PresignatureId {
    let mut id = None;
    for _ in 0..100 {
        if nodes.iter().all(|node| node.manager.len() == 1) {
            break;
        }
        for i in 0..nodes.len() {
            let batch = nodes[i].manager.poke().unwrap();
            for named in deliver(nodes, batch) {
                assert!(id.is_none() || id == Some(named));
                id = Some(named);
            }
        }
    }
    assert!(nodes.iter().all(|node| node.manager.len() == 1));
    id.unwrap()
}

#[test]
fn first_poke_sends_to_every_participant() {
    let mut nodes = network(3);
    let node = &mut nodes[0];
    let (triple0, triple1) = node.source.reserve_pair(10, 11).unwrap();
    node.manager.generate(triple0, triple1, &node.public_key, &node.share).unwrap();
    let batch = node.manager.poke().unwrap();
    assert!(!batch.is_empty());
    assert_eq!(batch.len() % 3, 0);
    let id = batch[0].1.id;
    for (i, (to, message)) in batch.iter().enumerate() {
        assert_eq!(*to, Participant::from((i % 3) as u32));
        assert_eq!(message.id, id);
        assert_eq!(message.triple0, 10);
        assert_eq!(message.triple1, 11);
        assert_eq!(message.epoch, 7);
        assert_eq!(message.from, Participant::from(0u32));
        assert!(!message.data.is_empty());
    }
    // Nothing came in since: the engine waits and the generation stays.
    assert!(node.manager.poke().unwrap().is_empty());
    assert_eq!(node.manager.potential_len(), 1);
    assert_eq!(node.manager.len(), 0);
    assert!(!node.manager.needs_triples(id));
}

#[test]
fn generation_of_three_yields_one_presignature_each() {
    let mut nodes = network(3);
    let (triple0, triple1) = nodes[0].source.reserve_pair(10, 11).unwrap();
    let (public_key, share) = (nodes[0].public_key, nodes[0].share);
    nodes[0].manager.generate(triple0, triple1, &public_key, &share).unwrap();

    let id = run(&mut nodes);

    for node in nodes.iter() {
        assert_eq!(node.manager.len(), 1);
        assert_eq!(node.manager.potential_len(), 1);
        assert!(node.source.triples.is_empty());
    }
    assert_eq!(nodes[0].manager.my_len(), 1);
    assert_eq!(nodes[1].manager.my_len(), 0);
    assert_eq!(nodes[2].manager.my_len(), 0);

    let mine = nodes[0].manager.take_mine().unwrap();
    assert_eq!(mine.id, id);
    assert!(nodes[0].manager.take_mine().is_none());
    assert!(nodes[0].manager.take(id).is_none());
    assert_eq!(nodes[0].manager.len(), 0);

    assert!(nodes[1].manager.take_mine().is_none());
    let second = nodes[1].manager.take(id).unwrap();
    let third = nodes[2].manager.take(id).unwrap();
    assert!(nodes[1].manager.take(id).is_none());
    assert_eq!(second.id, id);
    assert_eq!(third.id, id);
    assert_eq!(mine.output.big_r, second.output.big_r);
    assert_eq!(mine.output.big_r, third.output.big_r);

    // Nothing is left to advance.
    for node in nodes.iter_mut() {
        assert!(node.manager.poke().unwrap().is_empty());
        assert_eq!(node.manager.potential_len(), 0);
    }
}

#[test]
fn two_peers_complete_the_same_presignature() {
    let mut nodes = network(2);
    let (triple0, triple1) = nodes[0].source.reserve_pair(10, 11).unwrap();
    let (public_key, share) = (nodes[0].public_key, nodes[0].share);
    nodes[0].manager.generate(triple0, triple1, &public_key, &share).unwrap();
    assert_eq!(nodes[0].manager.potential_len(), 1);
    assert_eq!(nodes[1].manager.potential_len(), 0);

    let id = run(&mut nodes);

    assert_eq!(nodes[0].manager.my_len(), 1);
    assert_eq!(nodes[1].manager.my_len(), 0);
    assert!(nodes[1].manager.take_mine().is_none());
    let initiated = nodes[0].manager.take_mine().unwrap();
    let joined = nodes[1].manager.take(id).unwrap();
    assert_eq!(initiated.id, id);
    assert_eq!(joined.id, id);
    assert_eq!(initiated.output.big_r, joined.output.big_r);
}

#[test]
fn message_for_a_completed_presignature_is_turned_down() {
    let mut nodes = network(2);
    let (triple0, triple1) = nodes[0].source.reserve_pair(10, 11).unwrap();
    let (public_key, share) = (nodes[0].public_key, nodes[0].share);
    nodes[0].manager.generate(triple0, triple1, &public_key, &share).unwrap();
    let id = run(&mut nodes);
    let node = &mut nodes[1];
    assert!(!node.manager.needs_triples(id));
    let res = node.manager.get_or_generate(id, Err(10), &node.public_key, &node.share);
    assert!(matches!(res, Err(GenerationError::AlreadyGenerated)));
    assert_eq!(node.manager.potential_len(), 1);
}

#[test]
fn garbled_message_makes_the_generation_fail() {
    let mut nodes = network(2);
    let (triple0, triple1) = nodes[0].source.reserve_pair(10, 11).unwrap();
    let (public_key, share) = (nodes[0].public_key, nodes[0].share);
    nodes[0].manager.generate(triple0, triple1, &public_key, &share).unwrap();
    let batch = nodes[0].manager.poke().unwrap();
    let id = batch[0].1.id;
    // Keep the routing header of a real message and garble what follows it.
    let mut data = batch[0].1.data.clone();
    data.truncate(28);
    data.extend_from_slice(&[0xc1; 8]);
    let from = nodes[1].me;
    let node = &mut nodes[0];
    let engine = node.manager.get_or_generate(id, Err(10), &node.public_key, &node.share).unwrap();
    engine.message(from, data);
    let failure = node.manager.poke().unwrap_err();
    assert!(matches!(failure.error, PokeError::Engine(_)));
    assert!(failure.messages.is_empty());
    // The generation is dropped, and its triples are not given back.
    assert_eq!(node.manager.potential_len(), 0);
    assert_eq!(node.manager.len(), 0);
    assert!(node.source.triples.is_empty());
    assert!(node.manager.poke().unwrap().is_empty());
}

#[test]
fn failure_of_one_generation_keeps_the_messages_of_another() {
    let mut nodes = network(2);
    let participants: Vec<Participant> = (0..2u32).map(Participant::from).collect();
    let from = nodes[1].me;
    let node = &mut nodes[0];
    let (triple0, triple1) = node.source.reserve_pair(10, 11).unwrap();
    node.manager.generate_with_id(1, triple0, triple1, &node.public_key, &node.share).unwrap();
    let batch = node.manager.poke().unwrap();
    assert!(!batch.is_empty());

    // The first generation gets a garbled message; a second one is started,
    // whose engine has its opening messages to send.
    let mut data = batch[0].1.data.clone();
    data.truncate(28);
    data.extend_from_slice(&[0xc1; 8]);
    let engine = node.manager.get_or_generate(1, Err(10), &node.public_key, &node.share).unwrap();
    engine.message(from, data);
    let mut more = deal(20, &participants, 2);
    let mut other = deal(21, &participants, 2);
    node.manager
        .generate_with_id(2, more.remove(0), other.remove(0), &node.public_key, &node.share)
        .unwrap();
    assert_eq!(node.manager.potential_len(), 2);

    let failure = node.manager.poke().unwrap_err();
    assert!(matches!(failure.error, PokeError::Engine(_)));
    assert_eq!(failure.messages.len(), batch.len());
    for (i, (to, message)) in failure.messages.iter().enumerate() {
        assert_eq!(*to, participants[i % 2]);
        assert_eq!(message.id, 2);
        assert_eq!(message.triple0, 20);
        assert_eq!(message.triple1, 21);
    }
    // The failed generation is gone, the other one stays in flight.
    assert_eq!(node.manager.potential_len(), 1);
    assert!(node.manager.needs_triples(1));
    assert!(!node.manager.needs_triples(2));
    assert!(node.manager.poke().unwrap().is_empty());
}
