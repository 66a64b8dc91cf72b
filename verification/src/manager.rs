//! The presignature manager.

use crate::engine::{accepts, Action, PresignatureProtocol};
use crate::error::{GenerationError, PokeError};
use crate::generator::{timed_out, PresignatureGenerator};
use crate::laws::{
    lemma_advance_wf, lemma_round_names, lemma_run_concat, lemma_run_others, lemma_run_push,
    lemma_take_wf,
};
use crate::state::{
    batch_view, flatten, ids_of, round_complete, sending, steps_of, without, Join, Progress, Round,
    State, ROUND_LIMIT,
};
use crate::types::{
    Presignature, PresignatureId, PresignatureMessage, PublicKey, SecretKeyShare, Triple, TripleId,
};
use cait_sith::protocol::{InitializationError, Participant};
use std::collections::hash_map::Entry;
use std::collections::{HashMap, VecDeque};
use vstd::prelude::*;
use vstd::std_specs::iter::IteratorSpec;

verus! {

/// Owns the presignatures of one signing epoch: the completed ones until they
/// are taken, and the generations that are still running.
pub struct PresignatureManager {
    /// Completed unspent presignatures.
    presignatures: HashMap<PresignatureId, Presignature>,
    /// Ongoing generations.
    generators: HashMap<PresignatureId, PresignatureGenerator>,
    /// The completed presignatures that this node started, oldest first.
    mine: VecDeque<PresignatureId>,
    participants: Vec<Participant>,
    me: Participant,
    threshold: usize,
    epoch: u64,
}

impl View for PresignatureManager {
    type V = State;

    closed spec fn view(&self) -> State {
        State {
            presignatures: self.presignatures@,
            generators: self.generators@.map_values(|g: PresignatureGenerator| g@),
            mine: self.mine@,
            participants: self.participants@,
            me: self.me,
            threshold: self.threshold,
            epoch: self.epoch,
        }
    }
}

/// What `poke` returns when a generation failed: the failure, and the messages
/// that the other generations produced in the same call, which are still to
/// be sent.
#[derive(Debug)]
pub struct PokeFailure {
    /// The failure of the generation that failed last.
    pub error: PokeError,
    /// Every message of the call, as on success.
    pub messages: Vec<(Participant, PresignatureMessage)>,
}

/// Draws an identifier for a new generation with `rand::random`.
///
/// Trusted: the call returns. The number is random, so nothing is claimed of
/// it.
#[verifier::external_body]
fn random_id() -> (id: PresignatureId) {
    rand::random()
}

impl PresignatureManager {
    /// The engines of the generations in flight.
    pub closed spec fn engines(&self) -> Map<PresignatureId, PresignatureProtocol> {
        self.generators@.map_values(|g: PresignatureGenerator| g.protocol)
    }

    /// Every manager holds finitely many presignatures and generations, and
    /// one engine for each generation in flight.
    pub proof fn lemma_finite(&self)
        ensures
            self@.finite(),
            self.engines().dom() == self@.generators.dom(),
    {
        assert(self@.generators.dom() =~= self.generators@.dom());
        assert(self.engines().dom() =~= self.generators@.dom());
    }

    /// A manager that holds nothing yet.
    pub fn new(participants: Vec<Participant>, me: Participant, threshold: usize, epoch: u64) -> (manager:
        Self)
        ensures
            manager@ == State::empty(participants@, me, threshold, epoch),
            manager@.wf(),
            manager.engines() == Map::<PresignatureId, PresignatureProtocol>::empty(),
    {
        let manager = Self {
            presignatures: HashMap::new(),
            generators: HashMap::new(),
            mine: VecDeque::new(),
            participants,
            me,
            threshold,
            epoch,
        };
        assert(manager@.generators =~= Map::empty());
        assert(manager.engines() =~= Map::empty());
        manager
    }

    /// The number of unspent presignatures.
    pub fn len(&self) -> (n: usize)
        ensures
            n == self@.presignatures.len(),
            self@.finite(),
    {
        proof {
            self.lemma_finite();
        }
        self.presignatures.len()
    }

    /// The number of queued presignatures that this node started.
    pub fn my_len(&self) -> (n: usize)
        ensures
            n == self@.mine.len(),
    {
        self.mine.len()
    }

    /// The number of presignatures there will be once every generation in
    /// flight has completed.
    pub fn potential_len(&self) -> (n: usize)
        requires
            self@.presignatures.len() + self@.generators.len() <= usize::MAX,
        ensures
            n == self@.presignatures.len() + self@.generators.len(),
            self@.finite(),
    {
        proof {
            self.lemma_finite();
            assert(self@.generators.dom() =~= self.generators@.dom());
        }
        self.presignatures.len() + self.generators.len()
    }

    /// The number that `potential_len` gives, or `None` where that number
    /// does not fit the machine's word.
    pub fn checked_potential_len(&self) -> (n: Option<usize>)
        ensures
            n is Some <==> self@.presignatures.len() + self@.generators.len() <= usize::MAX,
            n matches Some(sum) ==> sum == self@.presignatures.len() + self@.generators.len(),
            self@.finite(),
    {
        proof {
            self.lemma_finite();
            assert(self@.generators.dom() =~= self.generators@.dom());
        }
        self.presignatures.len().checked_add(self.generators.len())
    }

    /// Whether `take_mine` can be called: the queue is empty, or its head
    /// names a presignature that is still there.
    pub fn head_is_backed(&self) -> (backed: bool)
        ensures
            backed == self@.head_backed(),
    {
        if self.mine.len() == 0 {
            true
        } else {
            self.presignatures.contains_key(&self.mine[0])
        }
    }

    /// Builds the engine of a generation and wraps it with its bookkeeping.
    ///
    /// Succeeds exactly when the engine accepts the parameters.
    pub fn generate_internal(
        participants: &[Participant],
        me: Participant,
        threshold: usize,
        triple0: Triple,
        triple1: Triple,
        public_key: &PublicKey,
        private_share: &SecretKeyShare,
        mine: bool,
    ) -> (res: Result<PresignatureGenerator, InitializationError>)
        ensures
            res is Ok <==> accepts(
                participants@,
                threshold,
                triple0.public.threshold,
                triple1.public.threshold,
            ),
            res matches Ok(generator) ==> {
                &&& generator.triple0 == triple0.id
                &&& generator.triple1 == triple1.id
                &&& generator.mine == mine
            },
    {
        let id0 = triple0.id;
        let id1 = triple1.id;
        match PresignatureProtocol::start(
            participants,
            me,
            threshold,
            triple0,
            triple1,
            public_key,
            private_share,
        ) {
            Ok(protocol) => Ok(PresignatureGenerator::new(protocol, id0, id1, mine)),
            Err(e) => Err(e),
        }
    }

    /// Starts a generation of this node's own under the identifier `id`.
    ///
    /// Succeeds exactly when the engine accepts the parameters, and then puts
    /// the generation in flight under `id`, in place of any generation that
    /// was in flight under it. On failure nothing changes. The manager stays
    /// well-formed unless `id` names a completed presignature.
    pub fn generate_with_id(
        &mut self,
        id: PresignatureId,
        triple0: Triple,
        triple1: Triple,
        public_key: &PublicKey,
        private_share: &SecretKeyShare,
    ) -> (res: Result<(), InitializationError>)
        ensures
            res is Ok <==> accepts(
                old(self)@.participants,
                old(self)@.threshold,
                triple0.public.threshold,
                triple1.public.threshold,
            ),
            res is Err ==> final(self)@ == old(self)@ && final(self).engines() == old(
                self,
            ).engines(),
            res is Ok ==> {
                &&& final(self)@.generators.contains_key(id)
                &&& final(self)@ == old(self)@.started(id, final(self)@.generators[id])
                &&& final(self)@.generators[id].triple0 == triple0.id
                &&& final(self)@.generators[id].triple1 == triple1.id
                &&& final(self)@.generators[id].mine
                &&& final(self).engines().remove(id) == old(self).engines().remove(id)
            },
            old(self)@.wf() && !old(self)@.presignatures.contains_key(id) ==> final(self)@.wf(),
            old(self)@.disjoint() && !old(self)@.presignatures.contains_key(id) ==> final(self)@.disjoint(),
    {
        match Self::generate_internal(
            self.participants.as_slice(),
            self.me,
            self.threshold,
            triple0,
            triple1,
            public_key,
            private_share,
            true,
        ) {
            Ok(generator) => {
                self.generators.insert(id, generator);
                assert(self@.generators =~= old(self)@.generators.insert(id, generator@));
                assert(self.engines().remove(id) =~= old(self).engines().remove(id));
                Ok(())
            },
            Err(e) => Err(e),
        }
    }

    /// Starts a generation of this node's own under a fresh random
    /// identifier.
    ///
    /// The identifier is not checked against those in use. What follows from
    /// each identifier that may be drawn is what `generate_with_id` says.
    pub fn generate(
        &mut self,
        triple0: Triple,
        triple1: Triple,
        public_key: &PublicKey,
        private_share: &SecretKeyShare,
    ) -> (res: Result<(), InitializationError>)
        ensures
            res is Ok <==> accepts(
                old(self)@.participants,
                old(self)@.threshold,
                triple0.public.threshold,
                triple1.public.threshold,
            ),
            res is Err ==> final(self)@ == old(self)@ && final(self).engines() == old(
                self,
            ).engines(),
            res is Ok ==> exists|id: PresignatureId|
                {
                    &&& #[trigger] final(self)@.generators.contains_key(id)
                    &&& final(self)@ == old(self)@.started(id, final(self)@.generators[id])
                    &&& final(self)@.generators[id].triple0 == triple0.id
                    &&& final(self)@.generators[id].triple1 == triple1.id
                    &&& final(self)@.generators[id].mine
                    &&& final(self).engines().remove(id) == old(self).engines().remove(id)
                    &&& old(self)@.wf() && !old(self)@.presignatures.contains_key(id) ==> final(self)@.wf()
                    &&& old(self)@.disjoint() && !old(self)@.presignatures.contains_key(id)
                        ==> final(self)@.disjoint()
                },
    {
        let id = random_id();
        self.generate_with_id(id, triple0, triple1, public_key, private_share)
    }

    /// Applies one answer of the engine of generation `id`.
    ///
    /// `SendMany` adds one message for each participant to `messages`, in the
    /// configured order, and `SendPrivate` one message for the participant it
    /// names. An output turns the generation into a presignature, queued if
    /// this node started it. A failure drops the generation. For an
    /// identifier that is not in flight nothing happens and `None` is
    /// returned.
    pub fn advance(
        &mut self,
        id: PresignatureId,
        outcome: Result<Action, PokeError>,
        messages: &mut Vec<(Participant, PresignatureMessage)>,
    ) -> (res: Option<Progress>)
        ensures
            final(self)@ == old(self)@.advance(id, outcome),
            batch_view(final(messages)@) == batch_view(old(messages)@) + old(self)@.outbound(
                id,
                outcome,
            ),
            res == old(self)@.progress(id, outcome),
            final(self).engines() == (if final(self)@.generators.contains_key(id) {
                old(self).engines()
            } else {
                old(self).engines().remove(id)
            }),
            old(self)@.wf() ==> final(self)@.wf(),
            old(self)@.disjoint() ==> final(self)@.disjoint(),
    {
        proof {
            if old(self)@.wf() {
                lemma_advance_wf(old(self)@, id, outcome);
            }
            assert(self@.generators.dom() =~= self.generators@.dom());
            assert(self.engines().dom() =~= self.generators@.dom());
        }
        let ghost before = batch_view(messages@);
        let (triple0, triple1, mine) = match self.generators.get(&id) {
            None => {
                assert(before + Seq::empty() =~= before);
                assert(self.engines().remove(id) =~= self.engines());
                return None;
            },
            Some(generator) => (generator.triple0, generator.triple1, generator.mine),
        };
        match outcome {
            Err(e) => {
                self.generators.remove(&id);
                assert(self@.generators =~= old(self)@.generators.remove(id));
                assert(self.engines() =~= old(self).engines().remove(id));
                assert(before + Seq::empty() =~= before);
                Some(Progress::Failed(e))
            },
            Ok(Action::Wait) => {
                assert(before + Seq::empty() =~= before);
                Some(Progress::Waiting)
            },
            Ok(Action::SendMany(data)) => {
                let n = self.participants.len();
                let mut i: usize = 0;
                assert(before + Seq::new(
                    0,
                    |j: int| (self@.participants[j], self@.message(id, data@)),
                ) =~= before);
                while i < n
                    invariant
                        i <= n,
                        n == self.participants.len(),
                        *self == *old(self),
                        self@.generators.contains_key(id),
                        self@.generators[id].triple0 == triple0,
                        self@.generators[id].triple1 == triple1,
                        batch_view(messages@) == before + Seq::new(
                            i as nat,
                            |j: int| (self@.participants[j], self@.message(id, data@)),
                        ),
                    decreases n - i,
                {
                    let to = self.participants[i];
                    let payload = data.clone();
                    assert(payload@ =~= data@);
                    let message = PresignatureMessage {
                        id,
                        triple0,
                        triple1,
                        epoch: self.epoch,
                        from: self.me,
                        data: payload,
                    };
                    let ghost sent = batch_view(messages@);
                    messages.push((to, message));
                    assert(batch_view(messages@) =~= sent.push((to, message@)));
                    assert(message@ == self@.message(id, data@));
                    assert(sent.push((to, message@)) =~= before + Seq::new(
                        (i + 1) as nat,
                        |j: int| (self@.participants[j], self@.message(id, data@)),
                    ));
                    i += 1;
                }
                assert(batch_view(messages@) =~= before + old(self)@.outbound(id, outcome));
                Some(Progress::Sending)
            },
            Ok(Action::SendPrivate(to, data)) => {
                let message = PresignatureMessage {
                    id,
                    triple0,
                    triple1,
                    epoch: self.epoch,
                    from: self.me,
                    data,
                };
                messages.push((to, message));
                assert(batch_view(messages@) =~= before + old(self)@.outbound(id, outcome));
                Some(Progress::Sending)
            },
            Ok(Action::Return(output)) => {
                self.generators.remove(&id);
                self.presignatures.insert(id, Presignature { id, output });
                if mine {
                    self.mine.push_back(id);
                }
                assert(self@.generators =~= old(self)@.generators.remove(id));
                assert(self.engines() =~= old(self).engines().remove(id));
                assert(before + Seq::empty() =~= before);
                Some(Progress::Completed)
            },
        }
    }

    /// Asks the engine of generation `id` once, given how long the generation
    /// has run, and applies the answer.
    ///
    /// Over time, the generation fails with `TimedOut` whatever its engine
    /// has pending: it is dropped, no presignature appears and nothing is
    /// sent. Otherwise the engine's answer decides, as `advance` says.
    pub fn step_after(
        &mut self,
        id: PresignatureId,
        elapsed_nanos: u128,
        messages: &mut Vec<(Participant, PresignatureMessage)>,
    ) -> (res: Option<Progress>)
        ensures
            exists|outcome: Result<Action, PokeError>|
                {
                    &&& timed_out(elapsed_nanos) <==> outcome == Err::<Action, PokeError>(
                        PokeError::TimedOut,
                    )
                    &&& final(self)@ == old(self)@.advance(id, outcome)
                    &&& batch_view(final(messages)@) == batch_view(old(messages)@) + old(
                        self,
                    )@.outbound(id, outcome)
                    &&& res == old(self)@.progress(id, outcome)
                },
            final(self).engines().remove(id) == old(self).engines().remove(id),
            timed_out(elapsed_nanos) ==> final(self).engines() == (if old(
                self,
            )@.generators.contains_key(id) {
                old(self).engines().remove(id)
            } else {
                old(self).engines()
            }),
            timed_out(elapsed_nanos) && old(self)@.generators.contains_key(id) ==> {
                &&& res == Some(Progress::Failed(PokeError::TimedOut))
                &&& final(self)@.generators == old(self)@.generators.remove(id)
                &&& final(self)@.presignatures == old(self)@.presignatures
                &&& final(self)@.mine == old(self)@.mine
                &&& batch_view(final(messages)@) == batch_view(old(messages)@)
            },
            old(self)@.wf() ==> final(self)@.wf(),
            old(self)@.disjoint() ==> final(self)@.disjoint(),
    {
        match self.generators.remove(&id) {
            None => {
                proof {
                    let ghost idle: Result<Action, PokeError> = if timed_out(elapsed_nanos) {
                        Err(PokeError::TimedOut)
                    } else {
                        Ok(Action::Wait)
                    };
                    assert(self.generators@ =~= old(self).generators@);
                    assert(batch_view(messages@) + old(self)@.outbound(id, idle) =~= batch_view(
                        messages@,
                    ));
                    assert(self@ == old(self)@.advance(id, idle));
                    assert(self.engines() =~= old(self).engines());
                }
                None
            },
            Some(generator) => {
                let mut generator = generator;
                let ghost asked = generator;
                let outcome = generator.poke_after(elapsed_nanos);
                self.generators.insert(id, generator);
                assert(self@.generators =~= old(self)@.generators);
                assert(self.engines().remove(id) =~= old(self).engines().remove(id));
                proof {
                    if timed_out(elapsed_nanos) {
                        assert(generator == asked);
                        assert(self.engines() =~= old(self).engines());
                    }
                }
                self.advance(id, outcome, messages)
            },
        }
    }

    /// Asks the engine of generation `id` once and applies the answer.
    ///
    /// The clock decides whether the generation is over time; `step_after`
    /// says what follows from each reading.
    pub fn step(&mut self, id: PresignatureId, messages: &mut Vec<(Participant, PresignatureMessage)>) -> (res:
        Option<Progress>)
        ensures
            exists|outcome: Result<Action, PokeError>|
                {
                    &&& final(self)@ == old(self)@.advance(id, outcome)
                    &&& batch_view(final(messages)@) == batch_view(old(messages)@) + old(
                        self,
                    )@.outbound(id, outcome)
                    &&& res == old(self)@.progress(id, outcome)
                },
            final(self).engines().remove(id) == old(self).engines().remove(id),
            old(self)@.wf() ==> final(self)@.wf(),
            old(self)@.disjoint() ==> final(self)@.disjoint(),
    {
        let elapsed_nanos: u128 = match self.generators.get(&id) {
            None => 0,
            Some(generator) => generator.timestamp.elapsed().as_nanos(),
        };
        self.step_after(id, elapsed_nanos, messages)
    }

    /// Runs one round of generation `id`: asks its engine until it has
    /// nothing more to send, and applies each answer as it comes.
    ///
    /// Returns the failure, if the generation failed. For an identifier that
    /// is not in flight nothing happens.
    pub fn drive(&mut self, id: PresignatureId, messages: &mut Vec<(Participant, PresignatureMessage)>) -> (res:
        Option<PokeError>)
        ensures
            !old(self)@.generators.contains_key(id) ==> {
                &&& final(self)@ == old(self)@
                &&& batch_view(final(messages)@) == batch_view(old(messages)@)
                &&& res is None
            },
            old(self)@.generators.contains_key(id) ==> exists|
                answers: Seq<Result<Action, PokeError>>,
            |
                {
                    &&& round_complete(answers)
                    &&& final(self)@ == old(self)@.run(steps_of((id, answers)))
                    &&& batch_view(final(messages)@) == batch_view(old(messages)@) + old(
                        self,
                    )@.sent(steps_of((id, answers)))
                    &&& res == old(self)@.failure(steps_of((id, answers)))
                },
            final(self).engines().remove(id) == old(self).engines().remove(id),
            old(self)@.wf() ==> final(self)@.wf(),
            old(self)@.disjoint() ==> final(self)@.disjoint(),
    {
        let ghost start = self@;
        let ghost before = batch_view(messages@);
        let ghost mut answers: Seq<Result<Action, PokeError>> = Seq::empty();
        let mut failure: Option<PokeError> = None;
        let mut going = true;
        let mut asked: u64 = 0;
        proof {
            assert(steps_of((id, answers)) =~= Seq::empty());
            assert(before + Seq::empty() =~= before);
        }
        while going && asked < ROUND_LIMIT
            invariant
                asked == answers.len(),
                going ==> self@ == start,
                going ==> forall|i: int| 0 <= i < answers.len() ==> sending(#[trigger] answers[i]),
                !going ==> answers.len() >= 1,
                !going ==> forall|i: int|
                    0 <= i < answers.len() - 1 ==> sending(#[trigger] answers[i]),
                !going && start.generators.contains_key(id) ==> !sending(answers.last()),
                self@ == start.run(steps_of((id, answers))),
                batch_view(messages@) == before + start.sent(steps_of((id, answers))),
                failure == start.failure(steps_of((id, answers))),
                !start.generators.contains_key(id) ==> self@ == start && batch_view(messages@)
                    == before && failure is None,
                self.engines().remove(id) == old(self).engines().remove(id),
                start.wf() ==> self@.wf(),
                start.disjoint() ==> self@.disjoint(),
            decreases ROUND_LIMIT - asked,
        {
            let ghost sent = batch_view(messages@);
            let progress = self.step(id, messages);
            proof {
                let outcome = choose|outcome: Result<Action, PokeError>|
                    {
                        &&& self@ == start.advance(id, outcome)
                        &&& batch_view(messages@) == sent + start.outbound(id, outcome)
                        &&& progress == start.progress(id, outcome)
                    };
                let trace = steps_of((id, answers));
                lemma_run_push(start, trace, (id, outcome));
                assert(steps_of((id, answers.push(outcome))) =~= trace.push((id, outcome)));
                assert(before + start.sent(trace) + start.outbound(id, outcome) =~= before + (
                start.sent(trace) + start.outbound(id, outcome)));
                if !start.generators.contains_key(id) {
                    assert(sent + start.outbound(id, outcome) =~= sent);
                }
                answers = answers.push(outcome);
            }
            asked = asked + 1;
            match progress {
                Some(Progress::Sending) => {},
                Some(Progress::Failed(e)) => {
                    failure = Some(e);
                    going = false;
                },
                _ => {
                    going = false;
                },
            }
        }
        proof {
            if start.generators.contains_key(id) {
                assert(round_complete(answers));
                assert(self@ == start.run(steps_of((id, answers))));
                assert(failure == start.failure(steps_of((id, answers))));
            }
        }
        failure
    }

    /// The identifiers of the generations in flight, each once, in the order
    /// in which the map hands them out.
    fn generator_ids(&self) -> (ids: Vec<PresignatureId>)
        ensures
            ids@.no_duplicates(),
            ids@.to_set() == self@.generators.dom(),
    {
        let mut ids: Vec<PresignatureId> = Vec::new();
        let ghost keys: Seq<PresignatureId> = self.generators.keys().remaining().unref();
        for id in it: self.generators.keys()
            invariant
                it.seq().unref() == keys,
                ids@ == keys.take(it.index() as int),
        {
            ids.push(*id);
        }
        assert(ids@ =~= keys);
        assert(self@.generators.dom() =~= self.generators@.dom());
        ids
    }

    /// Pokes every generation in flight and returns the messages to send, each
    /// with the participant it is for.
    ///
    /// Each generation gets one round: its engine is asked until it has
    /// nothing more to send. The generations are taken in no particular
    /// order. One that completes becomes a presignature, one that fails is
    /// dropped, and the others stay in flight. If any failed, the failure of
    /// the last one to fail is returned, together with the messages: those of
    /// the other generations are to be sent all the same.
    ///
    /// An empty batch means that nothing can progress until a new message
    /// arrives.
    pub fn poke(&mut self) -> (res: Result<Vec<(Participant, PresignatureMessage)>, PokeFailure>)
        ensures
            exists|rounds: Seq<Round>|
                {
                    &&& ids_of(rounds).no_duplicates()
                    &&& ids_of(rounds).to_set() == old(self)@.generators.dom()
                    &&& forall|i: int|
                        0 <= i < rounds.len() ==> round_complete((#[trigger] rounds[i]).1)
                    &&& final(self)@ == old(self)@.run(flatten(rounds))
                    &&& match old(self)@.failure(flatten(rounds)) {
                        Some(e) => res matches Err(failure) && failure.error == e && batch_view(
                            failure.messages@,
                        ) == old(self)@.sent(flatten(rounds)),
                        None => res matches Ok(batch) && batch_view(batch@) == old(self)@.sent(
                            flatten(rounds),
                        ),
                    }
                },
            old(self)@.wf() ==> final(self)@.wf(),
            old(self)@.disjoint() ==> final(self)@.disjoint(),
    {
        let ids = self.generator_ids();
        let mut messages: Vec<(Participant, PresignatureMessage)> = Vec::new();
        let mut failure: Option<PokeError> = None;
        let ghost start = self@;
        let ghost mut rounds: Seq<Round> = Seq::empty();
        let mut i: usize = 0;
        proof {
            assert(ids_of(rounds) =~= ids@.take(0));
            assert(batch_view(messages@) =~= Seq::empty());
            assert forall|j: int| 0 <= j < ids.len() implies start.generators.contains_key(
                ids@[j],
            ) by {
                assert(ids@.to_set().contains(ids@[j]));
            }
        }
        while i < ids.len()
            invariant
                i <= ids.len(),
                ids@.no_duplicates(),
                rounds.len() == i,
                ids_of(rounds) == ids@.take(i as int),
                forall|r: int| 0 <= r < rounds.len() ==> round_complete((#[trigger] rounds[r]).1),
                self@ == start.run(flatten(rounds)),
                batch_view(messages@) == start.sent(flatten(rounds)),
                failure == start.failure(flatten(rounds)),
                forall|j: int| i <= j < ids.len() ==> self@.generators.contains_key(#[trigger] ids@[j]),
                start.wf() ==> self@.wf(),
                start.disjoint() ==> self@.disjoint(),
            decreases ids.len() - i,
        {
            let id = ids[i];
            let ghost pre = self@;
            let ghost sent = batch_view(messages@);
            let failed = self.drive(id, &mut messages);
            proof {
                let answers = choose|answers: Seq<Result<Action, PokeError>>|
                    {
                        &&& round_complete(answers)
                        &&& self@ == pre.run(steps_of((id, answers)))
                        &&& batch_view(messages@) == sent + pre.sent(steps_of((id, answers)))
                        &&& failed == pre.failure(steps_of((id, answers)))
                    };
                let round: Round = (id, answers);
                lemma_run_concat(start, flatten(rounds), steps_of(round));
                assert(rounds.push(round).drop_last() =~= rounds);
                assert(flatten(rounds.push(round)) == flatten(rounds) + steps_of(round));
                assert(ids_of(rounds.push(round)) =~= ids@.take(i + 1));
                assert forall|j: int| i + 1 <= j < ids.len() implies self@.generators.contains_key(
                    #[trigger] ids@[j],
                ) by {
                    lemma_round_names(round, ids@[j]);
                    lemma_run_others(pre, steps_of(round), ids@[j]);
                }
                rounds = rounds.push(round);
            }
            match failed {
                Some(e) => {
                    failure = Some(e);
                },
                None => {},
            }
            i = i + 1;
        }
        proof {
            assert(ids@.take(ids.len() as int) =~= ids@);
        }
        match failure {
            Some(error) => Err(PokeFailure { error, messages }),
            None => Ok(messages),
        }
    }

    /// Whether a join under `id` has to start a generation, and so needs the
    /// two triples reserved: the identifier is neither completed nor in
    /// flight.
    pub fn needs_triples(&self, id: PresignatureId) -> (needed: bool)
        ensures
            needed == self@.unknown(id),
    {
        assert(self@.generators.dom() =~= self.generators@.dom());
        !self.presignatures.contains_key(&id) && !self.generators.contains_key(&id)
    }

    /// Joins the generation `id`, or goes on with it, and hands out its
    /// engine so that the caller can feed it the message that came in.
    ///
    /// `reserved` is what the triple source answered when it was asked to
    /// reserve the generation's two triples. It is looked at only where the
    /// identifier is unknown, so the source needs to be asked only where
    /// `needs_triples` says so.
    pub fn get_or_generate(
        &mut self,
        id: PresignatureId,
        reserved: Result<(Triple, Triple), TripleId>,
        public_key: &PublicKey,
        private_share: &SecretKeyShare,
    ) -> (res: Result<&mut PresignatureProtocol, GenerationError>)
        ensures
            match old(self)@.join(id, reserved) {
                Join::AlreadyGenerated => res matches Err(GenerationError::AlreadyGenerated),
                Join::Running => res matches Ok(engine) && *engine == old(self).engines()[id],
                Join::Missing(missing) => res matches Err(GenerationError::TripleIsMissing(named))
                    && named == missing,
                Join::Rejected => res matches Err(GenerationError::CaitSithInitializationError(_)),
                Join::Started => res is Ok,
            },
            old(self)@.join(id, reserved) !is Started ==> final(self)@ == old(self)@,
            old(self)@.join(id, reserved) is Started ==> {
                &&& final(self)@.generators.contains_key(id)
                &&& final(self)@ == old(self)@.started(id, final(self)@.generators[id])
                &&& final(self)@.generators[id].triple0 == reserved->Ok_0.0.id
                &&& final(self)@.generators[id].triple1 == reserved->Ok_0.1.id
                &&& !final(self)@.generators[id].mine
            },
            res matches Ok(engine) ==> final(self).engines() == old(self).engines().insert(
                id,
                *final(engine),
            ),
            old(self)@.wf() ==> final(self)@.wf(),
            old(self)@.disjoint() ==> final(self)@.disjoint(),
    {
        proof {
            assert(self@.generators.dom() =~= self.generators@.dom());
        }
        if self.presignatures.contains_key(&id) {
            return Err(GenerationError::AlreadyGenerated);
        }
        let ghost before = self.generators@;
        match self.generators.entry(id) {
            Entry::Occupied(entry) => {
                let generator = entry.into_mut();
                proof {
                    let after = before.insert(
                        id,
                        PresignatureGenerator { protocol: final(generator).protocol, ..*generator },
                    );
                    assert(after.map_values(|g: PresignatureGenerator| g@) =~= before.map_values(
                        |g: PresignatureGenerator| g@,
                    ));
                    assert(after.map_values(|g: PresignatureGenerator| g.protocol)
                        =~= before.map_values(|g: PresignatureGenerator| g.protocol).insert(
                        id,
                        final(generator).protocol,
                    ));
                }
                Ok(&mut generator.protocol)
            },
            Entry::Vacant(entry) => {
                let (triple0, triple1) = match reserved {
                    Ok(pair) => pair,
                    Err(missing) => {
                        proof {
                            assert(before.remove(id) =~= before);
                        }
                        return Err(GenerationError::TripleIsMissing(missing));
                    },
                };
                let generator = match Self::generate_internal(
                    self.participants.as_slice(),
                    self.me,
                    self.threshold,
                    triple0,
                    triple1,
                    public_key,
                    private_share,
                    false,
                ) {
                    Ok(generator) => generator,
                    Err(e) => {
                        proof {
                            assert(before.remove(id) =~= before);
                        }
                        return Err(GenerationError::CaitSithInitializationError(e));
                    },
                };
                let ghost fresh = generator;
                let generator = entry.insert(generator);
                proof {
                    let after = before.insert(
                        id,
                        PresignatureGenerator { protocol: final(generator).protocol, ..fresh },
                    );
                    assert(after.map_values(|g: PresignatureGenerator| g@) =~= before.map_values(
                        |g: PresignatureGenerator| g@,
                    ).insert(id, fresh@));
                    assert(after.map_values(|g: PresignatureGenerator| g.protocol)
                        =~= before.map_values(|g: PresignatureGenerator| g.protocol).insert(
                        id,
                        final(generator).protocol,
                    ));
                }
                Ok(&mut generator.protocol)
            },
        }
    }

    /// Takes out the oldest presignature that this node started.
    ///
    /// The queue's head has to name a presignature that is still there, which
    /// `head_is_backed` tests. It does in every well-formed state.
    pub fn take_mine(&mut self) -> (res: Option<Presignature>)
        requires
            old(self)@.head_backed(),
        ensures
            (final(self)@, res) == old(self)@.take_mine(),
            final(self).engines() == old(self).engines(),
            old(self)@.wf() ==> final(self)@.wf(),
            old(self)@.disjoint() ==> final(self)@.disjoint(),
    {
        match self.mine.pop_front() {
            None => None,
            Some(id) => {
                let taken = self.presignatures.remove(&id);
                assert(self.mine@ =~= old(self).mine@.drop_first());
                taken
            },
        }
    }

    /// Takes out the presignature under `id`, whoever started it. If it was
    /// queued, it leaves the queue too.
    pub fn take(&mut self, id: PresignatureId) -> (res: Option<Presignature>)
        ensures
            (final(self)@, res) == old(self)@.take(id),
            final(self).engines() == old(self).engines(),
            old(self)@.wf() ==> final(self)@.wf(),
            old(self)@.disjoint() ==> final(self)@.disjoint(),
    {
        proof {
            if old(self)@.wf() {
                lemma_take_wf(old(self)@, id);
            }
        }
        match self.presignatures.remove(&id) {
            None => {
                assert(self.presignatures@ =~= old(self).presignatures@);
                None
            },
            Some(taken) => {
                let mut kept: VecDeque<PresignatureId> = VecDeque::new();
                let n = self.mine.len();
                let mut i: usize = 0;
                assert(self.mine@.take(0) =~= Seq::empty());
                while i < n
                    invariant
                        i <= n,
                        n == self.mine@.len(),
                        kept@ == without(self.mine@.take(i as int), id),
                    decreases n - i,
                {
                    let queued = self.mine[i];
                    assert(self.mine@.take(i + 1).drop_last() =~= self.mine@.take(i as int));
                    if queued != id {
                        kept.push_back(queued);
                    }
                    i = i + 1;
                }
                assert(self.mine@.take(n as int) =~= self.mine@);
                self.mine = kept;
                Some(taken)
            },
        }
    }
}

} // verus!
