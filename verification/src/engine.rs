//! The cryptographic engine behind one generation.
//!
//! The engine is a resumable state machine of the `cait-sith` crate. The
//! library never looks inside it: it builds one, asks it for its next action
//! and hands it the messages of the peers.

use crate::types::{PresignatureOutput, PublicKey, SecretKeyShare, Triple};
use cait_sith::protocol::{InitializationError, Participant, Protocol};
use cait_sith::triples::{TriplePub, TripleShare};
use cait_sith::{presign, KeygenOutput, PresignArguments, PresignOutput};
use k256::Secp256k1;
use vstd::prelude::*;

verus! {

/// One step of an engine, as the manager reads it.
#[derive(Debug)]
pub enum Action {
    /// Nothing to do until a new message arrives.
    Wait,
    /// Send the payload to every participant.
    SendMany(Vec<u8>),
    /// Send the payload to one participant, privately.
    SendPrivate(Participant, Vec<u8>),
    /// The generation is over, with this output.
    Return(PresignatureOutput),
}

/// A running engine. Its state is hidden from the verifier, which sees only
/// that a value of this type exists: the `dyn` engine inside cannot be named
/// in verified code.
#[verifier::external_body]
pub struct PresignatureProtocol {
    inner: Box<dyn Protocol<Output = PresignOutput<Secp256k1>> + Send + Sync>,
}

/// Whether an engine can be built for these parameters: at least two
/// participants, no participant twice, a threshold that the group can meet and
/// that both triples were generated for.
pub open spec fn accepts(
    participants: Seq<Participant>,
    threshold: usize,
    threshold0: usize,
    threshold1: usize,
) -> bool {
    &&& participants.len() >= 2
    &&& threshold <= participants.len()
    &&& threshold == threshold0
    &&& threshold == threshold1
    &&& participants.no_duplicates()
}

impl PresignatureProtocol {
    /// Builds the engine of one participant with `cait_sith::presign`.
    ///
    /// Trusted: `presign` turns the parameters down exactly when `accepts`
    /// does not hold of them, each time with `BadParameters`, and never panics.
    #[verifier::external_body]
    pub(crate) fn start(
        participants: &[Participant],
        me: Participant,
        threshold: usize,
        triple0: Triple,
        triple1: Triple,
        public_key: &PublicKey,
        private_share: &SecretKeyShare,
    ) -> (res: Result<PresignatureProtocol, InitializationError>)
        ensures
            res is Ok <==> accepts(
                participants@,
                threshold,
                triple0.public.threshold,
                triple1.public.threshold,
            ),
    {
        let (share0, public0, share1, public1) = (triple0.share, triple0.public, triple1.share, triple1.public);
        let args = PresignArguments {
            triple0: (
                TripleShare { a: share0.a, b: share0.b, c: share0.c },
                TriplePub { big_a: public0.big_a, big_b: public0.big_b, big_c: public0.big_c, participants: public0.participants, threshold: public0.threshold },
            ),
            triple1: (
                TripleShare { a: share1.a, b: share1.b, c: share1.c },
                TriplePub { big_a: public1.big_a, big_b: public1.big_b, big_c: public1.big_c, participants: public1.participants, threshold: public1.threshold },
            ),
            keygen_out: KeygenOutput { private_share: *private_share, public_key: *public_key },
            threshold,
        };
        Ok(PresignatureProtocol { inner: Box::new(presign(participants, me, args)?) })
    }

    /// Asks the engine for its next action with `Protocol::poke`.
    ///
    /// Trusted: the call returns. Nothing is claimed of what it returns or of
    /// the state it leaves the engine in.
    #[verifier::external_body]
    pub(crate) fn poke(&mut self) -> (res: Result<Action, cait_sith::protocol::ProtocolError>) {
        match self.inner.poke()? {
            cait_sith::protocol::Action::Wait => Ok(Action::Wait),
            cait_sith::protocol::Action::SendMany(data) => Ok(Action::SendMany(data)),
            cait_sith::protocol::Action::SendPrivate(to, data) => Ok(Action::SendPrivate(to, data)),
            cait_sith::protocol::Action::Return(out) => Ok(
                Action::Return(PresignatureOutput { big_r: out.big_r, k: out.k, sigma: out.sigma }),
            ),
        }
    }

    /// Hands the engine a message of a peer with `Protocol::message`.
    ///
    /// Trusted: the call returns, whatever the payload holds.
    #[verifier::external_body]
    pub fn message(&mut self, from: Participant, data: Vec<u8>) {
        self.inner.message(from, data)
    }
}

} // verus!
