//! One generation in flight: an engine and the bookkeeping around it.

use crate::engine::{Action, PresignatureProtocol};
use crate::error::PokeError;
use crate::types::TripleId;
use std::time::Instant;
use vstd::prelude::*;

verus! {

/// How long a generation may run, in nanoseconds: five minutes.
pub const PROTOCOL_TIMEOUT_NANOS: u128 = 300_000_000_000;

/// Whether a generation that has run for `elapsed_nanos` is over time.
pub open spec fn timed_out(elapsed_nanos: u128) -> bool {
    elapsed_nanos > PROTOCOL_TIMEOUT_NANOS
}

/// An ongoing presignature generation.
pub struct PresignatureGenerator {
    pub protocol: PresignatureProtocol,
    pub triple0: TripleId,
    pub triple1: TripleId,
    pub mine: bool,
    pub timestamp: Instant,
}

impl PresignatureGenerator {
    /// Whether `other` is this generation with, at most, its engine advanced.
    pub open spec fn same_generation(self, other: PresignatureGenerator) -> bool {
        &&& other.triple0 == self.triple0
        &&& other.triple1 == self.triple1
        &&& other.mine == self.mine
        &&& other.timestamp == self.timestamp
    }

    /// Wraps an engine that was just built; the generation's time starts now.
    pub fn new(protocol: PresignatureProtocol, triple0: TripleId, triple1: TripleId, mine: bool) -> (generator: Self)
        ensures
            generator.protocol == protocol,
            generator.triple0 == triple0,
            generator.triple1 == triple1,
            generator.mine == mine,
    {
        Self { protocol, triple0, triple1, mine, timestamp: Instant::now() }
    }

    /// Advances the engine by one action, unless the generation is over time.
    ///
    /// The clock decides which of the two happens; `poke_after` says what
    /// follows from each reading.
    pub fn poke(&mut self) -> (res: Result<Action, PokeError>)
        ensures
            old(self).same_generation(*final(self)),
            res == Err::<Action, PokeError>(PokeError::TimedOut) ==> *final(self) == *old(
                self,
            ),
    {
        let elapsed_nanos: u128 = self.timestamp.elapsed().as_nanos();
        self.poke_after(elapsed_nanos)
    }

    /// Advances the engine by one action, given how long the generation has
    /// run.
    ///
    /// Over time, the generation fails with `TimedOut` and the engine is not
    /// consulted. Otherwise the engine is asked once, and what it answers is
    /// returned: its action, or its failure as `Engine`.
    pub fn poke_after(&mut self, elapsed_nanos: u128) -> (res: Result<Action, PokeError>)
        ensures
            old(self).same_generation(*final(self)),
            timed_out(elapsed_nanos) ==> {
                &&& res == Err::<Action, PokeError>(PokeError::TimedOut)
                &&& *final(self) == *old(self)
            },
            !timed_out(elapsed_nanos) ==> res != Err::<Action, PokeError>(
                PokeError::TimedOut,
            ),
    {
        if elapsed_nanos > PROTOCOL_TIMEOUT_NANOS {
            return Err(PokeError::TimedOut);
        }
        match self.protocol.poke() {
            Ok(action) => Ok(action),
            Err(e) => Err(PokeError::Engine(e)),
        }
    }
}

} // verus!
