//! What can go wrong while a presignature is generated.

use crate::types::TripleId;
use cait_sith::protocol::InitializationError;
use vstd::prelude::*;

verus! {

/// Why a generation could not be joined.
#[derive(Debug)]
pub enum GenerationError {
    /// The presignature is complete already.
    AlreadyGenerated,
    /// The triple source does not hold this triple.
    TripleIsMissing(TripleId),
    /// The engine turned the parameters down.
    CaitSithInitializationError(InitializationError),
}

/// Why a running generation was given up.
#[derive(Debug)]
pub enum PokeError {
    /// The generation ran for longer than the protocol timeout.
    TimedOut,
    /// The engine reported a failure.
    Engine(cait_sith::protocol::ProtocolError),
}

} // verus!
