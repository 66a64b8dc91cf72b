//! Lifecycle manager for threshold presignatures.
//!
//! A presignature is produced by a multi-round protocol run jointly by a fixed
//! set of participants. The manager starts such generations, advances them,
//! promotes the finished ones and hands them out exactly once.

pub mod engine;
pub mod error;
pub mod generator;
pub mod laws;
pub mod manager;
pub mod outside;
pub mod state;
pub mod types;

pub use engine::{Action, PresignatureProtocol};
pub use error::{GenerationError, PokeError};
pub use generator::PresignatureGenerator;
pub use manager::{PokeFailure, PresignatureManager};
pub use state::Progress;
pub use types::{
    Presignature, PresignatureId, PresignatureMessage, PresignatureOutput, PublicKey,
    SecretKeyShare, Triple, TripleId, TriplePub, TripleShare,
};
