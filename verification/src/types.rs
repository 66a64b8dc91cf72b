//! The plain data that flows through the manager.

use cait_sith::protocol::Participant;
use k256::{AffinePoint, Scalar};
use vstd::prelude::*;

verus! {

/// Identifies one presignature generation on every node that takes part in it.
pub type PresignatureId = u64;

/// Identifies one triple.
pub type TripleId = u64;

/// The group's public key.
pub type PublicKey = AffinePoint;

/// This node's share of the group's secret key.
pub type SecretKeyShare = Scalar;

/// This node's share of a triple `(a, b, c)` with `a * b = c`.
#[derive(Debug)]
pub struct TripleShare {
    pub a: Scalar,
    pub b: Scalar,
    pub c: Scalar,
}

/// The public commitments to a triple.
#[derive(Debug)]
pub struct TriplePub {
    pub big_a: AffinePoint,
    pub big_b: AffinePoint,
    pub big_c: AffinePoint,
    /// Who took part in generating the triple.
    pub participants: Vec<Participant>,
    /// How many participants can reconstruct it.
    pub threshold: usize,
}

/// A single-use triple, as the triple source hands it out.
#[derive(Debug)]
pub struct Triple {
    pub id: TripleId,
    pub share: TripleShare,
    pub public: TriplePub,
}

/// What a finished generation yields: the public nonce commitment and this
/// node's shares of the nonce and of sigma.
#[derive(Debug)]
pub struct PresignatureOutput {
    pub big_r: AffinePoint,
    pub k: Scalar,
    pub sigma: Scalar,
}

/// A completed, unspent presignature.
#[derive(Debug)]
pub struct Presignature {
    pub id: PresignatureId,
    pub output: PresignatureOutput,
}

/// One outbound message of a running generation.
#[derive(Debug)]
pub struct PresignatureMessage {
    pub id: PresignatureId,
    pub triple0: TripleId,
    pub triple1: TripleId,
    pub epoch: u64,
    pub from: Participant,
    pub data: Vec<u8>,
}

} // verus!
