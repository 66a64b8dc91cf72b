//! Types of other crates that values of this library carry.
//!
//! Each is opaque to the verifier: a value can be moved, copied where the type
//! is `Copy`, and compared in specifications, and nothing else is known of it.

use vstd::prelude::*;

verus! {

/// A member of the signing group (`cait_sith::protocol::Participant`).
#[verifier::external_type_specification]
#[verifier::external_body]
pub struct ExParticipant(cait_sith::protocol::Participant);

/// A point of the curve in affine form (`k256::AffinePoint`).
#[verifier::external_type_specification]
#[verifier::external_body]
pub struct ExAffinePoint(k256::AffinePoint);

/// An element of the curve's scalar field (`k256::Scalar`).
#[verifier::external_type_specification]
#[verifier::external_body]
pub struct ExScalar(k256::Scalar);

/// The error of an engine that could not be built
/// (`cait_sith::protocol::InitializationError`).
#[verifier::external_type_specification]
#[verifier::external_body]
pub struct ExInitializationError(cait_sith::protocol::InitializationError);

/// The error of an engine that failed while it ran
/// (`cait_sith::protocol::ProtocolError`).
#[verifier::external_type_specification]
#[verifier::external_body]
pub struct ExProtocolError(cait_sith::protocol::ProtocolError);

/// A reading of the monotonic clock (`std::time::Instant`).
#[verifier::external_type_specification]
#[verifier::external_body]
pub struct ExInstant(std::time::Instant);

/// `Instant::now` reads the monotonic clock. Nothing is claimed of the
/// reading.
pub assume_specification[ std::time::Instant::now ]() -> (now: std::time::Instant);

/// `Instant::elapsed` measures the time since the reading was taken. It reads
/// the clock, so nothing is claimed of the result.
pub assume_specification[ std::time::Instant::elapsed ](since: &std::time::Instant) -> (elapsed:
    std::time::Duration);

/// `Duration::as_nanos` gives the length of a span in nanoseconds. The span is
/// opaque here, so nothing is claimed of the number.
pub assume_specification[ std::time::Duration::as_nanos ](span: &std::time::Duration) -> (nanos:
    u128);

} // verus!
