//! Error taxonomy for the introspection engine.

use vstd::prelude::*;

verus! {

/// Every failure the engine can report.
///
/// `MemoryRead` carries the foreign address and length of the read that could
/// not be satisfied, so an unverified driver can fetch the missing range and
/// retry. `Decode` marks malformed text or a malformed array header.
/// `SignatureNotFound` and `AnchorNotFound` mark violated structural
/// assumptions during discovery. `UnknownFactionCode` is per-entity and
/// non-fatal: the entity is dropped for the cycle.
#[derive(Clone, Copy, Debug, PartialEq, Eq, Structural)]
pub enum ProbeError {
    MemoryRead { addr: u64, len: u64 },
    Decode,
    SignatureNotFound,
    AnchorNotFound,
    UnknownFactionCode { code: i32 },
}

} // verus!
