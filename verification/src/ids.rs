//! Opaque identifiers for rooms, players and pending requests.
//!
//! The servers only ever compare identifiers for equality and use them as map
//! keys, so an identifier is modelled as its 128 raw bits; fresh identifiers
//! are drawn from the `uuid` crate's version-4 generator.

use vstd::prelude::*;

verus! {

/// An opaque 128-bit identifier (a UUID seen as its raw bits).
#[derive(Clone, Copy, PartialEq, Eq, Structural, Debug)]
pub struct Id {
    pub bits: u128,
}

impl Id {
    /// Builds the identifier with the given raw bits.
    pub fn from_bits(bits: u128) -> (r: Id)
        ensures
            r.bits == bits,
    {
        Id { bits }
    }
}

/// Relies on `uuid::Uuid::new_v4`: draws a random version-4 UUID. The result
/// is random, so nothing is promised of it; callers must handle every value.
#[verifier::external_body]
pub(crate) fn random_id() -> Id {
    Id { bits: uuid::Uuid::new_v4().as_u128() }
}

} // verus!
