//! The two random choices that the server makes.
//!
//! Everything that is believed of `fastrand` and `uuid` stands in this file.
use std::ops::RangeInclusive;
use vstd::prelude::*;

verus! {

/// Whether a number is the 128 bits of a random UUID: version 4, and the variant of RFC 9562.
pub open spec fn is_random_uuid(id: u128) -> bool {
    id & 0xF000_C000_0000_0000_0000 == 0x4000_8000_0000_0000_0000
}

/// Whether a port was drawn from all the ports from `min` to `max`. What that comes to is for this
/// file alone to know: anywhere else only a draw can show it, so a port that was chosen in some
/// other way cannot pass for a drawn one.
pub closed spec fn is_port_drawn(min: u16, max: u16, port: u16) -> bool {
    min <= port <= max
}

/// Whether a name was drawn. As for ports, only a draw can show it elsewhere.
pub closed spec fn is_id_drawn(id: u128) -> bool {
    is_random_uuid(id)
}

/// `fastrand::u16`: some number of the range. The call panics on an empty range.
#[verifier::external_body]
pub(crate) fn port_in(range: &RangeInclusive<u16>) -> (port: u16)
    requires
        range@.start <= range@.end,
        !range@.exhausted,
    ensures
        range@.start <= port <= range@.end,
        is_port_drawn(range@.start, range@.end, port),
{
    fastrand::u16(range.clone())
}

/// `Uuid::new_v4`: a random UUID. Nothing says that it was not drawn before.
#[verifier::external_body]
pub(crate) fn connection_id() -> (id: u128)
    ensures
        is_random_uuid(id),
        is_id_drawn(id),
{
    uuid::Uuid::new_v4().as_u128()
}

} // verus!
