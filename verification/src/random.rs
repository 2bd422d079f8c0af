//! Random numbers.
use vstd::prelude::*;

verus! {

/// A random 32-bit number, drawn by `rand::Rng::gen` from `rand::thread_rng`.
/// Nothing is claimed of its value.
#[verifier::external_body]
pub(crate) fn random_u32() -> (r: u32)
{
    rand::Rng::gen::<u32>(&mut rand::thread_rng())
}

/// A random 16-bit number, drawn by `rand::Rng::gen` from `rand::thread_rng`.
/// Nothing is claimed of its value.
#[verifier::external_body]
pub(crate) fn random_u16() -> (r: u16)
{
    rand::Rng::gen::<u16>(&mut rand::thread_rng())
}

/// Whether `guid` has the form of a random identifier: version 4, and the two high
/// bits of the ninth byte 1 and 0.
pub open spec fn random_form(guid: u128) -> bool {
    (guid >> 76) & 0xf == 4 && (guid >> 62) & 0x3 == 2
}

/// A random identifier from `uuid::Uuid::new_v4`, as the number that
/// `uuid::Uuid::as_u128` gives. It has the form of one; the other bits are random, and
/// nothing is claimed of them.
#[verifier::external_body]
pub(crate) fn random_guid() -> (r: u128)
    ensures
        random_form(r),
{
    uuid::Uuid::new_v4().as_u128()
}

} // verus!
