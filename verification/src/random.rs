//! Random identifiers: wide enough that a repeat is not to be expected, and
//! marked so that none can be taken for a sequential ticket.

use vstd::prelude::*;

verus! {

/// The bits that mark a random identifier: the version nibble and the two
/// variant bits.
pub const RANDOM_MARK_BITS: u128 = 0x0000_0000_0000_f000_c000_0000_0000_0000;

/// What the marked bits hold in a random identifier: version 4, variant `10`.
pub const RANDOM_MARK: u128 = 0x0000_0000_0000_4000_8000_0000_0000_0000;

/// Whether `id` carries the marks of a random identifier.
pub open spec fn is_random_id(id: u128) -> bool {
    id & RANDOM_MARK_BITS == RANDOM_MARK
}

/// Draws a random identifier with `uuid::Uuid::new_v4` and hands it back as
/// the 128-bit number that `Uuid::as_u128` gives. Nothing is claimed of the
/// random bits: the contract states only the version and variant marks,
/// which `new_v4` sets on every identifier it makes. Two draws may well
/// agree; nothing here rules that out. The call aborts the process when the
/// operating system has no random bytes to give.
#[verifier::external_body]
pub(crate) fn random_id() -> (id: u128)
    ensures
        is_random_id(id),
{
    uuid::Uuid::new_v4().as_u128()
}

/// A random identifier lies above every sequential ticket: it does not fit
/// in 64 bits.
pub proof fn lemma_random_id_is_no_ticket(id: u128)
    requires
        is_random_id(id),
    ensures
        id > u64::MAX,
{
    assert(id & 0x0000_0000_0000_f000_c000_0000_0000_0000
        == 0x0000_0000_0000_4000_8000_0000_0000_0000 ==> id > 0xffff_ffff_ffff_ffff)
        by (bit_vector);
}

} // verus!
