//! The read-only flag of a partition entry's 64-bit attribute field.

use vstd::prelude::*;

verus! {

/// Position of the read-only flag in an attribute field.
pub const READ_ONLY_BIT: u32 = 60;

/// Mask that selects the read-only flag: bit 60 and nothing else.
pub const READ_ONLY: u64 = 0x1000_0000_0000_0000;

/// Whether the read-only flag is set in `bits`.
pub open spec fn is_read_only(bits: u64) -> bool {
    bits & READ_ONLY != 0
}

/// `bits` with the read-only flag set to `on` and every other bit as it was.
pub open spec fn with_read_only(bits: u64, on: bool) -> u64 {
    if on {
        bits | READ_ONLY
    } else {
        bits & !READ_ONLY
    }
}

/// Tells whether the read-only flag is set in `bits`.
pub fn read_only(bits: u64) -> (on: bool)
    ensures
        on == is_read_only(bits),
{
    (bits & READ_ONLY) != 0
}

/// Returns `bits` with the read-only flag set to `on`.
pub fn set_read_only(bits: u64, on: bool) -> (out: u64)
    ensures
        out == with_read_only(bits, on),
        is_read_only(out) == on,
        out & !READ_ONLY == bits & !READ_ONLY,
{
    proof {
        lemma_flag_is_what_was_written(bits, on);
        lemma_other_bits_are_kept(bits, on);
    }
    if on {
        bits | READ_ONLY
    } else {
        bits & !READ_ONLY
    }
}

/// The mask is the single bit at position `READ_ONLY_BIT`.
pub proof fn lemma_mask_is_bit_60()
    ensures
        READ_ONLY == 1u64 << READ_ONLY_BIT,
{
    assert(0x1000_0000_0000_0000u64 == 1u64 << 60u32) by (bit_vector);
}

/// After writing the flag, reading it gives what was written.
pub proof fn lemma_flag_is_what_was_written(bits: u64, on: bool)
    ensures
        is_read_only(with_read_only(bits, on)) == on,
{
    assert((bits | 0x1000_0000_0000_0000u64) & 0x1000_0000_0000_0000u64 != 0) by (bit_vector);
    assert((bits & !0x1000_0000_0000_0000u64) & 0x1000_0000_0000_0000u64 == 0) by (bit_vector);
}

/// Writing the flag changes no bit but the flag itself.
pub proof fn lemma_other_bits_are_kept(bits: u64, on: bool)
    ensures
        with_read_only(bits, on) & !READ_ONLY == bits & !READ_ONLY,
{
    assert((bits | 0x1000_0000_0000_0000u64) & !0x1000_0000_0000_0000u64 == bits
        & !0x1000_0000_0000_0000u64) by (bit_vector);
    assert((bits & !0x1000_0000_0000_0000u64) & !0x1000_0000_0000_0000u64 == bits
        & !0x1000_0000_0000_0000u64) by (bit_vector);
}

/// Writing the state that the flag already has changes nothing.
pub proof fn lemma_same_state_is_identity(bits: u64)
    ensures
        with_read_only(bits, is_read_only(bits)) == bits,
{
    assert(bits & 0x1000_0000_0000_0000u64 != 0 ==> bits | 0x1000_0000_0000_0000u64 == bits)
        by (bit_vector);
    assert(bits & 0x1000_0000_0000_0000u64 == 0 ==> bits & !0x1000_0000_0000_0000u64 == bits)
        by (bit_vector);
}

/// Flipping the flag and flipping it back restores the attribute field
/// exactly, whatever the other 63 bits hold.
pub proof fn lemma_toggle_twice_restores(bits: u64)
    ensures
        with_read_only(with_read_only(bits, !is_read_only(bits)), is_read_only(bits)) == bits,
{
    assert(bits & 0x1000_0000_0000_0000u64 != 0 ==> (bits & !0x1000_0000_0000_0000u64)
        | 0x1000_0000_0000_0000u64 == bits) by (bit_vector);
    assert(bits & 0x1000_0000_0000_0000u64 == 0 ==> (bits | 0x1000_0000_0000_0000u64)
        & !0x1000_0000_0000_0000u64 == bits) by (bit_vector);
}

} // verus!
