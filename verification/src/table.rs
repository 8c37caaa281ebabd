//! The partition table of the `gptman` crate, as far as the editor reads
//! and changes it.
//!
//! A `gptman::GPT` is opaque to the verifier. What the editor needs of one
//! is named by [`table_entries`]; the functions below are the only code
//! that touches the table, and their contracts are taken on trust from the
//! source of `gptman`.

use vstd::prelude::*;

verus! {

/// `gptman::GPT`: a partition table header together with its array of
/// partition entries. Nothing inside it is visible to the verifier.
#[verifier::external_type_specification]
#[verifier::external_body]
pub struct ExGpt(gptman::GPT);

/// The entries of a table in table order, each as the pair of
/// "entry is unused" and the entry's attribute field.
///
/// Entry number `n` of the table (numbers start at 1, as in `gptman`) is
/// element `n - 1` of this sequence.
pub uninterp spec fn table_entries(table: gptman::GPT) -> Seq<(bool, u64)>;

/// Number of entries in the table.
///
/// Calls `GPT::iter`, which walks the private entry array once, and counts
/// what it yields. The array is only ever built with as many entries as
/// the header's 32-bit entry count says, so the count fits in `u32`.
#[verifier::external_body]
pub(crate) fn partition_count(table: &gptman::GPT) -> (count: u32)
    ensures
        count == table_entries(*table).len(),
{
    table.iter().count() as u32
}

/// Entry `number` of the table, as the pair of "entry is unused" and the
/// entry's attribute field.
///
/// Indexes the table by `number`, calls `GPTPartitionEntry::is_unused` on
/// the entry, and reads its public field `attribute_bits`. Indexing panics
/// on 0 and on a number past the last entry, which the precondition leaves
/// out.
#[verifier::external_body]
pub(crate) fn partition(table: &gptman::GPT, number: u32) -> (entry: (bool, u64))
    requires
        1 <= number <= table_entries(*table).len(),
    ensures
        entry == table_entries(*table)[number - 1],
{
    (table[number].is_unused(), table[number].attribute_bits)
}

/// Stores `bits` as the attribute field of entry `number`.
///
/// Assigns the public field `attribute_bits` of the entry that indexing
/// the table mutably by `number` gives. Whether an entry is unused depends
/// on its type GUID alone, so no entry changes in that respect, and no
/// other entry changes at all.
#[verifier::external_body]
pub(crate) fn set_partition_attribute_bits(table: &mut gptman::GPT, number: u32, bits: u64)
    requires
        1 <= number <= table_entries(*old(table)).len(),
    ensures
        table_entries(*final(table)) == table_entries(*old(table)).update(
            number - 1,
            (table_entries(*old(table))[number - 1].0, bits),
        ),
{
    table[number].attribute_bits = bits;
}

} // verus!
