//! Ranges of bytes in the Markdown source.

use vstd::prelude::*;
use core::ops::Range;
use crate::text::{byte_len, utf8_len};

verus! {

/// A copy of a range.
pub fn copy_range(range: &Range<usize>) -> (r: Range<usize>)
    ensures
        r == *range,
{
    range.start..range.end
}

/// Shifts a range of bytes by `shift`.
pub fn offset_range(range: Range<usize>, shift: usize) -> (r: Range<usize>)
    requires
        range.start + shift <= usize::MAX,
        range.end + shift <= usize::MAX,
    ensures
        r.start == range.start + shift,
        r.end == range.end + shift,
{
    (range.start + shift)..(range.end + shift)
}

/// The address at which the bytes of `s` lie, as `str::as_ptr` gives it.
/// Nothing is claimed of it: it differs from run to run.
#[verifier::external_body]
fn address_of(s: &str) -> (address: usize) {
    s.as_ptr() as usize
}

/// The bytes of a parent that an inner text is made of, from where the two
/// lie and how long they are: the inner text must start at or behind the
/// start of the parent and end at or before its end.
pub open spec fn spec_range_within(
    parent_address: usize,
    parent_len: usize,
    inner_address: usize,
    inner_len: usize,
) -> Option<Range<usize>> {
    if parent_address <= inner_address && inner_address - parent_address + inner_len
        <= parent_len {
        Some(
            Range {
                start: (inner_address - parent_address) as usize,
                end: (inner_address - parent_address + inner_len) as usize,
            },
        )
    } else {
        None
    }
}

/// The bytes of a parent that an inner text is made of, from the addresses
/// and the lengths of the two.
pub fn range_within(
    parent_address: usize,
    parent_len: usize,
    inner_address: usize,
    inner_len: usize,
) -> (r: Option<Range<usize>>)
    ensures
        r == spec_range_within(parent_address, parent_len, inner_address, inner_len),
{
    if inner_address < parent_address {
        return None;
    }
    let start_of_inner_in_parent = inner_address - parent_address;
    if inner_len > usize::MAX - start_of_inner_in_parent {
        return None;
    }
    let one_past_end_of_inner_in_parent = start_of_inner_in_parent + inner_len;
    if one_past_end_of_inner_in_parent > parent_len {
        return None;
    }
    Some(start_of_inner_in_parent..one_past_end_of_inner_in_parent)
}

/// The bytes of `parent` that `inner` is made of, where `inner` lies in the
/// memory of `parent`; else nothing.
///
/// Whether one text lies inside another is a matter of addresses and not of
/// characters, so the contract says only what holds of every range that comes
/// out. What the addresses give is stated by `range_within`.
pub fn get_substr_range(parent: &str, inner: &str) -> (r: Option<Range<usize>>)
    ensures
        r matches Some(range) ==> range.start <= range.end <= utf8_len(parent@) && range.end
            - range.start == utf8_len(inner@),
{
    range_within(address_of(parent), byte_len(parent), address_of(inner), byte_len(inner))
}

} // verus!
