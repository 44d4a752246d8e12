//! Size and alignment of a record's single allocation.

use vstd::prelude::*;

verus! {

/// Bytes taken by the record header: a 16-bit count, padded to the
/// alignment of the elements that follow it.
pub const HEADER_SIZE: usize = 4;

/// Alignment that the header, and so the whole record, requires.
pub const HEADER_ALIGN: usize = 4;

/// Bytes taken by one trailing element (an `i32`).
pub const ELEMENT_SIZE: usize = 4;

/// Whether `n` is a power of two.
pub open spec fn is_power_of_two(n: nat) -> bool
    decreases n,
{
    if n == 0 {
        false
    } else if n == 1 {
        true
    } else {
        n % 2 == 0 && is_power_of_two(n / 2)
    }
}

/// A size and alignment pair describes a valid allocation when the alignment
/// is a power of two and the size, padded up to a multiple of the alignment,
/// still fits in `isize`.
pub open spec fn valid_layout(size: int, align: int) -> bool {
    &&& align > 0
    &&& is_power_of_two(align as nat)
    &&& size <= isize::MAX - (align - 1)
}

/// Total bytes of a record holding `length` elements.
pub open spec fn record_size(length: nat) -> int {
    HEADER_SIZE + length * ELEMENT_SIZE
}

/// The size and alignment an allocation was made with; it must be handed
/// back unchanged when the allocation is released.
#[derive(Clone, Copy, Debug, PartialEq, Eq, Structural)]
pub struct RecordLayout {
    pub size: usize,
    pub align: usize,
}

/// Power-of-two test by halving.
fn power_of_two(n: usize) -> (r: bool)
    ensures
        r == is_power_of_two(n as nat),
{
    if n == 0 {
        return false;
    }
    let mut m: usize = n;
    while m > 1 && m % 2 == 0
        invariant
            m >= 1,
            is_power_of_two(n as nat) == is_power_of_two(m as nat),
        decreases m,
    {
        m = m / 2;
    }
    m == 1
}

impl RecordLayout {
    /// The layout of a record with `length` elements.
    pub open spec fn spec_for_length(length: nat) -> RecordLayout {
        RecordLayout { size: record_size(length) as usize, align: HEADER_ALIGN }
    }

    /// Builds a layout from a size and an alignment, or `None` where the pair
    /// is invalid (see `valid_layout`).
    pub fn from_size_align(size: usize, align: usize) -> (r: Option<RecordLayout>)
        ensures
            r is Some <==> valid_layout(size as int, align as int),
            r matches Some(l) ==> l.size == size && l.align == align,
    {
        if align == 0 || !power_of_two(align) {
            return None;
        }
        if align - 1 > isize::MAX as usize || size > (isize::MAX as usize) - (align - 1) {
            return None;
        }
        Some(RecordLayout { size, align })
    }

    /// Computes the layout of a record holding `length` elements: the header
    /// followed by `length` elements, aligned as the header requires.
    pub fn for_length(length: u16) -> (r: Option<RecordLayout>)
        ensures
            r is Some <==> valid_layout(record_size(length as nat), HEADER_ALIGN as int),
            r matches Some(l) ==> l == RecordLayout::spec_for_length(length as nat),
    {
        let data_size: usize = length as usize * ELEMENT_SIZE;
        let total_size: usize = HEADER_SIZE + data_size;
        RecordLayout::from_size_align(total_size, HEADER_ALIGN)
    }
}

/// Every 16-bit element count gives a valid layout: record construction
/// never fails on the size computation.
pub proof fn lemma_every_length_has_layout(length: u16)
    ensures
        valid_layout(record_size(length as nat), HEADER_ALIGN as int),
{
    reveal_with_fuel(is_power_of_two, 3);
}

} // verus!
