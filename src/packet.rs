//! The owning handle over one record and its allocation.

use vstd::prelude::*;
use vstd::std_specs::iter::IteratorSpec;
use vstd::string::*;

use crate::block::{get_packet_len, RecordBlock};
use crate::text::{decimal, list_text, push_decimal, push_list};
use crate::layout::{lemma_every_length_has_layout, record_size, valid_layout, RecordLayout, HEADER_ALIGN};

verus! {

/// The largest element count the 16-bit header can hold.
pub const MAX_ELEMENTS: usize = 65535;

/// Why a record could not be built.
#[derive(Clone, Copy, Debug, PartialEq, Eq, Structural)]
pub enum PacketError {
    /// The size or alignment of the allocation is invalid, or memory ran out.
    AllocationFailed,
    /// The source holds more elements than the header can count.
    CapacityOverflow,
}

/// What building a record from `s` gives: its elements, or the error.
pub open spec fn sequence_result(s: Seq<i32>) -> Result<Seq<i32>, PacketError> {
    if s.len() > MAX_ELEMENTS {
        Err(PacketError::CapacityOverflow)
    } else {
        Ok(s)
    }
}

/// The human-readable form of a record with elements `vals`:
/// `Packet(length: 3, data: [1, 2, 3])`.
pub open spec fn display_text(vals: Seq<i32>) -> Seq<char> {
    "Packet(length: "@ + decimal(vals.len() as int) + ", data: "@ + list_text(vals) + ")"@
}

/// The structured form of a record with elements `vals`:
/// `Packet { length: 3, data: [1, 2, 3] }`.
pub open spec fn debug_text(vals: Seq<i32>) -> Seq<char> {
    "Packet { length: "@ + decimal(vals.len() as int) + ", data: "@ + list_text(vals) + " }"@
}

/// An owned variable-length record, together with the layout its allocation
/// was made with.
pub struct Packet {
    block: RecordBlock,
    layout: RecordLayout,
}

impl Packet {
    /// The elements, as many as the header counts.
    pub closed spec fn view(&self) -> Seq<i32> {
        self.block@
    }

    /// The count written into the header at construction.
    pub closed spec fn spec_len(&self) -> nat {
        self.block.header() as nat
    }

    /// The layout recorded at construction.
    pub closed spec fn spec_layout(&self) -> RecordLayout {
        self.layout
    }

    /// The header counts the elements, and the recorded layout is the one
    /// computed from that count.
    pub closed spec fn wf(&self) -> bool {
        &&& self.block.wf()
        &&& self.layout == RecordLayout::spec_for_length(self.block.header() as nat)
    }

    /// A well-formed record has as many elements as its header counts, and
    /// that count fits in 16 bits.
    pub proof fn lemma_wf_len(&self)
        requires
            self.wf(),
        ensures
            self@.len() == self.spec_len(),
            self.spec_len() <= MAX_ELEMENTS,
    {
        self.block.lemma_header_counts();
    }

    /// Creates a record of `length` elements, or `None` where its layout is
    /// invalid; no 16-bit count gives an invalid layout. The elements start
    /// out as zero.
    pub fn new(length: u16) -> (r: Option<Packet>)
        ensures
            r is Some <==> valid_layout(record_size(length as nat), HEADER_ALIGN as int),
            r is Some,
            r matches Some(p) ==> {
                &&& p.wf()
                &&& p.spec_len() == length
                &&& p@ == Seq::new(length as nat, |i: int| 0i32)
                &&& p.spec_layout() == RecordLayout::spec_for_length(length as nat)
            },
    {
        proof {
            lemma_every_length_has_layout(length);
        }
        let layout = match RecordLayout::for_length(length) {
            Some(l) => l,
            None => {
                return None;
            },
        };
        let block = RecordBlock::allocate(length);
        Some(Packet { block, layout })
    }

    /// The number of valid elements, as the length query reports it.
    pub fn len(&self) -> (r: u16)
        requires
            self.wf(),
        ensures
            r == self.spec_len(),
            r == self@.len(),
    {
        proof {
            self.block.lemma_header_counts();
        }
        get_packet_len(&self.block)
    }

    /// Whether the record has no elements.
    pub fn is_empty(&self) -> (r: bool)
        requires
            self.wf(),
        ensures
            r == (self@.len() == 0),
    {
        self.len() == 0
    }

    /// A view of the valid elements.
    pub fn data(&self) -> (r: &[i32])
        requires
            self.wf(),
        ensures
            r@ == self@,
    {
        let length = self.len() as usize;
        let r = self.block.elements(length);
        assert(r@ =~= self@);
        r
    }

    /// The element at `index`, or `None` where `index` is not below `len()`.
    pub fn get(&self, index: usize) -> (r: Option<&i32>)
        requires
            self.wf(),
        ensures
            r is Some <==> index < self@.len(),
            r matches Some(v) ==> *v == self@[index as int],
    {
        let length = self.len() as usize;
        if index >= length {
            return None;
        }
        Some(self.block.element(index))
    }

    /// A mutable view of the valid elements. Writes through it change the
    /// elements; the count and the layout stay as they were.
    pub fn data_mut(&mut self) -> (r: &mut [i32])
        requires
            old(self).wf(),
        ensures
            r@ == old(self)@,
            final(self)@ == final(r)@,
            final(self).spec_len() == old(self).spec_len(),
            final(self).spec_layout() == old(self).spec_layout(),
            final(r)@.len() == r@.len() ==> final(self).wf(),
    {
        self.block.elements_mut()
    }

    /// Writes `value` over every element of a well-formed record.
    fn fill(&mut self, value: i32)
        requires
            old(self).wf(),
        ensures
            final(self).wf(),
            final(self).spec_len() == old(self).spec_len(),
            final(self).spec_layout() == old(self).spec_layout(),
            final(self)@ == Seq::new(old(self).spec_len(), |i: int| value),
    {
        proof {
            self.block.lemma_header_counts();
        }
        let length = get_packet_len(&self.block) as usize;
        let mut i: usize = 0;
        while i < length
            invariant
                self.wf(),
                self.spec_len() == length,
                self.spec_layout() == old(self).spec_layout(),
                self@.len() == length,
                i <= length,
                forall|j: int| 0 <= j < i ==> self@[j] == value,
            decreases length - i,
        {
            self.block.set(i, value);
            proof {
                self.block.lemma_header_counts();
            }
            i = i + 1;
        }
        assert(self@ =~= Seq::new(self.spec_len(), |i: int| value));
    }

    /// A record of no elements.
    pub fn empty() -> (r: Packet)
        ensures
            r.wf(),
            r@ == Seq::<i32>::empty(),
    {
        let r = Packet::new(0).expect("Failed to create empty packet");
        assert(r@ =~= Seq::<i32>::empty());
        r
    }

    /// A record of `count` elements, each equal to `value`.
    pub fn from_elem(value: i32, count: usize) -> (r: Result<Packet, PacketError>)
        ensures
            r is Ok <==> count <= MAX_ELEMENTS,
            r matches Ok(p) ==> p.wf() && p@ == Seq::new(count as nat, |i: int| value),
            r matches Err(e) ==> e == PacketError::CapacityOverflow,
    {
        if count > MAX_ELEMENTS {
            return Err(PacketError::CapacityOverflow);
        }
        let mut p = match Packet::new(count as u16) {
            Some(p) => p,
            None => {
                return Err(PacketError::AllocationFailed);
            },
        };
        p.fill(value);
        Ok(p)
    }

    /// A record holding a copy of `data`, in order. Fails with
    /// `CapacityOverflow` where `data` is longer than the header can count.
    pub fn try_from(data: &[i32]) -> (r: Result<Packet, PacketError>)
        ensures
            r matches Ok(p) ==> p.wf() && sequence_result(data@) == Ok::<Seq<i32>, PacketError>(p@),
            r matches Err(e) ==> sequence_result(data@) == Err::<Seq<i32>, PacketError>(e),
    {
        let n = data.len();
        if n > MAX_ELEMENTS {
            return Err(PacketError::CapacityOverflow);
        }
        let mut p = match Packet::new(n as u16) {
            Some(p) => p,
            None => {
                return Err(PacketError::AllocationFailed);
            },
        };
        proof {
            p.block.lemma_header_counts();
        }
        let mut i: usize = 0;
        while i < n
            invariant
                p.wf(),
                p.spec_len() == n,
                p@.len() == n,
                n == data@.len(),
                i <= n,
                forall|j: int| 0 <= j < i ==> p@[j] == data@[j],
            decreases n - i,
        {
            p.block.set(i, data[i]);
            proof {
                p.block.lemma_header_counts();
            }
            i = i + 1;
        }
        assert(p@ =~= data@);
        Ok(p)
    }

    /// The element at `index`. Unlike `get`, an index at or past `len()`
    /// is a caller error: it is excluded by the precondition, and an
    /// unchecked caller that breaks it is stopped with a panic.
    pub fn index(&self, index: usize) -> (r: &i32)
        requires
            self.wf(),
            index < self@.len(),
        ensures
            *r == self@[index as int],
    {
        self.get(index).expect("Index out of bounds")
    }

    /// The elements at positions `start` up to, not including, `end`.
    pub open spec fn sub_view(&self, start: int, end: int) -> Seq<i32> {
        self@.subrange(start, end)
    }

    /// The elements in `range`.
    pub fn index_range(&self, range: std::ops::Range<usize>) -> (r: &[i32])
        requires
            self.wf(),
            range.start <= range.end <= self@.len(),
        ensures
            r@ == self.sub_view(range.start as int, range.end as int),
    {
        vstd::slice::slice_subrange(self.data(), range.start, range.end)
    }

    /// The elements from `start` to the end.
    pub fn index_range_from(&self, start: usize) -> (r: &[i32])
        requires
            self.wf(),
            start <= self@.len(),
        ensures
            r@ == self.sub_view(start as int, self@.len() as int),
    {
        let d = self.data();
        vstd::slice::slice_subrange(d, start, d.len())
    }

    /// The elements before `end`.
    pub fn index_range_to(&self, end: usize) -> (r: &[i32])
        requires
            self.wf(),
            end <= self@.len(),
        ensures
            r@ == self.sub_view(0, end as int),
    {
        vstd::slice::slice_subrange(self.data(), 0, end)
    }

    /// All the elements.
    pub fn index_range_full(&self) -> (r: &[i32])
        requires
            self.wf(),
        ensures
            r@ == self.sub_view(0, self@.len() as int),
    {
        let r = self.data();
        assert(r@ =~= self.sub_view(0, self@.len() as int));
        r
    }

    /// The elements from `start` up to and including `last`.
    pub fn index_range_inclusive(&self, start: usize, last: usize) -> (r: &[i32])
        requires
            self.wf(),
            start <= last + 1,
            last < self@.len(),
        ensures
            r@ == self.sub_view(start as int, last + 1),
    {
        proof {
            self.lemma_wf_len();
        }
        vstd::slice::slice_subrange(self.data(), start, last + 1)
    }

    /// The elements up to and including `last`.
    pub fn index_range_to_inclusive(&self, last: usize) -> (r: &[i32])
        requires
            self.wf(),
            last < self@.len(),
        ensures
            r@ == self.sub_view(0, last + 1),
    {
        proof {
            self.lemma_wf_len();
        }
        vstd::slice::slice_subrange(self.data(), 0, last + 1)
    }

    /// The record block this handle owns.
    pub fn as_ptr(&self) -> (r: &RecordBlock)
        requires
            self.wf(),
        ensures
            r.wf(),
            r@ == self@,
            r.header() == self.spec_len(),
    {
        &self.block
    }

    /// Mutable access to the record block this handle owns. The handle stays
    /// well-formed as long as the block does and its header keeps its count.
    pub fn as_mut_ptr(&mut self) -> (r: &mut RecordBlock)
        requires
            old(self).wf(),
        ensures
            r.wf(),
            r@ == old(self)@,
            r.header() == old(self).spec_len(),
            final(self)@ == final(r)@,
            final(self).spec_len() == final(r).header(),
            final(self).spec_layout() == old(self).spec_layout(),
            final(r).wf() && final(r).header() == r.header() ==> final(self).wf(),
    {
        &mut self.block
    }

    /// The layout the allocation was made with.
    pub fn layout(&self) -> (r: RecordLayout)
        requires
            self.wf(),
        ensures
            r == self.spec_layout(),
            r == RecordLayout::spec_for_length(self.spec_len()),
    {
        self.layout
    }

    /// Gives up the record and its allocation, returning the layout the
    /// allocation is released with: the one recorded at construction. Taking
    /// the handle by value means a record is released once.
    pub fn release(self) -> (r: RecordLayout)
        requires
            self.wf(),
        ensures
            r == self.spec_layout(),
            r == RecordLayout::spec_for_length(self.spec_len()),
    {
        self.layout
    }

    /// The valid elements, in order, one at a time.
    pub fn iter(&self) -> (r: std::slice::Iter<'_, i32>)
        requires
            self.wf(),
        ensures
            r.remaining() == self@.as_ref(),
    {
        self.data().iter()
    }

    /// A copy of the valid elements, in order.
    pub fn to_vec(&self) -> (r: Vec<i32>)
        requires
            self.wf(),
        ensures
            r@ == self@,
    {
        vstd::slice::slice_to_vec(self.data())
    }

    /// The human-readable form, as `display_text` gives it.
    pub fn to_string(&self) -> (r: String)
        requires
            self.wf(),
        ensures
            r@ == display_text(self@),
    {
        let mut s = String::from_str("Packet(length: ");
        push_decimal(&mut s, self.len() as i32);
        s.append(", data: ");
        push_list(&mut s, self.data());
        s.append(")");
        s
    }

    /// The structured form, as `debug_text` gives it.
    pub fn debug_string(&self) -> (r: String)
        requires
            self.wf(),
        ensures
            r@ == debug_text(self@),
    {
        let mut s = String::from_str("Packet { length: ");
        push_decimal(&mut s, self.len() as i32);
        s.append(", data: ");
        push_list(&mut s, self.data());
        s.append(" }");
        s
    }
}

/// Every sequence short enough for the header to count converts to a record
/// whose elements are that sequence, element for element.
pub proof fn lemma_round_trip(s: Seq<i32>)
    requires
        s.len() <= MAX_ELEMENTS,
    ensures
        sequence_result(s) == Ok::<Seq<i32>, PacketError>(s),
{
}

/// A sub-view over a valid range `[start, end)` holds exactly the elements
/// of the full view at those positions, and an empty range gives an empty
/// view.
pub proof fn lemma_sub_view(p: &Packet, start: int, end: int)
    requires
        p.wf(),
        0 <= start <= end <= p@.len(),
    ensures
        p.sub_view(start, end).len() == end - start,
        forall|i: int| 0 <= i < end - start ==> #[trigger] p.sub_view(start, end)[i] == p@[start + i],
        start == end ==> p.sub_view(start, end) == Seq::<i32>::empty(),
{
    if start == end {
        assert(p.sub_view(start, end) =~= Seq::<i32>::empty());
    }
}

} // verus!
