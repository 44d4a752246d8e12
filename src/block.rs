//! The record itself: a header holding the element count, followed by the
//! elements, and the length query that reports how many of them are valid.

use vstd::prelude::*;

verus! {

/// A record block: a 16-bit element count in the header, followed by the
/// trailing run of elements it counts.
pub struct RecordBlock {
    length: u16,
    elements: Vec<i32>,
}

impl RecordBlock {
    /// The count stored in the header.
    pub closed spec fn header(&self) -> u16 {
        self.length
    }

    /// The trailing run of elements.
    pub closed spec fn view(&self) -> Seq<i32> {
        self.elements@
    }

    /// The header counts exactly the elements that follow it.
    pub closed spec fn wf(&self) -> bool {
        self.elements@.len() == self.length as nat
    }

    /// In a well-formed block the header gives the number of elements.
    pub proof fn lemma_header_counts(&self)
        requires
            self.wf(),
        ensures
            self@.len() == self.header() as nat,
    {
    }

    /// A block of `length` elements with the header written. The elements
    /// start out as zero.
    pub fn allocate(length: u16) -> (r: RecordBlock)
        ensures
            r.wf(),
            r.header() == length,
            r@ == Seq::new(length as nat, |i: int| 0i32),
    {
        let elements: Vec<i32> = vec![0i32; length as usize];
        let r = RecordBlock { length, elements };
        assert(r@ =~= Seq::new(length as nat, |i: int| 0i32));
        r
    }

    /// The header's count, as stored.
    pub fn header_length(&self) -> (r: u16)
        ensures
            r == self.header(),
    {
        self.length
    }

    /// The first `count` elements.
    pub fn elements(&self, count: usize) -> (r: &[i32])
        requires
            self.wf(),
            count <= self.header(),
        ensures
            r@ == self@.subrange(0, count as int),
    {
        vstd::slice::slice_subrange(self.elements.as_slice(), 0, count)
    }

    /// The element at `index`.
    pub fn element(&self, index: usize) -> (r: &i32)
        requires
            self.wf(),
            index < self.header(),
        ensures
            *r == self@[index as int],
    {
        &self.elements[index]
    }

    /// Writes `value` at `index`.
    pub fn set(&mut self, index: usize, value: i32)
        requires
            old(self).wf(),
            index < old(self).header(),
        ensures
            final(self).wf(),
            final(self).header() == old(self).header(),
            final(self)@ == old(self)@.update(index as int, value),
    {
        self.elements.set(index, value);
    }

    /// Mutable access to all the elements; the count cannot change through it.
    pub fn elements_mut(&mut self) -> (r: &mut [i32])
        requires
            old(self).wf(),
        ensures
            r@ == old(self)@,
            final(self)@ == final(r)@,
            final(self).header() == old(self).header(),
            final(r)@.len() == r@.len() ==> final(self).wf(),
    {
        self.elements.as_mut_slice()
    }
}

/// The length query: how many elements of `block` are valid. Every accessor
/// asks this rather than reading the header itself; here the header is
/// trusted as it stands.
pub fn get_packet_len(block: &RecordBlock) -> (r: u16)
    ensures
        r == block.header(),
{
    block.header_length()
}

} // verus!
