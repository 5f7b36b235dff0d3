//! The buffers that cross from one call to the next.
//!
//! A bulk result is not copied out to the caller. It is kept in a table, and
//! the caller is given its address and its length. The caller may hand that
//! pair to a later operation, which then looks at the bytes without taking
//! them, and must release each address exactly once.
//!
//! Addresses are numbers that the table gives out, never locations in memory,
//! and no address is given out twice. Releasing an address that is not live,
//! for one because it was released before, is an error that changes nothing.
//! So is looking at a buffer under a length other than its own, or under the
//! length zero: a buffer is only ever read as what it was written as.

use crate::error::LheError;
use vstd::prelude::*;

verus! {

/// The live buffers after the one at `ptr` is released, and whether there was
/// one to release.
pub open spec fn release_of(live: Map<usize, Seq<u8>>, ptr: usize) -> (Map<usize, Seq<u8>>, bool) {
    if live.dom().contains(ptr) {
        (live.remove(ptr), true)
    } else {
        (live, false)
    }
}

/// The bytes seen at `ptr` under the length `len`: those of a live buffer of
/// exactly that length, which is not zero.
pub open spec fn lookup_of(live: Map<usize, Seq<u8>>, ptr: usize, len: usize) -> Option<Seq<u8>> {
    if live.dom().contains(ptr) && len > 0 && live[ptr].len() == len {
        Some(live[ptr])
    } else {
        None
    }
}

/// The table of buffers that were handed out and not yet released.
pub struct BufferTable {
    slots: Vec<Option<Vec<u8>>>,
}

impl View for BufferTable {
    type V = Map<usize, Seq<u8>>;

    /// The live buffers, by address.
    closed spec fn view(&self) -> Map<usize, Seq<u8>> {
        Map::new(
            |ptr: usize| 1 <= ptr <= self.slots@.len() && self.slots@[ptr - 1].is_some(),
            |ptr: usize| self.slots@[ptr - 1].unwrap()@,
        )
    }
}

impl BufferTable {
    /// How many addresses were given out so far.
    pub closed spec fn issued(&self) -> nat {
        self.slots@.len()
    }

    /// Every live address was given out: it lies between one and the number
    /// of addresses given out.
    pub proof fn lemma_live_was_issued(&self, ptr: usize)
        requires
            self@.dom().contains(ptr),
        ensures
            1 <= ptr <= self.issued(),
    {
    }

    /// A table without buffers.
    pub fn new() -> (table: Self)
        ensures
            table@ == Map::<usize, Seq<u8>>::empty(),
            table.issued() == 0,
    {
        let table = BufferTable { slots: Vec::new() };
        assert(table@ =~= Map::<usize, Seq<u8>>::empty());
        table
    }

    /// Takes `bytes` into the table and gives out their address, which was
    /// never given out before. The other buffers stay as they are.
    pub fn publish(&mut self, bytes: Vec<u8>) -> (ptr: usize)
        ensures
            ptr == old(self).issued() + 1,
            !old(self)@.dom().contains(ptr),
            final(self)@ == old(self)@.insert(ptr, bytes@),
            final(self).issued() == old(self).issued() + 1,
    {
        self.slots.push(Some(bytes));
        let ptr = self.slots.len();
        assert(self@ =~= old(self)@.insert(ptr, bytes@));
        ptr
    }

    /// The bytes at `ptr`, seen under the length `len`; the buffer stays in
    /// the table. `Pointer` where `ptr` is not live, `len` is zero, or `len`
    /// is not the length of the buffer.
    pub fn lookup(&self, ptr: usize, len: usize) -> (r: Result<&[u8], LheError>)
        ensures
            match r {
                Ok(bytes) => lookup_of(self@, ptr, len) == Some(bytes@),
                Err(e) => e == LheError::Pointer && lookup_of(self@, ptr, len).is_none(),
            },
    {
        if ptr == 0 || ptr > self.slots.len() || len == 0 {
            return Err(LheError::Pointer);
        }
        match &self.slots[ptr - 1] {
            Some(bytes) => if bytes.len() == len {
                Ok(bytes.as_slice())
            } else {
                Err(LheError::Pointer)
            },
            None => Err(LheError::Pointer),
        }
    }

    /// Releases the buffer at `ptr`. `Pointer`, and the table stays as it is,
    /// where `ptr` is not live.
    pub fn release(&mut self, ptr: usize) -> (r: Result<(), LheError>)
        ensures
            (final(self)@, r.is_ok()) == release_of(old(self)@, ptr),
            r.is_err() ==> r == Err::<(), LheError>(LheError::Pointer),
            final(self).issued() == old(self).issued(),
    {
        if ptr == 0 || ptr > self.slots.len() {
            assert(!self@.dom().contains(ptr));
            return Err(LheError::Pointer);
        }
        if self.slots[ptr - 1].is_none() {
            return Err(LheError::Pointer);
        }
        self.slots.set(ptr - 1, None);
        assert(self@ =~= old(self)@.remove(ptr));
        Ok(())
    }
}

/// Releasing an address twice: the second release finds nothing, reports so
/// and changes nothing, and neither release touches any other buffer.
pub proof fn lemma_release_twice(live: Map<usize, Seq<u8>>, ptr: usize)
    ensures
        !release_of(release_of(live, ptr).0, ptr).1,
        release_of(release_of(live, ptr).0, ptr).0 == release_of(live, ptr).0,
        forall|other: usize|
            other != ptr ==> {
                &&& #[trigger] release_of(live, ptr).0.dom().contains(other) == live.dom().contains(
                    other,
                )
                &&& release_of(live, ptr).0[other] == live[other]
            },
{
}

/// A handle of length zero shows no bytes, whatever its address.
pub proof fn lemma_lookup_zero(live: Map<usize, Seq<u8>>, ptr: usize)
    ensures
        lookup_of(live, ptr, 0).is_none(),
{
}

} // verus!
