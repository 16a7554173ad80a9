//! A chunk set: an index-addressable sequence of chunks that only grows,
//! paired with a logical clock that the set stores and never interprets.

use super::FsChunk;
use vstd::prelude::*;

verus! {

/// Why a chunk could not be stored.
#[derive(Debug, PartialEq, Eq, Structural, Clone, Copy)]
pub enum ChunkError {
    /// The index is `usize::MAX`: a set that has it would hold more chunks than
    /// a length can count.
    IndexOverflow,
}

/// A versioned, index-addressable collection of chunks.
#[derive(Debug)]
pub struct FsContainer {
    clock: u64,
    chunks: Vec<FsChunk>,
}

/// What a chunk set holds.
pub struct FsContainerView {
    pub clock: u64,
    pub chunks: Seq<Seq<u8>>,
}

/// The chunks after `chunk` was assigned at `index`: as long as the longer of
/// the old length and `index + 1`, `chunk` at `index`, the old chunk wherever
/// there was one, and the empty chunk at every position that the growth made.
pub open spec fn chunks_with(chunks: Seq<Seq<u8>>, index: int, chunk: Seq<u8>) -> Seq<Seq<u8>> {
    Seq::new(
        if chunks.len() > index + 1 { chunks.len() } else { (index + 1) as nat },
        |i: int|
            if i == index {
                chunk
            } else if i < chunks.len() {
                chunks[i]
            } else {
                Seq::<u8>::empty()
            },
    )
}

/// Assigning a chunk never shrinks a set and disturbs no other chunk: the new
/// length is the old one or `index + 1`, whichever is more; the chunk at
/// `index` is the new one; every other old chunk is where it was; and every
/// position that the growth made holds the empty chunk.
pub proof fn lemma_chunks_with(chunks: Seq<Seq<u8>>, index: nat, chunk: Seq<u8>)
    ensures
        chunks_with(chunks, index as int, chunk).len() >= chunks.len(),
        chunks_with(chunks, index as int, chunk).len() > index,
        chunks_with(chunks, index as int, chunk).len() == chunks.len() || chunks_with(
            chunks,
            index as int,
            chunk,
        ).len() == index + 1,
        chunks_with(chunks, index as int, chunk)[index as int] == chunk,
        forall|i: int|
            0 <= i < chunks.len() && i != index ==> #[trigger] chunks_with(
                chunks,
                index as int,
                chunk,
            )[i] == chunks[i],
        forall|i: int|
            chunks.len() <= i < index ==> #[trigger] chunks_with(chunks, index as int, chunk)[i]
                == Seq::<u8>::empty(),
{
}

/// A later assignment at another index keeps an earlier one: after `first` is
/// assigned at `i` and then `second` at `j`, the chunk at `i` is still `first`.
pub proof fn lemma_chunks_with_twice(
    chunks: Seq<Seq<u8>>,
    i: nat,
    first: Seq<u8>,
    j: nat,
    second: Seq<u8>,
)
    requires
        i != j,
    ensures
        chunks_with(chunks_with(chunks, i as int, first), j as int, second)[i as int] == first,
        chunks_with(chunks_with(chunks, i as int, first), j as int, second).len()
            >= chunks_with(chunks, i as int, first).len(),
{
    lemma_chunks_with(chunks, i, first);
    lemma_chunks_with(chunks_with(chunks, i as int, first), j, second);
}

impl View for FsContainer {
    type V = FsContainerView;

    closed spec fn view(&self) -> FsContainerView {
        FsContainerView {
            clock: self.clock,
            chunks: Seq::new(self.chunks@.len(), |i: int| self.chunks@[i]@),
        }
    }
}

impl Clone for FsContainer {
    /// A copy of the set: the same clock and the same chunks.
    fn clone(&self) -> (copy: Self)
        ensures
            copy@ == self@,
    {
        let copy = FsContainer { clock: self.clock, chunks: self.chunks.clone() };
        assert(copy@.chunks =~= self@.chunks);
        copy
    }
}

impl Default for FsContainer {
    /// The empty set with clock zero.
    fn default() -> (set: Self)
        ensures
            set@.clock == 0,
            set@.chunks == Seq::<Seq<u8>>::empty(),
    {
        FsContainer::new(0)
    }
}

impl FsContainer {
    /// An empty set with the given clock.
    pub fn new(clock: u64) -> (set: Self)
        ensures
            set@.clock == clock,
            set@.chunks == Seq::<Seq<u8>>::empty(),
    {
        let set = Self { clock, chunks: Vec::new() };
        assert(set@.chunks =~= Seq::<Seq<u8>>::empty());
        set
    }

    /// The number of chunks in the set.
    pub fn len(&self) -> (n: usize)
        ensures
            n == self@.chunks.len(),
    {
        self.chunks.len()
    }

    /// Assigns `chunk` at `index`. A set shorter than `index + 1` first grows
    /// to that length with empty chunks; no chunk at another index changes, and
    /// the set never shrinks. The clock stays.
    pub fn set_chunk(&mut self, index: usize, chunk: FsChunk) -> (done: Result<(), ChunkError>)
        ensures
            final(self)@.clock == old(self)@.clock,
            index < usize::MAX ==> done == Ok::<(), ChunkError>(()) && final(self)@.chunks
                == chunks_with(old(self)@.chunks, index as int, chunk@),
            index == usize::MAX ==> done == Err::<(), ChunkError>(ChunkError::IndexOverflow)
                && final(self)@ == old(self)@,
    {
        if index == usize::MAX {
            return Err(ChunkError::IndexOverflow);
        }
        while self.chunks.len() < index + 1
            invariant
                index < usize::MAX,
                self.clock == old(self).clock,
                old(self).chunks@.len() <= self.chunks@.len(),
                self.chunks@.len() <= old(self).chunks@.len() || self.chunks@.len() <= index + 1,
                forall|i: int| 0 <= i < old(self).chunks@.len() ==> self.chunks@[i] == old(self).chunks@[i],
                forall|i: int|
                    old(self).chunks@.len() <= i < self.chunks@.len() ==> self.chunks@[i]@
                        == Seq::<u8>::empty(),
            decreases index + 1 - self.chunks.len(),
        {
            self.chunks.push(Vec::new());
        }
        self.chunks[index] = chunk;
        assert(self@.chunks =~= chunks_with(old(self)@.chunks, index as int, chunk@));
        Ok(())
    }

    /// A copy of the chunk at `index`, or `None` where the set has no such
    /// index.
    pub fn get_chunk(&self, index: usize) -> (found: Result<Option<FsChunk>, ChunkError>)
        ensures
            found is Ok,
            index < self@.chunks.len() ==> found->Ok_0 is Some && found->Ok_0->Some_0@
                == self@.chunks[index as int],
            index >= self@.chunks.len() ==> found->Ok_0 is None,
    {
        if index < self.chunks.len() {
            let copy = self.chunks[index].clone();
            Ok(Some(copy))
        } else {
            Ok(None)
        }
    }

    /// The clock.
    pub fn get_clock(&self) -> (clock: u64)
        ensures
            clock == self@.clock,
    {
        self.clock
    }

    /// Replaces the clock. The chunks stay.
    pub fn set_clock(&mut self, clock: u64)
        ensures
            final(self)@.clock == clock,
            final(self)@.chunks == old(self)@.chunks,
    {
        self.clock = clock;
    }
}

} // verus!
