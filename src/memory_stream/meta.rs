//! Construction, capacity and cursor bookkeeping.

use vstd::prelude::*;

use super::{lemma_chunk_round, MemoryStream, StoreModel, EXPANSION_CHUNK_SIZE, PAGE_SIZE};

verus! {

impl MemoryStream {
    /// Creates a store whose logical space spans `physical_max_memory_size +
    /// swap_size` bytes, all zero, with `size` bytes committed (capped at the
    /// logical maximum) and the cursor at 0.
    pub fn new(size: usize, physical_max_memory_size: usize, swap_size: usize) -> (s: Self)
        requires
            physical_max_memory_size + swap_size <= usize::MAX,
        ensures
            s.wf(),
            s@.physical_max == physical_max_memory_size,
            s@.swap == swap_size,
            s@.offset == 0,
            s@.size == if size < s@.logical_max() { size as nat } else { s@.logical_max() },
            s@.bytes == Seq::new(s@.logical_max(), |a: int| 0u8),
    {
        let logical_max = physical_max_memory_size + swap_size;
        let page_count = if logical_max % PAGE_SIZE == 0 {
            logical_max / PAGE_SIZE
        } else {
            logical_max / PAGE_SIZE + 1
        };
        let mut pages: Vec<Option<Vec<u8>>> = Vec::new();
        let mut i: usize = 0;
        while i < page_count
            invariant
                i <= page_count,
                pages@.len() == i,
                forall|j: int| 0 <= j < i ==> #[trigger] pages@[j] is None,
            decreases page_count - i,
        {
            pages.push(None);
            i = i + 1;
        }
        let s = MemoryStream {
            pages,
            offset: 0,
            size: if size < logical_max { size } else { logical_max },
            physical_max_memory_size,
            swap_size,
        };
        assert forall|a: int| s.size <= a < s.pages@.len() * PAGE_SIZE implies #[trigger] s.stored(a) == 0 by {
            assert(0 <= a / (PAGE_SIZE as int) < s.pages@.len());
        }
        assert(s@.bytes =~= Seq::new(s@.logical_max(), |a: int| 0u8)) by {
            assert forall|a: int| 0 <= a < s@.logical_max() implies s.stored(a) == 0u8 by {
                assert(0 <= a / (PAGE_SIZE as int) < s.pages@.len());
            }
        }
        s
    }

    /// Moves the cursor, leaving all else as it is.
    pub(crate) fn move_cursor(&mut self, offset: usize)
        requires
            old(self).wf(),
        ensures
            final(self).wf(),
            final(self)@ == (StoreModel { offset: offset as nat, ..old(self)@ }),
    {
        let ghost before = *self;
        self.offset = offset;
        assert forall|a: int| self.size <= a < self.pages@.len() * PAGE_SIZE implies #[trigger] self.stored(a) == 0 by {
            assert(before.stored(a) == 0);
        }
        assert(self@.bytes =~= before@.bytes);
    }

    /// Logical maximum: physical memory plus swap.
    pub fn logical_max_memory_size(&self) -> (r: usize)
        requires
            self.wf(),
        ensures
            r == self@.logical_max(),
    {
        self.physical_max_memory_size + self.swap_size
    }

    pub fn physical_max_memory_size(&self) -> (r: usize)
        ensures
            r == self@.physical_max,
    {
        self.physical_max_memory_size
    }

    pub fn swap_size(&self) -> (r: usize)
        ensures
            r == self@.swap,
    {
        self.swap_size
    }

    /// The committed size.
    pub fn size(&self) -> (r: usize)
        ensures
            r == self@.size,
    {
        self.size
    }

    /// Grows the committed size so that it covers `required_offset`, in whole
    /// chunks and never past the logical maximum. Fails, changing nothing,
    /// when `required_offset` lies at or beyond the logical maximum.
    pub fn ensure_capacity(&mut self, required_offset: usize) -> (r: bool)
        requires
            old(self).wf(),
        ensures
            final(self).wf(),
            r == (required_offset < old(self)@.logical_max()),
            final(self)@ == old(self)@.grown(required_offset as int),
    {
        if required_offset < self.size {
            return true;
        }
        let logical_max = self.logical_max_memory_size();
        if required_offset >= logical_max {
            return false;
        }
        proof {
            lemma_chunk_round(required_offset as int, logical_max as int);
        }
        let chunks = required_offset / EXPANSION_CHUNK_SIZE + 1;
        let new_size = if chunks > logical_max / EXPANSION_CHUNK_SIZE {
            logical_max
        } else {
            chunks * EXPANSION_CHUNK_SIZE
        };
        let ghost before = *self;
        self.size = new_size;
        assert forall|a: int| self.size <= a < self.pages@.len() * PAGE_SIZE implies #[trigger] self.stored(a) == 0 by {
            assert(before.stored(a) == 0);
        }
        assert(final(self)@ =~= old(self)@.grown(required_offset as int));
        true
    }

    /// The cursor.
    pub fn offset(&self) -> (r: usize)
        ensures
            r == self@.offset,
    {
        self.offset
    }

    /// Moves the cursor to `new_offset`, growing the committed size to cover
    /// it. Fails, changing nothing, at or past the logical maximum.
    pub fn set_offset(&mut self, new_offset: usize) -> (r: bool)
        requires
            old(self).wf(),
        ensures
            final(self).wf(),
            r == (new_offset < old(self)@.logical_max()),
            final(self)@ == if r {
                StoreModel { offset: new_offset as nat, ..old(self)@.grown(new_offset as int) }
            } else {
                old(self)@
            },
    {
        if new_offset >= self.logical_max_memory_size() {
            return false;
        }
        if new_offset >= self.size {
            if !self.ensure_capacity(new_offset) {
                return false;
            }
        }
        self.move_cursor(new_offset);
        true
    }

    /// Whether the cursor stands at or past both the committed size and the
    /// logical maximum.
    pub fn is_eof(&self) -> (r: bool)
        requires
            self.wf(),
        ensures
            r == (self@.offset >= self@.size && self@.offset >= self@.logical_max()),
    {
        self.offset >= self.size && self.offset >= self.logical_max_memory_size()
    }
}

} // verus!
