//! Bulk copies into the store: within it, with memmove semantics, and from
//! an outside buffer.

use vstd::prelude::*;

use super::{MemoryStream, StoreModel};

verus! {

/// Bytes moved per step of an internal copy.
pub const COPY_CHUNK: usize = 0x10000;

impl StoreModel {
    /// Bytes that an internal copy moves: `size` cut so that neither range
    /// passes the logical maximum.
    pub open spec fn copy_len(self, src: int, dst: int, size: int) -> int {
        if src >= self.logical_max() || dst >= self.logical_max() {
            0
        } else {
            let room = if self.logical_max() - src < self.logical_max() - dst {
                self.logical_max() - src
            } else {
                self.logical_max() - dst
            };
            if size < room {
                size
            } else {
                room
            }
        }
    }

    /// The store after a memmove of `size` bytes from `src` to `dst`: every
    /// destination byte takes the value its source byte had before the copy,
    /// and both ranges are committed.
    pub open spec fn copied(self, src: int, dst: int, size: int) -> StoreModel {
        let n = self.copy_len(src, dst, size);
        if n <= 0 || src == dst {
            self
        } else {
            let g = self.grown(self.cover(src + n));
            let g = g.grown(g.cover(dst + n));
            StoreModel {
                bytes: Seq::new(
                    self.logical_max(),
                    |i: int|
                        if dst <= i < dst + n {
                            self.bytes[i - dst + src]
                        } else {
                            self.bytes[i]
                        },
                ),
                ..g
            }
        }
    }
}

impl MemoryStream {
    /// Copies `size` bytes from `src_offset` to `dest_offset` with memmove
    /// semantics, cut at the logical maximum; both ranges are committed
    /// first. Overlapping ranges with the destination after the source are
    /// copied back to front.
    pub fn copy_internal(&mut self, src_offset: usize, dest_offset: usize, size: usize)
        requires
            old(self).wf(),
        ensures
            final(self).wf(),
            final(self)@ == old(self)@.copied(src_offset as int, dest_offset as int, size as int),
    {
        proof {
            self.lemma_valid();
        }
        if size == 0 {
            return;
        }
        let logical_max = self.logical_max_memory_size();
        if src_offset >= logical_max || dest_offset >= logical_max {
            return;
        }
        let room = if logical_max - src_offset < logical_max - dest_offset {
            logical_max - src_offset
        } else {
            logical_max - dest_offset
        };
        let max_size = if size < room {
            size
        } else {
            room
        };
        if max_size == 0 || src_offset == dest_offset {
            return;
        }
        let src_end = src_offset + max_size;
        let dest_end = dest_offset + max_size;
        let _ = self.ensure_capacity(
            if src_end < logical_max {
                src_end
            } else {
                src_end - 1
            },
        );
        let _ = self.ensure_capacity(
            if dest_end < logical_max {
                dest_end
            } else {
                dest_end - 1
            },
        );
        let ghost start = old(self)@;
        let ghost grown = self@;
        proof {
            self.lemma_valid();
        }
        let overlap = src_offset < dest_offset && src_end > dest_offset;
        if overlap {
            let mut remaining = max_size;
            while remaining > 0
                invariant
                    self.wf(),
                    self@.valid(),
                    remaining <= max_size,
                    src_offset < dest_offset,
                    dest_end == dest_offset + max_size,
                    dest_end <= logical_max,
                    src_offset + max_size <= logical_max,
                    logical_max == self@.logical_max(),
                    dest_end - 1 < self@.size,
                    dest_end < logical_max ==> dest_end < self@.size,
                    start.bytes.len() == logical_max,
                    self@ == (StoreModel {
                        bytes: Seq::new(
                            logical_max as nat,
                            |k: int|
                                if dest_offset + remaining <= k < dest_end {
                                    start.bytes[k - dest_offset + src_offset]
                                } else {
                                    start.bytes[k]
                                },
                        ),
                        ..grown
                    }),
                decreases remaining,
            {
                let chunk = if COPY_CHUNK < remaining {
                    COPY_CHUNK
                } else {
                    remaining
                };
                let begin = remaining - chunk;
                let buffer = self.read_slice_at(src_offset + begin, chunk);
                self.write_slice_at(dest_offset + begin, buffer.as_slice());
                remaining = begin;
                assert(self@.bytes =~= Seq::new(
                    logical_max as nat,
                    |k: int|
                        if dest_offset + remaining <= k < dest_end {
                            start.bytes[k - dest_offset + src_offset]
                        } else {
                            start.bytes[k]
                        },
                ));
            }
            assert(self@ =~= old(self)@.copied(src_offset as int, dest_offset as int, size as int));
            return;
        }
        let mut done: usize = 0;
        while done < max_size
            invariant
                self.wf(),
                self@.valid(),
                done <= max_size,
                !(src_offset < dest_offset && src_offset + max_size > dest_offset),
                src_offset != dest_offset,
                dest_end == dest_offset + max_size,
                dest_end <= logical_max,
                src_offset + max_size <= logical_max,
                logical_max == self@.logical_max(),
                dest_end - 1 < self@.size,
                dest_end < logical_max ==> dest_end < self@.size,
                start.bytes.len() == logical_max,
                self@ == (StoreModel {
                    bytes: Seq::new(
                        logical_max as nat,
                        |k: int|
                            if dest_offset <= k < dest_offset + done {
                                start.bytes[k - dest_offset + src_offset]
                            } else {
                                start.bytes[k]
                            },
                    ),
                    ..grown
                }),
            decreases max_size - done,
        {
            let chunk = if COPY_CHUNK < max_size - done {
                COPY_CHUNK
            } else {
                max_size - done
            };
            let buffer = self.read_slice_at(src_offset + done, chunk);
            self.write_slice_at(dest_offset + done, buffer.as_slice());
            done = done + chunk;
            assert(self@.bytes =~= Seq::new(
                logical_max as nat,
                |k: int|
                    if dest_offset <= k < dest_offset + done {
                        start.bytes[k - dest_offset + src_offset]
                    } else {
                        start.bytes[k]
                    },
            ));
        }
        assert(self@ =~= old(self)@.copied(src_offset as int, dest_offset as int, size as int));
    }

    /// Copies `src` into the store from `dest_offset` on, cut at the logical
    /// maximum; the cursor does not move.
    pub fn copy_from_external(&mut self, src: &[u8], dest_offset: usize)
        requires
            old(self).wf(),
        ensures
            final(self).wf(),
            final(self)@ == old(self)@.put_slice(dest_offset as int, src@),
    {
        self.write_slice_at(dest_offset, src);
    }
}

} // verus!
