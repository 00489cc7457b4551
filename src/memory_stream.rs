//! Sparse, page-backed byte store standing in for guest RAM plus swap.
//!
//! The logical address space spans `physical_max_memory_size + swap_size`
//! bytes. Pages are materialised (zero-filled) only on first write; pages
//! never written read as zero. A separate committed size grows in 1 MiB
//! chunks as the store is touched and never shrinks.

use vstd::prelude::*;

pub mod access;
pub mod copy;
pub mod meta;

verus! {

/// Growth step of the committed size.
pub const EXPANSION_CHUNK_SIZE: usize = 0x100000;

/// Size of a backing page.
pub const PAGE_SIZE: usize = 0x1000;

/// The abstract state of a [`MemoryStream`].
#[verifier::ext_equal]
pub struct StoreModel {
    /// Contents of the logical address space; its length is the logical maximum.
    pub bytes: Seq<u8>,
    /// The cursor used by the stream-style accessors.
    pub offset: nat,
    /// The committed size.
    pub size: nat,
    pub physical_max: nat,
    pub swap: nat,
}

impl StoreModel {
    pub open spec fn logical_max(self) -> nat {
        self.physical_max + self.swap
    }

    pub open spec fn valid(self) -> bool {
        &&& self.bytes.len() == self.logical_max()
        &&& self.logical_max() <= usize::MAX
        &&& self.size <= self.logical_max()
    }

    /// The byte at `a`; zero outside the logical address space.
    pub open spec fn byte(self, a: int) -> u8 {
        if 0 <= a < self.bytes.len() {
            self.bytes[a]
        } else {
            0
        }
    }

    /// Little-endian 16-bit value at `a`.
    pub open spec fn read_u16(self, a: int) -> int {
        self.byte(a) + 0x100 * self.byte(a + 1)
    }

    /// Little-endian 32-bit value at `a`.
    pub open spec fn read_u32(self, a: int) -> int {
        self.byte(a) + 0x100 * self.byte(a + 1) + 0x10000 * self.byte(a + 2) + 0x1000000
            * self.byte(a + 3)
    }

    /// Little-endian 64-bit value at `a`.
    pub open spec fn read_u64(self, a: int) -> int {
        self.read_u32(a) + 0x1_0000_0000 * self.read_u32(a + 4)
    }

    /// Committed size after a request to cover `required`: unchanged when it
    /// is already covered or can never be, else rounded up to whole chunks
    /// and capped at the logical maximum.
    pub open spec fn committed_for(self, required: int) -> nat {
        if required < self.size || required >= self.logical_max() {
            self.size
        } else {
            let chunks = required / (EXPANSION_CHUNK_SIZE as int) + 1;
            let rounded = chunks * (EXPANSION_CHUNK_SIZE as int);
            if rounded < self.logical_max() {
                rounded as nat
            } else {
                self.logical_max()
            }
        }
    }

    pub open spec fn grown(self, required: int) -> StoreModel {
        StoreModel { size: self.committed_for(required), ..self }
    }

    /// State after storing `v` at `a`: the committed size first grows to
    /// cover `a`; an address outside the logical space changes nothing.
    pub open spec fn put(self, a: int, v: u8) -> StoreModel {
        if 0 <= a < self.logical_max() {
            let g = self.grown(a);
            StoreModel { bytes: g.bytes.update(a, v), ..g }
        } else {
            self
        }
    }

    /// Request that makes the committed size cover the bytes below `end`:
    /// `end` itself while it lies inside the logical space, else the last
    /// byte of that space.
    pub open spec fn cover(self, end: int) -> int {
        if end < self.logical_max() {
            end
        } else {
            self.logical_max() - 1
        }
    }

    /// Number of bytes of `len` that fit from `a` up to the logical maximum.
    pub open spec fn clamped(self, a: int, len: int) -> int {
        if a >= self.logical_max() {
            0
        } else if len < self.logical_max() - a {
            len
        } else {
            self.logical_max() - a
        }
    }

    /// Stores `data` from `a` on, cut at the logical maximum; the committed
    /// size grows to cover what is written.
    pub open spec fn put_slice(self, a: int, data: Seq<u8>) -> StoreModel {
        let n = self.clamped(a, data.len() as int);
        if n <= 0 {
            self
        } else {
            let g = self.grown(self.cover(a + n));
            StoreModel {
                bytes: Seq::new(
                    self.logical_max(),
                    |i: int|
                        if a <= i < a + n {
                            data[i - a]
                        } else {
                            self.bytes[i]
                        },
                ),
                ..g
            }
        }
    }

    /// State after reading one byte at the cursor: past the logical maximum
    /// nothing changes; otherwise the committed size covers the cursor and
    /// the cursor advances.
    pub open spec fn after_read(self) -> StoreModel {
        if self.offset >= self.logical_max() {
            self
        } else {
            StoreModel { offset: self.offset + 1, ..self.grown(self.offset as int) }
        }
    }

    /// State after `n` single-byte reads at the cursor.
    pub open spec fn after_reads(self, n: nat) -> StoreModel
        decreases n,
    {
        if n == 0 {
            self
        } else {
            self.after_read().after_reads((n - 1) as nat)
        }
    }

    /// State after writing `v` at the cursor: dropped past the logical
    /// maximum; otherwise stored and the cursor advances.
    pub open spec fn after_write(self, v: u8) -> StoreModel {
        if self.offset >= self.logical_max() {
            self
        } else {
            StoreModel { offset: self.offset + 1, ..self.put(self.offset as int, v) }
        }
    }

    /// State after writing `v` little-endian at the cursor.
    pub open spec fn after_write16(self, v: u16) -> StoreModel {
        self.after_write((v % 0x100) as u8).after_write((v / 0x100) as u8)
    }

    /// State after writing `v` little-endian at the cursor.
    pub open spec fn after_write32(self, v: u32) -> StoreModel {
        self.after_write((v % 0x100) as u8).after_write(((v / 0x100) % 0x100) as u8).after_write(
            ((v / 0x10000) % 0x100) as u8,
        ).after_write((v / 0x1000000) as u8)
    }

    /// State after writing `v` little-endian at the cursor, low half first.
    pub open spec fn after_write64(self, v: u64) -> StoreModel {
        self.after_write32((v % 0x1_0000_0000) as u32).after_write32(
            (v / 0x1_0000_0000) as u32,
        )
    }

    /// Stores `v` little-endian at `a`, low byte first.
    pub open spec fn put16(self, a: int, v: u16) -> StoreModel {
        self.put(a, (v % 0x100) as u8).put(a + 1, (v / 0x100) as u8)
    }

    /// Stores `v` little-endian at `a`, one byte at a time from the lowest.
    pub open spec fn put32(self, a: int, v: u32) -> StoreModel {
        self.put(a, (v % 0x100) as u8).put(a + 1, ((v / 0x100) % 0x100) as u8).put(
            a + 2,
            ((v / 0x10000) % 0x100) as u8,
        ).put(a + 3, (v / 0x1000000) as u8)
    }

    /// Stores `v` little-endian at `a` as two 32-bit halves, low half first.
    pub open spec fn put64(self, a: int, v: u64) -> StoreModel {
        self.put32(a, (v % 0x1_0000_0000) as u32).put32(a + 4, (v / 0x1_0000_0000) as u32)
    }
}

/// Sparse page-backed memory with a read/write cursor.
pub struct MemoryStream {
    /// One slot per page of the logical space; `None` reads as zeros.
    pages: Vec<Option<Vec<u8>>>,
    offset: usize,
    size: usize,
    physical_max_memory_size: usize,
    swap_size: usize,
}

pub open spec fn page_count_for(logical_max: nat) -> nat {
    if logical_max % (PAGE_SIZE as nat) == 0 {
        logical_max / (PAGE_SIZE as nat)
    } else {
        logical_max / (PAGE_SIZE as nat) + 1
    }
}

/// Reading `a` bytes and then `b` more is reading `a + b` bytes.
pub proof fn lemma_after_reads_add(m: StoreModel, a: nat, b: nat)
    ensures
        m.after_reads(a).after_reads(b) == m.after_reads(a + b),
    decreases a,
{
    if a > 0 {
        lemma_after_reads_add(m.after_read(), (a - 1) as nat, b);
        assert((a + b - 1) as nat == (a - 1) as nat + b);
    }
}

/// Reads at the cursor change neither the bytes nor the logical space.
pub proof fn lemma_after_reads_keep(m: StoreModel, n: nat)
    ensures
        m.after_reads(n).bytes == m.bytes,
        m.after_reads(n).physical_max == m.physical_max,
        m.after_reads(n).swap == m.swap,
        m.offset < m.logical_max() ==> m.after_reads(n).offset == if m.offset + n
            < m.logical_max() {
            m.offset + n
        } else {
            m.logical_max()
        },
        m.offset >= m.logical_max() ==> m.after_reads(n) == m,
    decreases n,
{
    if n > 0 {
        lemma_after_reads_keep(m.after_read(), (n - 1) as nat);
    }
}

/// Splits an address into its page and the offset within that page.
pub proof fn lemma_page_split(a: int, pages: int)
    requires
        0 <= a < pages * (PAGE_SIZE as int),
    ensures
        0 <= a / (PAGE_SIZE as int) < pages,
        0 <= a % (PAGE_SIZE as int) < PAGE_SIZE as int,
        a == (a / (PAGE_SIZE as int)) * (PAGE_SIZE as int) + a % (PAGE_SIZE as int),
{
    vstd::arithmetic::div_mod::lemma_fundamental_div_mod(a, PAGE_SIZE as int);
}

/// Rounding a request up to whole chunks covers it; the rounded size stays
/// within the logical maximum exactly when the chunk count does.
pub proof fn lemma_chunk_round(required: int, logical_max: int)
    requires
        0 <= required < logical_max,
    ensures
        ({
            let chunks = required / (EXPANSION_CHUNK_SIZE as int) + 1;
            let c = EXPANSION_CHUNK_SIZE as int;
            &&& chunks * c > required
            &&& chunks <= logical_max / c ==> chunks * c <= logical_max
            &&& chunks > logical_max / c ==> chunks * c > logical_max
        }),
{
    let c = EXPANSION_CHUNK_SIZE as int;
    vstd::arithmetic::div_mod::lemma_fundamental_div_mod(required, c);
    vstd::arithmetic::div_mod::lemma_fundamental_div_mod(logical_max, c);
}

impl MemoryStream {
    /// The byte stored at `a`, looked up in its page.
    pub closed spec fn stored(&self, a: int) -> u8 {
        let slot = self.pages@[a / (PAGE_SIZE as int)];
        match slot {
            Some(page) => page@[a % (PAGE_SIZE as int)],
            None => 0,
        }
    }

    pub closed spec fn wf(&self) -> bool {
        let logical_max = self.physical_max_memory_size + self.swap_size;
        &&& logical_max <= usize::MAX
        &&& self.pages@.len() == page_count_for(logical_max as nat)
        &&& self.size <= logical_max
        &&& forall|i: int|
            0 <= i < self.pages@.len() ==> match #[trigger] self.pages@[i] {
                Some(page) => page@.len() == PAGE_SIZE,
                None => true,
            }
        &&& forall|a: int|
            self.size <= a < self.pages@.len() * PAGE_SIZE ==> #[trigger] self.stored(a) == 0
    }
}

impl MemoryStream {
    /// What well-formedness shows of the model: the byte sequence spans the
    /// logical space, which fits the address width and holds the committed
    /// size.
    pub proof fn lemma_valid(&self)
        requires
            self.wf(),
        ensures
            self@.valid(),
    {
    }
}

impl View for MemoryStream {
    type V = StoreModel;

    closed spec fn view(&self) -> StoreModel {
        StoreModel {
            bytes: Seq::new(
                (self.physical_max_memory_size + self.swap_size) as nat,
                |a: int| self.stored(a),
            ),
            offset: self.offset as nat,
            size: self.size as nat,
            physical_max: self.physical_max_memory_size as nat,
            swap: self.swap_size as nat,
        }
    }
}

} // verus!
