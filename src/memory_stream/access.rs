//! Byte access, both at an absolute address and at the cursor.

use vstd::prelude::*;

use super::{
    lemma_after_reads_add, lemma_after_reads_keep, lemma_page_split, MemoryStream, StoreModel,
    PAGE_SIZE,
};

verus! {

impl MemoryStream {
    /// Reads the byte at `address` without moving the cursor; zero outside
    /// the logical space and wherever nothing was written.
    pub fn read_byte_at(&self, address: usize) -> (r: u8)
        requires
            self.wf(),
        ensures
            r == self@.byte(address as int),
    {
        if address >= self.size {
            return 0;
        }
        let page_index = address / PAGE_SIZE;
        if page_index >= self.pages.len() {
            return 0;
        }
        let page_off = address % PAGE_SIZE;
        match &self.pages[page_index] {
            Some(page) => page[page_off],
            None => 0,
        }
    }

    /// Reads a little-endian 16-bit value at `address`.
    pub fn read_short_at(&self, address: usize) -> (r: u16)
        requires
            self.wf(),
            address + 1 <= usize::MAX,
        ensures
            r == self@.read_u16(address as int),
    {
        let low = self.read_byte_at(address) as u16;
        let high = self.read_byte_at(address + 1) as u16;
        low + high * 0x100
    }

    /// Reads a little-endian 32-bit value at `address`.
    pub fn read_dword_at(&self, address: usize) -> (r: u32)
        requires
            self.wf(),
            address + 3 <= usize::MAX,
        ensures
            r == self@.read_u32(address as int),
    {
        let b0 = self.read_byte_at(address) as u32;
        let b1 = self.read_byte_at(address + 1) as u32;
        let b2 = self.read_byte_at(address + 2) as u32;
        let b3 = self.read_byte_at(address + 3) as u32;
        b0 + b1 * 0x100 + b2 * 0x10000 + b3 * 0x1000000
    }

    /// Reads a little-endian 64-bit value at `address`.
    pub fn read_qword_at(&self, address: usize) -> (r: u64)
        requires
            self.wf(),
            address + 7 <= usize::MAX,
        ensures
            r == self@.read_u64(address as int),
    {
        let low = self.read_dword_at(address) as u64;
        let high = self.read_dword_at(address + 4) as u64;
        low + high * 0x1_0000_0000
    }

    /// Writes the byte at `address` without moving the cursor, growing the
    /// committed size and materialising the page as needed. A write outside
    /// the logical space is dropped.
    pub fn write_byte_at(&mut self, address: usize, value: u8)
        requires
            old(self).wf(),
        ensures
            final(self).wf(),
            final(self)@ == old(self)@.put(address as int, value),
    {
        if address >= self.logical_max_memory_size() {
            return;
        }
        if address >= self.size {
            let _ = self.ensure_capacity(address);
        }
        let page_index = address / PAGE_SIZE;
        let page_off = address % PAGE_SIZE;
        let ghost before = *self;
        let mut slot: Option<Vec<u8>> = None;
        self.pages.set_and_swap(page_index, &mut slot);
        let mut page = match slot {
            Some(page) => page,
            None => vec![0u8; PAGE_SIZE],
        };
        page.set(page_off, value);
        self.pages.set(page_index, Some(page));
        proof {
            let n = self.pages@.len() as int;
            lemma_page_split(address as int, n);
            assert forall|a: int| 0 <= a < n * PAGE_SIZE && a != address implies #[trigger] self.stored(a) == before.stored(a) by {
                lemma_page_split(a, n);
            }
            assert(self.stored(address as int) == value);
        }
        assert(final(self)@ =~= old(self)@.put(address as int, value));
    }

    /// Writes a little-endian 16-bit value at `address`.
    pub fn write_short_at(&mut self, address: usize, value: u16)
        requires
            old(self).wf(),
            address + 1 <= usize::MAX,
        ensures
            final(self).wf(),
            final(self)@ == old(self)@.put16(address as int, value),
    {
        self.write_byte_at(address, (value % 0x100) as u8);
        self.write_byte_at(address + 1, (value / 0x100) as u8);
    }

    /// Writes a little-endian 32-bit value at `address`.
    pub fn write_dword_at(&mut self, address: usize, value: u32)
        requires
            old(self).wf(),
            address + 3 <= usize::MAX,
        ensures
            final(self).wf(),
            final(self)@ == old(self)@.put32(address as int, value),
    {
        self.write_byte_at(address, (value % 0x100) as u8);
        self.write_byte_at(address + 1, ((value / 0x100) % 0x100) as u8);
        self.write_byte_at(address + 2, ((value / 0x10000) % 0x100) as u8);
        self.write_byte_at(address + 3, (value / 0x1000000) as u8);
    }

    /// Writes a little-endian 64-bit value at `address`.
    pub fn write_qword_at(&mut self, address: usize, value: u64)
        requires
            old(self).wf(),
            address + 7 <= usize::MAX,
        ensures
            final(self).wf(),
            final(self)@ == old(self)@.put64(address as int, value),
    {
        self.write_dword_at(address, (value % 0x1_0000_0000) as u32);
        self.write_dword_at(address + 4, (value / 0x1_0000_0000) as u32);
    }

    /// The `len` bytes from `address` on; zero past the logical maximum.
    pub(crate) fn read_slice_at(&self, address: usize, len: usize) -> (r: Vec<u8>)
        requires
            self.wf(),
            address + len <= usize::MAX,
        ensures
            r@ == Seq::new(len as nat, |i: int| self@.byte(address + i)),
    {
        let mut out: Vec<u8> = Vec::new();
        let mut i: usize = 0;
        while i < len
            invariant
                self.wf(),
                address + len <= usize::MAX,
                i <= len,
                out@ == Seq::new(i as nat, |k: int| self@.byte(address + k)),
            decreases len - i,
        {
            let b = self.read_byte_at(address + i);
            out.push(b);
            i = i + 1;
            assert(out@ =~= Seq::new(i as nat, |k: int| self@.byte(address + k)));
        }
        out
    }

    /// Stores `data` from `address` on, cut at the logical maximum, growing
    /// the committed size once to cover all of it.
    pub(crate) fn write_slice_at(&mut self, address: usize, data: &[u8])
        requires
            old(self).wf(),
        ensures
            final(self).wf(),
            final(self)@ == old(self)@.put_slice(address as int, data@),
    {
        proof {
            self.lemma_valid();
        }
        let len = data.len();
        if len == 0 {
            return;
        }
        let logical_max = self.logical_max_memory_size();
        if address >= logical_max {
            return;
        }
        let write_len = if len < logical_max - address {
            len
        } else {
            logical_max - address
        };
        let end = address + write_len;
        let required = if end < logical_max {
            end
        } else {
            end - 1
        };
        if required >= self.size {
            let _ = self.ensure_capacity(required);
        }
        let ghost start = old(self)@;
        let ghost grown = self@;
        let mut i: usize = 0;
        while i < write_len
            invariant
                self.wf(),
                self@.valid(),
                i <= write_len,
                end == address + write_len,
                end <= logical_max,
                logical_max == self@.logical_max(),
                write_len <= data@.len(),
                end - 1 < self@.size,
                self@ == (StoreModel {
                    bytes: Seq::new(
                        logical_max as nat,
                        |k: int|
                            if address <= k < address + i {
                                data@[k - address]
                            } else {
                                start.bytes[k]
                            },
                    ),
                    ..grown
                }),
            decreases write_len - i,
        {
            self.write_byte_at(address + i, data[i]);
            proof {
                self.lemma_valid();
            }
            i = i + 1;
            assert(self@.bytes =~= Seq::new(
                logical_max as nat,
                |k: int|
                    if address <= k < address + i {
                        data@[k - address]
                    } else {
                        start.bytes[k]
                    },
            ));
        }
    }

    /// Reads a byte at the cursor and advances it, growing the committed
    /// size to cover the cursor. Past the logical maximum reads zero and
    /// changes nothing.
    pub fn char(&mut self) -> (r: u8)
        requires
            old(self).wf(),
        ensures
            final(self).wf(),
            r == old(self)@.byte(old(self)@.offset as int),
            final(self)@ == old(self)@.after_read(),
    {
        proof {
            self.lemma_valid();
        }
        if self.offset >= self.size {
            if self.offset >= self.logical_max_memory_size() {
                return 0;
            }
            let _ = self.ensure_capacity(self.offset);
        }
        let value = self.read_byte_at(self.offset);
        self.move_cursor(self.offset + 1);
        value
    }

    /// Same as [`Self::char`].
    pub fn byte(&mut self) -> (r: u8)
        requires
            old(self).wf(),
        ensures
            final(self).wf(),
            r == old(self)@.byte(old(self)@.offset as int),
            final(self)@ == old(self)@.after_read(),
    {
        self.char()
    }

    /// Reads a byte at the cursor as a signed value.
    pub fn signed_byte(&mut self) -> (r: i8)
        requires
            old(self).wf(),
        ensures
            final(self).wf(),
            r == old(self)@.byte(old(self)@.offset as int) as i8,
            final(self)@ == old(self)@.after_read(),
    {
        self.byte() as i8
    }

    /// Reads a little-endian 16-bit value at the cursor.
    pub fn short(&mut self) -> (r: u16)
        requires
            old(self).wf(),
        ensures
            final(self).wf(),
            r == old(self)@.read_u16(old(self)@.offset as int),
            final(self)@ == old(self)@.after_reads(2),
    {
        let low = self.byte() as u16;
        let high = self.byte() as u16;
        proof {
            reveal_with_fuel(StoreModel::after_reads, 3);
        }
        low + high * 0x100
    }

    /// Reads a little-endian 32-bit value at the cursor.
    pub fn dword(&mut self) -> (r: u32)
        requires
            old(self).wf(),
        ensures
            final(self).wf(),
            r == old(self)@.read_u32(old(self)@.offset as int),
            final(self)@ == old(self)@.after_reads(4),
    {
        let b0 = self.byte() as u32;
        let b1 = self.byte() as u32;
        let b2 = self.byte() as u32;
        let b3 = self.byte() as u32;
        proof {
            reveal_with_fuel(StoreModel::after_reads, 5);
        }
        b0 + b1 * 0x100 + b2 * 0x10000 + b3 * 0x1000000
    }

    /// Reads a little-endian 64-bit value at the cursor.
    pub fn qword(&mut self) -> (r: u64)
        requires
            old(self).wf(),
        ensures
            final(self).wf(),
            r == old(self)@.read_u64(old(self)@.offset as int),
            final(self)@ == old(self)@.after_reads(8),
    {
        let low = self.dword() as u64;
        let high = self.dword() as u64;
        proof {
            lemma_after_reads_add(old(self)@, 4, 4);
            lemma_after_reads_keep(old(self)@, 4);
        }
        low + high * 0x1_0000_0000
    }

    /// Reads `length` bytes at the cursor and advances it by `length`; bytes
    /// past the logical maximum read as zero. The committed size grows to
    /// cover the end of the range when that lies past it.
    pub fn read(&mut self, length: usize) -> (r: Vec<u8>)
        requires
            old(self).wf(),
            old(self)@.offset + length <= usize::MAX,
        ensures
            final(self).wf(),
            r@ == Seq::new(length as nat, |i: int| old(self)@.byte(old(self)@.offset + i)),
            final(self)@ == if length == 0 {
                old(self)@
            } else {
                StoreModel {
                    offset: old(self)@.offset + length as nat,
                    ..if old(self)@.offset + length > old(self)@.size {
                        old(self)@.grown(old(self)@.offset + length)
                    } else {
                        old(self)@
                    }
                }
            },
    {
        if length == 0 {
            let empty: Vec<u8> = Vec::new();
            assert(empty@ =~= Seq::new(length as nat, |i: int| old(self)@.byte(old(self)@.offset + i)));
            return empty;
        }
        let end_offset = self.offset + length;
        if end_offset > self.size {
            let _ = self.ensure_capacity(end_offset);
        }
        let result = self.read_slice_at(self.offset, length);
        self.move_cursor(end_offset);
        result
    }

    /// Fills `buffer` from the cursor and advances it by the buffer's
    /// length, which is returned; as for [`Self::read`].
    pub fn read_into(&mut self, buffer: &mut [u8]) -> (r: usize)
        requires
            old(self).wf(),
            old(self)@.offset + old(buffer)@.len() <= usize::MAX,
        ensures
            final(self).wf(),
            r == old(buffer)@.len(),
            final(buffer)@ == Seq::new(r as nat, |i: int| old(self)@.byte(old(self)@.offset + i)),
            final(self)@ == if r == 0 {
                old(self)@
            } else {
                StoreModel {
                    offset: old(self)@.offset + r as nat,
                    ..if old(self)@.offset + r > old(self)@.size {
                        old(self)@.grown(old(self)@.offset + r)
                    } else {
                        old(self)@
                    }
                }
            },
    {
        let length = buffer.len();
        if length == 0 {
            assert(buffer@ =~= Seq::new(0, |i: int| old(self)@.byte(old(self)@.offset + i)));
            return 0;
        }
        let end_offset = self.offset + length;
        if end_offset > self.size {
            let _ = self.ensure_capacity(end_offset);
        }
        let start = self.offset;
        let mut i: usize = 0;
        while i < length
            invariant
                self.wf(),
                self@.bytes == old(self)@.bytes,
                start == old(self)@.offset,
                start + length <= usize::MAX,
                length == buffer@.len(),
                i <= length,
                forall|k: int| 0 <= k < i ==> buffer@[k] == old(self)@.byte(start + k),
            decreases length - i,
        {
            buffer[i] = self.read_byte_at(start + i);
            i = i + 1;
        }
        assert(buffer@ =~= Seq::new(length as nat, |i: int| old(self)@.byte(old(self)@.offset + i)));
        self.move_cursor(end_offset);
        length
    }

    /// Writes `value` at the cursor and advances it by the bytes written;
    /// the write is cut at the logical maximum.
    pub fn write(&mut self, value: &[u8])
        requires
            old(self).wf(),
        ensures
            final(self).wf(),
            final(self)@ == ({
                let n = old(self)@.clamped(old(self)@.offset as int, value@.len() as int);
                if n <= 0 {
                    old(self)@
                } else {
                    StoreModel {
                        offset: (old(self)@.offset + n) as nat,
                        ..old(self)@.put_slice(old(self)@.offset as int, value@)
                    }
                }
            }),
    {
        proof {
            self.lemma_valid();
        }
        let len = value.len();
        if len == 0 {
            return;
        }
        let logical_max = self.logical_max_memory_size();
        if self.offset >= logical_max {
            return;
        }
        let write_len = if len < logical_max - self.offset {
            len
        } else {
            logical_max - self.offset
        };
        let offset = self.offset;
        self.write_slice_at(offset, value);
        self.move_cursor(offset + write_len);
    }

    /// Writes a byte at the cursor and advances it; dropped past the
    /// logical maximum.
    pub fn write_byte(&mut self, value: u8)
        requires
            old(self).wf(),
        ensures
            final(self).wf(),
            final(self)@ == old(self)@.after_write(value),
    {
        proof {
            self.lemma_valid();
        }
        if self.offset >= self.logical_max_memory_size() {
            return;
        }
        let offset = self.offset;
        self.write_byte_at(offset, value);
        self.move_cursor(offset + 1);
    }

    /// Writes a little-endian 16-bit value at the cursor.
    pub fn write_short(&mut self, value: u16)
        requires
            old(self).wf(),
        ensures
            final(self).wf(),
            final(self)@ == old(self)@.after_write16(value),
    {
        self.write_byte((value % 0x100) as u8);
        self.write_byte((value / 0x100) as u8);
    }

    /// Writes a little-endian 32-bit value at the cursor.
    pub fn write_dword(&mut self, value: u32)
        requires
            old(self).wf(),
        ensures
            final(self).wf(),
            final(self)@ == old(self)@.after_write32(value),
    {
        self.write_byte((value % 0x100) as u8);
        self.write_byte(((value / 0x100) % 0x100) as u8);
        self.write_byte(((value / 0x10000) % 0x100) as u8);
        self.write_byte((value / 0x1000000) as u8);
    }

    /// Writes a little-endian 64-bit value at the cursor.
    pub fn write_qword(&mut self, value: u64)
        requires
            old(self).wf(),
        ensures
            final(self).wf(),
            final(self)@ == old(self)@.after_write64(value),
    {
        self.write_dword((value % 0x1_0000_0000) as u32);
        self.write_dword((value / 0x1_0000_0000) as u32);
    }
}

} // verus!
