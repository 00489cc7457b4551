//! Physical memory access: little-endian reads and writes at absolute
//! addresses of the backing store, bypassing translation.

use vstd::prelude::*;

use super::MemoryAccessor;
use crate::memory_stream::{MemoryStream, StoreModel};

verus! {

/// Physical windows serviced by the device subsystem rather than RAM: the
/// linear framebuffer, the local APIC and the I/O APIC.
pub open spec fn is_mmio(address: int) -> bool {
    ||| 0xE000_0000 <= address < 0xE100_0000
    ||| 0xFEE0_0000 <= address < 0xFEE0_1000
    ||| 0xFEC0_0000 <= address < 0xFEC0_0020
}

/// Reads the byte at physical address `a`; zero past the store's logical
/// maximum, wherever that lies for the host's address width.
pub(crate) fn load_byte(mem: &MemoryStream, a: u64) -> (r: u8)
    requires
        mem.wf(),
    ensures
        r == mem@.byte(a as int),
{
    proof {
        mem.lemma_valid();
    }
    let logical_max = mem.logical_max_memory_size();
    if a >= logical_max as u64 {
        0
    } else {
        mem.read_byte_at(a as usize)
    }
}

/// Stores the byte at physical address `a`; dropped past the store's
/// logical maximum.
pub(crate) fn store_byte(mem: &mut MemoryStream, a: u64, v: u8)
    requires
        old(mem).wf(),
    ensures
        final(mem).wf(),
        final(mem)@ == old(mem)@.put(a as int, v),
{
    proof {
        mem.lemma_valid();
    }
    let logical_max = mem.logical_max_memory_size();
    if a < logical_max as u64 {
        mem.write_byte_at(a as usize, v);
    }
}

/// Reads the byte `k` places after `a`; an address past the 64-bit space
/// lies beyond the store and reads as zero.
fn load_byte_after(mem: &MemoryStream, a: u64, k: u64) -> (r: u8)
    requires
        mem.wf(),
    ensures
        r == mem@.byte(a + k),
{
    proof {
        mem.lemma_valid();
    }
    if a > u64::MAX - k {
        0
    } else {
        load_byte(mem, a + k)
    }
}

/// Stores the byte `k` places after `a`; dropped when that address lies past
/// the 64-bit space, hence beyond the store.
pub(crate) fn store_byte_after(mem: &mut MemoryStream, a: u64, k: u64, v: u8)
    requires
        old(mem).wf(),
    ensures
        final(mem).wf(),
        final(mem)@ == old(mem)@.put(a + k, v),
{
    proof {
        old(mem).lemma_valid();
    }
    if a <= u64::MAX - k {
        store_byte(mem, a + k, v);
    }
}

pub(crate) fn load_u16(mem: &MemoryStream, a: u64) -> (r: u16)
    requires
        mem.wf(),
    ensures
        r == mem@.read_u16(a as int),
{
    let lo = load_byte(mem, a) as u16;
    let hi = load_byte_after(mem, a, 1) as u16;
    lo + hi * 0x100
}

pub(crate) fn load_u32(mem: &MemoryStream, a: u64) -> (r: u32)
    requires
        mem.wf(),
    ensures
        r == mem@.read_u32(a as int),
{
    let b0 = load_byte(mem, a) as u32;
    let b1 = load_byte_after(mem, a, 1) as u32;
    let b2 = load_byte_after(mem, a, 2) as u32;
    let b3 = load_byte_after(mem, a, 3) as u32;
    b0 + b1 * 0x100 + b2 * 0x10000 + b3 * 0x1000000
}

pub(crate) fn load_u64(mem: &MemoryStream, a: u64) -> (r: u64)
    requires
        mem.wf(),
    ensures
        r == mem@.read_u64(a as int),
{
    proof {
        mem.lemma_valid();
    }
    let low = load_u32(mem, a) as u64;
    let high = if a > u64::MAX - 4 {
        assert(mem@.read_u32(a + 4) == 0);
        0
    } else {
        load_u32(mem, a + 4) as u64
    };
    low + high * 0x1_0000_0000
}

pub(crate) fn store_u16(mem: &mut MemoryStream, a: u64, v: u16)
    requires
        old(mem).wf(),
    ensures
        final(mem).wf(),
        final(mem)@ == old(mem)@.put16(a as int, v),
{
    store_byte(mem, a, (v % 0x100) as u8);
    store_byte_after(mem, a, 1, (v / 0x100) as u8);
}

pub(crate) fn store_u32(mem: &mut MemoryStream, a: u64, v: u32)
    requires
        old(mem).wf(),
    ensures
        final(mem).wf(),
        final(mem)@ == old(mem)@.put32(a as int, v),
{
    store_byte(mem, a, (v % 0x100) as u8);
    store_byte_after(mem, a, 1, ((v / 0x100) % 0x100) as u8);
    store_byte_after(mem, a, 2, ((v / 0x10000) % 0x100) as u8);
    store_byte_after(mem, a, 3, (v / 0x1000000) as u8);
}

pub(crate) fn store_u64(mem: &mut MemoryStream, a: u64, v: u64)
    requires
        old(mem).wf(),
    ensures
        final(mem).wf(),
        final(mem)@ == old(mem)@.put64(a as int, v),
{
    store_u32(mem, a, (v % 0x1_0000_0000) as u32);
    if a <= u64::MAX - 4 {
        store_u32(mem, a + 4, (v / 0x1_0000_0000) as u32);
    } else {
        proof {
            mem.lemma_valid();
            lemma_put32_beyond(mem@, a + 4, (v / 0x1_0000_0000) as u32);
        }
    }
}

/// Four stores that all fall past the 64-bit space leave the store as it is.
proof fn lemma_put32_beyond(m: StoreModel, a: int, v: u32)
    requires
        a > u64::MAX,
        m.valid(),
    ensures
        m.put32(a, v) == m,
{
}

impl MemoryAccessor {
    /// Reads a byte of physical memory.
    pub fn read_from_memory(&self, mem: &MemoryStream, address: usize) -> (r: u8)
        requires
            mem.wf(),
        ensures
            r == mem@.byte(address as int),
    {
        mem.read_byte_at(address)
    }

    /// Writes a byte of physical memory.
    pub fn write_to_memory(&self, mem: &mut MemoryStream, address: usize, value: u8)
        requires
            old(mem).wf(),
        ensures
            final(mem).wf(),
            final(mem)@ == old(mem)@.put(address as int, value),
    {
        mem.write_byte_at(address, value);
    }

    pub fn read_raw_byte(&self, mem: &MemoryStream, address: usize) -> (r: u8)
        requires
            mem.wf(),
        ensures
            r == mem@.byte(address as int),
    {
        self.read_from_memory(mem, address)
    }

    pub fn write_raw_byte(&self, mem: &mut MemoryStream, address: usize, value: u8)
        requires
            old(mem).wf(),
        ensures
            final(mem).wf(),
            final(mem)@ == old(mem)@.put(address as int, value),
    {
        self.write_to_memory(mem, address, value);
    }

    pub fn read_physical_8(&self, mem: &MemoryStream, address: usize) -> (r: u8)
        requires
            mem.wf(),
        ensures
            r == mem@.byte(address as int),
    {
        self.read_from_memory(mem, address)
    }

    pub fn read_physical_16(&self, mem: &MemoryStream, address: usize) -> (r: u16)
        requires
            mem.wf(),
        ensures
            r == mem@.read_u16(address as int),
    {
        load_u16(mem, address as u64)
    }

    pub fn read_physical_32(&self, mem: &MemoryStream, address: usize) -> (r: u32)
        requires
            mem.wf(),
        ensures
            r == mem@.read_u32(address as int),
    {
        load_u32(mem, address as u64)
    }

    pub fn read_physical_64(&self, mem: &MemoryStream, address: usize) -> (r: u64)
        requires
            mem.wf(),
        ensures
            r == mem@.read_u64(address as int),
    {
        load_u64(mem, address as u64)
    }

    pub fn write_physical_16(&self, mem: &mut MemoryStream, address: usize, value: u16)
        requires
            old(mem).wf(),
        ensures
            final(mem).wf(),
            final(mem)@ == old(mem)@.put16(address as int, value),
    {
        store_u16(mem, address as u64, value);
    }

    pub fn write_physical_32(&self, mem: &mut MemoryStream, address: usize, value: u32)
        requires
            old(mem).wf(),
        ensures
            final(mem).wf(),
            final(mem)@ == old(mem)@.put32(address as int, value),
    {
        store_u32(mem, address as u64, value);
    }

    pub fn write_physical_64(&self, mem: &mut MemoryStream, address: usize, value: u64)
        requires
            old(mem).wf(),
        ensures
            final(mem).wf(),
            final(mem)@ == old(mem)@.put64(address as int, value),
    {
        store_u64(mem, address as u64, value);
    }

    /// Whether a physical address falls in a window the device subsystem
    /// services instead of RAM.
    pub fn is_mmio_address(address: usize) -> (r: bool)
        ensures
            r == is_mmio(address as int),
    {
        is_mmio_physical(address as u64)
    }
}

pub(crate) fn is_mmio_physical(address: u64) -> (r: bool)
    ensures
        r == is_mmio(address as int),
{
    (address >= 0xE000_0000 && address < 0xE100_0000) || (address >= 0xFEE0_0000 && address
        < 0xFEE0_1000) || (address >= 0xFEC0_0000 && address < 0xFEC0_0020)
}

} // verus!
