//! Register slots: allocation, sized reads and writes with x86 GPR masking,
//! and the low-byte counter helpers. An address outside the register slots
//! falls through to the backing store.

use vstd::prelude::*;

use super::memory::store_byte_after;
use super::{CpuState, MemoryAccessor, MAX_REGISTER_ADDRESS};
use crate::memory_stream::{MemoryStream, StoreModel};

verus! {

/// Addresses that name a register slot: 0-13 and 16-25.
pub open spec fn is_register_slot(a: int) -> bool {
    0 <= a <= 13 || 16 <= a <= 25
}

/// Register slots with GPR write semantics: 0-7 and 16-24.
pub open spec fn is_gpr_slot(a: int) -> bool {
    0 <= a <= 7 || 16 <= a <= 24
}

/// Value at `a`: the register slot, or the byte of the store.
pub open spec fn fetched(s: CpuState, m: StoreModel, a: int) -> i64 {
    if is_register_slot(a) {
        s.registers[a]
    } else {
        m.byte(a) as i64
    }
}

/// `v` seen at operand width `size`; any width but 8, 16 and 32 leaves it whole.
pub open spec fn sized(v: i64, size: u32) -> i64 {
    if size == 8 {
        v & 0xFF
    } else if size == 16 {
        v & 0xFFFF
    } else if size == 32 {
        v & 0xFFFF_FFFF
    } else {
        v
    }
}

/// A GPR after a write of `value` at width `size`: 8- and 16-bit writes keep
/// the bits above them, a 32-bit write zero-extends, any other width
/// replaces the whole register.
pub open spec fn merged(current: i64, value: i64, size: u32) -> i64 {
    if size == 8 {
        (current & !0xFF) | (value & 0xFF)
    } else if size == 16 {
        (current & !0xFFFF) | (value & 0xFFFF)
    } else if size == 32 {
        value & 0xFFFF_FFFF
    } else {
        value
    }
}

/// Slot `a` set to `v` and marked allocated.
pub open spec fn register_set(s: CpuState, a: int, v: i64) -> CpuState {
    CpuState { registers: s.registers.update(a, v), allocated: s.allocated.update(a, true), ..s }
}

/// The low `n` bytes of `value` stored little-endian from `a` on.
pub open spec fn bytes_written(m: StoreModel, a: int, value: i64, n: nat) -> StoreModel
    decreases n,
{
    if n == 0 {
        m
    } else {
        bytes_written(m, a, value, (n - 1) as nat).put(
            a + n - 1,
            ((value >> (((n - 1) * 8) as usize)) & 0xFF) as u8,
        )
    }
}

/// CPU state after a write of `value` at width `size` to register slot `a`;
/// slots other than GPRs take the whole value.
pub open spec fn register_written(s: CpuState, a: int, value: i64, size: u32) -> CpuState {
    register_set(
        s,
        a,
        if is_gpr_slot(a) {
            merged(s.registers[a], value, size)
        } else {
            value
        },
    )
}

/// Store after a write of `value` at width `size` to an address outside the
/// register slots: its low `size / 8` bytes, little-endian.
pub open spec fn store_written(s: CpuState, m: StoreModel, a: int, value: i64, size: u32) -> StoreModel {
    if is_register_slot(a) {
        m
    } else {
        bytes_written(m, a, value, (size / 8) as nat)
    }
}

/// CPU state after [`MemoryAccessor::write_by_size`].
pub open spec fn cpu_written(s: CpuState, a: int, value: i64, size: u32) -> CpuState {
    if is_register_slot(a) {
        register_written(s, a, value, size)
    } else {
        s
    }
}

/// Slots from `address` on, `size` of them, that are register slots, zeroed
/// and marked allocated.
pub open spec fn allocated_run(s: CpuState, address: int, size: int) -> CpuState {
    CpuState {
        registers: Seq::new(
            MAX_REGISTER_ADDRESS as nat,
            |j: int|
                if address <= j < address + size && is_register_slot(j) {
                    0
                } else {
                    s.registers[j]
                },
        ),
        allocated: Seq::new(
            MAX_REGISTER_ADDRESS as nat,
            |j: int|
                if address <= j < address + size && is_register_slot(j) {
                    true
                } else {
                    s.allocated[j]
                },
        ),
        ..s
    }
}

proof fn lemma_low_byte(x: i64)
    by (bit_vector)
    ensures
        0 <= x & 0xFF <= 0xFF,
{
}

impl MemoryAccessor {
    fn is_register_address(address: usize) -> (r: bool)
        ensures
            r == is_register_slot(address as int),
    {
        address <= 13 || (address >= 16 && address <= 25)
    }

    fn is_gpr_address(address: usize) -> (r: bool)
        ensures
            r == is_gpr_slot(address as int),
    {
        address <= 7 || (address >= 16 && address <= 24)
    }

    /// Marks `size` slots from `address` on allocated and zeroes them; only
    /// register slots are touched. With `safe`, an already allocated first
    /// slot makes it fail and change nothing. An address outside the
    /// register slots succeeds and changes nothing.
    pub fn allocate(&mut self, address: usize, size: usize, safe: bool) -> (r: bool)
        ensures
            !is_register_slot(address as int) ==> r && final(self)@ == old(self)@,
            is_register_slot(address as int) && safe && old(self)@.allocated[address as int] ==> !r
                && final(self)@ == old(self)@,
            is_register_slot(address as int) && !(safe && old(self)@.allocated[address as int])
                ==> r && final(self)@ == allocated_run(old(self)@, address as int, size as int),
    {
        if !Self::is_register_address(address) {
            return true;
        }
        if safe && self.registers_allocated[address] {
            return false;
        }
        let mut i: usize = 0;
        while i < size && address + i < MAX_REGISTER_ADDRESS
            invariant
                address < MAX_REGISTER_ADDRESS,
                address + i <= MAX_REGISTER_ADDRESS,
                i <= size,
                self@ == allocated_run(old(self)@, address as int, i as int),
            decreases size - i,
        {
            let addr = address + i;
            if Self::is_register_address(addr) {
                self.registers_allocated[addr] = true;
                self.registers[addr] = 0;
            }
            i = i + 1;
            assert(self@ =~= allocated_run(old(self)@, address as int, i as int));
        }
        assert(self@ =~= allocated_run(old(self)@, address as int, size as int));
        true
    }

    /// Value of register slot `address`, or the byte of the store there.
    pub fn fetch(&self, mem: &MemoryStream, address: usize) -> (r: i64)
        requires
            mem.wf(),
        ensures
            r == fetched(self@, mem@, address as int),
    {
        if Self::is_register_address(address) {
            self.registers[address]
        } else {
            mem.read_byte_at(address) as i64
        }
    }

    /// [`Self::fetch`] seen at operand width `size`.
    pub fn fetch_by_size(&self, mem: &MemoryStream, address: usize, size: u32) -> (r: i64)
        requires
            mem.wf(),
        ensures
            r == sized(fetched(self@, mem@, address as int), size),
    {
        let value = self.fetch(mem, address);
        match size {
            8 => value & 0xFF,
            16 => value & 0xFFFF,
            32 => value & 0xFFFF_FFFF,
            _ => value,
        }
    }

    /// As [`Self::fetch`], but -1 for a register slot never allocated.
    pub fn try_to_fetch(&self, mem: &MemoryStream, address: usize) -> (r: i64)
        requires
            mem.wf(),
        ensures
            r == if is_register_slot(address as int) && !self@.allocated[address as int] {
                -1i64
            } else {
                fetched(self@, mem@, address as int)
            },
    {
        if Self::is_register_address(address) {
            if !self.registers_allocated[address] {
                return -1;
            }
            self.registers[address]
        } else {
            mem.read_byte_at(address) as i64
        }
    }

    /// Writes `value` at operand width `size`: to a register slot with GPR
    /// masking, marking it allocated; elsewhere its low `size / 8` bytes go
    /// to the store, little-endian.
    pub fn write_by_size(&mut self, mem: &mut MemoryStream, address: usize, value: i64, size: u32)
        requires
            old(mem).wf(),
            !is_register_slot(address as int) ==> size / 8 <= 8,
        ensures
            final(mem).wf(),
            final(self)@ == cpu_written(old(self)@, address as int, value, size),
            final(mem)@ == store_written(old(self)@, old(mem)@, address as int, value, size),
    {
        if Self::is_register_address(address) {
            if !self.registers_allocated[address] {
                self.registers_allocated[address] = true;
            }
            if Self::is_gpr_address(address) {
                let current = self.registers[address];
                let new_value = match size {
                    8 => (current & !0xFF) | (value & 0xFF),
                    16 => (current & !0xFFFF) | (value & 0xFFFF),
                    32 => value & 0xFFFF_FFFF,
                    _ => value,
                };
                self.registers[address] = new_value;
            } else {
                self.registers[address] = value;
            }
            assert(self@ =~= cpu_written(old(self)@, address as int, value, size));
        } else {
            let bytes = (size / 8) as usize;
            let mut i: usize = 0;
            while i < bytes
                invariant
                    mem.wf(),
                    bytes <= 8,
                    i <= bytes,
                    mem@ == bytes_written(old(mem)@, address as int, value, i as nat),
                decreases bytes - i,
            {
                store_byte_after(mem, address as u64, i as u64, ((value >> (i * 8)) & 0xFF) as u8);
                i = i + 1;
            }
        }
    }

    /// Writes `value` at width 16.
    pub fn write_16bit(&mut self, mem: &mut MemoryStream, address: usize, value: i64)
        requires
            old(mem).wf(),
        ensures
            final(mem).wf(),
            final(self)@ == cpu_written(old(self)@, address as int, value, 16),
            final(mem)@ == store_written(old(self)@, old(mem)@, address as int, value, 16),
    {
        self.write_by_size(mem, address, value, 16);
    }

    /// Writes the low byte of `value` into bits 8-15 of register slot
    /// `address`, marking it allocated; other addresses are ignored.
    pub fn write_to_high_bit(&mut self, address: usize, value: i64)
        ensures
            final(self)@ == if is_register_slot(address as int) {
                register_set(
                    old(self)@,
                    address as int,
                    (old(self)@.registers[address as int] & !0xFF00) | ((value & 0xFF) << 8),
                )
            } else {
                old(self)@
            },
    {
        if Self::is_register_address(address) {
            if !self.registers_allocated[address] {
                self.registers_allocated[address] = true;
            }
            let current = self.registers[address];
            self.registers[address] = (current & !0xFF00) | ((value & 0xFF) << 8);
            assert(self@ =~= register_set(
                old(self)@,
                address as int,
                (old(self)@.registers[address as int] & !0xFF00) | ((value & 0xFF) << 8),
            ));
        }
    }

    /// Writes the low byte of `value` into bits 0-7 of register slot
    /// `address`, marking it allocated; other addresses are ignored.
    pub fn write_to_low_bit(&mut self, address: usize, value: i64)
        ensures
            final(self)@ == if is_register_slot(address as int) {
                register_set(
                    old(self)@,
                    address as int,
                    (old(self)@.registers[address as int] & !0xFF) | (value & 0xFF),
                )
            } else {
                old(self)@
            },
    {
        if Self::is_register_address(address) {
            if !self.registers_allocated[address] {
                self.registers_allocated[address] = true;
            }
            let current = self.registers[address];
            self.registers[address] = (current & !0xFF) | (value & 0xFF);
            assert(self@ =~= register_set(
                old(self)@,
                address as int,
                (old(self)@.registers[address as int] & !0xFF) | (value & 0xFF),
            ));
        }
    }

    /// Adds `value` to the low byte of `address` and writes the sum back at
    /// width 16. The narrowing to the low byte is deliberate.
    pub fn add(&mut self, mem: &mut MemoryStream, address: usize, value: i64)
        requires
            old(mem).wf(),
            (fetched(old(self)@, old(mem)@, address as int) & 0xFF) + value <= i64::MAX,
        ensures
            final(mem).wf(),
            ({
                let sum = ((fetched(old(self)@, old(mem)@, address as int) & 0xFF) + value) as i64;
                &&& final(self)@ == cpu_written(old(self)@, address as int, sum, 16)
                &&& final(mem)@ == store_written(old(self)@, old(mem)@, address as int, sum, 16)
            }),
    {
        let current = self.fetch(mem, address) & 0xFF;
        proof {
            lemma_low_byte(fetched(old(self)@, old(mem)@, address as int));
        }
        self.write_16bit(mem, address, current + value);
    }

    /// Subtracts `value` from the low byte of `address`, as [`Self::add`] of `-value`.
    pub fn sub(&mut self, mem: &mut MemoryStream, address: usize, value: i64)
        requires
            old(mem).wf(),
            (fetched(old(self)@, old(mem)@, address as int) & 0xFF) - value <= i64::MAX,
        ensures
            final(mem).wf(),
            ({
                let sum = ((fetched(old(self)@, old(mem)@, address as int) & 0xFF) - value) as i64;
                &&& final(self)@ == cpu_written(old(self)@, address as int, sum, 16)
                &&& final(mem)@ == store_written(old(self)@, old(mem)@, address as int, sum, 16)
            }),
    {
        proof {
            lemma_low_byte(fetched(old(self)@, old(mem)@, address as int));
        }
        self.add(mem, address, -value);
    }

    /// Adds one to the low byte of `address`, as [`Self::add`].
    pub fn increment(&mut self, mem: &mut MemoryStream, address: usize)
        requires
            old(mem).wf(),
        ensures
            final(mem).wf(),
            ({
                let sum = ((fetched(old(self)@, old(mem)@, address as int) & 0xFF) + 1) as i64;
                &&& final(self)@ == cpu_written(old(self)@, address as int, sum, 16)
                &&& final(mem)@ == store_written(old(self)@, old(mem)@, address as int, sum, 16)
            }),
    {
        proof {
            lemma_low_byte(fetched(old(self)@, old(mem)@, address as int));
        }
        self.add(mem, address, 1);
    }

    /// Subtracts one from the low byte of `address`, as [`Self::sub`].
    pub fn decrement(&mut self, mem: &mut MemoryStream, address: usize)
        requires
            old(mem).wf(),
        ensures
            final(mem).wf(),
            ({
                let sum = ((fetched(old(self)@, old(mem)@, address as int) & 0xFF) - 1) as i64;
                &&& final(self)@ == cpu_written(old(self)@, address as int, sum, 16)
                &&& final(mem)@ == store_written(old(self)@, old(mem)@, address as int, sum, 16)
            }),
    {
        proof {
            lemma_low_byte(fetched(old(self)@, old(mem)@, address as int));
        }
        self.sub(mem, address, 1);
    }
}

} // verus!
