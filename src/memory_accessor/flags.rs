//! Status flags: individual getters and setters, and the result-driven
//! update of zero, sign, overflow and parity.

use vstd::prelude::*;

use super::{CpuState, MemoryAccessor};

verus! {

/// Number of set bits in `b`.
pub open spec fn popcount(b: u8) -> nat
    decreases b,
{
    if b == 0 {
        0
    } else {
        (b % 2) as nat + popcount(b / 2)
    }
}

/// Operand widths that [`MemoryAccessor::update_flags`] accepts.
pub open spec fn is_operand_width(size: u32) -> bool {
    size == 8 || size == 16 || size == 32 || size == 64
}

/// All-ones mask of an operand width below 64.
pub open spec fn width_mask(size: u32) -> i64 {
    if size == 8 {
        0xFF
    } else if size == 16 {
        0xFFFF
    } else {
        0xFFFF_FFFF
    }
}

/// Top bit of an operand width below 64.
pub open spec fn width_sign_bit(size: u32) -> i64 {
    if size == 8 {
        0x80
    } else if size == 16 {
        0x8000
    } else {
        0x8000_0000
    }
}

/// Flags derived from a result `value` of operand width `size`: zero, sign
/// and overflow from the value, parity from its low byte. Carry and
/// auxiliary carry are left to the caller.
pub open spec fn flags_after(s: CpuState, value: i64, size: u32) -> CpuState {
    let parity = popcount((value & 0xFF) as u8) % 2 == 0;
    if size == 64 {
        CpuState { zero: value == 0, sign: value < 0, overflow: false, parity, ..s }
    } else {
        let masked = value & width_mask(size);
        CpuState {
            zero: masked == 0,
            sign: masked & width_sign_bit(size) != 0,
            overflow: value < -width_sign_bit(size) || value > width_sign_bit(size) - 1,
            parity,
            ..s
        }
    }
}

/// Whether `b` has an even number of set bits.
fn even_parity(b: u8) -> (r: bool)
    ensures
        r == (popcount(b) % 2 == 0),
{
    let mut x = b;
    let mut ones: u32 = 0;
    while x != 0
        invariant
            ones + popcount(x) == popcount(b),
            ones + x <= b,
        decreases x,
    {
        ones = ones + (x % 2) as u32;
        x = x / 2;
    }
    ones % 2 == 0
}

impl MemoryAccessor {
    /// Derives zero, sign, overflow and parity from `value` taken at operand
    /// width `size`. At width 64 the value is used as it stands and overflow
    /// is cleared, since it cannot be told from the result alone.
    pub fn update_flags(&mut self, value: i64, size: u32)
        requires
            is_operand_width(size),
        ensures
            final(self)@ == flags_after(old(self)@, value, size),
    {
        self.parity_flag = even_parity((value & 0xFF) as u8);
        if size >= 64 {
            self.zero_flag = value == 0;
            self.sign_flag = value < 0;
            self.overflow_flag = false;
            return;
        }
        let mask: i64 = if size == 8 {
            0xFF
        } else if size == 16 {
            0xFFFF
        } else {
            0xFFFF_FFFF
        };
        let sign_bit: i64 = if size == 8 {
            0x80
        } else if size == 16 {
            0x8000
        } else {
            0x8000_0000
        };
        let masked = value & mask;
        self.zero_flag = masked == 0;
        self.sign_flag = (masked & sign_bit) != 0;
        let lowest = -sign_bit;
        let highest = sign_bit - 1;
        self.overflow_flag = value < lowest || value > highest;
    }

    pub fn zero_flag(&self) -> (r: bool)
        ensures
            r == self@.zero,
    {
        self.zero_flag
    }

    pub fn sign_flag(&self) -> (r: bool)
        ensures
            r == self@.sign,
    {
        self.sign_flag
    }

    pub fn overflow_flag(&self) -> (r: bool)
        ensures
            r == self@.overflow,
    {
        self.overflow_flag
    }

    pub fn carry_flag(&self) -> (r: bool)
        ensures
            r == self@.carry,
    {
        self.carry_flag
    }

    pub fn parity_flag(&self) -> (r: bool)
        ensures
            r == self@.parity,
    {
        self.parity_flag
    }

    pub fn auxiliary_carry_flag(&self) -> (r: bool)
        ensures
            r == self@.auxiliary_carry,
    {
        self.auxiliary_carry_flag
    }

    pub fn direction_flag(&self) -> (r: bool)
        ensures
            r == self@.direction,
    {
        self.direction_flag
    }

    pub fn interrupt_flag(&self) -> (r: bool)
        ensures
            r == self@.interrupt,
    {
        self.interrupt_flag
    }

    pub fn instruction_fetch(&self) -> (r: bool)
        ensures
            r == self@.instruction_fetch,
    {
        self.instruction_fetch
    }

    pub fn set_zero_flag(&mut self, value: bool)
        ensures
            final(self)@ == (CpuState { zero: value, ..old(self)@ }),
    {
        self.zero_flag = value;
    }

    pub fn set_sign_flag(&mut self, value: bool)
        ensures
            final(self)@ == (CpuState { sign: value, ..old(self)@ }),
    {
        self.sign_flag = value;
    }

    pub fn set_overflow_flag(&mut self, value: bool)
        ensures
            final(self)@ == (CpuState { overflow: value, ..old(self)@ }),
    {
        self.overflow_flag = value;
    }

    pub fn set_carry_flag(&mut self, value: bool)
        ensures
            final(self)@ == (CpuState { carry: value, ..old(self)@ }),
    {
        self.carry_flag = value;
    }

    pub fn set_parity_flag(&mut self, value: bool)
        ensures
            final(self)@ == (CpuState { parity: value, ..old(self)@ }),
    {
        self.parity_flag = value;
    }

    pub fn set_auxiliary_carry_flag(&mut self, value: bool)
        ensures
            final(self)@ == (CpuState { auxiliary_carry: value, ..old(self)@ }),
    {
        self.auxiliary_carry_flag = value;
    }

    pub fn set_direction_flag(&mut self, value: bool)
        ensures
            final(self)@ == (CpuState { direction: value, ..old(self)@ }),
    {
        self.direction_flag = value;
    }

    pub fn set_interrupt_flag(&mut self, value: bool)
        ensures
            final(self)@ == (CpuState { interrupt: value, ..old(self)@ }),
    {
        self.interrupt_flag = value;
    }

    /// Sets the instruction-fetch mode, which adds bit 4 to the error code
    /// of a reserved-bit page fault.
    pub fn set_instruction_fetch(&mut self, value: bool)
        ensures
            final(self)@ == (CpuState { instruction_fetch: value, ..old(self)@ }),
    {
        self.instruction_fetch = value;
    }
}

} // verus!
