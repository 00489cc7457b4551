//! Control registers and EFER.

use vstd::prelude::*;

use super::{CpuState, MemoryAccessor, CONTROL_REGISTER_COUNT};

verus! {

impl MemoryAccessor {
    /// Reads control register `index`; zero for an index past the last slot.
    pub fn read_control_register(&self, index: usize) -> (r: u64)
        ensures
            r == if index < CONTROL_REGISTER_COUNT {
                self@.control[index as int]
            } else {
                0
            },
    {
        if index < CONTROL_REGISTER_COUNT {
            self.control_registers[index]
        } else {
            0
        }
    }

    /// Writes control register `index`; an index past the last slot is ignored.
    pub fn write_control_register(&mut self, index: usize, value: u64)
        ensures
            final(self)@ == if index < CONTROL_REGISTER_COUNT {
                CpuState { control: old(self)@.control.update(index as int, value), ..old(self)@ }
            } else {
                old(self)@
            },
    {
        if index < CONTROL_REGISTER_COUNT {
            self.control_registers[index] = value;
        }
    }

    pub fn read_efer(&self) -> (r: u64)
        ensures
            r == self@.efer,
    {
        self.efer
    }

    pub fn write_efer(&mut self, value: u64)
        ensures
            final(self)@ == (CpuState { efer: value, ..old(self)@ }),
    {
        self.efer = value;
    }
}

} // verus!
