//! CPU register, flag and control-register state, with the physical and
//! paged memory accesses that go through a [`MemoryStream`].
//!
//! The accessor does not own the backing store: every operation that
//! touches memory borrows it for the duration of the call, so the caller
//! keeps the store alive across calls.

use vstd::prelude::*;

use crate::memory_stream::MemoryStream;

pub mod control;
pub mod flags;
pub mod memory;
pub mod paging;
pub mod registers;

verus! {

/// Number of register slots.
/// 0-7: GPRs, 8-13: segment registers, 14-15: unused, 16-23: extended GPRs,
/// 24: instruction pointer, 25: a slot the driver uses as an alias.
pub const MAX_REGISTER_ADDRESS: usize = 26;

/// Number of control-register slots.
pub const CONTROL_REGISTER_COUNT: usize = 9;

/// Initial CR0: "math present" and "numeric error" set.
pub const INITIAL_CR0: u64 = 0x22;

/// The abstract state of a [`MemoryAccessor`].
#[verifier::ext_equal]
pub struct CpuState {
    pub registers: Seq<i64>,
    pub allocated: Seq<bool>,
    pub zero: bool,
    pub sign: bool,
    pub overflow: bool,
    pub carry: bool,
    pub parity: bool,
    pub auxiliary_carry: bool,
    pub direction: bool,
    pub interrupt: bool,
    pub instruction_fetch: bool,
    pub efer: u64,
    pub control: Seq<u64>,
}

/// Register file, flags, control registers and EFER of one emulated CPU.
pub struct MemoryAccessor {
    registers: [i64; MAX_REGISTER_ADDRESS],
    registers_allocated: [bool; MAX_REGISTER_ADDRESS],
    zero_flag: bool,
    sign_flag: bool,
    overflow_flag: bool,
    carry_flag: bool,
    parity_flag: bool,
    auxiliary_carry_flag: bool,
    direction_flag: bool,
    interrupt_flag: bool,
    instruction_fetch: bool,
    efer: u64,
    control_registers: [u64; CONTROL_REGISTER_COUNT],
}

impl View for MemoryAccessor {
    type V = CpuState;

    closed spec fn view(&self) -> CpuState {
        CpuState {
            registers: self.registers@,
            allocated: self.registers_allocated@,
            zero: self.zero_flag,
            sign: self.sign_flag,
            overflow: self.overflow_flag,
            carry: self.carry_flag,
            parity: self.parity_flag,
            auxiliary_carry: self.auxiliary_carry_flag,
            direction: self.direction_flag,
            interrupt: self.interrupt_flag,
            instruction_fetch: self.instruction_fetch,
            efer: self.efer,
            control: self.control_registers@,
        }
    }
}

impl CpuState {
    pub open spec fn wf(self) -> bool {
        &&& self.registers.len() == MAX_REGISTER_ADDRESS
        &&& self.allocated.len() == MAX_REGISTER_ADDRESS
        &&& self.control.len() == CONTROL_REGISTER_COUNT
    }
}

impl MemoryAccessor {
    /// A CPU with every register zero and unallocated, every flag clear,
    /// EFER zero and CR0 at its initial value.
    pub fn new() -> (s: Self)
        ensures
            s@.wf(),
            s@.registers == Seq::new(MAX_REGISTER_ADDRESS as nat, |i: int| 0i64),
            s@.allocated == Seq::new(MAX_REGISTER_ADDRESS as nat, |i: int| false),
            !s@.zero && !s@.sign && !s@.overflow && !s@.carry && !s@.parity,
            !s@.auxiliary_carry && !s@.direction && !s@.interrupt && !s@.instruction_fetch,
            s@.efer == 0,
            s@.control == Seq::new(
                CONTROL_REGISTER_COUNT as nat,
                |i: int|
                    if i == 0 {
                        INITIAL_CR0
                    } else {
                        0u64
                    },
            ),
    {
        let s = MemoryAccessor {
            registers: [0; MAX_REGISTER_ADDRESS],
            registers_allocated: [false; MAX_REGISTER_ADDRESS],
            zero_flag: false,
            sign_flag: false,
            overflow_flag: false,
            carry_flag: false,
            parity_flag: false,
            auxiliary_carry_flag: false,
            direction_flag: false,
            interrupt_flag: false,
            instruction_fetch: false,
            efer: 0,
            control_registers: [INITIAL_CR0, 0, 0, 0, 0, 0, 0, 0, 0],
        };
        assert(s@.registers =~= Seq::new(MAX_REGISTER_ADDRESS as nat, |i: int| 0i64));
        assert(s@.allocated =~= Seq::new(MAX_REGISTER_ADDRESS as nat, |i: int| false));
        assert(s@.control =~= Seq::new(
            CONTROL_REGISTER_COUNT as nat,
            |i: int|
                if i == 0 {
                    INITIAL_CR0
                } else {
                    0u64
                },
        ));
        s
    }
}

} // verus!
