//! Linear-to-physical address translation through x86 page tables held in
//! the backing store: the legacy 32-bit two-level walk, the PAE three-level
//! walk and the IA-32e four-level walk, with accessed/dirty bookkeeping,
//! page-fault error codes and CR2, and the memory accesses built on them.

use vstd::prelude::*;

use super::memory::{
    is_mmio, is_mmio_physical, load_byte, load_u16, load_u32, load_u64, store_byte, store_u16,
    store_u32, store_u64,
};
use super::{CpuState, MemoryAccessor};
use crate::memory_stream::{MemoryStream, StoreModel};

verus! {

pub const PTE_PRESENT: u64 = 0x1;

pub const PTE_WRITABLE: u64 = 0x2;

pub const PTE_USER: u64 = 0x4;

pub const PTE_ACCESSED: u64 = 0x20;

pub const PTE_DIRTY: u64 = 0x40;

/// Set in a directory entry that maps a large page itself.
pub const PTE_PAGE_SIZE: u64 = 0x80;

/// Frame bits of an entry that points at the next table.
pub const TABLE_FRAME_MASK: u64 = 0xF_FFFF_F000;

pub const CR4_PSE: u64 = 0x10;

pub const CR4_PAE: u64 = 0x20;

pub const EFER_LME: u64 = 0x100;

/// Page-fault vector 0x0E, placed above the 16 error-code bits.
pub const PAGE_FAULT: u32 = 0xE_0000;

/// Returned instead of an access when the physical address is memory-mapped I/O.
pub const MMIO_DEFERRED: u32 = 0xFFFF_FFFF;

/// Physical addresses are kept within 32 bits.
pub const PHYSICAL_MASK: u64 = 0xFFFF_FFFF;

/// Outcome of one page walk: the physical address (the linear address on a
/// fault), the error code (zero on success) and the store after the
/// accessed/dirty write-backs made before the walk ended.
pub struct Walk {
    pub physical: u64,
    pub error: u32,
    pub store: StoreModel,
}

/// Outcome of a translation, with the CPU state after CR2 is recorded.
pub struct Translation {
    pub cpu: CpuState,
    pub physical: u64,
    pub error: u32,
    pub store: StoreModel,
}

/// Page-fault error code: present bit unless the entry was not present,
/// write bit for a write, user bit for a user access.
pub open spec fn fault_code(present: bool, is_write: bool, is_user: bool) -> u32 {
    (PAGE_FAULT + (if present {
        1int
    } else {
        0
    }) + (if is_write {
        2int
    } else {
        0
    }) + (if is_user {
        4int
    } else {
        0
    })) as u32
}

/// Error code of a reserved-bit fault: a protection fault's bits plus bit 3,
/// and bit 4 in instruction-fetch mode.
pub open spec fn reserved_fault_code(is_write: bool, is_user: bool, fetch: bool) -> u32 {
    (fault_code(true, is_write, is_user) + 0x8 + (if fetch {
        0x10int
    } else {
        0
    })) as u32
}

/// Fault of a present entry: a user access the entry reserves for the
/// supervisor, or a write the entry forbids.
pub open spec fn access_fault(e: u64, is_write: bool, is_user: bool) -> u32 {
    if (is_user && e & PTE_USER == 0) || (is_write && e & PTE_WRITABLE == 0) {
        fault_code(true, is_write, is_user)
    } else {
        0
    }
}

/// Fault of an entry of the PAE and IA-32e walks, zero when it passes:
/// present check first, then user, then write.
pub open spec fn entry_fault(e: u64, is_write: bool, is_user: bool) -> u32 {
    if e & PTE_PRESENT == 0 {
        fault_code(false, is_write, is_user)
    } else {
        access_fault(e, is_write, is_user)
    }
}

/// Fault of an entry of the legacy 32-bit walk, which also faults on a zero
/// frame between the present and the user check.
pub open spec fn legacy_entry_fault(e: u64, is_write: bool, is_user: bool, fetch: bool) -> u32 {
    if e & PTE_PRESENT == 0 {
        fault_code(false, is_write, is_user)
    } else if e & TABLE_FRAME_MASK == 0 {
        reserved_fault_code(is_write, is_user, fetch)
    } else {
        access_fault(e, is_write, is_user)
    }
}

/// A leaf entry after use: accessed, and dirty after a write.
pub open spec fn touched(e: u64, is_write: bool) -> u64 {
    if is_write {
        e | PTE_ACCESSED | PTE_DIRTY
    } else {
        e | PTE_ACCESSED
    }
}

pub open spec fn faulted(linear: u64, error: u32, store: StoreModel) -> Walk {
    Walk { physical: linear, error, store }
}

/// Address of entry `index` of the table at `base`, of `size` bytes each.
pub open spec fn entry_address(base: u64, index: u64, size: u64) -> u64 {
    ((base + index * size) as u64) & PHYSICAL_MASK
}

/// Physical address `offset` bytes into the frame at `base`.
pub open spec fn frame_address(base: u64, offset: u64) -> u64 {
    ((base + offset) as u64) & PHYSICAL_MASK
}

pub open spec fn table_root(s: CpuState) -> u64 {
    s.control[3] & 0xFFFF_F000
}

/// Legacy 32-bit walk: directory then table, 4-byte entries, 4 KiB pages or,
/// with `pse` and the directory entry's page-size bit, 4 MiB pages.
#[verifier::opaque]
pub open spec fn walk_legacy(
    s: CpuState,
    m: StoreModel,
    linear: u64,
    is_write: bool,
    is_user: bool,
    pse: bool,
) -> Walk {
    let pde_addr = entry_address(table_root(s), (linear >> 22u64) & 0x3FF, 4);
    let pde = m.read_u32(pde_addr as int) as u64;
    let pde_fault = legacy_entry_fault(pde, is_write, is_user, s.instruction_fetch);
    if pde_fault != 0 {
        faulted(linear, pde_fault, m)
    } else if pse && pde & PTE_PAGE_SIZE != 0 {
        Walk {
            physical: frame_address(pde & 0xFFC0_0000, linear & 0x3F_FFFF),
            error: 0,
            store: m.put32(pde_addr as int, touched(pde, is_write) as u32),
        }
    } else {
        let pte_addr = entry_address(pde & 0xFFFF_F000, (linear >> 12u64) & 0x3FF, 4);
        let pte = m.read_u32(pte_addr as int) as u64;
        let pte_fault = legacy_entry_fault(pte, is_write, is_user, s.instruction_fetch);
        if pte_fault != 0 {
            faulted(linear, pte_fault, m)
        } else {
            let m1 = m.put32(pde_addr as int, (pde | PTE_ACCESSED) as u32);
            Walk {
                physical: frame_address(pte & 0xFFFF_F000, linear & 0xFFF),
                error: 0,
                store: m1.put32(pte_addr as int, touched(pte, is_write) as u32),
            }
        }
    }
}

/// PAE walk: a 4-entry pointer table, directory and table of 8-byte
/// entries, 4 KiB or 2 MiB pages.
#[verifier::opaque]
pub open spec fn walk_pae(
    s: CpuState,
    m: StoreModel,
    linear: u64,
    is_write: bool,
    is_user: bool,
) -> Walk {
    let pdpte_addr = entry_address(table_root(s), (linear >> 30u64) & 0x3, 8);
    let pdpte = m.read_u64(pdpte_addr as int) as u64;
    let pdpte_fault = entry_fault(pdpte, is_write, is_user);
    if pdpte_fault != 0 {
        faulted(linear, pdpte_fault, m)
    } else {
        let m1 = m.put64(pdpte_addr as int, pdpte | PTE_ACCESSED);
        let pde_addr = entry_address(pdpte & TABLE_FRAME_MASK, (linear >> 21u64) & 0x1FF, 8);
        let pde = m1.read_u64(pde_addr as int) as u64;
        let pde_fault = entry_fault(pde, is_write, is_user);
        if pde_fault != 0 {
            faulted(linear, pde_fault, m1)
        } else if pde & PTE_PAGE_SIZE != 0 {
            Walk {
                physical: frame_address(pde & 0xFFE0_0000, linear & 0x1F_FFFF),
                error: 0,
                store: m1.put64(pde_addr as int, touched(pde, is_write)),
            }
        } else {
            let pte_addr = entry_address(pde & TABLE_FRAME_MASK, (linear >> 12u64) & 0x1FF, 8);
            let pte = m1.read_u64(pte_addr as int) as u64;
            let pte_fault = entry_fault(pte, is_write, is_user);
            if pte_fault != 0 {
                faulted(linear, pte_fault, m1)
            } else {
                let m2 = m1.put64(pde_addr as int, pde | PTE_ACCESSED);
                Walk {
                    physical: frame_address(pte & TABLE_FRAME_MASK, linear & 0xFFF),
                    error: 0,
                    store: m2.put64(pte_addr as int, touched(pte, is_write)),
                }
            }
        }
    }
}

/// IA-32e walk: PML4, pointer table, directory and table of 8-byte entries;
/// 4 KiB, 2 MiB or 1 GiB pages, with physical addresses kept to 32 bits.
#[verifier::opaque]
pub open spec fn walk_long(
    s: CpuState,
    m: StoreModel,
    linear: u64,
    is_write: bool,
    is_user: bool,
) -> Walk {
    let pml4e_addr = entry_address(table_root(s), (linear >> 39u64) & 0x1FF, 8);
    let pml4e = m.read_u64(pml4e_addr as int) as u64;
    let pml4e_fault = entry_fault(pml4e, is_write, is_user);
    if pml4e_fault != 0 {
        faulted(linear, pml4e_fault, m)
    } else {
        let m1 = m.put64(pml4e_addr as int, pml4e | PTE_ACCESSED);
        let pdpte_addr = entry_address(pml4e & TABLE_FRAME_MASK, (linear >> 30u64) & 0x1FF, 8);
        let pdpte = m1.read_u64(pdpte_addr as int) as u64;
        let pdpte_fault = entry_fault(pdpte, is_write, is_user);
        if pdpte_fault != 0 {
            faulted(linear, pdpte_fault, m1)
        } else {
            let m2 = m1.put64(pdpte_addr as int, pdpte | PTE_ACCESSED);
            if pdpte & PTE_PAGE_SIZE != 0 {
                Walk {
                    physical: frame_address(pdpte & 0x000F_FFFF_C000_0000, linear & 0x3FFF_FFFF),
                    error: 0,
                    store: m2.put64(pdpte_addr as int, touched(pdpte, is_write)),
                }
            } else {
                let pde_addr = entry_address(pdpte & TABLE_FRAME_MASK, (linear >> 21u64) & 0x1FF, 8);
                let pde = m2.read_u64(pde_addr as int) as u64;
                let pde_fault = entry_fault(pde, is_write, is_user);
                if pde_fault != 0 {
                    faulted(linear, pde_fault, m2)
                } else if pde & PTE_PAGE_SIZE != 0 {
                    Walk {
                        physical: frame_address(pde & 0xFFE0_0000, linear & 0x1F_FFFF),
                        error: 0,
                        store: m2.put64(pde_addr as int, touched(pde, is_write)),
                    }
                } else {
                    let pte_addr = entry_address(pde & TABLE_FRAME_MASK, (linear >> 12u64) & 0x1FF, 8);
                    let pte = m2.read_u64(pte_addr as int) as u64;
                    let pte_fault = entry_fault(pte, is_write, is_user);
                    if pte_fault != 0 {
                        faulted(linear, pte_fault, m2)
                    } else {
                        let m3 = m2.put64(pde_addr as int, pde | PTE_ACCESSED);
                        Walk {
                            physical: frame_address(pte & TABLE_FRAME_MASK, linear & 0xFFF),
                            error: 0,
                            store: m3.put64(pte_addr as int, touched(pte, is_write)),
                        }
                    }
                }
            }
        }
    }
}

/// CR2 after a fault: in IA-32e mode the address sign-extended from bit 47,
/// otherwise its low 32 bits.
pub open spec fn fault_address(linear: u64, long_mode: bool) -> u64 {
    if long_mode {
        if linear & 0x8000_0000_0000 != 0 {
            linear | 0xFFFF_0000_0000_0000
        } else {
            linear
        }
    } else {
        linear & 0xFFFF_FFFF
    }
}

/// Translation of `linear`, limited by `linear_mask`: the identity when
/// paging is off; else the walk that CR4.PAE and EFER.LME select, with the
/// faulting address recorded in CR2 on a fault.
pub open spec fn translation(
    s: CpuState,
    m: StoreModel,
    linear: u64,
    is_write: bool,
    is_user: bool,
    paging_enabled: bool,
    linear_mask: u64,
) -> Translation {
    let linear = linear & linear_mask;
    if !paging_enabled {
        Translation { cpu: s, physical: linear, error: 0, store: m }
    } else {
        let cr4 = s.control[4];
        let pae = cr4 & CR4_PAE != 0;
        let long_mode = pae && s.efer & EFER_LME != 0;
        let walk = if long_mode {
            walk_long(s, m, linear, is_write, is_user)
        } else if pae {
            walk_pae(s, m, linear, is_write, is_user)
        } else {
            walk_legacy(s, m, linear, is_write, is_user, cr4 & CR4_PSE != 0)
        };
        let cpu = if walk.error != 0 {
            CpuState {
                control: s.control.update(2, fault_address(linear, long_mode)),
                ..s
            }
        } else {
            s
        };
        Translation { cpu, physical: walk.physical, error: walk.error, store: walk.store }
    }
}

/// A mask bounds what it keeps.
pub proof fn lemma_and_le(x: u64, m: u64)
    by (bit_vector)
    ensures
        x & m <= m,
{
}

fn fault_code_of(present: bool, is_write: bool, is_user: bool) -> (r: u32)
    ensures
        r == fault_code(present, is_write, is_user),
{
    let mut code: u32 = PAGE_FAULT;
    if present {
        code = code + 1;
    }
    if is_write {
        code = code + 2;
    }
    if is_user {
        code = code + 4;
    }
    code
}

fn access_fault_of(e: u64, is_write: bool, is_user: bool) -> (r: u32)
    ensures
        r == access_fault(e, is_write, is_user),
{
    if (is_user && e & PTE_USER == 0) || (is_write && e & PTE_WRITABLE == 0) {
        fault_code_of(true, is_write, is_user)
    } else {
        0
    }
}

fn entry_fault_of(e: u64, is_write: bool, is_user: bool) -> (r: u32)
    ensures
        r == entry_fault(e, is_write, is_user),
{
    if e & PTE_PRESENT == 0 {
        fault_code_of(false, is_write, is_user)
    } else {
        access_fault_of(e, is_write, is_user)
    }
}

fn legacy_entry_fault_of(e: u64, is_write: bool, is_user: bool, fetch: bool) -> (r: u32)
    ensures
        r == legacy_entry_fault(e, is_write, is_user, fetch),
{
    if e & PTE_PRESENT == 0 {
        fault_code_of(false, is_write, is_user)
    } else if e & TABLE_FRAME_MASK == 0 {
        let code = fault_code_of(true, is_write, is_user) + 0x8;
        if fetch {
            code + 0x10
        } else {
            code
        }
    } else {
        access_fault_of(e, is_write, is_user)
    }
}

fn touched_of(e: u64, is_write: bool) -> (r: u64)
    ensures
        r == touched(e, is_write),
{
    if is_write {
        e | PTE_ACCESSED | PTE_DIRTY
    } else {
        e | PTE_ACCESSED
    }
}

fn entry_address_of(base: u64, index: u64, size: u64) -> (r: u64)
    requires
        base <= TABLE_FRAME_MASK,
        index <= 0x3FF,
        size <= 8,
    ensures
        r == entry_address(base, index, size),
{
    assert(index * size <= 0x3FF * 8) by (nonlinear_arith)
        requires
            index <= 0x3FF,
            size <= 8,
    ;
    (base + index * size) & PHYSICAL_MASK
}

fn frame_address_of(base: u64, offset: u64) -> (r: u64)
    requires
        base <= 0x000F_FFFF_C000_0000,
        offset <= 0x3FFF_FFFF,
    ensures
        r == frame_address(base, offset),
{
    (base + offset) & PHYSICAL_MASK
}

impl MemoryAccessor {
    fn translate_linear_32(
        &self,
        mem: &mut MemoryStream,
        linear: u64,
        is_write: bool,
        is_user: bool,
        pse: bool,
    ) -> (r: (u64, u32))
        requires
            old(mem).wf(),
        ensures
            final(mem).wf(),
            ({
                let w = walk_legacy(self@, old(mem)@, linear, is_write, is_user, pse);
                r.0 == w.physical && r.1 == w.error && final(mem)@ == w.store
            }),
    {
        reveal(walk_legacy);
        let cr3 = self.control_registers[3] & 0xFFFF_F000;
        proof {
            lemma_and_le(self.control_registers[3], 0xFFFF_F000);
            lemma_and_le(linear >> 22u64, 0x3FF);
        }
        let pde_addr = entry_address_of(cr3, (linear >> 22u64) & 0x3FF, 4);
        let pde = load_u32(mem, pde_addr) as u64;
        let pde_fault = legacy_entry_fault_of(pde, is_write, is_user, self.instruction_fetch);
        if pde_fault != 0 {
            return (linear, pde_fault);
        }
        if pse && pde & PTE_PAGE_SIZE != 0 {
            proof {
                lemma_and_le(pde, 0xFFC0_0000);
                lemma_and_le(linear, 0x3F_FFFF);
            }
            store_u32(mem, pde_addr, touched_of(pde, is_write) as u32);
            return (frame_address_of(pde & 0xFFC0_0000, linear & 0x3F_FFFF), 0);
        }
        proof {
            lemma_and_le(pde, 0xFFFF_F000);
            lemma_and_le(linear >> 12u64, 0x3FF);
        }
        let pte_addr = entry_address_of(pde & 0xFFFF_F000, (linear >> 12u64) & 0x3FF, 4);
        let pte = load_u32(mem, pte_addr) as u64;
        let pte_fault = legacy_entry_fault_of(pte, is_write, is_user, self.instruction_fetch);
        if pte_fault != 0 {
            return (linear, pte_fault);
        }
        store_u32(mem, pde_addr, (pde | PTE_ACCESSED) as u32);
        store_u32(mem, pte_addr, touched_of(pte, is_write) as u32);
        proof {
            lemma_and_le(pte, 0xFFFF_F000);
            lemma_and_le(linear, 0xFFF);
        }
        (frame_address_of(pte & 0xFFFF_F000, linear & 0xFFF), 0)
    }

    fn translate_linear_pae(
        &self,
        mem: &mut MemoryStream,
        linear: u64,
        is_write: bool,
        is_user: bool,
    ) -> (r: (u64, u32))
        requires
            old(mem).wf(),
        ensures
            final(mem).wf(),
            ({
                let w = walk_pae(self@, old(mem)@, linear, is_write, is_user);
                r.0 == w.physical && r.1 == w.error && final(mem)@ == w.store
            }),
    {
        reveal(walk_pae);
        let cr3 = self.control_registers[3] & 0xFFFF_F000;
        proof {
            lemma_and_le(self.control_registers[3], 0xFFFF_F000);
            lemma_and_le(linear >> 30u64, 0x3);
        }
        let pdpte_addr = entry_address_of(cr3, (linear >> 30u64) & 0x3, 8);
        let pdpte = load_u64(mem, pdpte_addr);
        let pdpte_fault = entry_fault_of(pdpte, is_write, is_user);
        if pdpte_fault != 0 {
            return (linear, pdpte_fault);
        }
        store_u64(mem, pdpte_addr, pdpte | PTE_ACCESSED);
        proof {
            lemma_and_le(pdpte, TABLE_FRAME_MASK);
            lemma_and_le(linear >> 21u64, 0x1FF);
        }
        let pde_addr = entry_address_of(pdpte & TABLE_FRAME_MASK, (linear >> 21u64) & 0x1FF, 8);
        let pde = load_u64(mem, pde_addr);
        let pde_fault = entry_fault_of(pde, is_write, is_user);
        if pde_fault != 0 {
            return (linear, pde_fault);
        }
        if pde & PTE_PAGE_SIZE != 0 {
            proof {
                lemma_and_le(pde, 0xFFE0_0000);
                lemma_and_le(linear, 0x1F_FFFF);
            }
            store_u64(mem, pde_addr, touched_of(pde, is_write));
            return (frame_address_of(pde & 0xFFE0_0000, linear & 0x1F_FFFF), 0);
        }
        proof {
            lemma_and_le(pde, TABLE_FRAME_MASK);
            lemma_and_le(linear >> 12u64, 0x1FF);
        }
        let pte_addr = entry_address_of(pde & TABLE_FRAME_MASK, (linear >> 12u64) & 0x1FF, 8);
        let pte = load_u64(mem, pte_addr);
        let pte_fault = entry_fault_of(pte, is_write, is_user);
        if pte_fault != 0 {
            return (linear, pte_fault);
        }
        store_u64(mem, pde_addr, pde | PTE_ACCESSED);
        store_u64(mem, pte_addr, touched_of(pte, is_write));
        proof {
            lemma_and_le(pte, TABLE_FRAME_MASK);
            lemma_and_le(linear, 0xFFF);
        }
        (frame_address_of(pte & TABLE_FRAME_MASK, linear & 0xFFF), 0)
    }

    fn translate_linear_ia32e(
        &self,
        mem: &mut MemoryStream,
        linear: u64,
        is_write: bool,
        is_user: bool,
    ) -> (r: (u64, u32))
        requires
            old(mem).wf(),
        ensures
            final(mem).wf(),
            ({
                let w = walk_long(self@, old(mem)@, linear, is_write, is_user);
                r.0 == w.physical && r.1 == w.error && final(mem)@ == w.store
            }),
    {
        reveal(walk_long);
        let cr3 = self.control_registers[3] & 0xFFFF_F000;
        proof {
            lemma_and_le(self.control_registers[3], 0xFFFF_F000);
            lemma_and_le(linear >> 39u64, 0x1FF);
        }
        let pml4e_addr = entry_address_of(cr3, (linear >> 39u64) & 0x1FF, 8);
        let pml4e = load_u64(mem, pml4e_addr);
        let pml4e_fault = entry_fault_of(pml4e, is_write, is_user);
        if pml4e_fault != 0 {
            return (linear, pml4e_fault);
        }
        store_u64(mem, pml4e_addr, pml4e | PTE_ACCESSED);
        proof {
            lemma_and_le(pml4e, TABLE_FRAME_MASK);
            lemma_and_le(linear >> 30u64, 0x1FF);
        }
        let pdpte_addr = entry_address_of(pml4e & TABLE_FRAME_MASK, (linear >> 30u64) & 0x1FF, 8);
        let pdpte = load_u64(mem, pdpte_addr);
        let pdpte_fault = entry_fault_of(pdpte, is_write, is_user);
        if pdpte_fault != 0 {
            return (linear, pdpte_fault);
        }
        store_u64(mem, pdpte_addr, pdpte | PTE_ACCESSED);
        if pdpte & PTE_PAGE_SIZE != 0 {
            proof {
                lemma_and_le(pdpte, 0x000F_FFFF_C000_0000);
                lemma_and_le(linear, 0x3FFF_FFFF);
            }
            store_u64(mem, pdpte_addr, touched_of(pdpte, is_write));
            return (frame_address_of(pdpte & 0x000F_FFFF_C000_0000, linear & 0x3FFF_FFFF), 0);
        }
        proof {
            lemma_and_le(pdpte, TABLE_FRAME_MASK);
            lemma_and_le(linear >> 21u64, 0x1FF);
        }
        let pde_addr = entry_address_of(pdpte & TABLE_FRAME_MASK, (linear >> 21u64) & 0x1FF, 8);
        let pde = load_u64(mem, pde_addr);
        let pde_fault = entry_fault_of(pde, is_write, is_user);
        if pde_fault != 0 {
            return (linear, pde_fault);
        }
        if pde & PTE_PAGE_SIZE != 0 {
            proof {
                lemma_and_le(pde, 0xFFE0_0000);
                lemma_and_le(linear, 0x1F_FFFF);
            }
            store_u64(mem, pde_addr, touched_of(pde, is_write));
            return (frame_address_of(pde & 0xFFE0_0000, linear & 0x1F_FFFF), 0);
        }
        proof {
            lemma_and_le(pde, TABLE_FRAME_MASK);
            lemma_and_le(linear >> 12u64, 0x1FF);
        }
        let pte_addr = entry_address_of(pde & TABLE_FRAME_MASK, (linear >> 12u64) & 0x1FF, 8);
        let pte = load_u64(mem, pte_addr);
        let pte_fault = entry_fault_of(pte, is_write, is_user);
        if pte_fault != 0 {
            return (linear, pte_fault);
        }
        store_u64(mem, pde_addr, pde | PTE_ACCESSED);
        store_u64(mem, pte_addr, touched_of(pte, is_write));
        proof {
            lemma_and_le(pte, TABLE_FRAME_MASK);
            lemma_and_le(linear, 0xFFF);
        }
        (frame_address_of(pte & TABLE_FRAME_MASK, linear & 0xFFF), 0)
    }
}

impl MemoryAccessor {
    /// Translates `linear`, first limited by `linear_mask`, to a physical
    /// address. Returns `(physical, 0)` on success. On a page fault returns
    /// the masked linear address with the packed code `(0x0E << 16) | bits`
    /// and records the faulting address in CR2. Accessed and dirty bits of
    /// the entries used are written back to the store.
    pub fn translate_linear(
        &mut self,
        mem: &mut MemoryStream,
        linear: u64,
        is_write: bool,
        is_user: bool,
        paging_enabled: bool,
        linear_mask: u64,
    ) -> (r: (u64, u32))
        requires
            old(mem).wf(),
        ensures
            final(mem).wf(),
            ({
                let t = translation(
                    old(self)@,
                    old(mem)@,
                    linear,
                    is_write,
                    is_user,
                    paging_enabled,
                    linear_mask,
                );
                &&& r.0 == t.physical
                &&& r.1 == t.error
                &&& final(self)@ == t.cpu
                &&& final(mem)@ == t.store
            }),
    {
        let linear = linear & linear_mask;
        if !paging_enabled {
            return (linear, 0);
        }
        let cr4 = self.control_registers[4];
        let pse = cr4 & CR4_PSE != 0;
        let pae = cr4 & CR4_PAE != 0;
        let lme = self.efer & EFER_LME != 0;
        let (physical, error) = if pae {
            if lme {
                self.translate_linear_ia32e(mem, linear, is_write, is_user)
            } else {
                self.translate_linear_pae(mem, linear, is_write, is_user)
            }
        } else {
            self.translate_linear_32(mem, linear, is_write, is_user, pse)
        };
        if error != 0 {
            let cr2 = if pae && lme {
                if linear & 0x8000_0000_0000 != 0 {
                    linear | 0xFFFF_0000_0000_0000
                } else {
                    linear
                }
            } else {
                linear & 0xFFFF_FFFF
            };
            self.control_registers[2] = cr2;
        }
        (physical, error)
    }

    /// Reads a byte at a linear address. Returns `(value, 0)`, `(0, fault)`
    /// on a page fault, or `(0, MMIO_DEFERRED)` when the physical address is
    /// memory-mapped I/O.
    pub fn read_memory_8(
        &mut self,
        mem: &mut MemoryStream,
        linear: u64,
        is_user: bool,
        paging_enabled: bool,
        linear_mask: u64,
    ) -> (r: (u8, u32))
        requires
            old(mem).wf(),
        ensures
            final(mem).wf(),
            ({
                let t = translation(old(self)@, old(mem)@, linear, false, is_user, paging_enabled, linear_mask);
                &&& final(self)@ == t.cpu
                &&& final(mem)@ == t.store
                &&& r == if t.error != 0 {
                    (0u8, t.error)
                } else if is_mmio(t.physical as int) {
                    (0u8, MMIO_DEFERRED)
                } else {
                    (t.store.byte(t.physical as int), 0u32)
                }
            }),
    {
        let (physical, err) = self.translate_linear(mem, linear, false, is_user, paging_enabled, linear_mask);
        if err != 0 {
            return (0, err);
        }
        if is_mmio_physical(physical) {
            return (0, MMIO_DEFERRED);
        }
        (load_byte(mem, physical), 0)
    }

    /// Reads a little-endian 16-bit value at a linear address; results as for
    /// [`Self::read_memory_8`].
    pub fn read_memory_16(
        &mut self,
        mem: &mut MemoryStream,
        linear: u64,
        is_user: bool,
        paging_enabled: bool,
        linear_mask: u64,
    ) -> (r: (u16, u32))
        requires
            old(mem).wf(),
        ensures
            final(mem).wf(),
            ({
                let t = translation(old(self)@, old(mem)@, linear, false, is_user, paging_enabled, linear_mask);
                &&& final(self)@ == t.cpu
                &&& final(mem)@ == t.store
                &&& r == if t.error != 0 {
                    (0u16, t.error)
                } else if is_mmio(t.physical as int) {
                    (0u16, MMIO_DEFERRED)
                } else {
                    (t.store.read_u16(t.physical as int) as u16, 0u32)
                }
            }),
    {
        let (physical, err) = self.translate_linear(mem, linear, false, is_user, paging_enabled, linear_mask);
        if err != 0 {
            return (0, err);
        }
        if is_mmio_physical(physical) {
            return (0, MMIO_DEFERRED);
        }
        (load_u16(mem, physical), 0)
    }

    /// Reads a little-endian 32-bit value at a linear address; results as for
    /// [`Self::read_memory_8`].
    pub fn read_memory_32(
        &mut self,
        mem: &mut MemoryStream,
        linear: u64,
        is_user: bool,
        paging_enabled: bool,
        linear_mask: u64,
    ) -> (r: (u32, u32))
        requires
            old(mem).wf(),
        ensures
            final(mem).wf(),
            ({
                let t = translation(old(self)@, old(mem)@, linear, false, is_user, paging_enabled, linear_mask);
                &&& final(self)@ == t.cpu
                &&& final(mem)@ == t.store
                &&& r == if t.error != 0 {
                    (0u32, t.error)
                } else if is_mmio(t.physical as int) {
                    (0u32, MMIO_DEFERRED)
                } else {
                    (t.store.read_u32(t.physical as int) as u32, 0u32)
                }
            }),
    {
        let (physical, err) = self.translate_linear(mem, linear, false, is_user, paging_enabled, linear_mask);
        if err != 0 {
            return (0, err);
        }
        if is_mmio_physical(physical) {
            return (0, MMIO_DEFERRED);
        }
        (load_u32(mem, physical), 0)
    }

    /// Reads a little-endian 64-bit value at a linear address; results as for
    /// [`Self::read_memory_8`].
    pub fn read_memory_64(
        &mut self,
        mem: &mut MemoryStream,
        linear: u64,
        is_user: bool,
        paging_enabled: bool,
        linear_mask: u64,
    ) -> (r: (u64, u32))
        requires
            old(mem).wf(),
        ensures
            final(mem).wf(),
            ({
                let t = translation(old(self)@, old(mem)@, linear, false, is_user, paging_enabled, linear_mask);
                &&& final(self)@ == t.cpu
                &&& final(mem)@ == t.store
                &&& r == if t.error != 0 {
                    (0u64, t.error)
                } else if is_mmio(t.physical as int) {
                    (0u64, MMIO_DEFERRED)
                } else {
                    (t.store.read_u64(t.physical as int) as u64, 0u32)
                }
            }),
    {
        let (physical, err) = self.translate_linear(mem, linear, false, is_user, paging_enabled, linear_mask);
        if err != 0 {
            return (0, err);
        }
        if is_mmio_physical(physical) {
            return (0, MMIO_DEFERRED);
        }
        (load_u64(mem, physical), 0)
    }

    /// Writes a byte at a linear address. Returns 0, the page-fault code, or
    /// `MMIO_DEFERRED` when the physical address is memory-mapped I/O; only
    /// on 0 is the byte stored.
    pub fn write_memory_8(
        &mut self,
        mem: &mut MemoryStream,
        linear: u64,
        value: u8,
        is_user: bool,
        paging_enabled: bool,
        linear_mask: u64,
    ) -> (r: u32)
        requires
            old(mem).wf(),
        ensures
            final(mem).wf(),
            ({
                let t = translation(old(self)@, old(mem)@, linear, true, is_user, paging_enabled, linear_mask);
                &&& final(self)@ == t.cpu
                &&& r == if t.error != 0 {
                    t.error
                } else if is_mmio(t.physical as int) {
                    MMIO_DEFERRED
                } else {
                    0
                }
                &&& final(mem)@ == if r != 0 {
                    t.store
                } else {
                    t.store.put(t.physical as int, value)
                }
            }),
    {
        let (physical, err) = self.translate_linear(mem, linear, true, is_user, paging_enabled, linear_mask);
        if err != 0 {
            return err;
        }
        if is_mmio_physical(physical) {
            return MMIO_DEFERRED;
        }
        store_byte(mem, physical, value);
        0
    }

    /// Writes a little-endian 16-bit value at a linear address; results as
    /// for [`Self::write_memory_8`].
    pub fn write_memory_16(
        &mut self,
        mem: &mut MemoryStream,
        linear: u64,
        value: u16,
        is_user: bool,
        paging_enabled: bool,
        linear_mask: u64,
    ) -> (r: u32)
        requires
            old(mem).wf(),
        ensures
            final(mem).wf(),
            ({
                let t = translation(old(self)@, old(mem)@, linear, true, is_user, paging_enabled, linear_mask);
                &&& final(self)@ == t.cpu
                &&& r == if t.error != 0 {
                    t.error
                } else if is_mmio(t.physical as int) {
                    MMIO_DEFERRED
                } else {
                    0
                }
                &&& final(mem)@ == if r != 0 {
                    t.store
                } else {
                    t.store.put16(t.physical as int, value)
                }
            }),
    {
        let (physical, err) = self.translate_linear(mem, linear, true, is_user, paging_enabled, linear_mask);
        if err != 0 {
            return err;
        }
        if is_mmio_physical(physical) {
            return MMIO_DEFERRED;
        }
        store_u16(mem, physical, value);
        0
    }

    /// Writes a little-endian 32-bit value at a linear address; results as
    /// for [`Self::write_memory_8`].
    pub fn write_memory_32(
        &mut self,
        mem: &mut MemoryStream,
        linear: u64,
        value: u32,
        is_user: bool,
        paging_enabled: bool,
        linear_mask: u64,
    ) -> (r: u32)
        requires
            old(mem).wf(),
        ensures
            final(mem).wf(),
            ({
                let t = translation(old(self)@, old(mem)@, linear, true, is_user, paging_enabled, linear_mask);
                &&& final(self)@ == t.cpu
                &&& r == if t.error != 0 {
                    t.error
                } else if is_mmio(t.physical as int) {
                    MMIO_DEFERRED
                } else {
                    0
                }
                &&& final(mem)@ == if r != 0 {
                    t.store
                } else {
                    t.store.put32(t.physical as int, value)
                }
            }),
    {
        let (physical, err) = self.translate_linear(mem, linear, true, is_user, paging_enabled, linear_mask);
        if err != 0 {
            return err;
        }
        if is_mmio_physical(physical) {
            return MMIO_DEFERRED;
        }
        store_u32(mem, physical, value);
        0
    }

    /// Writes a little-endian 64-bit value at a linear address; results as
    /// for [`Self::write_memory_8`].
    pub fn write_memory_64(
        &mut self,
        mem: &mut MemoryStream,
        linear: u64,
        value: u64,
        is_user: bool,
        paging_enabled: bool,
        linear_mask: u64,
    ) -> (r: u32)
        requires
            old(mem).wf(),
        ensures
            final(mem).wf(),
            ({
                let t = translation(old(self)@, old(mem)@, linear, true, is_user, paging_enabled, linear_mask);
                &&& final(self)@ == t.cpu
                &&& r == if t.error != 0 {
                    t.error
                } else if is_mmio(t.physical as int) {
                    MMIO_DEFERRED
                } else {
                    0
                }
                &&& final(mem)@ == if r != 0 {
                    t.store
                } else {
                    t.store.put64(t.physical as int, value)
                }
            }),
    {
        let (physical, err) = self.translate_linear(mem, linear, true, is_user, paging_enabled, linear_mask);
        if err != 0 {
            return err;
        }
        if is_mmio_physical(physical) {
            return MMIO_DEFERRED;
        }
        store_u64(mem, physical, value);
        0
    }
}

} // verus!
