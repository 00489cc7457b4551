//! Properties that relate several operations of the library, stated over
//! the models the operations' contracts use.

use vstd::prelude::*;

use crate::memory_accessor::paging::{
    entry_address, entry_fault, fault_address, legacy_entry_fault, lemma_and_le, table_root,
    translation, walk_legacy, walk_long, CR4_PAE, EFER_LME, PAGE_FAULT, PTE_ACCESSED, PTE_DIRTY,
    PTE_PAGE_SIZE, PTE_PRESENT, PTE_USER, PTE_WRITABLE, TABLE_FRAME_MASK,
};
use crate::memory_accessor::registers::{cpu_written, fetched, is_gpr_slot, is_register_slot, sized};
use crate::memory_accessor::CpuState;
use crate::memory_stream::StoreModel;

verus! {

proof fn lemma_merge_bits(c: i64, v: i64)
    by (bit_vector)
    ensures
        ((c & !0xFF) | (v & 0xFF)) & 0xFF == v & 0xFF,
        ((c & !0xFF) | (v & 0xFF)) & !0xFF == c & !0xFF,
        ((c & !0xFFFF) | (v & 0xFFFF)) & 0xFFFF == v & 0xFFFF,
        ((c & !0xFFFF) | (v & 0xFFFF)) & !0xFFFF == c & !0xFFFF,
        ((c & !0xFFFF) | (v & 0xFFFF)) & 0xFF == v & 0xFF,
        (v & 0xFFFF_FFFF) & 0xFFFF_FFFF == v & 0xFFFF_FFFF,
        (v & 0xFFFF_FFFF) & 0xFFFF == v & 0xFFFF,
        (v & 0xFFFF_FFFF) & 0xFF == v & 0xFF,
{
}

/// Writing `value` to a register slot at width 8, 16 or 32 and reading it
/// back at that width gives the value cut to the width. In a GPR an 8- or
/// 16-bit write keeps every bit above it and a 32-bit write zero-extends;
/// any other slot takes the whole value.
pub proof fn lemma_register_write_read(s: CpuState, m: StoreModel, a: int, value: i64, width: u32)
    requires
        s.wf(),
        is_register_slot(a),
        width == 8 || width == 16 || width == 32,
    ensures
        ({
            let after = fetched(cpu_written(s, a, value, width), m, a);
            &&& sized(after, width) == sized(value, width)
            &&& is_gpr_slot(a) && width == 8 ==> after & !0xFF == fetched(s, m, a) & !0xFF
            &&& is_gpr_slot(a) && width == 16 ==> after & !0xFFFF == fetched(s, m, a) & !0xFFFF
            &&& is_gpr_slot(a) && width == 32 ==> after == value & 0xFFFF_FFFF
            &&& !is_gpr_slot(a) ==> after == value
        }),
{
    lemma_merge_bits(s.registers[a], value);
}

/// With paging off, translation is the identity on the masked address and
/// changes neither the CPU nor the store.
pub proof fn lemma_identity_without_paging(
    s: CpuState,
    m: StoreModel,
    linear: u64,
    is_write: bool,
    is_user: bool,
    linear_mask: u64,
)
    ensures
        ({
            let t = translation(s, m, linear, is_write, is_user, false, linear_mask);
            &&& t.physical == linear & linear_mask
            &&& t.error == 0
            &&& t.cpu == s
            &&& t.store == m
        }),
{
}

/// The committed size never passes the logical maximum, however the store
/// is asked to grow.
pub proof fn lemma_growth_bounded(m: StoreModel, required: int)
    requires
        m.valid(),
    ensures
        m.grown(required).size <= m.logical_max(),
        m.grown(required).size >= m.size,
        required < m.logical_max() ==> m.grown(required).size > required,
{
}

/// A byte write leaves every other address as it was, so an address that
/// was never written keeps reading as it did in a fresh store: zero.
pub proof fn lemma_write_elsewhere(m: StoreModel, a: int, b: int, v: u8)
    requires
        m.valid(),
        a != b,
    ensures
        m.put(b, v).byte(a) == m.byte(a),
        m.put(b, v).valid(),
{
}

/// Byte-by-byte memmove from the last byte down, as a plain loop would do it.
pub open spec fn bytewise_copy_back(bytes: Seq<u8>, src: int, dst: int, n: nat) -> Seq<u8>
    decreases n,
{
    if n == 0 {
        bytes
    } else {
        let k = n - 1;
        let rest = bytewise_copy_back(bytes, src + 1, dst + 1, k as nat);
        rest.update(dst, rest[src])
    }
}

proof fn lemma_copy_back_shape(bytes: Seq<u8>, src: int, dst: int, n: nat)
    requires
        0 <= src < dst,
        dst + n <= bytes.len(),
    ensures
        bytewise_copy_back(bytes, src, dst, n) =~= Seq::new(
            bytes.len(),
            |i: int|
                if dst <= i < dst + n {
                    bytes[i - dst + src]
                } else {
                    bytes[i]
                },
        ),
    decreases n,
{
    if n > 0 {
        lemma_copy_back_shape(bytes, src + 1, dst + 1, (n - 1) as nat);
    }
}

/// An internal copy whose destination starts inside the source range, after
/// its start, leaves the same bytes as a byte-by-byte memmove that copies
/// from the last byte down.
pub proof fn lemma_overlapping_copy_is_memmove(m: StoreModel, src: int, dst: int, size: int)
    requires
        m.valid(),
        0 <= src < dst < src + size,
        dst + size <= m.logical_max(),
    ensures
        m.copied(src, dst, size).bytes == bytewise_copy_back(m.bytes, src, dst, size as nat),
{
    lemma_copy_back_shape(m.bytes, src, dst, size as nat);
    assert(m.copy_len(src, dst, size) == size);
    assert(m.copied(src, dst, size).bytes =~= bytewise_copy_back(m.bytes, src, dst, size as nat));
}

/// Bytes written from `offset` on (what `write` stores at the cursor, and
/// `copy_from_external` at an address) read back the same from that offset
/// (what `read` returns there), as long as the whole range lies inside the
/// logical space.
pub proof fn lemma_write_read_round_trip(m: StoreModel, offset: int, data: Seq<u8>)
    requires
        m.valid(),
        0 <= offset,
        offset + data.len() <= m.logical_max(),
    ensures
        forall|i: int| 0 <= i < data.len() ==> #[trigger] m.put_slice(offset, data).byte(offset + i) == data[i],
{
}


proof fn lemma_u32_digits(v: u32)
    ensures
        v as int == (v % 0x100) as u8 + 0x100 * (((v / 0x100) % 0x100) as u8) + 0x10000 * (((v
            / 0x10000) % 0x100) as u8) + 0x1000000 * ((v / 0x1000000) as u8),
{
    let x = v as int;
    vstd::arithmetic::div_mod::lemma_fundamental_div_mod(x, 0x100);
    vstd::arithmetic::div_mod::lemma_fundamental_div_mod(x / 0x100, 0x100);
    vstd::arithmetic::div_mod::lemma_fundamental_div_mod(x / 0x10000, 0x100);
    vstd::arithmetic::div_mod::lemma_div_denominator(x, 0x100, 0x100);
    vstd::arithmetic::div_mod::lemma_div_denominator(x, 0x10000, 0x100);
    assert(x / 0x1000000 < 0x100) by {
        vstd::arithmetic::div_mod::lemma_div_by_multiple_is_strongly_ordered(x, 0x1_0000_0000, 0x100, 0x1000000);
    }
}

/// A 32-bit store inside the logical space reads back as stored.
pub proof fn lemma_put32_read_back(m: StoreModel, a: int, v: u32)
    requires
        m.valid(),
        0 <= a,
        a + 4 <= m.logical_max(),
    ensures
        m.put32(a, v).read_u32(a) == v,
        m.put32(a, v).valid(),
{
    lemma_u32_digits(v);
}

/// A 32-bit store leaves a 32-bit value that does not overlap it as it was.
pub proof fn lemma_put32_elsewhere(m: StoreModel, a: int, b: int, v: u32)
    requires
        m.valid(),
        a + 4 <= b || b + 4 <= a,
    ensures
        m.put32(a, v).read_u32(b) == m.read_u32(b),
        m.put32(a, v).valid(),
{
}

proof fn lemma_entry_bits(e: u64, root: u64)
    by (bit_vector)
    requires
        e <= 0xFFFF_FFFF,
    ensures
        ((e | PTE_ACCESSED) as u32) as u64 & PTE_ACCESSED != 0,
        ((e | PTE_ACCESSED | PTE_DIRTY) as u32) as u64 & PTE_ACCESSED != 0,
        ((e | PTE_ACCESSED | PTE_DIRTY) as u32) as u64 & PTE_DIRTY != 0,
        (e & 0xFFFF_F000) & 0xFFFF_FFFF == e & 0xFFFF_F000,
        (e & 0xFFFF_F000) % 0x1000 == 0,
        e & 0xFFFF_F000 <= 0xFFFF_F000,
        e & TABLE_FRAME_MASK == e & 0xFFFF_F000,
        (root & 0xFFFF_F000) & 0xFFFF_FFFF == root & 0xFFFF_F000,
        (root & 0xFFFF_F000) % 0x1000 == 0,
        (0u64 >> 22u64) & 0x3FF == 0,
        (0u64 >> 12u64) & 0x3FF == 0,
        0u64 & 0xFFF == 0,
{
}

/// Legacy 32-bit walk of linear address 0 through a present, user-writable
/// directory entry and a present, user-writable 4 KiB table entry: it
/// yields the table entry's frame with no fault, and leaves the directory
/// entry accessed and the table entry accessed, and dirty after a write.
/// The frame and the table must not be at physical 0, which the walk
/// reports as a reserved-bit fault.
pub proof fn lemma_legacy_walk_maps_page(
    s: CpuState,
    m: StoreModel,
    is_write: bool,
    is_user: bool,
    pse: bool,
)
    requires
        m.valid(),
        table_root(s) + 4 <= m.logical_max(),
        ({
            let pde = m.read_u32(table_root(s) as int) as u64;
            let table = pde & 0xFFFF_F000;
            let pte = m.read_u32(table as int) as u64;
            &&& pde & PTE_PRESENT != 0 && pde & PTE_WRITABLE != 0 && pde & PTE_USER != 0
            &&& !(pse && pde & PTE_PAGE_SIZE != 0)
            &&& table != 0
            &&& table + 4 <= m.logical_max()
            &&& pte & PTE_PRESENT != 0 && pte & PTE_WRITABLE != 0 && pte & PTE_USER != 0
            &&& pte & 0xFFFF_F000 != 0
        }),
    ensures
        ({
            let root = table_root(s);
            let pde = m.read_u32(root as int) as u64;
            let table = pde & 0xFFFF_F000;
            let pte = m.read_u32(table as int) as u64;
            let w = walk_legacy(s, m, 0, is_write, is_user, pse);
            &&& w.error == 0
            &&& w.physical == pte & 0xFFFF_F000
            &&& (w.store.read_u32(root as int) as u64) & PTE_ACCESSED != 0
            &&& (w.store.read_u32(table as int) as u64) & PTE_ACCESSED != 0
            &&& is_write ==> (w.store.read_u32(table as int) as u64) & PTE_DIRTY != 0
        }),
{
    reveal(walk_legacy);
    let root = table_root(s);
    let pde = m.read_u32(root as int) as u64;
    let table = pde & 0xFFFF_F000;
    let pte = m.read_u32(table as int) as u64;
    lemma_entry_bits(pde, s.control[3]);
    lemma_entry_bits(pte, s.control[3]);
    let m1 = m.put32(root as int, (pde | PTE_ACCESSED) as u32);
    lemma_put32_read_back(m, root as int, (pde | PTE_ACCESSED) as u32);
    let v = if is_write {
        (pte | PTE_ACCESSED | PTE_DIRTY) as u32
    } else {
        (pte | PTE_ACCESSED) as u32
    };
    lemma_put32_read_back(m1, table as int, v);
    if root != table {
        assert(root + 4 <= table || table + 4 <= root) by {
            vstd::arithmetic::div_mod::lemma_fundamental_div_mod(root as int, 0x1000);
            vstd::arithmetic::div_mod::lemma_fundamental_div_mod(table as int, 0x1000);
        }
        lemma_put32_elsewhere(m1, table as int, root as int, v);
    }
}

/// A user read through a present entry that is reserved for the
/// supervisor faults with the present and user bits set and the write bit
/// clear, in every walk.
pub proof fn lemma_user_read_of_supervisor_entry(e: u64, fetch: bool)
    requires
        e & PTE_PRESENT != 0,
        e & PTE_USER == 0,
    ensures
        entry_fault(e, false, true) == PAGE_FAULT + 0b101,
        e & TABLE_FRAME_MASK != 0 ==> legacy_entry_fault(e, false, true, fetch) == PAGE_FAULT
            + 0b101,
{
}

/// Every fault a translation reports leaves the faulting address in CR2:
/// sign-extended from bit 47 in IA-32e mode, else cut to 32 bits.
pub proof fn lemma_fault_sets_cr2(
    s: CpuState,
    m: StoreModel,
    linear: u64,
    is_write: bool,
    is_user: bool,
    linear_mask: u64,
)
    requires
        s.wf(),
    ensures
        ({
            let t = translation(s, m, linear, is_write, is_user, true, linear_mask);
            let long_mode = s.control[4] & CR4_PAE != 0 && s.efer & EFER_LME != 0;
            t.error != 0 ==> t.cpu.control[2] == fault_address(linear & linear_mask, long_mode)
        }),
{
}

/// A 64-bit store inside the logical space reads back as stored.
pub proof fn lemma_put64_read_back(m: StoreModel, a: int, v: u64)
    requires
        m.valid(),
        0 <= a,
        a + 8 <= m.logical_max(),
    ensures
        m.put64(a, v).read_u64(a) == v,
        m.put64(a, v).valid(),
{
    let lo = (v % 0x1_0000_0000) as u32;
    let hi = (v / 0x1_0000_0000) as u32;
    let m1 = m.put32(a, lo);
    lemma_put32_read_back(m, a, lo);
    lemma_put32_read_back(m1, a + 4, hi);
    lemma_put32_elsewhere(m1, a + 4, a, hi);
    vstd::arithmetic::div_mod::lemma_fundamental_div_mod(v as int, 0x1_0000_0000);
}

/// A 64-bit store leaves a 64-bit value that does not overlap it as it was.
pub proof fn lemma_put64_elsewhere(m: StoreModel, a: int, b: int, v: u64)
    requires
        m.valid(),
        a + 8 <= b || b + 8 <= a,
    ensures
        m.put64(a, v).read_u64(b) == m.read_u64(b),
        m.put64(a, v).valid(),
{
    let lo = (v % 0x1_0000_0000) as u32;
    let hi = (v / 0x1_0000_0000) as u32;
    let m1 = m.put32(a, lo);
    lemma_put32_elsewhere(m, a, b, lo);
    lemma_put32_elsewhere(m, a, b + 4, lo);
    lemma_put32_elsewhere(m1, a + 4, b, hi);
    lemma_put32_elsewhere(m1, a + 4, b + 4, hi);
}

proof fn lemma_accessed_bit_is_inert(e: u64)
    by (bit_vector)
    ensures
        (e | PTE_ACCESSED) & PTE_PRESENT == e & PTE_PRESENT,
        (e | PTE_ACCESSED) & PTE_WRITABLE == e & PTE_WRITABLE,
        (e | PTE_ACCESSED) & PTE_USER == e & PTE_USER,
        (e | PTE_ACCESSED) & PTE_PAGE_SIZE == e & PTE_PAGE_SIZE,
        (e | PTE_ACCESSED) & TABLE_FRAME_MASK == e & TABLE_FRAME_MASK,
        (e | PTE_ACCESSED) | PTE_ACCESSED == e | PTE_ACCESSED,
{
}

proof fn lemma_entry_address_aligned(base: u64, index: u64)
    by (bit_vector)
    requires
        index <= 0x1FF,
    ensures
        ((((base & TABLE_FRAME_MASK) + index * 8) as u64) & 0xFFFF_FFFF) % 8 == 0,
        ((((base & 0xFFFF_F000) + index * 8) as u64) & 0xFFFF_FFFF) % 8 == 0,
{
}

proof fn lemma_aligned_apart(a: int, b: int)
    requires
        a % 8 == 0,
        b % 8 == 0,
        a != b,
    ensures
        a + 8 <= b || b + 8 <= a,
{
    vstd::arithmetic::div_mod::lemma_fundamental_div_mod(a, 8);
    vstd::arithmetic::div_mod::lemma_fundamental_div_mod(b, 8);
}

/// The entry read at `b` after `e | accessed` was stored at `a`: the value
/// first read there, or `e | accessed` when `b` is `a` itself.
proof fn lemma_read_after_mark(m: StoreModel, a: int, b: int, e: u64)
    requires
        m.valid(),
        a % 8 == 0,
        b % 8 == 0,
        0 <= a,
        a + 8 <= m.logical_max(),
        m.read_u64(a) == e,
    ensures
        m.put64(a, e | PTE_ACCESSED).valid(),
        ({
            let v = m.put64(a, e | PTE_ACCESSED).read_u64(b) as u64;
            let w = m.read_u64(b) as u64;
            v == w || v == w | PTE_ACCESSED
        }),
{
    lemma_put64_read_back(m, a, e | PTE_ACCESSED);
    if a != b {
        lemma_aligned_apart(a, b);
        lemma_put64_elsewhere(m, a, b, e | PTE_ACCESSED);
    }
}

/// IA-32e walk of a user read that reaches a 4 KiB table entry which is
/// present but reserved for the supervisor, through a PML4, pointer and
/// directory entry that each pass the checks: the fault carries the
/// present and user bits and not the write bit, and CR2 holds the
/// faulting address sign-extended from bit 47. The entries lie inside the
/// store.
pub proof fn lemma_long_walk_user_read_of_supervisor_page(
    s: CpuState,
    m: StoreModel,
    linear: u64,
    linear_mask: u64,
)
    requires
        s.wf(),
        m.valid(),
        s.control[4] & CR4_PAE != 0,
        s.efer & EFER_LME != 0,
        ({
            let lin = linear & linear_mask;
            let pml4e_addr = entry_address(table_root(s), (lin >> 39u64) & 0x1FF, 8);
            let pml4e = m.read_u64(pml4e_addr as int) as u64;
            let pdpte_addr = entry_address(pml4e & TABLE_FRAME_MASK, (lin >> 30u64) & 0x1FF, 8);
            let pdpte = m.read_u64(pdpte_addr as int) as u64;
            let pde_addr = entry_address(pdpte & TABLE_FRAME_MASK, (lin >> 21u64) & 0x1FF, 8);
            let pde = m.read_u64(pde_addr as int) as u64;
            let pte_addr = entry_address(pde & TABLE_FRAME_MASK, (lin >> 12u64) & 0x1FF, 8);
            let pte = m.read_u64(pte_addr as int) as u64;
            &&& pml4e_addr + 8 <= m.logical_max()
            &&& pdpte_addr + 8 <= m.logical_max()
            &&& pde_addr + 8 <= m.logical_max()
            &&& pte_addr + 8 <= m.logical_max()
            &&& entry_fault(pml4e, false, true) == 0
            &&& entry_fault(pdpte, false, true) == 0
            &&& pdpte & PTE_PAGE_SIZE == 0
            &&& entry_fault(pde, false, true) == 0
            &&& pde & PTE_PAGE_SIZE == 0
            &&& pte & PTE_PRESENT != 0
            &&& pte & PTE_USER == 0
        }),
    ensures
        ({
            let t = translation(s, m, linear, false, true, true, linear_mask);
            &&& t.error == PAGE_FAULT + 0b101
            &&& t.cpu.control[2] == fault_address(linear & linear_mask, true)
        }),
{
    reveal(walk_long);
    let lin = linear & linear_mask;
    let root = table_root(s);
    lemma_and_le(lin >> 39u64, 0x1FF);
    lemma_and_le(lin >> 30u64, 0x1FF);
    lemma_and_le(lin >> 21u64, 0x1FF);
    lemma_and_le(lin >> 12u64, 0x1FF);
    let pml4e_addr = entry_address(root, (lin >> 39u64) & 0x1FF, 8);
    let pml4e = m.read_u64(pml4e_addr as int) as u64;
    lemma_entry_address_aligned(s.control[3], (lin >> 39u64) & 0x1FF);
    let pdpte_addr = entry_address(pml4e & TABLE_FRAME_MASK, (lin >> 30u64) & 0x1FF, 8);
    let pdpte = m.read_u64(pdpte_addr as int) as u64;
    lemma_entry_address_aligned(pml4e, (lin >> 30u64) & 0x1FF);
    let pde_addr = entry_address(pdpte & TABLE_FRAME_MASK, (lin >> 21u64) & 0x1FF, 8);
    let pde = m.read_u64(pde_addr as int) as u64;
    lemma_entry_address_aligned(pdpte, (lin >> 21u64) & 0x1FF);
    let pte_addr = entry_address(pde & TABLE_FRAME_MASK, (lin >> 12u64) & 0x1FF, 8);
    let pte = m.read_u64(pte_addr as int) as u64;
    lemma_entry_address_aligned(pde, (lin >> 12u64) & 0x1FF);

    let m1 = m.put64(pml4e_addr as int, pml4e | PTE_ACCESSED);
    lemma_read_after_mark(m, pml4e_addr as int, pdpte_addr as int, pml4e);
    lemma_read_after_mark(m, pml4e_addr as int, pde_addr as int, pml4e);
    lemma_read_after_mark(m, pml4e_addr as int, pte_addr as int, pml4e);
    lemma_accessed_bit_is_inert(pdpte);
    lemma_accessed_bit_is_inert(pml4e);
    let pdpte1 = m1.read_u64(pdpte_addr as int) as u64;
    assert(pdpte1 == pdpte || pdpte1 == pdpte | PTE_ACCESSED);
    assert(entry_fault(pdpte1, false, true) == 0);

    let m2 = m1.put64(pdpte_addr as int, pdpte1 | PTE_ACCESSED);
    lemma_put64_read_back(m, pml4e_addr as int, pml4e | PTE_ACCESSED);
    lemma_read_after_mark(m1, pdpte_addr as int, pde_addr as int, pdpte1);
    lemma_read_after_mark(m1, pdpte_addr as int, pte_addr as int, pdpte1);
    lemma_accessed_bit_is_inert(pde);
    lemma_accessed_bit_is_inert(pde | PTE_ACCESSED);
    lemma_accessed_bit_is_inert(pte);
    lemma_accessed_bit_is_inert(pte | PTE_ACCESSED);
    let pde2 = m2.read_u64(pde_addr as int) as u64;
    assert(pde2 == pde || pde2 == pde | PTE_ACCESSED);
    assert(entry_fault(pde2, false, true) == 0);
    let pte2 = m2.read_u64(pte_addr as int) as u64;
    assert(pte2 == pte || pte2 == pte | PTE_ACCESSED);
    assert(entry_fault(pte2, false, true) == PAGE_FAULT + 0b101);
}
} // verus!
