use x86_mmu::memory_accessor::paging::MMIO_DEFERRED;
use x86_mmu::{MemoryAccessor, MemoryStream};

const P: u64 = 0x001;
const RW: u64 = 0x002;
const US: u64 = 0x004;
const ACCESSED: u64 = 0x020;
const DIRTY: u64 = 0x040;
const PS: u64 = 0x080;
const FULL_MASK: u64 = u64::MAX;

fn machine() -> (MemoryStream, MemoryAccessor) {
    (MemoryStream::new(0x20000, 0x20000, 0), MemoryAccessor::new())
}

#[test]
fn identity_when_paging_is_off() {
    let (mut mem, mut acc) = machine();
    let before = mem.size();
    assert_eq!(
        acc.translate_linear(&mut mem, 0x1234_5678_9ABC, true, true, false, 0xFFFF_FFFF),
        (0x5678_9ABC, 0)
    );
    assert_eq!(acc.translate_linear(&mut mem, u64::MAX, false, false, false, FULL_MASK), (u64::MAX, 0));
    assert_eq!(acc.read_control_register(2), 0);
    assert_eq!(mem.size(), before);
}

#[test]
fn legacy_walk_maps_4k_page_and_marks_entries() {
    let (mut mem, mut acc) = machine();
    acc.write_control_register(3, 0x1000);
    mem.write_dword_at(0x1000, 0x2000 | (P | RW | US) as u32);
    mem.write_dword_at(0x2000, 0x7000 | (P | RW | US) as u32);

    assert_eq!(acc.translate_linear(&mut mem, 0x0, false, true, true, FULL_MASK), (0x7000, 0));
    assert_ne!(mem.read_dword_at(0x1000) as u64 & ACCESSED, 0);
    assert_ne!(mem.read_dword_at(0x2000) as u64 & ACCESSED, 0);
    assert_eq!(mem.read_dword_at(0x2000) as u64 & DIRTY, 0);

    assert_eq!(acc.translate_linear(&mut mem, 0x123, true, true, true, FULL_MASK), (0x7123, 0));
    assert_ne!(mem.read_dword_at(0x2000) as u64 & DIRTY, 0);
}

#[test]
fn legacy_walk_with_pse_maps_4m_page() {
    let (mut mem, mut acc) = machine();
    acc.write_control_register(3, 0x1000);
    acc.write_control_register(4, 1 << 4);
    // Directory entry 1 maps linear 4 MiB..8 MiB onto physical 12 MiB.
    mem.write_dword_at(0x1004, 0x00C0_0000 | (P | RW | PS) as u32);
    assert_eq!(
        acc.translate_linear(&mut mem, 0x0041_2345, true, false, true, FULL_MASK),
        (0x00C1_2345, 0)
    );
    assert_ne!(mem.read_dword_at(0x1004) as u64 & DIRTY, 0);
}

#[test]
fn legacy_not_present_fault_sets_cr2() {
    let (mut mem, mut acc) = machine();
    acc.write_control_register(3, 0x1000);
    let (addr, err) = acc.translate_linear(&mut mem, 0x8040_3000, true, true, true, FULL_MASK);
    assert_eq!(err, (0x0E << 16) | 0b110);
    assert_eq!(addr, 0x8040_3000);
    assert_eq!(acc.read_control_register(2), 0x8040_3000);
}

#[test]
fn legacy_zero_frame_is_a_reserved_bit_fault() {
    let (mut mem, mut acc) = machine();
    acc.write_control_register(3, 0x1000);
    mem.write_dword_at(0x1000, 0x2000 | (P | RW | US) as u32);
    mem.write_dword_at(0x2000, (P | RW | US) as u32);
    let (_, err) = acc.translate_linear(&mut mem, 0x0, false, false, true, FULL_MASK);
    assert_eq!(err, (0x0E << 16) | 0b1001);
    acc.set_instruction_fetch(true);
    let (_, err) = acc.translate_linear(&mut mem, 0x0, false, true, true, FULL_MASK);
    assert_eq!(err, (0x0E << 16) | 0b1_1101);
}

#[test]
fn legacy_write_to_read_only_page_faults() {
    let (mut mem, mut acc) = machine();
    acc.write_control_register(3, 0x1000);
    mem.write_dword_at(0x1000, 0x2000 | (P | RW | US) as u32);
    mem.write_dword_at(0x2000, 0x7000 | (P | US) as u32);
    let (_, err) = acc.translate_linear(&mut mem, 0x10, true, false, true, FULL_MASK);
    assert_eq!(err, (0x0E << 16) | 0b011);
    assert_eq!(mem.read_dword_at(0x2000) as u64 & ACCESSED, 0);
}

#[test]
fn legacy_user_read_of_supervisor_page_faults() {
    let (mut mem, mut acc) = machine();
    acc.write_control_register(3, 0x1000);
    mem.write_dword_at(0x1000, 0x2000 | (P | RW | US) as u32);
    mem.write_dword_at(0x2008, 0x9000 | (P | RW) as u32);
    let (_, err) = acc.translate_linear(&mut mem, 0x2abc, false, true, true, 0xFFFF_FFFF);
    assert_eq!(err, (0x0E << 16) | 0b101);
    assert_eq!(acc.read_control_register(2), 0x2abc);
}

#[test]
fn pae_walk_maps_4k_and_2m_pages() {
    let (mut mem, mut acc) = machine();
    acc.write_control_register(3, 0x1000);
    acc.write_control_register(4, 1 << 5);
    // PDPT[1] -> directory at 0x2000.
    mem.write_qword_at(0x1008, 0x2000 | P | RW | US);
    // Directory entry 0 -> table at 0x3000; entry 1 maps a 2 MiB page at 0x0060_0000.
    mem.write_qword_at(0x2000, 0x3000 | P | RW | US);
    mem.write_qword_at(0x2008, 0x0060_0000 | P | RW | US | PS);
    mem.write_qword_at(0x3000 + 5 * 8, 0x0001_5000 | P | RW | US);

    let linear_4k = 0x4000_5678u64;
    assert_eq!(acc.translate_linear(&mut mem, linear_4k, true, true, true, FULL_MASK), (0x0001_5678, 0));
    assert_ne!(mem.read_qword_at(0x1008) & ACCESSED, 0);
    assert_ne!(mem.read_qword_at(0x2000) & ACCESSED, 0);
    assert_ne!(mem.read_qword_at(0x3028) & DIRTY, 0);

    let linear_2m = 0x4020_1234u64;
    assert_eq!(acc.translate_linear(&mut mem, linear_2m, false, true, true, FULL_MASK), (0x0060_1234, 0));
    assert_ne!(mem.read_qword_at(0x2008) & ACCESSED, 0);
    assert_eq!(mem.read_qword_at(0x2008) & DIRTY, 0);
}

#[test]
fn ia32e_walk_maps_1g_page() {
    let (mut mem, mut acc) = machine();
    acc.write_efer(1 << 8);
    acc.write_control_register(3, 0x1000);
    acc.write_control_register(4, 1 << 5);
    mem.write_qword_at(0x1000, 0x2000 | P | RW | US);
    mem.write_qword_at(0x2000 + 8, 0x4000_0000 | P | RW | US | PS);
    let linear = 0x4012_3456u64;
    assert_eq!(acc.translate_linear(&mut mem, linear, true, false, true, FULL_MASK), (0x4012_3456, 0));
    assert_ne!(mem.read_qword_at(0x2008) & DIRTY, 0);
}

#[test]
fn ia32e_fault_in_lower_half_keeps_address() {
    let (mut mem, mut acc) = machine();
    acc.write_efer(1 << 8);
    acc.write_control_register(3, 0x1000);
    acc.write_control_register(4, 1 << 5);
    let (_, err) = acc.translate_linear(&mut mem, 0x0000_7FFF_0000_1000, false, false, true, 0x0000_FFFF_FFFF_FFFF);
    assert_eq!(err, 0x0E << 16);
    assert_eq!(acc.read_control_register(2), 0x0000_7FFF_0000_1000);
}

#[test]
fn translated_accesses_read_and_write_through_pages() {
    let (mut mem, mut acc) = machine();
    acc.write_control_register(3, 0x1000);
    mem.write_dword_at(0x1000, 0x2000 | (P | RW | US) as u32);
    mem.write_dword_at(0x2000 + 4, 0x8000 | (P | RW | US) as u32);
    let base = 0x1000u64;
    assert_eq!(acc.write_memory_32(&mut mem, base + 0x10, 0xDEAD_BEEF, true, true, FULL_MASK), 0);
    assert_eq!(mem.read_dword_at(0x8010), 0xDEAD_BEEF);
    assert_eq!(acc.read_memory_32(&mut mem, base + 0x10, true, true, FULL_MASK), (0xDEAD_BEEF, 0));
    assert_eq!(acc.read_memory_16(&mut mem, base + 0x12, true, true, FULL_MASK), (0xDEAD, 0));
    assert_eq!(acc.read_memory_8(&mut mem, base + 0x10, true, true, FULL_MASK), (0xEF, 0));
    assert_eq!(acc.write_memory_16(&mut mem, base + 0x20, 0x1234, true, true, FULL_MASK), 0);
    assert_eq!(acc.write_memory_8(&mut mem, base + 0x22, 0x56, true, true, FULL_MASK), 0);
    assert_eq!(acc.write_memory_64(&mut mem, base + 0x28, 0x0102_0304_0506_0708, true, true, FULL_MASK), 0);
    assert_eq!(acc.read_memory_64(&mut mem, base + 0x20, true, true, FULL_MASK), (0x0056_1234, 0));
    assert_eq!(acc.read_memory_64(&mut mem, base + 0x28, true, true, FULL_MASK), (0x0102_0304_0506_0708, 0));

    let err = acc.write_memory_8(&mut mem, 0x0040_0000, 1, true, true, FULL_MASK);
    assert_eq!(err, (0x0E << 16) | 0b110);
    assert_eq!(acc.read_memory_8(&mut mem, 0x0040_0000, true, true, FULL_MASK), (0, (0x0E << 16) | 0b100));
}

#[test]
fn mmio_addresses_are_deferred() {
    let (mut mem, mut acc) = machine();
    assert!(MemoryAccessor::is_mmio_address(0xFEE0_0000));
    assert!(MemoryAccessor::is_mmio_address(0xFEC0_001F));
    assert!(MemoryAccessor::is_mmio_address(0xE080_0000));
    assert!(!MemoryAccessor::is_mmio_address(0xFEC0_0020));
    assert!(!MemoryAccessor::is_mmio_address(0xFEE0_1000));
    assert_eq!(MMIO_DEFERRED, 0xFFFF_FFFF);
    assert_eq!(acc.read_memory_32(&mut mem, 0xFEE0_0020, false, false, FULL_MASK), (0, 0xFFFF_FFFF));
    assert_eq!(acc.write_memory_8(&mut mem, 0xE000_0000, 7, false, false, FULL_MASK), 0xFFFF_FFFF);
    assert_eq!(acc.write_memory_64(&mut mem, 0x100, 7, false, false, FULL_MASK), 0);
    assert_eq!(mem.read_qword_at(0x100), 7);
}

#[test]
fn physical_accesses_bypass_translation() {
    let (mut mem, acc) = machine();
    acc.write_physical_64(&mut mem, 0x40, 0x1122_3344_5566_7788);
    assert_eq!(acc.read_physical_32(&mem, 0x44), 0x1122_3344);
    assert_eq!(acc.read_physical_16(&mem, 0x40), 0x7788);
    assert_eq!(acc.read_physical_8(&mem, 0x47), 0x11);
    acc.write_physical_32(&mut mem, 0x50, 0xAABB_CCDD);
    acc.write_physical_16(&mut mem, 0x50, 0x0102);
    assert_eq!(acc.read_physical_64(&mem, 0x50), 0xAABB_0102);
    acc.write_raw_byte(&mut mem, 0x60, 0x9);
    acc.write_to_memory(&mut mem, 0x61, 0x8);
    assert_eq!(acc.read_raw_byte(&mem, 0x60), 0x9);
    assert_eq!(acc.read_from_memory(&mem, 0x61), 0x8);
    assert_eq!(acc.read_physical_64(&mem, usize::MAX - 2), 0);
}
