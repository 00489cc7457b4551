use x86_mmu::{MemoryAccessor, MemoryStream};

fn setup() -> (MemoryStream, MemoryAccessor) {
    (MemoryStream::new(1024, 0x10000, 0), MemoryAccessor::new())
}

#[test]
fn sixteen_bit_write_keeps_upper_bits_of_gpr() {
    let (mut mem, mut acc) = setup();
    acc.write_by_size(&mut mem, 0, 0x12345678, 32);
    acc.write_by_size(&mut mem, 0, 0xABCD, 16);
    assert_eq!(acc.fetch_by_size(&mem, 0, 32), 0x1234ABCD);
    assert_eq!(acc.fetch_by_size(&mem, 0, 16), 0xABCD);
}

#[test]
fn eight_bit_write_keeps_upper_bits_of_gpr() {
    let (mut mem, mut acc) = setup();
    acc.write_by_size(&mut mem, 3, 0x12345678, 32);
    acc.write_by_size(&mut mem, 3, 0x1EF, 8);
    assert_eq!(acc.fetch(&mem, 3), 0x123456EF);
    assert_eq!(acc.fetch_by_size(&mem, 3, 8), 0xEF);
}

#[test]
fn thirty_two_bit_write_zero_extends_gpr() {
    let (mut mem, mut acc) = setup();
    acc.write_by_size(&mut mem, 16, -1, 64);
    assert_eq!(acc.fetch(&mem, 16), -1);
    acc.write_by_size(&mut mem, 16, -2, 32);
    assert_eq!(acc.fetch(&mem, 16), 0xFFFF_FFFE);
}

#[test]
fn segment_register_takes_whole_value() {
    let (mut mem, mut acc) = setup();
    acc.write_by_size(&mut mem, 9, 0x1234_5678, 16);
    assert_eq!(acc.fetch(&mem, 9), 0x1234_5678);
    assert_eq!(acc.fetch_by_size(&mem, 9, 16), 0x5678);
}

#[test]
fn allocate_safe_refuses_second_allocation() {
    let (mut mem, mut acc) = setup();
    assert_eq!(acc.try_to_fetch(&mem, 2), -1);
    assert!(acc.allocate(2, 3, true));
    assert_eq!(acc.try_to_fetch(&mem, 2), 0);
    assert_eq!(acc.try_to_fetch(&mem, 4), 0);
    assert_eq!(acc.try_to_fetch(&mem, 5), -1);
    acc.write_by_size(&mut mem, 2, 7, 64);
    assert!(!acc.allocate(2, 1, true));
    assert_eq!(acc.fetch(&mem, 2), 7);
    assert!(acc.allocate(2, 1, false));
    assert_eq!(acc.fetch(&mem, 2), 0);
}

#[test]
fn allocate_skips_unused_slots_and_ignores_memory() {
    let (mem, mut acc) = setup();
    assert!(acc.allocate(12, 10, true));
    assert_eq!(acc.try_to_fetch(&mem, 13), 0);
    assert_eq!(acc.try_to_fetch(&mem, 16), 0);
    assert_eq!(acc.try_to_fetch(&mem, 21), 0);
    assert_eq!(acc.try_to_fetch(&mem, 22), -1);
    assert!(acc.allocate(100, 4, true));
}

#[test]
fn addresses_outside_registers_use_the_store() {
    let (mut mem, mut acc) = setup();
    acc.write_by_size(&mut mem, 0x100, 0x1122_3344, 32);
    assert_eq!(mem.read_dword_at(0x100), 0x1122_3344);
    assert_eq!(acc.fetch(&mem, 0x101), 0x33);
    assert_eq!(acc.try_to_fetch(&mem, 0x103), 0x11);
    acc.write_by_size(&mut mem, 0x200, 0x55, 8);
    assert_eq!(mem.read_short_at(0x200), 0x55);
}

#[test]
fn high_and_low_byte_writes() {
    let (mut mem, mut acc) = setup();
    acc.write_by_size(&mut mem, 1, 0x1234, 16);
    acc.write_to_high_bit(1, 0x1AB);
    assert_eq!(acc.fetch(&mem, 1), 0xAB34);
    acc.write_to_low_bit(1, 0x2CD);
    assert_eq!(acc.fetch(&mem, 1), 0xABCD);
    acc.write_to_low_bit(14, 0x11);
    assert_eq!(acc.try_to_fetch(&mem, 14), 0);
}

#[test]
fn counters_work_through_the_low_byte() {
    let (mut mem, mut acc) = setup();
    acc.write_by_size(&mut mem, 0, 0x12FF, 64);
    acc.increment(&mut mem, 0);
    assert_eq!(acc.fetch(&mem, 0), 0x0100);
    acc.decrement(&mut mem, 0);
    assert_eq!(acc.fetch(&mem, 0), 0xFFFF);
    acc.add(&mut mem, 0, 0x10);
    assert_eq!(acc.fetch(&mem, 0), 0x010F);
    acc.sub(&mut mem, 0, 0x20);
    assert_eq!(acc.fetch(&mem, 0), 0xFFEF);
}

#[test]
fn update_flags_scenarios() {
    let mut acc = MemoryAccessor::new();
    acc.update_flags(0, 16);
    assert!(acc.zero_flag());
    acc.update_flags(-1, 16);
    assert!(acc.sign_flag());
    assert!(!acc.zero_flag());
    acc.update_flags(0xFF, 16);
    assert!(acc.parity_flag());
    acc.update_flags(0x7, 8);
    assert!(!acc.parity_flag());
}

#[test]
fn update_flags_masks_and_overflow() {
    let mut acc = MemoryAccessor::new();
    acc.update_flags(0x100, 8);
    assert!(acc.zero_flag());
    assert!(acc.overflow_flag());
    acc.update_flags(0x80, 8);
    assert!(acc.sign_flag());
    assert!(acc.overflow_flag());
    acc.update_flags(-128, 8);
    assert!(!acc.overflow_flag());
    acc.update_flags(0x7FFF_FFFF, 32);
    assert!(!acc.overflow_flag());
    assert!(!acc.sign_flag());
}

#[test]
fn update_flags_at_full_width() {
    let mut acc = MemoryAccessor::new();
    acc.set_overflow_flag(true);
    acc.update_flags(i64::MIN, 64);
    assert!(acc.sign_flag());
    assert!(!acc.zero_flag());
    assert!(!acc.overflow_flag());
    assert!(acc.parity_flag());
    acc.update_flags(0, 64);
    assert!(acc.zero_flag());
}

#[test]
fn update_flags_leaves_carry_alone() {
    let mut acc = MemoryAccessor::new();
    acc.set_carry_flag(true);
    acc.set_auxiliary_carry_flag(true);
    acc.update_flags(0, 32);
    assert!(acc.carry_flag());
    assert!(acc.auxiliary_carry_flag());
}

#[test]
fn flag_setters_and_getters() {
    let mut acc = MemoryAccessor::new();
    assert!(!acc.direction_flag());
    acc.set_direction_flag(true);
    acc.set_interrupt_flag(true);
    acc.set_zero_flag(true);
    acc.set_sign_flag(true);
    acc.set_parity_flag(true);
    acc.set_instruction_fetch(true);
    assert!(acc.direction_flag());
    assert!(acc.interrupt_flag());
    assert!(acc.zero_flag());
    assert!(acc.sign_flag());
    assert!(acc.parity_flag());
    assert!(acc.instruction_fetch());
    acc.set_direction_flag(false);
    assert!(!acc.direction_flag());
}

#[test]
fn control_registers_and_efer() {
    let mut acc = MemoryAccessor::new();
    assert_eq!(acc.read_control_register(0), 0x22);
    assert_eq!(acc.read_control_register(8), 0);
    acc.write_control_register(8, 0xF);
    assert_eq!(acc.read_control_register(8), 0xF);
    acc.write_control_register(9, 0x1);
    assert_eq!(acc.read_control_register(9), 0);
    acc.write_efer(0x500);
    assert_eq!(acc.read_efer(), 0x500);
}
