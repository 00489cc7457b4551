use x86_mmu::{MemoryAccessor, MemoryStream};

#[test]
fn memory_accessor_test_register_operations() {
    let mut memory = MemoryStream::new(1024, 16 * 1024 * 1024, 256 * 1024 * 1024);
    let mut accessor = MemoryAccessor::new();

    // Allocate EAX (address 0)
    accessor.allocate(0, 1, true);

    // Write and read
    accessor.write_by_size(&mut memory, 0, 0x12345678, 32);
    assert_eq!(accessor.fetch_by_size(&memory, 0, 32), 0x12345678);

    // A 16-bit write replaces only the low 16 bits
    accessor.write_by_size(&mut memory, 0, 0xABCD, 16);
    assert_eq!(accessor.fetch_by_size(&memory, 0, 16), 0xABCD);
}

#[test]
fn memory_accessor_test_flags() {
    let _memory = MemoryStream::new(1024, 16 * 1024 * 1024, 256 * 1024 * 1024);
    let mut accessor = MemoryAccessor::new();

    accessor.update_flags(0, 16);
    assert!(accessor.zero_flag());

    accessor.update_flags(-1, 16);
    assert!(accessor.sign_flag());

    accessor.update_flags(0xFF, 16);
    assert!(accessor.parity_flag()); // 8 ones = even
}

#[test]
fn ffi_test_register_operations() {
    let mut memory = MemoryStream::new(1024, 16 * 1024 * 1024, 256 * 1024 * 1024);
    let mut accessor = MemoryAccessor::new();

    accessor.allocate(0, 1, true);

    accessor.write_by_size(&mut memory, 0, 0x12345678, 32);
    assert_eq!(accessor.fetch_by_size(&memory, 0, 32), 0x12345678);

    accessor.write_by_size(&mut memory, 0, 0xABCD, 16);
    assert_eq!(accessor.fetch_by_size(&memory, 0, 16), 0xABCD);
}

#[test]
fn ffi_test_flags() {
    let _memory = MemoryStream::new(1024, 16 * 1024 * 1024, 256 * 1024 * 1024);
    let mut accessor = MemoryAccessor::new();

    accessor.update_flags(0, 16);
    assert!(accessor.zero_flag());

    accessor.update_flags(-1, 16);
    assert!(accessor.sign_flag());

    accessor.update_flags(0xFF, 16);
    assert!(accessor.parity_flag());
}
