use x86_mmu::MemoryStream;

#[test]
fn new_store_caps_committed_size() {
    let s = MemoryStream::new(0x10_0000, 0x2000, 0x1000);
    assert_eq!(s.logical_max_memory_size(), 0x3000);
    assert_eq!(s.physical_max_memory_size(), 0x2000);
    assert_eq!(s.swap_size(), 0x1000);
    assert_eq!(s.size(), 0x3000);
    assert_eq!(s.offset(), 0);
}

#[test]
fn ensure_capacity_grows_in_chunks_and_stops_at_logical_max() {
    let mut s = MemoryStream::new(1024, 16 * 1024 * 1024, 0);
    assert!(s.ensure_capacity(100));
    assert_eq!(s.size(), 1024);
    assert!(s.ensure_capacity(2048));
    assert_eq!(s.size(), 0x10_0000);
    assert!(s.ensure_capacity(0x10_0000));
    assert_eq!(s.size(), 0x20_0000);
    assert!(!s.ensure_capacity(16 * 1024 * 1024));
    assert_eq!(s.size(), 0x20_0000);

    let mut small = MemoryStream::new(0, 0x1800, 0);
    assert!(small.ensure_capacity(0x10));
    assert_eq!(small.size(), 0x1800);
}

#[test]
fn write_at_4096_with_logical_max_8192() {
    let mut s = MemoryStream::new(1024, 8192, 0);
    s.write_byte_at(4096, 0x5A);
    assert!(s.size() >= 4097);
    assert!(s.size() <= 8192);
    assert_eq!(s.read_byte_at(4096), 0x5A);
}

#[test]
fn unwritten_and_out_of_range_bytes_read_zero() {
    let mut s = MemoryStream::new(1024, 8192, 0);
    assert_eq!(s.read_byte_at(5000), 0);
    s.write_byte_at(5001, 1);
    assert_eq!(s.read_byte_at(5000), 0);
    assert_eq!(s.read_byte_at(5002), 0);
    s.write_byte_at(8192, 9);
    assert_eq!(s.read_byte_at(8192), 0);
    assert_eq!(s.read_qword_at(8190), 0);
}

#[test]
fn multi_byte_values_are_little_endian() {
    let mut s = MemoryStream::new(0, 0x1000, 0);
    s.write_qword_at(0x10, 0x0102_0304_0506_0708);
    assert_eq!(s.read_byte_at(0x10), 0x08);
    assert_eq!(s.read_byte_at(0x17), 0x01);
    assert_eq!(s.read_dword_at(0x14), 0x0102_0304);
    assert_eq!(s.read_short_at(0x12), 0x0506);
    s.write_short_at(0x20, 0xBEEF);
    s.write_dword_at(0x22, 0xCAFE_F00D);
    assert_eq!(s.read_qword_at(0x20), 0x0000_CAFE_F00D_BEEF);
}

#[test]
fn overlapping_forward_copy_matches_bytewise_memmove() {
    let mut s = MemoryStream::new(0, 0x1000, 0);
    let data: Vec<u8> = (1..=10).collect();
    s.copy_from_external(&data, 100);
    s.copy_internal(100, 104, 10);
    let mut expected = vec![0u8; 120];
    expected[100..110].copy_from_slice(&data);
    for i in (0..10).rev() {
        expected[104 + i] = expected[100 + i];
    }
    for a in 95..120 {
        assert_eq!(s.read_byte_at(a), expected[a], "address {}", a);
    }
}

#[test]
fn overlapping_backward_copy_matches_memmove() {
    let mut s = MemoryStream::new(0, 0x1000, 0);
    let data: Vec<u8> = (1..=10).collect();
    s.copy_from_external(&data, 100);
    s.copy_internal(100, 97, 10);
    let got: Vec<u8> = (97..110).map(|a| s.read_byte_at(a)).collect();
    assert_eq!(got, vec![1, 2, 3, 4, 5, 6, 7, 8, 9, 10, 8, 9, 10]);
}

#[test]
fn copy_larger_than_one_chunk_is_cut_at_logical_max() {
    let mut s = MemoryStream::new(0, 0x30000, 0);
    for a in 0..0x18000usize {
        s.write_byte_at(a, (a % 251) as u8);
    }
    s.copy_internal(0, 0x10, 0x40000);
    for a in [0x10usize, 0x11, 0x1000, 0x17FFF, 0x18009, 0x2FFFF] {
        let src = a - 0x10;
        let want = if src < 0x18000 { (src % 251) as u8 } else { 0 };
        assert_eq!(s.read_byte_at(a), want, "address {:#x}", a);
    }
    assert_eq!(s.size(), 0x30000);
}

#[test]
fn copy_that_goes_nowhere_changes_nothing() {
    let mut s = MemoryStream::new(0, 0x3000, 0);
    s.copy_internal(0x100, 0x100, 0x200);
    assert_eq!(s.size(), 0);
    s.copy_internal(0x100, 0x3000, 0x10);
    assert_eq!(s.size(), 0);
}

#[test]
fn cursor_round_trip_of_bytes() {
    let mut s = MemoryStream::new(1024, 0x30_0000, 0);
    let data: Vec<u8> = (0..300u32).map(|i| (i * 7 % 256) as u8).collect();
    assert!(s.set_offset(0x10_0000 - 100));
    s.write(&data);
    assert_eq!(s.offset(), 0x10_0000 - 100 + 300);
    assert!(s.set_offset(0x10_0000 - 100));
    assert_eq!(s.read(300), data);
    let mut buffer = [0u8; 300];
    assert!(s.set_offset(0x10_0000 - 100));
    assert_eq!(s.read_into(&mut buffer), 300);
    assert_eq!(buffer.to_vec(), data);
}

#[test]
fn write_reaching_logical_max_commits_everything() {
    let mut s = MemoryStream::new(0, 0x18_0000, 0);
    let data = vec![0xEEu8; 0x100];
    s.copy_from_external(&data, 0x18_0000 - 0x100);
    assert_eq!(s.size(), 0x18_0000);
    assert_eq!(s.read_byte_at(0x18_0000 - 0x100), 0xEE);
    assert_eq!(s.read_byte_at(0x18_0000 - 1), 0xEE);
    assert!(s.set_offset(0x18_0000 - 0x100));
    assert_eq!(s.read(0x100), data);
}

#[test]
fn write_past_logical_max_is_cut() {
    let mut s = MemoryStream::new(0, 0x1000, 0);
    assert!(s.set_offset(0xFFE));
    s.write(&[1, 2, 3, 4]);
    assert_eq!(s.offset(), 0x1000);
    assert!(s.is_eof());
    assert_eq!(s.read_byte_at(0xFFF), 2);
    s.write(&[9]);
    assert_eq!(s.offset(), 0x1000);
    assert_eq!(s.byte(), 0);
    assert_eq!(s.offset(), 0x1000);
}

#[test]
fn read_past_logical_max_gives_zeros_and_advances() {
    let mut s = MemoryStream::new(0, 0x1000, 0);
    s.write_byte_at(0xFFF, 0x77);
    assert!(s.set_offset(0xFFF));
    assert_eq!(s.read(3), vec![0x77, 0, 0]);
    assert_eq!(s.offset(), 0x1002);
    assert!(!s.set_offset(0x1000));
}

#[test]
fn cursor_scalars() {
    let mut s = MemoryStream::new(0, 0x1000, 0);
    s.write_qword(0x8899_AABB_CCDD_EEFF);
    s.write_byte(0x80);
    assert_eq!(s.offset(), 9);
    assert!(s.set_offset(0));
    assert_eq!(s.qword(), 0x8899_AABB_CCDD_EEFF);
    assert_eq!(s.signed_byte(), -128);
    assert!(s.set_offset(0));
    assert_eq!(s.char(), 0xFF);
    assert!(!s.is_eof());
}

#[test]
fn copy_from_external_is_cut_at_logical_max() {
    let mut s = MemoryStream::new(0, 0x1000, 0);
    s.copy_from_external(&[1, 2, 3], 0xFFE);
    assert_eq!(s.read_byte_at(0xFFE), 1);
    assert_eq!(s.read_byte_at(0xFFF), 2);
    assert_eq!(s.offset(), 0);
    s.copy_from_external(&[5], 0x1000);
    assert_eq!(s.read_byte_at(0x1000), 0);
}
