use sensor_node::random::u32_pair_to_u64;

#[test]
fn pair_joins_low_then_high() {
    assert_eq!(u32_pair_to_u64(1, 2), 0x0000_0002_0000_0001);
    assert_eq!(u32_pair_to_u64(u32::MAX, 0), 0x0000_0000_ffff_ffff);
    assert_eq!(u32_pair_to_u64(0, u32::MAX), 0xffff_ffff_0000_0000);
    let mut bytes = [0u8; 8];
    bytes[..4].copy_from_slice(&0x1234_5678u32.to_le_bytes());
    bytes[4..].copy_from_slice(&0x9abc_def0u32.to_le_bytes());
    assert_eq!(u32_pair_to_u64(0x1234_5678, 0x9abc_def0), u64::from_le_bytes(bytes));
}
