use ferrocopy::guid::guid_text;

fn from_u128(v: u128) -> (u32, u16, u16, [u8; 8]) {
    ((v >> 96) as u32, (v >> 80) as u16, (v >> 64) as u16, (v as u64).to_be_bytes())
}

#[test]
fn test_clsid_format() {
    let (d1, d2, d3, d4) = from_u128(0xF3C8B5A1_2D4E_4A6F_8B7C_9D0E1F2A3B4C);
    let s = guid_text(d1, d2, d3, d4);
    assert!(s.contains("F3C8B5A1"));
}

#[test]
fn guid_text_groups_and_pads_the_digits() {
    let (d1, d2, d3, d4) = from_u128(0xF3C8B5A1_2D4E_4A6F_8B7C_9D0E1F2A3B4C);
    assert_eq!(guid_text(d1, d2, d3, d4), "{F3C8B5A1-2D4E-4A6F-8B7C-9D0E1F2A3B4C}");
    assert_eq!(guid_text(1, 2, 3, [0, 1, 2, 3, 4, 5, 6, 0xab]), "{00000001-0002-0003-0001-0203040506AB}");
}
