use fact_store::reference::{
    hex_prefix_range, split_uuid_reference_parts, uuid_hex_prefix_range, uuid_tail_prefix_matches,
};

#[test]
fn hex_prefix_range_pads_low_and_high() {
    let (low, high) = hex_prefix_range::<4>("ab").unwrap();
    assert_eq!(low, [0xab, 0, 0, 0]);
    assert_eq!(high, [0xab, 0xff, 0xff, 0xff]);
    let (low, high) = hex_prefix_range::<4>("abC").unwrap();
    assert_eq!(low, [0xab, 0xc0, 0, 0]);
    assert_eq!(high, [0xab, 0xcf, 0xff, 0xff]);
    let (low, high) = hex_prefix_range::<2>("0123").unwrap();
    assert_eq!(low, [0x01, 0x23]);
    assert_eq!(high, [0x01, 0x23]);
    assert!(hex_prefix_range::<2>("").is_none());
    assert!(hex_prefix_range::<2>("01234").is_none());
}

#[test]
fn uuid_prefix_range_accepts_dashes_at_canonical_positions() {
    let (low, high) = uuid_hex_prefix_range("01900000-0000").unwrap();
    let mut expected_low = [0u8; 16];
    expected_low[0] = 0x01;
    expected_low[1] = 0x90;
    let mut expected_high = [0xffu8; 16];
    expected_high[0] = 0x01;
    expected_high[1] = 0x90;
    expected_high[2] = 0x00;
    expected_high[3] = 0x00;
    expected_high[4] = 0x00;
    expected_high[5] = 0x00;
    assert_eq!(low, expected_low);
    assert_eq!(high, expected_high);

    let full = "01900000-0000-7000-8000-000000000001";
    let (low, high) = uuid_hex_prefix_range(full).unwrap();
    assert_eq!(low, high);
    assert_eq!(u128::from_be_bytes(low), 0x0190_0000_0000_7000_8000_0000_0000_0001);
    // no id text starts with a full UUID followed by more text
    assert_eq!(uuid_hex_prefix_range("01900000-0000-7000-8000-000000000001z"), None);
    assert_eq!(uuid_hex_prefix_range("01900000-0000-7000-8000-0000000000011"), None);

    assert!(uuid_hex_prefix_range("").is_none());
    assert!(uuid_hex_prefix_range("-").is_none());
    assert!(uuid_hex_prefix_range("0190000-").is_none());
    assert!(uuid_hex_prefix_range("01900000x").is_none());
    assert!(uuid_hex_prefix_range("0190000g").is_none());
}

#[test]
fn split_reference_needs_two_five_digit_parts() {
    assert_eq!(
        split_uuid_reference_parts("019fb-3c8c9"),
        Some(("019fb".to_string(), "3c8c9".to_string()))
    );
    assert_eq!(split_uuid_reference_parts("019fb594-bf3"), None);
    assert_eq!(split_uuid_reference_parts("019fb3c8c9"), None);
    assert_eq!(split_uuid_reference_parts("019fb-3c8c9-"), None);
    assert_eq!(split_uuid_reference_parts("019fx-3c8c9"), None);
    assert_eq!(split_uuid_reference_parts("019fb-3c8c"), None);
}

#[test]
fn tail_prefix_matches_the_last_twelve_digits() {
    let id = 0x019f_b594_bf37_72c3_8c1e_3c8c_9254_fc4a_u128;
    let other = 0x019f_b594_bf37_76f1_9184_758b_0fad_5164_u128;
    assert!(uuid_tail_prefix_matches(id, "3c8c9"));
    assert!(uuid_tail_prefix_matches(id, "3c8c9254fc4a"));
    assert!(uuid_tail_prefix_matches(id, ""));
    assert!(!uuid_tail_prefix_matches(id, "3c8c9254fc4a0"));
    assert!(!uuid_tail_prefix_matches(other, "3c8c9"));
    assert!(uuid_tail_prefix_matches(other, "758b0"));
    assert!(!uuid_tail_prefix_matches(id, "8c1e3"));
}

#[test]
fn prefix_range_holds_exactly_the_prefixed_values() {
    for prefix in ["a", "AB", "ab3", "0", "ffff", "7f0"] {
        let (low, high) = hex_prefix_range::<2>(prefix).unwrap();
        for value in 0u32..=0xffff {
            let bytes = [(value >> 8) as u8, value as u8];
            let hex = format!("{:02x}{:02x}", bytes[0], bytes[1]);
            let prefixed = hex.starts_with(&prefix.to_ascii_lowercase());
            let within = low.as_slice() <= bytes.as_slice() && bytes.as_slice() <= high.as_slice();
            assert_eq!(prefixed, within, "prefix {prefix} value {hex}");
        }
    }
}
