use ipc_source::h264_util::scan_sps_profile;

fn profile(data: &[u8]) -> Option<String> {
    scan_sps_profile(data)
}

#[test]
fn finds_profile_behind_three_byte_start_code() {
    let data = [0u8, 0, 1, 0x67, 0x42, 0x00, 0x1f, 0x8c];
    assert_eq!(profile(&data), Some("42001f".to_string()));
}

#[test]
fn finds_profile_behind_four_byte_start_code() {
    let data = [0u8, 0, 0, 1, 0x67, 0x64, 0xab, 0xff];
    assert_eq!(profile(&data), Some("64abff".to_string()));
}

#[test]
fn finds_profile_behind_other_units() {
    let data = [
        0u8, 0, 0, 1, 0x09, 0xf0, 0, 0, 1, 0x06, 0x05, 0x01, 0, 0, 0, 0, 1, 0x27, 0x4d, 0x40, 0x0a,
    ];
    assert_eq!(profile(&data), Some("4d400a".to_string()));
}

#[test]
fn first_sps_wins() {
    let data = [
        0u8, 0, 1, 0x67, 0x42, 0x00, 0x1f, 0, 0, 1, 0x67, 0x64, 0x00, 0x28,
    ];
    assert_eq!(profile(&data), Some("42001f".to_string()));
}

#[test]
fn removes_emulation_prevention_bytes() {
    // The profile bytes 00 00 01 are written as 00 00 03 01.
    let data = [0u8, 0, 1, 0x67, 0x00, 0x00, 0x03, 0x01, 0x55];
    assert_eq!(profile(&data), Some("000001".to_string()));
    // The escape straddles the end of the profile bytes.
    let data = [0u8, 0, 1, 0x67, 0x42, 0x00, 0x00, 0x03, 0x01];
    assert_eq!(profile(&data), Some("420000".to_string()));
    // Only the first zero byte of the escape still belongs to the profile.
    let data = [0u8, 0, 1, 0x67, 0x42, 0x42, 0x00, 0x00, 0x03];
    assert_eq!(profile(&data), Some("424200".to_string()));
}

#[test]
fn escaped_and_plain_profile_bytes_agree() {
    let escaped = [0u8, 0, 1, 0x67, 0x42, 0x00, 0x00, 0x03, 0x03, 0x10];
    assert_eq!(profile(&escaped), Some("420000".to_string()));
    let plain = [0u8, 0, 1, 0x67, 0x42, 0x00, 0x04, 0x10];
    assert_eq!(profile(&plain), Some("420004".to_string()));
}

#[test]
fn truncated_sps_is_passed_over() {
    assert_eq!(profile(&[0, 0, 1, 0x67, 0x42, 0x00]), None);
    assert_eq!(profile(&[0, 0, 1, 0x67]), None);
    // Three data bytes, but one of them only prevents emulation.
    assert_eq!(profile(&[0, 0, 1, 0x67, 0x00, 0x00, 0x03]), None);
}

#[test]
fn sps_ends_at_the_next_start_code() {
    // Two bytes of SPS, then a PPS.
    assert_eq!(profile(&[0, 0, 1, 0x67, 0x42, 0, 0, 1, 0x68, 0xce]), None);
    // The same, and three bytes of SPS, before a start code of four bytes.
    assert_eq!(profile(&[0, 0, 1, 0x67, 0x42, 0, 0, 0, 1, 0x68, 0xce]), None);
    assert_eq!(profile(&[0, 0, 1, 0x67, 0x42, 0x42, 0, 0, 0, 1, 0x68, 0xce]), None);
    // Zero bytes that pad a start code belong to no unit, however many they are.
    assert_eq!(profile(&[0, 0, 1, 0x67, 0x42, 0x10, 0, 0, 0, 1, 0x68]), None);
    assert_eq!(profile(&[0, 0, 1, 0x67, 0x42, 0x10, 0, 0, 0, 0, 1, 0x68]), None);
    assert_eq!(profile(&[0, 0, 1, 0x67, 0x42, 0x10, 0, 0, 0, 0, 0, 0, 1, 0x68]), None);
    let data = [0, 0, 1, 0x67, 0x42, 0x10, 0x1f, 0, 0, 0, 0, 1, 0x68];
    assert_eq!(profile(&data), Some("42101f".to_string()));
    // Nothing but the header byte.
    assert_eq!(profile(&[0, 0, 1, 0x67, 0, 0, 1, 0x68, 0xce, 1, 2]), None);
    // A whole one.
    let data = [0, 0, 1, 0x67, 0x42, 0x00, 0x1f, 0, 0, 1, 0x68, 0xce];
    assert_eq!(profile(&data), Some("42001f".to_string()));
    let data = [0, 0, 0, 1, 0x67, 0x42, 0x00, 0x1f, 0, 0, 0, 1, 0x68, 0xce];
    assert_eq!(profile(&data), Some("42001f".to_string()));
    // One that is too short, then a whole one.
    let data = [0, 0, 1, 0x67, 0x42, 0, 0, 1, 0x67, 0x64, 0x00, 0x28, 9];
    assert_eq!(profile(&data), Some("640028".to_string()));
}

#[test]
fn no_sps_no_profile() {
    assert_eq!(profile(&[]), None);
    assert_eq!(profile(&[0, 0, 1]), None);
    assert_eq!(profile(&[0, 0, 0, 1]), None);
    assert_eq!(profile(&[0, 0, 1, 0x65, 1, 2, 3, 4, 5]), None);
    assert_eq!(profile(&[0x67, 0x42, 0x00, 0x1f]), None);
    assert_eq!(profile(&[0, 1, 0x67, 0x42, 0x00, 0x1f]), None);
}

#[test]
fn profile_is_six_lower_case_hex_digits() {
    let found = profile(&[0, 0, 1, 0x07, 0xAB, 0x0C, 0xDE]).unwrap();
    assert_eq!(found, "ab0cde");
    assert!(found.chars().all(|c| c.is_ascii_digit() || ('a'..='f').contains(&c)));
}
