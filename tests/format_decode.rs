use fmp_decompiler::format_decode::{fm_string_decrypt, get_int, get_path_int, text_or_placeholder};

#[test]
fn int_testing() {
    assert_eq!(get_path_int(&[128, 138]), 266);
    assert_eq!(get_path_int(&[128, 138]), 266);
    assert_eq!(get_path_int(&[]), 0);
}

#[test]
fn string_testing() {
    assert_eq!(fm_string_decrypt(&[0x7e, 0x22]), "$x");
    assert_eq!(fm_string_decrypt(&[0x7e, 0x23]), "$y");
    assert_eq!(fm_string_decrypt(&[0x32, 0x3f, 0x36, 0x36, 0x35]), "hello");
    assert_eq!(fm_string_decrypt(&[]), "");
}

#[test]
fn get_int_is_big_endian() {
    assert_eq!(get_int(&[0x12]), 0x12);
    assert_eq!(get_int(&[0x12, 0x34]), 0x1234);
    assert_eq!(get_int(&[0x12, 0x34, 0x56, 0x78]), 0x1234_5678);
    assert_eq!(get_int(&[0xFF, 0xFF, 0xFF, 0xFF]), 0xFFFF_FFFF);
    assert_eq!(get_int(&[1, 2, 3]), 0);
    assert_eq!(get_int(&[]), 0);
}

#[test]
fn get_int_four_bytes_joins_halves() {
    let b = [0xAB, 0xCD, 0x01, 0x02];
    assert_eq!(get_int(&b), (get_int(&b[0..2]) << 16) + get_int(&b[2..4]));
}

#[test]
fn path_int_one_and_two_bytes() {
    assert_eq!(get_path_int(&[7]), 7);
    assert_eq!(get_path_int(&[0x80, 0x00]), 0x80);
    assert!(get_path_int(&[0x00, 0x00]) >= 0x80);
    assert_eq!(get_path_int(&[1, 2, 3]), 0);
}

#[test]
fn decrypt_round_trip_and_bad_utf8() {
    let text = "Orders";
    let masked: Vec<u8> = text.bytes().map(|b| b ^ 0x5A).collect();
    let plain = fm_string_decrypt(&masked);
    assert_eq!(plain, text);
    let back: Vec<u8> = plain.bytes().map(|b| b ^ 0x5A).collect();
    assert_eq!(back, masked);
    // 0xFF ^ 0x5A = 0xA5: a lone continuation byte
    assert_eq!(fm_string_decrypt(&[0xFF]), "value not utf-8.");
}

#[test]
fn placeholder_only_for_failed_decoding() {
    assert_eq!(text_or_placeholder(Some("abc".to_string())), "abc");
    assert_eq!(text_or_placeholder(None), "value not utf-8.");
}
