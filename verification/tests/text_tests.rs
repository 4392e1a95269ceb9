use media_inspector::text::{
    bracketed_string, concat3, digit_str, fixed_point_string, i64_to_string, join,
    prefixed_hex_string, strip_trailing_nuls, u64_to_hex, u64_to_string,
};

#[test]
fn decimal_text_of_unsigned() {
    assert_eq!(u64_to_string(0), "0");
    assert_eq!(u64_to_string(7), "7");
    assert_eq!(u64_to_string(10), "10");
    assert_eq!(u64_to_string(512), "512");
    assert_eq!(u64_to_string(1_000_000), "1000000");
    assert_eq!(u64_to_string(u64::MAX), "18446744073709551615");
}

#[test]
fn decimal_text_matches_std_for_many_values() {
    let mut n: u64 = 1;
    for _ in 0..64 {
        assert_eq!(u64_to_string(n), n.to_string());
        assert_eq!(u64_to_string(n - 1), (n - 1).to_string());
        n = n.wrapping_mul(2).max(1);
    }
}

#[test]
fn decimal_text_of_signed() {
    assert_eq!(i64_to_string(0), "0");
    assert_eq!(i64_to_string(-1), "-1");
    assert_eq!(i64_to_string(42), "42");
    assert_eq!(i64_to_string(-65536), "-65536");
    assert_eq!(i64_to_string(i64::MAX), "9223372036854775807");
    assert_eq!(i64_to_string(i64::MIN), "-9223372036854775808");
}

#[test]
fn hexadecimal_text_pads_with_zeros() {
    assert_eq!(u64_to_hex(0, 1), "0");
    assert_eq!(u64_to_hex(0, 0), "0");
    assert_eq!(u64_to_hex(0, 6), "000000");
    assert_eq!(u64_to_hex(1, 6), "000001");
    assert_eq!(u64_to_hex(0xabcdef, 6), "abcdef");
    assert_eq!(u64_to_hex(0x1234567, 6), "1234567");
    assert_eq!(u64_to_hex(255, 2), "ff");
    assert_eq!(u64_to_hex(10, 2), "0a");
    assert_eq!(u64_to_hex(u64::MAX, 1), "ffffffffffffffff");
    assert_eq!(prefixed_hex_string("0x", 1, 6), format!("0x{:06x}", 1));
    assert_eq!(prefixed_hex_string("0x", 0xdead_beef, 8), format!("0x{:08x}", 0xdead_beefu32));
    assert_eq!(prefixed_hex_string("0x", 0x1f, 4), format!("0x{:04x}", 0x1f));
    assert_eq!(prefixed_hex_string("0x", 4096, 1), format!("0x{:x}", 4096));
}

#[test]
fn fixed_point_text_is_exact() {
    assert_eq!(fixed_point_string(0), "0");
    assert_eq!(fixed_point_string(0x0001_0000), "1");
    assert_eq!(fixed_point_string(0x0001_8000), "1.5");
    assert_eq!(fixed_point_string(0x0000_4000), "0.25");
    assert_eq!(fixed_point_string(-0x0000_8000), "-0.5");
    assert_eq!(fixed_point_string(-0x0002_0000), "-2");
    assert_eq!(fixed_point_string(1), "0.0000152587890625");
    assert_eq!(fixed_point_string(0x0780_0000), "1920");
    assert_eq!(fixed_point_string(0x4000_0000), "16384");
    assert_eq!(fixed_point_string(i32::MAX), "32767.9999847412109375");
    assert_eq!(fixed_point_string(i32::MIN), "-32768");
    assert_eq!(fixed_point_string(0x0000_199a), "0.100006103515625");
}

#[test]
fn join_puts_separator_between_items() {
    let none: Vec<String> = Vec::new();
    assert_eq!(join(&none, ", "), "");
    assert_eq!(join(&vec!["isom".to_string()], ", "), "isom");
    assert_eq!(join(&vec!["isom".to_string(), "mp42".to_string(), "avc1".to_string()], ", "), "isom, mp42, avc1");
    assert_eq!(join(&vec!["".to_string(), "".to_string()], "-"), "-");
}

#[test]
fn bracketed_list() {
    let none: Vec<String> = Vec::new();
    assert_eq!(bracketed_string(&none), "[]");
    assert_eq!(bracketed_string(&vec!["1".to_string(), "2".to_string(), "3".to_string()]), "[1, 2, 3]");
}

#[test]
fn digits_and_concatenation() {
    assert_eq!(digit_str(0), "0");
    assert_eq!(digit_str(9), "9");
    assert_eq!(digit_str(10), "a");
    assert_eq!(digit_str(15), "f");
    assert_eq!(concat3("entry[", "3", "].type"), "entry[3].type");
    assert_eq!(concat3("", "", ""), "");
}

#[test]
fn trailing_nuls_are_dropped() {
    let mut v = vec![1, 0, 2, 0, 0];
    strip_trailing_nuls(&mut v);
    assert_eq!(v, vec![1, 0, 2]);
    let mut v = vec![0, 0];
    strip_trailing_nuls(&mut v);
    assert_eq!(v, Vec::<u8>::new());
    let mut v = vec![5];
    strip_trailing_nuls(&mut v);
    assert_eq!(v, vec![5]);
}
