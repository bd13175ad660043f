use greed_of_exile::text::{
    chars_of, decimal_string, has_prefix, lex_less, push_decimal, push_hex, push_signed_decimal,
    replace_char, str_eq,
};

#[test]
fn decimal_of_zero_and_large_numbers() {
    assert_eq!(decimal_string(0), "0");
    assert_eq!(decimal_string(7), "7");
    assert_eq!(decimal_string(10), "10");
    assert_eq!(decimal_string(1234567890), "1234567890");
    assert_eq!(decimal_string(u64::MAX), "18446744073709551615");
}

#[test]
fn decimal_appends_to_existing_text() {
    let mut s = String::from("tab ");
    push_decimal(&mut s, 42);
    assert_eq!(s, "tab 42");
}

#[test]
fn signed_decimal_writes_minus_sign() {
    let mut s = String::from("x");
    push_signed_decimal(&mut s, -42);
    assert_eq!(s, "x-42");
    let mut t = String::new();
    push_signed_decimal(&mut t, i64::MIN);
    assert_eq!(t, "-9223372036854775808");
    let mut u = String::new();
    push_signed_decimal(&mut u, 0);
    assert_eq!(u, "0");
}

#[test]
fn hex_is_lower_case_without_leading_zeros() {
    let mut s = String::new();
    push_hex(&mut s, 255);
    assert_eq!(s, "ff");
    let mut t = String::new();
    push_hex(&mut t, 0);
    assert_eq!(t, "0");
    let mut u = String::new();
    push_hex(&mut u, u64::MAX);
    assert_eq!(u, format!("{:x}", u64::MAX));
    let mut v = String::new();
    push_hex(&mut v, 0x1234_abcd);
    assert_eq!(v, "1234abcd");
}

#[test]
fn chars_of_unicode_text() {
    assert_eq!(chars_of("Été"), vec!['É', 't', 'é']);
    assert!(chars_of("").is_empty());
}

#[test]
fn prefixes() {
    assert!(has_prefix("//web.poecdn.com/x.png", "//"));
    assert!(has_prefix("abc", ""));
    assert!(has_prefix("abc", "abc"));
    assert!(!has_prefix("ab", "abc"));
    assert!(!has_prefix("/gen", "//"));
}

#[test]
fn string_equality() {
    assert!(str_eq("SkillGem", "SkillGem"));
    assert!(!str_eq("SkillGem", "skillgem"));
    assert!(!str_eq("", " "));
}

#[test]
fn replacing_backslashes() {
    assert_eq!(replace_char("C:\\Users\\me\\a.png", '\\', '/'), "C:/Users/me/a.png");
    assert_eq!(replace_char("plain", '\\', '/'), "plain");
}

#[test]
fn lexicographic_order_matches_string_order() {
    let words = ["", "a", "ab", "b", "Standard", "Hardcore", "Zé", "Za", "é"];
    for x in words.iter() {
        for y in words.iter() {
            assert_eq!(lex_less(&chars_of(x), &chars_of(y)), x < y, "{} < {}", x, y);
        }
    }
}

#[test]
fn a_u32_takes_at_most_ten_digits() {
    assert_eq!(decimal_string(u32::MAX as u64).len(), 10);
    assert_eq!(decimal_string(999_999_999).len(), 9);
}
