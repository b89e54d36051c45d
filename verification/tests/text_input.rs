use meroshare::text::{
    char_digit, contains, parse_usize, push_decimal, push_signed_decimal, read_number,
    read_single_character, trim,
};

#[test]
fn trim_removes_surrounding_whitespace() {
    assert_eq!(trim("  12 \n"), "12");
    assert_eq!(trim("\t\r\n"), "");
    assert_eq!(trim(""), "");
    assert_eq!(trim("a b"), "a b");
    assert_eq!(trim("\u{3000}x\u{85}\u{a0}"), "x");
}

#[test]
fn trim_agrees_with_std() {
    for s in ["  x ", "\u{2028}y\u{2029}", "\u{200b}z", " \u{1680}a b\u{205f}", "\u{feff}q"] {
        assert_eq!(trim(s), s.trim());
    }
}

#[test]
fn parse_usize_accepts_digits_and_plus() {
    assert_eq!(parse_usize("42"), Some(42));
    assert_eq!(parse_usize("+7"), Some(7));
    assert_eq!(parse_usize("007"), Some(7));
    assert_eq!(parse_usize("0"), Some(0));
}

#[test]
fn parse_usize_refuses_what_std_refuses() {
    for s in ["", "+", "-", "-1", "-0", "1a", " 1", "1 ", "++1", "٣"] {
        assert_eq!(parse_usize(s), None, "{:?}", s);
        assert!(s.parse::<usize>().is_err());
    }
}

#[test]
fn parse_usize_overflow() {
    let max = usize::MAX.to_string();
    assert_eq!(parse_usize(&max), Some(usize::MAX));
    let over = format!("{}0", max);
    assert_eq!(parse_usize(&over), None);
    let long = "9".repeat(60);
    assert_eq!(parse_usize(&long), None);
}

#[test]
fn read_number_trims_first() {
    assert_eq!(read_number(" 3 \n"), Some(3));
    assert_eq!(read_number("\n"), None);
    assert_eq!(read_number("three\n"), None);
}

#[test]
fn read_single_character_takes_first_after_trim() {
    assert_eq!(read_single_character("  yes\n"), Some('y'));
    assert_eq!(read_single_character("m\n"), Some('m'));
    assert_eq!(read_single_character("   \n"), None);
    assert_eq!(read_single_character(""), None);
}

#[test]
fn char_digit_values() {
    assert_eq!(char_digit('0'), Some(0));
    assert_eq!(char_digit('7'), Some(7));
    assert_eq!(char_digit('9'), Some(9));
    assert_eq!(char_digit('x'), None);
    assert_eq!(char_digit('/'), None);
    assert_eq!(char_digit(':'), None);
}

#[test]
fn contains_finds_runs() {
    assert!(contains("Not Alloted", "Not"));
    assert!(contains("Rejected", "Rejected"));
    assert!(!contains("Alloted", "Not"));
    assert!(contains("abc", ""));
    assert!(!contains("No", "Not"));
    assert!(contains("xxNoNot", "Not"));
}

#[test]
fn push_decimal_writes_digits() {
    let mut s = String::from("id=");
    push_decimal(&mut s, 0);
    assert_eq!(s, "id=0");
    let mut s = String::new();
    push_decimal(&mut s, 12345);
    assert_eq!(s, "12345");
    let mut s = String::new();
    push_decimal(&mut s, u64::MAX);
    assert_eq!(s, u64::MAX.to_string());
}

#[test]
fn push_signed_decimal_writes_sign() {
    let mut s = String::new();
    push_signed_decimal(&mut s, -42);
    assert_eq!(s, "-42");
    let mut s = String::new();
    push_signed_decimal(&mut s, i64::MIN);
    assert_eq!(s, i64::MIN.to_string());
    let mut s = String::new();
    push_signed_decimal(&mut s, 907);
    assert_eq!(s, "907");
}

#[test]
fn decimal_text_reads_back() {
    for n in [0u64, 1, 9, 10, 99, 100, 65535, 4294967295] {
        let mut s = String::new();
        push_decimal(&mut s, n);
        assert_eq!(parse_usize(&s), Some(n as usize));
    }
}
