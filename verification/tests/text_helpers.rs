use aura_factory::text::{
    append_decimal, append_signed_decimal, append_two_digit, chars_of, split_text, string_of,
    text_eq, trim_text,
};

#[test]
fn decimal_rendering() {
    let mut s = String::new();
    append_decimal(&mut s, 0);
    append_decimal(&mut s, 1234567890);
    assert_eq!(s, "01234567890");
    let mut t = String::from("x=");
    append_decimal(&mut t, u64::MAX);
    assert_eq!(t, format!("x={}", u64::MAX));
}

#[test]
fn signed_rendering() {
    let mut s = String::new();
    append_signed_decimal(&mut s, i64::MIN);
    assert_eq!(s, i64::MIN.to_string());
    let mut t = String::new();
    append_signed_decimal(&mut t, -7);
    append_signed_decimal(&mut t, 42);
    assert_eq!(t, "-742");
}

#[test]
fn two_digit_rendering() {
    let mut s = String::new();
    append_two_digit(&mut s, 5);
    append_two_digit(&mut s, 10);
    append_two_digit(&mut s, 123);
    assert_eq!(s, "0510123");
}

#[test]
fn trim_like_std() {
    for t in ["  a b  ", "\t\nx\u{3000}", "", "   ", "\u{A0}y\u{2009}", "z"] {
        assert_eq!(trim_text(t), t.trim());
    }
}

#[test]
fn split_like_std() {
    for t in ["a:b:c", "", ":", "a::", "::b", "no sep", "日:本"] {
        let mine = split_text(t, ':');
        let std: Vec<String> = t.split(':').map(|p| p.to_string()).collect();
        assert_eq!(mine, std);
    }
}

#[test]
fn chars_and_equality() {
    assert_eq!(chars_of("héllo"), vec!['h', 'é', 'l', 'l', 'o']);
    assert_eq!(string_of(&vec!['a', '网']), "a网");
    assert!(text_eq("abc", "abc"));
    assert!(!text_eq("abc", "abd"));
    assert!(!text_eq("abc", "ab"));
    assert!(text_eq("", ""));
}
