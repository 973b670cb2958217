use hook_core::table::Table;
use hook_core::text::{
    cut, decimal_text, position, same, starts_with, strip_char, strip_end, strip_prefix,
    strip_start, to_ascii_lower, trimmed, white, Class,
};

#[test]
fn white_space_is_that_of_unicode() {
    for n in 0..=0x10ffff_u32 {
        if let Some(c) = char::from_u32(n) {
            assert_eq!(white(c), c.is_whitespace());
            assert_eq!(to_ascii_lower(c), c.to_ascii_lowercase());
        }
    }
}

#[test]
fn trimming_agrees_with_std() {
    for s in ["", " ", "a", " a ", "\u{2003}a b\n", "\u{200b}a", "  é  ", "a\u{85}"] {
        assert_eq!(trimmed(s), s.trim());
        assert_eq!(strip_start(s, Class::White), s.trim_start());
        assert_eq!(strip_end(s, Class::White), s.trim_end());
    }
    assert_eq!(strip_char("\"\"a\"b\"", '"'), "a\"b");
    assert_eq!(strip_end("a//", Class::Only('/')), "a");
    assert_eq!(strip_end("//", Class::Only('/')), "");
}

#[test]
fn cutting_at_the_first_other() {
    assert_eq!(cut("new  x", Class::NotWhite), ("new", " x"));
    assert_eq!(cut("new", Class::NotWhite), ("new", ""));
    assert_eq!(cut("a`b`c", Class::Except('`')), ("a", "b`c"));
    assert_eq!(cut("", Class::White), ("", ""));
}

#[test]
fn searching_agrees_with_std() {
    for (s, pat) in
        [("abcabc", "ca"), ("abc", ""), ("", ""), ("", "a"), ("aab", "ab"), ("abc", "abcd"), ("éaé", "é")]
    {
        let expected = s.find(pat).map(|at| s[..at].chars().count());
        assert_eq!(position(s, pat), expected);
        assert_eq!(starts_with(s, pat), s.starts_with(pat));
        assert_eq!(strip_prefix(s, pat), s.strip_prefix(pat));
    }
    assert!(same("é", "é"));
    assert!(!same("e", "é"));
}

#[test]
fn decimals() {
    for n in [0, 7, 10, 99, 100, 12345, u64::MAX as u128, u128::MAX] {
        assert_eq!(decimal_text(n), n.to_string());
    }
}

#[test]
fn tables_hold_one_value_for_a_key() {
    let mut t: Table<u32> = Table::new();
    assert_eq!(t.get("a"), None);
    t.insert("a", 1);
    t.insert("b", 2);
    t.insert("a", 3);
    assert_eq!(t.len(), 2);
    assert_eq!(t.get("a"), Some(&3));
    assert_eq!(t.get("b"), Some(&2));
    assert_eq!(t.remove("a"), Some(3));
    assert_eq!(t.remove("a"), None);
    assert_eq!(t.find("b"), Some(0));
    assert_eq!(t.at(0), ("b", &2));
    assert_eq!(t.remove_at(0), 2);
    assert_eq!(t.len(), 0);
}
