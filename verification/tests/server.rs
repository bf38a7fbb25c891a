use reasonable::server::{auth, demo, hello};
use reasonable::text::{last_word_of, str_starts_with, u8_to_dec};

#[test]
fn hello_formats_greeting() {
    assert_eq!(hello(String::from("Mary"), 21), "Hello, 21 year old named Mary!");
    assert_eq!(hello(String::from(""), 0), "Hello, 0 year old named !");
    assert_eq!(hello(String::from("Bo"), 100), "Hello, 100 year old named Bo!");
    assert_eq!(hello(String::from("Ada"), 255), "Hello, 255 year old named Ada!");
}

#[test]
fn demo_serves_landing_page() {
    assert_eq!(demo(), "Hi");
    auth();
}

#[test]
fn u8_to_dec_renders_decimal() {
    assert_eq!(u8_to_dec(0), "0");
    assert_eq!(u8_to_dec(7), "7");
    assert_eq!(u8_to_dec(10), "10");
    assert_eq!(u8_to_dec(42), "42");
    assert_eq!(u8_to_dec(99), "99");
    assert_eq!(u8_to_dec(100), "100");
    assert_eq!(u8_to_dec(255), "255");
}

#[test]
fn last_word_finds_trailing_word() {
    assert_eq!(last_word_of(&String::from("  foo  bar  ")), Some(String::from("bar")));
    assert_eq!(last_word_of(&String::from("single")), Some(String::from("single")));
    assert_eq!(last_word_of(&String::from(" \t\n")), None);
    assert_eq!(last_word_of(&String::from("")), None);
    assert_eq!(last_word_of(&String::from("a\u{2028}b")), Some(String::from("b")));
}

#[test]
fn starts_with_checks_prefix() {
    assert!(str_starts_with("Reasonable key (pls keep)", "Reasonable key"));
    assert!(str_starts_with("abc", ""));
    assert!(str_starts_with("abc", "abc"));
    assert!(!str_starts_with("ab", "abc"));
    assert!(!str_starts_with("abc", "abd"));
    assert!(str_starts_with("héllo", "hé"));
}
