use zest::chars::{blank, chars_of, digit, is_word, letter, space};

fn every_char() -> impl Iterator<Item = char> {
    (0u32..=0x10FFFF).filter_map(char::from_u32)
}

#[test]
fn space_is_unicode_whitespace() {
    for c in every_char() {
        assert_eq!(space(c), c.is_whitespace(), "{:?}", c);
    }
    assert_eq!(every_char().filter(|c| space(*c)).count(), 25);
}

#[test]
fn blank_is_ascii_whitespace() {
    for c in every_char() {
        assert_eq!(blank(c), c.is_ascii_whitespace(), "{:?}", c);
    }
}

#[test]
fn digit_is_an_ascii_digit() {
    for c in every_char() {
        assert_eq!(digit(c), c.is_ascii_digit(), "{:?}", c);
    }
}

#[test]
fn letter_is_an_ascii_letter() {
    for c in every_char() {
        assert_eq!(letter(c), c.is_ascii_alphabetic(), "{:?}", c);
    }
}

#[test]
fn chars_of_keeps_every_character_in_order() {
    assert_eq!(chars_of(""), Vec::<char>::new());
    assert_eq!(chars_of("a\u{e9}\u{4e16}!"), vec!['a', '\u{e9}', '\u{4e16}', '!']);
}

#[test]
fn is_word_compares_whole_texts() {
    assert!(is_word(&"scene".to_string(), "scene"));
    assert!(!is_word(&"scenes".to_string(), "scene"));
    assert!(!is_word(&"Scene".to_string(), "scene"));
    assert!(!is_word(&String::new(), "scene"));
    assert!(is_word(&String::new(), ""));
}
