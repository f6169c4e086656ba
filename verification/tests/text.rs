use hosts_manager::text::{
    chars_of, find, is_text, is_whitespace, split_word, string_of, trim, trim_end, trim_start,
};

#[test]
fn is_whitespace_is_the_white_space_of_unicode() {
    let mut c = '\0';
    loop {
        assert_eq!(is_whitespace(c), c.is_whitespace(), "{:?}", c);
        if c == char::MAX {
            break;
        }
        c = char::from_u32(c as u32 + 1).unwrap_or('\u{e000}');
    }
}

#[test]
fn trimming_agrees_with_the_standard_library() {
    for s in ["", " ", "a", " a", "a ", "  a b  ", "\t\u{3000}x\u{a0}\n", "\u{2003}", "x\r\n", " # "] {
        let chars = chars_of(s);
        assert_eq!(string_of(trim(&chars)), s.trim(), "{:?}", s);
        assert_eq!(string_of(trim_start(&chars)), s.trim_start(), "{:?}", s);
        assert_eq!(string_of(trim_end(&chars)), s.trim_end(), "{:?}", s);
    }
}

#[test]
fn chars_and_strings_convert_both_ways() {
    assert_eq!(chars_of("h\u{e9}llo"), vec!['h', '\u{e9}', 'l', 'l', 'o']);
    assert_eq!(chars_of(""), Vec::<char>::new());
    assert_eq!(string_of(&['a', '\u{3000}', 'b']), "a\u{3000}b");
    assert_eq!(string_of(&[]), "");
}

#[test]
fn find_gives_the_first_place_or_the_length() {
    let chars = chars_of("a#b#c");
    assert_eq!(find(&chars, '#'), 1);
    assert_eq!(find(&chars, 'a'), 0);
    assert_eq!(find(&chars, 'c'), 4);
    assert_eq!(find(&chars, 'x'), 5);
    assert_eq!(find(&[], 'x'), 0);
}

#[test]
fn split_word_gives_the_first_field_and_the_rest() {
    let chars = chars_of("  ab\tcd  ef");
    let (word, rest) = split_word(&chars);
    assert_eq!(string_of(word), "ab");
    assert_eq!(string_of(rest), "\tcd  ef");
    let (word, rest) = split_word(rest);
    assert_eq!(string_of(word), "cd");
    assert_eq!(string_of(rest), "  ef");
    let blank = chars_of("   ");
    let (word, rest) = split_word(&blank);
    assert!(word.is_empty());
    assert!(rest.is_empty());
}

#[test]
fn split_word_agrees_with_the_fields_of_the_standard_library() {
    for s in ["a b", "  a   b  c", "\u{3000}x\u{2003}y", "one", "", " \t "] {
        let chars = chars_of(s);
        let (first, rest) = split_word(&chars);
        let (second, _) = split_word(rest);
        let mut expected = s.split_whitespace();
        assert_eq!(string_of(first), expected.next().unwrap_or(""), "{:?}", s);
        assert_eq!(string_of(second), expected.next().unwrap_or(""), "{:?}", s);
    }
}

#[test]
fn is_text_compares_characters() {
    assert!(is_text(&"Default".to_string(), "Default"));
    assert!(!is_text(&"default".to_string(), "Default"));
    assert!(!is_text(&"Default ".to_string(), "Default"));
    assert!(is_text(&String::new(), ""));
}
