use srvcs_xnor::text::{
    chars_of, find_in, parse_u16_range, push_decimal, second_word_range, string_of, white_space,
};

#[test]
fn writes_decimal() {
    let mut s = String::from("n=");
    push_decimal(&mut s, 0);
    push_decimal(&mut s, 7);
    s.push(' ');
    push_decimal(&mut s, 1234567890);
    assert_eq!(s, "n=07 1234567890");
}

#[test]
fn chars_and_strings_round_trip() {
    let chars = chars_of("a\u{e9}b");
    assert_eq!(chars, vec!['a', '\u{e9}', 'b']);
    assert_eq!(string_of(&chars, 1, 3), "\u{e9}b");
}

#[test]
fn finds_first_occurrence() {
    let s = chars_of("ab\r\n\r\ncd\r\n\r\n");
    assert_eq!(find_in(&s, &vec!['\r', '\n', '\r', '\n']), Some(2));
    assert_eq!(find_in(&s, &vec!['z']), None);
    assert_eq!(find_in(&chars_of("a"), &vec!['a', 'b']), None);
}

#[test]
fn whitespace_matches_std() {
    for u in 0..=0x10FFFFu32 {
        if let Some(c) = char::from_u32(u) {
            assert_eq!(white_space(c), c.is_whitespace(), "{:?}", c);
        }
    }
}

#[test]
fn finds_second_word() {
    let s = chars_of("  one two three");
    assert_eq!(second_word_range(&s), Some((6, 9)));
    assert_eq!(second_word_range(&chars_of("one")), None);
    assert_eq!(second_word_range(&chars_of("   ")), None);
}

#[test]
fn decimal_reads_back() {
    for n in [0usize, 9, 10, 200, 422, 503, 65535] {
        let mut s = String::new();
        push_decimal(&mut s, n);
        let chars = chars_of(&s);
        assert_eq!(parse_u16_range(&chars, 0, chars.len()), Some(n as u16));
    }
}
