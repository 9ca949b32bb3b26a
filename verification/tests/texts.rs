use lan_mouse::bytes::{push_be, read_be, read_bytes};
use lan_mouse::scan::{is_whitespace, parse_usize, replace, split, trim};
use lan_mouse::text::{
    chars_of, clone_texts, contains_text, decode_text, same_text, text_of, to_decimal,
};

fn chars(s: &str) -> Vec<char> {
    chars_of(s)
}

#[test]
fn white_space_is_that_of_unicode() {
    for code in 0..=0x10FFFFu32 {
        if let Some(c) = char::from_u32(code) {
            assert_eq!(is_whitespace(c), c.is_whitespace(), "{code:x}");
        }
    }
}

#[test]
fn trimming_agrees_with_std() {
    for s in ["", " ", "a", " a ", "\t\r\na b\u{3000}\u{2028}", "\u{feff}a"] {
        assert_eq!(text_of(trim(&chars(s))), s.trim());
    }
}

#[test]
fn numbers_agree_with_std() {
    for s in [
        "", "+", "-", "0", "+0", "-0", "007", "+12", "1+", "12a", " 1", "18446744073709551615",
        "18446744073709551616", "99999999999999999999999999", "４", "1_0",
    ] {
        assert_eq!(parse_usize(&chars(s)), s.parse::<usize>().ok(), "{s}");
    }
}

#[test]
fn decimals_agree_with_std() {
    for n in [0, 7, 10, 99, 100, 1234567890, u64::MAX] {
        assert_eq!(to_decimal(n), n.to_string());
    }
}

#[test]
fn replacing_agrees_with_std() {
    for (s, from, to) in
        [("aaaa", "aa", "b"), ("aaa", "aa", ""), ("a b c", " ", "%20"), ("", "x", "y"), ("x", "xy", "z")]
    {
        let r = replace(&chars(s), &chars(from), &chars(to));
        assert_eq!(text_of(&r), s.replace(from, to));
    }
}

#[test]
fn splitting_agrees_with_std() {
    for s in ["", "\n", "a\nb", "a\n\nb\n", "ü\n"] {
        let parts: Vec<String> = split(&chars(s), '\n').iter().map(|p| text_of(p)).collect();
        let expected: Vec<String> = s.split('\n').map(|p| p.to_string()).collect();
        assert_eq!(parts, expected);
    }
}

#[test]
fn utf8_is_decoded() {
    assert_eq!(decode_text("häß🌍".as_bytes()), Some("häß🌍".to_string()));
    assert_eq!(decode_text(&[0x61, 0xC3]), None);
    assert_eq!(decode_text(&[]), Some(String::new()));
}

#[test]
fn texts_are_compared_and_copied() {
    let list = vec!["a".to_string(), "b".to_string()];
    assert!(contains_text(&list, "b"));
    assert!(!contains_text(&list, "c"));
    assert!(same_text(&list[0], "a"));
    assert!(!same_text(&list[0], "aa"));
    assert_eq!(clone_texts(&list), list);
}

#[test]
fn numbers_are_big_endian() {
    let mut out = vec![0xFF];
    push_be(&mut out, 0x0102_0304, 4);
    push_be(&mut out, 0x0102_0304, 2);
    assert_eq!(out, vec![0xFF, 1, 2, 3, 4, 3, 4]);
    let mut src: &[u8] = &out[1..];
    assert_eq!(read_be(&mut src, 3), Some(0x010203));
    assert_eq!(read_be(&mut src, 8), None);
    assert_eq!(read_bytes(&mut src, 2), Some(&[4u8, 3][..]));
    assert_eq!(src, &[4]);
}
