use lan_mouse::cf_html::{decode_cf_html, encode_cf_html};

#[test]
fn test_cf_html_roundtrip_ascii() {
    let input = b"<b>hello</b>";
    let encoded = encode_cf_html(input);
    let decoded = decode_cf_html(&encoded).unwrap();
    assert_eq!(decoded, input);
}

#[test]
fn test_cf_html_roundtrip_unicode() {
    let input = "<b>こんにちは (Hello in Japanese) / नमस्ते (Hindi) / 🌍 (Emoji)</b>".as_bytes();
    let encoded = encode_cf_html(input);
    let decoded = decode_cf_html(&encoded).unwrap();
    assert_eq!(decoded, input);
}

#[test]
fn test_cf_html_roundtrip_multiline() {
    let input = b"<ul>\r\n  <li>Line 1</li>\n  <li>Line 2</li>\r\n</ul>";
    let encoded = encode_cf_html(input);
    let decoded = decode_cf_html(&encoded).unwrap();
    assert_eq!(decoded, input);
}

#[test]
fn test_cf_html_roundtrip_empty() {
    let input = b"";
    let encoded = encode_cf_html(input);
    let decoded = decode_cf_html(&encoded).unwrap();
    assert_eq!(decoded, input);
}

#[test]
fn test_cf_html_roundtrip_large() {
    let input = vec![b'A'; 100_000];
    let encoded = encode_cf_html(&input);
    let decoded = decode_cf_html(&encoded).unwrap();
    assert_eq!(decoded, input);
}

#[test]
fn test_cf_html_decode_malformed() {
    let malformed = b"Version:0.9\r\nStartHTML:0000000000\r\nEndHTML:0000000000\r\n";
    let result = decode_cf_html(malformed);
    assert!(result.is_err());
    assert_eq!(result.unwrap_err(), "Malformed CF_HTML or invalid fragment offsets");

    let invalid_offsets = b"Version:0.9\r\nStartFragment:0000000100\r\nEndFragment:0000000050\r\n";
    let result = decode_cf_html(invalid_offsets);
    assert!(result.is_err());
}

#[test]
fn cf_html_layout() {
    let encoded = encode_cf_html(b"hi");
    let expected = "Version:0.9\r\nStartHTML:0000000105\r\nEndHTML:0000000179\r\n\
        StartFragment:0000000141\r\nEndFragment:0000000143\r\n\
        <html>\r\n<body>\r\n<!--StartFragment-->hi<!--EndFragment-->\r\n</body>\r\n</html>\0";
    assert_eq!(encoded, expected.as_bytes());
}

#[test]
fn cf_html_later_declaration_wins() {
    let data = b"StartFragment:0\nEndFragment:1\nStartFragment: +2 \r\nEndFragment:4";
    assert_eq!(decode_cf_html(data).unwrap(), b"ar".to_vec());
}

#[test]
fn cf_html_ignores_what_is_no_number() {
    let data = b"StartFragment:1\nEndFragment:3\nStartFragment:-1\nEndFragment:\xFF4\nEndFragment:99999999999999999999999";
    assert_eq!(decode_cf_html(data).unwrap(), b"ta".to_vec());
}

#[test]
fn cf_html_fragment_that_declares_bounds_is_misread() {
    let input = b"a\nStartFragment:0\nb";
    let encoded = encode_cf_html(input);
    assert_ne!(decode_cf_html(&encoded).unwrap(), input.to_vec());
}

#[test]
fn cf_html_fragment_may_end_in_a_declaration() {
    let input = b"a\nStartFragment:0";
    let encoded = encode_cf_html(input);
    assert_eq!(decode_cf_html(&encoded).unwrap(), input.to_vec());
}

#[test]
fn cf_html_bounds_beyond_the_data() {
    assert!(decode_cf_html(b"StartFragment:0\nEndFragment:1000").is_err());
}
