use blobdump::decimal::decimal;
use blobdump::hex::{hex, hex_encode};
use blobdump::listing::{debug_hex_list, decode_complete, decode_partial};
use blobdump::text::show_text;

#[test]
fn hex_two_lowercase_digits_per_byte() {
    assert_eq!(hex(&[0x0a, 0xff]), "0aff");
    assert_eq!(hex(&[]), "");
    assert_eq!(hex(&[0x00, 0x01, 0x7f, 0x80, 0xab, 0xcd]), "00017f80abcd");
}

#[test]
fn hex_agrees_with_std_formatting() {
    let bytes: Vec<u8> = (0u8..=255).collect();
    let expected: String = bytes.iter().map(|b| format!("{:02x}", b)).collect();
    assert_eq!(hex_encode(&bytes), expected);
    assert_eq!(hex(&bytes).len(), 2 * bytes.len());
}

#[test]
fn hex_of_concatenation_is_concatenation_of_hex() {
    let a = [1u8, 2, 3];
    let b = [0xfeu8, 0xed];
    let ab: Vec<u8> = a.iter().chain(b.iter()).copied().collect();
    assert_eq!(hex(&ab), format!("{}{}", hex(&a), hex(&b)));
}

#[test]
fn hex_distinguishes_inputs() {
    assert_ne!(hex(&[0x01, 0x23]), hex(&[0x12, 0x03]));
    assert_ne!(hex(&[0x00]), hex(&[0x00, 0x00]));
}

#[test]
fn decimal_renders_like_display() {
    for n in [0u64, 7, 9, 10, 99, 100, 305, 1_000_000, u64::MAX] {
        assert_eq!(decimal(n), n.to_string());
    }
}

#[test]
fn debug_listing_matches_std() {
    let cases: Vec<Vec<u8>> = vec![vec![], vec![0x0a], vec![0x0a, 0xff], (0u8..40).collect()];
    for c in cases {
        assert_eq!(debug_hex_list(&c), format!("{:02x?}", c.as_slice()));
    }
    assert_eq!(debug_hex_list(&[0x0a, 0xff]), "[0a, ff]");
}

#[test]
fn listing_length_is_four_per_byte() {
    assert_eq!(debug_hex_list(&[]).len(), 2);
    assert_eq!(debug_hex_list(&[1, 2, 3]).len(), 12);
}

#[test]
fn entry_state_payloads_summarised_raw() {
    assert_eq!(decode_complete(&[0x01, 0x02]), " { raw: [01, 02] }");
    assert_eq!(decode_complete(&[]), " { raw: [] }");
    assert_eq!(decode_partial(&[0xff]), " { raw: [ff] }");
}

#[test]
fn complete_and_partial_summaries_agree() {
    let data = [3u8, 0, 0x80, 0x7f];
    assert_eq!(decode_complete(&data), decode_partial(&data));
    assert_eq!(decode_complete(&data), format!(" {{ raw: {:02x?} }}", &data[..]));
}

#[test]
fn clean_utf8_is_shown_as_text() {
    let bytes = b"hello\r\nworld\tend";
    assert_eq!(show_text("data", bytes), "data [16 bytes, text]:\nhello\r\nworld\tend");
    let accented = "caf\u{e9} \u{1f600}".as_bytes();
    assert_eq!(
        show_text("data", accented),
        format!("data [{} bytes, text]:\ncaf\u{e9} \u{1f600}", accented.len())
    );
}

#[test]
fn empty_blob_is_text() {
    assert_eq!(show_text("data", &[]), "data [0 bytes, text]:\n");
}

#[test]
fn utf8_with_control_characters_is_mixed() {
    assert_eq!(show_text("data", b"a\x01b"), "data [3 bytes, mixed]: [61, 01, 62]");
    assert_eq!(show_text("x", b"\x7f"), "x [1 bytes, mixed]: [7f]");
    let c1 = "\u{85}".as_bytes();
    assert_eq!(show_text("x", c1), "x [2 bytes, mixed]: [c2, 85]");
    let after_c1 = "\u{a0}".as_bytes();
    assert_eq!(show_text("x", after_c1), "x [2 bytes, text]:\n\u{a0}");
}

#[test]
fn non_utf8_is_binary_and_previewed() {
    assert_eq!(show_text("data", &[0xff, 0x00]), "data [2 bytes, binary]: [ff, 00]");
    let long = vec![0xc3u8; 200];
    let expected = format!("data [200 bytes, binary]: {:02x?}", &long[..96]);
    assert_eq!(show_text("data", &long), expected);
    let exactly = vec![0xffu8; 96];
    assert_eq!(show_text("d", &exactly), format!("d [96 bytes, binary]: {:02x?}", &exactly[..]));
}

#[test]
fn show_text_matches_reference_rendering() {
    fn reference(label: &str, bytes: &[u8]) -> String {
        match std::str::from_utf8(bytes) {
            Ok(s) => {
                let clean = s.chars().all(|c| !c.is_control() || c == '\n' || c == '\r' || c == '\t');
                if clean {
                    format!("{} [{} bytes, text]:\n{}", label, bytes.len(), s)
                } else {
                    format!("{} [{} bytes, mixed]: {:02x?}", label, bytes.len(), bytes)
                }
            }
            Err(_) => format!(
                "{} [{} bytes, binary]: {:02x?}",
                label,
                bytes.len(),
                &bytes[..bytes.len().min(96)]
            ),
        }
    }
    let samples: Vec<Vec<u8>> = vec![
        b"plain".to_vec(),
        b"tab\tand\nlines\r".to_vec(),
        vec![0x1b, b'[', b'0', b'm'],
        vec![0xe2, 0x82, 0xac],
        vec![0xe2, 0x82],
        vec![0xed, 0xa0, 0x80],
        vec![0xc0, 0x80],
        (0u8..=255).collect(),
        "\u{9f}\u{a1}".as_bytes().to_vec(),
    ];
    for s in samples {
        assert_eq!(show_text("data", &s), reference("data", &s));
    }
}

#[test]
fn listing_determines_bytes() {
    assert_ne!(debug_hex_list(&[0x01, 0x23]), debug_hex_list(&[0x12, 0x03]));
    assert_ne!(debug_hex_list(&[]), debug_hex_list(&[0x00]));
}

#[test]
fn decimal_denotes_its_number() {
    for n in [0u64, 5, 42, 1234567890] {
        assert_eq!(decimal(n).parse::<u64>().unwrap(), n);
    }
    assert!(decimal(12).chars().all(|c| c.is_ascii_digit()));
}

#[test]
fn plain_ascii_is_shown_as_text() {
    let bytes: Vec<u8> = (0x20u8..=0x7e).chain([9u8, 10, 13]).collect();
    let shown = show_text("t", &bytes);
    let header = format!("t [{} bytes, text]:\n", bytes.len());
    assert!(shown.starts_with(&header));
    assert_eq!(shown[header.len()..].as_bytes(), &bytes[..]);
}

#[test]
fn text_tail_is_stored_bytes() {
    let bytes = "grüße\n\u{1f4dd}".as_bytes();
    let shown = show_text("note", bytes);
    let header = format!("note [{} bytes, text]:\n", bytes.len());
    assert_eq!(&shown.as_bytes()[header.len()..], bytes);
}
