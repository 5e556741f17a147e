use xhtmlchardet::bom::ByteOrder;
use xhtmlchardet::bom::Descriptor;
use xhtmlchardet::bom::Flavour;
use xhtmlchardet::bom::Width;
use xhtmlchardet::push_if_not_contains;
use xhtmlchardet::scan::search;
use xhtmlchardet::text::endianify;
use xhtmlchardet::text::normalise;
use xhtmlchardet::utf8check::is_valid_utf8;

#[test]
fn normalise_lowercases() {
    assert_eq!(normalise("ISO-8859-1"), "iso-8859-1".to_string());
}

#[test]
fn normalise_rewrites_aliases() {
    assert_eq!(normalise("US-ASCII"), "ascii".to_string());
    assert_eq!(normalise("UTF8"), "utf-8".to_string());
    assert_eq!(normalise("Shift-JIS"), "shift_jis".to_string());
}

#[test]
fn normalise_rewrites_inside_longer_names() {
    assert_eq!(normalise("X-Mutf8Y"), "x-mutf-8y".to_string());
}

#[test]
fn endianify_appends_known_order() {
    let le = Descriptor(Flavour::UTF, Width::SixteenBit, ByteOrder::LittleEndian);
    let be = Descriptor(Flavour::UTF, Width::SixteenBit, ByteOrder::BigEndian);
    assert_eq!(endianify("utf-16", Some(&le)), "utf-16le".to_string());
    assert_eq!(endianify("utf-16", Some(&be)), "utf-16be".to_string());
}

#[test]
fn endianify_passes_other_input_through() {
    let le = Descriptor(Flavour::UTF, Width::SixteenBit, ByteOrder::LittleEndian);
    let na = Descriptor(Flavour::ASCII, Width::EightBit, ByteOrder::NotApplicable);
    assert_eq!(endianify("utf-16", Some(&na)), "utf-16".to_string());
    assert_eq!(endianify("utf-16", None), "utf-16".to_string());
    assert_eq!(endianify("iso-8859-1", Some(&le)), "iso-8859-1".to_string());
}

#[test]
fn search_extracts_double_quoted_value() {
    let buf: Vec<u8> = b"<?xml version=\"1.0\" encoding=\"ISO-8859-1\"?>".to_vec();
    assert_eq!(search("encoding=", &buf, None), Some("ISO-8859-1".to_string()));
}

#[test]
fn search_extracts_single_quoted_value() {
    let buf: Vec<u8> = b"<meta charset='Shift-JIS'>".to_vec();
    assert_eq!(search("charset=", &buf, None), Some("Shift-JIS".to_string()));
}

#[test]
fn search_misses_absent_needle() {
    let buf: Vec<u8> = b"<plain>text</plain>".to_vec();
    assert_eq!(search("encoding=", &buf, None), None);
}

#[test]
fn search_empty_quotes_give_empty_value() {
    let buf: Vec<u8> = b"encoding=''".to_vec();
    assert_eq!(search("encoding=", &buf, None), Some(String::new()));
}

#[test]
fn search_unquoted_value_runs_to_next_quote() {
    let buf: Vec<u8> = b"encoding=utf-8\" more".to_vec();
    assert_eq!(search("encoding=", &buf, None), Some("utf-8".to_string()));
}

#[test]
fn search_takes_first_occurrence() {
    let buf: Vec<u8> = b"encoding=\"first\" encoding=\"second\"".to_vec();
    assert_eq!(search("encoding=", &buf, None), Some("first".to_string()));
}

#[test]
fn search_respects_sixteen_bit_stride() {
    // "encoding=\"UTF-16\"" spread over 16-bit little-endian units.
    let mut buf: Vec<u8> = Vec::new();
    for b in b"encoding=\"UTF-16\"" {
        buf.push(*b);
        buf.push(0);
    }
    let le = Descriptor(Flavour::Unknown, Width::SixteenBit, ByteOrder::LittleEndian);
    assert_eq!(search("encoding=", &buf, Some(&le)), Some("UTF-16".to_string()));
    // Without the descriptor the interleaved zeros break the needle.
    assert_eq!(search("encoding=", &buf, None), None);
}

#[test]
fn push_if_not_contains_deduplicates() {
    let mut list: Vec<String> = Vec::new();
    push_if_not_contains(&mut list, "utf-8".to_string());
    push_if_not_contains(&mut list, "ascii".to_string());
    push_if_not_contains(&mut list, "utf-8".to_string());
    assert_eq!(list, vec!["utf-8".to_string(), "ascii".to_string()]);
}

#[test]
fn valid_utf8_accepts_well_formed_text() {
    assert!(is_valid_utf8(&b"plain ascii".to_vec()));
    assert!(is_valid_utf8(&"caf\u{e9} \u{4e16}\u{754c} \u{1f600}".as_bytes().to_vec()));
    assert!(is_valid_utf8(&Vec::new()));
}

#[test]
fn valid_utf8_rejects_malformed_sequences() {
    // A lone continuation byte.
    assert!(!is_valid_utf8(&vec![0x80]));
    // An overlong two-byte encoding of NUL.
    assert!(!is_valid_utf8(&vec![0xC0, 0x80]));
    // A surrogate codepoint.
    assert!(!is_valid_utf8(&vec![0xED, 0xA0, 0x80]));
    // A codepoint beyond the Unicode range.
    assert!(!is_valid_utf8(&vec![0xF4, 0x90, 0x80, 0x80]));
    // A truncated three-byte sequence.
    assert!(!is_valid_utf8(&vec![0xE2, 0x82]));
    // A stray invalid byte inside valid text.
    assert!(!is_valid_utf8(&b"ab\xFFcd".to_vec()));
}
