use xhtmlchardet::bom::Bom;
use xhtmlchardet::bom::ByteOrder;
use xhtmlchardet::bom::Descriptor;
use xhtmlchardet::bom::Flavour;
use xhtmlchardet::bom::Width;
use xhtmlchardet::bom::detect_byte_order_mark;
use xhtmlchardet::detect;

/// Splits a whole stream prefix the way the two bounded reads of a
/// well-behaved reader would: at most four leading bytes, then the rest.
fn run(bytes: &[u8], hint: Option<&str>) -> Vec<String> {
    let split = bytes.len().min(4);
    let first: Vec<u8> = bytes[..split].to_vec();
    let rest: Vec<u8> = bytes[split..].to_vec();
    detect(&first, &rest, hint.map(|h| h.to_string()))
}

/// Encodes ASCII text as UTF-16BE, optionally with a leading byte-order mark.
fn utf16be(text: &str, with_bom: bool) -> Vec<u8> {
    let mut out: Vec<u8> = Vec::new();
    if with_bom {
        out.push(0xFE);
        out.push(0xFF);
    }
    for unit in text.encode_utf16() {
        out.push((unit >> 8) as u8);
        out.push((unit & 0xFF) as u8);
    }
    out
}

/// Encodes ASCII text as UTF-16LE, optionally with a leading byte-order mark.
fn utf16le(text: &str, with_bom: bool) -> Vec<u8> {
    let mut out: Vec<u8> = Vec::new();
    if with_bom {
        out.push(0xFF);
        out.push(0xFE);
    }
    for unit in text.encode_utf16() {
        out.push((unit & 0xFF) as u8);
        out.push((unit >> 8) as u8);
    }
    out
}

#[test]
fn declared_iso_8859_1() {
    let text = b"<?xml version=\"1.0\" encoding=\"ISO-8859-1\"?><channel><title>Example</title></channel>";
    assert_eq!(run(text, None), vec!["iso-8859-1".to_string()]);
}

#[test]
fn utf16be_with_bom_and_declaration() {
    let bytes = utf16be("<?xml version=\"1.0\" encoding=\"UTF-16\"?><doc>x</doc>", true);
    assert_eq!(run(&bytes, None), vec!["utf-16be".to_string()]);
}

#[test]
fn utf16be_without_bom_declared() {
    let bytes = utf16be("<?xml version=\"1.0\" encoding=\"UTF-16\"?><doc>x</doc>", false);
    assert_eq!(run(&bytes, None), vec!["utf-16be".to_string()]);
}

#[test]
fn hint_only_iso_8859_1() {
    assert_eq!(
        run(b"no declaration here", Some("ISO-8859-1")),
        vec!["iso-8859-1".to_string()]
    );
}

#[test]
fn utf8_bom_with_shift_jis_charset() {
    let mut bytes = vec![0xEF, 0xBB, 0xBF];
    bytes.extend_from_slice(b"<html><meta charset='Shift-JIS'></html>");
    assert_eq!(
        run(&bytes, None),
        vec!["shift_jis".to_string(), "utf-8".to_string()]
    );
}

#[test]
fn utf16le_bom_without_declaration() {
    let bytes = utf16le("<doc>plain</doc>", true);
    assert_eq!(run(&bytes, None), vec!["utf-16le".to_string()]);
}

#[test]
fn utf16le_bom_with_bare_utf16_declaration() {
    let bytes = utf16le("<?xml version=\"1.0\" encoding=\"UTF-16\"?><doc>x</doc>", true);
    assert_eq!(run(&bytes, None), vec!["utf-16le".to_string()]);
}

#[test]
fn utf8_fallback_on_plain_text() {
    assert_eq!(run(b"just some plain text", None), vec!["utf-8".to_string()]);
}

#[test]
fn no_candidates_on_invalid_utf8() {
    let empty: Vec<String> = Vec::new();
    assert_eq!(run(b"just some plain \xFF text", None), empty);
}

#[test]
fn declaration_before_differing_hint() {
    let text = b"<?xml version=\"1.0\" encoding=\"ISO-8859-1\"?><c/>";
    assert_eq!(
        run(text, Some("UTF8")),
        vec!["iso-8859-1".to_string(), "utf-8".to_string()]
    );
}

#[test]
fn declaration_equal_to_hint_deduplicated() {
    let text = b"<?xml version=\"1.0\" encoding=\"ISO-8859-1\"?><c/>";
    assert_eq!(run(text, Some("iso-8859-1")), vec!["iso-8859-1".to_string()]);
}

#[test]
fn hint_us_ascii_normalized() {
    assert_eq!(run(b"plain", Some("US-ASCII")), vec!["ascii".to_string()]);
}

#[test]
fn hint_utf8_normalized() {
    assert_eq!(run(b"plain", Some("utf8")), vec!["utf-8".to_string()]);
}

#[test]
fn hint_shift_jis_normalized() {
    assert_eq!(run(b"plain", Some("Shift-JIS")), vec!["shift_jis".to_string()]);
}

#[test]
fn hint_with_non_ascii_characters_lowercased() {
    assert_eq!(run(b"plain", Some("\u{dc}nicode")), vec!["\u{fc}nicode".to_string()]);
}

#[test]
fn ebcdic_pattern_detected() {
    let bytes = vec![0x4C, 0x6F, 0xA7, 0x94, 0xC8, 0x85, 0x93, 0x93];
    assert_eq!(run(&bytes, None), vec!["ebcdic".to_string()]);
}

#[test]
fn ucs4_boms_detected() {
    assert_eq!(
        run(&[0x00, 0x00, 0xFE, 0xFF, 0x00], None),
        vec!["ucs-4be".to_string()]
    );
    assert_eq!(
        run(&[0xFF, 0xFE, 0x00, 0x00, 0x00], None),
        vec!["ucs-4le".to_string()]
    );
}

#[test]
fn unusual_order_contributes_no_name() {
    // A 32-bit unusual-order pattern yields a descriptor but no name; with
    // nothing else to go on, the zero-filled buffer validates as UTF-8.
    assert_eq!(run(&[0x00, 0x00, 0x3C, 0x00], None), vec!["utf-8".to_string()]);
}

#[test]
fn empty_stream_falls_back_to_utf8() {
    assert_eq!(run(b"", None), vec!["utf-8".to_string()]);
}

#[test]
fn declared_value_with_invalid_byte_replaced() {
    let mut text: Vec<u8> = b"<?xml encoding=\"a".to_vec();
    text.push(0xFF);
    text.extend_from_slice(b"b\"?>");
    assert_eq!(run(&text, None), vec!["a\u{fffd}b".to_string()]);
}

#[test]
fn ucs4le_declaration_found_at_four_byte_stride() {
    // A UCS-4 little-endian stream: the mark, then one ASCII character in
    // the low byte of each four-byte unit.
    let mut bytes: Vec<u8> = vec![0xFF, 0xFE, 0x00, 0x00];
    for b in b"<?xml encoding=\"UTF-32\"?>" {
        bytes.push(*b);
        bytes.push(0);
        bytes.push(0);
        bytes.push(0);
    }
    assert_eq!(
        run(&bytes, None),
        vec!["utf-32".to_string(), "ucs-4le".to_string()]
    );
}

#[test]
fn unusual_2143_declaration_found_but_unnamed() {
    // The 2143 byte order puts the ASCII-carrying byte third in each unit;
    // the pattern yields a descriptor but contributes no name of its own.
    let mut bytes: Vec<u8> = vec![0x00, 0x00, 0xFF, 0xFE];
    for b in b"<?xml encoding=\"X1\"?>" {
        bytes.push(0);
        bytes.push(0);
        bytes.push(*b);
        bytes.push(0);
    }
    assert_eq!(run(&bytes, None), vec!["x1".to_string()]);
}

#[test]
fn bom_classification_table() {
    let d = |b: [u8; 4]| detect_byte_order_mark(&Bom(b[0], b[1], b[2], b[3]));
    assert_eq!(
        d([0x00, 0x00, 0xFE, 0xFF]),
        Some(Descriptor(Flavour::UCS, Width::ThirtyTwoBit, ByteOrder::BigEndian))
    );
    assert_eq!(
        d([0xFF, 0xFE, 0x00, 0x00]),
        Some(Descriptor(Flavour::UCS, Width::ThirtyTwoBit, ByteOrder::LittleEndian))
    );
    assert_eq!(
        d([0x00, 0x00, 0xFF, 0xFE]),
        Some(Descriptor(Flavour::UCS, Width::ThirtyTwoBit, ByteOrder::Unusual2143))
    );
    assert_eq!(
        d([0xFE, 0xFF, 0x00, 0x00]),
        Some(Descriptor(Flavour::UCS, Width::ThirtyTwoBit, ByteOrder::Unusual3412))
    );
    assert_eq!(
        d([0xFE, 0xFF, 0x00, 0x3C]),
        Some(Descriptor(Flavour::UTF, Width::SixteenBit, ByteOrder::BigEndian))
    );
    assert_eq!(
        d([0xFF, 0xFE, 0x3C, 0x00]),
        Some(Descriptor(Flavour::UTF, Width::SixteenBit, ByteOrder::LittleEndian))
    );
    assert_eq!(
        d([0xEF, 0xBB, 0xBF, 0x3C]),
        Some(Descriptor(Flavour::UTF, Width::EightBit, ByteOrder::NotApplicable))
    );
    assert_eq!(
        d([0x00, 0x00, 0x00, 0x3C]),
        Some(Descriptor(Flavour::Unknown, Width::ThirtyTwoBit, ByteOrder::BigEndian))
    );
    assert_eq!(
        d([0x3C, 0x00, 0x00, 0x00]),
        Some(Descriptor(Flavour::Unknown, Width::ThirtyTwoBit, ByteOrder::LittleEndian))
    );
    assert_eq!(
        d([0x00, 0x00, 0x3C, 0x00]),
        Some(Descriptor(Flavour::Unknown, Width::ThirtyTwoBit, ByteOrder::Unusual2143))
    );
    assert_eq!(
        d([0x00, 0x3C, 0x00, 0x00]),
        Some(Descriptor(Flavour::Unknown, Width::ThirtyTwoBit, ByteOrder::Unusual3412))
    );
    assert_eq!(
        d([0x00, 0x3C, 0x00, 0x3F]),
        Some(Descriptor(Flavour::Unknown, Width::SixteenBit, ByteOrder::BigEndian))
    );
    assert_eq!(
        d([0x3C, 0x00, 0x3F, 0x00]),
        Some(Descriptor(Flavour::Unknown, Width::SixteenBit, ByteOrder::LittleEndian))
    );
    assert_eq!(
        d([0x3C, 0x3F, 0x78, 0x6D]),
        Some(Descriptor(Flavour::ASCII, Width::EightBit, ByteOrder::NotApplicable))
    );
    assert_eq!(
        d([0x4C, 0x6F, 0xA7, 0x94]),
        Some(Descriptor(Flavour::EBCDIC, Width::EightBit, ByteOrder::NotApplicable))
    );
    assert_eq!(d([0x68, 0x65, 0x6C, 0x6C]), None);
}

#[test]
fn utf16_bom_needs_nonzero_third_or_fourth_byte() {
    // FE FF 00 00 and FF FE 00 00 are the 32-bit marks, not UTF-16.
    let d = detect_byte_order_mark(&Bom(0xFE, 0xFF, 0x00, 0x00));
    assert_eq!(
        d,
        Some(Descriptor(Flavour::UCS, Width::ThirtyTwoBit, ByteOrder::Unusual3412))
    );
}
