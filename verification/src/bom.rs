//! Classification of the first four bytes of a stream: byte-order marks and
//! the characteristic byte patterns of a `<?xml` declaration re-encoded at
//! different character widths.

use vstd::prelude::*;

verus! {

/// The first four raw bytes of a stream, zero-padded when the stream is
/// shorter than four bytes.
#[derive(Clone, Copy, Debug)]
pub struct Bom(pub u8, pub u8, pub u8, pub u8);

/// The broad encoding family suggested by a leading byte pattern.
#[derive(Clone, Copy, Debug, PartialEq, Eq, Structural)]
pub enum Flavour {
    UCS,
    UTF,
    EBCDIC,
    ASCII,
    Unknown,
}

/// The ordering of bytes within one multi-byte code unit. `NotApplicable`
/// is used for single-byte encodings.
#[derive(Clone, Copy, Debug, PartialEq, Eq, Structural)]
pub enum ByteOrder {
    BigEndian,
    LittleEndian,
    Unusual2143,
    Unusual3412,
    NotApplicable,
}

/// The number of bits per logical code unit.
#[derive(Clone, Copy, Debug, PartialEq, Eq, Structural)]
pub enum Width {
    EightBit,
    SixteenBit,
    ThirtyTwoBit,
}

/// What a recognized leading byte pattern says about the stream: its encoding
/// family, its code-unit width, and the byte order within a code unit.
#[derive(Clone, Copy, Debug, PartialEq, Eq, Structural)]
pub struct Descriptor(pub Flavour, pub Width, pub ByteOrder);

/// The number of bytes in one code unit of the given width.
pub open spec fn spec_chunk_size(width: Width) -> int {
    match width {
        Width::EightBit => 1,
        Width::SixteenBit => 2,
        Width::ThirtyTwoBit => 4,
    }
}

/// The offset, within one code unit of `chunk_size` bytes, of the byte that
/// carries the ASCII range of the encoded character.
pub open spec fn spec_start_index(order: ByteOrder, chunk_size: int) -> int {
    match order {
        ByteOrder::NotApplicable => 0,
        ByteOrder::LittleEndian => 0,
        ByteOrder::BigEndian => chunk_size - 1,
        ByteOrder::Unusual2143 => 2,
        ByteOrder::Unusual3412 => 1,
    }
}

/// Lifts an optional borrowed descriptor to an optional descriptor value, for
/// use in specifications.
pub open spec fn opt_desc(descriptor: Option<&Descriptor>) -> Option<Descriptor> {
    match descriptor {
        Some(d) => Some(*d),
        None => None,
    }
}

/// The descriptor assigned to four leading bytes, or `None` when no pattern
/// is recognized. The patterns are checked in a fixed priority order; the
/// first match wins.
pub open spec fn spec_classify(b0: u8, b1: u8, b2: u8, b3: u8) -> Option<Descriptor> {
    if b0 == 0x00 && b1 == 0x00 && b2 == 0xFE && b3 == 0xFF {
        Some(Descriptor(Flavour::UCS, Width::ThirtyTwoBit, ByteOrder::BigEndian))
    } else if b0 == 0xFF && b1 == 0xFE && b2 == 0x00 && b3 == 0x00 {
        Some(Descriptor(Flavour::UCS, Width::ThirtyTwoBit, ByteOrder::LittleEndian))
    } else if b0 == 0x00 && b1 == 0x00 && b2 == 0xFF && b3 == 0xFE {
        Some(Descriptor(Flavour::UCS, Width::ThirtyTwoBit, ByteOrder::Unusual2143))
    } else if b0 == 0xFE && b1 == 0xFF && b2 == 0x00 && b3 == 0x00 {
        Some(Descriptor(Flavour::UCS, Width::ThirtyTwoBit, ByteOrder::Unusual3412))
    } else if b0 == 0xFE && b1 == 0xFF && (b2 > 0 || b3 > 0) {
        Some(Descriptor(Flavour::UTF, Width::SixteenBit, ByteOrder::BigEndian))
    } else if b0 == 0xFF && b1 == 0xFE && (b2 > 0 || b3 > 0) {
        Some(Descriptor(Flavour::UTF, Width::SixteenBit, ByteOrder::LittleEndian))
    } else if b0 == 0xEF && b1 == 0xBB && b2 == 0xBF {
        Some(Descriptor(Flavour::UTF, Width::EightBit, ByteOrder::NotApplicable))
    } else if b0 == 0x00 && b1 == 0x00 && b2 == 0x00 && b3 == 0x3C {
        Some(Descriptor(Flavour::Unknown, Width::ThirtyTwoBit, ByteOrder::BigEndian))
    } else if b0 == 0x3C && b1 == 0x00 && b2 == 0x00 && b3 == 0x00 {
        Some(Descriptor(Flavour::Unknown, Width::ThirtyTwoBit, ByteOrder::LittleEndian))
    } else if b0 == 0x00 && b1 == 0x00 && b2 == 0x3C && b3 == 0x00 {
        Some(Descriptor(Flavour::Unknown, Width::ThirtyTwoBit, ByteOrder::Unusual2143))
    } else if b0 == 0x00 && b1 == 0x3C && b2 == 0x00 && b3 == 0x00 {
        Some(Descriptor(Flavour::Unknown, Width::ThirtyTwoBit, ByteOrder::Unusual3412))
    } else if b0 == 0x00 && b1 == 0x3C && b2 == 0x00 && b3 == 0x3F {
        Some(Descriptor(Flavour::Unknown, Width::SixteenBit, ByteOrder::BigEndian))
    } else if b0 == 0x3C && b1 == 0x00 && b2 == 0x3F && b3 == 0x00 {
        Some(Descriptor(Flavour::Unknown, Width::SixteenBit, ByteOrder::LittleEndian))
    } else if b0 == 0x3C && b1 == 0x3F && b2 == 0x78 && b3 == 0x6D {
        Some(Descriptor(Flavour::ASCII, Width::EightBit, ByteOrder::NotApplicable))
    } else if b0 == 0x4C && b1 == 0x6F && b2 == 0xA7 && b3 == 0x94 {
        Some(Descriptor(Flavour::EBCDIC, Width::EightBit, ByteOrder::NotApplicable))
    } else {
        None
    }
}

/// Inspects the four leading bytes of a stream and, when a known byte-order
/// mark or `<?xml` byte pattern is present, returns the descriptor that the
/// pattern implies.
pub fn detect_byte_order_mark(bom: &Bom) -> (r: Option<Descriptor>)
    ensures
        r == spec_classify(bom.0, bom.1, bom.2, bom.3),
{
    let Bom(b0, b1, b2, b3) = *bom;
    if b0 == 0x00 && b1 == 0x00 && b2 == 0xFE && b3 == 0xFF {
        Some(Descriptor(Flavour::UCS, Width::ThirtyTwoBit, ByteOrder::BigEndian))
    } else if b0 == 0xFF && b1 == 0xFE && b2 == 0x00 && b3 == 0x00 {
        Some(Descriptor(Flavour::UCS, Width::ThirtyTwoBit, ByteOrder::LittleEndian))
    } else if b0 == 0x00 && b1 == 0x00 && b2 == 0xFF && b3 == 0xFE {
        Some(Descriptor(Flavour::UCS, Width::ThirtyTwoBit, ByteOrder::Unusual2143))
    } else if b0 == 0xFE && b1 == 0xFF && b2 == 0x00 && b3 == 0x00 {
        Some(Descriptor(Flavour::UCS, Width::ThirtyTwoBit, ByteOrder::Unusual3412))
    } else if b0 == 0xFE && b1 == 0xFF && (b2 > 0 || b3 > 0) {
        Some(Descriptor(Flavour::UTF, Width::SixteenBit, ByteOrder::BigEndian))
    } else if b0 == 0xFF && b1 == 0xFE && (b2 > 0 || b3 > 0) {
        Some(Descriptor(Flavour::UTF, Width::SixteenBit, ByteOrder::LittleEndian))
    } else if b0 == 0xEF && b1 == 0xBB && b2 == 0xBF {
        Some(Descriptor(Flavour::UTF, Width::EightBit, ByteOrder::NotApplicable))
    } else if b0 == 0x00 && b1 == 0x00 && b2 == 0x00 && b3 == 0x3C {
        Some(Descriptor(Flavour::Unknown, Width::ThirtyTwoBit, ByteOrder::BigEndian))
    } else if b0 == 0x3C && b1 == 0x00 && b2 == 0x00 && b3 == 0x00 {
        Some(Descriptor(Flavour::Unknown, Width::ThirtyTwoBit, ByteOrder::LittleEndian))
    } else if b0 == 0x00 && b1 == 0x00 && b2 == 0x3C && b3 == 0x00 {
        Some(Descriptor(Flavour::Unknown, Width::ThirtyTwoBit, ByteOrder::Unusual2143))
    } else if b0 == 0x00 && b1 == 0x3C && b2 == 0x00 && b3 == 0x00 {
        Some(Descriptor(Flavour::Unknown, Width::ThirtyTwoBit, ByteOrder::Unusual3412))
    } else if b0 == 0x00 && b1 == 0x3C && b2 == 0x00 && b3 == 0x3F {
        Some(Descriptor(Flavour::Unknown, Width::SixteenBit, ByteOrder::BigEndian))
    } else if b0 == 0x3C && b1 == 0x00 && b2 == 0x3F && b3 == 0x00 {
        Some(Descriptor(Flavour::Unknown, Width::SixteenBit, ByteOrder::LittleEndian))
    } else if b0 == 0x3C && b1 == 0x3F && b2 == 0x78 && b3 == 0x6D {
        Some(Descriptor(Flavour::ASCII, Width::EightBit, ByteOrder::NotApplicable))
    } else if b0 == 0x4C && b1 == 0x6F && b2 == 0xA7 && b3 == 0x94 {
        Some(Descriptor(Flavour::EBCDIC, Width::EightBit, ByteOrder::NotApplicable))
    } else {
        None
    }
}

/// The canonical name contributed by a recognized leading byte pattern, when
/// one of the named encodings is pinned down by it. The unusual 32-bit
/// orders and the bare ASCII-compatible patterns contribute no name.
pub open spec fn spec_bom_name(descriptor: Option<Descriptor>) -> Option<Seq<char>> {
    match descriptor {
        Some(d) => {
            if d == (Descriptor(Flavour::UCS, Width::ThirtyTwoBit, ByteOrder::LittleEndian)) {
                Some("ucs-4le"@)
            } else if d == (Descriptor(Flavour::UCS, Width::ThirtyTwoBit, ByteOrder::BigEndian)) {
                Some("ucs-4be"@)
            } else if d == (Descriptor(Flavour::UTF, Width::SixteenBit, ByteOrder::LittleEndian)) {
                Some("utf-16le"@)
            } else if d == (Descriptor(Flavour::UTF, Width::SixteenBit, ByteOrder::BigEndian)) {
                Some("utf-16be"@)
            } else if d.0 == Flavour::UTF && d.1 == Width::EightBit {
                Some("utf-8"@)
            } else if d == (Descriptor(Flavour::EBCDIC, Width::EightBit, ByteOrder::NotApplicable)) {
                Some("ebcdic"@)
            } else {
                None
            }
        },
        None => None,
    }
}

/// Maps a descriptor to the canonical name of the encoding it pins down, as
/// `spec_bom_name` describes.
pub(crate) fn bom_name(descriptor: Option<&Descriptor>) -> (r: Option<String>)
    ensures
        r.deep_view() == spec_bom_name(opt_desc(descriptor)),
{
    match descriptor {
        Some(d) => {
            let Descriptor(flavour, width, order) = *d;
            if flavour == Flavour::UCS && width == Width::ThirtyTwoBit && order
                == ByteOrder::LittleEndian {
                Some("ucs-4le".to_owned())
            } else if flavour == Flavour::UCS && width == Width::ThirtyTwoBit && order
                == ByteOrder::BigEndian {
                Some("ucs-4be".to_owned())
            } else if flavour == Flavour::UTF && width == Width::SixteenBit && order
                == ByteOrder::LittleEndian {
                Some("utf-16le".to_owned())
            } else if flavour == Flavour::UTF && width == Width::SixteenBit && order
                == ByteOrder::BigEndian {
                Some("utf-16be".to_owned())
            } else if flavour == Flavour::UTF && width == Width::EightBit {
                Some("utf-8".to_owned())
            } else if flavour == Flavour::EBCDIC && width == Width::EightBit && order
                == ByteOrder::NotApplicable {
                Some("ebcdic".to_owned())
            } else {
                None
            }
        },
        None => None,
    }
}

} // verus!
