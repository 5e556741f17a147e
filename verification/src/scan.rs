//! The declaration scanner: reduces a buffer to one logical byte per code
//! unit according to the inferred width and byte order, decodes the result
//! permissively, and extracts the quoted value that follows a needle such as
//! `encoding=` or `charset=`.

use vstd::prelude::*;
use vstd::string::StrSliceExecFns;

use crate::bom::ByteOrder;
use crate::bom::Descriptor;
use crate::bom::Width;
use crate::bom::opt_desc;
use crate::bom::spec_chunk_size;
use crate::bom::spec_start_index;
use crate::text::chars_of;

verus! {

/// The characters that `String::from_utf8_lossy` decodes from the given
/// bytes, with every invalid sequence replaced. The result depends on the
/// bytes alone.
pub uninterp spec fn lossy_of(bytes: Seq<u8>) -> Seq<char>;

/// Relies on `String::from_utf8_lossy`: the decoding is permissive, never
/// fails, is a function of the bytes alone, and on valid UTF-8 input returns
/// exactly the characters those bytes encode.
#[verifier::external_body]
pub(crate) fn lossy_string(bytes: &Vec<u8>) -> (r: String)
    ensures
        r@ == lossy_of(bytes@),
        vstd::utf8::valid_utf8(bytes@) ==> r@ == vstd::utf8::decode_utf8(bytes@),
{
    String::from_utf8_lossy(bytes).into_owned()
}

/// Every byte of `h` at `start`, `start + chunk`, `start + 2 * chunk`, and
/// so on, in order.
pub open spec fn spec_sample_from(h: Seq<u8>, start: int, chunk: int) -> Seq<u8>
    recommends
        chunk >= 1,
    decreases h.len() - start,
    when chunk >= 1 && start >= 0
{
    if start >= h.len() {
        Seq::empty()
    } else {
        let next = if start + chunk <= h.len() {
            start + chunk
        } else {
            h.len() as int
        };
        seq![h[start]] + spec_sample_from(h, next, chunk)
    }
}

/// The logical single-byte sequence recovered from a buffer under the given
/// descriptor: one byte per code unit, taken at the offset within each unit
/// where the order puts the low (ASCII-carrying) byte. Without a descriptor
/// the buffer is its own logical sequence.
pub open spec fn spec_reduced(h: Seq<u8>, descriptor: Option<Descriptor>) -> Seq<u8> {
    let (width, order) = match descriptor {
        Some(d) => (d.1, d.2),
        None => (Width::EightBit, ByteOrder::NotApplicable),
    };
    let chunk = spec_chunk_size(width);
    let start = spec_start_index(order, chunk);
    spec_sample_from(h, start, chunk)
}

/// Walks the buffer with the stride and offset that the descriptor implies,
/// collecting one byte per code unit.
fn reduce(haystack: &Vec<u8>, descriptor: Option<&Descriptor>) -> (r: Vec<u8>)
    ensures
        r@ == spec_reduced(haystack@, opt_desc(descriptor)),
{
    let (width, order) = match descriptor {
        Some(d) => (d.1, d.2),
        None => (Width::EightBit, ByteOrder::NotApplicable),
    };
    let chunk_size: usize = match width {
        Width::EightBit => 1,
        Width::SixteenBit => 2,
        Width::ThirtyTwoBit => 4,
    };
    let mut index: usize = match order {
        ByteOrder::NotApplicable => 0,
        ByteOrder::LittleEndian => 0,
        ByteOrder::BigEndian => chunk_size - 1,
        ByteOrder::Unusual2143 => 2,
        ByteOrder::Unusual3412 => 1,
    };
    let n = haystack.len();
    let mut out: Vec<u8> = Vec::new();
    while index < n
        invariant
            n == haystack@.len(),
            1 <= chunk_size <= 4,
            spec_reduced(haystack@, opt_desc(descriptor)) == out@ + spec_sample_from(
                haystack@,
                index as int,
                chunk_size as int,
            ),
        decreases n - index,
    {
        out.push(haystack[index]);
        let ghost prev = index as int;
        if n - index < chunk_size {
            index = n;
        } else {
            index = index + chunk_size;
        }
        proof {
            assert(spec_sample_from(haystack@, prev, chunk_size as int) == seq![haystack@[prev]]
                + spec_sample_from(haystack@, index as int, chunk_size as int));
            assert(spec_reduced(haystack@, opt_desc(descriptor)) =~= out@ + spec_sample_from(
                haystack@,
                index as int,
                chunk_size as int,
            ));
        }
    }
    proof {
        assert(spec_sample_from(haystack@, index as int, chunk_size as int)
            == Seq::<u8>::empty());
        assert(out@ =~= spec_reduced(haystack@, opt_desc(descriptor)));
    }
    out
}

/// The position of the first occurrence of `needle` in `hay` at or after
/// position `i`, if any.
pub open spec fn spec_find_from(hay: Seq<char>, needle: Seq<char>, i: int) -> Option<int>
    decreases hay.len() - i + 1,
    when 0 <= i
{
    if i + needle.len() > hay.len() {
        None
    } else if hay.subrange(i, i + needle.len()) == needle {
        Some(i)
    } else {
        spec_find_from(hay, needle, i + 1)
    }
}

/// The position of the first occurrence of `needle` in `hay`, if any.
pub open spec fn spec_find(hay: Seq<char>, needle: Seq<char>) -> Option<int> {
    spec_find_from(hay, needle, 0)
}

/// True when `pat` occurs in `s` at position `i`.
fn chars_match_at(s: &Vec<char>, pat: &Vec<char>, i: usize) -> (r: bool)
    requires
        i + pat@.len() <= s@.len(),
    ensures
        r == (s@.subrange(i as int, i + pat@.len()) == pat@),
{
    let n = s.len();
    let mut j: usize = 0;
    while j < pat.len()
        invariant
            n == s@.len(),
            i + pat@.len() <= n,
            j <= pat@.len(),
            forall|k: int| 0 <= k < j ==> s@[i + k] == pat@[k],
        decreases pat@.len() - j,
    {
        if s[i + j] != pat[j] {
            proof {
                assert(s@.subrange(i as int, i + pat@.len())[j as int] != pat@[j as int]);
            }
            return false;
        }
        j = j + 1;
    }
    proof {
        assert(s@.subrange(i as int, i + pat@.len()) =~= pat@);
    }
    true
}

/// The first occurrence of `needle` in `hay`, scanning left to right.
fn find_sub(hay: &Vec<char>, needle: &Vec<char>) -> (r: Option<usize>)
    ensures
        match r {
            Some(p) => Some(p as int) == spec_find(hay@, needle@) && p + needle@.len()
                <= hay@.len(),
            None => spec_find(hay@, needle@) is None,
        },
{
    let n = hay.len();
    let m = needle.len();
    if m > n {
        return None;
    }
    if m == 0 {
        proof {
            assert(hay@.subrange(0, 0) =~= needle@);
        }
        return Some(0);
    }
    let mut i: usize = 0;
    while i <= n - m
        invariant
            n == hay@.len(),
            m == needle@.len(),
            1 <= m <= n,
            i <= n,
            spec_find(hay@, needle@) == spec_find_from(hay@, needle@, i as int),
        decreases n - i,
    {
        if chars_match_at(hay, needle, i) {
            return Some(i);
        }
        i = i + 1;
    }
    None
}

/// The first position at or after `i` whose character is not a single or
/// double quote, or the end of the text.
pub open spec fn spec_skip_quotes(text: Seq<char>, i: int) -> int
    decreases text.len() - i,
    when 0 <= i <= text.len()
{
    if i >= text.len() {
        i
    } else if text[i] == '"' || text[i] == '\'' {
        spec_skip_quotes(text, i + 1)
    } else {
        i
    }
}

/// The first position at or after `i` whose character is a single or double
/// quote, or the end of the text.
pub open spec fn spec_value_end(text: Seq<char>, i: int) -> int
    decreases text.len() - i,
    when 0 <= i <= text.len()
{
    if i >= text.len() {
        i
    } else if text[i] == '"' || text[i] == '\'' {
        i
    } else {
        spec_value_end(text, i + 1)
    }
}

/// Advances past leading quote characters.
fn skip_quotes(text: &Vec<char>, from: usize) -> (r: usize)
    requires
        from <= text@.len(),
    ensures
        r as int == spec_skip_quotes(text@, from as int),
        from <= r <= text@.len(),
{
    let n = text.len();
    let mut i = from;
    while i < n && (text[i] == '"' || text[i] == '\'')
        invariant
            n == text@.len(),
            from <= i <= n,
            spec_skip_quotes(text@, from as int) == spec_skip_quotes(text@, i as int),
        decreases n - i,
    {
        i = i + 1;
    }
    i
}

/// Advances to the next quote character or the end of the text.
fn value_end(text: &Vec<char>, from: usize) -> (r: usize)
    requires
        from <= text@.len(),
    ensures
        r as int == spec_value_end(text@, from as int),
        from <= r <= text@.len(),
{
    let n = text.len();
    let mut i = from;
    while i < n && !(text[i] == '"' || text[i] == '\'')
        invariant
            n == text@.len(),
            from <= i <= n,
            spec_value_end(text@, from as int) == spec_value_end(text@, i as int),
        decreases n - i,
    {
        i = i + 1;
    }
    i
}

/// The value that the scanner extracts for `needle` from `haystack` under
/// `descriptor`: the buffer is reduced to its logical bytes and decoded
/// permissively; if the needle occurs in the decoded text, the value is the
/// run of characters that follows it, with leading quotes skipped, up to the
/// next quote or the end of the text.
pub open spec fn spec_search(
    needle: Seq<char>,
    haystack: Seq<u8>,
    descriptor: Option<Descriptor>,
) -> Option<Seq<char>> {
    let text = lossy_of(spec_reduced(haystack, descriptor));
    match spec_find(text, needle) {
        Some(pos) => {
            let vstart = spec_skip_quotes(text, pos + needle.len());
            let vend = spec_value_end(text, vstart);
            Some(text.subrange(vstart, vend))
        },
        None => None,
    }
}

/// Searches the buffer, reduced under the descriptor's width and byte order
/// and decoded permissively, for `needle`, and returns the quoted value that
/// follows it, as `spec_search` describes.
pub fn search(needle: &str, haystack: &Vec<u8>, descriptor: Option<&Descriptor>) -> (r: Option<
    String,
>)
    ensures
        r.deep_view() == spec_search(needle@, haystack@, opt_desc(descriptor)),
{
    let reduced = reduce(haystack, descriptor);
    let text = lossy_string(&reduced);
    let text_chars = chars_of(text.as_str());
    let needle_chars = chars_of(needle);
    match find_sub(&text_chars, &needle_chars) {
        Some(pos) => {
            let nn = needle_chars.len();
            let tn = text_chars.len();
            proof {
                assert(pos + nn <= tn);
            }
            let vstart = skip_quotes(&text_chars, pos + nn);
            let vend = value_end(&text_chars, vstart);
            let value = text.as_str().substring_char(vstart, vend).to_owned();
            proof {
                assert(value@ =~= spec_search(
                    needle@,
                    haystack@,
                    opt_desc(descriptor),
                )->Some_0);
            }
            Some(value)
        },
        None => None,
    }
}

} // verus!
