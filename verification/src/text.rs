//! Encoding-name normalization and endianness back-fill: lower-casing, a
//! small fixed table of alias rewrites, and the `"utf-16"` order suffix.

use vstd::prelude::*;
use vstd::string::StrSliceExecFns;
use vstd::string::StringExecFns;

use crate::bom::ByteOrder;
use crate::bom::Descriptor;
use crate::bom::opt_desc;

verus! {

/// The Unicode lowercase mapping of a character sequence, as
/// `str::to_lowercase` computes it. It depends on the characters alone.
pub uninterp spec fn lower_of(s: Seq<char>) -> Seq<char>;

/// The lowercase form of one character in the ASCII range; characters
/// outside `'A'..='Z'` are unchanged.
pub open spec fn spec_ascii_lower(c: char) -> char {
    if 65 <= c as u32 && c as u32 <= 90 {
        ((c as u32 + 32) as u32) as char
    } else {
        c
    }
}

/// Relies on `str::to_lowercase`: the result is the Unicode lowercase
/// mapping of the input, a function of the input characters alone, and on
/// ASCII characters it agrees with the ASCII lowercase mapping.
#[verifier::external_body]
pub(crate) fn lowercase_str(s: &str) -> (r: String)
    ensures
        r@ == lower_of(s@),
        vstd::utf8::is_ascii_chars(s@) ==> r@ == s@.map_values(|c: char| spec_ascii_lower(c)),
{
    s.to_lowercase()
}

/// The characters of a string slice, collected one by one.
pub(crate) fn chars_of(s: &str) -> (r: Vec<char>)
    ensures
        r@ == s@,
{
    let n = s.unicode_len();
    let mut out: Vec<char> = Vec::with_capacity(n);
    let mut i: usize = 0;
    while i < n
        invariant
            n == s@.len(),
            i <= n,
            out@ == s@.subrange(0, i as int),
        decreases n - i,
    {
        let c = s.get_char(i);
        out.push(c);
        i = i + 1;
        proof {
            assert(out@ =~= s@.subrange(0, i as int));
        }
    }
    proof {
        assert(out@ =~= s@);
    }
    out
}

/// Character-for-character equality of two string slices.
pub(crate) fn str_eq(a: &str, b: &str) -> (r: bool)
    ensures
        r == (a@ == b@),
{
    a.to_owned() == b.to_owned()
}

/// The result of replacing every occurrence of `pat` in `s` by `rep`,
/// scanning left to right and never rescanning replaced text.
pub open spec fn spec_replace(s: Seq<char>, pat: Seq<char>, rep: Seq<char>) -> Seq<char>
    recommends
        pat.len() >= 1,
    decreases s.len(),
    when pat.len() >= 1
{
    if s.len() < pat.len() {
        s
    } else if s.subrange(0, pat.len() as int) == pat {
        if s.len() == pat.len() {
            rep
        } else {
            rep + spec_replace(s.skip(pat.len() as int), pat, rep)
        }
    } else {
        seq![s[0]] + spec_replace(s.skip(1), pat, rep)
    }
}

/// True when `pat` occurs in `s` starting at position `i`.
fn match_here(s: &Vec<char>, pat: &Vec<char>, i: usize) -> (r: bool)
    requires
        i <= s.len(),
    ensures
        r == (i + pat@.len() <= s@.len() && s@.subrange(i as int, i + pat@.len()) == pat@),
{
    let n = s.len();
    if n - i < pat.len() {
        return false;
    }
    let mut j: usize = 0;
    while j < pat.len()
        invariant
            n == s@.len(),
            i + pat@.len() <= n,
            j <= pat@.len(),
            forall|k: int| 0 <= k < j ==> s@[i + k] == pat@[k],
        decreases pat@.len() - j,
    {
        if s[i + j] != pat[j] {
            proof {
                assert(s@.subrange(i as int, i + pat@.len())[j as int] != pat@[j as int]);
            }
            return false;
        }
        j = j + 1;
    }
    proof {
        assert(s@.subrange(i as int, i + pat@.len()) =~= pat@);
    }
    true
}

/// Replaces every occurrence of `pat` in `s` by `rep`, left to right.
fn replace_all(s: &str, pat: &str, rep: &str) -> (r: String)
    requires
        pat@.len() >= 1,
    ensures
        r@ == spec_replace(s@, pat@, rep@),
{
    let sc = chars_of(s);
    let pc = chars_of(pat);
    let mut out = String::new();
    let mut i: usize = 0;
    proof {
        assert(s@.skip(0) =~= s@);
    }
    while i < sc.len()
        invariant
            sc@ == s@,
            pc@ == pat@,
            pat@.len() >= 1,
            i <= sc.len(),
            spec_replace(s@, pat@, rep@) == out@ + spec_replace(s@.skip(i as int), pat@, rep@),
        decreases sc@.len() - i,
    {
        let ghost prev = i as int;
        let ghost rest = s@.skip(prev);
        if match_here(&sc, &pc, i) {
            out.append(rep);
            i = i + pc.len();
            proof {
                assert(rest.len() >= pat@.len());
                assert(rest.subrange(0, pat@.len() as int) =~= s@.subrange(
                    prev,
                    prev + pat@.len(),
                ));
                if rest.len() == pat@.len() {
                    assert(spec_replace(rest, pat@, rep@) == rep@);
                    assert(s@.skip(i as int) =~= Seq::<char>::empty());
                    assert(spec_replace(s@.skip(i as int), pat@, rep@) =~= Seq::<char>::empty());
                } else {
                    assert(rest.skip(pat@.len() as int) =~= s@.skip(i as int));
                    assert(spec_replace(rest, pat@, rep@) == rep@ + spec_replace(
                        s@.skip(i as int),
                        pat@,
                        rep@,
                    ));
                }
                assert(spec_replace(s@, pat@, rep@) =~= out@ + spec_replace(
                    s@.skip(i as int),
                    pat@,
                    rep@,
                ));
            }
        } else {
            let one = s.substring_char(i, i + 1);
            out.append(one);
            i = i + 1;
            proof {
                assert(rest.len() >= 1);
                if rest.len() >= pat@.len() {
                    assert(rest.subrange(0, pat@.len() as int) =~= s@.subrange(
                        prev,
                        prev + pat@.len(),
                    ));
                    assert(rest.subrange(0, pat@.len() as int) != pat@);
                }
                assert(rest[0] == s@[prev]);
                assert(one@ =~= seq![rest[0]]);
                assert(rest.skip(1) =~= s@.skip(i as int));
                assert(spec_replace(rest, pat@, rep@) == seq![rest[0]] + spec_replace(
                    s@.skip(i as int),
                    pat@,
                    rep@,
                ));
                assert(spec_replace(s@, pat@, rep@) =~= out@ + spec_replace(
                    s@.skip(i as int),
                    pat@,
                    rep@,
                ));
            }
        }
    }
    proof {
        assert(s@.skip(sc@.len() as int) =~= Seq::<char>::empty());
        assert(spec_replace(Seq::<char>::empty(), pat@, rep@) == Seq::<char>::empty());
        assert(out@ =~= spec_replace(s@, pat@, rep@));
    }
    out
}

/// The normalized form of an encoding name: the Unicode lowercase of the
/// name, with the aliases `us-ascii`, `utf8` and `shift-jis` rewritten to
/// `ascii`, `utf-8` and `shift_jis`.
pub open spec fn spec_normalise(s: Seq<char>) -> Seq<char> {
    spec_replace(
        spec_replace(spec_replace(lower_of(s), "us-ascii"@, "ascii"@), "utf8"@, "utf-8"@),
        "shift-jis"@,
        "shift_jis"@,
    )
}

/// Lower-cases an encoding name and canonicalizes the known aliases, as
/// `spec_normalise` describes.
pub fn normalise(encoding: &str) -> (r: String)
    ensures
        r@ == spec_normalise(encoding@),
{
    proof {
        reveal_strlit("us-ascii");
        reveal_strlit("utf8");
        reveal_strlit("shift-jis");
    }
    let low = lowercase_str(encoding);
    let r1 = replace_all(low.as_str(), "us-ascii", "ascii");
    let r2 = replace_all(r1.as_str(), "utf8", "utf-8");
    let r3 = replace_all(r2.as_str(), "shift-jis", "shift_jis");
    r3
}

/// The endianness back-fill: a bare `"utf-16"` name combined with a
/// descriptor that pins down a little- or big-endian order gains the
/// matching `"le"` or `"be"` suffix; every other name, and every other
/// order, passes through unchanged.
pub open spec fn spec_endianify(s: Seq<char>, descriptor: Option<Descriptor>) -> Seq<char> {
    let order = match descriptor {
        Some(d) => d.2,
        None => ByteOrder::NotApplicable,
    };
    if s == "utf-16"@ {
        match order {
            ByteOrder::LittleEndian => "utf-16le"@,
            ByteOrder::BigEndian => "utf-16be"@,
            _ => s,
        }
    } else {
        s
    }
}

/// Appends the byte order inferred from the leading bytes to a bare
/// `"utf-16"` name, as `spec_endianify` describes.
pub fn endianify(encoding: &str, descriptor: Option<&Descriptor>) -> (r: String)
    ensures
        r@ == spec_endianify(encoding@, opt_desc(descriptor)),
{
    let order = match descriptor {
        Some(d) => d.2,
        None => ByteOrder::NotApplicable,
    };
    if str_eq(encoding, "utf-16") {
        match order {
            ByteOrder::LittleEndian => "utf-16le".to_owned(),
            ByteOrder::BigEndian => "utf-16be".to_owned(),
            _ => encoding.to_owned(),
        }
    } else {
        encoding.to_owned()
    }
}

} // verus!
