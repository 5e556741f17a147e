//! Character set detection for XML and HTML byte streams.
//!
//! The detector inspects the leading bytes of a stream for a byte-order mark,
//! scans a bounded prefix for an in-document `encoding=` or `charset=`
//! declaration, optionally weighs an externally supplied hint (such as an
//! HTTP `Content-Type` charset), and returns an ordered list of candidate
//! encoding names, most confident first.
//!
//! The caller performs the two bounded reads that the detector expects — at
//! most four leading bytes, then at most 512 further bytes — and hands the
//! bytes actually obtained to [`detect`].

pub mod bom;
pub mod laws;
pub mod scan;
pub mod text;
pub mod utf8check;

use vstd::prelude::*;

use crate::bom::Bom;
use crate::bom::Descriptor;
use crate::bom::bom_name;
use crate::bom::detect_byte_order_mark;
use crate::bom::opt_desc;
use crate::bom::spec_bom_name;
use crate::bom::spec_classify;
use crate::scan::search;
use crate::scan::spec_search;
use crate::text::endianify;
use crate::text::normalise;
use crate::text::spec_endianify;
use crate::text::spec_normalise;
use crate::utf8check::is_valid_utf8;
use vstd::utf8::valid_utf8;

verus! {

/// The first `n` bytes of `s`, zero-padded when `s` is shorter than `n`.
pub open spec fn spec_padded(s: Seq<u8>, n: int) -> Seq<u8> {
    Seq::new(
        n as nat,
        |i: int|
            if i < s.len() {
                s[i]
            } else {
                0u8
            },
    )
}

/// Copies `s` into a buffer of exactly `n` bytes, zero-filling the tail that
/// `s` does not cover and dropping anything beyond `n`.
fn padded(s: &Vec<u8>, n: usize) -> (r: Vec<u8>)
    ensures
        r@ == spec_padded(s@, n as int),
{
    let mut out: Vec<u8> = Vec::with_capacity(n);
    let mut i: usize = 0;
    while i < n
        invariant
            i <= n,
            out@.len() == i,
            forall|j: int|
                0 <= j < i ==> out@[j] == (if j < s@.len() {
                    s@[j]
                } else {
                    0u8
                }),
        decreases n - i,
    {
        if i < s.len() {
            let b = s[i];
            out.push(b);
        } else {
            out.push(0);
        }
        i = i + 1;
    }
    proof {
        assert(out@ =~= spec_padded(s@, n as int));
    }
    out
}

/// `l` with `x` appended, unless `x` is already an entry of `l`.
pub open spec fn spec_push_unique(l: Seq<Seq<char>>, x: Seq<char>) -> Seq<Seq<char>> {
    if l.contains(x) {
        l
    } else {
        l.push(x)
    }
}

/// Appends `item` to `vec` unless an equal entry is already present, so the
/// list stays duplicate-free and keeps its first-seen order.
pub fn push_if_not_contains(vec: &mut Vec<String>, item: String)
    ensures
        final(vec).deep_view() == spec_push_unique(old(vec).deep_view(), item@),
{
    let n = vec.len();
    let mut i: usize = 0;
    while i < n
        invariant
            n == vec@.len(),
            i <= n,
            *vec == *old(vec),
            forall|j: int| 0 <= j < i ==> vec@[j]@ != item@,
        decreases n - i,
    {
        if vec[i] == item {
            proof {
                assert(old(vec).deep_view()[i as int] == item@);
                assert(old(vec).deep_view().contains(item@));
            }
            return ;
        }
        i = i + 1;
    }
    proof {
        assert(forall|j: int|
            0 <= j < old(vec).deep_view().len() ==> old(vec).deep_view()[j] == old(vec)@[j]@);
        assert(!old(vec).deep_view().contains(item@));
    }
    let ghost prev = vec.deep_view();
    vec.push(item);
    proof {
        assert(vec.deep_view() =~= prev.push(item@));
    }
}

/// The descriptor that the classifier assigns to the zero-padded four
/// leading bytes of the stream.
pub open spec fn spec_descriptor_of(first: Seq<u8>) -> Option<Descriptor> {
    let four = spec_padded(first, 4);
    spec_classify(four[0], four[1], four[2], four[3])
}

/// The in-document declaration value: the scan of the zero-padded buffer for
/// `encoding=`, falling back to `charset=` when the first needle misses.
pub open spec fn spec_declared(first: Seq<u8>, rest: Seq<u8>) -> Option<Seq<char>> {
    let descriptor = spec_descriptor_of(first);
    let buf = spec_padded(rest, 512);
    match spec_search("encoding="@, buf, descriptor) {
        Some(v) => Some(v),
        None => spec_search("charset="@, buf, descriptor),
    }
}

/// A declared or hinted name as it enters the candidate list: normalized,
/// then endian-resolved against the descriptor of the leading bytes.
pub open spec fn spec_resolved(name: Seq<char>, first: Seq<u8>) -> Seq<char> {
    spec_endianify(spec_normalise(name), spec_descriptor_of(first))
}

/// The ordered candidate list assembled from the padded leading bytes, the
/// padded declaration buffer, and the optional hint: the normalized and
/// endian-resolved in-document declaration first (`encoding=` searched before
/// `charset=`), then the normalized and endian-resolved hint, then the name
/// the byte-order mark pins down, each appended only when new; when all of
/// that produced nothing and the buffer is valid UTF-8, the single candidate
/// `utf-8`.
pub open spec fn spec_detect(first: Seq<u8>, rest: Seq<u8>, hint: Option<Seq<char>>) -> Seq<
    Seq<char>,
> {
    let descriptor = spec_descriptor_of(first);
    let buf = spec_padded(rest, 512);
    let with_declared = match spec_declared(first, rest) {
        Some(v) => spec_push_unique(Seq::<Seq<char>>::empty(), spec_resolved(v, first)),
        None => Seq::<Seq<char>>::empty(),
    };
    let with_hint = match hint {
        Some(h) => spec_push_unique(with_declared, spec_resolved(h, first)),
        None => with_declared,
    };
    let with_bom = match spec_bom_name(descriptor) {
        Some(name) => spec_push_unique(with_hint, name),
        None => with_hint,
    };
    if with_bom.len() == 0 && valid_utf8(buf) {
        with_bom.push("utf-8"@)
    } else {
        with_bom
    }
}

/// Detects the probable character encodings of a byte stream.
///
/// `first_bytes` holds what an initial read of at most four bytes obtained
/// and `rest_bytes` what a following read of at most 512 bytes obtained;
/// short reads are tolerated, since each buffer is zero-padded to its fixed
/// size before inspection. The optional `hint` is an encoding name received
/// alongside the text, such as the charset of an HTTP `Content-Type` header.
///
/// Returns the ordered, duplicate-free list of candidate encoding names that
/// `spec_detect` describes, most confident first, possibly empty.
pub fn detect(first_bytes: &Vec<u8>, rest_bytes: &Vec<u8>, hint: Option<String>) -> (r: Vec<
    String,
>)
    ensures
        r.deep_view() == spec_detect(first_bytes@, rest_bytes@, hint.deep_view()),
        crate::laws::distinct_entries(r.deep_view()),
{
    let ghost s_four = spec_padded(first_bytes@, 4);
    let ghost s_buf = spec_padded(rest_bytes@, 512);
    let four = padded(first_bytes, 4);
    let bom = Bom(four[0], four[1], four[2], four[3]);
    let possible_encoding = detect_byte_order_mark(&bom);
    let possible_ref = possible_encoding.as_ref();
    let ghost s_desc = spec_classify(s_four[0], s_four[1], s_four[2], s_four[3]);
    proof {
        assert(opt_desc(possible_ref) == s_desc);
    }
    let buf = padded(rest_bytes, 512);
    let mut candidates: Vec<String> = Vec::new();
    proof {
        assert(candidates.deep_view() =~= Seq::<Seq<char>>::empty());
    }

    let ghost s_declared = (match spec_search("encoding="@, s_buf, s_desc) {
        Some(v) => Some(v),
        None => spec_search("charset="@, s_buf, s_desc),
    });
    let declared = match search("encoding=", &buf, possible_ref) {
        Some(value) => Some(value),
        None => search("charset=", &buf, possible_ref),
    };
    proof {
        assert(declared.deep_view() == s_declared);
    }
    let ghost s_with_declared = (match s_declared {
        Some(v) => spec_push_unique(
            Seq::<Seq<char>>::empty(),
            spec_endianify(spec_normalise(v), s_desc),
        ),
        None => Seq::<Seq<char>>::empty(),
    });
    match declared {
        Some(value) => {
            let normalised = normalise(value.as_str());
            let resolved = endianify(normalised.as_str(), possible_ref);
            push_if_not_contains(&mut candidates, resolved);
        },
        None => {},
    }
    proof {
        assert(candidates.deep_view() == s_with_declared);
    }

    let ghost s_with_hint = (match hint.deep_view() {
        Some(h) => spec_push_unique(s_with_declared, spec_endianify(spec_normalise(h), s_desc)),
        None => s_with_declared,
    });
    match &hint {
        Some(h) => {
            let normalised = normalise(h.as_str());
            let resolved = endianify(normalised.as_str(), possible_ref);
            push_if_not_contains(&mut candidates, resolved);
        },
        None => {},
    }
    proof {
        assert(candidates.deep_view() == s_with_hint);
    }

    let ghost s_with_bom = (match spec_bom_name(s_desc) {
        Some(name) => spec_push_unique(s_with_hint, name),
        None => s_with_hint,
    });
    match bom_name(possible_ref) {
        Some(name) => push_if_not_contains(&mut candidates, name),
        None => {},
    }
    proof {
        assert(candidates.deep_view() == s_with_bom);
    }

    if candidates.len() == 0 && is_valid_utf8(&buf) {
        let ghost before = candidates.deep_view();
        candidates.push("utf-8".to_owned());
        proof {
            assert(candidates.deep_view() =~= before.push("utf-8"@));
        }
    }
    proof {
        assert(candidates.deep_view() == spec_detect(
            first_bytes@,
            rest_bytes@,
            hint.deep_view(),
        ));
        crate::laws::lemma_detect_no_duplicates(first_bytes@, rest_bytes@, hint.deep_view());
    }
    candidates
}

} // verus!
