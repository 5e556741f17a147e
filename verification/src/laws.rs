//! Properties of the assembled candidate list, stated and proved over the
//! specification of the detector.

use vstd::prelude::*;
use vstd::utf8::valid_utf8;

use crate::bom::ByteOrder;
use crate::bom::Descriptor;
use crate::bom::Flavour;
use crate::bom::Width;
use crate::bom::spec_bom_name;
use crate::spec_declared;
use crate::spec_descriptor_of;
use crate::spec_detect;
use crate::spec_padded;
use crate::spec_push_unique;
use crate::spec_resolved;
use crate::text::spec_normalise;

verus! {

/// Every descriptor that the classifier assigns pairs `NotApplicable` with
/// the 8-bit width and a multi-byte width with a definite order: the width
/// and order together determine the stride and offset of the scanner.
pub proof fn lemma_classified_descriptor_wf(first: Seq<u8>)
    ensures
        match spec_descriptor_of(first) {
            Some(d) => (d.2 == ByteOrder::NotApplicable <==> d.1 == Width::EightBit),
            None => true,
        },
{
}

/// True when no two entries of the list are equal.
pub open spec fn distinct_entries(l: Seq<Seq<char>>) -> bool {
    forall|i: int, j: int| 0 <= i < j < l.len() ==> l[i] != l[j]
}

/// Appending an entry only when it is new preserves distinctness.
proof fn lemma_push_unique_distinct(l: Seq<Seq<char>>, x: Seq<char>)
    requires
        distinct_entries(l),
    ensures
        distinct_entries(spec_push_unique(l, x)),
{
    if !l.contains(x) {
        let r = l.push(x);
        assert forall|i: int, j: int| 0 <= i < j < r.len() implies r[i] != r[j] by {
            if j == l.len() {
                assert(r[j] == x);
                if r[i] == x {
                    assert(l[i] == x);
                    assert(l.contains(x));
                }
            }
        }
    }
}

/// Determinism: the candidate list is a function of the bytes obtained by
/// the two reads and of the hint alone, so two detections of identical input
/// return identical lists.
pub proof fn lemma_detect_deterministic(
    first: Seq<u8>,
    rest: Seq<u8>,
    hint: Option<Seq<char>>,
    r1: Seq<Seq<char>>,
    r2: Seq<Seq<char>>,
)
    requires
        r1 == spec_detect(first, rest, hint),
        r2 == spec_detect(first, rest, hint),
    ensures
        r1 == r2,
{
}

/// No duplicates: the candidate list never contains two equal entries,
/// whatever the input.
pub proof fn lemma_detect_no_duplicates(first: Seq<u8>, rest: Seq<u8>, hint: Option<Seq<char>>)
    ensures
        distinct_entries(spec_detect(first, rest, hint)),
{
    let empty = Seq::<Seq<char>>::empty();
    assert(distinct_entries(empty));
    let with_declared = match spec_declared(first, rest) {
        Some(v) => spec_push_unique(empty, spec_resolved(v, first)),
        None => empty,
    };
    match spec_declared(first, rest) {
        Some(v) => lemma_push_unique_distinct(empty, spec_resolved(v, first)),
        None => {},
    }
    let with_hint = match hint {
        Some(h) => spec_push_unique(with_declared, spec_resolved(h, first)),
        None => with_declared,
    };
    match hint {
        Some(h) => lemma_push_unique_distinct(with_declared, spec_resolved(h, first)),
        None => {},
    }
    let with_bom = match spec_bom_name(spec_descriptor_of(first)) {
        Some(name) => spec_push_unique(with_hint, name),
        None => with_hint,
    };
    match spec_bom_name(spec_descriptor_of(first)) {
        Some(name) => lemma_push_unique_distinct(with_hint, name),
        None => {},
    }
    if with_bom.len() == 0 && valid_utf8(spec_padded(rest, 512)) {
        assert(distinct_entries(with_bom.push("utf-8"@)));
    }
}

/// Priority ordering: when the buffer carries a declaration, its normalized,
/// endian-resolved name is the first candidate; the hint's normalized,
/// endian-resolved name follows immediately when it differs, and when the
/// two agree the single shared entry stands first.
pub proof fn lemma_declaration_before_hint(first: Seq<u8>, rest: Seq<u8>, h: Seq<char>)
    requires
        spec_declared(first, rest) is Some,
    ensures
        ({
            let r = spec_detect(first, rest, Some(h));
            let nd = spec_resolved(spec_declared(first, rest)->Some_0, first);
            let nh = spec_resolved(h, first);
            &&& r.len() >= 1
            &&& r[0] == nd
            &&& (nd != nh ==> r.len() >= 2 && r[1] == nh)
        }),
{
    let empty = Seq::<Seq<char>>::empty();
    let nd = spec_resolved(spec_declared(first, rest)->Some_0, first);
    let nh = spec_resolved(h, first);
    assert(!empty.contains(nd));
    let with_declared = empty.push(nd);
    assert(with_declared =~= spec_push_unique(empty, nd));
    let with_hint = spec_push_unique(with_declared, nh);
    if nd == nh {
        assert(with_declared[0] == nh);
        assert(with_declared.contains(nh));
        assert(with_hint == with_declared);
    } else {
        assert(forall|k: int| 0 <= k < with_declared.len() ==> with_declared[k] == nd);
        assert(!with_declared.contains(nh));
        assert(with_hint == with_declared.push(nh));
    }
    let with_bom = match spec_bom_name(spec_descriptor_of(first)) {
        Some(name) => spec_push_unique(with_hint, name),
        None => with_hint,
    };
    assert(with_bom.len() >= with_hint.len());
    assert(forall|k: int| 0 <= k < with_hint.len() ==> with_bom[k] == with_hint[k]);
}

/// A byte-order mark alone suffices: a stream whose leading bytes pin down a
/// UTF-16 little-endian encoding, with no in-document declaration and no
/// hint, yields exactly the candidate `utf-16le`.
pub proof fn lemma_bom_alone_utf16le(first: Seq<u8>, rest: Seq<u8>)
    requires
        spec_descriptor_of(first) == Some(
            Descriptor(Flavour::UTF, Width::SixteenBit, ByteOrder::LittleEndian),
        ),
        spec_declared(first, rest) is None,
    ensures
        spec_detect(first, rest, None) =~= seq!["utf-16le"@],
{
    let empty = Seq::<Seq<char>>::empty();
    assert(spec_bom_name(spec_descriptor_of(first)) == Some("utf-16le"@));
    assert(!empty.contains("utf-16le"@));
    assert(spec_push_unique(empty, "utf-16le"@) =~= seq!["utf-16le"@]);
}

/// UTF-8 fallback: with no recognized leading byte pattern, no declaration
/// and no hint, the result is the single candidate `utf-8` when the padded
/// buffer is valid UTF-8 text, and is empty otherwise.
pub proof fn lemma_utf8_fallback(first: Seq<u8>, rest: Seq<u8>)
    requires
        spec_descriptor_of(first) is None,
        spec_declared(first, rest) is None,
    ensures
        valid_utf8(spec_padded(rest, 512)) ==> spec_detect(first, rest, None) =~= seq!["utf-8"@],
        !valid_utf8(spec_padded(rest, 512)) ==> spec_detect(first, rest, None) =~= Seq::<
            Seq<char>,
        >::empty(),
{
    let empty = Seq::<Seq<char>>::empty();
    if valid_utf8(spec_padded(rest, 512)) {
        assert(empty.push("utf-8"@) =~= seq!["utf-8"@]);
    }
}

/// Endian back-fill: when the leading bytes pin down a UTF-16 little-endian
/// stream and the declaration normalizes to the bare name `utf-16`, the sole
/// candidate is `utf-16le` — the order learned from the byte-order mark is
/// not discarded — and the BOM contributes no second entry.
pub proof fn lemma_endian_backfill(first: Seq<u8>, rest: Seq<u8>)
    requires
        spec_descriptor_of(first) == Some(
            Descriptor(Flavour::UTF, Width::SixteenBit, ByteOrder::LittleEndian),
        ),
        spec_declared(first, rest) is Some,
        spec_normalise(spec_declared(first, rest)->Some_0) == "utf-16"@,
    ensures
        spec_detect(first, rest, None) =~= seq!["utf-16le"@],
{
    let empty = Seq::<Seq<char>>::empty();
    let nd = spec_resolved(spec_declared(first, rest)->Some_0, first);
    assert(nd == "utf-16le"@);
    assert(!empty.contains(nd));
    let with_declared = spec_push_unique(empty, nd);
    assert(with_declared =~= seq!["utf-16le"@]);
    assert(spec_bom_name(spec_descriptor_of(first)) == Some("utf-16le"@));
    assert(with_declared[0] == "utf-16le"@);
    assert(with_declared.contains("utf-16le"@));
    assert(spec_push_unique(with_declared, "utf-16le"@) == with_declared);
}

} // verus!
