//! The mathematical model of the library: separator detection, splitting and
//! joining, per-part capitalization, style classification, and rendering, all
//! as functions over sequences of characters, together with the lemmas that
//! relate them.

use vstd::prelude::*;

use crate::ascii::is_separator;
use crate::ascii::lemma_to_lower_props;
use crate::ascii::lemma_to_upper_props;
use crate::ascii::lower_ok;
use crate::ascii::spec_to_lower;
use crate::ascii::spec_to_upper;
use crate::ascii::upper_ok;
use crate::name::CaseInfo;
use crate::name::CaseType;

verus! {

/// The separator that detection infers for `s`: the first of the candidate
/// characters `' '`, `'_'`, `'-'`, `'.'`, `'/'`, in that priority order, that
/// occurs anywhere in `s`, or `None` if none occurs.
pub open spec fn spec_detected_sep(s: Seq<char>) -> Option<char> {
    if s.contains(' ') {
        Some(' ')
    } else if s.contains('_') {
        Some('_')
    } else if s.contains('-') {
        Some('-')
    } else if s.contains('.') {
        Some('.')
    } else if s.contains('/') {
        Some('/')
    } else {
        None
    }
}

/// Splitting `s` at every occurrence of `sep`, keeping empty pieces, exactly
/// as iterating a standard character split does. The result always has at
/// least one element; splitting the empty string yields one empty piece.
pub open spec fn spec_split(s: Seq<char>, sep: char) -> Seq<Seq<char>>
    decreases s.len(),
{
    if s.len() == 0 {
        seq![Seq::<char>::empty()]
    } else if s[0] == sep {
        seq![Seq::<char>::empty()] + spec_split(s.drop_first(), sep)
    } else {
        let rest = spec_split(s.drop_first(), sep);
        seq![seq![s[0]] + rest[0]] + rest.drop_first()
    }
}

/// Joining parts with a separator string: the concatenation
/// `parts[0] + sep + parts[1] + sep + ... + parts[n-1]`.
pub open spec fn spec_join(parts: Seq<Seq<char>>, sep: Seq<char>) -> Seq<char>
    decreases parts.len(),
{
    if parts.len() == 0 {
        Seq::<char>::empty()
    } else if parts.len() == 1 {
        parts[0]
    } else {
        parts[0] + sep + spec_join(parts.drop_first(), sep)
    }
}

/// Every character of `p` uppercased.
pub open spec fn spec_upper_seq(p: Seq<char>) -> Seq<char> {
    p.map_values(|c: char| spec_to_upper(c))
}

/// Every character of `p` lowercased.
pub open spec fn spec_lower_seq(p: Seq<char>) -> Seq<char> {
    p.map_values(|c: char| spec_to_lower(c))
}

/// The first character of `p` uppercased, the remainder lowercased.
pub open spec fn spec_cap_seq(p: Seq<char>) -> Seq<char> {
    if p.len() == 0 {
        p
    } else {
        seq![spec_to_upper(p[0])] + spec_lower_seq(p.drop_first())
    }
}

/// One part transformed under a capitalization style.
pub open spec fn spec_style_seq(t: CaseType, p: Seq<char>) -> Seq<char> {
    match t {
        CaseType::Capitalise => spec_cap_seq(p),
        CaseType::UpperCase => spec_upper_seq(p),
        CaseType::LowerCase => spec_lower_seq(p),
    }
}

/// The string a separator choice contributes between two parts.
pub open spec fn spec_sep_str(sep: Option<char>) -> Seq<char> {
    match sep {
        Some(c) => seq![c],
        None => Seq::<char>::empty(),
    }
}

/// Each part transformed under the convention's capitalization style.
pub open spec fn spec_styled_parts(ci: CaseInfo, parts: Seq<Seq<char>>) -> Seq<Seq<char>> {
    parts.map_values(|p: Seq<char>| spec_style_seq(ci.part_type, p))
}

/// A name rendered under one convention: the styled parts joined with the
/// convention's separator.
pub open spec fn spec_render(ci: CaseInfo, parts: Seq<Seq<char>>) -> Seq<char> {
    spec_join(spec_styled_parts(ci, parts), spec_sep_str(ci.separator))
}

/// Rendering succeeds: the `Capitalise` style needs the first character of
/// each part, so every part must be non-empty under it.
pub open spec fn spec_render_ok(ci: CaseInfo, parts: Seq<Seq<char>>) -> bool {
    ci.part_type is Capitalise ==> forall|k: int|
        0 <= k < parts.len() ==> (#[trigger] parts[k]).len() > 0
}

/// No character of `p` is a lowercase letter.
pub open spec fn part_upper_ok(p: Seq<char>) -> bool {
    forall|i: int| 0 <= i < p.len() ==> upper_ok(#[trigger] p[i])
}

/// No character of `p` is an uppercase letter.
pub open spec fn part_lower_ok(p: Seq<char>) -> bool {
    forall|i: int| 0 <= i < p.len() ==> lower_ok(#[trigger] p[i])
}

/// No character of `p` is a candidate separator.
pub open spec fn part_no_sep(p: Seq<char>) -> bool {
    forall|i: int| 0 <= i < p.len() ==> !is_separator(#[trigger] p[i])
}

pub open spec fn parts_upper_ok(ps: Seq<Seq<char>>) -> bool {
    forall|k: int| 0 <= k < ps.len() ==> part_upper_ok(#[trigger] ps[k])
}

pub open spec fn parts_lower_ok(ps: Seq<Seq<char>>) -> bool {
    forall|k: int| 0 <= k < ps.len() ==> part_lower_ok(#[trigger] ps[k])
}

/// Style classification of raw parts: all-uppercase wins, then
/// all-lowercase, and everything else is `Capitalise`. Parts without
/// alphabetic characters satisfy both of the first two checks vacuously, so
/// an entirely non-alphabetic name classifies as `UpperCase`.
pub open spec fn spec_style_of(ps: Seq<Seq<char>>) -> CaseType {
    if parts_upper_ok(ps) {
        CaseType::UpperCase
    } else if parts_lower_ok(ps) {
        CaseType::LowerCase
    } else {
        CaseType::Capitalise
    }
}

/// The raw (not yet lowercased) parts detection extracts from `s`.
pub open spec fn spec_raw_parts(s: Seq<char>) -> Seq<Seq<char>> {
    match spec_detected_sep(s) {
        Some(sep) => spec_split(s, sep),
        None => seq![s],
    }
}

/// Each part lowercased.
pub open spec fn spec_normalize(ps: Seq<Seq<char>>) -> Seq<Seq<char>> {
    ps.map_values(|p: Seq<char>| spec_lower_seq(p))
}

/// The convention detection infers for `s`.
pub open spec fn spec_detected_case(s: Seq<char>) -> CaseInfo {
    CaseInfo { separator: spec_detected_sep(s), part_type: spec_style_of(spec_raw_parts(s)) }
}

/// The normalized parts detection extracts from `s`.
pub open spec fn spec_detect_parts(s: Seq<char>) -> Seq<Seq<char>> {
    spec_normalize(spec_raw_parts(s))
}

/// A well-formed normalized name: at least one part, every part non-empty,
/// and no part holding an uppercase letter or a separator character.
pub open spec fn wf_normalized(name: Seq<Seq<char>>) -> bool {
    &&& name.len() >= 1
    &&& forall|k: int| 0 <= k < name.len() ==> (#[trigger] name[k]).len() >= 1
    &&& forall|k: int| 0 <= k < name.len() ==> part_lower_ok(#[trigger] name[k]) && part_no_sep(name[k])
}

/// Every part of the name is non-empty.
pub open spec fn spec_parts_nonempty(ps: Seq<Seq<char>>) -> bool {
    forall|k: int| 0 <= k < ps.len() ==> (#[trigger] ps[k]).len() > 0
}

/// The fixed grid of the eighteen rendering conventions, in the order the
/// transform applies them: each style in turn, and under each style first no
/// separator and then the five candidate separators in priority order.
pub open spec fn spec_case_grid() -> Seq<CaseInfo> {
    seq![
        CaseInfo { separator: None, part_type: CaseType::Capitalise },
        CaseInfo { separator: Some(' '), part_type: CaseType::Capitalise },
        CaseInfo { separator: Some('_'), part_type: CaseType::Capitalise },
        CaseInfo { separator: Some('-'), part_type: CaseType::Capitalise },
        CaseInfo { separator: Some('.'), part_type: CaseType::Capitalise },
        CaseInfo { separator: Some('/'), part_type: CaseType::Capitalise },
        CaseInfo { separator: None, part_type: CaseType::UpperCase },
        CaseInfo { separator: Some(' '), part_type: CaseType::UpperCase },
        CaseInfo { separator: Some('_'), part_type: CaseType::UpperCase },
        CaseInfo { separator: Some('-'), part_type: CaseType::UpperCase },
        CaseInfo { separator: Some('.'), part_type: CaseType::UpperCase },
        CaseInfo { separator: Some('/'), part_type: CaseType::UpperCase },
        CaseInfo { separator: None, part_type: CaseType::LowerCase },
        CaseInfo { separator: Some(' '), part_type: CaseType::LowerCase },
        CaseInfo { separator: Some('_'), part_type: CaseType::LowerCase },
        CaseInfo { separator: Some('-'), part_type: CaseType::LowerCase },
        CaseInfo { separator: Some('.'), part_type: CaseType::LowerCase },
        CaseInfo { separator: Some('/'), part_type: CaseType::LowerCase },
    ]
}

/// The first piece of a split, extended at the front.
pub open spec fn prepend_first(p: Seq<char>, ps: Seq<Seq<char>>) -> Seq<Seq<char>>
    recommends
        ps.len() >= 1,
{
    seq![p + ps[0]] + ps.drop_first()
}

/// A convention out of the fixed grid: its separator, if any, is one of the
/// five candidate characters.
pub open spec fn case_info_valid(ci: CaseInfo) -> bool {
    match ci.separator {
        Some(c) => is_separator(c),
        None => true,
    }
}

// ---------------------------------------------------------------------------
// Lemmas about splitting and joining.
// ---------------------------------------------------------------------------

pub proof fn lemma_split_len(s: Seq<char>, sep: char)
    ensures
        spec_split(s, sep).len() >= 1,
    decreases s.len(),
{
    if s.len() == 0 {
    } else {
        lemma_split_len(s.drop_first(), sep);
    }
}

pub proof fn lemma_concat_contains(a: Seq<char>, b: Seq<char>, c: char)
    ensures
        (a + b).contains(c) <==> a.contains(c) || b.contains(c),
{
    if a.contains(c) {
        let i = choose|i: int| 0 <= i < a.len() && a[i] == c;
        assert((a + b)[i] == c);
    }
    if b.contains(c) {
        let i = choose|i: int| 0 <= i < b.len() && b[i] == c;
        assert((a + b)[a.len() + i] == c);
    }
    if (a + b).contains(c) {
        let i = choose|i: int| 0 <= i < (a + b).len() && (a + b)[i] == c;
        if i < a.len() {
            assert(a[i] == c);
        } else {
            assert(b[i - a.len()] == c);
        }
    }
}

pub proof fn lemma_split_no_sep(s: Seq<char>, sep: char)
    requires
        !s.contains(sep),
    ensures
        spec_split(s, sep) =~~= seq![s],
    decreases s.len(),
{
    if s.len() == 0 {
        assert(spec_split(s, sep) =~~= seq![s]);
    } else {
        assert(s[0] != sep);
        assert(!s.drop_first().contains(sep)) by {
            if s.drop_first().contains(sep) {
                let i = choose|i: int| 0 <= i < s.drop_first().len() && s.drop_first()[i] == sep;
                assert(s[i + 1] == sep);
            }
        }
        lemma_split_no_sep(s.drop_first(), sep);
        assert(spec_split(s, sep) =~~= seq![s]);
    }
}

pub proof fn lemma_split_prepend(u: Seq<char>, sep: char, v: Seq<char>)
    requires
        !u.contains(sep),
    ensures
        spec_split(u + seq![sep] + v, sep) =~~= seq![u] + spec_split(v, sep),
    decreases u.len(),
{
    let s = u + seq![sep] + v;
    lemma_split_len(v, sep);
    if u.len() == 0 {
        assert(s[0] == sep);
        assert(s.drop_first() =~= v);
        assert(spec_split(s, sep) =~~= seq![u] + spec_split(v, sep));
    } else {
        assert(s[0] == u[0]);
        assert(u[0] != sep);
        assert(!u.drop_first().contains(sep)) by {
            if u.drop_first().contains(sep) {
                let i = choose|i: int| 0 <= i < u.drop_first().len() && u.drop_first()[i] == sep;
                assert(u[i + 1] == sep);
            }
        }
        assert(s.drop_first() =~= u.drop_first() + seq![sep] + v);
        lemma_split_prepend(u.drop_first(), sep, v);
        let rest = spec_split(s.drop_first(), sep);
        assert(rest =~~= seq![u.drop_first()] + spec_split(v, sep));
        assert(rest[0] == u.drop_first());
        assert(rest.drop_first() =~~= spec_split(v, sep));
        assert(seq![s[0]] + rest[0] =~= u);
        assert(spec_split(s, sep) =~~= seq![u] + spec_split(v, sep));
    }
}

pub proof fn lemma_split_join(ps: Seq<Seq<char>>, sep: char)
    requires
        ps.len() >= 1,
        forall|k: int| 0 <= k < ps.len() ==> !(#[trigger] ps[k]).contains(sep),
    ensures
        spec_split(spec_join(ps, seq![sep]), sep) =~~= ps,
    decreases ps.len(),
{
    if ps.len() == 1 {
        lemma_split_no_sep(ps[0], sep);
        assert(spec_join(ps, seq![sep]) == ps[0]);
        assert(spec_split(ps[0], sep) =~~= seq![ps[0]]);
        assert(seq![ps[0]] =~~= ps);
    } else {
        let tail = ps.drop_first();
        assert(forall|k: int|
            0 <= k < tail.len() ==> !(#[trigger] tail[k]).contains(sep)) by {
            assert(forall|k: int| 0 <= k < tail.len() ==> tail[k] == ps[k + 1]);
        }
        lemma_split_join(tail, sep);
        assert(spec_join(ps, seq![sep]) == ps[0] + seq![sep] + spec_join(tail, seq![sep]));
        lemma_split_prepend(ps[0], sep, spec_join(tail, seq![sep]));
        assert(spec_split(spec_join(ps, seq![sep]), sep) =~~= seq![ps[0]] + tail);
        assert(seq![ps[0]] + tail =~~= ps);
    }
}

/// Appending one more part to a join appends one separator and the part.
pub proof fn lemma_join_push(ps: Seq<Seq<char>>, sep: Seq<char>, p: Seq<char>)
    requires
        ps.len() >= 1,
    ensures
        spec_join(ps.push(p), sep) =~= spec_join(ps, sep) + sep + p,
    decreases ps.len(),
{
    if ps.len() == 1 {
        assert(ps.push(p).drop_first() =~~= seq![p]);
        assert(spec_join(ps.push(p), sep) == ps[0] + sep + spec_join(seq![p], sep));
    } else {
        assert(ps.push(p).drop_first() =~~= ps.drop_first().push(p));
        lemma_join_push(ps.drop_first(), sep, p);
        assert(spec_join(ps.push(p), sep) == ps[0] + sep + spec_join(ps.drop_first().push(p), sep));
    }
}

/// A character occurs in a join only if it occurs in a part or, when there
/// are at least two parts, in the separator string.
pub proof fn lemma_join_contains(ps: Seq<Seq<char>>, sep: Seq<char>, c: char)
    requires
        forall|k: int| 0 <= k < ps.len() ==> !(#[trigger] ps[k]).contains(c),
        !sep.contains(c),
    ensures
        !spec_join(ps, sep).contains(c),
    decreases ps.len(),
{
    if ps.len() == 0 {
    } else if ps.len() == 1 {
        assert(spec_join(ps, sep) == ps[0]);
    } else {
        let tail = ps.drop_first();
        assert(forall|k: int|
            0 <= k < tail.len() ==> !(#[trigger] tail[k]).contains(c)) by {
            assert(forall|k: int| 0 <= k < tail.len() ==> tail[k] == ps[k + 1]);
        }
        lemma_join_contains(tail, sep, c);
        lemma_concat_contains(ps[0], sep, c);
        lemma_concat_contains(ps[0] + sep, spec_join(tail, sep), c);
    }
}

/// A join of at least two parts contains its separator character.
pub proof fn lemma_join_contains_sep(ps: Seq<Seq<char>>, sep: char)
    requires
        ps.len() >= 2,
    ensures
        spec_join(ps, seq![sep]).contains(sep),
{
    let j = spec_join(ps, seq![sep]);
    assert(j == ps[0] + seq![sep] + spec_join(ps.drop_first(), seq![sep]));
    assert(j[ps[0].len() as int] == sep);
}

// ---------------------------------------------------------------------------
// Lemmas about detection of the separator.
// ---------------------------------------------------------------------------

/// If `s` holds the separator `sep` and no other candidate separator,
/// detection finds exactly `sep`.
pub proof fn lemma_detected_only(s: Seq<char>, sep: char)
    requires
        is_separator(sep),
        s.contains(sep),
        forall|c: char| is_separator(c) && c != sep ==> !(#[trigger] s.contains(c)),
    ensures
        spec_detected_sep(s) == Some(sep),
{
    if sep != ' ' {
        assert(!s.contains(' '));
    }
    if sep != '_' {
        assert(!s.contains('_'));
    }
    if sep != '-' {
        assert(!s.contains('-'));
    }
    if sep != '.' {
        assert(!s.contains('.'));
    }
    if sep != '/' {
        assert(!s.contains('/'));
    }
}

/// If `s` holds no candidate separator, detection finds none.
pub proof fn lemma_detected_none(s: Seq<char>)
    requires
        forall|c: char| is_separator(c) ==> !(#[trigger] s.contains(c)),
    ensures
        spec_detected_sep(s) is None,
{
    assert(!s.contains(' '));
    assert(!s.contains('_'));
    assert(!s.contains('-'));
    assert(!s.contains('.'));
    assert(!s.contains('/'));
}

// ---------------------------------------------------------------------------
// Lemmas about per-part styling.
// ---------------------------------------------------------------------------

pub proof fn lemma_lower_seq_props(p: Seq<char>)
    ensures
        spec_lower_seq(p).len() == p.len(),
        part_lower_ok(spec_lower_seq(p)),
        part_lower_ok(p) ==> spec_lower_seq(p) =~= p,
        part_no_sep(p) ==> part_no_sep(spec_lower_seq(p)),
{
    assert forall|i: int| 0 <= i < p.len() implies lower_ok(#[trigger] spec_lower_seq(p)[i])
        && (part_lower_ok(p) ==> spec_lower_seq(p)[i] == p[i])
        && (part_no_sep(p) ==> !is_separator(spec_lower_seq(p)[i])) by {
        lemma_to_lower_props(p[i]);
    }
}

pub proof fn lemma_upper_seq_props(p: Seq<char>)
    ensures
        spec_upper_seq(p).len() == p.len(),
        part_upper_ok(spec_upper_seq(p)),
        part_upper_ok(p) ==> spec_upper_seq(p) =~= p,
        part_no_sep(p) ==> part_no_sep(spec_upper_seq(p)),
{
    assert forall|i: int| 0 <= i < p.len() implies upper_ok(#[trigger] spec_upper_seq(p)[i])
        && (part_upper_ok(p) ==> spec_upper_seq(p)[i] == p[i])
        && (part_no_sep(p) ==> !is_separator(spec_upper_seq(p)[i])) by {
        lemma_to_upper_props(p[i]);
    }
}

/// Lowercasing undoes uppercasing on a part without uppercase letters, and
/// uppercasing undoes lowercasing on a part without lowercase letters.
pub proof fn lemma_case_round(p: Seq<char>)
    ensures
        part_lower_ok(p) ==> spec_lower_seq(spec_upper_seq(p)) =~= p,
        part_upper_ok(p) ==> spec_upper_seq(spec_lower_seq(p)) =~= p,
{
    assert forall|i: int| 0 <= i < p.len() implies (part_lower_ok(p)
        ==> spec_lower_seq(spec_upper_seq(p))[i] == p[i]) && (part_upper_ok(p)
        ==> spec_upper_seq(spec_lower_seq(p))[i] == p[i]) by {
        lemma_to_upper_props(p[i]);
        lemma_to_lower_props(p[i]);
    }
}

/// On a part without uppercase letters, lowercasing undoes capitalization.
pub proof fn lemma_cap_round(p: Seq<char>)
    requires
        part_lower_ok(p),
    ensures
        spec_lower_seq(spec_cap_seq(p)) =~= p,
{
    if p.len() == 0 {
    } else {
        let q = spec_cap_seq(p);
        lemma_to_upper_props(p[0]);
        lemma_to_lower_props(p[0]);
        assert forall|i: int| 0 <= i < p.len() implies spec_lower_seq(q)[i] == p[i] by {
            if i == 0 {
                assert(q[0] == spec_to_upper(p[0]));
            } else {
                assert(q[i] == spec_to_lower(p[i - 1 + 1]));
                lemma_to_lower_props(p[i]);
            }
        }
    }
}

/// Styling never changes a part's length and never introduces or removes a
/// separator character.
pub proof fn lemma_style_no_sep(t: CaseType, p: Seq<char>)
    requires
        part_no_sep(p),
    ensures
        spec_style_seq(t, p).len() == p.len(),
        part_no_sep(spec_style_seq(t, p)),
{
    let q = spec_style_seq(t, p);
    match t {
        CaseType::Capitalise => {
            if p.len() == 0 {
            } else {
                lemma_to_upper_props(p[0]);
                assert forall|i: int| 0 <= i < q.len() implies !is_separator(#[trigger] q[i]) by {
                    if i == 0 {
                    } else {
                        assert(q[i] == spec_to_lower(p[i - 1 + 1]));
                        lemma_to_lower_props(p[i]);
                    }
                }
            }
        },
        CaseType::UpperCase => {
            lemma_upper_seq_props(p);
        },
        CaseType::LowerCase => {
            lemma_lower_seq_props(p);
        },
    }
}

/// A join of parts that all pass a case check passes it as a whole, provided
/// the separator string passes it too.
pub proof fn lemma_join_case_ok(ps: Seq<Seq<char>>, sep: Seq<char>)
    ensures
        parts_upper_ok(ps) && part_upper_ok(sep) ==> part_upper_ok(spec_join(ps, sep)),
        parts_lower_ok(ps) && part_lower_ok(sep) ==> part_lower_ok(spec_join(ps, sep)),
    decreases ps.len(),
{
    if ps.len() <= 1 {
    } else {
        let tail = ps.drop_first();
        assert(forall|k: int| 0 <= k < tail.len() ==> tail[k] == ps[k + 1]);
        lemma_join_case_ok(tail, sep);
        let j = spec_join(ps, sep);
        assert(j == ps[0] + sep + spec_join(tail, sep));
        if parts_upper_ok(ps) && part_upper_ok(sep) {
            assert(part_upper_ok(ps[0]));
            assert forall|i: int| 0 <= i < j.len() implies upper_ok(#[trigger] j[i]) by {
                let a = ps[0].len() as int;
                let b = a + sep.len() as int;
                if i < a {
                    assert(j[i] == ps[0][i]);
                } else if i < b {
                    assert(j[i] == sep[i - a]);
                } else {
                    assert(j[i] == spec_join(tail, sep)[i - b]);
                }
            }
        }
        if parts_lower_ok(ps) && part_lower_ok(sep) {
            assert(part_lower_ok(ps[0]));
            assert forall|i: int| 0 <= i < j.len() implies lower_ok(#[trigger] j[i]) by {
                let a = ps[0].len() as int;
                let b = a + sep.len() as int;
                if i < a {
                    assert(j[i] == ps[0][i]);
                } else if i < b {
                    assert(j[i] == sep[i - a]);
                } else {
                    assert(j[i] == spec_join(tail, sep)[i - b]);
                }
            }
        }
    }
}

} // verus!
