//! The laws of the library: the detect/render round trip, preservation of
//! part order and content across renderings, and idempotence of the
//! transform when a name is replaced by itself.

use vstd::prelude::*;

use crate::ascii::is_separator;
use crate::ascii::lower_ok;
use crate::ascii::upper_ok;
use crate::model::case_info_valid;
use crate::model::lemma_cap_round;
use crate::model::lemma_case_round;
use crate::model::lemma_detected_none;
use crate::model::lemma_detected_only;
use crate::model::lemma_join_case_ok;
use crate::model::lemma_join_contains;
use crate::model::lemma_join_contains_sep;
use crate::model::lemma_lower_seq_props;
use crate::model::lemma_split_join;
use crate::model::lemma_style_no_sep;
use crate::model::lemma_upper_seq_props;
use crate::model::part_lower_ok;
use crate::model::part_no_sep;
use crate::model::part_upper_ok;
use crate::model::parts_lower_ok;
use crate::model::parts_upper_ok;
use crate::model::spec_case_grid;
use crate::model::spec_cap_seq;
use crate::model::spec_detect_parts;
use crate::model::spec_detected_case;
use crate::model::spec_detected_sep;
use crate::model::spec_join;
use crate::model::spec_lower_seq;
use crate::model::spec_normalize;
use crate::model::spec_raw_parts;
use crate::model::spec_render;
use crate::model::spec_sep_str;
use crate::model::spec_split;
use crate::model::spec_style_seq;
use crate::model::spec_styled_parts;
use crate::model::spec_upper_seq;
use crate::model::wf_normalized;
use crate::name::CaseInfo;
use crate::name::CaseType;
use crate::transform::spec_apply_cases;
use crate::transform::spec_replace;
use crate::transform::spec_transform;

verus! {

proof fn lemma_no_sep_not_contains(p: Seq<char>, c: char)
    requires
        part_no_sep(p),
        is_separator(c),
    ensures
        !p.contains(c),
{
    if p.contains(c) {
        let i = choose|i: int| 0 <= i < p.len() && p[i] == c;
        assert(!is_separator(p[i]));
    }
}

/// Rendering preserves the parts: it styles each part in place and joins
/// them, so the number of parts is kept, and lowercasing any styled part
/// gives the original part back. Two renderings of the same normalized name
/// can therefore differ only in separator and casing, never in the order or
/// the content of the parts.
pub proof fn lemma_render_parts_preserved(ci: CaseInfo, name: Seq<Seq<char>>)
    requires
        forall|k: int| 0 <= k < name.len() ==> part_lower_ok(#[trigger] name[k]),
    ensures
        spec_styled_parts(ci, name).len() == name.len(),
        forall|k: int|
            0 <= k < name.len() ==> spec_lower_seq(
                #[trigger] spec_styled_parts(ci, name)[k],
            ) == name[k],
        spec_render(ci, name) == spec_join(
            spec_styled_parts(ci, name),
            spec_sep_str(ci.separator),
        ),
{
    let styled = spec_styled_parts(ci, name);
    assert forall|k: int| 0 <= k < name.len() implies spec_lower_seq(#[trigger] styled[k])
        == name[k] by {
        let p = name[k];
        match ci.part_type {
            CaseType::Capitalise => {
                lemma_cap_round(p);
                assert(spec_lower_seq(spec_cap_seq(p)) == p);
            },
            CaseType::UpperCase => {
                lemma_case_round(p);
                assert(spec_lower_seq(spec_upper_seq(p)) == p);
            },
            CaseType::LowerCase => {
                lemma_lower_seq_props(p);
                lemma_lower_seq_props(spec_lower_seq(p));
                assert(spec_lower_seq(spec_lower_seq(p)) == spec_lower_seq(p));
            },
        }
    }
}

/// When detection finds no separator, the whole name is a single part, and
/// rendering it with no separator in lowercase yields exactly the lowercased
/// input.
pub proof fn lemma_detect_no_sep_lower(s: Seq<char>)
    requires
        spec_detected_sep(s) is None,
    ensures
        spec_detect_parts(s) == seq![spec_lower_seq(s)],
        spec_render(
            CaseInfo { separator: None, part_type: CaseType::LowerCase },
            spec_detect_parts(s),
        ) == spec_lower_seq(s),
{
    assert(spec_raw_parts(s) == seq![s]);
    assert(spec_detect_parts(s) =~~= seq![spec_lower_seq(s)]);
    let ci = CaseInfo { separator: None, part_type: CaseType::LowerCase };
    let styled = spec_styled_parts(ci, spec_detect_parts(s));
    lemma_lower_seq_props(s);
    lemma_lower_seq_props(spec_lower_seq(s));
    assert(styled.len() == 1);
    assert(styled[0] == spec_lower_seq(spec_lower_seq(s)));
    assert(styled[0] == spec_lower_seq(s));
    assert(spec_join(styled, spec_sep_str(None)) == styled[0]);
}

proof fn lemma_replace_self(s: Seq<char>, pat: Seq<char>)
    ensures
        spec_replace(s, pat, pat) == s,
    decreases s.len(),
{
    if pat.len() == 0 {
        if s.len() == 0 {
            assert(spec_replace(s, pat, pat) =~= s);
        } else {
            lemma_replace_self(s.drop_first(), pat);
            assert(pat + seq![s[0]] + s.drop_first() =~= s);
        }
    } else if s.len() < pat.len() {
    } else if s.take(pat.len() as int) == pat {
        lemma_replace_self(s.skip(pat.len() as int), pat);
        assert(pat + s.skip(pat.len() as int) =~= s);
    } else {
        lemma_replace_self(s.drop_first(), pat);
        assert(seq![s[0]] + s.drop_first() =~= s);
    }
}

proof fn lemma_apply_cases_self(cases: Seq<CaseInfo>, s: Seq<char>, name: Seq<Seq<char>>)
    ensures
        spec_apply_cases(cases, s, name, name) == s,
    decreases cases.len(),
{
    if cases.len() == 0 {
    } else {
        lemma_replace_self(s, spec_render(cases[0], name));
        lemma_apply_cases_self(cases.drop_first(), s, name);
    }
}

/// Transforming a text with the same name as both the old and the new name
/// leaves the text unchanged: every pass replaces a string by itself.
pub proof fn lemma_transform_identity(s: Seq<char>, name: Seq<Seq<char>>)
    ensures
        spec_transform(s, name, name) == s,
{
    lemma_apply_cases_self(spec_case_grid(), s, name);
}

/// The detect/render round trip: rendering a well-formed normalized name
/// under any convention of the grid, detecting the convention of the result,
/// and re-rendering the detected parts under the detected convention
/// reproduces the rendered string exactly. The one combination left out is a
/// multi-part name rendered with `Capitalise` and no separator: there the
/// part boundaries are lost (the rendering of `["ab","cd"]` is `AbCd`, which
/// detection reads as the single part `abcd` and re-renders as `Abcd`).
pub proof fn lemma_detect_render_round_trip(ci: CaseInfo, name: Seq<Seq<char>>)
    requires
        wf_normalized(name),
        case_info_valid(ci),
        !(ci.separator is None && ci.part_type is Capitalise && name.len() >= 2),
    ensures
        spec_render(
            spec_detected_case(spec_render(ci, name)),
            spec_detect_parts(spec_render(ci, name)),
        ) == spec_render(ci, name),
{
    let styled = spec_styled_parts(ci, name);
    let sepstr = spec_sep_str(ci.separator);
    let n = spec_render(ci, name);
    assert(n == spec_join(styled, sepstr));
    assert(styled.len() == name.len());
    assert forall|k: int|
        0 <= k < styled.len() implies part_no_sep(#[trigger] styled[k]) && styled[k].len()
        == name[k].len() by {
        lemma_style_no_sep(ci.part_type, name[k]);
    }

    // What detection finds: with a separator and at least two parts, the
    // separator is the only candidate character in the rendering and the
    // split recovers the styled parts; otherwise the rendering holds no
    // candidate character at all and is one single raw part.
    let raw = spec_raw_parts(n);
    let detected = spec_detected_sep(n);
    let multi = ci.separator is Some && name.len() >= 2;
    if multi {
        let sp = ci.separator->0;
        lemma_join_contains_sep(styled, sp);
        assert forall|c: char| is_separator(c) && c != sp implies !(#[trigger] n.contains(c)) by {
            assert forall|k: int| 0 <= k < styled.len() implies !(#[trigger] styled[k]).contains(
                c,
            ) by {
                lemma_no_sep_not_contains(styled[k], c);
            }
            assert(!seq![sp].contains(c));
            lemma_join_contains(styled, seq![sp], c);
        }
        lemma_detected_only(n, sp);
        assert(detected == Some(sp));
        assert forall|k: int| 0 <= k < styled.len() implies !(#[trigger] styled[k]).contains(
            sp,
        ) by {
            lemma_no_sep_not_contains(styled[k], sp);
        }
        lemma_split_join(styled, sp);
        assert(raw == spec_split(n, sp));
        assert(raw =~~= styled);
    } else {
        assert forall|c: char| is_separator(c) implies !(#[trigger] n.contains(c)) by {
            if name.len() == 1 {
                assert(n == styled[0]);
                lemma_no_sep_not_contains(styled[0], c);
            } else {
                assert forall|k: int|
                    0 <= k < styled.len() implies !(#[trigger] styled[k]).contains(c) by {
                    lemma_no_sep_not_contains(styled[k], c);
                }
                assert(!Seq::<char>::empty().contains(c));
                assert(sepstr == Seq::<char>::empty());
                lemma_join_contains(styled, sepstr, c);
            }
        }
        lemma_detected_none(n);
        assert(detected is None);
        assert(raw == seq![n]);
    }

    // Candidate separator characters are not letters, so they pass both case
    // checks.
    assert(upper_ok(' ') && lower_ok(' '));
    assert forall|c: char| is_separator(c) implies upper_ok(c) && lower_ok(c) by {}

    // Per raw part, applying the detected style to the lowercased part gives
    // the raw part back, whichever of the three styles classification picks.
    let style2 = spec_style_of_raw(n);
    let renorm = spec_normalize(raw);
    let restyled = spec_styled_parts(spec_detected_case(n), renorm);
    assert(restyled.len() == raw.len());
    if parts_upper_ok(raw) {
        assert(style2 is UpperCase);
        assert forall|j: int| 0 <= j < raw.len() implies #[trigger] restyled[j] == raw[j] by {
            lemma_case_round(raw[j]);
            assert(restyled[j] == spec_upper_seq(spec_lower_seq(raw[j])));
        }
    } else if parts_lower_ok(raw) {
        assert(style2 is LowerCase);
        assert forall|j: int| 0 <= j < raw.len() implies #[trigger] restyled[j] == raw[j] by {
            lemma_lower_seq_props(raw[j]);
            lemma_lower_seq_props(spec_lower_seq(raw[j]));
            assert(restyled[j] == spec_lower_seq(spec_lower_seq(raw[j])));
        }
    } else {
        assert(style2 is Capitalise);
        // Only a `Capitalise` rendering can classify as `Capitalise`: an
        // uppercase rendering has no lowercase letter anywhere and a
        // lowercase rendering no uppercase letter anywhere.
        if ci.part_type is UpperCase {
            assert forall|k: int| 0 <= k < styled.len() implies part_upper_ok(
                #[trigger] styled[k],
            ) by {
                lemma_upper_seq_props(name[k]);
            }
            if multi {
                assert(parts_upper_ok(raw));
            } else if name.len() == 1 {
                assert(part_upper_ok(n));
                assert(parts_upper_ok(raw));
            } else {
                assert(part_upper_ok(sepstr));
                lemma_join_case_ok(styled, sepstr);
                assert(part_upper_ok(n));
                assert(parts_upper_ok(raw));
            }
            assert(false);
        }
        if ci.part_type is LowerCase {
            assert forall|k: int| 0 <= k < styled.len() implies part_lower_ok(
                #[trigger] styled[k],
            ) by {
                lemma_lower_seq_props(name[k]);
            }
            if multi {
                assert(parts_lower_ok(raw));
            } else if name.len() == 1 {
                assert(part_lower_ok(n));
                assert(parts_lower_ok(raw));
            } else {
                assert(part_lower_ok(sepstr));
                lemma_join_case_ok(styled, sepstr);
                assert(part_lower_ok(n));
                assert(parts_lower_ok(raw));
            }
            assert(false);
        }
        assert(ci.part_type is Capitalise);
        assert(name.len() == 1 || ci.separator is Some);
        assert forall|j: int| 0 <= j < raw.len() implies #[trigger] restyled[j] == raw[j] by {
            assert(raw[j] == spec_cap_seq(name[j]));
            lemma_cap_round(name[j]);
            assert(restyled[j] == spec_cap_seq(spec_lower_seq(raw[j])));
        }
    }
    assert(restyled =~~= raw);

    // Re-rendering joins the unchanged raw parts with the detected
    // separator, which is exactly the rendered string.
    if multi {
        assert(spec_sep_str(detected) == sepstr);
        assert(spec_join(raw, sepstr) == n);
    } else {
        assert(spec_join(raw, spec_sep_str(detected)) == raw[0]);
        assert(raw[0] == n);
    }
}

/// The style classification of the raw parts of `s`.
spec fn spec_style_of_raw(s: Seq<char>) -> CaseType {
    crate::model::spec_style_of(spec_raw_parts(s))
}

} // verus!
