//! Detection: inferring the rendering convention of a literal name and
//! extracting its normalized parts.

use vstd::prelude::*;

use crate::model::prepend_first;
use crate::model::spec_detect_parts;
use crate::model::spec_detected_case;
use crate::model::spec_detected_sep;
use crate::model::spec_lower_seq;
use crate::model::spec_normalize;
use crate::model::spec_raw_parts;
use crate::model::spec_split;
use crate::model::spec_style_of;
use crate::model::part_lower_ok;
use crate::model::part_upper_ok;
use crate::name::CaseInfo;
use crate::name::CaseType;
use crate::name::InvalidName;
use crate::name::NormalizedName;
use crate::ascii::to_lower_char;
use crate::strutil::contains_char;
use crate::strutil::push_char;

verus! {

/// The first candidate separator, in priority order, that occurs in `name`.
fn find_separator(name: &str) -> (r: Option<char>)
    ensures
        r == spec_detected_sep(name@),
{
    if contains_char(name, ' ') {
        Some(' ')
    } else if contains_char(name, '_') {
        Some('_')
    } else if contains_char(name, '-') {
        Some('-')
    } else if contains_char(name, '.') {
        Some('.')
    } else if contains_char(name, '/') {
        Some('/')
    } else {
        None
    }
}

/// Splits `name` at every occurrence of `sep`, keeping empty pieces.
fn split_on(name: &str, sep: char) -> (r: Vec<String>)
    ensures
        r.deep_view() == spec_split(name@, sep),
{
    let n = name.unicode_len();
    let mut out: Vec<String> = Vec::new();
    let mut cur: String = String::new();
    let mut i: usize = 0;
    proof {
        crate::model::lemma_split_len(name@, sep);
        assert(name@.skip(0) =~= name@);
        assert(out.deep_view() =~~= Seq::<Seq<char>>::empty());
        assert(prepend_first(cur@, spec_split(name@, sep)) =~~= spec_split(name@, sep));
    }
    while i < n
        invariant
            n == name@.len(),
            i <= n,
            spec_split(name@, sep) =~~= out.deep_view() + prepend_first(
                cur@,
                spec_split(name@.skip(i as int), sep),
            ),
        decreases n - i,
    {
        let ghost prev_out = out.deep_view();
        let ghost prev_cur = cur@;
        proof {
            crate::model::lemma_split_len(name@.skip(i as int + 1), sep);
            assert(name@.skip(i as int)[0] == name@[i as int]);
            assert(name@.skip(i as int).drop_first() =~= name@.skip(i as int + 1));
        }
        let c = name.get_char(i);
        if c == sep {
            out.push(cur);
            cur = String::new();
            proof {
                assert(out.deep_view() =~~= prev_out + seq![prev_cur]);
                let rest = spec_split(name@.skip(i as int + 1), sep);
                assert(spec_split(name@.skip(i as int), sep) =~~= seq![Seq::<char>::empty()]
                    + rest);
                assert(prepend_first(prev_cur, seq![Seq::<char>::empty()] + rest) =~~= seq![
                    prev_cur,
                ] + rest);
                assert(prepend_first(cur@, rest) =~~= rest);
            }
        } else {
            push_char(&mut cur, c);
            proof {
                let rest = spec_split(name@.skip(i as int + 1), sep);
                assert(spec_split(name@.skip(i as int), sep) =~~= seq![seq![c] + rest[0]]
                    + rest.drop_first());
                assert(prev_cur + (seq![c] + rest[0]) =~= cur@ + rest[0]);
                assert(prepend_first(prev_cur, spec_split(name@.skip(i as int), sep))
                    =~~= prepend_first(cur@, rest));
            }
        }
        i += 1;
    }
    proof {
        assert(name@.skip(n as int) =~= Seq::<char>::empty());
        assert(spec_split(name@.skip(n as int), sep) =~~= seq![Seq::<char>::empty()]);
        assert(prepend_first(cur@, seq![Seq::<char>::empty()]) =~~= seq![cur@]);
    }
    let ghost prev_out = out.deep_view();
    let ghost prev_cur = cur@;
    out.push(cur);
    proof {
        assert(out.deep_view() =~~= prev_out + seq![prev_cur]);
    }
    out
}

/// Whether no character of `p` is a lowercase letter.
fn part_all_upper_ok(p: &str) -> (r: bool)
    ensures
        r == part_upper_ok(p@),
{
    let n = p.unicode_len();
    let mut i: usize = 0;
    while i < n
        invariant
            n == p@.len(),
            i <= n,
            forall|j: int| 0 <= j < i ==> crate::ascii::upper_ok(#[trigger] p@[j]),
        decreases n - i,
    {
        let u = p.get_char(i) as u32;
        if 97 <= u && u <= 122 {
            return false;
        }
        i += 1;
    }
    true
}

/// Whether no character of `p` is an uppercase letter.
fn part_all_lower_ok(p: &str) -> (r: bool)
    ensures
        r == part_lower_ok(p@),
{
    let n = p.unicode_len();
    let mut i: usize = 0;
    while i < n
        invariant
            n == p@.len(),
            i <= n,
            forall|j: int| 0 <= j < i ==> crate::ascii::lower_ok(#[trigger] p@[j]),
        decreases n - i,
    {
        let u = p.get_char(i) as u32;
        if 65 <= u && u <= 90 {
            return false;
        }
        i += 1;
    }
    true
}

/// The capitalization style of the raw parts: all-uppercase wins, then
/// all-lowercase, and everything else is `Capitalise`.
fn classify(parts: &Vec<String>) -> (r: CaseType)
    ensures
        r == spec_style_of(parts.deep_view()),
{
    let mut all_upper = true;
    let mut all_lower = true;
    let mut k: usize = 0;
    while k < parts.len()
        invariant
            k <= parts.len(),
            all_upper == forall|j: int|
                0 <= j < k ==> part_upper_ok(#[trigger] parts.deep_view()[j]),
            all_lower == forall|j: int|
                0 <= j < k ==> part_lower_ok(#[trigger] parts.deep_view()[j]),
        decreases parts.len() - k,
    {
        let ghost prev_upper = all_upper;
        let ghost prev_lower = all_lower;
        if !part_all_upper_ok(parts[k].as_str()) {
            all_upper = false;
        }
        if !part_all_lower_ok(parts[k].as_str()) {
            all_lower = false;
        }
        proof {
            assert(parts.deep_view()[k as int] == parts@[k as int]@);
        }
        k += 1;
    }
    if all_upper {
        CaseType::UpperCase
    } else if all_lower {
        CaseType::LowerCase
    } else {
        CaseType::Capitalise
    }
}

/// Every character of `p` lowercased.
pub(crate) fn lower_part(p: &str) -> (r: String)
    ensures
        r@ == spec_lower_seq(p@),
{
    let n = p.unicode_len();
    let mut out = String::new();
    let mut i: usize = 0;
    while i < n
        invariant
            n == p@.len(),
            i <= n,
            out@ =~= spec_lower_seq(p@).take(i as int),
        decreases n - i,
    {
        push_char(&mut out, to_lower_char(p.get_char(i)));
        i += 1;
    }
    proof {
        assert(spec_lower_seq(p@).take(n as int) =~= spec_lower_seq(p@));
    }
    out
}

/// Each raw part lowercased, packaged as a normalized name.
fn normalize_parts(parts: &Vec<String>) -> (r: NormalizedName)
    ensures
        r@ == spec_normalize(parts.deep_view()),
{
    let mut out: Vec<String> = Vec::new();
    let mut k: usize = 0;
    while k < parts.len()
        invariant
            k <= parts.len(),
            out.deep_view() =~~= spec_normalize(parts.deep_view()).take(k as int),
        decreases parts.len() - k,
    {
        let ghost prev = out.deep_view();
        let lowered = lower_part(parts[k].as_str());
        let ghost lowered_view = lowered@;
        out.push(lowered);
        proof {
            assert(out.deep_view() =~~= prev + seq![lowered_view]);
            assert(parts.deep_view()[k as int] == parts@[k as int]@);
        }
        k += 1;
    }
    proof {
        assert(spec_normalize(parts.deep_view()).take(parts@.len() as int) =~~= spec_normalize(
            parts.deep_view(),
        ));
    }
    NormalizedName { parts: out }
}

impl CaseInfo {
    /// Infers the rendering convention of `name` and extracts its normalized
    /// parts: the first candidate separator found decides the segmentation,
    /// the case checks decide the style, and the parts are lowercased. An
    /// empty name is rejected.
    pub fn detect(name: &str) -> (r: Result<(CaseInfo, NormalizedName), InvalidName>)
        ensures
            name@.len() == 0 ==> r == Err::<(CaseInfo, NormalizedName), InvalidName>(InvalidName),
            name@.len() > 0 ==> {
                &&& r is Ok
                &&& r->Ok_0.0 == spec_detected_case(name@)
                &&& r->Ok_0.1@ == spec_detect_parts(name@)
            },
    {
        if name.unicode_len() == 0 {
            return Err(InvalidName);
        }
        let sep = find_separator(name);
        let parts: Vec<String> = match sep {
            Some(c) => split_on(name, c),
            None => {
                let mut v: Vec<String> = Vec::new();
                v.push(name.to_owned());
                proof {
                    assert(v.deep_view() =~~= seq![name@]);
                }
                v
            },
        };
        proof {
            assert(parts.deep_view() == spec_raw_parts(name@));
        }
        let style = classify(&parts);
        let normalized = normalize_parts(&parts);
        Ok((CaseInfo { separator: sep, part_type: style }, normalized))
    }
}

} // verus!
