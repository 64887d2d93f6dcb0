//! The transform engine: literal, non-overlapping, left-to-right replacement
//! of every occurrence of a pattern, applied once per rendering convention of
//! the fixed grid, each pass running on the output of the previous one.

use vstd::prelude::*;

use crate::model::spec_case_grid;
use crate::model::spec_parts_nonempty;
use crate::model::spec_render;
use crate::model::spec_render_ok;
use crate::name::CaseInfo;
use crate::name::InvalidName;
use crate::name::NormalizedName;
use crate::strutil::push_char;

verus! {

/// Replacement of every occurrence of `pat` in `s` by `to`: scanning left to
/// right without overlap, exactly as a standard string replacement does. An
/// empty pattern matches before every character and once more at the end.
pub open spec fn spec_replace(s: Seq<char>, pat: Seq<char>, to: Seq<char>) -> Seq<char>
    decreases s.len(),
{
    if pat.len() == 0 {
        if s.len() == 0 {
            to
        } else {
            to + seq![s[0]] + spec_replace(s.drop_first(), pat, to)
        }
    } else if s.len() < pat.len() {
        s
    } else if s.take(pat.len() as int) == pat {
        to + spec_replace(s.skip(pat.len() as int), pat, to)
    } else {
        seq![s[0]] + spec_replace(s.drop_first(), pat, to)
    }
}

/// The given conventions applied in order: under each one, the old name's
/// rendering is replaced by the new name's rendering, each pass observing
/// the output of the pass before it.
pub open spec fn spec_apply_cases(
    cases: Seq<CaseInfo>,
    s: Seq<char>,
    from_name: Seq<Seq<char>>,
    to_name: Seq<Seq<char>>,
) -> Seq<char>
    decreases cases.len(),
{
    if cases.len() == 0 {
        s
    } else {
        spec_apply_cases(
            cases.drop_first(),
            spec_replace(
                s,
                spec_render(cases[0], from_name),
                spec_render(cases[0], to_name),
            ),
            from_name,
            to_name,
        )
    }
}

/// The whole transform: all eighteen conventions of the grid, in their fixed
/// order.
pub open spec fn spec_transform(
    s: Seq<char>,
    from_name: Seq<Seq<char>>,
    to_name: Seq<Seq<char>>,
) -> Seq<char> {
    spec_apply_cases(spec_case_grid(), s, from_name, to_name)
}

/// Whether `pat` occurs in `s` starting at character position `i`.
fn matches_at(s: &str, i: usize, pat: &str) -> (r: bool)
    requires
        i + pat@.len() <= s@.len(),
        s@.len() <= usize::MAX,
    ensures
        r == (s@.subrange(i as int, i as int + pat@.len() as int) == pat@),
{
    let m = pat.unicode_len();
    let mut j: usize = 0;
    while j < m
        invariant
            m == pat@.len(),
            i + m <= s@.len(),
            s@.len() <= usize::MAX,
            j <= m,
            forall|x: int| 0 <= x < j ==> s@[i + x] == pat@[x],
        decreases m - j,
    {
        if s.get_char(i + j) != pat.get_char(j) {
            proof {
                let sub = s@.subrange(i as int, i as int + pat@.len() as int);
                assert(sub[j as int] != pat@[j as int]);
            }
            return false;
        }
        j += 1;
    }
    proof {
        assert(s@.subrange(i as int, i as int + pat@.len() as int) =~= pat@);
    }
    true
}

/// Replaces every occurrence of `pat` in `s` by `to`, left to right, without
/// overlap.
fn replace_all(s: &str, pat: &str, to: &str) -> (r: String)
    ensures
        r@ == spec_replace(s@, pat@, to@),
{
    let n = s.unicode_len();
    let m = pat.unicode_len();
    let mut out = String::new();
    let mut i: usize = 0;
    proof {
        assert(s@.skip(0) =~= s@);
    }
    if m == 0 {
        while i < n
            invariant
                n == s@.len(),
                m == pat@.len() == 0,
                i <= n,
                spec_replace(s@, pat@, to@) == out@ + spec_replace(s@.skip(i as int), pat@, to@),
            decreases n - i,
        {
            let ghost prev = out@;
            out.append(to);
            push_char(&mut out, s.get_char(i));
            proof {
                assert(s@.skip(i as int)[0] == s@[i as int]);
                assert(s@.skip(i as int).drop_first() =~= s@.skip(i as int + 1));
                assert(out@ =~= prev + (to@ + seq![s@[i as int]]));
                assert(prev + (to@ + seq![s@[i as int]]) + spec_replace(
                    s@.skip(i as int + 1),
                    pat@,
                    to@,
                ) =~= prev + spec_replace(s@.skip(i as int), pat@, to@));
            }
            i += 1;
        }
        proof {
            assert(s@.skip(n as int) =~= Seq::<char>::empty());
        }
        out.append(to);
        return out;
    }
    while i < n
        invariant
            n == s@.len(),
            m == pat@.len(),
            m >= 1,
            i <= n,
            spec_replace(s@, pat@, to@) == out@ + spec_replace(s@.skip(i as int), pat@, to@),
        decreases n - i,
    {
        let ghost prev = out@;
        let ghost rest = s@.skip(i as int);
        if m <= n - i && matches_at(s, i, pat) {
            out.append(to);
            proof {
                assert(rest.take(m as int) =~= s@.subrange(i as int, i as int + m as int));
                assert(rest.skip(m as int) =~= s@.skip(i as int + m));
                assert(spec_replace(rest, pat@, to@) == to@ + spec_replace(
                    s@.skip(i as int + m),
                    pat@,
                    to@,
                ));
                assert(out@ =~= prev + to@);
                assert(prev + to@ + spec_replace(s@.skip(i as int + m), pat@, to@) =~= prev
                    + spec_replace(rest, pat@, to@));
            }
            i += m;
        } else {
            push_char(&mut out, s.get_char(i));
            proof {
                assert(rest[0] == s@[i as int]);
                assert(rest.drop_first() =~= s@.skip(i as int + 1));
                if m <= n - i {
                    assert(rest.take(m as int) =~= s@.subrange(i as int, i as int + m as int));
                    assert(rest.take(m as int) != pat@);
                    assert(spec_replace(rest, pat@, to@) == seq![rest[0]] + spec_replace(
                        s@.skip(i as int + 1),
                        pat@,
                        to@,
                    ));
                } else {
                    assert(rest.len() < m);
                    assert(spec_replace(rest, pat@, to@) == rest);
                    assert(spec_replace(s@.skip(i as int + 1), pat@, to@) == s@.skip(i as int + 1));
                    assert(rest =~= seq![rest[0]] + s@.skip(i as int + 1));
                }
                assert(out@ =~= prev + seq![s@[i as int]]);
                assert(prev + seq![s@[i as int]] + spec_replace(s@.skip(i as int + 1), pat@, to@)
                    =~= prev + spec_replace(rest, pat@, to@));
            }
            i += 1;
        }
    }
    proof {
        assert(s@.skip(n as int) =~= Seq::<char>::empty());
    }
    out
}

/// Whether some part of the name is the empty string.
fn has_empty_part(name: &NormalizedName) -> (r: bool)
    ensures
        r == !spec_parts_nonempty(name@),
{
    let mut k: usize = 0;
    while k < name.parts.len()
        invariant
            k <= name.parts.len(),
            name@.len() == name.parts.len(),
            forall|j: int| 0 <= j < k ==> (#[trigger] name@[j]).len() > 0,
        decreases name.parts.len() - k,
    {
        proof {
            assert(name@[k as int] == name.parts@[k as int]@);
        }
        if name.parts[k].as_str().unicode_len() == 0 {
            return true;
        }
        k += 1;
    }
    false
}

/// Rewrites `input`: for each convention of the grid, in order, every literal
/// occurrence of the old name's rendering under that convention is replaced
/// by the new name's rendering under the same convention, each pass running
/// on the output of the previous one. A name with an empty part cannot be
/// rendered under every convention of the grid and is rejected.
pub fn transform_text(input: &str, old_name: &NormalizedName, new_name: &NormalizedName) -> (r:
    Result<String, InvalidName>)
    ensures
        spec_parts_nonempty(old_name@) && spec_parts_nonempty(new_name@) ==> r is Ok
            && r->Ok_0@ == spec_transform(input@, old_name@, new_name@),
        !(spec_parts_nonempty(old_name@) && spec_parts_nonempty(new_name@)) ==> r == Err::<
            String,
            InvalidName,
        >(InvalidName),
{
    if has_empty_part(old_name) {
        return Err(InvalidName);
    }
    if has_empty_part(new_name) {
        return Err(InvalidName);
    }
    let cases = CaseInfo::all_cases();
    let mut out = input.to_owned();
    let mut k: usize = 0;
    proof {
        assert(cases@.skip(0) =~= cases@);
    }
    while k < cases.len()
        invariant
            cases@ == spec_case_grid(),
            k <= cases.len(),
            spec_parts_nonempty(old_name@),
            spec_parts_nonempty(new_name@),
            spec_apply_cases(cases@.skip(k as int), out@, old_name@, new_name@) == spec_transform(
                input@,
                old_name@,
                new_name@,
            ),
        decreases cases.len() - k,
    {
        let ghost prev = out@;
        let ci = cases[k];
        proof {
            assert(spec_render_ok(ci, old_name@));
            assert(spec_render_ok(ci, new_name@));
        }
        let search = match ci.convert(old_name) {
            Ok(v) => v,
            Err(_) => unreached(),
        };
        let replace_with = match ci.convert(new_name) {
            Ok(v) => v,
            Err(_) => unreached(),
        };
        let next = replace_all(out.as_str(), search.as_str(), replace_with.as_str());
        out = next;
        proof {
            let remaining = cases@.skip(k as int);
            assert(remaining[0] == cases@[k as int]);
            assert(remaining.drop_first() =~= cases@.skip(k as int + 1));
            assert(spec_apply_cases(remaining, prev, old_name@, new_name@) == spec_apply_cases(
                cases@.skip(k as int + 1),
                out@,
                old_name@,
                new_name@,
            ));
        }
        k += 1;
    }
    proof {
        assert(cases@.skip(18) =~= Seq::<CaseInfo>::empty());
    }
    Ok(out)
}

} // verus!
