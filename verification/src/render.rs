//! Rendering: producing the literal spelling of a normalized name under one
//! rendering convention, and enumerating the fixed convention grid.

use vstd::prelude::*;

use crate::ascii::to_lower_char;
use crate::ascii::to_upper_char;
use crate::detect::lower_part;
use crate::model::lemma_join_push;
use crate::model::spec_cap_seq;
use crate::model::spec_case_grid;
use crate::model::spec_join;
use crate::model::spec_render;
use crate::model::spec_render_ok;
use crate::model::spec_sep_str;
use crate::model::spec_style_seq;
use crate::model::spec_styled_parts;
use crate::model::spec_upper_seq;
use crate::name::CaseInfo;
use crate::name::CaseType;
use crate::name::InvalidName;
use crate::name::NormalizedName;
use crate::strutil::push_char;

verus! {

/// One part transformed under a capitalization style. The `Capitalise` style
/// needs a first character, so it rejects an empty part.
fn style_part(t: CaseType, p: &str) -> (r: Result<String, InvalidName>)
    ensures
        t is Capitalise && p@.len() == 0 ==> r == Err::<String, InvalidName>(InvalidName),
        !(t is Capitalise && p@.len() == 0) ==> r is Ok && r->Ok_0@ == spec_style_seq(t, p@),
{
    match t {
        CaseType::LowerCase => Ok(lower_part(p)),
        CaseType::UpperCase => {
            let n = p.unicode_len();
            let mut out = String::new();
            let mut i: usize = 0;
            while i < n
                invariant
                    n == p@.len(),
                    i <= n,
                    out@ =~= spec_upper_seq(p@).take(i as int),
                decreases n - i,
            {
                push_char(&mut out, to_upper_char(p.get_char(i)));
                i += 1;
            }
            proof {
                assert(spec_upper_seq(p@).take(n as int) =~= spec_upper_seq(p@));
            }
            Ok(out)
        },
        CaseType::Capitalise => {
            let n = p.unicode_len();
            if n == 0 {
                return Err(InvalidName);
            }
            let mut out = String::new();
            push_char(&mut out, to_upper_char(p.get_char(0)));
            proof {
                assert(out@ =~= spec_cap_seq(p@).take(1));
            }
            let mut i: usize = 1;
            while i < n
                invariant
                    n == p@.len(),
                    n >= 1,
                    1 <= i <= n,
                    out@ =~= spec_cap_seq(p@).take(i as int),
                decreases n - i,
            {
                proof {
                    assert(p@.drop_first()[i as int - 1] == p@[i as int]);
                    assert(spec_cap_seq(p@)[i as int] == crate::ascii::spec_to_lower(
                        p@[i as int],
                    ));
                }
                push_char(&mut out, to_lower_char(p.get_char(i)));
                i += 1;
            }
            proof {
                assert(spec_cap_seq(p@).len() == n);
                assert(spec_cap_seq(p@).take(n as int) =~= spec_cap_seq(p@));
            }
            Ok(out)
        },
    }
}

impl CaseInfo {
    /// Renders a normalized name under this convention: each part styled,
    /// the parts joined with the separator (nothing between them when the
    /// convention has none).
    pub fn convert(&self, name: &NormalizedName) -> (r: Result<String, InvalidName>)
        ensures
            spec_render_ok(*self, name@) ==> r is Ok && r->Ok_0@ == spec_render(*self, name@),
            !spec_render_ok(*self, name@) ==> r == Err::<String, InvalidName>(InvalidName),
    {
        let ghost styled = spec_styled_parts(*self, name@);
        let ghost sepstr = spec_sep_str(self.separator);
        let mut out = String::new();
        let mut k: usize = 0;
        while k < name.parts.len()
            invariant
                k <= name.parts.len(),
                styled == spec_styled_parts(*self, name@),
                sepstr == spec_sep_str(self.separator),
                name@.len() == name.parts.len(),
                out@ =~= spec_join(styled.take(k as int), sepstr),
                forall|j: int|
                    0 <= j < k ==> !(self.part_type is Capitalise && (#[trigger] name@[j]).len()
                        == 0),
            decreases name.parts.len() - k,
        {
            let ghost prev = out@;
            proof {
                assert(name@[k as int] == name.parts@[k as int]@);
            }
            let part = &name.parts[k];
            let piece = match style_part(self.part_type, part.as_str()) {
                Ok(piece) => piece,
                Err(e) => {
                    proof {
                        assert(!spec_render_ok(*self, name@));
                    }
                    return Err(e);
                },
            };
            if k > 0 {
                match self.separator {
                    Some(c) => push_char(&mut out, c),
                    None => {},
                }
            }
            out.append(piece.as_str());
            proof {
                if k == 0 {
                    assert(styled.take(1) =~~= seq![styled[0]]);
                    assert(out@ =~= styled[0]);
                } else {
                    lemma_join_push(styled.take(k as int), sepstr, styled[k as int]);
                    assert(styled.take(k as int).push(styled[k as int]) =~~= styled.take(
                        k as int + 1,
                    ));
                    assert(out@ =~= prev + sepstr + styled[k as int]);
                }
            }
            k += 1;
        }
        proof {
            assert(spec_render_ok(*self, name@));
            assert(styled.take(name@.len() as int) =~~= styled);
        }
        Ok(out)
    }

    /// The fixed grid of the eighteen rendering conventions, in the order in
    /// which the transform applies them.
    pub fn all_cases() -> (r: Vec<CaseInfo>)
        ensures
            r@ == spec_case_grid(),
    {
        let mut cases: Vec<CaseInfo> = Vec::new();
        cases.push(CaseInfo { separator: None, part_type: CaseType::Capitalise });
        cases.push(CaseInfo { separator: Some(' '), part_type: CaseType::Capitalise });
        cases.push(CaseInfo { separator: Some('_'), part_type: CaseType::Capitalise });
        cases.push(CaseInfo { separator: Some('-'), part_type: CaseType::Capitalise });
        cases.push(CaseInfo { separator: Some('.'), part_type: CaseType::Capitalise });
        cases.push(CaseInfo { separator: Some('/'), part_type: CaseType::Capitalise });
        cases.push(CaseInfo { separator: None, part_type: CaseType::UpperCase });
        cases.push(CaseInfo { separator: Some(' '), part_type: CaseType::UpperCase });
        cases.push(CaseInfo { separator: Some('_'), part_type: CaseType::UpperCase });
        cases.push(CaseInfo { separator: Some('-'), part_type: CaseType::UpperCase });
        cases.push(CaseInfo { separator: Some('.'), part_type: CaseType::UpperCase });
        cases.push(CaseInfo { separator: Some('/'), part_type: CaseType::UpperCase });
        cases.push(CaseInfo { separator: None, part_type: CaseType::LowerCase });
        cases.push(CaseInfo { separator: Some(' '), part_type: CaseType::LowerCase });
        cases.push(CaseInfo { separator: Some('_'), part_type: CaseType::LowerCase });
        cases.push(CaseInfo { separator: Some('-'), part_type: CaseType::LowerCase });
        cases.push(CaseInfo { separator: Some('.'), part_type: CaseType::LowerCase });
        cases.push(CaseInfo { separator: Some('/'), part_type: CaseType::LowerCase });
        proof {
            assert(cases@ =~= spec_case_grid());
        }
        cases
    }
}

} // verus!
