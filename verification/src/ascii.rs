//! Character-level case rules: ASCII upper/lower classification and
//! conversion, the fixed separator set, and the basic facts about them
//! that the rest of the library builds on.

use vstd::prelude::*;

verus! {

/// `c` is an ASCII uppercase letter (`'A'..='Z'`).
pub open spec fn is_ascii_upper(c: char) -> bool {
    65 <= c as u32 <= 90
}

/// `c` is an ASCII lowercase letter (`'a'..='z'`).
pub open spec fn is_ascii_lower(c: char) -> bool {
    97 <= c as u32 <= 122
}

/// `c` passes the "may appear in an all-uppercase name" test: it is not a
/// lowercase letter. Non-alphabetic characters pass vacuously.
pub open spec fn upper_ok(c: char) -> bool {
    !is_ascii_lower(c)
}

/// `c` passes the "may appear in an all-lowercase name" test: it is not an
/// uppercase letter. Non-alphabetic characters pass vacuously.
pub open spec fn lower_ok(c: char) -> bool {
    !is_ascii_upper(c)
}

/// Basic (ASCII-only) uppercase conversion of one character.
pub open spec fn spec_to_upper(c: char) -> char {
    if is_ascii_lower(c) {
        (((c as u32) - 32) as u8) as char
    } else {
        c
    }
}

/// Basic (ASCII-only) lowercase conversion of one character.
pub open spec fn spec_to_lower(c: char) -> char {
    if is_ascii_upper(c) {
        (((c as u32) + 32) as u8) as char
    } else {
        c
    }
}

/// `c` is one of the five candidate separator characters.
pub open spec fn is_separator(c: char) -> bool {
    c == ' ' || c == '_' || c == '-' || c == '.' || c == '/'
}

pub fn to_upper_char(c: char) -> (r: char)
    ensures
        r == spec_to_upper(c),
{
    let u = c as u32;
    if 97 <= u && u <= 122 {
        ((u - 32) as u8) as char
    } else {
        c
    }
}

pub fn to_lower_char(c: char) -> (r: char)
    ensures
        r == spec_to_lower(c),
{
    let u = c as u32;
    if 65 <= u && u <= 90 {
        ((u + 32) as u8) as char
    } else {
        c
    }
}

pub proof fn lemma_to_upper_props(c: char)
    ensures
        upper_ok(spec_to_upper(c)),
        upper_ok(c) ==> spec_to_upper(c) == c,
        lower_ok(c) ==> spec_to_lower(spec_to_upper(c)) == c,
        is_separator(c) <==> is_separator(spec_to_upper(c)),
{
}

pub proof fn lemma_to_lower_props(c: char)
    ensures
        lower_ok(spec_to_lower(c)),
        lower_ok(c) ==> spec_to_lower(c) == c,
        upper_ok(c) ==> spec_to_upper(spec_to_lower(c)) == c,
        is_separator(c) <==> is_separator(spec_to_lower(c)),
{
}

} // verus!
