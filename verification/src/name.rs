//! The data model: capitalization styles, rendering conventions, normalized
//! names, and the error type for ill-formed names.

use vstd::prelude::*;

verus! {

/// How the characters of each word-part are capitalized when a name is
/// rendered: first letter uppercase (`Capitalise`), every letter uppercase
/// (`UpperCase`), or every letter lowercase (`LowerCase`).
#[derive(Debug, Clone, Copy, PartialEq, Eq, Structural)]
pub enum CaseType {
    Capitalise,
    UpperCase,
    LowerCase,
}

/// One concrete rendering convention: an optional single separator character
/// placed between word-parts, and a capitalization style applied to each part.
#[derive(Debug, Clone, Copy, PartialEq, Eq)]
pub struct CaseInfo {
    pub separator: Option<char>,
    pub part_type: CaseType,
}

/// The separator- and case-agnostic form of a name: its word-parts, in
/// left-to-right order, each lowercased.
#[derive(Debug, Clone, PartialEq, Eq)]
pub struct NormalizedName {
    pub parts: Vec<String>,
}

impl View for NormalizedName {
    type V = Seq<Seq<char>>;

    open spec fn view(&self) -> Seq<Seq<char>> {
        self.parts.deep_view()
    }
}

/// The single error of the library: a name (or one of its word-parts) is
/// empty where a non-empty one is needed.
#[derive(Debug, Clone, Copy, PartialEq, Eq, Structural)]
pub struct InvalidName;

} // verus!
