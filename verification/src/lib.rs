//! A case-style detection and conversion engine for renaming projects.
//!
//! The engine infers how a literal name is segmented and capitalized
//! ([`name::CaseInfo`] and [`name::NormalizedName`]), renders a normalized
//! name under any convention of a fixed grid of eighteen
//! separator/capitalization combinations, and rewrites every spelling of an
//! old name inside a text to the matching spelling of a new name
//! ([`transform::transform_text`]). Detection, rendering and transformation
//! are specified against the sequence model in [`model`], and the laws that
//! relate them are proved in [`laws`].

pub mod ascii;
pub mod detect;
pub mod laws;
pub mod model;
pub mod name;
pub mod render;
pub mod transform;
mod strutil;
