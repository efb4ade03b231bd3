//! Media types (`type/subtype+suffix; name=value`) as borrowed, parsed values.
//!
//! [`MediaType::parse`] reads a string under one of two grammar policies,
//! [`Strict`] or [`Obsolete`], and gives a value that keeps pieces of that
//! string: type, subtype, suffix and parameters, each a [`Name`]. Nothing is
//! normalised: the pieces keep the case they were written in, and every
//! comparison that the grammar makes case-insensitive ignores the case of
//! ASCII letters when it is made.
//!
//! The modules, from the ground up:
//!
//! * [`ascii`]: case folding of bytes, and what holds of it;
//! * [`name`]: [`Name`] and its comparisons; [`names`]: well-known names;
//! * [`policy`]: the grammar policies;
//! * [`grammar`]: the grammar itself, as functions on byte strings that say
//!   for every input what it parses to;
//! * [`media_type`]: [`MediaType`], whose parser is proved to compute what
//!   [`grammar::parse`] says;
//! * [`equivalence`]: when two media types are equal;
//! * [`laws`] and [`render`]: what holds of every parsed media type, and that
//!   a media type that is written out parses back to itself.

pub mod ascii;
pub mod equivalence;
pub mod error;
pub mod grammar;
pub mod laws;
pub mod media_type;
pub mod name;
pub mod names;
pub mod policy;
pub mod render;
mod scanner;
mod sealed;
mod text;

pub use crate::error::ParseError;
pub use crate::media_type::MediaType;
pub use crate::name::Name;
pub use crate::policy::{Obsolete, Policy, Strict};
