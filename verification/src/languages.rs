//! Spoken and programming languages a workshop can be written in.

use crate::text::owned;
use vstd::prelude::*;

pub mod programming;
pub mod spoken;

verus! {

/// Errors from looking up a language.
#[derive(Clone, Debug, PartialEq, Eq)]
pub enum Error {
    /// The string is neither a known code nor a known name.
    InvalidLanguageCode(String),
    /// The string names no known language.
    InvalidLanguageName(String),
}

/// The display name of an optional programming language; no language reads as "Any".
pub fn programming_name(p: Option<programming::Code>) -> (r: String)
    ensures
        r@ == match p {
            Some(code) => programming::language_name(code),
            None => "Any"@,
        },
{
    match p {
        Some(code) => owned(code.get_name()),
        None => owned("Any"),
    }
}

/// The English name of an optional spoken language; no language reads as "Any".
pub fn spoken_name(s: Option<spoken::Code>) -> (r: String)
    ensures
        r@ == match s {
            Some(code) => spoken::english_name(code),
            None => "Any"@,
        },
{
    match s {
        Some(code) => owned(code.get_name_in_english()),
        None => owned("Any"),
    }
}

} // verus!
