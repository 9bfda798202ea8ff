//! Checks whether a value serializes as one given string.
use vstd::prelude::*;

use crate::ser::Content;

verus! {

/// What a value held instead of the expected string.
#[derive(Debug, PartialEq, Eq)]
pub enum Unexpected {
    /// Another string.
    Str(String),
    /// Something that does not serialize as a string.
    NonStr,
}

/// The string that `c` serializes as, looking through options and newtype
/// wrappers; a character counts as a string of one character.
pub open spec fn str_of(c: Content) -> Option<Seq<char>>
    decreases c,
{
    match c {
        Content::String(s) => Some(s@),
        Content::Char(ch) => Some(seq![ch]),
        Content::OptionSome(v) => str_of(*v),
        Content::NewtypeStruct(_, v) => str_of(*v),
        _ => None,
    }
}

/// `r` is what `expect_str` reports for a value that serializes as `s`
/// (or as no string, for `None`) when `expected` was wanted.
pub open spec fn expect_str_spec(s: Option<Seq<char>>, expected: Seq<char>, r: Result<(), Unexpected>) -> bool {
    match s {
        Some(s) => if s == expected {
            r is Ok
        } else {
            r matches Err(Unexpected::Str(x)) && x@ == s
        },
        None => r == Err::<(), Unexpected>(Unexpected::NonStr),
    }
}

/// Relies on `String::from(char)`: a string of that one character.
#[verifier::external_body]
fn char_to_string(ch: char) -> (r: String)
    ensures
        r@ == seq![ch],
{
    String::from(ch)
}

/// Succeeds when `value` serializes as exactly `expected_str`; otherwise
/// reports what it held instead.
pub fn expect_str(value: &Content, expected_str: &str) -> (r: Result<(), Unexpected>)
    ensures
        expect_str_spec(str_of(*value), expected_str@, r),
    decreases value,
{
    match value {
        Content::String(s) => {
            if crate::registry::compare_names(s.as_str(), expected_str) == 0 {
                Ok(())
            } else {
                Err(Unexpected::Str(s.clone()))
            }
        },
        Content::Char(ch) => {
            let s = char_to_string(*ch);
            if crate::registry::compare_names(s.as_str(), expected_str) == 0 {
                Ok(())
            } else {
                Err(Unexpected::Str(s))
            }
        },
        Content::OptionSome(v) => expect_str(v, expected_str),
        Content::NewtypeStruct(_, v) => expect_str(v, expected_str),
        _ => Err(Unexpected::NonStr),
    }
}

} // verus!
