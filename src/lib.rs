//! Serialization of polymorphic values through a tag that names the concrete
//! implementer, so that a decoder can pick the right decode routine.
//!
//! - `registry`: the table from an implementer's name to its decode routine,
//!   built from registrations in any order; a name registered twice is
//!   refused when it is looked up.
//! - `externally`, `internally`, `adjacently`: the three layouts of tag and
//!   value, each with its writer and its reader.
//! - `content`: the buffered value that a self-describing format delivers,
//!   and the readers that replay it to a decode routine.
//! - `de`: tag lookup, and the payload handed to a decode routine.
//! - `ser`: a value as its own serialization describes it, and the rewriting
//!   that puts a tag in front of it.
//! - `is_serialize_str`: whether a value serializes as a given string.
//! - `error`: what decoding reports.

pub mod adjacently;
pub mod content;
pub mod de;
pub mod error;
pub mod externally;
pub mod internally;
pub mod is_serialize_str;
pub mod registry;
pub mod ser;
