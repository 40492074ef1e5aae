//! A parser for the declarations of a Dart compilation unit.
//!
//! [`parse`] takes the source as text and returns the syntax tree of its
//! directives, type declarations, variables and functions, or a text that
//! says where the source could not be parsed.  The tree borrows from the
//! source.

pub mod borrowed;
pub mod dart;
pub mod diagnostic;
pub mod model;
pub mod parser;

pub use dart::Dart;
pub use dart::WithMeta;

use vstd::prelude::*;
use crate::borrowed::Borrowed;
use crate::diagnostic::{
    all_fit, diagnostic_text, plain_text, render, trace_names, trace_offsets,
};
use crate::model::Model;
use crate::parser::spec_parse;
use crate::parser::borrowed::lemma_parse_borrowed;
use crate::parser::outcome::Parsed;
use crate::parser::text::bytes_of;

verus! {

/// Parse a compilation unit.
///
/// The result is the items of `s` in the order in which they stand, each
/// with the comments and annotations before it, if the whole of `s` is a
/// sequence of items; else a text that describes the first failure.  Every
/// text in the items is a part of `s`.
///
/// The text of a failure shows, for each entry of its trace, the line that
/// the entry points into with a mark under the offending character.  Where
/// an entry lies `diagnostic::COLUMNS` bytes or more into its line, no mark
/// can be set under it, and the text gives each entry by its offset in
/// bytes instead.
pub fn parse<'s>(s: &'s str) -> (r: Result<Vec<WithMeta<'s, Dart<'s>>>, String>)
    ensures
        match r {
            Ok(items) => spec_parse(bytes_of(s)) == (Parsed::Done {
                next: bytes_of(s).len() as int,
                value: items.model(),
            }) && items.model().borrowed(bytes_of(s)),
            Err(text) => match spec_parse(bytes_of(s)) {
                Parsed::Done { .. } => false,
                Parsed::Miss { trace } | Parsed::Fault { trace } => text@ == (if all_fit(
                    bytes_of(s),
                    trace_offsets(bytes_of(s), trace),
                ) {
                    diagnostic_text(s@, trace_offsets(bytes_of(s), trace), trace_names(trace))
                } else {
                    plain_text(trace_offsets(bytes_of(s), trace), trace_names(trace), trace.len())
                }),
            },
        },
{
    proof {
        lemma_parse_borrowed(bytes_of(s));
    }
    match parser::parse(s) {
        Ok((_, items)) => Ok(items),
        Err(error) => Err(render(s, &error)),
    }
}

/// Parsing is a function of the text: two inputs that hold the same
/// characters have the same result.
pub proof fn lemma_parse_deterministic(a: &str, b: &str)
    requires
        a@ == b@,
    ensures
        spec_parse(bytes_of(a)) == spec_parse(bytes_of(b)),
{
}

} // verus!
