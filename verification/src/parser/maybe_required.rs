//! The word `required` before a named parameter.

use vstd::prelude::*;
use vstd::string::*;
use crate::parser::comment::{skip_spbrc, spec_skip_spbrc};
use crate::parser::outcome::{PResult, Parsed, outcome, stays};
use crate::parser::text::{bytes_of, has_tag, length, starts_with};

verus! {

/// Whether `required` stands at `pos`.
pub open spec fn spec_is_required(bytes: Seq<u8>, pos: int) -> bool {
    has_tag(bytes, pos, bytes_of("required"))
}

/// Whether `required` stands at `pos`, then optional whitespace and
/// comments.  The result ends where the parameter starts.
pub open spec fn spec_maybe_required(bytes: Seq<u8>, pos: int) -> Parsed<bool> {
    match spec_skip_spbrc(
        bytes,
        if spec_is_required(bytes, pos) {
            pos + bytes_of("required").len()
        } else {
            pos
        },
    ) {
        Parsed::Done { next, .. } => Parsed::Done { next, value: spec_is_required(bytes, pos) },
        other => other.carry(),
    }
}

/// Tell whether `required` stands at `pos`.
pub fn is_required(input: &str, pos: usize) -> (r: bool)
    requires
        pos <= bytes_of(input).len(),
    ensures
        r == spec_is_required(bytes_of(input), pos as int),
        bytes_of(input).len() <= usize::MAX,
{
    starts_with(input, pos, "required")
}

/// Parse what may stand before a named parameter to mark it as required.
pub fn maybe_required(input: &str, pos: usize) -> (r: PResult<bool>)
    requires
        pos <= bytes_of(input).len(),
    ensures
        outcome(r) == spec_maybe_required(bytes_of(input), pos as int),
        stays(r, pos, bytes_of(input).len()),
{
    let required = is_required(input, pos);
    let after = if required {
        pos + length("required")
    } else {
        pos
    };
    match skip_spbrc(input, after) {
        Ok((next, _)) => Ok((next, required)),
        Err(e) => Err(e),
    }
}

} // verus!
