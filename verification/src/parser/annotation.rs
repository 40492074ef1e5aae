//! Annotations.

use vstd::prelude::*;
use crate::dart::annotation::{Annotation, AnnotationM};
use crate::dart::ty::group_models;
use crate::parser::func_call::{annotation_func_call, spec_annotation_func_call};
use crate::parser::identifier::{identifier, spec_identifier};
use crate::parser::outcome::{Label, PResult, ParseError, Parsed, advances, cut, outcome};
use crate::parser::text::{bytes_of, has_byte, peek, room};

verus! {

broadcast use group_models;

/// An annotation: `@` and a call, or `@` and an identifier.  It is a call
/// only where the `(` follows the name at once.  After the `@` every
/// failure is committed.
#[verifier::opaque]
pub open spec fn spec_annotation(bytes: Seq<u8>, pos: int) -> Parsed<AnnotationM>
    decreases room(bytes, pos), 0int,
{
    if has_byte(bytes, pos, '@' as u8) {
        (match spec_annotation_func_call(bytes, pos + 1) {
            Parsed::Done { next, value } => Parsed::Done {
                next,
                value: AnnotationM::FuncCall(value),
            },
            Parsed::Fault { trace } => Parsed::Fault { trace },
            Parsed::Miss { .. } => match spec_identifier(bytes, pos + 1) {
                Parsed::Done { next, value } => Parsed::Done {
                    next,
                    value: AnnotationM::Ident(value),
                },
                other => other.carry(),
            },
        }).committed()
    } else {
        Parsed::miss(pos, Label::Char)
    }
}

/// Parse an annotation.
pub fn annotation<'s>(input: &'s str, pos: usize) -> (r: PResult<Annotation<'s>>)
    requires
        pos <= bytes_of(input).len(),
    ensures
        outcome(r) == spec_annotation(bytes_of(input), pos as int),
        advances(r, pos, bytes_of(input).len()),
    decreases bytes_of(input).len() - pos, 0int,
{
    proof {
        reveal(spec_annotation);
        reveal(spec_annotation_func_call);
    }
    if !peek(input, pos, '@' as u8) {
        return Err(ParseError::miss(pos, Label::Char));
    }
    match annotation_func_call(input, pos + 1) {
        Ok((next, call)) => {
            return Ok((next, Annotation::FuncCall(call)));
        },
        Err(e) => if e.fatal {
            return Err(e);
        },
    }
    match identifier(input, pos + 1) {
        Ok((next, name)) => Ok((next, Annotation::Ident(name))),
        Err(e) => cut(Err(e)),
    }
}

} // verus!
