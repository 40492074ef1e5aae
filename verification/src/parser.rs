//! The grammar.
//!
//! Each production `x` is described by a function `spec_x` from the bytes of
//! the input and an offset to a result in the model; the parser `x` returns
//! what `spec_x` describes.

pub mod annotation;
pub mod borrowed;
pub mod class;
pub mod comment;
pub mod common;
pub mod directive;
pub mod enum_ty;
pub mod expr;
pub mod extension;
pub mod func_call;
pub mod func_like;
pub mod identifier;
pub mod maybe_required;
pub mod meta;
pub mod outcome;
pub mod string;
pub mod text;
pub mod ty;
pub mod type_params;
pub mod typedef;
pub mod var;

use vstd::prelude::*;
use crate::dart::{Dart, DartM};
use crate::dart::meta::{WithMeta, WithMetaM};
use crate::model::{Model, lemma_model_empty, lemma_model_push};
use crate::parser::class::{class, spec_class};
use crate::parser::comment::{skip_spbrc, spec_skip_spbrc};
use crate::parser::directive::{directive, spec_directive};
use crate::parser::enum_ty::{enum_ty, spec_enum_ty};
use crate::parser::extension::{extension, spec_extension};
use crate::parser::func_like::{func_like, spec_func_like};
use crate::parser::meta::{meta, spec_with_meta, with_meta};
use crate::parser::outcome::{Label, PResult, ParseError, Parsed, advances, outcome, stays};
use crate::parser::text::{blank_end, bytes_of, length, room, skip_blank};
use crate::parser::typedef::{spec_typedef, typedef};
use crate::parser::var::{spec_var, var};

verus! {

/// A top-level item: a directive, a type alias, a variable, a function, a
/// class, an enum or an extension, tried in this order.
#[verifier::opaque]
pub open spec fn spec_dart_item(bytes: Seq<u8>, pos: int) -> Parsed<DartM> {
    match spec_directive(bytes, pos) {
        Parsed::Done { next, value } => Parsed::Done { next, value: DartM::Directive(value) },
        Parsed::Fault { trace } => Parsed::Fault { trace },
        Parsed::Miss { .. } => match spec_typedef(bytes, pos) {
            Parsed::Done { next, value } => Parsed::Done { next, value: DartM::TypeDef(value) },
            Parsed::Fault { trace } => Parsed::Fault { trace },
            Parsed::Miss { .. } => match spec_var(bytes, pos) {
                Parsed::Done { next, value } => Parsed::Done { next, value: DartM::Var(value) },
                Parsed::Fault { trace } => Parsed::Fault { trace },
                Parsed::Miss { .. } => match spec_func_like(bytes, pos) {
                    Parsed::Done { next, value } => Parsed::Done {
                        next,
                        value: DartM::FuncLike(value),
                    },
                    Parsed::Fault { trace } => Parsed::Fault { trace },
                    Parsed::Miss { .. } => match spec_class(bytes, pos) {
                        Parsed::Done { next, value } => Parsed::Done {
                            next,
                            value: DartM::Class(value),
                        },
                        Parsed::Fault { trace } => Parsed::Fault { trace },
                        Parsed::Miss { .. } => match spec_enum_ty(bytes, pos) {
                            Parsed::Done { next, value } => Parsed::Done {
                                next,
                                value: DartM::Enum(value),
                            },
                            Parsed::Fault { trace } => Parsed::Fault { trace },
                            Parsed::Miss { .. } => match spec_extension(bytes, pos) {
                                Parsed::Done { next, value } => Parsed::Done {
                                    next,
                                    value: DartM::Extension(value),
                                },
                                other => other.carry(),
                            },
                        },
                    },
                },
            },
        },
    }
}

/// The items from `pos` on, after the items `acc`: each with its metadata
/// and followed by optional whitespace, as many as there are.
#[verifier::opaque]
pub open spec fn spec_item_list(bytes: Seq<u8>, pos: int, acc: Seq<WithMetaM<DartM>>) -> Parsed<
    Seq<WithMetaM<DartM>>,
>
    decreases room(bytes, pos),
{
    if !(0 <= pos <= bytes.len()) {
        Parsed::miss(pos, Label::Eof)
    } else {
        match spec_with_meta(bytes, pos, |at: int| spec_dart_item(bytes, at)) {
            Parsed::Done { next, value } => if pos < next <= bytes.len() && blank_end(bytes, next)
                <= bytes.len() {
                spec_item_list(bytes, blank_end(bytes, next), acc.push(value))
            } else {
                Parsed::miss(pos, Label::Many0)
            },
            Parsed::Miss { .. } => Parsed::Done { next: pos, value: acc },
            Parsed::Fault { trace } => Parsed::Fault { trace },
        }
    }
}

/// A compilation unit: optional whitespace, the items, each with its
/// metadata, optional whitespace and comments, and the end of the input.  A
/// result that is `Done` ends at the end of the input.
#[verifier::opaque]
pub open spec fn spec_parse(bytes: Seq<u8>) -> Parsed<Seq<WithMetaM<DartM>>> {
    match spec_item_list(bytes, blank_end(bytes, 0), Seq::empty()) {
        Parsed::Done { next, value } => match spec_skip_spbrc(bytes, next) {
            Parsed::Done { next: end, .. } => if end == bytes.len() {
                Parsed::Done { next: end, value }
            } else {
                Parsed::miss(end, Label::Eof)
            },
            other => other.carry(),
        },
        other => other,
    }
}

/// Parse a top-level item.
pub fn dart_item<'s>(input: &'s str, pos: usize) -> (r: PResult<Dart<'s>>)
    requires
        pos <= bytes_of(input).len(),
    ensures
        outcome(r) == spec_dart_item(bytes_of(input), pos as int),
        advances(r, pos, bytes_of(input).len()),
{
    proof {
        reveal(spec_dart_item);
    }
    match directive(input, pos) {
        Ok((next, value)) => {
            return Ok((next, Dart::Directive(value)));
        },
        Err(e) => if e.fatal {
            return Err(e);
        },
    }
    match typedef(input, pos) {
        Ok((next, value)) => {
            return Ok((next, Dart::TypeDef(value)));
        },
        Err(e) => if e.fatal {
            return Err(e);
        },
    }
    match var(input, pos) {
        Ok((next, value)) => {
            return Ok((next, Dart::Var(value)));
        },
        Err(e) => if e.fatal {
            return Err(e);
        },
    }
    match func_like(input, pos) {
        Ok((next, value)) => {
            return Ok((next, Dart::FuncLike(value)));
        },
        Err(e) => if e.fatal {
            return Err(e);
        },
    }
    match class(input, pos) {
        Ok((next, value)) => {
            return Ok((next, Dart::Class(value)));
        },
        Err(e) => if e.fatal {
            return Err(e);
        },
    }
    match enum_ty(input, pos) {
        Ok((next, value)) => {
            return Ok((next, Dart::Enum(value)));
        },
        Err(e) => if e.fatal {
            return Err(e);
        },
    }
    let (next, value) = extension(input, pos)?;
    Ok((next, Dart::Extension(value)))
}

/// Parse top-level items, as many as there are.
pub fn item_list<'s>(input: &'s str, pos: usize) -> (r: PResult<Vec<WithMeta<'s, Dart<'s>>>>)
    requires
        pos <= bytes_of(input).len(),
    ensures
        outcome(r) == spec_item_list(bytes_of(input), pos as int, Seq::empty()),
        stays(r, pos, bytes_of(input).len()),
{
    let mut items: Vec<WithMeta<'s, Dart<'s>>> = Vec::new();
    let mut cur = pos;
    let ghost bytes = bytes_of(input);
    proof {
        lemma_model_empty(items);
    }
    loop
        invariant
            bytes == bytes_of(input),
            pos <= cur <= bytes.len(),
            spec_item_list(bytes, pos as int, Seq::empty()) == spec_item_list(
                bytes,
                cur as int,
                items.model(),
            ),
        decreases bytes.len() - cur,
    {
        proof {
            reveal(spec_item_list);
        }
        let (start, before) = match meta(input, cur) {
            Ok(done) => done,
            Err(e) => {
                if e.fatal {
                    return Err(e.within(Label::WithMeta, cur));
                }
                return Ok((cur, items));
            },
        };
        match with_meta(before, dart_item(input, start), cur) {
            Ok((next, item)) => {
                let ghost old_items = items;
                items.push(item);
                proof {
                    lemma_model_push(old_items, items, item);
                }
                cur = skip_blank(input, next);
            },
            Err(e) => {
                if e.fatal {
                    return Err(e);
                }
                return Ok((cur, items));
            },
        }
    }
}

/// Parse a compilation unit.
pub fn parse<'s>(input: &'s str) -> (r: PResult<Vec<WithMeta<'s, Dart<'s>>>>)
    ensures
        outcome(r) == spec_parse(bytes_of(input)),
        r matches Ok((next, _)) ==> next == bytes_of(input).len(),
{
    proof {
        reveal(spec_parse);
    }
    let (next, items) = item_list(input, skip_blank(input, 0))?;
    let (end, _) = skip_spbrc(input, next)?;
    if end == length(input) {
        Ok((end, items))
    } else {
        Err(ParseError::miss(end, Label::Eof))
    }
}

} // verus!
