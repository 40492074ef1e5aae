//! Type parameters.

use vstd::prelude::*;
use vstd::string::*;
use crate::dart::ty::{Type, group_models};
use crate::dart::type_param::{TypeParam, TypeParamM};
use crate::model::{Model, lemma_model_empty, lemma_model_push};
use crate::parser::identifier::{identifier, spec_identifier};
use crate::parser::outcome::{
    Label, PResult, ParseError, Parsed, advances, cut, framed, outcome, stays,
};
use crate::parser::text::{
    blank_end, bytes_of, has_byte, has_tag, length, peek, room, skip_blank, starts_with,
};
use crate::parser::ty::{spec_ty, ty};

verus! {

broadcast use group_models;

/// The offset after whitespace, `extends` and whitespace at `pos`; `pos`
/// where they do not stand.
pub open spec fn extends_end(bytes: Seq<u8>, pos: int) -> int {
    if blank_end(bytes, pos) > pos && has_tag(bytes, blank_end(bytes, pos), bytes_of("extends"))
        && blank_end(bytes, blank_end(bytes, pos) + bytes_of("extends").len()) > blank_end(
        bytes,
        pos,
    ) + bytes_of("extends").len() {
        blank_end(bytes, blank_end(bytes, pos) + bytes_of("extends").len())
    } else {
        pos
    }
}

/// A type parameter: a name, and optionally `extends` and a type.  After
/// `extends` every failure is committed.
#[verifier::opaque]
pub open spec fn spec_type_param(bytes: Seq<u8>, pos: int) -> Parsed<TypeParamM>
    decreases room(bytes, pos), 0int,
{
    (match spec_identifier(bytes, pos).ahead(bytes, pos) {
        Parsed::Done { next: end, value: name } => if extends_end(bytes, end) != end {
            match spec_ty(bytes, extends_end(bytes, end)) {
                Parsed::Done { next, value: bound } => Parsed::Done {
                    next,
                    value: TypeParamM { name, extends: Some(bound) },
                },
                other => other.carry().committed(),
            }
        } else {
            Parsed::Done { next: end, value: TypeParamM { name, extends: None } }
        },
        other => other.carry(),
    }).within(Label::TypeParam, pos)
}

/// The type parameters of a list after its first, each after a comma and
/// followed by optional whitespace.
#[verifier::opaque]
pub open spec fn spec_type_param_list(bytes: Seq<u8>, pos: int, acc: Seq<TypeParamM>) -> Parsed<
    Seq<TypeParamM>,
>
    decreases room(bytes, pos), 5int,
{
    if !(0 <= pos <= bytes.len()) {
        Parsed::miss(pos, Label::Eof)
    } else if has_byte(bytes, pos, ',' as u8) {
        match spec_type_param(bytes, blank_end(bytes, pos + 1)) {
            Parsed::Done { next, value } => if pos < next {
                spec_type_param_list(bytes, blank_end(bytes, next), acc.push(value))
            } else {
                Parsed::miss(pos, Label::SeparatedList)
            },
            Parsed::Miss { .. } => Parsed::Done { next: pos, value: acc },
            Parsed::Fault { trace } => Parsed::Fault { trace },
        }
    } else {
        Parsed::Done { next: pos, value: acc }
    }
}

/// Type parameters: `<`, one or more type parameters with commas between
/// them, `>`.  After the `<` every failure is committed.
#[verifier::opaque]
pub open spec fn spec_type_params(bytes: Seq<u8>, pos: int) -> Parsed<Seq<TypeParamM>>
    decreases room(bytes, pos), 0int,
{
    (if has_byte(bytes, pos, '<' as u8) {
        (match spec_type_param(bytes, blank_end(bytes, pos + 1)).onward(bytes, pos + 1) {
            Parsed::Done { next, value } => match spec_type_param_list(
                bytes,
                blank_end(bytes, next),
                seq![value],
            ) {
                Parsed::Done { next: end, value: params } => if has_byte(bytes, end, '>' as u8) {
                    Parsed::Done { next: end + 1, value: params }
                } else {
                    Parsed::miss(end, Label::Char)
                },
                other => other,
            },
            other => other.carry(),
        }).committed()
    } else {
        Parsed::miss(pos, Label::Char)
    }).within(Label::TypeParams, pos)
}

/// The offset after whitespace, `extends` and whitespace at `pos`, if they
/// stand there.
fn skip_extends(input: &str, pos: usize) -> (end: usize)
    requires
        pos <= bytes_of(input).len(),
    ensures
        end == extends_end(bytes_of(input), pos as int),
        pos <= end <= bytes_of(input).len(),
{
    let word = skip_blank(input, pos);
    if word > pos && starts_with(input, word, "extends") {
        let after = word + length("extends");
        let end = skip_blank(input, after);
        if end > after {
            return end;
        }
    }
    pos
}

/// Parse a type parameter.
pub fn type_param<'s>(input: &'s str, pos: usize) -> (r: PResult<TypeParam<'s>>)
    requires
        pos <= bytes_of(input).len(),
    ensures
        outcome(r) == spec_type_param(bytes_of(input), pos as int),
        advances(r, pos, bytes_of(input).len()),
    decreases bytes_of(input).len() - pos, 0int,
{
    proof {
        reveal(spec_type_param);
        reveal(spec_ty);
    }
    let (end, name) = match identifier(input, pos) {
        Ok(done) => done,
        Err(e) => {
            return framed(Err(e), Label::TypeParam, pos);
        },
    };
    let start = skip_extends(input, end);
    if start != end {
        match ty(input, start) {
            Ok((next, bound)) => Ok((next, TypeParam { name, extends: Some(bound) })),
            Err(e) => framed(cut(Err(e)), Label::TypeParam, pos),
        }
    } else {
        Ok((end, TypeParam { name, extends: None }))
    }
}

/// Parse the type parameters of a list after its first.
fn type_param_list<'s>(input: &'s str, pos: usize, first: TypeParam<'s>) -> (r: PResult<
    Vec<TypeParam<'s>>,
>)
    requires
        pos <= bytes_of(input).len(),
    ensures
        outcome(r) == spec_type_param_list(bytes_of(input), pos as int, seq![first.model()]),
        stays(r, pos, bytes_of(input).len()),
    decreases bytes_of(input).len() - pos, 5int,
{
    let mut params: Vec<TypeParam<'s>> = Vec::new();
    params.push(first);
    let mut cur = pos;
    let ghost bytes = bytes_of(input);
    proof {
        assert(params.model() =~= seq![first.model()]);
    }
    loop
        invariant
            bytes == bytes_of(input),
            pos <= cur <= bytes.len(),
            spec_type_param_list(bytes, pos as int, seq![first.model()]) == spec_type_param_list(
                bytes,
                cur as int,
                params.model(),
            ),
        decreases bytes.len() - cur,
    {
        proof {
            reveal(spec_type_param_list);
            reveal(spec_type_param);
        }
        if !peek(input, cur, ',' as u8) {
            return Ok((cur, params));
        }
        match type_param(input, skip_blank(input, cur + 1)) {
            Ok((after, param)) => {
                let ghost before = params;
                params.push(param);
                proof {
                    lemma_model_push(before, params, param);
                }
                cur = skip_blank(input, after);
            },
            Err(e) => {
                if e.fatal {
                    return Err(e);
                }
                return Ok((cur, params));
            },
        }
    }
}

/// Parse type parameters.
pub fn type_params<'s>(input: &'s str, pos: usize) -> (r: PResult<Vec<TypeParam<'s>>>)
    requires
        pos <= bytes_of(input).len(),
    ensures
        outcome(r) == spec_type_params(bytes_of(input), pos as int),
        advances(r, pos, bytes_of(input).len()),
    decreases bytes_of(input).len() - pos, 0int,
{
    proof {
        reveal(spec_type_params);
        reveal(spec_type_param);
        reveal(spec_type_param_list);
    }
    if !peek(input, pos, '<' as u8) {
        return framed(Err(ParseError::miss(pos, Label::Char)), Label::TypeParams, pos);
    }
    let (next, value) = match type_param(input, skip_blank(input, pos + 1)) {
        Ok(done) => done,
        Err(e) => {
            return framed(cut(Err(e)), Label::TypeParams, pos);
        },
    };
    let (end, params) = match type_param_list(input, skip_blank(input, next), value) {
        Ok(done) => done,
        Err(e) => {
            return framed(cut(Err(e)), Label::TypeParams, pos);
        },
    };
    if peek(input, end, '>' as u8) {
        Ok((end + 1, params))
    } else {
        framed(cut(Err(ParseError::miss(end, Label::Char))), Label::TypeParams, pos)
    }
}

/// Type parameters and the whitespace after them, if type parameters stand
/// at `pos`; else none.
pub open spec fn spec_opt_type_params(bytes: Seq<u8>, pos: int) -> Parsed<Seq<TypeParamM>> {
    match spec_type_params(bytes, pos) {
        Parsed::Done { next, value } => Parsed::Done { next: blank_end(bytes, next), value },
        Parsed::Miss { .. } => Parsed::Done { next: pos, value: Seq::empty() },
        Parsed::Fault { trace } => Parsed::Fault { trace },
    }
}

/// Parse type parameters and the whitespace after them, if there are any.
pub fn opt_type_params<'s>(input: &'s str, pos: usize) -> (r: PResult<Vec<TypeParam<'s>>>)
    requires
        pos <= bytes_of(input).len(),
    ensures
        outcome(r) == spec_opt_type_params(bytes_of(input), pos as int),
        stays(r, pos, bytes_of(input).len()),
        !(outcome(r) is Miss),
{
    match type_params(input, pos) {
        Ok((next, params)) => Ok((skip_blank(input, next), params)),
        Err(e) => {
            if e.fatal {
                return Err(e);
            }
            let none: Vec<TypeParam<'s>> = Vec::new();
            proof {
                lemma_model_empty(none);
            }
            Ok((pos, none))
        },
    }
}

} // verus!
