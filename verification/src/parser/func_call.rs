//! Calls: the callee and the arguments in round brackets.

use vstd::prelude::*;
use vstd::utf8::*;
use crate::dart::func_call::{FuncArg, FuncArgM, FuncCall, FuncCallM};
use crate::dart::ty::group_models;
use crate::model::{Model, lemma_model_empty, lemma_model_push};
use crate::parser::comment::{skip_spbrc, spec_skip_spbrc};
use crate::parser::expr::{expr, spec_expr};
use crate::parser::identifier::{identifier, spec_identifier};
use crate::parser::outcome::{
    Label, PResult, ParseError, Parsed, advances, cut, framed, outcome, stays,
};
use crate::parser::text::{
    blank_end, bytes_of, clean_cut, has_byte, lemma_clean_cut, peek, room, skip_blank,
};
use crate::parser::ty::{not_func_type, spec_not_func_type};

verus! {

broadcast use group_models;

/// A named argument: a name, `:` and an expression, with optional whitespace
/// and comments around the `:`.
#[verifier::opaque]
pub open spec fn spec_func_arg_named(bytes: Seq<u8>, pos: int) -> Parsed<FuncArgM>
    decreases room(bytes, pos), 5int,
{
    match spec_identifier(bytes, pos).ahead(bytes, pos) {
        Parsed::Done { next: end, value: name } => match spec_skip_spbrc(bytes, end).onward(bytes, end,
        ) {
            Parsed::Done { next: colon, .. } => if has_byte(bytes, colon, ':' as u8) {
                match spec_skip_spbrc(bytes, colon + 1).onward(bytes, colon + 1) {
                    Parsed::Done { next: start, .. } => match spec_expr(bytes, start) {
                        Parsed::Done { next, value } => Parsed::Done {
                            next,
                            value: FuncArgM { name: Some(name), value },
                        },
                        other => other.carry(),
                    },
                    other => other.carry(),
                }
            } else {
                Parsed::miss(colon, Label::Char)
            },
            other => other.carry(),
        },
        other => other.carry(),
    }
}

/// An argument of a call: a named argument, or else an expression.
#[verifier::opaque]
pub open spec fn spec_func_arg(bytes: Seq<u8>, pos: int) -> Parsed<FuncArgM>
    decreases room(bytes, pos), 6int,
{
    match spec_func_arg_named(bytes, pos) {
        Parsed::Miss { .. } => match spec_expr(bytes, pos) {
            Parsed::Done { next, value } => Parsed::Done {
                next,
                value: FuncArgM { name: None, value },
            },
            other => other.carry(),
        },
        other => other,
    }
}

/// The arguments of a call from `pos` on, each followed by optional
/// whitespace, with commas between them and possibly one after the last.  An
/// argument that does not match ends the list; a committed failure of an
/// argument is the result.
#[verifier::opaque]
pub open spec fn spec_arg_list(bytes: Seq<u8>, pos: int, acc: Seq<FuncArgM>) -> Parsed<
    Seq<FuncArgM>,
>
    decreases room(bytes, pos), 7int,
{
    if !(0 <= pos <= bytes.len()) {
        Parsed::Done { next: pos, value: acc }
    } else {
        match spec_func_arg(bytes, pos) {
            Parsed::Done { next, value } => if pos < next {
                if has_byte(bytes, blank_end(bytes, next), ',' as u8) {
                    spec_arg_list(
                        bytes,
                        blank_end(bytes, blank_end(bytes, next) + 1),
                        acc.push(value),
                    )
                } else {
                    Parsed::Done { next: blank_end(bytes, next), value: acc.push(value) }
                }
            } else {
                Parsed::Done { next: pos, value: acc }
            },
            Parsed::Miss { .. } => Parsed::Done { next: pos, value: acc },
            Parsed::Fault { trace } => Parsed::Fault { trace },
        }
    }
}

/// The arguments of a call: `(`, the arguments, `)`.  After the `(` every
/// failure is committed.
#[verifier::opaque]
pub open spec fn spec_func_args(bytes: Seq<u8>, pos: int) -> Parsed<Seq<FuncArgM>>
    decreases room(bytes, pos), 0int,
{
    (if has_byte(bytes, pos, '(' as u8) {
        (match spec_arg_list(bytes, blank_end(bytes, pos + 1), Seq::empty()) {
            Parsed::Done { next: end, value } => if has_byte(bytes, end, ')' as u8) {
                Parsed::Done { next: end + 1, value }
            } else {
                Parsed::miss(end, Label::Char)
            },
            other => other,
        }).committed()
    } else {
        Parsed::miss(pos, Label::Char)
    }).within(Label::FuncArgs, pos)
}

/// The call of an annotation: a named type and, at once, the arguments.
///
/// In function/constructor-call annotations whitespace is not allowed in
/// front of the parentheses grouping the call arguments.  When an annotation
/// is applied to a function declaration, this helps differentiating between
/// the annotation arguments and the return type of the annotated function
/// (which may be a tuple).
#[verifier::opaque]
pub open spec fn spec_annotation_func_call(bytes: Seq<u8>, pos: int) -> Parsed<FuncCallM>
    decreases room(bytes, pos), 1int,
{
    (match spec_not_func_type(bytes, pos).onward(bytes, pos) {
        Parsed::Done { next, value: ident } => match spec_func_args(bytes, next) {
            Parsed::Done { next: end, value: args } => Parsed::Done {
                next: end,
                value: FuncCallM { ident, args },
            },
            other => other.carry(),
        },
        other => other.carry(),
    }).within(Label::FuncCall, pos)
}

/// A call: a named type, optional whitespace and comments, the arguments.
#[verifier::opaque]
pub open spec fn spec_func_call(bytes: Seq<u8>, pos: int) -> Parsed<FuncCallM>
    decreases room(bytes, pos), 1int,
{
    (match spec_not_func_type(bytes, pos).onward(bytes, pos) {
        Parsed::Done { next, value: ident } => match spec_skip_spbrc(bytes, next).onward(bytes, next) {
            Parsed::Done { next: open, .. } => match spec_func_args(bytes, open) {
                Parsed::Done { next: end, value: args } => Parsed::Done {
                    next: end,
                    value: FuncCallM { ident, args },
                },
                other => other.carry(),
            },
            other => other.carry(),
        },
        other => other.carry(),
    }).within(Label::FuncCall, pos)
}

/// Parse a named argument.
fn func_arg_named<'s>(input: &'s str, pos: usize) -> (r: PResult<FuncArg<'s>>)
    requires
        pos <= bytes_of(input).len(),
    ensures
        outcome(r) == spec_func_arg_named(bytes_of(input), pos as int),
        advances(r, pos, bytes_of(input).len()),
    decreases bytes_of(input).len() - pos, 5int,
{
    proof {
        reveal(spec_func_arg_named);
        reveal(spec_expr);
    }
    let (end, name) = identifier(input, pos)?;
    let (colon, _) = skip_spbrc(input, end)?;
    if !peek(input, colon, ':' as u8) {
        return Err(ParseError::miss(colon, Label::Char));
    }
    let (start, _) = skip_spbrc(input, colon + 1)?;
    proof {
        lemma_clean_cut(input, start as int);
    }
    let (next, value) = expr(input, start)?;
    Ok((next, FuncArg { name: Some(name), value }))
}

/// Parse an argument of a call.
pub fn func_arg<'s>(input: &'s str, pos: usize) -> (r: PResult<FuncArg<'s>>)
    requires
        pos <= bytes_of(input).len(),
        is_char_boundary(bytes_of(input), pos as int),
    ensures
        outcome(r) == spec_func_arg(bytes_of(input), pos as int),
        advances(r, pos, bytes_of(input).len()),
    decreases bytes_of(input).len() - pos, 6int,
{
    proof {
        reveal(spec_func_arg);
        reveal(spec_func_arg_named);
        reveal(spec_expr);
    }
    match func_arg_named(input, pos) {
        Ok(done) => {
            return Ok(done);
        },
        Err(e) => if e.fatal {
            return Err(e);
        },
    }
    let (next, value) = expr(input, pos)?;
    Ok((next, FuncArg { name: None, value }))
}

/// Parse the arguments of a call, without the brackets.
fn arg_list<'s>(input: &'s str, pos: usize) -> (r: PResult<Vec<FuncArg<'s>>>)
    requires
        pos <= bytes_of(input).len(),
        clean_cut(bytes_of(input), pos as int),
    ensures
        outcome(r) == spec_arg_list(bytes_of(input), pos as int, Seq::empty()),
        stays(r, pos, bytes_of(input).len()),
    decreases bytes_of(input).len() - pos, 7int,
{
    proof {
        reveal(spec_arg_list);
        reveal(spec_func_arg);
    }
    let mut args: Vec<FuncArg<'s>> = Vec::new();
    let mut cur = pos;
    let ghost bytes = bytes_of(input);
    proof {
        lemma_model_empty(args);
    }
    loop
        invariant
            bytes == bytes_of(input),
            pos <= cur <= bytes.len(),
            clean_cut(bytes, cur as int),
            spec_arg_list(bytes, pos as int, Seq::empty()) == spec_arg_list(
                bytes,
                cur as int,
                args.model(),
            ),
        decreases bytes.len() - cur,
    {
        proof {
            reveal(spec_arg_list);
            reveal(spec_func_arg);
        }
        proof {
            lemma_clean_cut(input, cur as int);
        }
        match func_arg(input, cur) {
            Ok((next, arg)) => {
                let ghost before = args;
                args.push(arg);
                proof {
                    lemma_model_push(before, args, arg);
                }
                let comma = skip_blank(input, next);
                if peek(input, comma, ',' as u8) {
                    cur = skip_blank(input, comma + 1);
                } else {
                    return Ok((comma, args));
                }
            },
            Err(e) => {
                if e.fatal {
                    return Err(e);
                }
                return Ok((cur, args));
            },
        }
    }
}

/// Parse the arguments of a call.
pub fn func_args<'s>(input: &'s str, pos: usize) -> (r: PResult<Vec<FuncArg<'s>>>)
    requires
        pos <= bytes_of(input).len(),
    ensures
        outcome(r) == spec_func_args(bytes_of(input), pos as int),
        advances(r, pos, bytes_of(input).len()),
    decreases bytes_of(input).len() - pos, 0int,
{
    proof {
        reveal(spec_func_args);
        reveal(spec_arg_list);
    }
    if !peek(input, pos, '(' as u8) {
        return framed(Err(ParseError::miss(pos, Label::Char)), Label::FuncArgs, pos);
    }
    let start = skip_blank(input, pos + 1);
    let (end, args) = match arg_list(input, start) {
        Ok(done) => done,
        Err(e) => {
            return framed(cut(Err(e)), Label::FuncArgs, pos);
        },
    };
    if peek(input, end, ')' as u8) {
        Ok((end + 1, args))
    } else {
        framed(cut(Err(ParseError::miss(end, Label::Char))), Label::FuncArgs, pos)
    }
}

/// Parse the call of an annotation.
pub fn annotation_func_call<'s>(input: &'s str, pos: usize) -> (r: PResult<FuncCall<'s>>)
    requires
        pos <= bytes_of(input).len(),
    ensures
        outcome(r) == spec_annotation_func_call(bytes_of(input), pos as int),
        advances(r, pos, bytes_of(input).len()),
    decreases bytes_of(input).len() - pos, 1int,
{
    proof {
        reveal(spec_annotation_func_call);
        reveal(spec_not_func_type);
        reveal(spec_func_args);
    }
    let (next, ident) = match not_func_type(input, pos) {
        Ok(done) => done,
        Err(e) => {
            return framed(Err(e), Label::FuncCall, pos);
        },
    };
    match func_args(input, next) {
        Ok((end, args)) => Ok((end, FuncCall { ident, args })),
        Err(e) => framed(Err(e), Label::FuncCall, pos),
    }
}

/// Parse a call.
pub fn func_call<'s>(input: &'s str, pos: usize) -> (r: PResult<FuncCall<'s>>)
    requires
        pos <= bytes_of(input).len(),
    ensures
        outcome(r) == spec_func_call(bytes_of(input), pos as int),
        advances(r, pos, bytes_of(input).len()),
    decreases bytes_of(input).len() - pos, 1int,
{
    proof {
        reveal(spec_func_call);
        reveal(spec_not_func_type);
        reveal(spec_func_args);
    }
    let (next, ident) = match not_func_type(input, pos) {
        Ok(done) => done,
        Err(e) => {
            return framed(Err(e), Label::FuncCall, pos);
        },
    };
    let open = match skip_spbrc(input, next) {
        Ok((open, _)) => open,
        Err(e) => {
            return framed(Err(e), Label::FuncCall, pos);
        },
    };
    match func_args(input, open) {
        Ok((end, args)) => Ok((end, FuncCall { ident, args })),
        Err(e) => framed(Err(e), Label::FuncCall, pos),
    }
}

} // verus!
