//! Enums.

use vstd::prelude::*;
use vstd::string::*;
use crate::dart::class::{ClassMember, ClassMemberM};
use crate::dart::enum_ty::{EnumTy, EnumTyM, EnumValue, EnumValueM};
use crate::dart::func_call::FuncArg;
use crate::dart::meta::{WithMeta, WithMetaM};
use crate::dart::ty::NotFuncType;
use crate::model::{Model, lemma_model_empty, lemma_model_push};
use crate::parser::class::{
    implements_clause, member_list, spec_implements_clause, spec_member_list, spec_opt_clause,
};
use crate::parser::comment::{skip_spbrc, space, spec_skip_spbrc, spec_space};
use crate::parser::func_call::{func_args, spec_func_args};
use crate::parser::identifier::{identifier, spec_identifier};
use crate::parser::meta::{meta, spec_with_meta, with_meta};
use crate::parser::outcome::{Label, PResult, Parsed, advances, cut, framed, outcome, stays};
use crate::parser::text::{
    blank_end, byte, bytes_of, has_byte, peek, room, skip_blank, spec_byte, spec_tag, tag,
};

verus! {

/// A value of an enum: a name and, optionally, the arguments of its
/// constructor call, each followed by optional whitespace.
#[verifier::opaque]
pub open spec fn spec_enum_value(bytes: Seq<u8>, pos: int) -> Parsed<EnumValueM> {
    (match spec_identifier(bytes, pos) {
        Parsed::Done { next: end, value: name } => match spec_func_args(
            bytes,
            blank_end(bytes, end),
        ) {
            Parsed::Done { next, value: args } => Parsed::Done {
                next: blank_end(bytes, next),
                value: EnumValueM { name, args },
            },
            Parsed::Miss { .. } => Parsed::Done {
                next: blank_end(bytes, end),
                value: EnumValueM { name, args: Seq::empty() },
            },
            Parsed::Fault { trace } => Parsed::Fault { trace },
        },
        other => other.carry(),
    }).within(Label::EnumValue, pos)
}

/// Parse a value of an enum.
pub fn enum_value<'s>(input: &'s str, pos: usize) -> (r: PResult<EnumValue<'s>>)
    requires
        pos <= bytes_of(input).len(),
    ensures
        outcome(r) == spec_enum_value(bytes_of(input), pos as int),
        advances(r, pos, bytes_of(input).len()),
{
    proof {
        reveal(spec_enum_value);
    }
    let (end, name) = match identifier(input, pos) {
        Ok(done) => done,
        Err(e) => {
            return framed(Err(e), Label::EnumValue, pos);
        },
    };
    let open = skip_blank(input, end);
    match func_args(input, open) {
        Ok((next, args)) => Ok((skip_blank(input, next), EnumValue { name, args })),
        Err(e) => {
            if e.fatal {
                return framed(Err(e), Label::EnumValue, pos);
            }
            let args: Vec<FuncArg<'s>> = Vec::new();
            proof {
                lemma_model_empty(args);
            }
            Ok((open, EnumValue { name, args }))
        },
    }
}

/// The values of an enum from `pos` on, each with its metadata and followed
/// by optional whitespace and comments, with commas between them and
/// possibly one after the last.  A value that does not match ends the
/// list; a committed failure of a value, or of a comment after it, is the
/// result.
#[verifier::opaque]
pub open spec fn spec_enum_value_list(
    bytes: Seq<u8>,
    pos: int,
    acc: Seq<WithMetaM<EnumValueM>>,
) -> Parsed<Seq<WithMetaM<EnumValueM>>>
    decreases room(bytes, pos),
{
    if !(0 <= pos <= bytes.len()) {
        Parsed::Done { next: pos, value: acc }
    } else {
        match spec_with_meta(bytes, pos, |at: int| spec_enum_value(bytes, at)) {
            Parsed::Done { next, value } => match spec_skip_spbrc(bytes, next) {
                Parsed::Done { next: end, .. } => if pos < end <= bytes.len() {
                    if has_byte(bytes, end, ',' as u8) {
                        spec_enum_value_list(bytes, blank_end(bytes, end + 1), acc.push(value))
                    } else {
                        Parsed::Done { next: end, value: acc.push(value) }
                    }
                } else {
                    Parsed::Done { next: pos, value: acc }
                },
                Parsed::Miss { .. } => Parsed::Done { next: pos, value: acc },
                Parsed::Fault { trace } => Parsed::Fault { trace },
            },
            Parsed::Miss { .. } => Parsed::Done { next: pos, value: acc },
            Parsed::Fault { trace } => Parsed::Fault { trace },
        }
    }
}

/// Parse the values of an enum.
fn enum_value_list<'s>(input: &'s str, pos: usize) -> (r: PResult<
    Vec<WithMeta<'s, EnumValue<'s>>>,
>)
    requires
        pos <= bytes_of(input).len(),
    ensures
        outcome(r) == spec_enum_value_list(bytes_of(input), pos as int, Seq::empty()),
        stays(r, pos, bytes_of(input).len()),
{
    let mut values: Vec<WithMeta<'s, EnumValue<'s>>> = Vec::new();
    let mut cur = pos;
    let ghost bytes = bytes_of(input);
    proof {
        lemma_model_empty(values);
    }
    loop
        invariant
            bytes == bytes_of(input),
            pos <= cur <= bytes.len(),
            spec_enum_value_list(bytes, pos as int, Seq::empty()) == spec_enum_value_list(
                bytes,
                cur as int,
                values.model(),
            ),
        decreases bytes.len() - cur,
    {
        proof {
            reveal(spec_enum_value_list);
        }
        let (start, items) = match meta(input, cur) {
            Ok(done) => done,
            Err(e) => {
                if e.fatal {
                    return Err(e.within(Label::WithMeta, cur));
                }
                return Ok((cur, values));
            },
        };
        let (next, value) = match with_meta(items, enum_value(input, start), cur) {
            Ok(done) => done,
            Err(e) => {
                if e.fatal {
                    return Err(e);
                }
                return Ok((cur, values));
            },
        };
        let (end, _) = skip_spbrc(input, next)?;
        let ghost before = values;
        values.push(value);
        proof {
            lemma_model_push(before, values, value);
        }
        if peek(input, end, ',' as u8) {
            cur = skip_blank(input, end + 1);
        } else {
            return Ok((end, values));
        }
    }
}

/// The members of an enum, if `;` stands at `pos`: `;`, optional
/// whitespace, and the members; else none.
#[verifier::opaque]
pub open spec fn spec_enum_members(bytes: Seq<u8>, pos: int) -> Parsed<
    Seq<WithMetaM<ClassMemberM>>,
> {
    if has_byte(bytes, pos, ';' as u8) {
        match spec_member_list(bytes, blank_end(bytes, pos + 1), Seq::empty()) {
            Parsed::Miss { .. } => Parsed::Done { next: pos, value: Seq::empty() },
            other => other,
        }
    } else {
        Parsed::Done { next: pos, value: Seq::empty() }
    }
}

/// What follows the `{` of the body of an enum: optional whitespace, the
/// values, the members, and `}`.
#[verifier::opaque]
pub open spec fn spec_enum_body_tail(bytes: Seq<u8>, pos: int) -> Parsed<
    (Seq<WithMetaM<EnumValueM>>, Seq<WithMetaM<ClassMemberM>>),
> {
    match spec_enum_value_list(bytes, blank_end(bytes, pos), Seq::empty()) {
        Parsed::Done { next: after, value: values } => match spec_enum_members(bytes, after) {
            Parsed::Done { next, value: members } => match spec_byte(bytes, next, '}' as u8) {
                Parsed::Done { next: end, .. } => Parsed::Done {
                    next: end,
                    value: (values, members),
                },
                other => other.carry(),
            },
            other => other.carry(),
        },
        other => other.carry(),
    }
}

/// The body of an enum: `{`, the values, after a `;` the members, and `}`.
/// After the `{` every failure is committed.
#[verifier::opaque]
pub open spec fn spec_enum_body(bytes: Seq<u8>, pos: int) -> Parsed<
    (Seq<WithMetaM<EnumValueM>>, Seq<WithMetaM<ClassMemberM>>),
> {
    (match spec_byte(bytes, pos, '{' as u8) {
        Parsed::Done { next, .. } => spec_enum_body_tail(bytes, next).committed(),
        other => other.carry(),
    }).within(Label::EnumBody, pos)
}

fn enum_members<'s>(input: &'s str, pos: usize) -> (r: PResult<Vec<WithMeta<'s, ClassMember<'s>>>>)
    requires
        pos <= bytes_of(input).len(),
    ensures
        outcome(r) == spec_enum_members(bytes_of(input), pos as int),
        stays(r, pos, bytes_of(input).len()),
{
    proof {
        reveal(spec_enum_members);
    }
    if peek(input, pos, ';' as u8) {
        match member_list(input, skip_blank(input, pos + 1)) {
            Ok(done) => {
                return Ok(done);
            },
            Err(e) => if e.fatal {
                return Err(e);
            },
        }
    }
    let none: Vec<WithMeta<'s, ClassMember<'s>>> = Vec::new();
    proof {
        lemma_model_empty(none);
    }
    Ok((pos, none))
}

fn enum_body_tail<'s>(input: &'s str, pos: usize) -> (r: PResult<
    (Vec<WithMeta<'s, EnumValue<'s>>>, Vec<WithMeta<'s, ClassMember<'s>>>),
>)
    requires
        pos <= bytes_of(input).len(),
    ensures
        outcome(r) == spec_enum_body_tail(bytes_of(input), pos as int),
        advances(r, pos, bytes_of(input).len()),
{
    proof {
        reveal(spec_enum_body_tail);
    }
    let (after, values) = enum_value_list(input, skip_blank(input, pos))?;
    let (next, members) = enum_members(input, after)?;
    let (end, _) = byte(input, next, '}' as u8)?;
    Ok((end, (values, members)))
}

fn enum_body_of<'s>(input: &'s str, pos: usize) -> (r: PResult<
    (Vec<WithMeta<'s, EnumValue<'s>>>, Vec<WithMeta<'s, ClassMember<'s>>>),
>)
    requires
        pos <= bytes_of(input).len(),
    ensures
        outcome(r).within(Label::EnumBody, pos as int) == spec_enum_body(
            bytes_of(input),
            pos as int,
        ),
        advances(r, pos, bytes_of(input).len()),
{
    proof {
        reveal(spec_enum_body);
    }
    let (next, _) = byte(input, pos, '{' as u8)?;
    cut(enum_body_tail(input, next))
}

/// Parse the body of an enum.
pub fn enum_body<'s>(input: &'s str, pos: usize) -> (r: PResult<
    (Vec<WithMeta<'s, EnumValue<'s>>>, Vec<WithMeta<'s, ClassMember<'s>>>),
>)
    requires
        pos <= bytes_of(input).len(),
    ensures
        outcome(r) == spec_enum_body(bytes_of(input), pos as int),
        advances(r, pos, bytes_of(input).len()),
{
    framed(enum_body_of(input, pos), Label::EnumBody, pos)
}

/// An enum: `enum`, whitespace, the name, optional interfaces, and the
/// body.
#[verifier::opaque]
pub open spec fn spec_enum_ty(bytes: Seq<u8>, pos: int) -> Parsed<EnumTyM> {
    (match spec_tag(bytes, pos, bytes_of("enum")) {
        Parsed::Done { next: word, .. } => match spec_space(bytes, word, false) {
            Parsed::Done { next: start, .. } => match spec_identifier(bytes, start) {
                Parsed::Done { next: end, value: name } => match spec_opt_clause(
                    bytes,
                    blank_end(bytes, end),
                    spec_implements_clause(bytes, blank_end(bytes, end)),
                ) {
                    Parsed::Done { next: open, value: implements } => match spec_enum_body(
                        bytes,
                        open,
                    ) {
                        Parsed::Done { next, value: (values, members) } => Parsed::Done {
                            next,
                            value: EnumTyM { name, implements, values, members },
                        },
                        other => other.carry(),
                    },
                    other => other.carry(),
                },
                other => other.carry(),
            },
            other => other.carry(),
        },
        other => other.carry(),
    }).within(Label::EnumTy, pos)
}

fn enum_ty_of<'s>(input: &'s str, pos: usize) -> (r: PResult<EnumTy<'s>>)
    requires
        pos <= bytes_of(input).len(),
    ensures
        outcome(r).within(Label::EnumTy, pos as int) == spec_enum_ty(bytes_of(input), pos as int),
        advances(r, pos, bytes_of(input).len()),
{
    proof {
        reveal(spec_enum_ty);
    }
    let (word, _) = tag(input, pos, "enum")?;
    let (start, _) = space(input, word, false)?;
    let (end, name) = identifier(input, start)?;
    let clause = skip_blank(input, end);
    let (open, implements) = match implements_clause(input, clause) {
        Ok((next, types)) => (skip_blank(input, next), types),
        Err(e) => {
            if e.fatal {
                return Err(e);
            }
            let none: Vec<NotFuncType<'s>> = Vec::new();
            proof {
                lemma_model_empty(none);
            }
            (clause, none)
        },
    };
    let (next, (values, members)) = enum_body(input, open)?;
    Ok((next, EnumTy { name, implements, values, members }))
}

/// Parse an enum.
pub fn enum_ty<'s>(input: &'s str, pos: usize) -> (r: PResult<EnumTy<'s>>)
    requires
        pos <= bytes_of(input).len(),
    ensures
        outcome(r) == spec_enum_ty(bytes_of(input), pos as int),
        advances(r, pos, bytes_of(input).len()),
{
    framed(enum_ty_of(input, pos), Label::EnumTy, pos)
}

} // verus!
