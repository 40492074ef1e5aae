//! Extensions.

use vstd::prelude::*;
use vstd::string::*;
use crate::dart::extension::{Extension, ExtensionM, ExtensionMember, ExtensionMemberM};
use crate::dart::meta::{WithMeta, WithMetaM};
use crate::dart::type_param::{TypeParam, TypeParamM};
use crate::model::{Model, lemma_model_empty, lemma_model_push};
use crate::parser::comment::{space, spec_space};
use crate::parser::func_like::{func_like, spec_func_like};
use crate::parser::identifier::{identifier, spec_identifier};
use crate::parser::meta::{meta, spec_with_meta, with_meta};
use crate::parser::outcome::{Label, PResult, Parsed, advances, cut, framed, outcome, stays};
use crate::parser::text::{blank_end, byte, bytes_of, room, skip_blank, spec_byte, spec_tag, tag};
use crate::parser::ty::{spec_ty, ty};
use crate::parser::type_params::{opt_type_params, spec_opt_type_params};
use crate::parser::var::{spec_var, var};

verus! {

/// What follows the name of an extension, or `extension` where it has no
/// name: optional type parameters, `on` and whitespace.
#[verifier::opaque]
pub open spec fn spec_extension_on(bytes: Seq<u8>, pos: int) -> Parsed<Seq<TypeParamM>> {
    match spec_opt_type_params(bytes, pos) {
        Parsed::Done { next, value } => match spec_tag(bytes, next, bytes_of("on")) {
            Parsed::Done { next: word, .. } => match spec_space(bytes, word, false) {
                Parsed::Done { next: end, .. } => Parsed::Done { next: end, value },
                other => other.carry(),
            },
            other => other.carry(),
        },
        other => other.carry(),
    }
}

/// The head of an extension without a name: `extension`, optional
/// whitespace, optional type parameters, `on` and whitespace.
#[verifier::opaque]
pub open spec fn spec_extension_unnamed(bytes: Seq<u8>, pos: int) -> Parsed<
    (Option<Seq<u8>>, Seq<TypeParamM>),
> {
    match spec_tag(bytes, pos, bytes_of("extension")) {
        Parsed::Done { next: word, .. } => match spec_extension_on(bytes, blank_end(bytes, word)) {
            Parsed::Done { next, value } => Parsed::Done { next, value: (None, value) },
            other => other.carry(),
        },
        other => other.carry(),
    }
}

/// The head of an extension with a name: `extension`, whitespace, the name,
/// optional whitespace, optional type parameters, `on` and whitespace.
#[verifier::opaque]
pub open spec fn spec_extension_named(bytes: Seq<u8>, pos: int) -> Parsed<
    (Option<Seq<u8>>, Seq<TypeParamM>),
> {
    match spec_tag(bytes, pos, bytes_of("extension")) {
        Parsed::Done { next: word, .. } => match spec_space(bytes, word, false) {
            Parsed::Done { next: start, .. } => match spec_identifier(bytes, start) {
                Parsed::Done { next: end, value: name } => match spec_extension_on(
                    bytes,
                    blank_end(bytes, end),
                ) {
                    Parsed::Done { next, value } => Parsed::Done {
                        next,
                        value: (Some(name), value),
                    },
                    other => other.carry(),
                },
                other => other.carry(),
            },
            other => other.carry(),
        },
        other => other.carry(),
    }
}

/// A member of an extension: a function, or else a field.
#[verifier::opaque]
pub open spec fn spec_extension_member(bytes: Seq<u8>, pos: int) -> Parsed<ExtensionMemberM> {
    match spec_func_like(bytes, pos) {
        Parsed::Done { next, value } => Parsed::Done {
            next,
            value: ExtensionMemberM::FuncLike(value),
        },
        Parsed::Fault { trace } => Parsed::Fault { trace },
        Parsed::Miss { .. } => match spec_var(bytes, pos) {
            Parsed::Done { next, value } => Parsed::Done {
                next,
                value: ExtensionMemberM::Var(value),
            },
            other => other.carry(),
        },
    }
}

/// The members of an extension from `pos` on, after the members `acc`:
/// each with its metadata and followed by optional whitespace, as many as
/// there are.
#[verifier::opaque]
pub open spec fn spec_extension_members(
    bytes: Seq<u8>,
    pos: int,
    acc: Seq<WithMetaM<ExtensionMemberM>>,
) -> Parsed<Seq<WithMetaM<ExtensionMemberM>>>
    decreases room(bytes, pos),
{
    if !(0 <= pos <= bytes.len()) {
        Parsed::miss(pos, Label::Eof)
    } else {
        match spec_with_meta(bytes, pos, |at: int| spec_extension_member(bytes, at)) {
            Parsed::Done { next, value } => if pos < next <= bytes.len() && blank_end(bytes, next)
                <= bytes.len() {
                spec_extension_members(bytes, blank_end(bytes, next), acc.push(value))
            } else {
                Parsed::miss(pos, Label::Many0)
            },
            Parsed::Miss { .. } => Parsed::Done { next: pos, value: acc },
            Parsed::Fault { trace } => Parsed::Fault { trace },
        }
    }
}

/// What follows the `{` of the body of an extension: optional whitespace,
/// the members, and `}`.
#[verifier::opaque]
pub open spec fn spec_extension_body_tail(bytes: Seq<u8>, pos: int) -> Parsed<
    Seq<WithMetaM<ExtensionMemberM>>,
> {
    match spec_extension_members(bytes, blank_end(bytes, pos), Seq::empty()) {
        Parsed::Done { next, value } => match spec_byte(bytes, next, '}' as u8) {
            Parsed::Done { next: end, .. } => Parsed::Done { next: end, value },
            other => other.carry(),
        },
        other => other,
    }
}

/// The body of an extension: `{`, the members, `}`.  After the `{` every
/// failure is committed.
#[verifier::opaque]
pub open spec fn spec_extension_body(bytes: Seq<u8>, pos: int) -> Parsed<
    Seq<WithMetaM<ExtensionMemberM>>,
> {
    (match spec_byte(bytes, pos, '{' as u8) {
        Parsed::Done { next, .. } => spec_extension_body_tail(bytes, next).committed(),
        other => other.carry(),
    }).within(Label::ExtensionBody, pos)
}

/// An extension: its head, without a name or else with one, the type that
/// it extends, and its body.
#[verifier::opaque]
pub open spec fn spec_extension(bytes: Seq<u8>, pos: int) -> Parsed<ExtensionM> {
    (match spec_extension_unnamed(bytes, pos).or(spec_extension_named(bytes, pos)) {
        Parsed::Done { next: start, value: (name, type_params) } => match spec_ty(bytes, start) {
            Parsed::Done { next: end, value: on } => match spec_extension_body(
                bytes,
                blank_end(bytes, end),
            ) {
                Parsed::Done { next, value: body } => Parsed::Done {
                    next,
                    value: ExtensionM { name, type_params, on, body },
                },
                other => other.carry(),
            },
            other => other.carry(),
        },
        other => other.carry(),
    }).within(Label::Extension, pos)
}

fn extension_on<'s>(input: &'s str, pos: usize) -> (r: PResult<Vec<TypeParam<'s>>>)
    requires
        pos <= bytes_of(input).len(),
    ensures
        outcome(r) == spec_extension_on(bytes_of(input), pos as int),
        advances(r, pos, bytes_of(input).len()),
{
    proof {
        reveal(spec_extension_on);
    }
    let (next, type_params) = opt_type_params(input, pos)?;
    let (word, _) = tag(input, next, "on")?;
    let (end, _) = space(input, word, false)?;
    Ok((end, type_params))
}

fn extension_unnamed<'s>(input: &'s str, pos: usize) -> (r: PResult<
    (Option<&'s str>, Vec<TypeParam<'s>>),
>)
    requires
        pos <= bytes_of(input).len(),
    ensures
        outcome(r) == spec_extension_unnamed(bytes_of(input), pos as int),
        advances(r, pos, bytes_of(input).len()),
{
    proof {
        reveal(spec_extension_unnamed);
    }
    let (word, _) = tag(input, pos, "extension")?;
    let (next, type_params) = extension_on(input, skip_blank(input, word))?;
    Ok((next, (None, type_params)))
}

fn extension_named<'s>(input: &'s str, pos: usize) -> (r: PResult<
    (Option<&'s str>, Vec<TypeParam<'s>>),
>)
    requires
        pos <= bytes_of(input).len(),
    ensures
        outcome(r) == spec_extension_named(bytes_of(input), pos as int),
        advances(r, pos, bytes_of(input).len()),
{
    proof {
        reveal(spec_extension_named);
    }
    let (word, _) = tag(input, pos, "extension")?;
    let (start, _) = space(input, word, false)?;
    let (end, name) = identifier(input, start)?;
    let (next, type_params) = extension_on(input, skip_blank(input, end))?;
    Ok((next, (Some(name), type_params)))
}

/// Parse a member of an extension.
pub fn extension_member<'s>(input: &'s str, pos: usize) -> (r: PResult<ExtensionMember<'s>>)
    requires
        pos <= bytes_of(input).len(),
    ensures
        outcome(r) == spec_extension_member(bytes_of(input), pos as int),
        advances(r, pos, bytes_of(input).len()),
{
    proof {
        reveal(spec_extension_member);
    }
    match func_like(input, pos) {
        Ok((next, value)) => {
            return Ok((next, ExtensionMember::FuncLike(value)));
        },
        Err(e) => if e.fatal {
            return Err(e);
        },
    }
    let (next, value) = var(input, pos)?;
    Ok((next, ExtensionMember::Var(value)))
}

fn extension_members<'s>(input: &'s str, pos: usize) -> (r: PResult<
    Vec<WithMeta<'s, ExtensionMember<'s>>>,
>)
    requires
        pos <= bytes_of(input).len(),
    ensures
        outcome(r) == spec_extension_members(bytes_of(input), pos as int, Seq::empty()),
        stays(r, pos, bytes_of(input).len()),
{
    let mut members: Vec<WithMeta<'s, ExtensionMember<'s>>> = Vec::new();
    let mut cur = pos;
    let ghost bytes = bytes_of(input);
    proof {
        lemma_model_empty(members);
    }
    loop
        invariant
            bytes == bytes_of(input),
            pos <= cur <= bytes.len(),
            spec_extension_members(bytes, pos as int, Seq::empty()) == spec_extension_members(
                bytes,
                cur as int,
                members.model(),
            ),
        decreases bytes.len() - cur,
    {
        proof {
            reveal(spec_extension_members);
        }
        let (start, items) = match meta(input, cur) {
            Ok(done) => done,
            Err(e) => {
                if e.fatal {
                    return Err(e.within(Label::WithMeta, cur));
                }
                return Ok((cur, members));
            },
        };
        match with_meta(items, extension_member(input, start), cur) {
            Ok((next, member)) => {
                let ghost before = members;
                members.push(member);
                proof {
                    lemma_model_push(before, members, member);
                }
                cur = skip_blank(input, next);
            },
            Err(e) => {
                if e.fatal {
                    return Err(e);
                }
                return Ok((cur, members));
            },
        }
    }
}

fn extension_body_tail<'s>(input: &'s str, pos: usize) -> (r: PResult<
    Vec<WithMeta<'s, ExtensionMember<'s>>>,
>)
    requires
        pos <= bytes_of(input).len(),
    ensures
        outcome(r) == spec_extension_body_tail(bytes_of(input), pos as int),
        advances(r, pos, bytes_of(input).len()),
{
    proof {
        reveal(spec_extension_body_tail);
    }
    let (next, members) = extension_members(input, skip_blank(input, pos))?;
    let (end, _) = byte(input, next, '}' as u8)?;
    Ok((end, members))
}

fn extension_body_of<'s>(input: &'s str, pos: usize) -> (r: PResult<
    Vec<WithMeta<'s, ExtensionMember<'s>>>,
>)
    requires
        pos <= bytes_of(input).len(),
    ensures
        outcome(r).within(Label::ExtensionBody, pos as int) == spec_extension_body(
            bytes_of(input),
            pos as int,
        ),
        advances(r, pos, bytes_of(input).len()),
{
    proof {
        reveal(spec_extension_body);
    }
    let (next, _) = byte(input, pos, '{' as u8)?;
    cut(extension_body_tail(input, next))
}

/// Parse the body of an extension.
pub fn extension_body<'s>(input: &'s str, pos: usize) -> (r: PResult<
    Vec<WithMeta<'s, ExtensionMember<'s>>>,
>)
    requires
        pos <= bytes_of(input).len(),
    ensures
        outcome(r) == spec_extension_body(bytes_of(input), pos as int),
        advances(r, pos, bytes_of(input).len()),
{
    framed(extension_body_of(input, pos), Label::ExtensionBody, pos)
}

fn extension_of<'s>(input: &'s str, pos: usize) -> (r: PResult<Extension<'s>>)
    requires
        pos <= bytes_of(input).len(),
    ensures
        outcome(r).within(Label::Extension, pos as int) == spec_extension(
            bytes_of(input),
            pos as int,
        ),
        advances(r, pos, bytes_of(input).len()),
{
    proof {
        reveal(spec_extension);
    }
    let (start, (name, type_params)) = match extension_unnamed(input, pos) {
        Ok(done) => done,
        Err(e) => {
            if e.fatal {
                return Err(e);
            }
            extension_named(input, pos)?
        },
    };
    let (end, on) = ty(input, start)?;
    let (next, body) = extension_body(input, skip_blank(input, end))?;
    Ok((next, Extension { name, type_params, on, body }))
}

/// Parse an extension.
pub fn extension<'s>(input: &'s str, pos: usize) -> (r: PResult<Extension<'s>>)
    requires
        pos <= bytes_of(input).len(),
    ensures
        outcome(r) == spec_extension(bytes_of(input), pos as int),
        advances(r, pos, bytes_of(input).len()),
{
    framed(extension_of(input, pos), Label::Extension, pos)
}

} // verus!
