//! Type aliases.

use vstd::prelude::*;
use vstd::string::*;
use crate::dart::typedef::{TypeDef, TypeDefM};
use crate::parser::comment::{space, spec_space};
use crate::parser::identifier::{identifier, spec_identifier};
use crate::parser::outcome::{Label, PResult, Parsed, advances, framed, outcome};
use crate::parser::text::{blank_end, byte, bytes_of, skip_blank, spec_byte, spec_tag, tag};
use crate::parser::ty::{spec_ty, ty};
use crate::parser::type_params::{opt_type_params, spec_opt_type_params};

verus! {

/// A type alias: `typedef`, whitespace, a name, optional type parameters,
/// `=`, a type and `;`.
#[verifier::opaque]
pub open spec fn spec_typedef(bytes: Seq<u8>, pos: int) -> Parsed<TypeDefM> {
    (match spec_tag(bytes, pos, bytes_of("typedef")) {
        Parsed::Done { next: word, .. } => match spec_space(bytes, word, false) {
            Parsed::Done { next: start, .. } => match spec_identifier(bytes, start) {
                Parsed::Done { next: end, value: name } => match spec_opt_type_params(
                    bytes,
                    blank_end(bytes, end),
                ) {
                    Parsed::Done { next: after, value: type_params } => match spec_byte(
                        bytes,
                        blank_end(bytes, after),
                        '=' as u8,
                    ) {
                        Parsed::Done { next: sign, .. } => match spec_ty(
                            bytes,
                            blank_end(bytes, sign),
                        ) {
                            Parsed::Done { next: last, value: target } => match spec_byte(
                                bytes,
                                blank_end(bytes, last),
                                ';' as u8,
                            ) {
                                Parsed::Done { next, .. } => Parsed::Done {
                                    next,
                                    value: TypeDefM { name, type_params, target },
                                },
                                other => other.carry(),
                            },
                            other => other.carry(),
                        },
                        other => other.carry(),
                    },
                    other => other.carry(),
                },
                other => other.carry(),
            },
            other => other.carry(),
        },
        other => other.carry(),
    }).within(Label::Typedef, pos)
}

fn typedef_body<'s>(input: &'s str, pos: usize) -> (r: PResult<TypeDef<'s>>)
    requires
        pos <= bytes_of(input).len(),
    ensures
        outcome(r).within(Label::Typedef, pos as int) == spec_typedef(bytes_of(input), pos as int),
        advances(r, pos, bytes_of(input).len()),
{
    proof {
        reveal(spec_typedef);
    }
    let (word, _) = tag(input, pos, "typedef")?;
    let (start, _) = space(input, word, false)?;
    let (end, name) = identifier(input, start)?;
    let (after, type_params) = opt_type_params(input, skip_blank(input, end))?;
    let (sign, _) = byte(input, skip_blank(input, after), '=' as u8)?;
    let (last, target) = ty(input, skip_blank(input, sign))?;
    let (next, _) = byte(input, skip_blank(input, last), ';' as u8)?;
    Ok((next, TypeDef { name, type_params, target }))
}

/// Parse a type alias.
pub fn typedef<'s>(input: &'s str, pos: usize) -> (r: PResult<TypeDef<'s>>)
    requires
        pos <= bytes_of(input).len(),
    ensures
        outcome(r) == spec_typedef(bytes_of(input), pos as int),
        advances(r, pos, bytes_of(input).len()),
{
    framed(typedef_body(input, pos), Label::Typedef, pos)
}

} // verus!
