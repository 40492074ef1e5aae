//! Variable declarations.

use vstd::prelude::*;
use vstd::string::*;
use vstd::utf8::*;
use crate::dart::expr::{Expr, ExprM};
use crate::dart::var::{Var, VarM, VarModifier, VarModifierSet};
use crate::model::Model;
use crate::parser::expr::{expr, spec_expr};
use crate::parser::func_like::{spec_typed_name, spec_var_word, typed_name, var_word};
use crate::parser::outcome::{
    Label, PResult, ParseError, Parsed, advances, cut, framed, outcome, stays,
};
use crate::parser::text::{
    blank_end, bytes_of, has_byte, has_tag, lemma_clean_cut, length, peek, room, skip_blank,
    starts_with,
};

verus! {

/// The variable modifier at `pos`, and the offset after it.  The words are tried in
/// the order in which they stand here.
pub open spec fn spec_var_modifier(bytes: Seq<u8>, pos: int) -> Option<(VarModifier, int)> {
    if has_tag(bytes, pos, bytes_of("external")) {
        Some((VarModifier::External, pos + bytes_of("external").len()))
    } else if has_tag(bytes, pos, bytes_of("static")) {
        Some((VarModifier::Static, pos + bytes_of("static").len()))
    } else if has_tag(bytes, pos, bytes_of("const")) {
        Some((VarModifier::Const, pos + bytes_of("const").len()))
    } else if has_tag(bytes, pos, bytes_of("final")) {
        Some((VarModifier::Final, pos + bytes_of("final").len()))
    } else if has_tag(bytes, pos, bytes_of("late")) {
        Some((VarModifier::Late, pos + bytes_of("late").len()))
    } else if has_tag(bytes, pos, bytes_of("covariant")) {
        Some((VarModifier::Covariant, pos + bytes_of("covariant").len()))
    } else {
        None
    }
}

/// The variable modifiers from `pos` on, after the variable modifiers `acc`: each stands after
/// whitespace, and is itself followed by whitespace.  The result is the
/// offset after the last of them, and the set.
#[verifier::opaque]
pub open spec fn spec_var_modifier_rest(bytes: Seq<u8>, pos: int, acc: Set<VarModifier>) -> (int, Set<VarModifier>)
    decreases room(bytes, pos),
{
    if !(0 <= pos <= bytes.len()) || blank_end(bytes, pos) == pos {
        (pos, acc)
    } else {
        match spec_var_modifier(bytes, blank_end(bytes, pos)) {
            Some((modifier, end)) => if pos < end <= bytes.len() && blank_end(bytes, end) > end {
                spec_var_modifier_rest(bytes, end, acc.insert(modifier))
            } else {
                (pos, acc)
            },
            None => (pos, acc),
        }
    }
}

/// One or more variable modifiers with whitespace between them.
pub open spec fn spec_var_modifier_set(bytes: Seq<u8>, pos: int) -> Parsed<Set<VarModifier>> {
    match spec_var_modifier(bytes, pos) {
        Some((modifier, end)) => Parsed::Done {
            next: spec_var_modifier_rest(bytes, end, Set::empty().insert(modifier)).0,
            value: spec_var_modifier_rest(bytes, end, Set::empty().insert(modifier)).1,
        },
        None => Parsed::miss(pos, Label::Tag),
    }
}

/// Parse one variable modifier.
pub fn var_modifier(input: &str, pos: usize) -> (r: Option<(VarModifier, usize)>)
    requires
        pos <= bytes_of(input).len(),
    ensures
        r.model() == spec_var_modifier(bytes_of(input), pos as int),
        r matches Some((_, end)) ==> pos <= end <= bytes_of(input).len(),
{
    if starts_with(input, pos, "external") {
        Some((VarModifier::External, pos + length("external")))
    } else if starts_with(input, pos, "static") {
        Some((VarModifier::Static, pos + length("static")))
    } else if starts_with(input, pos, "const") {
        Some((VarModifier::Const, pos + length("const")))
    } else if starts_with(input, pos, "final") {
        Some((VarModifier::Final, pos + length("final")))
    } else if starts_with(input, pos, "late") {
        Some((VarModifier::Late, pos + length("late")))
    } else if starts_with(input, pos, "covariant") {
        Some((VarModifier::Covariant, pos + length("covariant")))
    } else {
        None
    }
}

/// Parse one or more variable modifiers.
pub fn var_modifier_set(input: &str, pos: usize) -> (r: PResult<VarModifierSet>)
    requires
        pos <= bytes_of(input).len(),
    ensures
        outcome(r) == spec_var_modifier_set(bytes_of(input), pos as int),
        stays(r, pos, bytes_of(input).len()),
{
    let (first, start) = match var_modifier(input, pos) {
        Some(found) => found,
        None => {
            return Err(ParseError::miss(pos, Label::Tag));
        },
    };
    let mut set = VarModifierSet::default().with(first);
    let mut cur = start;
    let ghost bytes = bytes_of(input);
    assert(set.members() =~= Set::empty().insert(first));
    loop
        invariant
            bytes == bytes_of(input),
            pos <= start <= cur <= bytes.len(),
            spec_var_modifier(bytes, pos as int) == Some((first, start as int)),
            spec_var_modifier_rest(bytes, start as int, Set::empty().insert(first)) == spec_var_modifier_rest(
                bytes,
                cur as int,
                set.members(),
            ),
        decreases bytes.len() - cur,
    {
        proof {
            reveal(spec_var_modifier_rest);
        }
        let word = skip_blank(input, cur);
        if word == cur {
            return Ok((cur, set));
        }
        match var_modifier(input, word) {
            Some((modifier, end)) => {
                if end > cur && skip_blank(input, end) > end {
                    set = set.with(modifier);
                    cur = end;
                } else {
                    return Ok((cur, set));
                }
            },
            None => {
                return Ok((cur, set));
            },
        }
    }
}

/// The modifiers of a variable and the whitespace after them, where both
/// stand at `pos`; else no modifiers, at `pos`.  Modifiers are words
/// without a commit point.
pub open spec fn spec_var_modifiers(bytes: Seq<u8>, pos: int) -> (int, Set<VarModifier>) {
    match spec_var_modifier_set(bytes, pos) {
        Parsed::Done { next, value } if blank_end(bytes, next) > next => (
            blank_end(bytes, next),
            value,
        ),
        _ => (pos, Set::empty()),
    }
}

/// Parse the modifiers of a variable, if there are any.
pub fn var_modifiers(input: &str, pos: usize) -> (r: (usize, VarModifierSet))
    requires
        pos <= bytes_of(input).len(),
    ensures
        (r.0 as int, r.1.members()) == spec_var_modifiers(bytes_of(input), pos as int),
        pos <= r.0 <= bytes_of(input).len(),
{
    match var_modifier_set(input, pos) {
        Ok((next, set)) => {
            let end = skip_blank(input, next);
            if end > next {
                return (end, set);
            }
        },
        Err(_) => {},
    }
    (pos, VarModifierSet::default())
}

/// The initializer of a variable, if `=` stands at `pos`: `=`, an
/// expression, and optional whitespace around it.  After the `=` every
/// failure is committed.
#[verifier::opaque]
pub open spec fn spec_var_initializer(bytes: Seq<u8>, pos: int) -> Parsed<Option<ExprM>> {
    if has_byte(bytes, pos, '=' as u8) {
        match spec_expr(bytes, blank_end(bytes, pos + 1)) {
            Parsed::Done { next, value } => Parsed::Done {
                next: blank_end(bytes, next),
                value: Some(value),
            },
            other => other.carry().committed(),
        }
    } else {
        Parsed::Done { next: pos, value: None }
    }
}

/// A variable declaration: optional modifiers, an optional `var`, a type
/// and a name or just a name, an optional initializer, and `;`.
#[verifier::opaque]
pub open spec fn spec_var(bytes: Seq<u8>, pos: int) -> Parsed<VarM> {
    (match spec_var_word(bytes, spec_var_modifiers(bytes, pos).0, false) {
        Parsed::Done { next: start, .. } => match spec_typed_name(bytes, start, false, true) {
            Parsed::Done { next: end, value: (var_type, name) } => match spec_var_initializer(
                bytes,
                end,
            ) {
                Parsed::Done { next: last, value: initializer } => if has_byte(
                    bytes,
                    last,
                    ';' as u8,
                ) {
                    Parsed::Done {
                        next: last + 1,
                        value: VarM {
                            modifiers: spec_var_modifiers(bytes, pos).1,
                            var_type,
                            name,
                            initializer,
                        },
                    }
                } else {
                    Parsed::miss(last, Label::Char)
                },
                other => other.carry(),
            },
            other => other.carry(),
        },
        other => other.carry(),
    }).within(Label::Var, pos)
}

/// Parse the initializer of a variable, if there is one.
fn var_initializer<'s>(input: &'s str, pos: usize) -> (r: PResult<Option<Expr<'s>>>)
    requires
        pos <= bytes_of(input).len(),
    ensures
        outcome(r) == spec_var_initializer(bytes_of(input), pos as int),
        stays(r, pos, bytes_of(input).len()),
{
    proof {
        reveal(spec_var_initializer);
    }
    if !peek(input, pos, '=' as u8) {
        return Ok((pos, None));
    }
    let start = skip_blank(input, pos + 1);
    proof {
        lemma_clean_cut(input, start as int);
    }
    match expr(input, start) {
        Ok((next, value)) => Ok((skip_blank(input, next), Some(value))),
        Err(e) => cut(Err(e)),
    }
}

fn var_body<'s>(input: &'s str, pos: usize) -> (r: PResult<Var<'s>>)
    requires
        pos <= bytes_of(input).len(),
    ensures
        outcome(r).within(Label::Var, pos as int) == spec_var(bytes_of(input), pos as int),
        advances(r, pos, bytes_of(input).len()),
{
    proof {
        reveal(spec_var);
    }
    let (word, modifiers) = var_modifiers(input, pos);
    let (start, _) = var_word(input, word, false)?;
    let (end, (var_type, name)) = typed_name(input, start, false, true)?;
    let (last, initializer) = var_initializer(input, end)?;
    if peek(input, last, ';' as u8) {
        Ok((last + 1, Var { modifiers, var_type, name, initializer }))
    } else {
        Err(ParseError::miss(last, Label::Char))
    }
}

/// Parse a variable declaration.
pub fn var<'s>(input: &'s str, pos: usize) -> (r: PResult<Var<'s>>)
    requires
        pos <= bytes_of(input).len(),
    ensures
        outcome(r) == spec_var(bytes_of(input), pos as int),
        advances(r, pos, bytes_of(input).len()),
{
    framed(var_body(input, pos), Label::Var, pos)
}

} // verus!
