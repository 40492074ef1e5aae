//! Functions, getters, setters and operators, and their parameters.

use vstd::prelude::*;
use vstd::string::*;
use vstd::utf8::*;
use crate::dart::expr::{Expr, ExprM};
use crate::dart::func_like::{
    Func, FuncBody, FuncBodyContent, FuncBodyContentM, FuncBodyM, FuncBodyModifier, FuncLike,
    FuncLikeM, FuncM, FuncModifier, FuncModifierSet, FuncParam, FuncParamM, FuncParamModifier,
    FuncParamModifierSet, FuncParams, FuncParamsExtra, FuncParamsExtraM, FuncParamsM, Getter,
    GetterM, Operator, OperatorM, Setter, SetterM, UserDefOperator,
};
use crate::dart::maybe_required::{MaybeRequired, MaybeRequiredM};
use crate::dart::meta::{WithMeta, WithMetaM};
use crate::dart::ty::{Type, TypeM};
use crate::model::{Model, lemma_model_empty, lemma_model_push};
use crate::parser::comment::{gap, skip_spbrc, space, spec_gap, spec_skip_spbrc, spec_space};
use crate::parser::expr::{block, expr, spec_block, spec_expr};
use crate::parser::identifier::{identifier, spec_identifier};
use crate::parser::maybe_required::{maybe_required, spec_maybe_required};
use crate::parser::meta::{meta, spec_with_meta, with_meta};
use crate::parser::outcome::{
    Label, PResult, ParseError, Parsed, advances, cut, framed, outcome, stays,
};
use crate::parser::text::{
    blank_end, bytes_of, clean_cut, has_byte, has_tag, lemma_clean_cut, length, peek, room,
    skip_blank, spec_tag, starts_with, tag,
};
use crate::parser::ty::{spec_ty, ty};
use crate::parser::type_params::{opt_type_params, spec_opt_type_params};

verus! {

/// The function modifier at `pos`, and the offset after it.  The words are tried in
/// the order in which they stand here.
pub open spec fn spec_func_modifier(bytes: Seq<u8>, pos: int) -> Option<(FuncModifier, int)> {
    if has_tag(bytes, pos, bytes_of("external")) {
        Some((FuncModifier::External, pos + bytes_of("external").len()))
    } else if has_tag(bytes, pos, bytes_of("static")) {
        Some((FuncModifier::Static, pos + bytes_of("static").len()))
    } else {
        None
    }
}

/// The function modifiers from `pos` on, after the function modifiers `acc`: each stands after
/// whitespace.  The result is the
/// offset after the last of them, and the set.
#[verifier::opaque]
pub open spec fn spec_func_modifier_rest(bytes: Seq<u8>, pos: int, acc: Set<FuncModifier>) -> (int, Set<FuncModifier>)
    decreases room(bytes, pos),
{
    if !(0 <= pos <= bytes.len()) || blank_end(bytes, pos) == pos {
        (pos, acc)
    } else {
        match spec_func_modifier(bytes, blank_end(bytes, pos)) {
            Some((modifier, end)) => if pos < end <= bytes.len() {
                spec_func_modifier_rest(bytes, end, acc.insert(modifier))
            } else {
                (pos, acc)
            },
            None => (pos, acc),
        }
    }
}

/// One or more function modifiers with whitespace between them.
pub open spec fn spec_func_modifier_set(bytes: Seq<u8>, pos: int) -> Parsed<Set<FuncModifier>> {
    match spec_func_modifier(bytes, pos) {
        Some((modifier, end)) => Parsed::Done {
            next: spec_func_modifier_rest(bytes, end, Set::empty().insert(modifier)).0,
            value: spec_func_modifier_rest(bytes, end, Set::empty().insert(modifier)).1,
        },
        None => Parsed::miss(pos, Label::Tag),
    }
}

/// Parse one function modifier.
pub fn func_modifier(input: &str, pos: usize) -> (r: Option<(FuncModifier, usize)>)
    requires
        pos <= bytes_of(input).len(),
    ensures
        r.model() == spec_func_modifier(bytes_of(input), pos as int),
        r matches Some((_, end)) ==> pos <= end <= bytes_of(input).len(),
{
    if starts_with(input, pos, "external") {
        Some((FuncModifier::External, pos + length("external")))
    } else if starts_with(input, pos, "static") {
        Some((FuncModifier::Static, pos + length("static")))
    } else {
        None
    }
}

/// Parse one or more function modifiers.
pub fn func_modifier_set(input: &str, pos: usize) -> (r: PResult<FuncModifierSet>)
    requires
        pos <= bytes_of(input).len(),
    ensures
        outcome(r) == spec_func_modifier_set(bytes_of(input), pos as int),
        stays(r, pos, bytes_of(input).len()),
{
    let (first, start) = match func_modifier(input, pos) {
        Some(found) => found,
        None => {
            return Err(ParseError::miss(pos, Label::Tag));
        },
    };
    let mut set = FuncModifierSet::default().with(first);
    let mut cur = start;
    let ghost bytes = bytes_of(input);
    assert(set.members() =~= Set::empty().insert(first));
    loop
        invariant
            bytes == bytes_of(input),
            pos <= start <= cur <= bytes.len(),
            spec_func_modifier(bytes, pos as int) == Some((first, start as int)),
            spec_func_modifier_rest(bytes, start as int, Set::empty().insert(first)) == spec_func_modifier_rest(
                bytes,
                cur as int,
                set.members(),
            ),
        decreases bytes.len() - cur,
    {
        proof {
            reveal(spec_func_modifier_rest);
        }
        let word = skip_blank(input, cur);
        if word == cur {
            return Ok((cur, set));
        }
        match func_modifier(input, word) {
            Some((modifier, end)) => {
                if end > cur {
                    set = set.with(modifier);
                    cur = end;
                } else {
                    return Ok((cur, set));
                }
            },
            None => {
                return Ok((cur, set));
            },
        }
    }
}

/// The parameter modifier at `pos`, and the offset after it.  The words are tried in
/// the order in which they stand here.
pub open spec fn spec_func_param_modifier(bytes: Seq<u8>, pos: int) -> Option<(FuncParamModifier, int)> {
    if has_tag(bytes, pos, bytes_of("covariant")) {
        Some((FuncParamModifier::Covariant, pos + bytes_of("covariant").len()))
    } else if has_tag(bytes, pos, bytes_of("final")) {
        Some((FuncParamModifier::Final, pos + bytes_of("final").len()))
    } else {
        None
    }
}

/// The parameter modifiers from `pos` on, after the parameter modifiers `acc`: each stands after
/// whitespace.  The result is the
/// offset after the last of them, and the set.
#[verifier::opaque]
pub open spec fn spec_func_param_modifier_rest(bytes: Seq<u8>, pos: int, acc: Set<FuncParamModifier>) -> (int, Set<FuncParamModifier>)
    decreases room(bytes, pos),
{
    if !(0 <= pos <= bytes.len()) || blank_end(bytes, pos) == pos {
        (pos, acc)
    } else {
        match spec_func_param_modifier(bytes, blank_end(bytes, pos)) {
            Some((modifier, end)) => if pos < end <= bytes.len() {
                spec_func_param_modifier_rest(bytes, end, acc.insert(modifier))
            } else {
                (pos, acc)
            },
            None => (pos, acc),
        }
    }
}

/// One or more parameter modifiers with whitespace between them.
pub open spec fn spec_func_param_modifier_set(bytes: Seq<u8>, pos: int) -> Parsed<Set<FuncParamModifier>> {
    match spec_func_param_modifier(bytes, pos) {
        Some((modifier, end)) => Parsed::Done {
            next: spec_func_param_modifier_rest(bytes, end, Set::empty().insert(modifier)).0,
            value: spec_func_param_modifier_rest(bytes, end, Set::empty().insert(modifier)).1,
        },
        None => Parsed::miss(pos, Label::Tag),
    }
}

/// Parse one parameter modifier.
pub fn func_param_modifier(input: &str, pos: usize) -> (r: Option<(FuncParamModifier, usize)>)
    requires
        pos <= bytes_of(input).len(),
    ensures
        r.model() == spec_func_param_modifier(bytes_of(input), pos as int),
        r matches Some((_, end)) ==> pos <= end <= bytes_of(input).len(),
{
    if starts_with(input, pos, "covariant") {
        Some((FuncParamModifier::Covariant, pos + length("covariant")))
    } else if starts_with(input, pos, "final") {
        Some((FuncParamModifier::Final, pos + length("final")))
    } else {
        None
    }
}

/// Parse one or more parameter modifiers.
pub fn func_param_modifier_set(input: &str, pos: usize) -> (r: PResult<FuncParamModifierSet>)
    requires
        pos <= bytes_of(input).len(),
    ensures
        outcome(r) == spec_func_param_modifier_set(bytes_of(input), pos as int),
        stays(r, pos, bytes_of(input).len()),
{
    let (first, start) = match func_param_modifier(input, pos) {
        Some(found) => found,
        None => {
            return Err(ParseError::miss(pos, Label::Tag));
        },
    };
    let mut set = FuncParamModifierSet::default().with(first);
    let mut cur = start;
    let ghost bytes = bytes_of(input);
    assert(set.members() =~= Set::empty().insert(first));
    loop
        invariant
            bytes == bytes_of(input),
            pos <= start <= cur <= bytes.len(),
            spec_func_param_modifier(bytes, pos as int) == Some((first, start as int)),
            spec_func_param_modifier_rest(bytes, start as int, Set::empty().insert(first)) == spec_func_param_modifier_rest(
                bytes,
                cur as int,
                set.members(),
            ),
        decreases bytes.len() - cur,
    {
        proof {
            reveal(spec_func_param_modifier_rest);
        }
        let word = skip_blank(input, cur);
        if word == cur {
            return Ok((cur, set));
        }
        match func_param_modifier(input, word) {
            Some((modifier, end)) => {
                if end > cur {
                    set = set.with(modifier);
                    cur = end;
                } else {
                    return Ok((cur, set));
                }
            },
            None => {
                return Ok((cur, set));
            },
        }
    }
}

/// The modifiers of a function and the whitespace after them, where both
/// stand at `pos`; else no modifiers, at `pos`.  Modifiers are words
/// without a commit point.
pub open spec fn spec_func_modifiers(bytes: Seq<u8>, pos: int) -> (int, Set<FuncModifier>) {
    match spec_func_modifier_set(bytes, pos) {
        Parsed::Done { next, value } if blank_end(bytes, next) > next => (
            blank_end(bytes, next),
            value,
        ),
        _ => (pos, Set::empty()),
    }
}

/// Parse the modifiers of a function, if there are any.
pub fn func_modifiers(input: &str, pos: usize) -> (r: (usize, FuncModifierSet))
    requires
        pos <= bytes_of(input).len(),
    ensures
        (r.0 as int, r.1.members()) == spec_func_modifiers(bytes_of(input), pos as int),
        pos <= r.0 <= bytes_of(input).len(),
{
    match func_modifier_set(input, pos) {
        Ok((next, set)) => {
            let end = skip_blank(input, next);
            if end > next {
                return (end, set);
            }
        },
        Err(_) => {},
    }
    (pos, FuncModifierSet::default())
}

/// An operator that a class can define.  Where one operator starts another,
/// the longer one is taken: `<=`, `<<<` and `<<` before `<`; `>=` and `>>`
/// before `>`; `~/` before `~`; `[]=` before `[]`.  `=` alone is none.
pub open spec fn spec_user_def_operator(bytes: Seq<u8>, pos: int) -> Parsed<UserDefOperator> {
    if has_byte(bytes, pos, '<' as u8) {
        if has_byte(bytes, pos + 1, '=' as u8) {
            Parsed::Done { next: pos + 2, value: UserDefOperator::Lte }
        } else if has_byte(bytes, pos + 1, '<' as u8) && has_byte(bytes, pos + 2, '<' as u8) {
            Parsed::Done { next: pos + 3, value: UserDefOperator::LShiftTri }
        } else if has_byte(bytes, pos + 1, '<' as u8) {
            Parsed::Done { next: pos + 2, value: UserDefOperator::LShift }
        } else {
            Parsed::Done { next: pos + 1, value: UserDefOperator::Lt }
        }
    } else if has_byte(bytes, pos, '>' as u8) {
        if has_byte(bytes, pos + 1, '=' as u8) {
            Parsed::Done { next: pos + 2, value: UserDefOperator::Gte }
        } else if has_byte(bytes, pos + 1, '>' as u8) {
            Parsed::Done { next: pos + 2, value: UserDefOperator::RShift }
        } else {
            Parsed::Done { next: pos + 1, value: UserDefOperator::Gt }
        }
    } else if has_byte(bytes, pos, '-' as u8) {
        Parsed::Done { next: pos + 1, value: UserDefOperator::Minus }
    } else if has_byte(bytes, pos, '+' as u8) {
        Parsed::Done { next: pos + 1, value: UserDefOperator::Add }
    } else if has_byte(bytes, pos, '/' as u8) {
        Parsed::Done { next: pos + 1, value: UserDefOperator::Div }
    } else if has_byte(bytes, pos, '~' as u8) {
        if has_byte(bytes, pos + 1, '/' as u8) {
            Parsed::Done { next: pos + 2, value: UserDefOperator::DivInt }
        } else {
            Parsed::Done { next: pos + 1, value: UserDefOperator::Tilde }
        }
    } else if has_byte(bytes, pos, '*' as u8) {
        Parsed::Done { next: pos + 1, value: UserDefOperator::Mul }
    } else if has_byte(bytes, pos, '%' as u8) {
        Parsed::Done { next: pos + 1, value: UserDefOperator::Mod }
    } else if has_byte(bytes, pos, '|' as u8) {
        Parsed::Done { next: pos + 1, value: UserDefOperator::Pipe }
    } else if has_byte(bytes, pos, '^' as u8) {
        Parsed::Done { next: pos + 1, value: UserDefOperator::Caret }
    } else if has_byte(bytes, pos, '&' as u8) {
        Parsed::Done { next: pos + 1, value: UserDefOperator::Amp }
    } else if has_byte(bytes, pos, '[' as u8) && has_byte(bytes, pos + 1, ']' as u8) {
        if has_byte(bytes, pos + 2, '=' as u8) {
            Parsed::Done { next: pos + 3, value: UserDefOperator::IndexSet }
        } else {
            Parsed::Done { next: pos + 2, value: UserDefOperator::IndexGet }
        }
    } else if has_byte(bytes, pos, '=' as u8) && has_byte(bytes, pos + 1, '=' as u8) {
        Parsed::Done { next: pos + 2, value: UserDefOperator::Eq }
    } else {
        Parsed::miss(pos, Label::Tag)
    }
}

/// The `==` operator is taken only where two `=` stand.
pub proof fn lemma_eq_operator(bytes: Seq<u8>, pos: int)
    ensures
        (spec_user_def_operator(bytes, pos) matches Parsed::Done { value, .. } && value
            == UserDefOperator::Eq) <==> (has_byte(bytes, pos, '=' as u8) && has_byte(
            bytes,
            pos + 1,
            '=' as u8,
        )),
        has_byte(bytes, pos, '=' as u8) && !has_byte(bytes, pos + 1, '=' as u8)
            ==> spec_user_def_operator(bytes, pos) is Miss,
{
}

/// Of two operators of which one starts the other, the longer one is taken
/// wherever it stands.
pub proof fn lemma_longest_operator(bytes: Seq<u8>, pos: int)
    ensures
        has_byte(bytes, pos, '<' as u8) && has_byte(bytes, pos + 1, '=' as u8)
            ==> spec_user_def_operator(bytes, pos) == (Parsed::Done {
            next: pos + 2,
            value: UserDefOperator::Lte,
        }),
        has_byte(bytes, pos, '[' as u8) && has_byte(bytes, pos + 1, ']' as u8) && has_byte(
            bytes,
            pos + 2,
            '=' as u8,
        ) ==> spec_user_def_operator(bytes, pos) == (Parsed::Done {
            next: pos + 3,
            value: UserDefOperator::IndexSet,
        }),
        has_byte(bytes, pos, '>' as u8) && has_byte(bytes, pos + 1, '=' as u8)
            ==> spec_user_def_operator(bytes, pos) == (Parsed::Done {
            next: pos + 2,
            value: UserDefOperator::Gte,
        }),
        has_byte(bytes, pos, '~' as u8) && has_byte(bytes, pos + 1, '/' as u8)
            ==> spec_user_def_operator(bytes, pos) == (Parsed::Done {
            next: pos + 2,
            value: UserDefOperator::DivInt,
        }),
{
}

/// Parse an operator that a class can define.
pub fn user_def_operator(input: &str, pos: usize) -> (r: PResult<UserDefOperator>)
    requires
        pos <= bytes_of(input).len(),
    ensures
        outcome(r) == spec_user_def_operator(bytes_of(input), pos as int),
        advances(r, pos, bytes_of(input).len()),
{
    if peek(input, pos, '<' as u8) {
        if peek(input, pos + 1, '=' as u8) {
            Ok((pos + 2, UserDefOperator::Lte))
        } else if peek(input, pos + 1, '<' as u8) && peek(input, pos + 2, '<' as u8) {
            Ok((pos + 3, UserDefOperator::LShiftTri))
        } else if peek(input, pos + 1, '<' as u8) {
            Ok((pos + 2, UserDefOperator::LShift))
        } else {
            Ok((pos + 1, UserDefOperator::Lt))
        }
    } else if peek(input, pos, '>' as u8) {
        if peek(input, pos + 1, '=' as u8) {
            Ok((pos + 2, UserDefOperator::Gte))
        } else if peek(input, pos + 1, '>' as u8) {
            Ok((pos + 2, UserDefOperator::RShift))
        } else {
            Ok((pos + 1, UserDefOperator::Gt))
        }
    } else if peek(input, pos, '-' as u8) {
        Ok((pos + 1, UserDefOperator::Minus))
    } else if peek(input, pos, '+' as u8) {
        Ok((pos + 1, UserDefOperator::Add))
    } else if peek(input, pos, '/' as u8) {
        Ok((pos + 1, UserDefOperator::Div))
    } else if peek(input, pos, '~' as u8) {
        if peek(input, pos + 1, '/' as u8) {
            Ok((pos + 2, UserDefOperator::DivInt))
        } else {
            Ok((pos + 1, UserDefOperator::Tilde))
        }
    } else if peek(input, pos, '*' as u8) {
        Ok((pos + 1, UserDefOperator::Mul))
    } else if peek(input, pos, '%' as u8) {
        Ok((pos + 1, UserDefOperator::Mod))
    } else if peek(input, pos, '|' as u8) {
        Ok((pos + 1, UserDefOperator::Pipe))
    } else if peek(input, pos, '^' as u8) {
        Ok((pos + 1, UserDefOperator::Caret))
    } else if peek(input, pos, '&' as u8) {
        Ok((pos + 1, UserDefOperator::Amp))
    } else if peek(input, pos, '[' as u8) && peek(input, pos + 1, ']' as u8) {
        if peek(input, pos + 2, '=' as u8) {
            Ok((pos + 3, UserDefOperator::IndexSet))
        } else {
            Ok((pos + 2, UserDefOperator::IndexGet))
        }
    } else if peek(input, pos, '=' as u8) && peek(input, pos + 1, '=' as u8) {
        Ok((pos + 2, UserDefOperator::Eq))
    } else {
        Err(ParseError::miss(pos, Label::Tag))
    }
}

/// The offset after `word`, optional whitespace and `*` at `pos`; `pos`
/// where they do not stand.
pub open spec fn starred_end(bytes: Seq<u8>, pos: int, word: Seq<u8>) -> int {
    if has_tag(bytes, pos, word) && has_byte(bytes, blank_end(bytes, pos + word.len()), '*' as u8) {
        blank_end(bytes, pos + word.len()) + 1
    } else {
        pos
    }
}

/// What makes a function asynchronous or a generator: `async*`, `async` or
/// `sync*`, tried in this order.
pub open spec fn spec_func_body_modifier(bytes: Seq<u8>, pos: int) -> Parsed<FuncBodyModifier> {
    if starred_end(bytes, pos, bytes_of("async")) != pos {
        Parsed::Done {
            next: starred_end(bytes, pos, bytes_of("async")),
            value: FuncBodyModifier::AsyncGenerator,
        }
    } else if has_tag(bytes, pos, bytes_of("async")) {
        Parsed::Done { next: pos + bytes_of("async").len(), value: FuncBodyModifier::Async }
    } else if starred_end(bytes, pos, bytes_of("sync")) != pos {
        Parsed::Done {
            next: starred_end(bytes, pos, bytes_of("sync")),
            value: FuncBodyModifier::SyncGenerator,
        }
    } else {
        Parsed::miss(pos, Label::Tag)
    }
}

/// The offset after `word`, optional whitespace and `*` at `pos`, if they
/// stand there.
fn skip_starred(input: &str, pos: usize, word: &str) -> (end: usize)
    requires
        pos <= bytes_of(input).len(),
    ensures
        end == starred_end(bytes_of(input), pos as int, bytes_of(word)),
        pos <= end <= bytes_of(input).len(),
{
    if starts_with(input, pos, word) {
        let star = skip_blank(input, pos + length(word));
        if peek(input, star, '*' as u8) {
            return star + 1;
        }
    }
    pos
}

/// Parse what makes a function asynchronous or a generator.
pub fn func_body_modifier(input: &str, pos: usize) -> (r: PResult<FuncBodyModifier>)
    requires
        pos <= bytes_of(input).len(),
    ensures
        outcome(r) == spec_func_body_modifier(bytes_of(input), pos as int),
        stays(r, pos, bytes_of(input).len()),
{
    let starred = skip_starred(input, pos, "async");
    if starred != pos {
        return Ok((starred, FuncBodyModifier::AsyncGenerator));
    }
    if starts_with(input, pos, "async") {
        return Ok((pos + length("async"), FuncBodyModifier::Async));
    }
    let starred = skip_starred(input, pos, "sync");
    if starred != pos {
        return Ok((starred, FuncBodyModifier::SyncGenerator));
    }
    Err(ParseError::miss(pos, Label::Tag))
}

/// An expression body: `=>`, an expression and `;`, with optional
/// whitespace between them.
#[verifier::opaque]
pub open spec fn spec_arrow_body(bytes: Seq<u8>, pos: int) -> Parsed<ExprM> {
    if has_byte(bytes, pos, '=' as u8) && has_byte(bytes, pos + 1, '>' as u8) {
        match spec_expr(bytes, blank_end(bytes, pos + 2)) {
            Parsed::Done { next, value } => if has_byte(bytes, blank_end(bytes, next), ';' as u8) {
                Parsed::Done { next: blank_end(bytes, next) + 1, value }
            } else {
                Parsed::miss(blank_end(bytes, next), Label::Char)
            },
            other => other,
        }
    } else {
        Parsed::miss(pos, Label::Tag)
    }
}

/// The content of the body of a function: an expression body, or else a
/// block.
#[verifier::opaque]
pub open spec fn spec_func_body_content(bytes: Seq<u8>, pos: int) -> Parsed<FuncBodyContentM> {
    match spec_arrow_body(bytes, pos) {
        Parsed::Done { next, value } => Parsed::Done { next, value: FuncBodyContentM::Expr(value) },
        Parsed::Fault { trace } => Parsed::Fault { trace },
        Parsed::Miss { .. } => match spec_block(bytes, pos) {
            Parsed::Done { next, value } => Parsed::Done {
                next,
                value: FuncBodyContentM::Block(value),
            },
            other => other.carry(),
        },
    }
}

/// The body of a function: an optional modifier, optional whitespace, and
/// the content.
#[verifier::opaque]
pub open spec fn spec_func_body(bytes: Seq<u8>, pos: int) -> Parsed<FuncBodyM> {
    match spec_func_body_modifier(bytes, pos).optional(pos) {
        Parsed::Done { next: end, value: modifier } => match spec_func_body_content(
            bytes,
            if modifier is Some {
                blank_end(bytes, end)
            } else {
                pos
            },
        ) {
            Parsed::Done { next, value: content } => Parsed::Done {
                next,
                value: FuncBodyM { modifier, content },
            },
            other => other.carry(),
        },
        other => other.carry(),
    }
}

/// The body of a function, or `;` for a function without a body.
#[verifier::opaque]
pub open spec fn spec_body_or_semicolon(bytes: Seq<u8>, pos: int) -> Parsed<Option<FuncBodyM>> {
    match spec_func_body(bytes, pos) {
        Parsed::Done { next, value } => Parsed::Done { next, value: Some(value) },
        Parsed::Fault { trace } => Parsed::Fault { trace },
        Parsed::Miss { .. } => if has_byte(bytes, pos, ';' as u8) {
            Parsed::Done { next: pos + 1, value: None }
        } else {
            Parsed::miss(pos, Label::Tag)
        },
    }
}

/// Parse an expression body.
fn arrow_body<'s>(input: &'s str, pos: usize) -> (r: PResult<Expr<'s>>)
    requires
        pos <= bytes_of(input).len(),
    ensures
        outcome(r) == spec_arrow_body(bytes_of(input), pos as int),
        advances(r, pos, bytes_of(input).len()),
{
    proof {
        reveal(spec_arrow_body);
    }
    if !(peek(input, pos, '=' as u8) && peek(input, pos + 1, '>' as u8)) {
        return Err(ParseError::miss(pos, Label::Tag));
    }
    let start = skip_blank(input, pos + 2);
    proof {
        lemma_clean_cut(input, start as int);
    }
    let (next, value) = expr(input, start)?;
    let end = skip_blank(input, next);
    if peek(input, end, ';' as u8) {
        Ok((end + 1, value))
    } else {
        Err(ParseError::miss(end, Label::Char))
    }
}

/// Parse the content of the body of a function.
pub fn func_body_content<'s>(input: &'s str, pos: usize) -> (r: PResult<FuncBodyContent<'s>>)
    requires
        pos <= bytes_of(input).len(),
    ensures
        outcome(r) == spec_func_body_content(bytes_of(input), pos as int),
        advances(r, pos, bytes_of(input).len()),
{
    proof {
        reveal(spec_func_body_content);
    }
    match arrow_body(input, pos) {
        Ok((next, value)) => {
            return Ok((next, FuncBodyContent::Expr(value)));
        },
        Err(e) => if e.fatal {
            return Err(e);
        },
    }
    let (next, text) = block(input, pos)?;
    Ok((next, FuncBodyContent::Block(text)))
}

/// Parse the body of a function.
pub fn func_body<'s>(input: &'s str, pos: usize) -> (r: PResult<FuncBody<'s>>)
    requires
        pos <= bytes_of(input).len(),
    ensures
        outcome(r) == spec_func_body(bytes_of(input), pos as int),
        advances(r, pos, bytes_of(input).len()),
{
    proof {
        reveal(spec_func_body);
    }
    let (start, modifier) = match func_body_modifier(input, pos) {
        Ok((next, modifier)) => (skip_blank(input, next), Some(modifier)),
        Err(e) => {
            if e.fatal {
                return Err(e);
            }
            (pos, None)
        },
    };
    let (next, content) = func_body_content(input, start)?;
    Ok((next, FuncBody { modifier, content }))
}

/// Parse the body of a function, or the `;` that stands for none.
pub fn body_or_semicolon<'s>(input: &'s str, pos: usize) -> (r: PResult<Option<FuncBody<'s>>>)
    requires
        pos <= bytes_of(input).len(),
    ensures
        outcome(r) == spec_body_or_semicolon(bytes_of(input), pos as int),
        advances(r, pos, bytes_of(input).len()),
{
    proof {
        reveal(spec_body_or_semicolon);
    }
    match func_body(input, pos) {
        Ok((next, body)) => {
            return Ok((next, Some(body)));
        },
        Err(e) => if e.fatal {
            return Err(e);
        },
    }
    if peek(input, pos, ';' as u8) {
        Ok((pos + 1, None))
    } else {
        Err(ParseError::miss(pos, Label::Tag))
    }
}

/// A type, optional whitespace (with comments in it where `comments` is
/// set), and a name; after it optional whitespace again where `trailing` is
/// set.
#[verifier::opaque]
pub open spec fn spec_type_then_name(bytes: Seq<u8>, pos: int, comments: bool, trailing: bool) -> Parsed<
    (Option<TypeM>, Seq<u8>),
> {
    match spec_ty(bytes, pos) {
        Parsed::Done { next, value: ty } => match spec_gap(bytes, next, comments) {
            Parsed::Done { next: start, .. } => match spec_identifier(bytes, start) {
                Parsed::Done { next: end, value: name } => if trailing {
                    match spec_gap(bytes, end, comments) {
                        Parsed::Done { next: after, .. } => Parsed::Done {
                            next: after,
                            value: (Some(ty), name),
                        },
                        other => other.carry(),
                    }
                } else {
                    Parsed::Done { next: end, value: (Some(ty), name) }
                },
                other => other.carry(),
            },
            other => other.carry(),
        },
        other => other.carry(),
    }
}

/// A name without a type; after it optional whitespace where `trailing` is
/// set.
#[verifier::opaque]
pub open spec fn spec_name_alone(bytes: Seq<u8>, pos: int, comments: bool, trailing: bool) -> Parsed<
    (Option<TypeM>, Seq<u8>),
> {
    match spec_identifier(bytes, pos) {
        Parsed::Done { next: end, value: name } => if trailing {
            match spec_gap(bytes, end, comments) {
                Parsed::Done { next: after, .. } => Parsed::Done {
                    next: after,
                    value: (None, name),
                },
                other => other.carry(),
            }
        } else {
            Parsed::Done { next: end, value: (None, name) }
        },
        other => other.carry(),
    }
}

/// A type followed by a name, or else just a name.
pub open spec fn spec_typed_name(bytes: Seq<u8>, pos: int, comments: bool, trailing: bool) -> Parsed<
    (Option<TypeM>, Seq<u8>),
> {
    spec_type_then_name(bytes, pos, comments, trailing).or(
        spec_name_alone(bytes, pos, comments, trailing),
    )
}

/// Parse a type and a name.
fn type_then_name<'s>(input: &'s str, pos: usize, comments: bool, trailing: bool) -> (r: PResult<
    (Option<Type<'s>>, &'s str),
>)
    requires
        pos <= bytes_of(input).len(),
    ensures
        outcome(r) == spec_type_then_name(bytes_of(input), pos as int, comments, trailing),
        advances(r, pos, bytes_of(input).len()),
        r matches Ok((next, _)) ==> clean_cut(bytes_of(input), next as int),
{
    proof {
        reveal(spec_type_then_name);
    }
    let (next, ty) = ty(input, pos)?;
    let (start, _) = gap(input, next, comments)?;
    let (end, name) = identifier(input, start)?;
    if trailing {
        let (after, _) = gap(input, end, comments)?;
        Ok((after, (Some(ty), name)))
    } else {
        Ok((end, (Some(ty), name)))
    }
}

/// Parse a name without a type.
fn name_alone<'s>(input: &'s str, pos: usize, comments: bool, trailing: bool) -> (r: PResult<
    (Option<Type<'s>>, &'s str),
>)
    requires
        pos <= bytes_of(input).len(),
    ensures
        outcome(r) == spec_name_alone(bytes_of(input), pos as int, comments, trailing),
        advances(r, pos, bytes_of(input).len()),
        r matches Ok((next, _)) ==> clean_cut(bytes_of(input), next as int),
{
    proof {
        reveal(spec_name_alone);
    }
    let (end, name) = identifier(input, pos)?;
    if trailing {
        let (after, _) = gap(input, end, comments)?;
        Ok((after, (None, name)))
    } else {
        Ok((end, (None, name)))
    }
}

/// Parse a type followed by a name, or else just a name.
pub fn typed_name<'s>(input: &'s str, pos: usize, comments: bool, trailing: bool) -> (r: PResult<
    (Option<Type<'s>>, &'s str),
>)
    requires
        pos <= bytes_of(input).len(),
    ensures
        outcome(r) == spec_typed_name(bytes_of(input), pos as int, comments, trailing),
        advances(r, pos, bytes_of(input).len()),
        r matches Ok((next, _)) ==> clean_cut(bytes_of(input), next as int),
{
    match type_then_name(input, pos, comments, trailing) {
        Ok(done) => Ok(done),
        Err(e) => if e.fatal {
            Err(e)
        } else {
            name_alone(input, pos, comments, trailing)
        },
    }
}

/// The modifiers of a parameter and the whitespace after them, where both
/// stand at `pos`; else no modifiers, at `pos`.
pub open spec fn spec_param_modifiers(bytes: Seq<u8>, pos: int, comments: bool) -> Parsed<
    Set<FuncParamModifier>,
> {
    match spec_func_param_modifier_set(bytes, pos) {
        Parsed::Done { next, value } => match spec_space(bytes, next, comments) {
            Parsed::Done { next: end, .. } => Parsed::Done { next: end, value },
            Parsed::Miss { .. } => Parsed::Done { next: pos, value: Set::empty() },
            Parsed::Fault { trace } => Parsed::Fault { trace },
        },
        Parsed::Miss { .. } => Parsed::Done { next: pos, value: Set::empty() },
        Parsed::Fault { trace } => Parsed::Fault { trace },
    }
}

/// Parse the modifiers of a parameter, if there are any.
fn param_modifiers(input: &str, pos: usize, comments: bool) -> (r: PResult<FuncParamModifierSet>)
    requires
        pos <= bytes_of(input).len(),
    ensures
        outcome(r) == spec_param_modifiers(bytes_of(input), pos as int, comments),
        stays(r, pos, bytes_of(input).len()),
{
    match func_param_modifier_set(input, pos) {
        Ok((next, set)) => match space(input, next, comments) {
            Ok((end, _)) => Ok((end, set)),
            Err(e) => if e.fatal {
                Err(e)
            } else {
                Ok((pos, FuncParamModifierSet::default()))
            },
        },
        Err(e) => if e.fatal {
            Err(e)
        } else {
            Ok((pos, FuncParamModifierSet::default()))
        },
    }
}

/// The word `var` and the whitespace after it, where both stand at `pos`.
pub open spec fn spec_var_word(bytes: Seq<u8>, pos: int, comments: bool) -> Parsed<()> {
    if has_tag(bytes, pos, bytes_of("var")) {
        match spec_space(bytes, pos + bytes_of("var").len(), comments) {
            Parsed::Done { next, .. } => Parsed::Done { next, value: () },
            Parsed::Miss { .. } => Parsed::Done { next: pos, value: () },
            Parsed::Fault { trace } => Parsed::Fault { trace },
        }
    } else {
        Parsed::Done { next: pos, value: () }
    }
}

/// Skip the word `var` and the whitespace after it, if they stand at `pos`.
pub fn var_word(input: &str, pos: usize, comments: bool) -> (r: PResult<()>)
    requires
        pos <= bytes_of(input).len(),
    ensures
        outcome(r) == spec_var_word(bytes_of(input), pos as int, comments),
        stays(r, pos, bytes_of(input).len()),
{
    if starts_with(input, pos, "var") {
        match space(input, pos + length("var"), comments) {
            Ok((next, _)) => Ok((next, ())),
            Err(e) => if e.fatal {
                Err(e)
            } else {
                Ok((pos, ()))
            },
        }
    } else {
        Ok((pos, ()))
    }
}

/// The initializer of a positional parameter, if `=` stands at `pos`: `=`,
/// optional whitespace and comments, and an expression.  After the `=` every
/// failure is committed.
#[verifier::opaque]
pub open spec fn spec_pos_initializer(bytes: Seq<u8>, pos: int) -> Parsed<Option<ExprM>> {
    if has_byte(bytes, pos, '=' as u8) {
        match spec_skip_spbrc(bytes, pos + 1) {
            Parsed::Done { next: start, .. } => match spec_expr(bytes, start) {
                Parsed::Done { next, value } => Parsed::Done { next, value: Some(value) },
                other => other.carry().committed(),
            },
            other => other.carry(),
        }
    } else {
        Parsed::Done { next: pos, value: None }
    }
}

/// The initializer of a named parameter, if `=` stands at `pos` after
/// optional whitespace and comments.
#[verifier::opaque]
pub open spec fn spec_named_initializer(bytes: Seq<u8>, pos: int) -> Parsed<Option<ExprM>> {
    match spec_skip_spbrc(bytes, pos) {
        Parsed::Done { next: sign, .. } => if has_byte(bytes, sign, '=' as u8) {
            match spec_skip_spbrc(bytes, sign + 1) {
                Parsed::Done { next: start, .. } => match spec_expr(bytes, start) {
                    Parsed::Done { next, value } => Parsed::Done { next, value: Some(value) },
                    other => other.carry().committed(),
                },
                other => other.carry(),
            }
        } else {
            Parsed::Done { next: pos, value: None }
        },
        other => other.carry(),
    }
}

/// Parse the initializer of a positional parameter, if there is one.
fn pos_initializer<'s>(input: &'s str, pos: usize) -> (r: PResult<Option<Expr<'s>>>)
    requires
        pos <= bytes_of(input).len(),
    ensures
        outcome(r) == spec_pos_initializer(bytes_of(input), pos as int),
        stays(r, pos, bytes_of(input).len()),
{
    proof {
        reveal(spec_pos_initializer);
    }
    if !peek(input, pos, '=' as u8) {
        return Ok((pos, None));
    }
    let (start, _) = skip_spbrc(input, pos + 1)?;
    proof {
        lemma_clean_cut(input, start as int);
    }
    match expr(input, start) {
        Ok((next, value)) => Ok((next, Some(value))),
        Err(e) => cut(Err(e)),
    }
}

/// Parse the initializer of a named parameter, if there is one.
fn named_initializer<'s>(input: &'s str, pos: usize) -> (r: PResult<Option<Expr<'s>>>)
    requires
        pos <= bytes_of(input).len(),
    ensures
        outcome(r) == spec_named_initializer(bytes_of(input), pos as int),
        stays(r, pos, bytes_of(input).len()),
{
    proof {
        reveal(spec_named_initializer);
    }
    let (sign, _) = skip_spbrc(input, pos)?;
    if !peek(input, sign, '=' as u8) {
        return Ok((pos, None));
    }
    let (start, _) = skip_spbrc(input, sign + 1)?;
    proof {
        lemma_clean_cut(input, start as int);
    }
    match expr(input, start) {
        Ok((next, value)) => Ok((next, Some(value))),
        Err(e) => cut(Err(e)),
    }
}

/// A positional parameter of a function: optional modifiers, an optional
/// `var`, a type and a name or just a name, and an optional initializer.
#[verifier::opaque]
pub open spec fn spec_func_param_pos(bytes: Seq<u8>, pos: int) -> Parsed<FuncParamM> {
    (match spec_param_modifiers(bytes, pos, true) {
        Parsed::Done { next: word, value: modifiers } => match spec_var_word(bytes, word, true) {
            Parsed::Done { next: start, .. } => match spec_typed_name(bytes, start, true, true) {
                Parsed::Done { next: end, value: (param_type, name) } => match spec_pos_initializer(
                    bytes,
                    end,
                ) {
                    Parsed::Done { next, value: initializer } => Parsed::Done {
                        next,
                        value: FuncParamM { modifiers, param_type, name, initializer },
                    },
                    other => other.carry(),
                },
                other => other.carry(),
            },
            other => other.carry(),
        },
        other => other.carry(),
    }).within(Label::FuncParamPos, pos)
}

/// A named parameter of a function: an optional `required`, optional
/// modifiers, an optional `var`, a type and a name or just a name, and an
/// optional initializer.
#[verifier::opaque]
pub open spec fn spec_func_param_named(bytes: Seq<u8>, pos: int) -> Parsed<
    MaybeRequiredM<FuncParamM>,
> {
    (match spec_maybe_required(bytes, pos) {
        Parsed::Done { next: first, value: is_required } => match spec_param_modifiers(
            bytes,
            first,
            false,
        ) {
            Parsed::Done { next: word, value: modifiers } => match spec_var_word(
                bytes,
                word,
                false,
            ) {
                Parsed::Done { next: start, .. } => match spec_typed_name(
                    bytes,
                    start,
                    false,
                    false,
                ) {
                    Parsed::Done {
                        next: end,
                        value: (param_type, name),
                    } => match spec_named_initializer(bytes, end) {
                        Parsed::Done { next, value: initializer } => Parsed::Done {
                            next,
                            value: MaybeRequiredM {
                                is_required,
                                value: FuncParamM { modifiers, param_type, name, initializer },
                            },
                        },
                        other => other.carry(),
                    },
                    other => other.carry(),
                },
                other => other.carry(),
            },
            other => other.carry(),
        },
        other => other.carry(),
    }).within(Label::MaybeRequired, pos).within(Label::FuncParamNamed, pos)
}

fn func_param_pos_body<'s>(input: &'s str, pos: usize) -> (r: PResult<FuncParam<'s>>)
    requires
        pos <= bytes_of(input).len(),
    ensures
        outcome(r).within(Label::FuncParamPos, pos as int) == spec_func_param_pos(
            bytes_of(input),
            pos as int,
        ),
        advances(r, pos, bytes_of(input).len()),
{
    proof {
        reveal(spec_func_param_pos);
    }
    let (word, modifiers) = param_modifiers(input, pos, true)?;
    let (start, _) = var_word(input, word, true)?;
    let (end, (param_type, name)) = typed_name(input, start, true, true)?;
    let (next, initializer) = pos_initializer(input, end)?;
    Ok((next, FuncParam { modifiers, param_type, name, initializer }))
}

/// Parse a positional parameter of a function.
pub fn func_param_pos<'s>(input: &'s str, pos: usize) -> (r: PResult<FuncParam<'s>>)
    requires
        pos <= bytes_of(input).len(),
    ensures
        outcome(r) == spec_func_param_pos(bytes_of(input), pos as int),
        advances(r, pos, bytes_of(input).len()),
{
    framed(func_param_pos_body(input, pos), Label::FuncParamPos, pos)
}

fn func_param_named_body<'s>(input: &'s str, pos: usize) -> (r: PResult<
    MaybeRequired<FuncParam<'s>>,
>)
    requires
        pos <= bytes_of(input).len(),
    ensures
        outcome(r).within(Label::MaybeRequired, pos as int).within(
            Label::FuncParamNamed,
            pos as int,
        ) == spec_func_param_named(bytes_of(input), pos as int),
        advances(r, pos, bytes_of(input).len()),
{
    proof {
        reveal(spec_func_param_named);
    }
    let (first, is_required) = maybe_required(input, pos)?;
    let (word, modifiers) = param_modifiers(input, first, false)?;
    let (start, _) = var_word(input, word, false)?;
    let (end, (param_type, name)) = typed_name(input, start, false, false)?;
    let (next, initializer) = named_initializer(input, end)?;
    Ok(
        (
            next,
            MaybeRequired::new(is_required, FuncParam { modifiers, param_type, name, initializer }),
        ),
    )
}

/// Parse a named parameter of a function.
pub fn func_param_named<'s>(input: &'s str, pos: usize) -> (r: PResult<
    MaybeRequired<FuncParam<'s>>,
>)
    requires
        pos <= bytes_of(input).len(),
    ensures
        outcome(r) == spec_func_param_named(bytes_of(input), pos as int),
        advances(r, pos, bytes_of(input).len()),
{
    framed(
        framed(func_param_named_body(input, pos), Label::MaybeRequired, pos),
        Label::FuncParamNamed,
        pos,
    )
}

/// Positional parameters from `pos` on, each with its metadata and followed
/// by optional whitespace and comments, with commas between them and
/// possibly one after the last.  A parameter that does not match ends the
/// list; a committed failure of a parameter, or of a comment after it, is
/// the result.
#[verifier::opaque]
pub open spec fn spec_param_list(bytes: Seq<u8>, pos: int, acc: Seq<WithMetaM<FuncParamM>>) -> Parsed<
    Seq<WithMetaM<FuncParamM>>,
>
    decreases room(bytes, pos),
{
    if !(0 <= pos <= bytes.len()) {
        Parsed::Done { next: pos, value: acc }
    } else {
        match spec_with_meta(bytes, pos, |at: int| spec_func_param_pos(bytes, at)) {
            Parsed::Done { next, value } => match spec_skip_spbrc(bytes, next) {
                Parsed::Done { next: end, .. } => if pos < end <= bytes.len() {
                    if has_byte(bytes, end, ',' as u8) {
                        spec_param_list(bytes, blank_end(bytes, end + 1), acc.push(value))
                    } else {
                        Parsed::Done { next: end, value: acc.push(value) }
                    }
                } else {
                    Parsed::Done { next: pos, value: acc }
                },
                Parsed::Miss { .. } => Parsed::Done { next: pos, value: acc },
                Parsed::Fault { trace } => Parsed::Fault { trace },
            },
            Parsed::Miss { .. } => Parsed::Done { next: pos, value: acc },
            Parsed::Fault { trace } => Parsed::Fault { trace },
        }
    }
}

/// Named parameters from `pos` on; as `spec_param_list`.
#[verifier::opaque]
pub open spec fn spec_named_param_list(
    bytes: Seq<u8>,
    pos: int,
    acc: Seq<WithMetaM<MaybeRequiredM<FuncParamM>>>,
) -> Parsed<Seq<WithMetaM<MaybeRequiredM<FuncParamM>>>>
    decreases room(bytes, pos),
{
    if !(0 <= pos <= bytes.len()) {
        Parsed::Done { next: pos, value: acc }
    } else {
        match spec_with_meta(bytes, pos, |at: int| spec_func_param_named(bytes, at)) {
            Parsed::Done { next, value } => match spec_skip_spbrc(bytes, next) {
                Parsed::Done { next: end, .. } => if pos < end <= bytes.len() {
                    if has_byte(bytes, end, ',' as u8) {
                        spec_named_param_list(bytes, blank_end(bytes, end + 1), acc.push(value))
                    } else {
                        Parsed::Done { next: end, value: acc.push(value) }
                    }
                } else {
                    Parsed::Done { next: pos, value: acc }
                },
                Parsed::Miss { .. } => Parsed::Done { next: pos, value: acc },
                Parsed::Fault { trace } => Parsed::Fault { trace },
            },
            Parsed::Miss { .. } => Parsed::Done { next: pos, value: acc },
            Parsed::Fault { trace } => Parsed::Fault { trace },
        }
    }
}

/// Parse a positional parameter with its metadata.
fn with_meta_param<'s>(input: &'s str, pos: usize) -> (r: PResult<WithMeta<'s, FuncParam<'s>>>)
    requires
        pos <= bytes_of(input).len(),
    ensures
        outcome(r) == spec_with_meta(
            bytes_of(input),
            pos as int,
            |at: int| spec_func_param_pos(bytes_of(input), at),
        ),
        advances(r, pos, bytes_of(input).len()),
{
    let (start, items) = match meta(input, pos) {
        Ok(done) => done,
        Err(e) => {
            return framed(Err(e), Label::WithMeta, pos);
        },
    };
    with_meta(items, func_param_pos(input, start), pos)
}

/// Parse a named parameter with its metadata.
fn with_meta_named_param<'s>(input: &'s str, pos: usize) -> (r: PResult<
    WithMeta<'s, MaybeRequired<FuncParam<'s>>>,
>)
    requires
        pos <= bytes_of(input).len(),
    ensures
        outcome(r) == spec_with_meta(
            bytes_of(input),
            pos as int,
            |at: int| spec_func_param_named(bytes_of(input), at),
        ),
        advances(r, pos, bytes_of(input).len()),
{
    let (start, items) = match meta(input, pos) {
        Ok(done) => done,
        Err(e) => {
            return framed(Err(e), Label::WithMeta, pos);
        },
    };
    with_meta(items, func_param_named(input, start), pos)
}

/// Parse positional parameters, without the brackets.
fn param_list<'s>(input: &'s str, pos: usize) -> (r: PResult<Vec<WithMeta<'s, FuncParam<'s>>>>)
    requires
        pos <= bytes_of(input).len(),
    ensures
        outcome(r) == spec_param_list(bytes_of(input), pos as int, Seq::empty()),
        stays(r, pos, bytes_of(input).len()),
{
    let mut params: Vec<WithMeta<'s, FuncParam<'s>>> = Vec::new();
    let mut cur = pos;
    let ghost bytes = bytes_of(input);
    proof {
        lemma_model_empty(params);
    }
    loop
        invariant
            bytes == bytes_of(input),
            pos <= cur <= bytes.len(),
            spec_param_list(bytes, pos as int, Seq::empty()) == spec_param_list(
                bytes,
                cur as int,
                params.model(),
            ),
        decreases bytes.len() - cur,
    {
        proof {
            reveal(spec_param_list);
        }
        let (next, param) = match with_meta_param(input, cur) {
            Ok(done) => done,
            Err(e) => {
                if e.fatal {
                    return Err(e);
                }
                return Ok((cur, params));
            },
        };
        let (end, _) = skip_spbrc(input, next)?;
        let ghost before = params;
        params.push(param);
        proof {
            lemma_model_push(before, params, param);
        }
        if peek(input, end, ',' as u8) {
            cur = skip_blank(input, end + 1);
        } else {
            return Ok((end, params));
        }
    }
}

/// Parse named parameters, without the braces.
fn named_param_list<'s>(input: &'s str, pos: usize) -> (r: PResult<
    Vec<WithMeta<'s, MaybeRequired<FuncParam<'s>>>>,
>)
    requires
        pos <= bytes_of(input).len(),
    ensures
        outcome(r) == spec_named_param_list(bytes_of(input), pos as int, Seq::empty()),
        stays(r, pos, bytes_of(input).len()),
{
    let mut params: Vec<WithMeta<'s, MaybeRequired<FuncParam<'s>>>> = Vec::new();
    let mut cur = pos;
    let ghost bytes = bytes_of(input);
    proof {
        lemma_model_empty(params);
    }
    loop
        invariant
            bytes == bytes_of(input),
            pos <= cur <= bytes.len(),
            spec_named_param_list(bytes, pos as int, Seq::empty()) == spec_named_param_list(
                bytes,
                cur as int,
                params.model(),
            ),
        decreases bytes.len() - cur,
    {
        proof {
            reveal(spec_named_param_list);
        }
        let (next, param) = match with_meta_named_param(input, cur) {
            Ok(done) => done,
            Err(e) => {
                if e.fatal {
                    return Err(e);
                }
                return Ok((cur, params));
            },
        };
        let (end, _) = skip_spbrc(input, next)?;
        let ghost before = params;
        params.push(param);
        proof {
            lemma_model_push(before, params, param);
        }
        if peek(input, end, ',' as u8) {
            cur = skip_blank(input, end + 1);
        } else {
            return Ok((end, params));
        }
    }
}

/// The optional positional parameters of a function: `[`, the parameters,
/// `]`.  After the `[` every failure is committed.
#[verifier::opaque]
pub open spec fn spec_func_params_pos_opt(bytes: Seq<u8>, pos: int) -> Parsed<
    Seq<WithMetaM<FuncParamM>>,
> {
    if has_byte(bytes, pos, '[' as u8) {
        (match spec_param_list(bytes, blank_end(bytes, pos + 1), Seq::empty()) {
            Parsed::Done { next: after, value } => match spec_skip_spbrc(bytes, after) {
                Parsed::Done { next: end, .. } => if has_byte(bytes, end, ']' as u8) {
                    Parsed::Done { next: end + 1, value }
                } else {
                    Parsed::miss(end, Label::Char)
                },
                other => other.carry(),
            },
            other => other,
        }).committed()
    } else {
        Parsed::miss(pos, Label::Char)
    }
}

/// The named parameters of a function: `{`, the parameters, `}`.  After the
/// `{` every failure is committed.
#[verifier::opaque]
pub open spec fn spec_func_params_named(bytes: Seq<u8>, pos: int) -> Parsed<
    Seq<WithMetaM<MaybeRequiredM<FuncParamM>>>,
> {
    (if has_byte(bytes, pos, '{' as u8) {
        (match spec_named_param_list(bytes, blank_end(bytes, pos + 1), Seq::empty()) {
            Parsed::Done { next: after, value } => match spec_skip_spbrc(bytes, after) {
                Parsed::Done { next: end, .. } => if has_byte(bytes, end, '}' as u8) {
                    Parsed::Done { next: end + 1, value }
                } else {
                    Parsed::miss(end, Label::Char)
                },
                other => other.carry(),
            },
            other => other,
        }).committed()
    } else {
        Parsed::miss(pos, Label::Char)
    }).within(Label::FuncParamsNamed, pos)
}

/// The group in `[...]` or in `{...}` at `pos`, if there is one.
#[verifier::opaque]
pub open spec fn spec_func_params_extra(bytes: Seq<u8>, pos: int) -> Parsed<
    Option<FuncParamsExtraM<FuncParamM, FuncParamM>>,
> {
    match spec_func_params_pos_opt(bytes, pos) {
        Parsed::Done { next, value } => Parsed::Done {
            next,
            value: Some(FuncParamsExtraM::PositionalOpt(value)),
        },
        Parsed::Fault { trace } => Parsed::Fault { trace },
        Parsed::Miss { .. } => match spec_func_params_named(bytes, pos) {
            Parsed::Done { next, value } => Parsed::Done {
                next,
                value: Some(FuncParamsExtraM::Named(value)),
            },
            Parsed::Fault { trace } => Parsed::Fault { trace },
            Parsed::Miss { .. } => Parsed::Done { next: pos, value: None },
        },
    }
}

/// The parameters of a function: `(`, the required positional parameters,
/// at most one group of optional positional or of named parameters, `)`.
/// After the `(` every failure is committed.
#[verifier::opaque]
pub open spec fn spec_func_params(bytes: Seq<u8>, pos: int) -> Parsed<
    FuncParamsM<FuncParamM, FuncParamM>,
> {
    (if has_byte(bytes, pos, '(' as u8) {
        (match spec_param_list(bytes, blank_end(bytes, pos + 1), Seq::empty()) {
            Parsed::Done { next: first, value: positional_req } => match spec_skip_spbrc(
                bytes,
                first,
            ) {
                Parsed::Done { next: group, .. } => match spec_func_params_extra(bytes, group) {
                    Parsed::Done { next: after, value: extra } => match spec_skip_spbrc(
                        bytes,
                        after,
                    ) {
                        Parsed::Done { next: end, .. } => if has_byte(bytes, end, ')' as u8) {
                            Parsed::Done {
                                next: end + 1,
                                value: FuncParamsM { positional_req, extra },
                            }
                        } else {
                            Parsed::miss(end, Label::Char)
                        },
                        other => other.carry(),
                    },
                    other => other.carry(),
                },
                other => other.carry(),
            },
            other => other.carry(),
        }).committed()
    } else {
        Parsed::miss(pos, Label::Char)
    }).within(Label::FuncParams, pos)
}

/// Parse the optional positional parameters of a function.
fn func_params_pos_opt<'s>(input: &'s str, pos: usize) -> (r: PResult<
    Vec<WithMeta<'s, FuncParam<'s>>>,
>)
    requires
        pos <= bytes_of(input).len(),
    ensures
        outcome(r) == spec_func_params_pos_opt(bytes_of(input), pos as int),
        advances(r, pos, bytes_of(input).len()),
{
    proof {
        reveal(spec_func_params_pos_opt);
    }
    if !peek(input, pos, '[' as u8) {
        return Err(ParseError::miss(pos, Label::Char));
    }
    let (after, params) = match param_list(input, skip_blank(input, pos + 1)) {
        Ok(done) => done,
        Err(e) => {
            return cut(Err(e));
        },
    };
    let end = match skip_spbrc(input, after) {
        Ok((end, _)) => end,
        Err(e) => {
            return cut(Err(e));
        },
    };
    if peek(input, end, ']' as u8) {
        Ok((end + 1, params))
    } else {
        cut(Err(ParseError::miss(end, Label::Char)))
    }
}

/// Parse the named parameters of a function.
fn func_params_named<'s>(input: &'s str, pos: usize) -> (r: PResult<
    Vec<WithMeta<'s, MaybeRequired<FuncParam<'s>>>>,
>)
    requires
        pos <= bytes_of(input).len(),
    ensures
        outcome(r) == spec_func_params_named(bytes_of(input), pos as int),
        advances(r, pos, bytes_of(input).len()),
{
    proof {
        reveal(spec_func_params_named);
    }
    if !peek(input, pos, '{' as u8) {
        return framed(Err(ParseError::miss(pos, Label::Char)), Label::FuncParamsNamed, pos);
    }
    let (after, params) = match named_param_list(input, skip_blank(input, pos + 1)) {
        Ok(done) => done,
        Err(e) => {
            return framed(cut(Err(e)), Label::FuncParamsNamed, pos);
        },
    };
    let end = match skip_spbrc(input, after) {
        Ok((end, _)) => end,
        Err(e) => {
            return framed(cut(Err(e)), Label::FuncParamsNamed, pos);
        },
    };
    if peek(input, end, '}' as u8) {
        Ok((end + 1, params))
    } else {
        framed(cut(Err(ParseError::miss(end, Label::Char))), Label::FuncParamsNamed, pos)
    }
}

/// Parse the group in `[...]` or in `{...}`, if there is one.
fn func_params_extra<'s>(input: &'s str, pos: usize) -> (r: PResult<
    Option<FuncParamsExtra<'s, FuncParam<'s>, FuncParam<'s>>>,
>)
    requires
        pos <= bytes_of(input).len(),
    ensures
        outcome(r) == spec_func_params_extra(bytes_of(input), pos as int),
        stays(r, pos, bytes_of(input).len()),
{
    proof {
        reveal(spec_func_params_extra);
    }
    match func_params_pos_opt(input, pos) {
        Ok((next, params)) => {
            return Ok((next, Some(FuncParamsExtra::PositionalOpt(params))));
        },
        Err(e) => if e.fatal {
            return Err(e);
        },
    }
    match func_params_named(input, pos) {
        Ok((next, params)) => Ok((next, Some(FuncParamsExtra::Named(params)))),
        Err(e) => if e.fatal {
            Err(e)
        } else {
            Ok((pos, None))
        },
    }
}

fn func_params_body<'s>(input: &'s str, pos: usize) -> (r: PResult<
    FuncParams<'s, FuncParam<'s>>,
>)
    requires
        pos < bytes_of(input).len(),
        bytes_of(input)[pos as int] == '(' as u8,
    ensures
        outcome(r).committed().within(Label::FuncParams, pos as int) == spec_func_params(
            bytes_of(input),
            pos as int,
        ),
        advances(r, pos, bytes_of(input).len()),
{
    proof {
        reveal(spec_func_params);
    }
    let len = length(input);
    let (after, positional_req) = param_list(input, skip_blank(input, pos + 1))?;
    let (group, _) = skip_spbrc(input, after)?;
    let (last, extra) = func_params_extra(input, group)?;
    let (end, _) = skip_spbrc(input, last)?;
    if peek(input, end, ')' as u8) {
        Ok((end + 1, FuncParams { positional_req, extra }))
    } else {
        Err(ParseError::miss(end, Label::Char))
    }
}

/// Parse the parameters of a function.
pub fn func_params<'s>(input: &'s str, pos: usize) -> (r: PResult<FuncParams<'s, FuncParam<'s>>>)
    requires
        pos <= bytes_of(input).len(),
    ensures
        outcome(r) == spec_func_params(bytes_of(input), pos as int),
        advances(r, pos, bytes_of(input).len()),
{
    if !peek(input, pos, '(' as u8) {
        proof {
            reveal(spec_func_params);
        }
        return framed(Err(ParseError::miss(pos, Label::Char)), Label::FuncParams, pos);
    }
    framed(cut(func_params_body(input, pos)), Label::FuncParams, pos)
}

/// A function: optional modifiers, the type that it returns, its name,
/// optional type parameters, its parameters, and its body or `;`.
#[verifier::opaque]
pub open spec fn spec_func(bytes: Seq<u8>, pos: int) -> Parsed<FuncM> {
    (match spec_ty(bytes, spec_func_modifiers(bytes, pos).0) {
        Parsed::Done { next, value: return_type } => match spec_identifier(
            bytes,
            blank_end(bytes, next),
        ) {
            Parsed::Done { next: end, value: name } => match spec_opt_type_params(
                bytes,
                blank_end(bytes, end),
            ) {
                Parsed::Done { next: open, value: type_params } => match spec_func_params(
                    bytes,
                    open,
                ) {
                    Parsed::Done { next: close, value: params } => match spec_body_or_semicolon(
                        bytes,
                        blank_end(bytes, close),
                    ) {
                        Parsed::Done { next: after, value: body } => Parsed::Done {
                            next: after,
                            value: FuncM {
                                modifiers: spec_func_modifiers(bytes, pos).1,
                                return_type,
                                name,
                                type_params,
                                params,
                                body,
                            },
                        },
                        other => other.carry(),
                    },
                    other => other.carry(),
                },
                other => other.carry(),
            },
            other => other.carry(),
        },
        other => other.carry(),
    }).within(Label::Func, pos)
}

/// An operator: optional modifiers, the type that it returns, `operator`
/// and the operator, optional type parameters, its parameters, and its body
/// or `;`.
#[verifier::opaque]
pub open spec fn spec_operator(bytes: Seq<u8>, pos: int) -> Parsed<OperatorM> {
    (match spec_ty(bytes, spec_func_modifiers(bytes, pos).0) {
        Parsed::Done { next, value: return_type } => match spec_tag(
            bytes,
            blank_end(bytes, next),
            bytes_of("operator"),
        ) {
            Parsed::Done { next: word, .. } => match spec_user_def_operator(
                bytes,
                blank_end(bytes, word),
            ) {
                Parsed::Done { next: end, value: operator_type } => match spec_opt_type_params(
                    bytes,
                    blank_end(bytes, end),
                ) {
                    Parsed::Done { next: open, value: type_params } => match spec_func_params(
                        bytes,
                        open,
                    ) {
                        Parsed::Done {
                            next: close,
                            value: params,
                        } => match spec_body_or_semicolon(bytes, blank_end(bytes, close)) {
                            Parsed::Done { next: after, value: body } => Parsed::Done {
                                next: after,
                                value: OperatorM {
                                    modifiers: spec_func_modifiers(bytes, pos).1,
                                    return_type,
                                    operator_type,
                                    type_params,
                                    params,
                                    body,
                                },
                            },
                            other => other.carry(),
                        },
                        other => other.carry(),
                    },
                    other => other.carry(),
                },
                other => other.carry(),
            },
            other => other.carry(),
        },
        other => other.carry(),
    }).within(Label::Operator, pos)
}

/// A getter: optional modifiers, the type that it returns, `get`,
/// whitespace, its name, and its body or `;`.
#[verifier::opaque]
pub open spec fn spec_getter(bytes: Seq<u8>, pos: int) -> Parsed<GetterM> {
    (match spec_ty(bytes, spec_func_modifiers(bytes, pos).0) {
        Parsed::Done { next, value: return_type } => match spec_tag(
            bytes,
            blank_end(bytes, next),
            bytes_of("get"),
        ) {
            Parsed::Done { next: word, .. } => match spec_space(bytes, word, false) {
                Parsed::Done { next: start, .. } => match spec_identifier(bytes, start) {
                    Parsed::Done { next: end, value: name } => match spec_body_or_semicolon(
                        bytes,
                        blank_end(bytes, end),
                    ) {
                        Parsed::Done { next: after, value: body } => Parsed::Done {
                            next: after,
                            value: GetterM {
                                modifiers: spec_func_modifiers(bytes, pos).1,
                                return_type,
                                name,
                                body,
                            },
                        },
                        other => other.carry(),
                    },
                    other => other.carry(),
                },
                other => other.carry(),
            },
            other => other.carry(),
        },
        other => other.carry(),
    }).within(Label::Getter, pos)
}

/// The offset after `void` and optional whitespace at `pos`; `pos` where
/// `void` does not stand.
pub open spec fn void_end(bytes: Seq<u8>, pos: int) -> int {
    if has_tag(bytes, pos, bytes_of("void")) {
        blank_end(bytes, pos + bytes_of("void").len())
    } else {
        pos
    }
}

/// A setter: optional modifiers, an optional `void`, `set`, whitespace, its
/// name, its parameters, and its body or `;`.
#[verifier::opaque]
pub open spec fn spec_setter(bytes: Seq<u8>, pos: int) -> Parsed<SetterM> {
    (match spec_tag(bytes, void_end(bytes, spec_func_modifiers(bytes, pos).0), bytes_of("set")) {
        Parsed::Done { next: word, .. } => match spec_space(bytes, word, false) {
            Parsed::Done { next: start, .. } => match spec_identifier(bytes, start) {
                Parsed::Done { next: end, value: name } => match spec_func_params(
                    bytes,
                    blank_end(bytes, end),
                ) {
                    Parsed::Done { next: close, value: params } => match spec_body_or_semicolon(
                        bytes,
                        blank_end(bytes, close),
                    ) {
                        Parsed::Done { next: after, value: body } => Parsed::Done {
                            next: after,
                            value: SetterM {
                                modifiers: spec_func_modifiers(bytes, pos).1,
                                name,
                                params,
                                body,
                            },
                        },
                        other => other.carry(),
                    },
                    other => other.carry(),
                },
                other => other.carry(),
            },
            other => other.carry(),
        },
        other => other.carry(),
    }).within(Label::Setter, pos)
}

/// A function, a getter, a setter or an operator.  An operator is tried
/// first, then a function, a getter and a setter.
#[verifier::opaque]
pub open spec fn spec_func_like(bytes: Seq<u8>, pos: int) -> Parsed<FuncLikeM> {
    (match spec_operator(bytes, pos) {
        Parsed::Done { next, value } => Parsed::Done { next, value: FuncLikeM::Operator(value) },
        Parsed::Fault { trace } => Parsed::Fault { trace },
        Parsed::Miss { .. } => match spec_func(bytes, pos) {
            Parsed::Done { next, value } => Parsed::Done { next, value: FuncLikeM::Func(value) },
            Parsed::Fault { trace } => Parsed::Fault { trace },
            Parsed::Miss { .. } => match spec_getter(bytes, pos) {
                Parsed::Done { next, value } => Parsed::Done {
                    next,
                    value: FuncLikeM::Getter(value),
                },
                Parsed::Fault { trace } => Parsed::Fault { trace },
                Parsed::Miss { .. } => match spec_setter(bytes, pos) {
                    Parsed::Done { next, value } => Parsed::Done {
                        next,
                        value: FuncLikeM::Setter(value),
                    },
                    other => other.carry(),
                },
            },
        },
    }).within(Label::FuncLike, pos)
}

fn func_body_of<'s>(input: &'s str, pos: usize) -> (r: PResult<Func<'s>>)
    requires
        pos <= bytes_of(input).len(),
    ensures
        outcome(r).within(Label::Func, pos as int) == spec_func(bytes_of(input), pos as int),
        advances(r, pos, bytes_of(input).len()),
{
    proof {
        reveal(spec_func);
    }
    let (start, modifiers) = func_modifiers(input, pos);
    let (next, return_type) = ty(input, start)?;
    let (end, name) = identifier(input, skip_blank(input, next))?;
    let (open, type_params) = opt_type_params(input, skip_blank(input, end))?;
    let (close, params) = func_params(input, open)?;
    let (after, body) = body_or_semicolon(input, skip_blank(input, close))?;
    Ok((after, Func { modifiers, return_type, name, type_params, params, body }))
}

/// Parse a function.
pub fn func<'s>(input: &'s str, pos: usize) -> (r: PResult<Func<'s>>)
    requires
        pos <= bytes_of(input).len(),
    ensures
        outcome(r) == spec_func(bytes_of(input), pos as int),
        advances(r, pos, bytes_of(input).len()),
{
    framed(func_body_of(input, pos), Label::Func, pos)
}

fn operator_body<'s>(input: &'s str, pos: usize) -> (r: PResult<Operator<'s>>)
    requires
        pos <= bytes_of(input).len(),
    ensures
        outcome(r).within(Label::Operator, pos as int) == spec_operator(
            bytes_of(input),
            pos as int,
        ),
        advances(r, pos, bytes_of(input).len()),
{
    proof {
        reveal(spec_operator);
    }
    let (start, modifiers) = func_modifiers(input, pos);
    let (next, return_type) = ty(input, start)?;
    let (word, _) = tag(input, skip_blank(input, next), "operator")?;
    let (end, operator_type) = user_def_operator(input, skip_blank(input, word))?;
    let (open, type_params) = opt_type_params(input, skip_blank(input, end))?;
    let (close, params) = func_params(input, open)?;
    let (after, body) = body_or_semicolon(input, skip_blank(input, close))?;
    Ok((after, Operator { modifiers, return_type, operator_type, type_params, params, body }))
}

/// Parse an operator.
pub fn operator<'s>(input: &'s str, pos: usize) -> (r: PResult<Operator<'s>>)
    requires
        pos <= bytes_of(input).len(),
    ensures
        outcome(r) == spec_operator(bytes_of(input), pos as int),
        advances(r, pos, bytes_of(input).len()),
{
    framed(operator_body(input, pos), Label::Operator, pos)
}

fn getter_body<'s>(input: &'s str, pos: usize) -> (r: PResult<Getter<'s>>)
    requires
        pos <= bytes_of(input).len(),
    ensures
        outcome(r).within(Label::Getter, pos as int) == spec_getter(bytes_of(input), pos as int),
        advances(r, pos, bytes_of(input).len()),
{
    proof {
        reveal(spec_getter);
    }
    let (start, modifiers) = func_modifiers(input, pos);
    let (next, return_type) = ty(input, start)?;
    let (word, _) = tag(input, skip_blank(input, next), "get")?;
    let (first, _) = space(input, word, false)?;
    let (end, name) = identifier(input, first)?;
    let (after, body) = body_or_semicolon(input, skip_blank(input, end))?;
    Ok((after, Getter { modifiers, return_type, name, body }))
}

/// Parse a getter.
pub fn getter<'s>(input: &'s str, pos: usize) -> (r: PResult<Getter<'s>>)
    requires
        pos <= bytes_of(input).len(),
    ensures
        outcome(r) == spec_getter(bytes_of(input), pos as int),
        advances(r, pos, bytes_of(input).len()),
{
    framed(getter_body(input, pos), Label::Getter, pos)
}

/// The offset after `void` and optional whitespace at `pos`, if `void`
/// stands there.
fn skip_void(input: &str, pos: usize) -> (end: usize)
    requires
        pos <= bytes_of(input).len(),
    ensures
        end == void_end(bytes_of(input), pos as int),
        pos <= end <= bytes_of(input).len(),
{
    if starts_with(input, pos, "void") {
        skip_blank(input, pos + length("void"))
    } else {
        pos
    }
}

fn setter_body<'s>(input: &'s str, pos: usize) -> (r: PResult<Setter<'s>>)
    requires
        pos <= bytes_of(input).len(),
    ensures
        outcome(r).within(Label::Setter, pos as int) == spec_setter(bytes_of(input), pos as int),
        advances(r, pos, bytes_of(input).len()),
{
    proof {
        reveal(spec_setter);
    }
    let (start, modifiers) = func_modifiers(input, pos);
    let (word, _) = tag(input, skip_void(input, start), "set")?;
    let (first, _) = space(input, word, false)?;
    let (end, name) = identifier(input, first)?;
    let (close, params) = func_params(input, skip_blank(input, end))?;
    let (after, body) = body_or_semicolon(input, skip_blank(input, close))?;
    Ok((after, Setter { modifiers, name, params, body }))
}

/// Parse a setter.
pub fn setter<'s>(input: &'s str, pos: usize) -> (r: PResult<Setter<'s>>)
    requires
        pos <= bytes_of(input).len(),
    ensures
        outcome(r) == spec_setter(bytes_of(input), pos as int),
        advances(r, pos, bytes_of(input).len()),
{
    framed(setter_body(input, pos), Label::Setter, pos)
}

fn func_like_body<'s>(input: &'s str, pos: usize) -> (r: PResult<FuncLike<'s>>)
    requires
        pos <= bytes_of(input).len(),
    ensures
        outcome(r).within(Label::FuncLike, pos as int) == spec_func_like(
            bytes_of(input),
            pos as int,
        ),
        advances(r, pos, bytes_of(input).len()),
{
    proof {
        reveal(spec_func_like);
    }
    match operator(input, pos) {
        Ok((next, value)) => {
            return Ok((next, FuncLike::Operator(value)));
        },
        Err(e) => if e.fatal {
            return Err(e);
        },
    }
    match func(input, pos) {
        Ok((next, value)) => {
            return Ok((next, FuncLike::Func(value)));
        },
        Err(e) => if e.fatal {
            return Err(e);
        },
    }
    match getter(input, pos) {
        Ok((next, value)) => {
            return Ok((next, FuncLike::Getter(value)));
        },
        Err(e) => if e.fatal {
            return Err(e);
        },
    }
    let (next, value) = setter(input, pos)?;
    Ok((next, FuncLike::Setter(value)))
}

/// Parse a function, a getter, a setter or an operator.
pub fn func_like<'s>(input: &'s str, pos: usize) -> (r: PResult<FuncLike<'s>>)
    requires
        pos <= bytes_of(input).len(),
    ensures
        outcome(r) == spec_func_like(bytes_of(input), pos as int),
        advances(r, pos, bytes_of(input).len()),
{
    framed(func_like_body(input, pos), Label::FuncLike, pos)
}

} // verus!
