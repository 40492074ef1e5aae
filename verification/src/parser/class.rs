//! Classes and mixins, and their members.

use vstd::prelude::*;
use vstd::string::*;
use vstd::utf8::*;
use crate::dart::class::{
    Class, ClassM, ClassMember, ClassMemberM, ClassModifier, ClassModifierSet, Constructor,
    ConstructorM, ConstructorModifier,
};
use crate::dart::func_like::{FuncBodyContent, FuncBodyContentM};
use crate::dart::meta::{WithMeta, WithMetaM};
use crate::dart::ty::{NotFuncType, NotFuncTypeM};
use crate::model::{Model, lemma_model_empty, lemma_model_push};
use crate::parser::comment::{skip_spbrc, space, spec_skip_spbrc, spec_space};
use crate::parser::expr::{expr, spec_expr};
use crate::parser::func_like::{
    func_body_content, func_like, func_params, spec_func_body_content, spec_func_like,
    spec_func_params,
};
use crate::parser::identifier::{identifier, spec_identifier};
use crate::parser::meta::{meta, spec_with_meta, with_meta};
use crate::parser::outcome::{
    Label, PResult, ParseError, Parsed, advances, cut, framed, outcome, stays,
};
use crate::parser::text::{
    blank_end, byte, bytes_of, cut_out, has_byte, has_tag, lemma_clean_cut, length, peek, room,
    skip_blank, spec_byte, spec_tag, starts_with, tag,
};
use crate::parser::ty::{not_func_type, spec_not_func_type};
use crate::parser::type_params::{opt_type_params, spec_opt_type_params};
use crate::parser::var::{spec_var, var};

verus! {

/// The class modifier at `pos`, and the offset after it.  The words are tried in
/// the order in which they stand here.
pub open spec fn spec_class_modifier(bytes: Seq<u8>, pos: int) -> Option<(ClassModifier, int)> {
    if has_tag(bytes, pos, bytes_of("abstract")) {
        Some((ClassModifier::Abstract, pos + bytes_of("abstract").len()))
    } else if has_tag(bytes, pos, bytes_of("base")) {
        Some((ClassModifier::Base, pos + bytes_of("base").len()))
    } else if has_tag(bytes, pos, bytes_of("class")) {
        Some((ClassModifier::Class, pos + bytes_of("class").len()))
    } else if has_tag(bytes, pos, bytes_of("final")) {
        Some((ClassModifier::Final, pos + bytes_of("final").len()))
    } else if has_tag(bytes, pos, bytes_of("interface")) {
        Some((ClassModifier::Interface, pos + bytes_of("interface").len()))
    } else if has_tag(bytes, pos, bytes_of("sealed")) {
        Some((ClassModifier::Sealed, pos + bytes_of("sealed").len()))
    } else if has_tag(bytes, pos, bytes_of("mixin")) {
        Some((ClassModifier::Mixin, pos + bytes_of("mixin").len()))
    } else {
        None
    }
}

/// The class modifiers from `pos` on, after the class modifiers `acc`: each stands after
/// whitespace.  The result is the
/// offset after the last of them, and the set.
#[verifier::opaque]
pub open spec fn spec_class_modifier_rest(bytes: Seq<u8>, pos: int, acc: Set<ClassModifier>) -> (int, Set<ClassModifier>)
    decreases room(bytes, pos),
{
    if !(0 <= pos <= bytes.len()) || blank_end(bytes, pos) == pos {
        (pos, acc)
    } else {
        match spec_class_modifier(bytes, blank_end(bytes, pos)) {
            Some((modifier, end)) => if pos < end <= bytes.len() {
                spec_class_modifier_rest(bytes, end, acc.insert(modifier))
            } else {
                (pos, acc)
            },
            None => (pos, acc),
        }
    }
}

/// One or more class modifiers with whitespace between them.
pub open spec fn spec_class_modifier_set(bytes: Seq<u8>, pos: int) -> Parsed<Set<ClassModifier>> {
    match spec_class_modifier(bytes, pos) {
        Some((modifier, end)) => Parsed::Done {
            next: spec_class_modifier_rest(bytes, end, Set::empty().insert(modifier)).0,
            value: spec_class_modifier_rest(bytes, end, Set::empty().insert(modifier)).1,
        },
        None => Parsed::miss(pos, Label::Tag),
    }
}

/// Parse one class modifier.
pub fn class_modifier(input: &str, pos: usize) -> (r: Option<(ClassModifier, usize)>)
    requires
        pos <= bytes_of(input).len(),
    ensures
        r.model() == spec_class_modifier(bytes_of(input), pos as int),
        r matches Some((_, end)) ==> pos <= end <= bytes_of(input).len(),
{
    if starts_with(input, pos, "abstract") {
        Some((ClassModifier::Abstract, pos + length("abstract")))
    } else if starts_with(input, pos, "base") {
        Some((ClassModifier::Base, pos + length("base")))
    } else if starts_with(input, pos, "class") {
        Some((ClassModifier::Class, pos + length("class")))
    } else if starts_with(input, pos, "final") {
        Some((ClassModifier::Final, pos + length("final")))
    } else if starts_with(input, pos, "interface") {
        Some((ClassModifier::Interface, pos + length("interface")))
    } else if starts_with(input, pos, "sealed") {
        Some((ClassModifier::Sealed, pos + length("sealed")))
    } else if starts_with(input, pos, "mixin") {
        Some((ClassModifier::Mixin, pos + length("mixin")))
    } else {
        None
    }
}

/// Parse one or more class modifiers.
pub fn class_modifier_set(input: &str, pos: usize) -> (r: PResult<ClassModifierSet>)
    requires
        pos <= bytes_of(input).len(),
    ensures
        outcome(r) == spec_class_modifier_set(bytes_of(input), pos as int),
        stays(r, pos, bytes_of(input).len()),
{
    let (first, start) = match class_modifier(input, pos) {
        Some(found) => found,
        None => {
            return Err(ParseError::miss(pos, Label::Tag));
        },
    };
    let mut set = ClassModifierSet::default().with(first);
    let mut cur = start;
    let ghost bytes = bytes_of(input);
    assert(set.members() =~= Set::empty().insert(first));
    loop
        invariant
            bytes == bytes_of(input),
            pos <= start <= cur <= bytes.len(),
            spec_class_modifier(bytes, pos as int) == Some((first, start as int)),
            spec_class_modifier_rest(bytes, start as int, Set::empty().insert(first)) == spec_class_modifier_rest(
                bytes,
                cur as int,
                set.members(),
            ),
        decreases bytes.len() - cur,
    {
        proof {
            reveal(spec_class_modifier_rest);
        }
        let word = skip_blank(input, cur);
        if word == cur {
            return Ok((cur, set));
        }
        match class_modifier(input, word) {
            Some((modifier, end)) => {
                if end > cur {
                    set = set.with(modifier);
                    cur = end;
                } else {
                    return Ok((cur, set));
                }
            },
            None => {
                return Ok((cur, set));
            },
        }
    }
}

/// The base class: `extends`, whitespace, and a named type.  After the
/// whitespace every failure is committed.
#[verifier::opaque]
pub open spec fn spec_extends_clause(bytes: Seq<u8>, pos: int) -> Parsed<NotFuncTypeM> {
    (match spec_tag(bytes, pos, bytes_of("extends")) {
        Parsed::Done { next: word, .. } => match spec_space(bytes, word, false) {
            Parsed::Done { next: start, .. } => spec_not_func_type(bytes, start).committed(),
            other => other.carry(),
        },
        other => other.carry(),
    }).within(Label::ExtendsClause, pos)
}

/// Parse the clause that names the base class.
pub fn extends_clause<'s>(input: &'s str, pos: usize) -> (r: PResult<NotFuncType<'s>>)
    requires
        pos <= bytes_of(input).len(),
    ensures
        outcome(r) == spec_extends_clause(bytes_of(input), pos as int),
        advances(r, pos, bytes_of(input).len()),
{
    proof {
        reveal(spec_extends_clause);
    }
    let word = match tag(input, pos, "extends") {
        Ok((word, _)) => word,
        Err(e) => {
            return framed(Err(e), Label::ExtendsClause, pos);
        },
    };
    let start = match space(input, word, false) {
        Ok((start, _)) => start,
        Err(e) => {
            return framed(Err(e), Label::ExtendsClause, pos);
        },
    };
    framed(cut(not_func_type(input, start)), Label::ExtendsClause, pos)
}

/// The mix-ins of a list after its first, each after a comma with optional
/// whitespace around it.
#[verifier::opaque]
pub open spec fn spec_with_list(bytes: Seq<u8>, pos: int, acc: Seq<NotFuncTypeM>) -> Parsed<
    Seq<NotFuncTypeM>,
>
    decreases room(bytes, pos),
{
    if !(0 <= pos <= bytes.len()) {
        Parsed::miss(pos, Label::Eof)
    } else if has_byte(bytes, blank_end(bytes, pos), ',' as u8) {
        match spec_not_func_type(bytes, blank_end(bytes, blank_end(bytes, pos) + 1)) {
            Parsed::Done { next, value } => if pos < next <= bytes.len() {
                spec_with_list(bytes, next, acc.push(value))
            } else {
                Parsed::miss(pos, Label::SeparatedList)
            },
            Parsed::Miss { .. } => Parsed::Done { next: pos, value: acc },
            Parsed::Fault { trace } => Parsed::Fault { trace },
        }
    } else {
        Parsed::Done { next: pos, value: acc }
    }
}

/// What follows `with` and whitespace: one or more named types with commas
/// between them.
#[verifier::opaque]
pub open spec fn spec_with_tail(bytes: Seq<u8>, pos: int) -> Parsed<Seq<NotFuncTypeM>> {
    match spec_not_func_type(bytes, pos) {
        Parsed::Done { next, value } => spec_with_list(bytes, next, seq![value]),
        other => other.carry(),
    }
}

/// The mix-ins: `with`, whitespace, and one or more named types.  After the
/// whitespace every failure is committed.
#[verifier::opaque]
pub open spec fn spec_with_clause(bytes: Seq<u8>, pos: int) -> Parsed<Seq<NotFuncTypeM>> {
    (match spec_tag(bytes, pos, bytes_of("with")) {
        Parsed::Done { next: word, .. } => match spec_space(bytes, word, false) {
            Parsed::Done { next: start, .. } => spec_with_tail(bytes, start).committed(),
            other => other.carry(),
        },
        other => other.carry(),
    }).within(Label::WithClause, pos)
}

/// Parse the mix-ins of a list after its first.
fn with_list<'s>(input: &'s str, pos: usize, first: NotFuncType<'s>) -> (r: PResult<
    Vec<NotFuncType<'s>>,
>)
    requires
        pos <= bytes_of(input).len(),
    ensures
        outcome(r) == spec_with_list(bytes_of(input), pos as int, seq![first.model()]),
        stays(r, pos, bytes_of(input).len()),
{
    let mut types: Vec<NotFuncType<'s>> = Vec::new();
    types.push(first);
    let mut cur = pos;
    let ghost bytes = bytes_of(input);
    proof {
        assert(types.model() =~= seq![first.model()]);
    }
    loop
        invariant
            bytes == bytes_of(input),
            pos <= cur <= bytes.len(),
            spec_with_list(bytes, pos as int, seq![first.model()]) == spec_with_list(
                bytes,
                cur as int,
                types.model(),
            ),
        decreases bytes.len() - cur,
    {
        proof {
            reveal(spec_with_list);
        }
        let comma = skip_blank(input, cur);
        if !peek(input, comma, ',' as u8) {
            return Ok((cur, types));
        }
        match not_func_type(input, skip_blank(input, comma + 1)) {
            Ok((next, item)) => {
                let ghost before = types;
                types.push(item);
                proof {
                    lemma_model_push(before, types, item);
                }
                cur = next;
            },
            Err(e) => {
                if e.fatal {
                    return Err(e);
                }
                return Ok((cur, types));
            },
        }
    }
}

fn with_tail<'s>(input: &'s str, pos: usize) -> (r: PResult<Vec<NotFuncType<'s>>>)
    requires
        pos <= bytes_of(input).len(),
    ensures
        outcome(r) == spec_with_tail(bytes_of(input), pos as int),
        advances(r, pos, bytes_of(input).len()),
{
    proof {
        reveal(spec_with_tail);
    }
    let (next, first) = not_func_type(input, pos)?;
    with_list(input, next, first)
}

fn with_clause_body<'s>(input: &'s str, pos: usize) -> (r: PResult<Vec<NotFuncType<'s>>>)
    requires
        pos <= bytes_of(input).len(),
    ensures
        outcome(r).within(Label::WithClause, pos as int) == spec_with_clause(
            bytes_of(input),
            pos as int,
        ),
        advances(r, pos, bytes_of(input).len()),
{
    proof {
        reveal(spec_with_clause);
    }
    let (word, _) = tag(input, pos, "with")?;
    let (start, _) = space(input, word, false)?;
    cut(with_tail(input, start))
}

/// Parse the clause that names the mix-ins.
pub fn with_clause<'s>(input: &'s str, pos: usize) -> (r: PResult<Vec<NotFuncType<'s>>>)
    requires
        pos <= bytes_of(input).len(),
    ensures
        outcome(r) == spec_with_clause(bytes_of(input), pos as int),
        advances(r, pos, bytes_of(input).len()),
{
    framed(with_clause_body(input, pos), Label::WithClause, pos)
}

/// A named type and the whitespace and comments after it.
#[verifier::opaque]
pub open spec fn spec_interface(bytes: Seq<u8>, pos: int) -> Parsed<NotFuncTypeM> {
    match spec_not_func_type(bytes, pos) {
        Parsed::Done { next, value } => match spec_skip_spbrc(bytes, next) {
            Parsed::Done { next: end, .. } => Parsed::Done { next: end, value },
            other => other.carry(),
        },
        other => other.carry(),
    }
}

/// The interfaces of a list after its first, each after a comma and
/// optional whitespace and comments.
#[verifier::opaque]
pub open spec fn spec_interface_list(bytes: Seq<u8>, pos: int, acc: Seq<NotFuncTypeM>) -> Parsed<
    Seq<NotFuncTypeM>,
>
    decreases room(bytes, pos),
{
    if !(0 <= pos <= bytes.len()) {
        Parsed::miss(pos, Label::Eof)
    } else if has_byte(bytes, pos, ',' as u8) {
        match spec_skip_spbrc(bytes, pos + 1) {
            Parsed::Done { next: start, .. } => match spec_interface(bytes, start) {
                Parsed::Done { next, value } => if pos < next <= bytes.len() {
                    spec_interface_list(bytes, next, acc.push(value))
                } else {
                    Parsed::miss(pos, Label::SeparatedList)
                },
                Parsed::Miss { .. } => Parsed::Done { next: pos, value: acc },
                Parsed::Fault { trace } => Parsed::Fault { trace },
            },
            other => other.carry(),
        }
    } else {
        Parsed::Done { next: pos, value: acc }
    }
}

/// What follows `implements` or `on` and whitespace: one or more named
/// types with commas between them.
#[verifier::opaque]
pub open spec fn spec_interfaces_tail(bytes: Seq<u8>, pos: int) -> Parsed<Seq<NotFuncTypeM>> {
    match spec_interface(bytes, pos) {
        Parsed::Done { next, value } => spec_interface_list(bytes, next, seq![value]),
        other => other.carry(),
    }
}

/// `word`, whitespace or comments, and one or more named types.  After the
/// whitespace every failure is committed.
#[verifier::opaque]
pub open spec fn spec_interfaces_after(bytes: Seq<u8>, pos: int, word: Seq<u8>) -> Parsed<
    Seq<NotFuncTypeM>,
> {
    match spec_tag(bytes, pos, word) {
        Parsed::Done { next, .. } => match spec_space(bytes, next, true) {
            Parsed::Done { next: start, .. } => spec_interfaces_tail(bytes, start).committed(),
            other => other.carry(),
        },
        other => other.carry(),
    }
}

/// The interfaces: `implements` and one or more named types.
pub open spec fn spec_implements_clause(bytes: Seq<u8>, pos: int) -> Parsed<Seq<NotFuncTypeM>> {
    spec_interfaces_after(bytes, pos, bytes_of("implements")).within(
        Label::ImplementsClause,
        pos,
    )
}

/// The types that a mixin can be added to: `on` and one or more named
/// types.
pub open spec fn spec_mixin_on_clause(bytes: Seq<u8>, pos: int) -> Parsed<Seq<NotFuncTypeM>> {
    spec_interfaces_after(bytes, pos, bytes_of("on")).within(Label::MixinOnClause, pos)
}

fn interface<'s>(input: &'s str, pos: usize) -> (r: PResult<NotFuncType<'s>>)
    requires
        pos <= bytes_of(input).len(),
    ensures
        outcome(r) == spec_interface(bytes_of(input), pos as int),
        advances(r, pos, bytes_of(input).len()),
{
    proof {
        reveal(spec_interface);
    }
    let (next, value) = not_func_type(input, pos)?;
    let (end, _) = skip_spbrc(input, next)?;
    Ok((end, value))
}

fn interface_list<'s>(input: &'s str, pos: usize, first: NotFuncType<'s>) -> (r: PResult<
    Vec<NotFuncType<'s>>,
>)
    requires
        pos <= bytes_of(input).len(),
    ensures
        outcome(r) == spec_interface_list(bytes_of(input), pos as int, seq![first.model()]),
        stays(r, pos, bytes_of(input).len()),
{
    let mut types: Vec<NotFuncType<'s>> = Vec::new();
    types.push(first);
    let mut cur = pos;
    let ghost bytes = bytes_of(input);
    proof {
        assert(types.model() =~= seq![first.model()]);
    }
    loop
        invariant
            bytes == bytes_of(input),
            pos <= cur <= bytes.len(),
            spec_interface_list(bytes, pos as int, seq![first.model()]) == spec_interface_list(
                bytes,
                cur as int,
                types.model(),
            ),
        decreases bytes.len() - cur,
    {
        proof {
            reveal(spec_interface_list);
        }
        if !peek(input, cur, ',' as u8) {
            return Ok((cur, types));
        }
        let (start, _) = skip_spbrc(input, cur + 1)?;
        match interface(input, start) {
            Ok((next, item)) => {
                let ghost before = types;
                types.push(item);
                proof {
                    lemma_model_push(before, types, item);
                }
                cur = next;
            },
            Err(e) => {
                if e.fatal {
                    return Err(e);
                }
                return Ok((cur, types));
            },
        }
    }
}

fn interfaces_tail<'s>(input: &'s str, pos: usize) -> (r: PResult<Vec<NotFuncType<'s>>>)
    requires
        pos <= bytes_of(input).len(),
    ensures
        outcome(r) == spec_interfaces_tail(bytes_of(input), pos as int),
        advances(r, pos, bytes_of(input).len()),
{
    proof {
        reveal(spec_interfaces_tail);
    }
    let (next, first) = interface(input, pos)?;
    interface_list(input, next, first)
}

fn interfaces_after<'s>(input: &'s str, pos: usize, word: &str) -> (r: PResult<
    Vec<NotFuncType<'s>>,
>)
    requires
        pos <= bytes_of(input).len(),
    ensures
        outcome(r) == spec_interfaces_after(bytes_of(input), pos as int, bytes_of(word)),
        advances(r, pos, bytes_of(input).len()),
{
    proof {
        reveal(spec_interfaces_after);
    }
    let (next, _) = tag(input, pos, word)?;
    let (start, _) = space(input, next, true)?;
    cut(interfaces_tail(input, start))
}

/// Parse the clause that names the interfaces.
pub fn implements_clause<'s>(input: &'s str, pos: usize) -> (r: PResult<Vec<NotFuncType<'s>>>)
    requires
        pos <= bytes_of(input).len(),
    ensures
        outcome(r) == spec_implements_clause(bytes_of(input), pos as int),
        advances(r, pos, bytes_of(input).len()),
{
    framed(interfaces_after(input, pos, "implements"), Label::ImplementsClause, pos)
}

/// Parse the clause that names the types a mixin can be added to.
pub fn mixin_on_clause<'s>(input: &'s str, pos: usize) -> (r: PResult<Vec<NotFuncType<'s>>>)
    requires
        pos <= bytes_of(input).len(),
    ensures
        outcome(r) == spec_mixin_on_clause(bytes_of(input), pos as int),
        advances(r, pos, bytes_of(input).len()),
{
    framed(interfaces_after(input, pos, "on"), Label::MixinOnClause, pos)
}

/// A list of named types and the whitespace after it, if `found` is one;
/// none, at `pos`, if `found` is a recoverable failure.
pub open spec fn spec_opt_clause(bytes: Seq<u8>, pos: int, found: Parsed<Seq<NotFuncTypeM>>) -> Parsed<
    Seq<NotFuncTypeM>,
> {
    match found {
        Parsed::Done { next, value } => Parsed::Done { next: blank_end(bytes, next), value },
        Parsed::Miss { .. } => Parsed::Done { next: pos, value: Seq::empty() },
        Parsed::Fault { trace } => Parsed::Fault { trace },
    }
}

/// The clause `found`, which was looked for at `pos`, as an optional one.
fn opt_clause<'s>(input: &'s str, pos: usize, found: PResult<Vec<NotFuncType<'s>>>) -> (r: PResult<
    Vec<NotFuncType<'s>>,
>)
    requires
        pos <= bytes_of(input).len(),
        stays(found, pos, bytes_of(input).len()),
    ensures
        outcome(r) == spec_opt_clause(bytes_of(input), pos as int, outcome(found)),
        stays(r, pos, bytes_of(input).len()),
{
    match found {
        Ok((next, types)) => Ok((skip_blank(input, next), types)),
        Err(e) => {
            if e.fatal {
                return Err(e);
            }
            let none: Vec<NotFuncType<'s>> = Vec::new();
            proof {
                lemma_model_empty(none);
            }
            Ok((pos, none))
        },
    }
}

/// The base class and the whitespace after it, if `extends` stands at
/// `pos`.
pub open spec fn spec_opt_extends(bytes: Seq<u8>, pos: int) -> Parsed<Option<NotFuncTypeM>> {
    match spec_extends_clause(bytes, pos) {
        Parsed::Done { next, value } => Parsed::Done {
            next: blank_end(bytes, next),
            value: Some(value),
        },
        Parsed::Miss { .. } => Parsed::Done { next: pos, value: None },
        Parsed::Fault { trace } => Parsed::Fault { trace },
    }
}

fn opt_extends<'s>(input: &'s str, pos: usize) -> (r: PResult<Option<NotFuncType<'s>>>)
    requires
        pos <= bytes_of(input).len(),
    ensures
        outcome(r) == spec_opt_extends(bytes_of(input), pos as int),
        stays(r, pos, bytes_of(input).len()),
{
    match extends_clause(input, pos) {
        Ok((next, base)) => Ok((skip_blank(input, next), Some(base))),
        Err(e) => if e.fatal {
            Err(e)
        } else {
            Ok((pos, None))
        },
    }
}

/// The modifier of a constructor and the whitespace after it, where both
/// stand at `pos`: `const`, `factory` or `external`.
pub open spec fn spec_constructor_modifier(bytes: Seq<u8>, pos: int) -> (
    int,
    Option<ConstructorModifier>,
) {
    if has_tag(bytes, pos, bytes_of("const")) && blank_end(bytes, pos + bytes_of("const").len())
        > pos + bytes_of("const").len() {
        (blank_end(bytes, pos + bytes_of("const").len()), Some(ConstructorModifier::Const))
    } else if has_tag(bytes, pos, bytes_of("const")) {
        (pos, None)
    } else if has_tag(bytes, pos, bytes_of("factory")) && blank_end(
        bytes,
        pos + bytes_of("factory").len(),
    ) > pos + bytes_of("factory").len() {
        (blank_end(bytes, pos + bytes_of("factory").len()), Some(ConstructorModifier::Factory))
    } else if has_tag(bytes, pos, bytes_of("factory")) {
        (pos, None)
    } else if has_tag(bytes, pos, bytes_of("external")) && blank_end(
        bytes,
        pos + bytes_of("external").len(),
    ) > pos + bytes_of("external").len() {
        (blank_end(bytes, pos + bytes_of("external").len()), Some(ConstructorModifier::External))
    } else {
        (pos, None)
    }
}

/// Parse the modifier of a constructor, if there is one.
pub fn constructor_modifier(input: &str, pos: usize) -> (r: (usize, Option<ConstructorModifier>))
    requires
        pos <= bytes_of(input).len(),
    ensures
        (r.0 as int, r.1.model()) == spec_constructor_modifier(bytes_of(input), pos as int),
        pos <= r.0 <= bytes_of(input).len(),
{
    let (word, modifier) = if starts_with(input, pos, "const") {
        (pos + length("const"), ConstructorModifier::Const)
    } else if starts_with(input, pos, "factory") {
        (pos + length("factory"), ConstructorModifier::Factory)
    } else if starts_with(input, pos, "external") {
        (pos + length("external"), ConstructorModifier::External)
    } else {
        return (pos, None);
    };
    let end = skip_blank(input, word);
    if end > word {
        (end, Some(modifier))
    } else {
        (pos, None)
    }
}

/// The offset after the expressions of an initializer list after its
/// first, each after a comma with optional whitespace around it.
#[verifier::opaque]
pub open spec fn spec_initializers_end(bytes: Seq<u8>, pos: int) -> Parsed<()>
    decreases room(bytes, pos),
{
    if !(0 <= pos <= bytes.len()) {
        Parsed::miss(pos, Label::Eof)
    } else if has_byte(bytes, blank_end(bytes, pos), ',' as u8) {
        match spec_expr(bytes, blank_end(bytes, blank_end(bytes, pos) + 1)) {
            Parsed::Done { next, .. } => if pos < next <= bytes.len() {
                spec_initializers_end(bytes, next)
            } else {
                Parsed::miss(pos, Label::SeparatedList)
            },
            Parsed::Miss { .. } => Parsed::Done { next: pos, value: () },
            Parsed::Fault { trace } => Parsed::Fault { trace },
        }
    } else {
        Parsed::Done { next: pos, value: () }
    }
}

/// An initializer list: `:`, and one or more expressions with commas
/// between them.  The value is the text of the expressions.
#[verifier::opaque]
pub open spec fn spec_constructor_initializer_list(bytes: Seq<u8>, pos: int) -> Parsed<Seq<u8>> {
    if has_byte(bytes, pos, ':' as u8) {
        match spec_expr(bytes, blank_end(bytes, pos + 1)) {
            Parsed::Done { next, .. } => match spec_initializers_end(bytes, next) {
                Parsed::Done { next: end, .. } => Parsed::Done {
                    next: end,
                    value: bytes.subrange(blank_end(bytes, pos + 1), end),
                },
                other => other.carry(),
            },
            other => other.carry(),
        }
    } else {
        Parsed::miss(pos, Label::Char)
    }
}

/// An initializer list and the whitespace after it, if one stands at `pos`.
pub open spec fn spec_opt_initializers(bytes: Seq<u8>, pos: int) -> Parsed<Option<Seq<u8>>> {
    match spec_constructor_initializer_list(bytes, pos) {
        Parsed::Done { next, value } => Parsed::Done {
            next: blank_end(bytes, next),
            value: Some(value),
        },
        Parsed::Miss { .. } => Parsed::Done { next: pos, value: None },
        Parsed::Fault { trace } => Parsed::Fault { trace },
    }
}

fn initializers_end(input: &str, pos: usize) -> (r: PResult<()>)
    requires
        pos <= bytes_of(input).len(),
        pos == bytes_of(input).len() || bytes_of(input)[pos as int] <= 0x7f,
    ensures
        outcome(r) == spec_initializers_end(bytes_of(input), pos as int),
        stays(r, pos, bytes_of(input).len()),
        r matches Ok((next, _)) ==> next == bytes_of(input).len() || bytes_of(input)[next as int]
            <= 0x7f,
{
    let mut cur = pos;
    let ghost bytes = bytes_of(input);
    loop
        invariant
            bytes == bytes_of(input),
            pos <= cur <= bytes.len(),
            cur == bytes.len() || bytes[cur as int] <= 0x7f,
            spec_initializers_end(bytes, pos as int) == spec_initializers_end(bytes, cur as int),
        decreases bytes.len() - cur,
    {
        proof {
            reveal(spec_initializers_end);
        }
        let comma = skip_blank(input, cur);
        if !peek(input, comma, ',' as u8) {
            return Ok((cur, ()));
        }
        let start = skip_blank(input, comma + 1);
        proof {
            lemma_clean_cut(input, start as int);
        }
        match expr(input, start) {
            Ok((next, _)) => {
                cur = next;
            },
            Err(e) => {
                if e.fatal {
                    return Err(e);
                }
                return Ok((cur, ()));
            },
        }
    }
}

/// Parse an initializer list.
pub fn constructor_initializer_list<'s>(input: &'s str, pos: usize) -> (r: PResult<&'s str>)
    requires
        pos <= bytes_of(input).len(),
    ensures
        outcome(r) == spec_constructor_initializer_list(bytes_of(input), pos as int),
        advances(r, pos, bytes_of(input).len()),
{
    proof {
        reveal(spec_constructor_initializer_list);
    }
    if !peek(input, pos, ':' as u8) {
        return Err(ParseError::miss(pos, Label::Char));
    }
    let start = skip_blank(input, pos + 1);
    proof {
        lemma_clean_cut(input, start as int);
    }
    let (next, _) = expr(input, start)?;
    let (end, _) = initializers_end(input, next)?;
    Ok((end, cut_out(input, start, end)))
}

fn opt_initializers<'s>(input: &'s str, pos: usize) -> (r: PResult<Option<&'s str>>)
    requires
        pos <= bytes_of(input).len(),
    ensures
        outcome(r) == spec_opt_initializers(bytes_of(input), pos as int),
        stays(r, pos, bytes_of(input).len()),
{
    match constructor_initializer_list(input, pos) {
        Ok((next, text)) => Ok((skip_blank(input, next), Some(text))),
        Err(e) => if e.fatal {
            Err(e)
        } else {
            Ok((pos, None))
        },
    }
}

/// The body of a constructor, or `;` for a constructor without a body.
#[verifier::opaque]
pub open spec fn spec_content_or_semicolon(bytes: Seq<u8>, pos: int) -> Parsed<
    Option<FuncBodyContentM>,
> {
    match spec_func_body_content(bytes, pos) {
        Parsed::Done { next, value } => Parsed::Done { next, value: Some(value) },
        Parsed::Fault { trace } => Parsed::Fault { trace },
        Parsed::Miss { .. } => if has_byte(bytes, pos, ';' as u8) {
            Parsed::Done { next: pos + 1, value: None }
        } else {
            Parsed::miss(pos, Label::Tag)
        },
    }
}

fn content_or_semicolon<'s>(input: &'s str, pos: usize) -> (r: PResult<
    Option<FuncBodyContent<'s>>,
>)
    requires
        pos <= bytes_of(input).len(),
    ensures
        outcome(r) == spec_content_or_semicolon(bytes_of(input), pos as int),
        advances(r, pos, bytes_of(input).len()),
{
    proof {
        reveal(spec_content_or_semicolon);
    }
    match func_body_content(input, pos) {
        Ok((next, content)) => {
            return Ok((next, Some(content)));
        },
        Err(e) => if e.fatal {
            return Err(e);
        },
    }
    if peek(input, pos, ';' as u8) {
        Ok((pos + 1, None))
    } else {
        Err(ParseError::miss(pos, Label::Tag))
    }
}

/// A constructor: an optional modifier, its name, its parameters, an
/// optional initializer list, and its body or `;`.
#[verifier::opaque]
pub open spec fn spec_constructor(bytes: Seq<u8>, pos: int) -> Parsed<ConstructorM> {
    (match spec_identifier(bytes, spec_constructor_modifier(bytes, pos).0) {
        Parsed::Done { next: end, value: name } => match spec_func_params(
            bytes,
            blank_end(bytes, end),
        ) {
            Parsed::Done { next: close, value: params } => match spec_opt_initializers(
                bytes,
                blank_end(bytes, close),
            ) {
                Parsed::Done {
                    next: last,
                    value: initializers,
                } => match spec_content_or_semicolon(bytes, last) {
                    Parsed::Done { next, value: body } => Parsed::Done {
                        next,
                        value: ConstructorM {
                            modifier: spec_constructor_modifier(bytes, pos).1,
                            name,
                            params,
                            initializers,
                            body,
                        },
                    },
                    other => other.carry(),
                },
                other => other.carry(),
            },
            other => other.carry(),
        },
        other => other.carry(),
    }).within(Label::Constructor, pos)
}

fn constructor_body<'s>(input: &'s str, pos: usize) -> (r: PResult<Constructor<'s>>)
    requires
        pos <= bytes_of(input).len(),
    ensures
        outcome(r).within(Label::Constructor, pos as int) == spec_constructor(
            bytes_of(input),
            pos as int,
        ),
        advances(r, pos, bytes_of(input).len()),
{
    proof {
        reveal(spec_constructor);
    }
    let (start, modifier) = constructor_modifier(input, pos);
    let (end, name) = identifier(input, start)?;
    let (close, params) = func_params(input, skip_blank(input, end))?;
    let (last, initializers) = opt_initializers(input, skip_blank(input, close))?;
    let (next, body) = content_or_semicolon(input, last)?;
    Ok((next, Constructor { modifier, name, params, initializers, body }))
}

/// Parse a constructor.
pub fn constructor<'s>(input: &'s str, pos: usize) -> (r: PResult<Constructor<'s>>)
    requires
        pos <= bytes_of(input).len(),
    ensures
        outcome(r) == spec_constructor(bytes_of(input), pos as int),
        advances(r, pos, bytes_of(input).len()),
{
    framed(constructor_body(input, pos), Label::Constructor, pos)
}

/// A member of a class: a constructor, a field or a function, tried in this
/// order.
#[verifier::opaque]
pub open spec fn spec_class_member(bytes: Seq<u8>, pos: int) -> Parsed<ClassMemberM> {
    match spec_constructor(bytes, pos) {
        Parsed::Done { next, value } => Parsed::Done {
            next,
            value: ClassMemberM::Constructor(value),
        },
        Parsed::Fault { trace } => Parsed::Fault { trace },
        Parsed::Miss { .. } => match spec_var(bytes, pos) {
            Parsed::Done { next, value } => Parsed::Done { next, value: ClassMemberM::Var(value) },
            Parsed::Fault { trace } => Parsed::Fault { trace },
            Parsed::Miss { .. } => match spec_func_like(bytes, pos) {
                Parsed::Done { next, value } => Parsed::Done {
                    next,
                    value: ClassMemberM::FuncLike(value),
                },
                other => other.carry(),
            },
        },
    }
}

/// Parse a member of a class.
pub fn class_member<'s>(input: &'s str, pos: usize) -> (r: PResult<ClassMember<'s>>)
    requires
        pos <= bytes_of(input).len(),
    ensures
        outcome(r) == spec_class_member(bytes_of(input), pos as int),
        advances(r, pos, bytes_of(input).len()),
{
    proof {
        reveal(spec_class_member);
    }
    match constructor(input, pos) {
        Ok((next, value)) => {
            return Ok((next, ClassMember::Constructor(value)));
        },
        Err(e) => if e.fatal {
            return Err(e);
        },
    }
    match var(input, pos) {
        Ok((next, value)) => {
            return Ok((next, ClassMember::Var(value)));
        },
        Err(e) => if e.fatal {
            return Err(e);
        },
    }
    let (next, value) = func_like(input, pos)?;
    Ok((next, ClassMember::FuncLike(value)))
}

/// The members from `pos` on, after the members `acc`: each with its
/// metadata and followed by optional whitespace, as many as there are.
#[verifier::opaque]
pub open spec fn spec_member_list(bytes: Seq<u8>, pos: int, acc: Seq<WithMetaM<ClassMemberM>>) -> Parsed<
    Seq<WithMetaM<ClassMemberM>>,
>
    decreases room(bytes, pos),
{
    if !(0 <= pos <= bytes.len()) {
        Parsed::miss(pos, Label::Eof)
    } else {
        match spec_with_meta(bytes, pos, |at: int| spec_class_member(bytes, at)) {
            Parsed::Done { next, value } => if pos < next <= bytes.len() && blank_end(bytes, next)
                <= bytes.len() {
                spec_member_list(bytes, blank_end(bytes, next), acc.push(value))
            } else {
                Parsed::miss(pos, Label::Many0)
            },
            Parsed::Miss { .. } => Parsed::Done { next: pos, value: acc },
            Parsed::Fault { trace } => Parsed::Fault { trace },
        }
    }
}

/// Parse the members of a class, without the braces.
pub fn member_list<'s>(input: &'s str, pos: usize) -> (r: PResult<
    Vec<WithMeta<'s, ClassMember<'s>>>,
>)
    requires
        pos <= bytes_of(input).len(),
    ensures
        outcome(r) == spec_member_list(bytes_of(input), pos as int, Seq::empty()),
        stays(r, pos, bytes_of(input).len()),
{
    let mut members: Vec<WithMeta<'s, ClassMember<'s>>> = Vec::new();
    let mut cur = pos;
    let ghost bytes = bytes_of(input);
    proof {
        lemma_model_empty(members);
    }
    loop
        invariant
            bytes == bytes_of(input),
            pos <= cur <= bytes.len(),
            spec_member_list(bytes, pos as int, Seq::empty()) == spec_member_list(
                bytes,
                cur as int,
                members.model(),
            ),
        decreases bytes.len() - cur,
    {
        proof {
            reveal(spec_member_list);
        }
        let (start, items) = match meta(input, cur) {
            Ok(done) => done,
            Err(e) => {
                if e.fatal {
                    return Err(e.within(Label::WithMeta, cur));
                }
                return Ok((cur, members));
            },
        };
        match with_meta(items, class_member(input, start), cur) {
            Ok((next, member)) => {
                let ghost before = members;
                members.push(member);
                proof {
                    lemma_model_push(before, members, member);
                }
                cur = skip_blank(input, next);
            },
            Err(e) => {
                if e.fatal {
                    return Err(e);
                }
                return Ok((cur, members));
            },
        }
    }
}

/// What follows the `{` of a class body: optional whitespace, the members,
/// optional whitespace and comments, and `}`.
#[verifier::opaque]
pub open spec fn spec_class_body_tail(bytes: Seq<u8>, pos: int) -> Parsed<
    Seq<WithMetaM<ClassMemberM>>,
> {
    match spec_member_list(bytes, blank_end(bytes, pos), Seq::empty()) {
        Parsed::Done { next, value } => match spec_skip_spbrc(bytes, next) {
            Parsed::Done { next: close, .. } => match spec_byte(bytes, close, '}' as u8) {
                Parsed::Done { next: end, .. } => Parsed::Done { next: end, value },
                other => other.carry(),
            },
            other => other.carry(),
        },
        other => other,
    }
}

/// The body of a class: `{`, the members, `}`.  After the `{` every failure
/// is committed.
#[verifier::opaque]
pub open spec fn spec_class_body(bytes: Seq<u8>, pos: int) -> Parsed<
    Seq<WithMetaM<ClassMemberM>>,
> {
    (match spec_byte(bytes, pos, '{' as u8) {
        Parsed::Done { next, .. } => spec_class_body_tail(bytes, next).committed(),
        other => other.carry(),
    }).within(Label::ClassBody, pos)
}

fn class_body_tail<'s>(input: &'s str, pos: usize) -> (r: PResult<
    Vec<WithMeta<'s, ClassMember<'s>>>,
>)
    requires
        pos <= bytes_of(input).len(),
    ensures
        outcome(r) == spec_class_body_tail(bytes_of(input), pos as int),
        advances(r, pos, bytes_of(input).len()),
{
    proof {
        reveal(spec_class_body_tail);
    }
    let (next, members) = member_list(input, skip_blank(input, pos))?;
    let (close, _) = skip_spbrc(input, next)?;
    let (end, _) = byte(input, close, '}' as u8)?;
    Ok((end, members))
}

fn class_body_of<'s>(input: &'s str, pos: usize) -> (r: PResult<
    Vec<WithMeta<'s, ClassMember<'s>>>,
>)
    requires
        pos <= bytes_of(input).len(),
    ensures
        outcome(r).within(Label::ClassBody, pos as int) == spec_class_body(
            bytes_of(input),
            pos as int,
        ),
        advances(r, pos, bytes_of(input).len()),
{
    proof {
        reveal(spec_class_body);
    }
    let (next, _) = byte(input, pos, '{' as u8)?;
    cut(class_body_tail(input, next))
}

/// Parse the body of a class.
pub fn class_body<'s>(input: &'s str, pos: usize) -> (r: PResult<
    Vec<WithMeta<'s, ClassMember<'s>>>,
>)
    requires
        pos <= bytes_of(input).len(),
    ensures
        outcome(r) == spec_class_body(bytes_of(input), pos as int),
        advances(r, pos, bytes_of(input).len()),
{
    framed(class_body_of(input, pos), Label::ClassBody, pos)
}

/// The clauses of a class after its type parameters: the base class, the
/// mix-ins, the interfaces, and the types that a mixin can be added to,
/// each optional; and the body.
#[verifier::opaque]
pub open spec fn spec_class_tail(
    bytes: Seq<u8>,
    pos: int,
    head: ClassM,
) -> Parsed<ClassM> {
    match spec_opt_extends(bytes, pos) {
        Parsed::Done { next: first, value: extends } => match spec_opt_clause(
            bytes,
            first,
            spec_with_clause(bytes, first),
        ) {
            Parsed::Done { next: second, value: with } => match spec_opt_clause(
                bytes,
                second,
                spec_implements_clause(bytes, second),
            ) {
                Parsed::Done { next: third, value: implements } => match spec_opt_clause(
                    bytes,
                    third,
                    spec_mixin_on_clause(bytes, third),
                ) {
                    Parsed::Done { next: open, value: mixin_on } => match spec_class_body(
                        bytes,
                        open,
                    ) {
                        Parsed::Done { next, value: body } => Parsed::Done {
                            next,
                            value: ClassM {
                                modifiers: head.modifiers,
                                name: head.name,
                                type_params: head.type_params,
                                extends,
                                with,
                                implements,
                                mixin_on,
                                body,
                            },
                        },
                        other => other.carry(),
                    },
                    other => other.carry(),
                },
                other => other.carry(),
            },
            other => other.carry(),
        },
        other => other.carry(),
    }
}

/// A class or a mixin: one or more modifiers, among them `class` or
/// `mixin`, whitespace, the name, optional type parameters, the clauses,
/// and the body.
#[verifier::opaque]
pub open spec fn spec_class(bytes: Seq<u8>, pos: int) -> Parsed<ClassM> {
    (match spec_class_modifier_set(bytes, pos) {
        Parsed::Done { next: word, value: modifiers } => match spec_space(bytes, word, false) {
            Parsed::Done { next: start, .. } => match spec_identifier(bytes, start) {
                Parsed::Done { next: end, value: name } => match spec_opt_type_params(
                    bytes,
                    blank_end(bytes, end),
                ) {
                    Parsed::Done { next: after, value: type_params } => spec_class_tail(
                        bytes,
                        after,
                        ClassM {
                            modifiers,
                            name,
                            type_params,
                            extends: None,
                            with: Seq::empty(),
                            implements: Seq::empty(),
                            mixin_on: Seq::empty(),
                            body: Seq::empty(),
                        },
                    ),
                    other => other.carry(),
                },
                other => other.carry(),
            },
            other => other.carry(),
        },
        other => other.carry(),
    }).within(Label::Class, pos)
}

fn class_of<'s>(input: &'s str, pos: usize) -> (r: PResult<Class<'s>>)
    requires
        pos <= bytes_of(input).len(),
    ensures
        outcome(r).within(Label::Class, pos as int) == spec_class(bytes_of(input), pos as int),
        advances(r, pos, bytes_of(input).len()),
{
    proof {
        reveal(spec_class);
        reveal(spec_class_tail);
    }
    let (word, modifiers) = class_modifier_set(input, pos)?;
    let (start, _) = space(input, word, false)?;
    let (end, name) = identifier(input, start)?;
    let (after, type_params) = opt_type_params(input, skip_blank(input, end))?;
    let (first, extends) = opt_extends(input, after)?;
    let (second, with) = opt_clause(input, first, with_clause(input, first))?;
    let (third, implements) = opt_clause(input, second, implements_clause(input, second))?;
    let (open, mixin_on) = opt_clause(input, third, mixin_on_clause(input, third))?;
    let (next, body) = class_body(input, open)?;
    Ok((next, Class { modifiers, name, type_params, extends, with, implements, mixin_on, body }))
}

/// Parse a class or a mixin.
pub fn class<'s>(input: &'s str, pos: usize) -> (r: PResult<Class<'s>>)
    requires
        pos <= bytes_of(input).len(),
    ensures
        outcome(r) == spec_class(bytes_of(input), pos as int),
        advances(r, pos, bytes_of(input).len()),
{
    framed(class_of(input, pos), Label::Class, pos)
}

} // verus!
