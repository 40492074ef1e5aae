//! Brackets and what stands between them, and expressions.
//!
//! Expressions are not parsed: it is enough to know where one ends.

use vstd::prelude::*;
use vstd::string::*;
use vstd::utf8::*;
use crate::dart::expr::{Expr, ExprM};
use crate::parser::comment::{comment, spec_comment};
use crate::parser::identifier::{identifier, spec_identifier};
use crate::parser::outcome::{
    Label, PResult, ParseError, Parsed, Spot, advances, cut, framed, outcome, stays, uncut,
};
use crate::parser::string::{spec_string, string};
use crate::parser::text::{
    Class, blank_end, bytes_of, cut_out, has_byte, lemma_class_ascii, lemma_clean_cut, lemma_run,
    length, peek, room, run_len, scan, skip_blank, slice,
};
use crate::parser::ty::{spec_type_args, type_args};

verus! {

/// The bracket that closes `open`.
pub open spec fn closing_of(open: u8) -> u8 {
    if open == '(' as u8 {
        ')' as u8
    } else if open == '[' as u8 {
        ']' as u8
    } else {
        '}' as u8
    }
}

/// What stands between brackets (`class` is `ScopeStop`) or makes up an
/// expression (`ExprStop`), from `pos` on: runs of characters that are not in
/// `class`, and the items of `spec_body_item`.  The result is the offset at
/// which neither is found.
#[verifier::opaque]
pub open spec fn spec_items(bytes: Seq<u8>, pos: int, class: Class) -> Parsed<()>
    decreases room(bytes, pos), 3int,
{
    if !(0 <= pos <= bytes.len()) {
        Parsed::miss(pos, Label::Eof)
    } else if 0 < run_len(bytes, pos, class, false) <= bytes.len() - pos {
        spec_items(bytes, pos + run_len(bytes, pos, class, false), class)
    } else {
        match spec_body_item(bytes, pos) {
            Parsed::Done { next, .. } => if pos < next <= bytes.len() {
                spec_items(bytes, next, class)
            } else {
                Parsed::Fault { trace: seq![Spot { at: pos, label: Label::Many1 }] }
            },
            Parsed::Miss { .. } => Parsed::Done { next: pos, value: () },
            Parsed::Fault { trace } => Parsed::Fault { trace },
        }
    }
}

/// One item that a run of ordinary characters cannot hold, tried in this
/// order: `=>` (so that its `>` is no comparison), `=`, type arguments, `<`,
/// `>`, a comment, `/`, a string literal, `r`, and a part in brackets of any
/// kind.  In an expression `<` may be a comparison: this is the one place
/// where a committed failure, that of the type arguments, is made
/// recoverable again, and the `<` is then taken alone.
#[verifier::opaque]
pub open spec fn spec_body_item(bytes: Seq<u8>, pos: int) -> Parsed<()>
    decreases room(bytes, pos), 2int,
{
    if has_byte(bytes, pos, '=' as u8) {
        if has_byte(bytes, pos + 1, '>' as u8) {
            Parsed::Done { next: pos + 2, value: () }
        } else {
            Parsed::Done { next: pos + 1, value: () }
        }
    } else if has_byte(bytes, pos, '<' as u8) {
        match spec_type_args(bytes, pos).tolerant() {
            Parsed::Done { next, .. } => Parsed::Done { next, value: () },
            other => other.carry::<()>().or(Parsed::Done { next: pos + 1, value: () }),
        }
    } else if has_byte(bytes, pos, '>' as u8) {
        Parsed::Done { next: pos + 1, value: () }
    } else {
        match spec_comment(bytes, pos) {
            Parsed::Done { next, .. } => Parsed::Done { next, value: () },
            Parsed::Fault { trace } => Parsed::Fault { trace },
            Parsed::Miss { .. } => if has_byte(bytes, pos, '/' as u8) {
                Parsed::Done { next: pos + 1, value: () }
            } else {
                match spec_string(bytes, pos) {
                    Parsed::Done { next, .. } => Parsed::Done { next, value: () },
                    Parsed::Fault { trace } => Parsed::Fault { trace },
                    Parsed::Miss { .. } => if has_byte(bytes, pos, 'r' as u8) {
                        Parsed::Done { next: pos + 1, value: () }
                    } else {
                        spec_any_scope(bytes, pos)
                    },
                }
            },
        }
    }
}

/// A part in brackets: `open`, what stands between, and the bracket that
/// closes `open`.  After `open` every failure is committed.
#[verifier::opaque]
pub open spec fn spec_scope(bytes: Seq<u8>, pos: int, open: u8) -> Parsed<()>
    decreases room(bytes, pos), 0int,
{
    (if has_byte(bytes, pos, open) {
        match spec_items(bytes, pos + 1, Class::ScopeStop) {
            Parsed::Done { next: end, .. } => if has_byte(bytes, end, closing_of(open)) {
                Parsed::Done { next: end + 1, value: () }
            } else {
                Parsed::<()>::miss(end, Label::Char).committed()
            },
            other => other.committed(),
        }
    } else {
        Parsed::miss(pos, Label::Char)
    }).within(Label::Scope, pos)
}

/// A part in round, square or curly brackets.
#[verifier::opaque]
pub open spec fn spec_any_scope(bytes: Seq<u8>, pos: int) -> Parsed<()>
    decreases room(bytes, pos), 1int,
{
    if has_byte(bytes, pos, '(' as u8) {
        spec_scope(bytes, pos, '(' as u8)
    } else if has_byte(bytes, pos, '[' as u8) {
        spec_scope(bytes, pos, '[' as u8)
    } else {
        spec_scope(bytes, pos, '{' as u8)
    }
}

/// A block: a part in curly brackets, with the brackets.
#[verifier::opaque]
pub open spec fn spec_block(bytes: Seq<u8>, pos: int) -> Parsed<Seq<u8>>
    decreases room(bytes, pos), 1int,
{
    match spec_scope(bytes, pos, '{' as u8) {
        Parsed::Done { next, .. } => Parsed::Done { next, value: bytes.subrange(pos, next) },
        other => other.carry(),
    }
}


/// Parse what stands between brackets, or makes up an expression.
fn items(input: &str, pos: usize, class: Class) -> (r: PResult<()>)
    requires
        pos <= bytes_of(input).len(),
    ensures
        outcome(r) == spec_items(bytes_of(input), pos as int, class),
        stays(r, pos, bytes_of(input).len()),
        r matches Ok((next, _)) ==> next == bytes_of(input).len() || bytes_of(input)[next as int]
            <= 0x7f,
    decreases bytes_of(input).len() - pos, 3int,
{
    proof {
        reveal(spec_items);
        reveal(spec_body_item);
    }
    let len = length(input);
    let mut cur = pos;
    loop
        invariant
            len == bytes_of(input).len(),
            pos <= cur <= len,
            spec_items(bytes_of(input), pos as int, class) == spec_items(
                bytes_of(input),
                cur as int,
                class,
            ),
        decreases len - cur,
    {
        proof {
            reveal(spec_items);
            reveal(spec_body_item);
        }
        let run = scan(input, cur, class, false);
        if run > cur {
            cur = run;
            continue ;
        }
        match body_item(input, cur) {
            Ok((next, _)) => {
                cur = next;
            },
            Err(e) => {
                if e.fatal {
                    return Err(e);
                }
                proof {
                    lemma_run(bytes_of(input), cur as int, class, false);
                    if cur < len {
                        lemma_class_ascii(class, bytes_of(input)[cur as int]);
                    }
                }
                return Ok((cur, ()));
            },
        }
    }
}

/// Parse one item that a run of ordinary characters cannot hold.
fn body_item(input: &str, pos: usize) -> (r: PResult<()>)
    requires
        pos <= bytes_of(input).len(),
    ensures
        outcome(r) == spec_body_item(bytes_of(input), pos as int),
        advances(r, pos, bytes_of(input).len()),
    decreases bytes_of(input).len() - pos, 2int,
{
    proof {
        reveal(spec_body_item);
        reveal(spec_type_args);
        reveal(spec_any_scope);
    }
    if peek(input, pos, '=' as u8) {
        if peek(input, pos + 1, '>' as u8) {
            return Ok((pos + 2, ()));
        }
        return Ok((pos + 1, ()));
    }
    if peek(input, pos, '<' as u8) {
        return match uncut(type_args(input, pos)) {
            Ok((next, _)) => Ok((next, ())),
            Err(e) => if e.fatal {
                Err(e)
            } else {
                Ok((pos + 1, ()))
            },
        };
    }
    if peek(input, pos, '>' as u8) {
        return Ok((pos + 1, ()));
    }
    match comment(input, pos) {
        Ok((next, _)) => {
            return Ok((next, ()));
        },
        Err(e) => if e.fatal {
            return Err(e);
        },
    }
    if peek(input, pos, '/' as u8) {
        return Ok((pos + 1, ()));
    }
    match string(input, pos) {
        Ok((next, _)) => {
            return Ok((next, ()));
        },
        Err(e) => if e.fatal {
            return Err(e);
        },
    }
    if peek(input, pos, 'r' as u8) {
        return Ok((pos + 1, ()));
    }
    any_scope(input, pos)
}

/// Parse a part in brackets that opens with `open`.
fn scope(input: &str, pos: usize, open: u8) -> (r: PResult<()>)
    requires
        pos <= bytes_of(input).len(),
        open <= 0x7f,
        closing_of(open) <= 0x7f,
    ensures
        outcome(r) == spec_scope(bytes_of(input), pos as int, open),
        advances(r, pos, bytes_of(input).len()),
        r matches Ok((next, _)) ==> bytes_of(input)[pos as int] <= 0x7f && bytes_of(input)[next
            - 1] <= 0x7f,
    decreases bytes_of(input).len() - pos, 0int,
{
    proof {
        reveal(spec_scope);
        reveal(spec_items);
    }
    if !peek(input, pos, open) {
        return framed(Err(ParseError::miss(pos, Label::Char)), Label::Scope, pos);
    }
    let close = if open == '(' as u8 {
        ')' as u8
    } else if open == '[' as u8 {
        ']' as u8
    } else {
        '}' as u8
    };
    match items(input, pos + 1, Class::ScopeStop) {
        Ok((end, _)) => {
            if peek(input, end, close) {
                Ok((end + 1, ()))
            } else {
                framed(cut(Err(ParseError::miss(end, Label::Char))), Label::Scope, pos)
            }
        },
        Err(e) => framed(cut(Err(e)), Label::Scope, pos),
    }
}

/// Parse a part in round, square or curly brackets.
pub fn any_scope(input: &str, pos: usize) -> (r: PResult<()>)
    requires
        pos <= bytes_of(input).len(),
    ensures
        outcome(r) == spec_any_scope(bytes_of(input), pos as int),
        advances(r, pos, bytes_of(input).len()),
    decreases bytes_of(input).len() - pos, 1int,
{
    proof {
        reveal(spec_any_scope);
        reveal(spec_scope);
    }
    if peek(input, pos, '(' as u8) {
        scope(input, pos, '(' as u8)
    } else if peek(input, pos, '[' as u8) {
        scope(input, pos, '[' as u8)
    } else {
        scope(input, pos, '{' as u8)
    }
}

/// Parse a block in curly brackets.  The brackets are a part of the value.
pub fn block<'s>(input: &'s str, pos: usize) -> (r: PResult<&'s str>)
    requires
        pos <= bytes_of(input).len(),
    ensures
        outcome(r) == spec_block(bytes_of(input), pos as int),
        advances(r, pos, bytes_of(input).len()),
    decreases bytes_of(input).len() - pos, 1int,
{
    proof {
        reveal(spec_block);
        reveal(spec_scope);
    }
    match scope(input, pos, '{' as u8) {
        Ok((next, _)) => Ok((next, cut_out(input, pos, next))),
        Err(e) => Err(e),
    }
}

/// What an expression is, told from its text alone: an identifier where
/// the whole text is one, the body of a string literal where the whole text
/// is one, else the text as it stands.  Offsets in a failure count from the
/// start of the text.
#[verifier::opaque]
pub open spec fn spec_classify(text: Seq<u8>) -> Parsed<ExprM>
    decreases text.len(), 1int,
{
    match spec_identifier(text, 0) {
        Parsed::Done { next, value } if next == text.len() => Parsed::Done {
            next,
            value: ExprM::Ident(value),
        },
        _ => match spec_string(text, 0) {
            Parsed::Done { next, value } => if next == text.len() {
                Parsed::Done { next, value: ExprM::String(value) }
            } else {
                Parsed::Done { next: text.len() as int, value: ExprM::Verbatim(text) }
            },
            Parsed::Miss { .. } => Parsed::Done {
                next: text.len() as int,
                value: ExprM::Verbatim(text),
            },
            Parsed::Fault { trace } => Parsed::Fault { trace },
        },
    }
}

/// An expression: optional whitespace, then one or more runs of ordinary
/// characters and items, up to a `,` or `;` or a closing bracket outside any
/// brackets.  The value is told from the text from `pos` on, the whitespace
/// included.
#[verifier::opaque]
pub open spec fn spec_expr(bytes: Seq<u8>, pos: int) -> Parsed<ExprM>
    decreases room(bytes, pos), 4int,
{
    (if !(0 <= pos <= bytes.len()) {
        Parsed::miss(pos, Label::Eof)
    } else {
        match spec_items(bytes, blank_end(bytes, pos), Class::ExprStop) {
            Parsed::Done { next, .. } => if blank_end(bytes, pos) < next <= bytes.len() {
                match spec_classify(bytes.subrange(pos, next)) {
                    Parsed::Done { value, .. } => Parsed::Done { next, value },
                    other => other,
                }
            } else {
                Parsed::miss(blank_end(bytes, pos), Label::Many1)
            },
            other => other.carry(),
        }
    }).within(Label::Expr, pos)
}

/// Tell what an expression is from its text.
fn classify<'s>(text: &'s str) -> (r: PResult<Expr<'s>>)
    ensures
        outcome(r) == spec_classify(bytes_of(text)),
    decreases bytes_of(text).len(), 1int,
{
    proof {
        reveal(spec_classify);
    }
    let len = length(text);
    match identifier(text, 0) {
        Ok((next, name)) => if next == len {
            return Ok((next, Expr::Ident(name)));
        },
        Err(_) => {},
    }
    match string(text, 0) {
        Ok((next, body)) => if next == len {
            Ok((next, Expr::String(body)))
        } else {
            Ok((len, Expr::Verbatim(text)))
        },
        Err(e) => if e.fatal {
            Err(e)
        } else {
            Ok((len, Expr::Verbatim(text)))
        },
    }
}

/// Parse an expression.
pub fn expr<'s>(input: &'s str, pos: usize) -> (r: PResult<Expr<'s>>)
    requires
        pos <= bytes_of(input).len(),
        is_char_boundary(bytes_of(input), pos as int),
    ensures
        outcome(r) == spec_expr(bytes_of(input), pos as int),
        advances(r, pos, bytes_of(input).len()),
        r matches Ok((next, _)) ==> next == bytes_of(input).len() || bytes_of(input)[next as int]
            <= 0x7f,
    decreases bytes_of(input).len() - pos, 4int,
{
    proof {
        reveal(spec_expr);
        reveal(spec_items);
        reveal(spec_classify);
    }
    let start = skip_blank(input, pos);
    let next = match items(input, start, Class::ExprStop) {
        Ok((next, _)) => next,
        Err(e) => {
            return framed(Err(e), Label::Expr, pos);
        },
    };
    if next <= start {
        return framed(Err(ParseError::miss(start, Label::Many1)), Label::Expr, pos);
    }
    proof {
        lemma_clean_cut(input, next as int);
    }
    let text = slice(input, pos, next);
    match classify(text) {
        Ok((_, value)) => Ok((next, value)),
        Err(e) => framed(Err(e), Label::Expr, pos),
    }
}

} // verus!
