//! String literals.
//!
//! A literal is read only as far as it takes to find its end: escape
//! sequences and interpolation are recognized, but not decoded.

use vstd::prelude::*;
use vstd::string::*;
use crate::parser::expr::{block, spec_block};
use crate::parser::identifier::{identifier, spec_identifier};
use crate::parser::outcome::{
    Label, PResult, ParseError, Parsed, advances, cut, framed, outcome, stays,
};
use crate::parser::text::{
    Class, byte_at, bytes_of, cut_out, has_byte, length, peek, room, run_len, scan,
};

verus! {

/// The four shapes of a string literal.
#[derive(PartialEq, Eq, Copy, Clone, Debug)]
pub enum Quote {
    /// `"""`
    TripleDouble,
    /// `'''`
    TripleSingle,
    /// `"`
    Double,
    /// `'`
    Single,
}

impl Quote {
    /// The quote character.
    pub open spec fn mark(self) -> u8 {
        match self {
            Quote::TripleDouble | Quote::Double => '"' as u8,
            Quote::TripleSingle | Quote::Single => '\'' as u8,
        }
    }

    /// Whether the literal is opened and closed by three quote characters.
    pub open spec fn triple(self) -> bool {
        self == Quote::TripleDouble || self == Quote::TripleSingle
    }

    /// The bytes that end a run of ordinary characters in the literal.
    pub open spec fn stops(self, raw: bool) -> Class {
        match self {
            Quote::TripleDouble => if raw {
                Class::RawTripleDouble
            } else {
                Class::TripleDouble
            },
            Quote::TripleSingle => if raw {
                Class::RawTripleSingle
            } else {
                Class::TripleSingle
            },
            Quote::Double => if raw {
                Class::RawDouble
            } else {
                Class::Double
            },
            Quote::Single => if raw {
                Class::RawSingle
            } else {
                Class::Single
            },
        }
    }

    fn mark_byte(self) -> (m: u8)
        ensures
            m == self.mark(),
    {
        match self {
            Quote::TripleDouble | Quote::Double => '"' as u8,
            Quote::TripleSingle | Quote::Single => '\'' as u8,
        }
    }

    fn is_triple(self) -> (t: bool)
        ensures
            t == self.triple(),
    {
        match self {
            Quote::TripleDouble | Quote::TripleSingle => true,
            Quote::Double | Quote::Single => false,
        }
    }

    fn stop_class(self, raw: bool) -> (c: Class)
        ensures
            c == self.stops(raw),
    {
        match self {
            Quote::TripleDouble => if raw {
                Class::RawTripleDouble
            } else {
                Class::TripleDouble
            },
            Quote::TripleSingle => if raw {
                Class::RawTripleSingle
            } else {
                Class::TripleSingle
            },
            Quote::Double => if raw {
                Class::RawDouble
            } else {
                Class::Double
            },
            Quote::Single => if raw {
                Class::RawSingle
            } else {
                Class::Single
            },
        }
    }
}

/// Whether three bytes `c` stand at `pos`.
pub open spec fn has_three(bytes: Seq<u8>, pos: int, c: u8) -> bool {
    has_byte(bytes, pos, c) && has_byte(bytes, pos + 1, c) && has_byte(bytes, pos + 2, c)
}

/// How a string literal opens.
pub struct Opening {
    pub quote: Quote,
    /// Whether the prefix `r` switches escape sequences and interpolation
    /// off.
    pub raw: bool,
    /// The offset of the first byte of the body.
    pub body: int,
}

/// The shape of the opening quotes at `at`, tried in the order `"""`, `'''`,
/// `"`, `'`.
pub open spec fn quote_at(bytes: Seq<u8>, at: int) -> Option<Quote> {
    if has_three(bytes, at, '"' as u8) {
        Some(Quote::TripleDouble)
    } else if has_three(bytes, at, '\'' as u8) {
        Some(Quote::TripleSingle)
    } else if has_byte(bytes, at, '"' as u8) {
        Some(Quote::Double)
    } else if has_byte(bytes, at, '\'' as u8) {
        Some(Quote::Single)
    } else {
        None
    }
}

/// The opening of the literal at `pos`: an optional `r`, the quotes, and
/// after three quotes an optional line feed, which is no part of the body.
pub open spec fn opening_at(bytes: Seq<u8>, pos: int) -> Option<Opening> {
    let raw = has_byte(bytes, pos, 'r' as u8) && quote_at(bytes, pos + 1) is Some;
    let at = if raw {
        pos + 1
    } else {
        pos
    };
    match quote_at(bytes, at) {
        Some(quote) => Some(
            Opening {
                quote,
                raw,
                body: if quote.triple() {
                    if has_byte(bytes, at + 3, '\n' as u8) {
                        at + 4
                    } else {
                        at + 3
                    }
                } else {
                    at + 1
                },
            },
        ),
        None => None,
    }
}

/// Whether `count` hexadecimal digits stand at `pos`.
pub open spec fn has_hex(bytes: Seq<u8>, pos: int, count: nat) -> bool {
    run_len(bytes, pos, Class::HexDigit, true) >= count
}

/// The length of the escape sequence at `pos`, 0 where there is none: `\`
/// and one of ``nrfbtv$'"``; `\x` and two hexadecimal digits; `\u{`, one to
/// six hexadecimal digits and `}`; `\u` and four hexadecimal digits.
#[verifier::opaque]
pub open spec fn escape_len(bytes: Seq<u8>, pos: int) -> nat {
    if !has_byte(bytes, pos, '\\' as u8) {
        0
    } else if 0 <= pos + 1 < bytes.len() && Class::Escaped.has(bytes[pos + 1]) {
        2
    } else if has_byte(bytes, pos + 1, 'x' as u8) {
        if has_hex(bytes, pos + 2, 2) {
            4
        } else {
            0
        }
    } else if has_byte(bytes, pos + 1, 'u' as u8) {
        if has_byte(bytes, pos + 2, '{' as u8) {
            let digits = if has_hex(bytes, pos + 3, 6) {
                6
            } else {
                run_len(bytes, pos + 3, Class::HexDigit, true)
            };
            if digits >= 1 && has_byte(bytes, pos + 3 + digits, '}' as u8) {
                digits + 4
            } else {
                0
            }
        } else if has_hex(bytes, pos + 2, 4) {
            6
        } else {
            0
        }
    } else {
        0
    }
}

/// The offset after the escape sequence, if any, at `pos`.
pub fn skip_escape(input: &str, pos: usize) -> (end: usize)
    requires
        pos <= bytes_of(input).len(),
    ensures
        end == pos + escape_len(bytes_of(input), pos as int),
        pos <= end <= bytes_of(input).len(),
        end > pos ==> bytes_of(input)[pos as int] == '\\' as u8,
{
    proof {
        reveal(escape_len);
        reveal(run_len);
    }
    let len = length(input);
    if !peek(input, pos, '\\' as u8) {
        return pos;
    }
    if pos + 1 < len && Class::Escaped.holds(byte_at(input, pos + 1)) {
        return pos + 2;
    }
    if peek(input, pos + 1, 'x' as u8) {
        let run = scan(input, pos + 2, Class::HexDigit, true);
        if run - (pos + 2) >= 2 {
            return pos + 4;
        }
        return pos;
    }
    if peek(input, pos + 1, 'u' as u8) {
        if peek(input, pos + 2, '{' as u8) {
            let run = scan(input, pos + 3, Class::HexDigit, true);
            let digits = if run - (pos + 3) >= 6 {
                6
            } else {
                run - (pos + 3)
            };
            if digits >= 1 && peek(input, pos + 3 + digits, '}' as u8) {
                return pos + 3 + digits + 1;
            }
            return pos;
        }
        let run = scan(input, pos + 2, Class::HexDigit, true);
        if run - (pos + 2) >= 4 {
            return pos + 6;
        }
        return pos;
    }
    pos
}

/// An interpolation: `$` and an identifier, or `$` and a block in braces.
#[verifier::opaque]
pub open spec fn spec_interpolation_expr(bytes: Seq<u8>, pos: int) -> Parsed<()>
    decreases room(bytes, pos), 0int,
{
    (if has_byte(bytes, pos, '$' as u8) {
        match spec_identifier(bytes, pos + 1) {
            Parsed::Done { next, .. } => Parsed::Done { next, value: () },
            Parsed::Miss { .. } => spec_block(bytes, pos + 1).with(()),
            Parsed::Fault { trace } => Parsed::Fault { trace },
        }
    } else {
        Parsed::miss(pos, Label::Char)
    }).within(Label::InterpolationExpr, pos)
}

/// The body of a literal from `pos` on: runs of ordinary characters, single
/// quote characters inside a literal in triple quotes, escape sequences and
/// interpolations.  The result is the offset at which none of them is found.
#[verifier::opaque]
pub open spec fn spec_string_items(bytes: Seq<u8>, pos: int, quote: Quote, raw: bool) -> Parsed<()>
    decreases room(bytes, pos), 1int,
{
    if !(0 <= pos <= bytes.len()) {
        Parsed::miss(pos, Label::Eof)
    } else if 0 < run_len(bytes, pos, quote.stops(raw), false) <= bytes.len() - pos {
        spec_string_items(bytes, pos + run_len(bytes, pos, quote.stops(raw), false), quote, raw)
    } else if quote.triple() && has_byte(bytes, pos, quote.mark()) && !(has_byte(
        bytes,
        pos + 1,
        quote.mark(),
    ) && has_byte(bytes, pos + 2, quote.mark())) {
        spec_string_items(bytes, pos + 1, quote, raw)
    } else if raw {
        Parsed::Done { next: pos, value: () }
    } else if 0 < escape_len(bytes, pos) <= bytes.len() - pos {
        spec_string_items(bytes, pos + escape_len(bytes, pos), quote, raw)
    } else {
        match spec_interpolation_expr(bytes, pos) {
            Parsed::Done { next, .. } => if pos < next <= bytes.len() {
                spec_string_items(bytes, next, quote, raw)
            } else {
                Parsed::miss(pos, Label::Many0)
            },
            Parsed::Miss { .. } => Parsed::Done { next: pos, value: () },
            Parsed::Fault { trace } => Parsed::Fault { trace },
        }
    }
}

/// The closing quotes at `pos`.
pub open spec fn spec_string_close(bytes: Seq<u8>, pos: int, quote: Quote) -> Parsed<()> {
    if quote.triple() {
        if has_three(bytes, pos, quote.mark()) {
            Parsed::Done { next: pos + 3, value: () }
        } else {
            Parsed::miss(pos, Label::Tag)
        }
    } else {
        if has_byte(bytes, pos, quote.mark()) {
            Parsed::Done { next: pos + 1, value: () }
        } else {
            Parsed::miss(pos, Label::Tag)
        }
    }
}

/// A string literal, in single or double quotes, on one line or in triple
/// quotes, raw or not.  The value is the body without the enclosing quotes.
/// After the opening quotes every failure is committed.
pub open spec fn spec_string(bytes: Seq<u8>, pos: int) -> Parsed<Seq<u8>>
    decreases room(bytes, pos), 0int,
{
    (match opening_at(bytes, pos) {
        None => Parsed::miss(pos, Label::Tag),
        Some(open) => match spec_string_items(bytes, open.body, open.quote, open.raw) {
            Parsed::Done { next: end, .. } => match spec_string_close(bytes, end, open.quote) {
                Parsed::Done { next, .. } => Parsed::Done {
                    next,
                    value: bytes.subrange(open.body, end),
                },
                other => other.carry().committed(),
            },
            other => other.carry().committed(),
        },
    }).within(Label::StringLit, pos)
}

/// Parse an interpolation.
pub fn interpolation_expr(input: &str, pos: usize) -> (r: PResult<()>)
    requires
        pos <= bytes_of(input).len(),
    ensures
        outcome(r) == spec_interpolation_expr(bytes_of(input), pos as int),
        advances(r, pos, bytes_of(input).len()),
    decreases bytes_of(input).len() - pos, 0int,
{
    proof {
        reveal(spec_interpolation_expr);
        reveal(spec_block);
    }
    if !peek(input, pos, '$' as u8) {
        return framed(Err(ParseError::miss(pos, Label::Char)), Label::InterpolationExpr, pos);
    }
    match identifier(input, pos + 1) {
        Ok((next, _)) => Ok((next, ())),
        Err(e) => if e.fatal {
            framed(Err(e), Label::InterpolationExpr, pos)
        } else {
            match block(input, pos + 1) {
                Ok((next, _)) => Ok((next, ())),
                Err(e) => framed(Err(e), Label::InterpolationExpr, pos),
            }
        },
    }
}

/// Whether three bytes `c` stand at `pos`.
fn peek_three(input: &str, pos: usize, c: u8) -> (r: bool)
    requires
        pos <= bytes_of(input).len(),
    ensures
        r == has_three(bytes_of(input), pos as int, c),
        bytes_of(input).len() <= usize::MAX,
{
    peek(input, pos, c) && peek(input, pos + 1, c) && peek(input, pos + 2, c)
}

fn quote_here(input: &str, at: usize) -> (r: Option<Quote>)
    requires
        at <= bytes_of(input).len(),
    ensures
        r == quote_at(bytes_of(input), at as int),
        bytes_of(input).len() <= usize::MAX,
{
    if peek_three(input, at, '"' as u8) {
        Some(Quote::TripleDouble)
    } else if peek_three(input, at, '\'' as u8) {
        Some(Quote::TripleSingle)
    } else if peek(input, at, '"' as u8) {
        Some(Quote::Double)
    } else if peek(input, at, '\'' as u8) {
        Some(Quote::Single)
    } else {
        None
    }
}

/// Parse the body of a literal up to the offset at which its closing quotes
/// are expected.
fn string_items(input: &str, pos: usize, quote: Quote, raw: bool) -> (r: PResult<()>)
    requires
        pos <= bytes_of(input).len(),
    ensures
        outcome(r) == spec_string_items(bytes_of(input), pos as int, quote, raw),
        stays(r, pos, bytes_of(input).len()),
    decreases bytes_of(input).len() - pos, 1int,
{
    proof {
        reveal(spec_string_items);
        reveal(spec_interpolation_expr);
    }
    let len = length(input);
    let class = quote.stop_class(raw);
    let mark = quote.mark_byte();
    let triple = quote.is_triple();
    let mut cur = pos;
    loop
        invariant
            len == bytes_of(input).len(),
            pos <= cur <= len,
            class == quote.stops(raw),
            mark == quote.mark(),
            triple == quote.triple(),
            spec_string_items(bytes_of(input), pos as int, quote, raw) == spec_string_items(
                bytes_of(input),
                cur as int,
                quote,
                raw,
            ),
        decreases len - cur,
    {
        proof {
            reveal(spec_string_items);
            reveal(spec_interpolation_expr);
        }
        let run = scan(input, cur, class, false);
        if run > cur {
            cur = run;
            continue ;
        }
        if triple && peek(input, cur, mark) && !(peek(input, cur + 1, mark) && peek(
            input,
            cur + 2,
            mark,
        )) {
            cur = cur + 1;
            continue ;
        }
        if raw {
            return Ok((cur, ()));
        }
        let escaped = skip_escape(input, cur);
        if escaped > cur {
            cur = escaped;
            continue ;
        }
        match interpolation_expr(input, cur) {
            Ok((next, _)) => {
                cur = next;
            },
            Err(e) => {
                if e.fatal {
                    return Err(e);
                }
                return Ok((cur, ()));
            },
        }
    }
}

/// Find how the literal at `pos` opens.
fn opening(input: &str, pos: usize) -> (r: Option<(Quote, bool, usize)>)
    requires
        pos <= bytes_of(input).len(),
    ensures
        match r {
            Some((quote, raw, body)) => opening_at(bytes_of(input), pos as int) == Some(
                Opening { quote, raw, body: body as int },
            ) && pos < body <= bytes_of(input).len() && bytes_of(input)[body - 1] <= 0x7f,
            None => opening_at(bytes_of(input), pos as int) is None,
        },
{
    let len = length(input);
    let raw = peek(input, pos, 'r' as u8) && quote_here(input, pos + 1).is_some();
    let at = if raw {
        pos + 1
    } else {
        pos
    };
    match quote_here(input, at) {
        Some(quote) => {
            let body = if quote.is_triple() {
                if peek(input, at + 3, '\n' as u8) {
                    at + 4
                } else {
                    at + 3
                }
            } else {
                at + 1
            };
            Some((quote, raw, body))
        },
        None => None,
    }
}

/// Parse the closing quotes.
fn string_close(input: &str, pos: usize, quote: Quote) -> (r: PResult<()>)
    requires
        pos <= bytes_of(input).len(),
    ensures
        outcome(r) == spec_string_close(bytes_of(input), pos as int, quote),
        advances(r, pos, bytes_of(input).len()),
        r is Ok ==> bytes_of(input)[pos as int] <= 0x7f,
{
    let mark = quote.mark_byte();
    if quote.is_triple() {
        if peek_three(input, pos, mark) {
            Ok((pos + 3, ()))
        } else {
            Err(ParseError::miss(pos, Label::Tag))
        }
    } else {
        if peek(input, pos, mark) {
            Ok((pos + 1, ()))
        } else {
            Err(ParseError::miss(pos, Label::Tag))
        }
    }
}

/// Parse a single- or double-quoted single- or multiline string literal.
///
/// Return the body of the string without the enclosing quotes.
pub fn string<'s>(input: &'s str, pos: usize) -> (r: PResult<&'s str>)
    requires
        pos <= bytes_of(input).len(),
    ensures
        outcome(r) == spec_string(bytes_of(input), pos as int),
        advances(r, pos, bytes_of(input).len()),
    decreases bytes_of(input).len() - pos, 0int,
{
    proof {
        reveal(spec_string);
        reveal(spec_string_items);
    }
    let (quote, raw, body) = match opening(input, pos) {
        Some(open) => open,
        None => {
            return framed(Err(ParseError::miss(pos, Label::Tag)), Label::StringLit, pos);
        },
    };
    let end = match string_items(input, body, quote, raw) {
        Ok((end, _)) => end,
        Err(e) => {
            return framed(cut(Err(e)), Label::StringLit, pos);
        },
    };
    match string_close(input, end, quote) {
        Ok((next, _)) => Ok((next, cut_out(input, body, end))),
        Err(e) => framed(cut(Err(e)), Label::StringLit, pos),
    }
}

} // verus!
