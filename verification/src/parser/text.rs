//! The input as bytes: access, byte classes, runs, fixed tokens, and slices
//! that are cut on character boundaries.

use vstd::prelude::*;
use vstd::string::*;
use vstd::utf8::*;
use crate::model::Model;
use crate::parser::outcome::{Label, PResult, ParseError, Parsed, outcome, stays};

verus! {

/// The bytes of `input`.
pub open spec fn bytes_of(input: &str) -> Seq<u8> {
    input.spec_bytes()
}

/// The byte of `input` at `pos`.
pub fn byte_at(input: &str, pos: usize) -> (b: u8)
    requires
        pos < bytes_of(input).len(),
    ensures
        b == bytes_of(input)[pos as int],
{
    input.as_bytes()[pos]
}

/// How many bytes stand from `pos` on; 0 where `pos` is no offset into
/// `bytes`.
pub open spec fn room(bytes: Seq<u8>, pos: int) -> nat {
    if 0 <= pos <= bytes.len() {
        (bytes.len() - pos) as nat
    } else {
        0
    }
}

/// The number of bytes of `input`.
pub fn length(input: &str) -> (n: usize)
    ensures
        n == bytes_of(input).len(),
{
    input.as_bytes().len()
}

/// An ASCII byte is never inside a character, so the offset after it is a
/// character boundary.
pub proof fn lemma_boundary_after_ascii(bytes: Seq<u8>, i: int)
    requires
        valid_utf8(bytes),
        0 <= i < bytes.len(),
        bytes[i] <= 0x7f,
    ensures
        is_char_boundary(bytes, i + 1),
    decreases bytes.len(),
{
    let k = length_of_first_scalar(bytes);
    if i < k {
        reveal_with_fuel(is_char_boundary, 2);
        assert(i == 0);
        assert(k == 1);
    } else {
        let rest = pop_first_scalar(bytes);
        assert(rest[i - k] == bytes[i]);
        lemma_boundary_after_ascii(rest, i - k);
        reveal_with_fuel(is_char_boundary, 2);
    }
}

/// The offset of an ASCII byte is a character boundary.
pub proof fn lemma_boundary_at_ascii(bytes: Seq<u8>, i: int)
    requires
        valid_utf8(bytes),
        0 <= i < bytes.len(),
        bytes[i] <= 0x7f,
    ensures
        is_char_boundary(bytes, i),
{
    is_char_boundary_iff_not_is_continuation_byte(bytes, i);
}

/// `pos` is the start or the end of the input, or has an ASCII byte at it or
/// just before it.
pub open spec fn clean_cut(bytes: Seq<u8>, pos: int) -> bool {
    ||| pos == 0
    ||| pos == bytes.len()
    ||| (0 <= pos < bytes.len() && bytes[pos] <= 0x7f)
    ||| (0 < pos <= bytes.len() && bytes[pos - 1] <= 0x7f)
}

/// A clean cut lies on a character boundary.
pub proof fn lemma_clean_cut(input: &str, pos: int)
    requires
        clean_cut(bytes_of(input), pos),
    ensures
        is_char_boundary(bytes_of(input), pos),
{
    let bytes = bytes_of(input);
    encode_utf8_valid_utf8(input@);
    if pos == 0 || pos == bytes.len() {
        is_char_boundary_start_end_of_seq(bytes);
    } else if 0 <= pos < bytes.len() && bytes[pos] <= 0x7f {
        lemma_boundary_at_ascii(bytes, pos);
    } else {
        lemma_boundary_after_ascii(bytes, pos - 1);
    }
}

/// The part of `input` from `from` up to `to`.
pub fn slice<'s>(input: &'s str, from: usize, to: usize) -> (part: &'s str)
    requires
        from <= to <= bytes_of(input).len(),
        is_char_boundary(bytes_of(input), from as int),
        is_char_boundary(bytes_of(input), to as int),
    ensures
        part.model() == bytes_of(input).subrange(from as int, to as int),
{
    let (head, _) = input.split_at(to);
    proof {
        encode_utf8_valid_utf8(head@);
        encode_utf8_valid_utf8(input@);
        if from < to {
            is_char_boundary_iff_not_is_continuation_byte(bytes_of(input), from as int);
            is_char_boundary_iff_not_is_continuation_byte(bytes_of(head), from as int);
        } else {
            is_char_boundary_start_end_of_seq(bytes_of(head));
        }
    }
    let (_, part) = head.split_at(from);
    part
}

/// The part of `input` between two clean cuts.
pub fn cut_out<'s>(input: &'s str, from: usize, to: usize) -> (part: &'s str)
    requires
        from <= to <= bytes_of(input).len(),
        clean_cut(bytes_of(input), from as int),
        clean_cut(bytes_of(input), to as int),
    ensures
        part.model() == bytes_of(input).subrange(from as int, to as int),
{
    proof {
        lemma_clean_cut(input, from as int);
        lemma_clean_cut(input, to as int);
    }
    slice(input, from, to)
}

/// A set of bytes that a run consists of, or that ends it.
#[derive(Clone, Copy, PartialEq, Eq, Debug)]
pub enum Class {
    /// Space, tab, carriage return, line feed.
    Blank,
    /// Carriage return and line feed.
    LineEnd,
    /// `*` and `/`.
    StarSlash,
    /// What ends a run inside `"""`: `$`, `\`, `"`.
    TripleDouble,
    /// What ends a run inside `'''`: `$`, `\`, `'`.
    TripleSingle,
    /// What ends a run inside `"`: `$`, `\`, `"`, and line ends.
    Double,
    /// What ends a run inside `'`: `$`, `\`, `'`, and line ends.
    Single,
    /// What ends a run inside a raw string in double quotes: `"`.
    RawTripleDouble,
    /// What ends a run inside a raw string in single quotes: `'`.
    RawTripleSingle,
    /// What ends a run inside a raw `"`: `"` and line ends.
    RawDouble,
    /// What ends a run inside a raw `'`: `'` and line ends.
    RawSingle,
    /// What ends a run inside brackets: ``<>()[]{}=/r'"``.
    ScopeStop,
    /// What ends a run inside an expression: the above, `,` and `;`.
    ExprStop,
    /// A letter, `_` or `$`.
    IdentStart,
    /// A letter, `_`, `$`, a digit or `.`.
    IdentPart,
    /// `0` to `9`, `a` to `f`, `A` to `F`.
    HexDigit,
    /// What may follow `\` in a string: one of ``nrfbtv$'"``.
    Escaped,
}

/// Whether `b` is an ASCII letter.
pub open spec fn is_letter(b: u8) -> bool {
    ('a' as u8 <= b <= 'z' as u8) || ('A' as u8 <= b <= 'Z' as u8)
}

/// Whether `b` is an ASCII digit.
pub open spec fn is_digit(b: u8) -> bool {
    '0' as u8 <= b <= '9' as u8
}

/// Whether `b` is a carriage return or a line feed.
pub open spec fn is_line_end(b: u8) -> bool {
    b == '\r' as u8 || b == '\n' as u8
}

/// Whether `b` is one of ``<>()[]{}=/r'"``.
pub open spec fn is_scope_stop(b: u8) -> bool {
    ||| b == '<' as u8
    ||| b == '>' as u8
    ||| b == '(' as u8
    ||| b == ')' as u8
    ||| b == '[' as u8
    ||| b == ']' as u8
    ||| b == '{' as u8
    ||| b == '}' as u8
    ||| b == '=' as u8
    ||| b == '/' as u8
    ||| b == 'r' as u8
    ||| b == '\'' as u8
    ||| b == '"' as u8
}

impl Class {
    /// Whether `b` belongs to the class.
    pub open spec fn has(self, b: u8) -> bool {
        match self {
            Class::Blank => b == ' ' as u8 || b == '\t' as u8 || is_line_end(b),
            Class::LineEnd => is_line_end(b),
            Class::StarSlash => b == '*' as u8 || b == '/' as u8,
            Class::TripleDouble => b == '$' as u8 || b == '\\' as u8 || b == '"' as u8,
            Class::TripleSingle => b == '$' as u8 || b == '\\' as u8 || b == '\'' as u8,
            Class::Double => b == '$' as u8 || b == '\\' as u8 || b == '"' as u8 || is_line_end(b),
            Class::Single => b == '$' as u8 || b == '\\' as u8 || b == '\'' as u8 || is_line_end(
                b,
            ),
            Class::RawTripleDouble => b == '"' as u8,
            Class::RawTripleSingle => b == '\'' as u8,
            Class::RawDouble => b == '"' as u8 || is_line_end(b),
            Class::RawSingle => b == '\'' as u8 || is_line_end(b),
            Class::ScopeStop => is_scope_stop(b),
            Class::ExprStop => is_scope_stop(b) || b == ',' as u8 || b == ';' as u8,
            Class::IdentStart => is_letter(b) || b == '_' as u8 || b == '$' as u8,
            Class::IdentPart => is_letter(b) || b == '_' as u8 || b == '$' as u8 || is_digit(b)
                || b == '.' as u8,
            Class::HexDigit => is_digit(b) || ('a' as u8 <= b <= 'f' as u8) || ('A' as u8 <= b
                <= 'F' as u8),
            Class::Escaped => {
                ||| b == 'n' as u8
                ||| b == 'r' as u8
                ||| b == 'f' as u8
                ||| b == 'b' as u8
                ||| b == 't' as u8
                ||| b == 'v' as u8
                ||| b == '$' as u8
                ||| b == '\'' as u8
                ||| b == '"' as u8
            },
        }
    }

    /// Whether `b` belongs to the class.
    pub fn holds(self, b: u8) -> (r: bool)
        ensures
            r == self.has(b),
    {
        let line_end = b == '\r' as u8 || b == '\n' as u8;
        let letter = ('a' as u8 <= b && b <= 'z' as u8) || ('A' as u8 <= b && b <= 'Z' as u8);
        let digit = '0' as u8 <= b && b <= '9' as u8;
        let scope_stop = b == '<' as u8 || b == '>' as u8 || b == '(' as u8 || b == ')' as u8 || b
            == '[' as u8 || b == ']' as u8 || b == '{' as u8 || b == '}' as u8 || b == '=' as u8
            || b == '/' as u8 || b == 'r' as u8 || b == '\'' as u8 || b == '"' as u8;
        match self {
            Class::Blank => b == ' ' as u8 || b == '\t' as u8 || line_end,
            Class::LineEnd => line_end,
            Class::StarSlash => b == '*' as u8 || b == '/' as u8,
            Class::TripleDouble => b == '$' as u8 || b == '\\' as u8 || b == '"' as u8,
            Class::TripleSingle => b == '$' as u8 || b == '\\' as u8 || b == '\'' as u8,
            Class::Double => b == '$' as u8 || b == '\\' as u8 || b == '"' as u8 || line_end,
            Class::Single => b == '$' as u8 || b == '\\' as u8 || b == '\'' as u8 || line_end,
            Class::RawTripleDouble => b == '"' as u8,
            Class::RawTripleSingle => b == '\'' as u8,
            Class::RawDouble => b == '"' as u8 || line_end,
            Class::RawSingle => b == '\'' as u8 || line_end,
            Class::ScopeStop => scope_stop,
            Class::ExprStop => scope_stop || b == ',' as u8 || b == ';' as u8,
            Class::IdentStart => letter || b == '_' as u8 || b == '$' as u8,
            Class::IdentPart => letter || b == '_' as u8 || b == '$' as u8 || digit || b
                == '.' as u8,
            Class::HexDigit => digit || ('a' as u8 <= b && b <= 'f' as u8) || ('A' as u8 <= b
                && b <= 'F' as u8),
            Class::Escaped => b == 'n' as u8 || b == 'r' as u8 || b == 'f' as u8 || b == 'b' as u8
                || b == 't' as u8 || b == 'v' as u8 || b == '$' as u8 || b == '\'' as u8 || b
                == '"' as u8,
        }
    }
}

/// Every byte of every class is ASCII.
pub proof fn lemma_class_ascii(class: Class, b: u8)
    requires
        class.has(b),
    ensures
        b <= 0x7f,
{
}

/// The length of the longest run from `pos` of bytes that belong to `class`
/// (`inside`) or that do not (`!inside`).
#[verifier::opaque]
pub open spec fn run_len(bytes: Seq<u8>, pos: int, class: Class, inside: bool) -> nat
    decreases bytes.len() - pos,
{
    if 0 <= pos < bytes.len() && class.has(bytes[pos]) == inside {
        1 + run_len(bytes, pos + 1, class, inside)
    } else {
        0
    }
}

/// A run holds only bytes of its kind, and ends at the end of the input or
/// before a byte of the other kind.
pub proof fn lemma_run(bytes: Seq<u8>, pos: int, class: Class, inside: bool)
    requires
        0 <= pos <= bytes.len(),
    ensures
        pos + run_len(bytes, pos, class, inside) <= bytes.len(),
        forall|i: int|
            pos <= i < pos + run_len(bytes, pos, class, inside) ==> class.has(#[trigger] bytes[i])
                == inside,
        pos + run_len(bytes, pos, class, inside) < bytes.len() ==> class.has(
            bytes[pos + run_len(bytes, pos, class, inside)],
        ) != inside,
    decreases bytes.len() - pos,
{
    reveal(run_len);
    if pos < bytes.len() && class.has(bytes[pos]) == inside {
        lemma_run(bytes, pos + 1, class, inside);
    }
}

/// The end of the longest run from `pos` of bytes inside or outside `class`.
pub fn scan(input: &str, pos: usize, class: Class, inside: bool) -> (end: usize)
    requires
        pos <= bytes_of(input).len(),
    ensures
        end == pos + run_len(bytes_of(input), pos as int, class, inside),
        pos <= end <= bytes_of(input).len() <= usize::MAX,
{
    let len = length(input);
    let mut end = pos;
    while end < len && class.holds(byte_at(input, end)) == inside
        invariant
            len == bytes_of(input).len(),
            pos <= end <= len,
            pos + run_len(bytes_of(input), pos as int, class, inside) == end + run_len(
                bytes_of(input),
                end as int,
                class,
                inside,
            ),
        decreases len - end,
    {
        proof {
            reveal(run_len);
        }
        end = end + 1;
    }
    proof {
        reveal(run_len);
    }
    end
}

/// Whether the bytes `lit` stand in `bytes` at `pos`.
pub open spec fn has_tag(bytes: Seq<u8>, pos: int, lit: Seq<u8>) -> bool {
    0 <= pos && pos + lit.len() <= bytes.len() && bytes.subrange(pos, pos + lit.len()) == lit
}

/// Whether `lit` stands in `input` at `pos`.
pub fn starts_with(input: &str, pos: usize, lit: &str) -> (r: bool)
    requires
        pos <= bytes_of(input).len(),
    ensures
        r == has_tag(bytes_of(input), pos as int, bytes_of(lit)),
        bytes_of(input).len() <= usize::MAX,
{
    let n = length(lit);
    if length(input) - pos < n {
        return false;
    }
    let mut i: usize = 0;
    while i < n
        invariant
            n == bytes_of(lit).len(),
            pos + n <= bytes_of(input).len() <= usize::MAX,
            i <= n,
            forall|j: int| 0 <= j < i ==> bytes_of(input)[pos + j] == bytes_of(lit)[j],
        decreases n - i,
    {
        if byte_at(input, pos + i) != byte_at(lit, i) {
            assert(bytes_of(input).subrange(pos as int, pos + n)[i as int] != bytes_of(lit)[i as int]);
            return false;
        }
        i = i + 1;
    }
    assert(bytes_of(input).subrange(pos as int, pos + n) =~= bytes_of(lit));
    true
}

/// The fixed text `lit` at `pos`.
pub open spec fn spec_tag(bytes: Seq<u8>, pos: int, lit: Seq<u8>) -> Parsed<()> {
    if has_tag(bytes, pos, lit) {
        Parsed::Done { next: pos + lit.len(), value: () }
    } else {
        Parsed::miss(pos, Label::Tag)
    }
}

/// The fixed text `lit` at `pos`.
pub fn tag(input: &str, pos: usize, lit: &str) -> (r: PResult<()>)
    requires
        pos <= bytes_of(input).len(),
    ensures
        outcome(r) == spec_tag(bytes_of(input), pos as int, bytes_of(lit)),
        stays(r, pos, bytes_of(input).len()),
{
    let len = length(input);
    if starts_with(input, pos, lit) {
        Ok((pos + length(lit), ()))
    } else {
        Err(ParseError::miss(pos, Label::Tag))
    }
}

/// Whether the byte at `pos` is `c`.
pub open spec fn has_byte(bytes: Seq<u8>, pos: int, c: u8) -> bool {
    0 <= pos < bytes.len() && bytes[pos] == c
}

/// Whether the byte at `pos` is `c`.
pub fn peek(input: &str, pos: usize, c: u8) -> (r: bool)
    requires
        pos <= bytes_of(input).len(),
    ensures
        r == has_byte(bytes_of(input), pos as int, c),
        bytes_of(input).len() <= usize::MAX,
{
    pos < length(input) && byte_at(input, pos) == c
}

/// The single byte `c` at `pos`.
pub open spec fn spec_byte(bytes: Seq<u8>, pos: int, c: u8) -> Parsed<()> {
    if has_byte(bytes, pos, c) {
        Parsed::Done { next: pos + 1, value: () }
    } else {
        Parsed::miss(pos, Label::Char)
    }
}

/// The single byte `c` at `pos`.
pub fn byte(input: &str, pos: usize, c: u8) -> (r: PResult<()>)
    requires
        pos <= bytes_of(input).len(),
    ensures
        outcome(r) == spec_byte(bytes_of(input), pos as int, c),
        stays(r, pos, bytes_of(input).len()),
{
    let len = length(input);
    if peek(input, pos, c) {
        Ok((pos + 1, ()))
    } else {
        Err(ParseError::miss(pos, Label::Char))
    }
}

/// The offset after the whitespace that starts at `pos`.
pub open spec fn blank_end(bytes: Seq<u8>, pos: int) -> int {
    pos + run_len(bytes, pos, Class::Blank, true)
}

/// The offset after the whitespace, if any, that starts at `pos`.
pub fn skip_blank(input: &str, pos: usize) -> (end: usize)
    requires
        pos <= bytes_of(input).len(),
    ensures
        end == blank_end(bytes_of(input), pos as int),
        pos <= end <= bytes_of(input).len() <= usize::MAX,
        end > pos ==> bytes_of(input)[end - 1] <= 0x7f,
{
    let end = scan(input, pos, Class::Blank, true);
    proof {
        lemma_run(bytes_of(input), pos as int, Class::Blank, true);
        if end > pos {
            lemma_class_ascii(Class::Blank, bytes_of(input)[end - 1]);
        }
    }
    end
}

} // verus!
