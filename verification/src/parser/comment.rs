//! Comments, and whitespace with comments in it.

use vstd::prelude::*;
use vstd::string::*;
use crate::dart::comment::{Comment, CommentM};
use crate::parser::common::{Production, br_len, skip_br};
use crate::parser::outcome::{
    Label, PResult, ParseError, Parsed, advances, cut, framed, outcome, stays,
};
use crate::parser::text::{
    Class, blank_end, bytes_of, clean_cut, cut_out, has_byte, has_tag, lemma_run, length, peek,
    room, run_len, scan, skip_blank, starts_with,
};

verus! {

/// The offset after the line comment that starts at `pos` with `//`: after
/// the line break that ends it, or the end of the input.
pub open spec fn line_comment_end(bytes: Seq<u8>, pos: int) -> int {
    let stop = pos + 2 + run_len(bytes, pos + 2, Class::LineEnd, false);
    stop + br_len(bytes, stop)
}

/// A comment from `//` to the end of the line.  The line break is a part of
/// the comment, because it terminates the comment rather than being "just"
/// whitespace.
#[verifier::opaque]
pub open spec fn spec_comment_single_line(bytes: Seq<u8>, pos: int) -> Parsed<Seq<u8>> {
    (if has_tag(bytes, pos, bytes_of("//")) {
        Parsed::Done {
            next: line_comment_end(bytes, pos),
            value: bytes.subrange(pos, line_comment_end(bytes, pos)),
        }
    } else {
        Parsed::miss(pos, Label::Tag)
    }).within(Label::CommentSingleLine, pos)
}

/// What `//` and `/*` are made of.
pub proof fn lemma_comment_openers()
    ensures
        bytes_of("//") == seq!['/' as u8, '/' as u8],
        bytes_of("/*") == seq!['/' as u8, '*' as u8],
        bytes_of("*/") == seq!['*' as u8, '/' as u8],
{
    reveal_strlit("//");
    reveal_strlit("/*");
    reveal_strlit("*/");
    is_ascii_spec_bytes("//");
    is_ascii_spec_bytes("/*");
    is_ascii_spec_bytes("*/");
    assert(bytes_of("//") =~= seq!['/' as u8, '/' as u8]);
    assert(bytes_of("/*") =~= seq!['/' as u8, '*' as u8]);
    assert(bytes_of("*/") =~= seq!['*' as u8, '/' as u8]);
}

/// Parse a comment that runs to the end of its line.
pub fn comment_single_line<'s>(input: &'s str, pos: usize) -> (r: PResult<&'s str>)
    requires
        pos <= bytes_of(input).len(),
    ensures
        outcome(r) == spec_comment_single_line(bytes_of(input), pos as int),
        advances(r, pos, bytes_of(input).len()),
        r matches Ok((next, _)) ==> clean_cut(bytes_of(input), next as int),
{
    proof {
        reveal(spec_comment_single_line);
    }
    if !starts_with(input, pos, "//") {
        return framed(Err(ParseError::miss(pos, Label::Tag)), Label::CommentSingleLine, pos);
    }
    proof {
        lemma_comment_openers();
        assert(bytes_of(input).subrange(pos as int, pos + 2)[0] == '/' as u8);
        assert(bytes_of(input).subrange(pos as int, pos + 2)[1] == '/' as u8);
    }
    let stop = scan(input, pos + 2, Class::LineEnd, false);
    let end = skip_br(input, stop);
    proof {
        lemma_run(bytes_of(input), pos + 2, Class::LineEnd, false);
    }
    Ok((end, cut_out(input, pos, end)))
}

/// The inside of a block comment from `pos` on, up to and with the `*/` that
/// closes it.  The result is committed: the `/*` has been seen.
#[verifier::opaque]
pub open spec fn spec_comment_tail(bytes: Seq<u8>, pos: int) -> Parsed<()>
    decreases room(bytes, pos), 1int,
{
    if !(0 <= pos <= bytes.len()) {
        Parsed::<()>::miss(pos, Label::Eof).committed()
    } else if 0 < run_len(bytes, pos, Class::StarSlash, false) <= bytes.len() - pos {
        spec_comment_tail(bytes, pos + run_len(bytes, pos, Class::StarSlash, false))
    } else if has_byte(bytes, pos, '*' as u8) && !has_byte(bytes, pos + 1, '/' as u8) {
        spec_comment_tail(bytes, pos + 1)
    } else if has_byte(bytes, pos, '/' as u8) && !has_byte(bytes, pos + 1, '*' as u8) {
        spec_comment_tail(bytes, pos + 1)
    } else if has_byte(bytes, pos, '/' as u8) {
        match spec_comment_multi_line(bytes, pos) {
            Parsed::Done { next, .. } => if pos < next <= bytes.len() {
                spec_comment_tail(bytes, next)
            } else {
                Parsed::<()>::miss(pos, Label::Many0).committed()
            },
            other => other.carry(),
        }
    } else if has_byte(bytes, pos, '*' as u8) {
        Parsed::Done { next: pos + 2, value: () }
    } else {
        Parsed::<()>::miss(pos, Label::Tag).committed()
    }
}

/// A comment from `/*` to the matching `*/`.  Block comments nest.
#[verifier::opaque]
pub open spec fn spec_comment_multi_line(bytes: Seq<u8>, pos: int) -> Parsed<Seq<u8>>
    decreases room(bytes, pos), 0int,
{
    (if has_byte(bytes, pos, '/' as u8) && has_byte(bytes, pos + 1, '*' as u8) {
        match spec_comment_tail(bytes, pos + 2) {
            Parsed::Done { next, .. } => Parsed::Done { next, value: bytes.subrange(pos, next) },
            other => other.carry(),
        }
    } else {
        Parsed::miss(pos, Label::Tag)
    }).within(Label::CommentMultiLine, pos)
}

/// Parse the inside of a block comment and the `*/` that closes it.
fn comment_tail(input: &str, pos: usize) -> (r: PResult<()>)
    requires
        pos <= bytes_of(input).len(),
    ensures
        outcome(r) == spec_comment_tail(bytes_of(input), pos as int),
        r matches Ok((next, _)) ==> pos < next <= bytes_of(input).len() && bytes_of(input)[next - 1]
            == '/' as u8,
    decreases bytes_of(input).len() - pos, 1int,
{
    proof {
        reveal(spec_comment_tail);
        reveal(spec_comment_multi_line);
    }
    let len = length(input);
    let mut cur = pos;
    loop
        invariant
            len == bytes_of(input).len(),
            pos <= cur <= len,
            spec_comment_tail(bytes_of(input), pos as int) == spec_comment_tail(
                bytes_of(input),
                cur as int,
            ),
        decreases len - cur,
    {
        proof {
            reveal(spec_comment_tail);
            reveal(spec_comment_multi_line);
        }
        let run = scan(input, cur, Class::StarSlash, false);
        if run > cur {
            cur = run;
        } else if peek(input, cur, '*' as u8) {
            if peek(input, cur + 1, '/' as u8) {
                return Ok((cur + 2, ()));
            }
            cur = cur + 1;
        } else if peek(input, cur, '/' as u8) {
            if peek(input, cur + 1, '*' as u8) {
                let (next, _) = comment_multi_line(input, cur)?;
                cur = next;
            } else {
                cur = cur + 1;
            }
        } else {
            return cut(Err(ParseError::miss(cur, Label::Tag)));
        }
    }
}

/// Parse a block comment.
pub fn comment_multi_line<'s>(input: &'s str, pos: usize) -> (r: PResult<&'s str>)
    requires
        pos <= bytes_of(input).len(),
    ensures
        outcome(r) == spec_comment_multi_line(bytes_of(input), pos as int),
        advances(r, pos, bytes_of(input).len()),
        r matches Ok((next, _)) ==> clean_cut(bytes_of(input), next as int),
    decreases bytes_of(input).len() - pos, 0int,
{
    proof {
        reveal(spec_comment_multi_line);
        reveal(spec_comment_tail);
    }
    if !(peek(input, pos, '/' as u8) && peek(input, pos + 1, '*' as u8)) {
        return framed(Err(ParseError::miss(pos, Label::Tag)), Label::CommentMultiLine, pos);
    }
    match comment_tail(input, pos + 2) {
        Ok((next, _)) => Ok((next, cut_out(input, pos, next))),
        Err(e) => framed(Err(e), Label::CommentMultiLine, pos),
    }
}

/// A comment of either kind.
#[verifier::opaque]
pub open spec fn spec_comment(bytes: Seq<u8>, pos: int) -> Parsed<CommentM> {
    match spec_comment_single_line(bytes, pos) {
        Parsed::Done { next, value } => Parsed::Done { next, value: CommentM::SingleLine(value) },
        Parsed::Fault { trace } => Parsed::Fault { trace },
        Parsed::Miss { .. } => match spec_comment_multi_line(bytes, pos) {
            Parsed::Done { next, value } => Parsed::Done { next, value: CommentM::MultiLine(value) },
            other => other.carry(),
        },
    }
}

/// Parse a comment.
pub fn comment<'s>(input: &'s str, pos: usize) -> (r: PResult<Comment<'s>>)
    requires
        pos <= bytes_of(input).len(),
    ensures
        outcome(r) == spec_comment(bytes_of(input), pos as int),
        advances(r, pos, bytes_of(input).len()),
        r matches Ok((next, _)) ==> clean_cut(bytes_of(input), next as int),
{
    proof {
        reveal(spec_comment);
    }
    match comment_single_line(input, pos) {
        Ok((next, text)) => return Ok((next, Comment::SingleLine(text))),
        Err(e) => if e.fatal {
            return Err(e);
        },
    }
    match comment_multi_line(input, pos) {
        Ok((next, text)) => Ok((next, Comment::MultiLine(text))),
        Err(e) => Err(e),
    }
}

/// Whitespace and comments from `pos` on, as many as there are.  Fails only
/// where a block comment is not closed.
#[verifier::opaque]
pub open spec fn spec_skip_spbrc(bytes: Seq<u8>, pos: int) -> Parsed<()>
    decreases bytes.len() - pos,
{
    match spec_comment(bytes, blank_end(bytes, pos)) {
        Parsed::Done { next, .. } => if blank_end(bytes, pos) < next <= bytes.len() {
            spec_skip_spbrc(bytes, next)
        } else {
            Parsed::<()>::miss(pos, Label::Many0).committed()
        },
        Parsed::Miss { .. } => Parsed::Done { next: blank_end(bytes, pos), value: () },
        Parsed::Fault { trace } => Parsed::Fault { trace },
    }
}

/// One or more whitespace characters or comments.
pub open spec fn spec_spbrc(bytes: Seq<u8>, pos: int) -> Parsed<()> {
    match spec_skip_spbrc(bytes, pos) {
        Parsed::Done { next, .. } => if next > pos {
            Parsed::Done { next, value: () }
        } else {
            Parsed::miss(pos, Label::Many1)
        },
        other => other,
    }
}

/// Skip whitespace and comments, if there are any.
pub fn skip_spbrc(input: &str, pos: usize) -> (r: PResult<()>)
    requires
        pos <= bytes_of(input).len(),
    ensures
        outcome(r) == spec_skip_spbrc(bytes_of(input), pos as int),
        stays(r, pos, bytes_of(input).len()),
        !(outcome(r) is Miss),
        r matches Ok((next, _)) ==> next > pos ==> clean_cut(bytes_of(input), next as int),
{
    proof {
        reveal(spec_skip_spbrc);
    }
    let len = length(input);
    let mut cur = pos;
    loop
        invariant
            len == bytes_of(input).len(),
            pos <= cur <= len,
            cur > pos ==> clean_cut(bytes_of(input), cur as int),
            spec_skip_spbrc(bytes_of(input), pos as int) == spec_skip_spbrc(
                bytes_of(input),
                cur as int,
            ),
        decreases len - cur,
    {
        proof {
            reveal(spec_skip_spbrc);
        }
        let start = skip_blank(input, cur);
        match comment(input, start) {
            Ok((next, _)) => {
                cur = next;
            },
            Err(e) => {
                if e.fatal {
                    return Err(e);
                }
                return Ok((start, ()));
            },
        }
    }
}

/// Parse one or more whitespace characters or comments.
pub fn spbrc(input: &str, pos: usize) -> (r: PResult<()>)
    requires
        pos <= bytes_of(input).len(),
    ensures
        outcome(r) == spec_spbrc(bytes_of(input), pos as int),
        advances(r, pos, bytes_of(input).len()),
        r matches Ok((next, _)) ==> clean_cut(bytes_of(input), next as int),
{
    let (next, _) = skip_spbrc(input, pos)?;
    if next > pos {
        Ok((next, ()))
    } else {
        Err(ParseError::miss(pos, Label::Many1))
    }
}

/// One or more whitespace characters or comments, as a production.  A
/// comment that is not closed is a committed failure.
pub struct Spbrc;

impl<'s> Production<'s> for Spbrc {
    type Out = ();

    open spec fn parses(&self, bytes: Seq<u8>, pos: int) -> Parsed<()> {
        spec_spbrc(bytes, pos)
    }

    fn parse(&self, input: &'s str, pos: usize) -> (r: PResult<()>) {
        spbrc(input, pos)
    }
}

/// Optional whitespace at `pos`, with comments in it where `comments` is
/// set.
pub open spec fn spec_gap(bytes: Seq<u8>, pos: int, comments: bool) -> Parsed<()> {
    if comments {
        spec_skip_spbrc(bytes, pos)
    } else {
        Parsed::Done { next: blank_end(bytes, pos), value: () }
    }
}

/// Whitespace at `pos`, with comments in it where `comments` is set.
pub open spec fn spec_space(bytes: Seq<u8>, pos: int, comments: bool) -> Parsed<()> {
    if comments {
        spec_spbrc(bytes, pos)
    } else if blank_end(bytes, pos) > pos {
        Parsed::Done { next: blank_end(bytes, pos), value: () }
    } else {
        Parsed::miss(pos, Label::IsA)
    }
}

/// Skip optional whitespace, with comments in it where `comments` is set.
pub fn gap(input: &str, pos: usize, comments: bool) -> (r: PResult<()>)
    requires
        pos <= bytes_of(input).len(),
    ensures
        outcome(r) == spec_gap(bytes_of(input), pos as int, comments),
        stays(r, pos, bytes_of(input).len()),
        r matches Ok((next, _)) ==> next > pos ==> clean_cut(bytes_of(input), next as int),
{
    if comments {
        skip_spbrc(input, pos)
    } else {
        Ok((skip_blank(input, pos), ()))
    }
}

/// Skip whitespace, with comments in it where `comments` is set.
pub fn space(input: &str, pos: usize, comments: bool) -> (r: PResult<()>)
    requires
        pos <= bytes_of(input).len(),
    ensures
        outcome(r) == spec_space(bytes_of(input), pos as int, comments),
        advances(r, pos, bytes_of(input).len()),
        r matches Ok((next, _)) ==> clean_cut(bytes_of(input), next as int),
{
    if comments {
        spbrc(input, pos)
    } else {
        let end = skip_blank(input, pos);
        if end > pos {
            Ok((end, ()))
        } else {
            Err(ParseError::miss(pos, Label::IsA))
        }
    }
}

} // verus!
