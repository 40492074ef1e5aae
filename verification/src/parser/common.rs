//! Whitespace and line breaks, and parsers that repeat other parsers.

use vstd::prelude::*;
use vstd::string::*;
use vstd::utf8::*;
use crate::model::{Model, lemma_model_empty, lemma_model_push};
use crate::parser::outcome::{Label, PResult, ParseError, Parsed, advances, outcome, stays};
use crate::parser::text::{
    Class, blank_end, bytes_of, cut_out, has_byte, has_tag, lemma_class_ascii, lemma_run, length,
    peek, room, skip_blank, slice, starts_with,
};

verus! {

/// Whether a list may end with a separator.
#[derive(PartialEq, Eq, Copy, Clone, Debug)]
pub enum SepMode {
    NoTrailing,
    AllowTrailing,
}

/// One or more whitespace characters, line breaks included.
pub open spec fn spec_spbr(bytes: Seq<u8>, pos: int) -> Parsed<Seq<u8>> {
    if blank_end(bytes, pos) > pos {
        Parsed::Done { next: blank_end(bytes, pos), value: bytes.subrange(pos, blank_end(bytes, pos)) }
    } else {
        Parsed::miss(pos, Label::IsA)
    }
}

/// Parse one or more whitespace characters, including line breaks.
pub fn spbr<'s>(input: &'s str, pos: usize) -> (r: PResult<&'s str>)
    requires
        pos <= bytes_of(input).len(),
    ensures
        outcome(r) == spec_spbr(bytes_of(input), pos as int),
        advances(r, pos, bytes_of(input).len()),
{
    let end = skip_blank(input, pos);
    if end > pos {
        proof {
            lemma_run(bytes_of(input), pos as int, Class::Blank, true);
            lemma_class_ascii(Class::Blank, bytes_of(input)[pos as int]);
            lemma_class_ascii(Class::Blank, bytes_of(input)[end - 1]);
        }
        Ok((end, cut_out(input, pos, end)))
    } else {
        Err(ParseError::miss(pos, Label::IsA))
    }
}

/// The length of the line break at `pos`: 1 for a line feed or a lone
/// carriage return, 2 for a carriage return with a line feed, else 0.
pub open spec fn br_len(bytes: Seq<u8>, pos: int) -> nat {
    if has_byte(bytes, pos, '\n' as u8) {
        1
    } else if has_byte(bytes, pos, '\r' as u8) {
        if has_byte(bytes, pos + 1, '\n' as u8) {
            2
        } else {
            1
        }
    } else {
        0
    }
}

/// Exactly one line break.
pub open spec fn spec_br(bytes: Seq<u8>, pos: int) -> Parsed<Seq<u8>> {
    if br_len(bytes, pos) > 0 {
        Parsed::Done { next: pos + br_len(bytes, pos), value: bytes.subrange(pos, pos + br_len(bytes, pos)) }
    } else {
        Parsed::miss(pos, Label::Tag)
    }
}

/// The offset after the line break, if any, at `pos`.
pub fn skip_br(input: &str, pos: usize) -> (end: usize)
    requires
        pos <= bytes_of(input).len(),
    ensures
        end == pos + br_len(bytes_of(input), pos as int),
        end <= bytes_of(input).len(),
{
    let len = length(input);
    if peek(input, pos, '\n' as u8) {
        pos + 1
    } else if peek(input, pos, '\r' as u8) {
        if peek(input, pos + 1, '\n' as u8) {
            pos + 2
        } else {
            pos + 1
        }
    } else {
        pos
    }
}

/// Parse exactly one line break.
pub fn br<'s>(input: &'s str, pos: usize) -> (r: PResult<&'s str>)
    requires
        pos <= bytes_of(input).len(),
    ensures
        outcome(r) == spec_br(bytes_of(input), pos as int),
        advances(r, pos, bytes_of(input).len()),
{
    let end = skip_br(input, pos);
    if end > pos {
        Ok((end, cut_out(input, pos, end)))
    } else {
        Err(ParseError::miss(pos, Label::Tag))
    }
}

/// Whether the bytes `a` and `b` are the same.
pub fn same_text(a: &str, b: &str) -> (r: bool)
    ensures
        r == (bytes_of(a) == bytes_of(b)),
{
    if length(a) != length(b) {
        return false;
    }
    let r = starts_with(a, 0, b);
    proof {
        assert(bytes_of(a).subrange(0, bytes_of(a).len() as int) =~= bytes_of(a));
    }
    r
}

/// A parser with its description: what `parse` returns is what `parses`
/// says.
pub trait Production<'s> {
    type Out: Model;

    /// The result at `pos` in `bytes`.
    spec fn parses(&self, bytes: Seq<u8>, pos: int) -> Parsed<<Self::Out as Model>::M>;

    /// Parse at `pos` in `input`.
    fn parse(&self, input: &'s str, pos: usize) -> (r: PResult<Self::Out>)
        requires
            pos <= bytes_of(input).len(),
        ensures
            outcome(r) == self.parses(bytes_of(input), pos as int),
            stays(r, pos, bytes_of(input).len()),
    ;
}

/// The fixed text that a `Tag` holds.
pub struct Tag<'a>(pub &'a str);

/// One or more whitespace characters.
pub struct Spbr;

/// Whitespace, if there is any.
pub struct OptSpbr;

impl<'a, 's> Production<'s> for Tag<'a> {
    type Out = &'s str;

    /// The text stands at `pos`, between two character boundaries.
    open spec fn parses(&self, bytes: Seq<u8>, pos: int) -> Parsed<Seq<u8>> {
        if has_tag(bytes, pos, bytes_of(self.0)) && is_char_boundary(bytes, pos)
            && is_char_boundary(bytes, pos + bytes_of(self.0).len()) {
            Parsed::Done {
                next: pos + bytes_of(self.0).len(),
                value: bytes.subrange(pos, pos + bytes_of(self.0).len()),
            }
        } else {
            Parsed::miss(pos, Label::Tag)
        }
    }

    fn parse(&self, input: &'s str, pos: usize) -> (r: PResult<&'s str>) {
        if starts_with(input, pos, self.0) {
            let end = pos + length(self.0);
            if input.is_char_boundary(pos) && input.is_char_boundary(end) {
                return Ok((end, slice(input, pos, end)));
            }
        }
        Err(ParseError::miss(pos, Label::Tag))
    }
}

impl<'s> Production<'s> for Spbr {
    type Out = &'s str;

    open spec fn parses(&self, bytes: Seq<u8>, pos: int) -> Parsed<Seq<u8>> {
        spec_spbr(bytes, pos)
    }

    fn parse(&self, input: &'s str, pos: usize) -> (r: PResult<&'s str>) {
        spbr(input, pos)
    }
}

impl<'s> Production<'s> for OptSpbr {
    type Out = Option<&'s str>;

    open spec fn parses(&self, bytes: Seq<u8>, pos: int) -> Parsed<Option<Seq<u8>>> {
        spec_spbr(bytes, pos).optional(pos)
    }

    fn parse(&self, input: &'s str, pos: usize) -> (r: PResult<Option<&'s str>>) {
        match spbr(input, pos) {
            Ok((next, blank)) => Ok((next, Some(blank))),
            Err(_) => Ok((pos, None)),
        }
    }
}

/// The items of a list from `pos` on, after the `acc.len()` items `acc`,
/// with separators between them.  A committed failure of a separator or of
/// an item is the result.  A separator or an item that does not match ends
/// the list, and so does a separator with an item that take nothing of the
/// input: before the separator, or after it where `sep_mode` allows a
/// trailing separator and the item did not match.  A list that ends with
/// fewer than `count_min` items is a failure.
pub open spec fn spec_sep_list_rest<'s, S: Production<'s>, I: Production<'s>>(
    count_min: nat,
    sep_mode: SepMode,
    sep: S,
    item: I,
    bytes: Seq<u8>,
    pos: int,
    acc: Seq<<I::Out as Model>::M>,
) -> Parsed<Seq<<I::Out as Model>::M>>
    decreases room(bytes, pos),
{
    match sep.parses(bytes, pos) {
        Parsed::Done { next: start, .. } => match item.parses(bytes, start) {
            Parsed::Done { next, value } => if 0 <= pos < next <= bytes.len() {
                spec_sep_list_rest(count_min, sep_mode, sep, item, bytes, next, acc.push(value))
            } else if acc.len() + 1 < count_min {
                Parsed::miss(pos, Label::SeparatedList)
            } else {
                Parsed::Done { next: pos, value: acc.push(value) }
            },
            Parsed::Fault { trace } => Parsed::Fault { trace },
            Parsed::Miss { trace } => if acc.len() < count_min {
                Parsed::Miss { trace }
            } else if sep_mode == SepMode::AllowTrailing {
                Parsed::Done { next: start, value: acc }
            } else {
                Parsed::Done { next: pos, value: acc }
            },
        },
        Parsed::Fault { trace } => Parsed::Fault { trace },
        Parsed::Miss { trace } => if acc.len() < count_min {
            Parsed::Miss { trace }
        } else {
            Parsed::Done { next: pos, value: acc }
        },
    }
}

/// A list of items with separators between them, of at least `count_min`
/// items.  A committed failure of the first item is the result; where the
/// first item does not match, the list is empty.
pub open spec fn spec_sep_list<'s, S: Production<'s>, I: Production<'s>>(
    count_min: nat,
    sep_mode: SepMode,
    sep: S,
    item: I,
    bytes: Seq<u8>,
    pos: int,
) -> Parsed<Seq<<I::Out as Model>::M>> {
    match item.parses(bytes, pos) {
        Parsed::Done { next, value } => spec_sep_list_rest(
            count_min,
            sep_mode,
            sep,
            item,
            bytes,
            next,
            seq![value],
        ),
        Parsed::Fault { trace } => Parsed::Fault { trace },
        Parsed::Miss { trace } => if 0 < count_min {
            Parsed::Miss { trace }
        } else {
            Parsed::Done { next: pos, value: Seq::empty() }
        },
    }
}

/// A list that is `Done` holds the items `acc` first, then those that were
/// found from `pos` on, and these are `count_min` items at least.
pub proof fn lemma_sep_list_rest_count<'s, S: Production<'s>, I: Production<'s>>(
    count_min: nat,
    sep_mode: SepMode,
    sep: S,
    item: I,
    bytes: Seq<u8>,
    pos: int,
    acc: Seq<<I::Out as Model>::M>,
)
    ensures
        spec_sep_list_rest(count_min, sep_mode, sep, item, bytes, pos, acc) matches Parsed::Done {
            value,
            ..
        } ==> value.len() >= count_min && acc.is_prefix_of(value),
    decreases room(bytes, pos),
{
    match sep.parses(bytes, pos) {
        Parsed::Done { next: start, .. } => match item.parses(bytes, start) {
            Parsed::Done { next, value } => {
                if 0 <= pos < next <= bytes.len() {
                    lemma_sep_list_rest_count(
                        count_min,
                        sep_mode,
                        sep,
                        item,
                        bytes,
                        next,
                        acc.push(value),
                    );
                    assert(acc.is_prefix_of(acc.push(value)));
                }
            },
            _ => {},
        },
        _ => {},
    }
}

/// A list that is `Done` holds `count_min` items at least.
pub proof fn lemma_sep_list_count<'s, S: Production<'s>, I: Production<'s>>(
    count_min: nat,
    sep_mode: SepMode,
    sep: S,
    item: I,
    bytes: Seq<u8>,
    pos: int,
)
    ensures
        spec_sep_list(count_min, sep_mode, sep, item, bytes, pos) matches Parsed::Done {
            value,
            ..
        } ==> value.len() >= count_min,
{
    match item.parses(bytes, pos) {
        Parsed::Done { next, value } => {
            lemma_sep_list_rest_count(count_min, sep_mode, sep, item, bytes, next, seq![value]);
        },
        _ => {},
    }
}

/// Parse a list of items with separators between them.
pub fn sep_list<'s, S: Production<'s>, I: Production<'s>>(
    count_min: usize,
    sep_mode: SepMode,
    sep: &S,
    item: &I,
    input: &'s str,
    pos: usize,
) -> (r: PResult<Vec<I::Out>>)
    requires
        pos <= bytes_of(input).len(),
    ensures
        outcome(r) == spec_sep_list(
            count_min as nat,
            sep_mode,
            *sep,
            *item,
            bytes_of(input),
            pos as int,
        ),
        stays(r, pos, bytes_of(input).len()),
        r matches Ok((_, items)) ==> items.len() >= count_min,
{
    proof {
        lemma_sep_list_count(count_min as nat, sep_mode, *sep, *item, bytes_of(input), pos as int);
    }
    let mut items: Vec<I::Out> = Vec::new();
    let mut cur = match item.parse(input, pos) {
        Ok((next, value)) => {
            items.push(value);
            proof {
                assert(items.model() =~= seq![value.model()]);
            }
            next
        },
        Err(e) => {
            if e.fatal || 0 < count_min {
                return Err(e);
            }
            proof {
                lemma_model_empty(items);
            }
            return Ok((pos, items));
        },
    };
    let ghost bytes = bytes_of(input);
    loop
        invariant
            bytes == bytes_of(input),
            pos <= cur <= bytes.len(),
            items.len() == items.model().len(),
            spec_sep_list(
                count_min as nat,
                sep_mode,
                *sep,
                *item,
                bytes,
                pos as int,
            ) matches Parsed::Done { value, .. } ==> value.len() >= count_min,
            spec_sep_list(count_min as nat, sep_mode, *sep, *item, bytes, pos as int)
                == spec_sep_list_rest(
                count_min as nat,
                sep_mode,
                *sep,
                *item,
                bytes,
                cur as int,
                items.model(),
            ),
        decreases bytes.len() - cur,
    {
        let start = match sep.parse(input, cur) {
            Ok((start, _)) => start,
            Err(e) => {
                if e.fatal || items.len() < count_min {
                    return Err(e);
                }
                return Ok((cur, items));
            },
        };
        match item.parse(input, start) {
            Ok((next, value)) => {
                let ghost before = items;
                items.push(value);
                proof {
                    lemma_model_push(before, items, value);
                }
                if next <= cur {
                    if items.len() < count_min {
                        return Err(ParseError::miss(cur, Label::SeparatedList));
                    }
                    return Ok((cur, items));
                }
                cur = next;
            },
            Err(e) => {
                if e.fatal || items.len() < count_min {
                    return Err(e);
                }
                return match sep_mode {
                    SepMode::NoTrailing => Ok((cur, items)),
                    SepMode::AllowTrailing => Ok((start, items)),
                };
            },
        }
    }
}

/// What `p` matches from `pos` on, as often as it does.  `p` has to take
/// something of the input each time.
pub open spec fn spec_skip_many0<'s, P: Production<'s>>(p: P, bytes: Seq<u8>, pos: int) -> Parsed<()>
    decreases room(bytes, pos),
{
    match p.parses(bytes, pos) {
        Parsed::Done { next, .. } => if 0 <= pos < next <= bytes.len() {
            spec_skip_many0(p, bytes, next)
        } else {
            Parsed::miss(pos, Label::Many0)
        },
        Parsed::Miss { .. } => Parsed::Done { next: pos, value: () },
        Parsed::Fault { trace } => Parsed::Fault { trace },
    }
}

/// What `p` matches from `pos` on, once or more often.
pub open spec fn spec_skip_many1<'s, P: Production<'s>>(p: P, bytes: Seq<u8>, pos: int) -> Parsed<()> {
    match p.parses(bytes, pos) {
        Parsed::Done { next, .. } => match spec_skip_many0(p, bytes, next) {
            Parsed::Miss { trace } => Parsed::Fault { trace },
            other => other,
        },
        Parsed::Miss { .. } => Parsed::miss(pos, Label::Many1),
        Parsed::Fault { trace } => Parsed::Fault { trace },
    }
}

/// Skip what `p` matches, as often as it does.
pub fn skip_many0<'s, P: Production<'s>>(p: &P, input: &'s str, pos: usize) -> (r: PResult<()>)
    requires
        pos <= bytes_of(input).len(),
    ensures
        outcome(r) == spec_skip_many0(*p, bytes_of(input), pos as int),
        stays(r, pos, bytes_of(input).len()),
{
    let mut cur = pos;
    let ghost bytes = bytes_of(input);
    loop
        invariant
            bytes == bytes_of(input),
            pos <= cur <= bytes.len(),
            spec_skip_many0(*p, bytes, pos as int) == spec_skip_many0(*p, bytes, cur as int),
        decreases bytes.len() - cur,
    {
        match p.parse(input, cur) {
            Ok((next, _)) => {
                if next <= cur {
                    return Err(ParseError::miss(cur, Label::Many0));
                }
                cur = next;
            },
            Err(e) => {
                if e.fatal {
                    return Err(e);
                }
                return Ok((cur, ()));
            },
        }
    }
}

/// Skip what `p` matches, once or more often.
pub fn skip_many1<'s, P: Production<'s>>(p: &P, input: &'s str, pos: usize) -> (r: PResult<()>)
    requires
        pos <= bytes_of(input).len(),
    ensures
        outcome(r) == spec_skip_many1(*p, bytes_of(input), pos as int),
        stays(r, pos, bytes_of(input).len()),
{
    match p.parse(input, pos) {
        Ok((next, _)) => match skip_many0(p, input, next) {
            Ok(done) => Ok(done),
            Err(e) => Err(e.committed()),
        },
        Err(e) => if e.fatal {
            Err(e)
        } else {
            Err(ParseError::miss(pos, Label::Many1))
        },
    }
}

} // verus!
