//! The comments and annotations that stand before a declaration.

use vstd::prelude::*;
use crate::dart::meta::{Meta, MetaM, WithMeta, WithMetaM};
use crate::dart::ty::{group_models, lemma_metas_model};
use crate::model::{Model, lemma_model_empty, lemma_model_push};
use crate::parser::annotation::{annotation, spec_annotation};
use crate::parser::comment::{comment, spec_comment};
use crate::parser::outcome::{Label, PResult, Parsed, advances, framed, outcome, stays};
use crate::parser::text::{blank_end, bytes_of, room, skip_blank};

verus! {

broadcast use group_models;

/// One item of metadata: a comment or an annotation.
#[verifier::opaque]
pub open spec fn spec_meta_item(bytes: Seq<u8>, pos: int) -> Parsed<MetaM>
    decreases room(bytes, pos), 1int,
{
    match spec_comment(bytes, pos) {
        Parsed::Done { next, value } => Parsed::Done { next, value: MetaM::Comment(value) },
        Parsed::Fault { trace } => Parsed::Fault { trace },
        Parsed::Miss { .. } => match spec_annotation(bytes, pos) {
            Parsed::Done { next, value } => Parsed::Done { next, value: MetaM::Annotation(value) },
            other => other.carry(),
        },
    }
}

/// The items of metadata from `pos` on, each followed by optional
/// whitespace, after the items `acc`.
#[verifier::opaque]
pub open spec fn spec_meta_items(bytes: Seq<u8>, pos: int, acc: Seq<MetaM>) -> Parsed<Seq<MetaM>>
    decreases room(bytes, pos), 2int,
{
    if !(0 <= pos <= bytes.len()) {
        Parsed::miss(pos, Label::Eof)
    } else {
        match spec_meta_item(bytes, pos) {
            Parsed::Done { next, value } => if pos < next <= bytes.len() {
                spec_meta_items(bytes, blank_end(bytes, next), acc.push(value))
            } else {
                Parsed::miss(pos, Label::Many0)
            },
            Parsed::Miss { .. } => Parsed::Done { next: pos, value: acc },
            Parsed::Fault { trace } => Parsed::Fault { trace },
        }
    }
}

/// Metadata: comments and annotations, as many as there are, in the order
/// in which they stand.
#[verifier::opaque]
pub open spec fn spec_meta(bytes: Seq<u8>, pos: int) -> Parsed<Seq<MetaM>>
    decreases room(bytes, pos), 3int,
{
    spec_meta_items(bytes, pos, Seq::empty()).within(Label::Meta, pos)
}

/// Metadata stands in the order of the source: the items that are found
/// from `pos` on follow the items `acc` that were found before them, and the
/// item that stands at `pos` is the first of them.
pub proof fn lemma_meta_in_source_order(bytes: Seq<u8>, pos: int, acc: Seq<MetaM>)
    ensures
        spec_meta_items(bytes, pos, acc) matches Parsed::Done { value, .. } ==> {
            &&& acc.len() <= value.len()
            &&& forall|i: int| 0 <= i < acc.len() ==> value[i] == acc[i]
            &&& spec_meta_item(bytes, pos) matches Parsed::Done { value: first, .. }
                ==> acc.len() < value.len() && value[acc.len() as int] == first
        },
    decreases room(bytes, pos),
{
    reveal(spec_meta_items);
    reveal(spec_meta_item);
    if 0 <= pos <= bytes.len() {
        match spec_meta_item(bytes, pos) {
            Parsed::Done { next, value } => {
                if pos < next <= bytes.len() {
                    lemma_meta_in_source_order(bytes, blank_end(bytes, next), acc.push(value));
                    assert(acc.push(value)[acc.len() as int] == value);
                    assert forall|i: int| 0 <= i < acc.len() implies acc.push(value)[i]
                        == acc[i] by {}
                }
            },
            _ => {},
        }
    }
}

/// Parse one item of metadata.
pub fn meta_item<'s>(input: &'s str, pos: usize) -> (r: PResult<Meta<'s>>)
    requires
        pos <= bytes_of(input).len(),
    ensures
        outcome(r) == spec_meta_item(bytes_of(input), pos as int),
        advances(r, pos, bytes_of(input).len()),
    decreases bytes_of(input).len() - pos, 1int,
{
    proof {
        reveal(spec_meta_item);
        reveal(spec_annotation);
    }
    match comment(input, pos) {
        Ok((next, value)) => {
            return Ok((next, Meta::Comment(value)));
        },
        Err(e) => if e.fatal {
            return Err(e);
        },
    }
    match annotation(input, pos) {
        Ok((next, value)) => Ok((next, Meta::Annotation(value))),
        Err(e) => Err(e),
    }
}

/// Parse the metadata that stands at `pos`.
pub fn meta<'s>(input: &'s str, pos: usize) -> (r: PResult<Vec<Meta<'s>>>)
    requires
        pos <= bytes_of(input).len(),
    ensures
        outcome(r) == spec_meta(bytes_of(input), pos as int),
        stays(r, pos, bytes_of(input).len()),
    decreases bytes_of(input).len() - pos, 3int,
{
    proof {
        reveal(spec_meta);
        reveal(spec_meta_items);
        reveal(spec_meta_item);
    }
    let mut items: Vec<Meta<'s>> = Vec::new();
    let mut cur = pos;
    let ghost bytes = bytes_of(input);
    proof {
        lemma_model_empty(items);
    }
    loop
        invariant
            bytes == bytes_of(input),
            pos <= cur <= bytes.len(),
            spec_meta_items(bytes, pos as int, Seq::empty()) == spec_meta_items(
                bytes,
                cur as int,
                items.model(),
            ),
        decreases bytes.len() - cur,
    {
        proof {
            reveal(spec_meta);
            reveal(spec_meta_items);
            reveal(spec_meta_item);
        }
        match meta_item(input, cur) {
            Ok((next, item)) => {
                let ghost before = items;
                items.push(item);
                proof {
                    lemma_model_push(before, items, item);
                }
                cur = skip_blank(input, next);
            },
            Err(e) => {
                if e.fatal {
                    return framed(Err(e), Label::Meta, pos);
                }
                return Ok((cur, items));
            },
        }
    }
}

/// A production with the metadata that stands before it: the metadata,
/// then what `item` yields at the offset after it.
pub open spec fn spec_with_meta<T>(bytes: Seq<u8>, pos: int, item: spec_fn(int) -> Parsed<T>) -> Parsed<
    WithMetaM<T>,
> {
    (match spec_meta(bytes, pos) {
        Parsed::Done { next, value: meta } => match item(next) {
            Parsed::Done { next: end, value } => Parsed::Done {
                next: end,
                value: WithMetaM { meta, value },
            },
            other => other.carry(),
        },
        other => other.carry(),
    }).within(Label::WithMeta, pos)
}

/// The result `found` of a production that was run after the metadata
/// `items`, which was parsed at `pos`.
pub fn with_meta<'s, T: Model>(items: Vec<Meta<'s>>, found: PResult<T>, pos: usize) -> (r: PResult<
    WithMeta<'s, T>,
>)
    ensures
        outcome(r) == (match outcome(found) {
            Parsed::Done { next, value } => Parsed::Done {
                next,
                value: WithMetaM { meta: items.model(), value },
            },
            other => other.carry(),
        }).within(Label::WithMeta, pos as int),
        r matches Ok((next, _)) ==> found matches Ok((end, _)) && end == next,
        r is Ok <==> found is Ok,
{
    proof {
        lemma_metas_model(items);
    }
    match found {
        Ok((next, value)) => Ok((next, WithMeta::new(items, value))),
        Err(e) => framed(Err(e), Label::WithMeta, pos),
    }
}

} // verus!
