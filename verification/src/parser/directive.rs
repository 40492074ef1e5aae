//! Directives: `import`, `export`, `part` and `part of`.

use vstd::prelude::*;
use vstd::string::*;
use crate::dart::directive::{
    Directive, DirectiveM, Export, ExportM, Filter, FilterM, Import, ImportM, PartOf, PartOfM,
};
use crate::model::{Model, lemma_model_empty, lemma_model_push};
use crate::parser::comment::{skip_spbrc, space, spbrc, spec_skip_spbrc, spec_space, spec_spbrc};
use crate::parser::identifier::{identifier, spec_identifier};
use crate::parser::outcome::{Label, PResult, Parsed, advances, cut, framed, outcome, stays};
use crate::parser::string::{spec_string, string};
use crate::parser::text::{
    blank_end, byte, bytes_of, has_byte, peek, room, skip_blank, spec_byte, spec_tag, tag,
};

verus! {

/// The names of a list after its first, each after a comma; around the
/// comma there may be whitespace and comments.
#[verifier::opaque]
pub open spec fn spec_name_list(bytes: Seq<u8>, pos: int, acc: Seq<Seq<u8>>) -> Parsed<
    Seq<Seq<u8>>,
>
    decreases room(bytes, pos),
{
    if !(0 <= pos <= bytes.len()) {
        Parsed::miss(pos, Label::Eof)
    } else {
        match spec_skip_spbrc(bytes, pos) {
            Parsed::Done { next: comma, .. } => if has_byte(bytes, comma, ',' as u8) {
                match spec_skip_spbrc(bytes, comma + 1) {
                    Parsed::Done { next: start, .. } => match spec_identifier(bytes, start) {
                        Parsed::Done { next, value } => if pos < next <= bytes.len() {
                            spec_name_list(bytes, next, acc.push(value))
                        } else {
                            Parsed::miss(pos, Label::SeparatedList)
                        },
                        Parsed::Miss { .. } => Parsed::Done { next: pos, value: acc },
                        Parsed::Fault { trace } => Parsed::Fault { trace },
                    },
                    other => other.carry(),
                }
            } else {
                Parsed::Done { next: pos, value: acc }
            },
            other => other.carry(),
        }
    }
}

/// A `show` or a `hide` clause: `word`, whitespace or comments, and one or
/// more names with commas between them.
#[verifier::opaque]
pub open spec fn spec_names_after(bytes: Seq<u8>, pos: int, word: Seq<u8>) -> Parsed<
    Seq<Seq<u8>>,
> {
    match spec_tag(bytes, pos, word) {
        Parsed::Done { next, .. } => match spec_spbrc(bytes, next) {
            Parsed::Done { next: start, .. } => match spec_identifier(bytes, start) {
                Parsed::Done { next: end, value } => spec_name_list(bytes, end, seq![value]),
                other => other.carry(),
            },
            other => other.carry(),
        },
        other => other.carry(),
    }
}

/// A filter: a `show` clause, or else a `hide` clause.
#[verifier::opaque]
pub open spec fn spec_filter(bytes: Seq<u8>, pos: int) -> Parsed<FilterM> {
    match spec_names_after(bytes, pos, bytes_of("show")) {
        Parsed::Done { next, value } => Parsed::Done { next, value: FilterM::Show(value) },
        Parsed::Fault { trace } => Parsed::Fault { trace },
        Parsed::Miss { .. } => match spec_names_after(bytes, pos, bytes_of("hide")) {
            Parsed::Done { next, value } => Parsed::Done { next, value: FilterM::Hide(value) },
            other => other.carry(),
        },
    }
}

/// The filters from `pos` on, after the filters `acc`, with whitespace or
/// comments between them.  Whitespace or a filter that does not match ends
/// the list before it; a committed failure of either is the result.  The
/// filters come in the order in which they stand.
#[verifier::opaque]
pub open spec fn spec_filter_list(bytes: Seq<u8>, pos: int, acc: Seq<FilterM>) -> Parsed<
    Seq<FilterM>,
>
    decreases room(bytes, pos),
{
    if !(0 <= pos <= bytes.len()) {
        Parsed::Done { next: pos, value: acc }
    } else if acc.len() > 0 && spec_spbrc(bytes, pos) is Miss {
        Parsed::Done { next: pos, value: acc }
    } else if acc.len() > 0 && spec_spbrc(bytes, pos) is Fault {
        spec_spbrc(bytes, pos).carry()
    } else {
        match spec_filter(
            bytes,
            if acc.len() == 0 {
                pos
            } else {
                spec_spbrc(bytes, pos)->next
            },
        ) {
            Parsed::Done { next, value } => if pos < next <= bytes.len() {
                spec_filter_list(bytes, next, acc.push(value))
            } else {
                Parsed::Done { next: pos, value: acc }
            },
            Parsed::Miss { .. } => Parsed::Done { next: pos, value: acc },
            Parsed::Fault { trace } => Parsed::Fault { trace },
        }
    }
}

/// The filters of an import or an export.
pub open spec fn spec_import_filters(bytes: Seq<u8>, pos: int) -> Parsed<Seq<FilterM>> {
    spec_filter_list(bytes, pos, Seq::empty())
}

/// Parse the names of a list after its first.
fn name_list<'s>(input: &'s str, pos: usize, first: &'s str) -> (r: PResult<Vec<&'s str>>)
    requires
        pos <= bytes_of(input).len(),
    ensures
        outcome(r) == spec_name_list(bytes_of(input), pos as int, seq![first.model()]),
        stays(r, pos, bytes_of(input).len()),
{
    let mut names: Vec<&'s str> = Vec::new();
    names.push(first);
    let mut cur = pos;
    let ghost bytes = bytes_of(input);
    proof {
        assert(names.model() =~= seq![first.model()]);
    }
    loop
        invariant
            bytes == bytes_of(input),
            pos <= cur <= bytes.len(),
            spec_name_list(bytes, pos as int, seq![first.model()]) == spec_name_list(
                bytes,
                cur as int,
                names.model(),
            ),
        decreases bytes.len() - cur,
    {
        proof {
            reveal(spec_name_list);
        }
        let (comma, _) = skip_spbrc(input, cur)?;
        if !peek(input, comma, ',' as u8) {
            return Ok((cur, names));
        }
        let (start, _) = skip_spbrc(input, comma + 1)?;
        match identifier(input, start) {
            Ok((next, name)) => {
                let ghost before = names;
                names.push(name);
                proof {
                    lemma_model_push(before, names, name);
                }
                cur = next;
            },
            Err(e) => {
                if e.fatal {
                    return Err(e);
                }
                return Ok((cur, names));
            },
        }
    }
}

/// Parse a `show` or a `hide` clause.
fn names_after<'s>(input: &'s str, pos: usize, word: &str) -> (r: PResult<Vec<&'s str>>)
    requires
        pos <= bytes_of(input).len(),
    ensures
        outcome(r) == spec_names_after(bytes_of(input), pos as int, bytes_of(word)),
        advances(r, pos, bytes_of(input).len()),
{
    proof {
        reveal(spec_names_after);
    }
    let (next, _) = tag(input, pos, word)?;
    let (start, _) = spbrc(input, next)?;
    let (end, first) = identifier(input, start)?;
    name_list(input, end, first)
}

/// Parse a `show` clause.
pub fn show_clause<'s>(input: &'s str, pos: usize) -> (r: PResult<Vec<&'s str>>)
    requires
        pos <= bytes_of(input).len(),
    ensures
        outcome(r) == spec_names_after(bytes_of(input), pos as int, bytes_of("show")),
        advances(r, pos, bytes_of(input).len()),
{
    names_after(input, pos, "show")
}

/// Parse a `hide` clause.
pub fn hide_clause<'s>(input: &'s str, pos: usize) -> (r: PResult<Vec<&'s str>>)
    requires
        pos <= bytes_of(input).len(),
    ensures
        outcome(r) == spec_names_after(bytes_of(input), pos as int, bytes_of("hide")),
        advances(r, pos, bytes_of(input).len()),
{
    names_after(input, pos, "hide")
}

/// Parse a filter.
fn filter<'s>(input: &'s str, pos: usize) -> (r: PResult<Filter<'s>>)
    requires
        pos <= bytes_of(input).len(),
    ensures
        outcome(r) == spec_filter(bytes_of(input), pos as int),
        advances(r, pos, bytes_of(input).len()),
{
    proof {
        reveal(spec_filter);
    }
    match show_clause(input, pos) {
        Ok((next, names)) => {
            return Ok((next, Filter::Show(names)));
        },
        Err(e) => if e.fatal {
            return Err(e);
        },
    }
    let (next, names) = hide_clause(input, pos)?;
    Ok((next, Filter::Hide(names)))
}

/// Parse the filters of an import or an export.
pub fn import_filters<'s>(input: &'s str, pos: usize) -> (r: PResult<Vec<Filter<'s>>>)
    requires
        pos <= bytes_of(input).len(),
    ensures
        outcome(r) == spec_import_filters(bytes_of(input), pos as int),
        stays(r, pos, bytes_of(input).len()),
{
    let mut filters: Vec<Filter<'s>> = Vec::new();
    let mut cur = pos;
    let ghost bytes = bytes_of(input);
    proof {
        lemma_model_empty(filters);
    }
    loop
        invariant
            bytes == bytes_of(input),
            pos <= cur <= bytes.len(),
            filters.len() == filters.model().len(),
            spec_filter_list(bytes, pos as int, Seq::empty()) == spec_filter_list(
                bytes,
                cur as int,
                filters.model(),
            ),
        decreases bytes.len() - cur,
    {
        proof {
            reveal(spec_filter_list);
        }
        let start = if filters.len() == 0 {
            cur
        } else {
            match spbrc(input, cur) {
                Ok((next, _)) => next,
                Err(e) => {
                    if e.fatal {
                        return Err(e);
                    }
                    return Ok((cur, filters));
                },
            }
        };
        match filter(input, start) {
            Ok((next, found)) => {
                let ghost before = filters;
                filters.push(found);
                proof {
                    lemma_model_push(before, filters, found);
                }
                cur = next;
            },
            Err(e) => {
                if e.fatal {
                    return Err(e);
                }
                return Ok((cur, filters));
            },
        }
    }
}

/// The prefix of an import, if there is one: `as`, whitespace, a name, and
/// optional whitespace.  None of these has a commit point, so where one of
/// them does not match there is no prefix.
pub open spec fn spec_import_prefix(bytes: Seq<u8>, pos: int) -> (int, Option<Seq<u8>>) {
    match spec_tag(bytes, pos, bytes_of("as")) {
        Parsed::Done { next: word, .. } => match spec_space(bytes, word, false) {
            Parsed::Done { next: start, .. } => match spec_identifier(bytes, start) {
                Parsed::Done { next: end, value } => (blank_end(bytes, end), Some(value)),
                _ => (pos, None),
            },
            _ => (pos, None),
        },
        _ => (pos, None),
    }
}

/// Parse the prefix of an import, if there is one.
fn import_prefix<'s>(input: &'s str, pos: usize) -> (r: (usize, Option<&'s str>))
    requires
        pos <= bytes_of(input).len(),
    ensures
        (r.0 as int, r.1.model()) == spec_import_prefix(bytes_of(input), pos as int),
        pos <= r.0 <= bytes_of(input).len(),
{
    let word = match tag(input, pos, "as") {
        Ok((word, _)) => word,
        Err(_) => {
            return (pos, None);
        },
    };
    let start = match space(input, word, false) {
        Ok((start, _)) => start,
        Err(_) => {
            return (pos, None);
        },
    };
    match identifier(input, start) {
        Ok((end, name)) => (skip_blank(input, end), Some(name)),
        Err(_) => (pos, None),
    }
}

/// What follows `import` and whitespace: the target, an optional prefix,
/// the filters, and `;`.
#[verifier::opaque]
pub open spec fn spec_import_tail(bytes: Seq<u8>, pos: int) -> Parsed<ImportM> {
    match spec_string(bytes, pos) {
        Parsed::Done { next, value: target } => match spec_import_filters(
            bytes,
            spec_import_prefix(bytes, blank_end(bytes, next)).0,
        ) {
            Parsed::Done { next: last, value: filters } => match spec_byte(
                bytes,
                last,
                ';' as u8,
            ) {
                Parsed::Done { next: end, .. } => Parsed::Done {
                    next: end,
                    value: ImportM {
                        target,
                        prefix: spec_import_prefix(bytes, blank_end(bytes, next)).1,
                        filters,
                    },
                },
                other => other.carry(),
            },
            other => other.carry(),
        },
        other => other.carry(),
    }
}

/// An import: `import`, whitespace, and what follows.  After the whitespace
/// every failure is committed.
#[verifier::opaque]
pub open spec fn spec_import(bytes: Seq<u8>, pos: int) -> Parsed<ImportM> {
    (match spec_tag(bytes, pos, bytes_of("import")) {
        Parsed::Done { next: word, .. } => match spec_space(bytes, word, false) {
            Parsed::Done { next: start, .. } => spec_import_tail(bytes, start).committed(),
            other => other.carry(),
        },
        other => other.carry(),
    }).within(Label::Import, pos)
}

/// What follows `export` and whitespace: the target, the filters, and `;`.
#[verifier::opaque]
pub open spec fn spec_export_tail(bytes: Seq<u8>, pos: int) -> Parsed<ExportM> {
    match spec_string(bytes, pos) {
        Parsed::Done { next, value: target } => match spec_import_filters(
            bytes,
            blank_end(bytes, next),
        ) {
            Parsed::Done { next: last, value: filters } => match spec_byte(
                bytes,
                last,
                ';' as u8,
            ) {
                Parsed::Done { next: end, .. } => Parsed::Done {
                    next: end,
                    value: ExportM { target, filters },
                },
                other => other.carry(),
            },
            other => other.carry(),
        },
        other => other.carry(),
    }
}

/// An export: `export`, whitespace, and what follows.  After the whitespace
/// every failure is committed.
#[verifier::opaque]
pub open spec fn spec_export(bytes: Seq<u8>, pos: int) -> Parsed<ExportM> {
    (match spec_tag(bytes, pos, bytes_of("export")) {
        Parsed::Done { next: word, .. } => match spec_space(bytes, word, false) {
            Parsed::Done { next: start, .. } => spec_export_tail(bytes, start).committed(),
            other => other.carry(),
        },
        other => other.carry(),
    }).within(Label::Export, pos)
}

/// What follows `part` and whitespace: the path and `;`.
#[verifier::opaque]
pub open spec fn spec_part_tail(bytes: Seq<u8>, pos: int) -> Parsed<Seq<u8>> {
    match spec_string(bytes, pos) {
        Parsed::Done { next, value } => match spec_byte(bytes, blank_end(bytes, next), ';' as u8) {
            Parsed::Done { next: end, .. } => Parsed::Done { next: end, value },
            other => other.carry(),
        },
        other => other.carry(),
    }
}

/// A part: `part`, whitespace, the path and `;`.  After the whitespace
/// every failure is committed.
#[verifier::opaque]
pub open spec fn spec_part(bytes: Seq<u8>, pos: int) -> Parsed<Seq<u8>> {
    (match spec_tag(bytes, pos, bytes_of("part")) {
        Parsed::Done { next: word, .. } => match spec_space(bytes, word, false) {
            Parsed::Done { next: start, .. } => spec_part_tail(bytes, start).committed(),
            other => other.carry(),
        },
        other => other.carry(),
    }).within(Label::Part, pos)
}

/// What follows `part of` and whitespace: the path or the name of the
/// library, and `;`.
#[verifier::opaque]
pub open spec fn spec_part_of_tail(bytes: Seq<u8>, pos: int) -> Parsed<PartOfM> {
    match (match spec_string(bytes, pos) {
        Parsed::Done { next, value } => Parsed::Done { next, value: PartOfM::LibPath(value) },
        Parsed::Fault { trace } => Parsed::Fault { trace },
        Parsed::Miss { .. } => match spec_identifier(bytes, pos) {
            Parsed::Done { next, value } => Parsed::Done { next, value: PartOfM::LibName(value) },
            other => other.carry(),
        },
    }) {
        Parsed::Done { next, value } => match spec_byte(bytes, blank_end(bytes, next), ';' as u8) {
            Parsed::Done { next: end, .. } => Parsed::Done { next: end, value },
            other => other.carry(),
        },
        other => other,
    }
}

/// A part-of directive: `part`, whitespace, `of`, whitespace, the library
/// and `;`.  After the second whitespace every failure is committed.
#[verifier::opaque]
pub open spec fn spec_part_of(bytes: Seq<u8>, pos: int) -> Parsed<PartOfM> {
    (match spec_tag(bytes, pos, bytes_of("part")) {
        Parsed::Done { next: word, .. } => match spec_space(bytes, word, false) {
            Parsed::Done { next: of, .. } => match spec_tag(bytes, of, bytes_of("of")) {
                Parsed::Done { next: after, .. } => match spec_space(bytes, after, false) {
                    Parsed::Done { next: start, .. } => spec_part_of_tail(bytes, start).committed(),
                    other => other.carry(),
                },
                other => other.carry(),
            },
            other => other.carry(),
        },
        other => other.carry(),
    }).within(Label::PartOf, pos)
}

/// A directive: an export, an import, a part-of directive or a part, tried
/// in this order.
#[verifier::opaque]
pub open spec fn spec_directive(bytes: Seq<u8>, pos: int) -> Parsed<DirectiveM> {
    (match spec_export(bytes, pos) {
        Parsed::Done { next, value } => Parsed::Done { next, value: DirectiveM::Export(value) },
        Parsed::Fault { trace } => Parsed::Fault { trace },
        Parsed::Miss { .. } => match spec_import(bytes, pos) {
            Parsed::Done { next, value } => Parsed::Done { next, value: DirectiveM::Import(value) },
            Parsed::Fault { trace } => Parsed::Fault { trace },
            Parsed::Miss { .. } => match spec_part_of(bytes, pos) {
                Parsed::Done { next, value } => Parsed::Done {
                    next,
                    value: DirectiveM::PartOf(value),
                },
                Parsed::Fault { trace } => Parsed::Fault { trace },
                Parsed::Miss { .. } => match spec_part(bytes, pos) {
                    Parsed::Done { next, value } => Parsed::Done {
                        next,
                        value: DirectiveM::Part(value),
                    },
                    other => other.carry(),
                },
            },
        },
    }).within(Label::Directive, pos)
}

fn import_tail<'s>(input: &'s str, pos: usize) -> (r: PResult<Import<'s>>)
    requires
        pos <= bytes_of(input).len(),
    ensures
        outcome(r) == spec_import_tail(bytes_of(input), pos as int),
        advances(r, pos, bytes_of(input).len()),
{
    proof {
        reveal(spec_import_tail);
    }
    let (next, target) = string(input, pos)?;
    let (after, prefix) = import_prefix(input, skip_blank(input, next));
    let (last, filters) = import_filters(input, after)?;
    let (end, _) = byte(input, last, ';' as u8)?;
    Ok((end, Import { target, prefix, filters }))
}

fn import_body<'s>(input: &'s str, pos: usize) -> (r: PResult<Import<'s>>)
    requires
        pos <= bytes_of(input).len(),
    ensures
        outcome(r).within(Label::Import, pos as int) == spec_import(bytes_of(input), pos as int),
        advances(r, pos, bytes_of(input).len()),
{
    proof {
        reveal(spec_import);
    }
    let (word, _) = tag(input, pos, "import")?;
    let (start, _) = space(input, word, false)?;
    cut(import_tail(input, start))
}

/// Parse an import.
pub fn import<'s>(input: &'s str, pos: usize) -> (r: PResult<Import<'s>>)
    requires
        pos <= bytes_of(input).len(),
    ensures
        outcome(r) == spec_import(bytes_of(input), pos as int),
        advances(r, pos, bytes_of(input).len()),
{
    framed(import_body(input, pos), Label::Import, pos)
}

fn export_tail<'s>(input: &'s str, pos: usize) -> (r: PResult<Export<'s>>)
    requires
        pos <= bytes_of(input).len(),
    ensures
        outcome(r) == spec_export_tail(bytes_of(input), pos as int),
        advances(r, pos, bytes_of(input).len()),
{
    proof {
        reveal(spec_export_tail);
    }
    let (next, target) = string(input, pos)?;
    let (last, filters) = import_filters(input, skip_blank(input, next))?;
    let (end, _) = byte(input, last, ';' as u8)?;
    Ok((end, Export { target, filters }))
}

fn export_body<'s>(input: &'s str, pos: usize) -> (r: PResult<Export<'s>>)
    requires
        pos <= bytes_of(input).len(),
    ensures
        outcome(r).within(Label::Export, pos as int) == spec_export(bytes_of(input), pos as int),
        advances(r, pos, bytes_of(input).len()),
{
    proof {
        reveal(spec_export);
    }
    let (word, _) = tag(input, pos, "export")?;
    let (start, _) = space(input, word, false)?;
    cut(export_tail(input, start))
}

/// Parse an export.
pub fn export<'s>(input: &'s str, pos: usize) -> (r: PResult<Export<'s>>)
    requires
        pos <= bytes_of(input).len(),
    ensures
        outcome(r) == spec_export(bytes_of(input), pos as int),
        advances(r, pos, bytes_of(input).len()),
{
    framed(export_body(input, pos), Label::Export, pos)
}

fn part_tail<'s>(input: &'s str, pos: usize) -> (r: PResult<&'s str>)
    requires
        pos <= bytes_of(input).len(),
    ensures
        outcome(r) == spec_part_tail(bytes_of(input), pos as int),
        advances(r, pos, bytes_of(input).len()),
{
    proof {
        reveal(spec_part_tail);
    }
    let (next, path) = string(input, pos)?;
    let (end, _) = byte(input, skip_blank(input, next), ';' as u8)?;
    Ok((end, path))
}

fn part_body<'s>(input: &'s str, pos: usize) -> (r: PResult<&'s str>)
    requires
        pos <= bytes_of(input).len(),
    ensures
        outcome(r).within(Label::Part, pos as int) == spec_part(bytes_of(input), pos as int),
        advances(r, pos, bytes_of(input).len()),
{
    proof {
        reveal(spec_part);
    }
    let (word, _) = tag(input, pos, "part")?;
    let (start, _) = space(input, word, false)?;
    cut(part_tail(input, start))
}

/// Parse a part.
pub fn part<'s>(input: &'s str, pos: usize) -> (r: PResult<&'s str>)
    requires
        pos <= bytes_of(input).len(),
    ensures
        outcome(r) == spec_part(bytes_of(input), pos as int),
        advances(r, pos, bytes_of(input).len()),
{
    framed(part_body(input, pos), Label::Part, pos)
}

fn part_of_tail<'s>(input: &'s str, pos: usize) -> (r: PResult<PartOf<'s>>)
    requires
        pos <= bytes_of(input).len(),
    ensures
        outcome(r) == spec_part_of_tail(bytes_of(input), pos as int),
        advances(r, pos, bytes_of(input).len()),
{
    proof {
        reveal(spec_part_of_tail);
    }
    let (next, library) = match string(input, pos) {
        Ok((next, path)) => (next, PartOf::LibPath(path)),
        Err(e) => {
            if e.fatal {
                return Err(e);
            }
            let (next, name) = identifier(input, pos)?;
            (next, PartOf::LibName(name))
        },
    };
    let (end, _) = byte(input, skip_blank(input, next), ';' as u8)?;
    Ok((end, library))
}

fn part_of_body<'s>(input: &'s str, pos: usize) -> (r: PResult<PartOf<'s>>)
    requires
        pos <= bytes_of(input).len(),
    ensures
        outcome(r).within(Label::PartOf, pos as int) == spec_part_of(bytes_of(input), pos as int),
        advances(r, pos, bytes_of(input).len()),
{
    proof {
        reveal(spec_part_of);
    }
    let (word, _) = tag(input, pos, "part")?;
    let (of, _) = space(input, word, false)?;
    let (after, _) = tag(input, of, "of")?;
    let (start, _) = space(input, after, false)?;
    cut(part_of_tail(input, start))
}

/// Parse a part-of directive.
pub fn part_of<'s>(input: &'s str, pos: usize) -> (r: PResult<PartOf<'s>>)
    requires
        pos <= bytes_of(input).len(),
    ensures
        outcome(r) == spec_part_of(bytes_of(input), pos as int),
        advances(r, pos, bytes_of(input).len()),
{
    framed(part_of_body(input, pos), Label::PartOf, pos)
}

fn directive_body<'s>(input: &'s str, pos: usize) -> (r: PResult<Directive<'s>>)
    requires
        pos <= bytes_of(input).len(),
    ensures
        outcome(r).within(Label::Directive, pos as int) == spec_directive(
            bytes_of(input),
            pos as int,
        ),
        advances(r, pos, bytes_of(input).len()),
{
    proof {
        reveal(spec_directive);
    }
    match export(input, pos) {
        Ok((next, value)) => {
            return Ok((next, Directive::Export(value)));
        },
        Err(e) => if e.fatal {
            return Err(e);
        },
    }
    match import(input, pos) {
        Ok((next, value)) => {
            return Ok((next, Directive::Import(value)));
        },
        Err(e) => if e.fatal {
            return Err(e);
        },
    }
    match part_of(input, pos) {
        Ok((next, value)) => {
            return Ok((next, Directive::PartOf(value)));
        },
        Err(e) => if e.fatal {
            return Err(e);
        },
    }
    let (next, value) = part(input, pos)?;
    Ok((next, Directive::Part(value)))
}

/// Parse a directive.
pub fn directive<'s>(input: &'s str, pos: usize) -> (r: PResult<Directive<'s>>)
    requires
        pos <= bytes_of(input).len(),
    ensures
        outcome(r) == spec_directive(bytes_of(input), pos as int),
        advances(r, pos, bytes_of(input).len()),
{
    framed(directive_body(input, pos), Label::Directive, pos)
}

} // verus!
