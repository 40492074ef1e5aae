//! Identifiers.

use vstd::prelude::*;
use vstd::string::*;
use crate::parser::common::same_text;
use crate::parser::outcome::{Label, PResult, ParseError, Parsed, advances, framed, outcome};
use crate::parser::text::{
    Class, byte_at, bytes_of, clean_cut, cut_out, lemma_class_ascii, lemma_run, length, run_len,
    scan,
};

verus! {

/// Whether `word` is one of the words that cannot be an identifier.
///
/// `false`, `null`, `super`, `this`, `true` and `void` are not among them:
/// they are recognized as identifiers and told apart by their context.
pub open spec fn is_reserved(word: Seq<u8>) -> bool {
    ||| word == bytes_of("assert")
    ||| word == bytes_of("break")
    ||| word == bytes_of("case")
    ||| word == bytes_of("catch")
    ||| word == bytes_of("class")
    ||| word == bytes_of("const")
    ||| word == bytes_of("continue")
    ||| word == bytes_of("default")
    ||| word == bytes_of("do")
    ||| word == bytes_of("else")
    ||| word == bytes_of("enum")
    ||| word == bytes_of("extends")
    ||| word == bytes_of("finally")
    ||| word == bytes_of("for")
    ||| word == bytes_of("if")
    ||| word == bytes_of("in")
    ||| word == bytes_of("is")
    ||| word == bytes_of("new")
    ||| word == bytes_of("rethrow")
    ||| word == bytes_of("return")
    ||| word == bytes_of("switch")
    ||| word == bytes_of("throw")
    ||| word == bytes_of("try")
    ||| word == bytes_of("var")
    ||| word == bytes_of("when")
    ||| word == bytes_of("while")
    ||| word == bytes_of("with")
}

/// Whether `word` is one of the words that cannot be an identifier.
pub fn reserved(word: &str) -> (r: bool)
    ensures
        r == is_reserved(bytes_of(word)),
{
    same_text(word, "assert") || same_text(word, "break") || same_text(word, "case") || same_text(
        word,
        "catch",
    ) || same_text(word, "class") || same_text(word, "const") || same_text(word, "continue")
        || same_text(word, "default") || same_text(word, "do") || same_text(word, "else")
        || same_text(word, "enum") || same_text(word, "extends") || same_text(word, "finally")
        || same_text(word, "for") || same_text(word, "if") || same_text(word, "in") || same_text(
        word,
        "is",
    ) || same_text(word, "new") || same_text(word, "rethrow") || same_text(word, "return")
        || same_text(word, "switch") || same_text(word, "throw") || same_text(word, "try")
        || same_text(word, "var") || same_text(word, "when") || same_text(word, "while")
        || same_text(word, "with")
}

/// The offset after the longest run of identifier characters that starts at
/// `pos` with a letter, `_` or `$`; `pos` itself where there is none.
pub open spec fn word_end(bytes: Seq<u8>, pos: int) -> int {
    if 0 <= pos < bytes.len() && Class::IdentStart.has(bytes[pos]) {
        pos + 1 + run_len(bytes, pos + 1, Class::IdentPart, true)
    } else {
        pos
    }
}

/// An identifier: a letter, `_` or `$`, then letters, digits, `_`, `$` and
/// `.`, unless the whole is a reserved word.  It has no commit point: where
/// it fails, the failure is recoverable.
#[verifier::opaque]
pub open spec fn spec_identifier(bytes: Seq<u8>, pos: int) -> Parsed<Seq<u8>> {
    (if word_end(bytes, pos) == pos {
        Parsed::miss(pos, Label::OneOf)
    } else if is_reserved(bytes.subrange(pos, word_end(bytes, pos))) {
        Parsed::miss(pos, Label::Reserved)
    } else {
        Parsed::Done { next: word_end(bytes, pos), value: bytes.subrange(pos, word_end(bytes, pos)) }
    }).within(Label::Identifier, pos)
}

/// The offset after the word, if any, that starts at `pos`.
pub fn skip_word(input: &str, pos: usize) -> (end: usize)
    requires
        pos <= bytes_of(input).len(),
    ensures
        end == word_end(bytes_of(input), pos as int),
        pos <= end <= bytes_of(input).len(),
        end > pos ==> bytes_of(input)[pos as int] <= 0x7f && bytes_of(input)[end - 1] <= 0x7f,
{
    proof {
        reveal(run_len);
    }
    if pos < length(input) && Class::IdentStart.holds(byte_at(input, pos)) {
        let end = scan(input, pos + 1, Class::IdentPart, true);
        proof {
            lemma_run(bytes_of(input), pos + 1, Class::IdentPart, true);
            lemma_class_ascii(Class::IdentStart, bytes_of(input)[pos as int]);
            if end > pos + 1 {
                lemma_class_ascii(Class::IdentPart, bytes_of(input)[end - 1]);
            }
        }
        end
    } else {
        pos
    }
}

/// Parse an identifier.
pub fn identifier<'s>(input: &'s str, pos: usize) -> (r: PResult<&'s str>)
    requires
        pos <= bytes_of(input).len(),
    ensures
        outcome(r) == spec_identifier(bytes_of(input), pos as int),
        advances(r, pos, bytes_of(input).len()),
        r matches Ok((next, _)) ==> clean_cut(bytes_of(input), next as int),
{
    proof {
        reveal(spec_identifier);
    }
    let end = skip_word(input, pos);
    if end == pos {
        return framed(Err(ParseError::miss(pos, Label::OneOf)), Label::Identifier, pos);
    }
    let word = cut_out(input, pos, end);
    if reserved(word) {
        framed(Err(ParseError::miss(pos, Label::Reserved)), Label::Identifier, pos)
    } else {
        Ok((end, word))
    }
}

} // verus!
