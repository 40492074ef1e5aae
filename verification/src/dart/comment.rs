//! Comments.

use vstd::prelude::*;
use vstd::string::*;
use crate::model::Model;

verus! {

/// A comment, with its delimiters.
#[derive(PartialEq, Eq, Debug)]
pub enum Comment<'s> {
    /// From `//` to the end of the line, the line break included.
    SingleLine(&'s str),
    /// From `/*` to the matching `*/`.
    MultiLine(&'s str),
}

/// The model of a comment.
pub enum CommentM {
    SingleLine(Seq<u8>),
    MultiLine(Seq<u8>),
}

impl<'s> Model for Comment<'s> {
    type M = CommentM;

    open spec fn model(&self) -> CommentM {
        match self {
            Comment::SingleLine(text) => CommentM::SingleLine(text.spec_bytes()),
            Comment::MultiLine(text) => CommentM::MultiLine(text.spec_bytes()),
        }
    }
}

} // verus!
