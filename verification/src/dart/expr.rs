//! Expressions.

use vstd::prelude::*;
use vstd::string::*;
use crate::model::Model;

verus! {

/// An expression.  Only a lone identifier and a lone string literal are told
/// apart; anything else is kept as the text it was written as.
#[derive(PartialEq, Eq, Debug)]
pub enum Expr<'s> {
    Verbatim(&'s str),
    Ident(&'s str),
    /// The body of a string literal, without its quotes.
    String(&'s str),
}

/// The model of an expression.
pub enum ExprM {
    Verbatim(Seq<u8>),
    Ident(Seq<u8>),
    String(Seq<u8>),
}

impl<'s> Model for Expr<'s> {
    type M = ExprM;

    open spec fn model(&self) -> ExprM {
        match self {
            Expr::Verbatim(text) => ExprM::Verbatim(text.spec_bytes()),
            Expr::Ident(text) => ExprM::Ident(text.spec_bytes()),
            Expr::String(text) => ExprM::String(text.spec_bytes()),
        }
    }
}

} // verus!
