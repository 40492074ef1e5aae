//! Calls and their arguments.

use vstd::prelude::*;
use vstd::string::*;
use crate::dart::expr::{Expr, ExprM};
use crate::dart::ty::{NotFuncType, NotFuncTypeM, func_call_model};
use crate::model::Model;

verus! {

/// A call of a function or a constructor.
#[derive(PartialEq, Eq, Debug)]
pub struct FuncCall<'s> {
    pub ident: NotFuncType<'s>,
    pub args: Vec<FuncArg<'s>>,
}

/// An argument of a call, positional or named.
#[derive(PartialEq, Eq, Debug)]
pub struct FuncArg<'s> {
    pub name: Option<&'s str>,
    pub value: Expr<'s>,
}

/// The model of a call.
pub struct FuncCallM {
    pub ident: NotFuncTypeM,
    pub args: Seq<FuncArgM>,
}

/// The model of an argument.
pub struct FuncArgM {
    pub name: Option<Seq<u8>>,
    pub value: ExprM,
}

impl<'s> Model for FuncArg<'s> {
    type M = FuncArgM;

    open spec fn model(&self) -> FuncArgM {
        FuncArgM { name: self.name.model(), value: self.value.model() }
    }
}

impl<'s> Model for FuncCall<'s> {
    type M = FuncCallM;

    open spec fn model(&self) -> FuncCallM {
        func_call_model(*self)
    }
}

} // verus!
