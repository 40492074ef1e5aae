//! Annotations.

use vstd::prelude::*;
use crate::dart::func_call::{FuncCall, FuncCallM};
use crate::dart::ty::annotation_model;
use crate::model::Model;

verus! {

/// An annotation must precede a declaration.
#[derive(PartialEq, Eq, Debug)]
pub enum Annotation<'s> {
    Ident(&'s str),
    /// Type arguments are not allowed in annotations.
    FuncCall(FuncCall<'s>),
}

/// The model of an annotation.
pub enum AnnotationM {
    Ident(Seq<u8>),
    FuncCall(FuncCallM),
}

impl<'s> Model for Annotation<'s> {
    type M = AnnotationM;

    open spec fn model(&self) -> AnnotationM {
        annotation_model(*self)
    }
}

} // verus!
