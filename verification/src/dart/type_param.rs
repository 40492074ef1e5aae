//! Type parameters.

use vstd::prelude::*;
use crate::dart::ty::{Type, TypeM, type_param_model};
use crate::model::Model;

verus! {

/// A type parameter: a name and an optional upper bound.
#[derive(PartialEq, Eq, Debug)]
pub struct TypeParam<'s> {
    pub name: &'s str,
    pub extends: Option<Type<'s>>,
}

/// The model of a type parameter.
pub struct TypeParamM {
    pub name: Seq<u8>,
    pub extends: Option<TypeM>,
}

impl<'s> Model for TypeParam<'s> {
    type M = TypeParamM;

    open spec fn model(&self) -> TypeParamM {
        type_param_model(*self)
    }
}

} // verus!
