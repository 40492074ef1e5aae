//! Type aliases.

use vstd::prelude::*;
use crate::dart::ty::{Type, TypeM};
use crate::dart::type_param::{TypeParam, TypeParamM};
use crate::model::Model;

verus! {

/// A type alias.
#[derive(PartialEq, Eq, Debug)]
pub struct TypeDef<'s> {
    pub name: &'s str,
    pub type_params: Vec<TypeParam<'s>>,
    pub target: Type<'s>,
}

/// The model of a type alias.
pub struct TypeDefM {
    pub name: Seq<u8>,
    pub type_params: Seq<TypeParamM>,
    pub target: TypeM,
}

impl<'s> Model for TypeDef<'s> {
    type M = TypeDefM;

    open spec fn model(&self) -> TypeDefM {
        TypeDefM {
            name: self.name.model(),
            type_params: self.type_params.model(),
            target: self.target.model(),
        }
    }
}

} // verus!
