//! Extensions.

use vstd::prelude::*;
use crate::dart::func_like::{FuncLike, FuncLikeM};
use crate::dart::meta::{WithMeta, WithMetaM};
use crate::dart::ty::{Type, TypeM};
use crate::dart::type_param::{TypeParam, TypeParamM};
use crate::dart::var::{Var, VarM};
use crate::model::Model;

verus! {

/// An extension of the type `on`.
#[derive(PartialEq, Eq, Debug)]
pub struct Extension<'s> {
    pub name: Option<&'s str>,
    pub type_params: Vec<TypeParam<'s>>,
    pub on: Type<'s>,
    pub body: Vec<WithMeta<'s, ExtensionMember<'s>>>,
}

/// A member of an extension.
#[derive(PartialEq, Eq, Debug)]
pub enum ExtensionMember<'s> {
    FuncLike(FuncLike<'s>),
    /// Only static fields can be declared in extensions.
    Var(Var<'s>),
}

/// The model of an extension.
pub struct ExtensionM {
    pub name: Option<Seq<u8>>,
    pub type_params: Seq<TypeParamM>,
    pub on: TypeM,
    pub body: Seq<WithMetaM<ExtensionMemberM>>,
}

/// The model of a member of an extension.
pub enum ExtensionMemberM {
    FuncLike(FuncLikeM),
    Var(VarM),
}

impl<'s> Model for ExtensionMember<'s> {
    type M = ExtensionMemberM;

    open spec fn model(&self) -> ExtensionMemberM {
        match self {
            ExtensionMember::FuncLike(f) => ExtensionMemberM::FuncLike(f.model()),
            ExtensionMember::Var(v) => ExtensionMemberM::Var(v.model()),
        }
    }
}

impl<'s> Model for Extension<'s> {
    type M = ExtensionM;

    open spec fn model(&self) -> ExtensionM {
        ExtensionM {
            name: self.name.model(),
            type_params: self.type_params.model(),
            on: self.on.model(),
            body: self.body.model(),
        }
    }
}

} // verus!
