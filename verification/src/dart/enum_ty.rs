//! Enums.

use vstd::prelude::*;
use crate::dart::class::{ClassMember, ClassMemberM};
use crate::dart::func_call::{FuncArg, FuncArgM};
use crate::dart::meta::{WithMeta, WithMetaM};
use crate::dart::ty::{NotFuncType, NotFuncTypeM};
use crate::model::Model;

verus! {

/// An enum: its values and, after a `;`, its members.
#[derive(PartialEq, Eq, Debug)]
pub struct EnumTy<'s> {
    pub name: &'s str,
    pub implements: Vec<NotFuncType<'s>>,
    pub values: Vec<WithMeta<'s, EnumValue<'s>>>,
    pub members: Vec<WithMeta<'s, ClassMember<'s>>>,
}

/// A value of an enum, with the arguments of its constructor call.
#[derive(PartialEq, Eq, Debug)]
pub struct EnumValue<'s> {
    pub name: &'s str,
    pub args: Vec<FuncArg<'s>>,
}

/// The model of an enum.
pub struct EnumTyM {
    pub name: Seq<u8>,
    pub implements: Seq<NotFuncTypeM>,
    pub values: Seq<WithMetaM<EnumValueM>>,
    pub members: Seq<WithMetaM<ClassMemberM>>,
}

/// The model of a value of an enum.
pub struct EnumValueM {
    pub name: Seq<u8>,
    pub args: Seq<FuncArgM>,
}

impl<'s> Model for EnumValue<'s> {
    type M = EnumValueM;

    open spec fn model(&self) -> EnumValueM {
        EnumValueM { name: self.name.model(), args: self.args.model() }
    }
}

impl<'s> Model for EnumTy<'s> {
    type M = EnumTyM;

    open spec fn model(&self) -> EnumTyM {
        EnumTyM {
            name: self.name.model(),
            implements: self.implements.model(),
            values: self.values.model(),
            members: self.members.model(),
        }
    }
}

} // verus!
