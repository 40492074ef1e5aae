//! The syntax tree.
//!
//! Every node borrows what it holds of the source from the input: the input
//! must outlive the tree.

pub mod annotation;
pub mod bits;
pub mod class;
pub mod comment;
pub mod directive;
pub mod enum_ty;
pub mod expr;
pub mod extension;
pub mod func_call;
pub mod func_like;
pub mod maybe_required;
pub mod meta;
pub mod ty;
pub mod type_param;
pub mod typedef;
pub mod var;

pub use annotation::Annotation;
pub use class::Class;
pub use comment::Comment;
pub use directive::Directive;
pub use enum_ty::EnumTy;
pub use expr::Expr;
pub use extension::Extension;
pub use func_call::FuncCall;
pub use func_like::FuncLike;
pub use maybe_required::MaybeRequired;
pub use meta::WithMeta;
pub use ty::NotFuncType;
pub use type_param::TypeParam;
pub use typedef::TypeDef;
pub use var::Var;

use vstd::prelude::*;
use crate::dart::class::ClassM;
use crate::dart::directive::DirectiveM;
use crate::dart::enum_ty::EnumTyM;
use crate::dart::extension::ExtensionM;
use crate::dart::func_like::FuncLikeM;
use crate::dart::typedef::TypeDefM;
use crate::dart::var::VarM;
use crate::model::Model;

verus! {

/// A top-level item.
#[derive(PartialEq, Eq, Debug)]
pub enum Dart<'s> {
    Directive(Directive<'s>),
    TypeDef(TypeDef<'s>),
    Var(Var<'s>),
    FuncLike(FuncLike<'s>),
    Class(Class<'s>),
    Enum(EnumTy<'s>),
    Extension(Extension<'s>),
}

/// The model of a top-level item.
pub enum DartM {
    Directive(DirectiveM),
    TypeDef(TypeDefM),
    Var(VarM),
    FuncLike(FuncLikeM),
    Class(ClassM),
    Enum(EnumTyM),
    Extension(ExtensionM),
}

impl<'s> Model for Dart<'s> {
    type M = DartM;

    open spec fn model(&self) -> DartM {
        match self {
            Dart::Directive(d) => DartM::Directive(d.model()),
            Dart::TypeDef(t) => DartM::TypeDef(t.model()),
            Dart::Var(v) => DartM::Var(v.model()),
            Dart::FuncLike(f) => DartM::FuncLike(f.model()),
            Dart::Class(c) => DartM::Class(c.model()),
            Dart::Enum(e) => DartM::Enum(e.model()),
            Dart::Extension(e) => DartM::Extension(e.model()),
        }
    }
}

} // verus!
