//! Types, and the models of types and of metadata.

use vstd::prelude::*;
use vstd::string::*;
use crate::dart::annotation::{Annotation, AnnotationM};
use crate::dart::func_call::{FuncCall, FuncCallM};
use crate::dart::func_like::{FuncParams, FuncParamsExtra, FuncParamsExtraM, FuncParamsM};
use crate::dart::maybe_required::{MaybeRequired, MaybeRequiredM};
use crate::dart::meta::{Meta, MetaM, WithMeta, WithMetaM};
use crate::dart::type_param::{TypeParam, TypeParamM};
use crate::model::Model;

verus! {

/// A type.
#[derive(PartialEq, Eq, Debug)]
pub enum Type<'s> {
    NotFunc(NotFuncType<'s>),
    Func(Box<FuncType<'s>>),
    Tuple(Tuple<'s>),
}

impl<'s> Type<'s> {
    /// The function type `func_type` as a type.
    pub fn func(func_type: FuncType<'s>) -> (r: Self)
        ensures
            r == Type::Func(Box::new(func_type)),
    {
        Type::Func(Box::new(func_type))
    }
}

/// A named type with type arguments and a nullability indicator.
#[derive(PartialEq, Eq, Debug)]
pub struct NotFuncType<'s> {
    pub name: &'s str,
    pub type_args: Vec<Type<'s>>,
    pub is_nullable: bool,
}

impl<'s> NotFuncType<'s> {
    /// The type `name`, without type arguments, not nullable.
    pub fn name(name: &'s str) -> (r: Self)
        ensures
            r.name == name,
            r.type_args@ == Seq::<Type<'s>>::empty(),
            !r.is_nullable,
    {
        Self { name, type_args: Vec::new(), is_nullable: false }
    }

    /// The type `void`.
    pub fn void() -> (r: Self)
        ensures
            r.name@ == "void"@,
            r.type_args@ == Seq::<Type<'s>>::empty(),
            !r.is_nullable,
    {
        Self { name: "void", type_args: Vec::new(), is_nullable: false }
    }

    /// The type `dynamic`.
    pub fn dynamic() -> (r: Self)
        ensures
            r.name@ == "dynamic"@,
            r.type_args@ == Seq::<Type<'s>>::empty(),
            !r.is_nullable,
    {
        Self { name: "dynamic", type_args: Vec::new(), is_nullable: false }
    }
}

/// A function type.
#[derive(PartialEq, Eq, Debug)]
pub struct FuncType<'s> {
    pub return_type: Type<'s>,
    pub type_params: Vec<TypeParam<'s>>,
    pub params: FuncParams<'s, FuncTypeParamPos<'s>, FuncTypeParamNamed<'s>>,
    pub is_nullable: bool,
}

/// A positional parameter in a function type.
#[derive(PartialEq, Eq, Debug)]
pub struct FuncTypeParamPos<'s> {
    pub param_type: Type<'s>,
    pub name: Option<&'s str>,
}

/// A named parameter in a function type.
#[derive(PartialEq, Eq, Debug)]
pub struct FuncTypeParamNamed<'s> {
    pub param_type: Type<'s>,
    pub name: &'s str,
}

/// A record type.
#[derive(PartialEq, Eq, Debug)]
pub struct Tuple<'s> {
    /// A name can be specified for a positional field, but has no meaning
    /// whatsoever.
    pub params_pos: Vec<FuncTypeParamPos<'s>>,
    pub params_named: Vec<FuncTypeParamNamed<'s>>,
    pub is_nullable: bool,
}

/// The model of a type.
pub enum TypeM {
    NotFunc(NotFuncTypeM),
    Func(Box<FuncTypeM>),
    Tuple(TupleM),
}

/// The model of a named type.
pub struct NotFuncTypeM {
    pub name: Seq<u8>,
    pub type_args: Seq<TypeM>,
    pub is_nullable: bool,
}

/// The model of a function type.
pub struct FuncTypeM {
    pub return_type: TypeM,
    pub type_params: Seq<TypeParamM>,
    pub params: FuncParamsM<FuncTypeParamPosM, FuncTypeParamNamedM>,
    pub is_nullable: bool,
}

/// The model of a positional parameter in a function type.
pub struct FuncTypeParamPosM {
    pub param_type: TypeM,
    pub name: Option<Seq<u8>>,
}

/// The model of a named parameter in a function type.
pub struct FuncTypeParamNamedM {
    pub param_type: TypeM,
    pub name: Seq<u8>,
}

/// The model of a record type.
pub struct TupleM {
    pub params_pos: Seq<FuncTypeParamPosM>,
    pub params_named: Seq<FuncTypeParamNamedM>,
    pub is_nullable: bool,
}

// Types hold metadata (on the parameters of function types), and metadata
// holds types (in the callee of an annotation).  The models of all of them are
// therefore defined together, by recursion on the value.

/// The model of a type.
pub open spec fn type_model(t: Type) -> TypeM
    decreases t,
{
    match t {
        Type::NotFunc(n) => TypeM::NotFunc(not_func_model(n)),
        Type::Func(f) => TypeM::Func(Box::new(func_type_model(*f))),
        Type::Tuple(t) => TypeM::Tuple(tuple_model(t)),
    }
}

/// The models of the types of a vector.
pub open spec fn types_model(v: Vec<Type>) -> Seq<TypeM>
    decreases v,
{
    Seq::new(
        v.len() as nat,
        |i: int|
            if 0 <= i < v.len() {
                type_model(v[i])
            } else {
                arbitrary()
            },
    )
}

/// The model of a named type.
pub open spec fn not_func_model(n: NotFuncType) -> NotFuncTypeM
    decreases n,
{
    NotFuncTypeM {
        name: n.name.spec_bytes(),
        type_args: types_model(n.type_args),
        is_nullable: n.is_nullable,
    }
}

/// The model of a function type.
pub open spec fn func_type_model(f: FuncType) -> FuncTypeM
    decreases f,
{
    FuncTypeM {
        return_type: type_model(f.return_type),
        type_params: type_params_model(f.type_params),
        params: signature_model(f.params),
        is_nullable: f.is_nullable,
    }
}

/// The model of a record type.
pub open spec fn tuple_model(t: Tuple) -> TupleM
    decreases t,
{
    TupleM {
        params_pos: Seq::new(
            t.params_pos.len() as nat,
            |i: int|
                if 0 <= i < t.params_pos.len() {
                    pos_model(t.params_pos[i])
                } else {
                    arbitrary()
                },
        ),
        params_named: Seq::new(
            t.params_named.len() as nat,
            |i: int|
                if 0 <= i < t.params_named.len() {
                    named_model(t.params_named[i])
                } else {
                    arbitrary()
                },
        ),
        is_nullable: t.is_nullable,
    }
}

/// The model of a type parameter.
pub open spec fn type_param_model(p: TypeParam) -> TypeParamM
    decreases p,
{
    TypeParamM {
        name: p.name.spec_bytes(),
        extends: match p.extends {
            Some(t) => Some(type_model(t)),
            None => None,
        },
    }
}

/// The models of the type parameters of a vector.
pub open spec fn type_params_model(v: Vec<TypeParam>) -> Seq<TypeParamM>
    decreases v,
{
    Seq::new(
        v.len() as nat,
        |i: int|
            if 0 <= i < v.len() {
                type_param_model(v[i])
            } else {
                arbitrary()
            },
    )
}

/// The model of a positional parameter of a function type.
pub open spec fn pos_model(p: FuncTypeParamPos) -> FuncTypeParamPosM
    decreases p,
{
    FuncTypeParamPosM {
        param_type: type_model(p.param_type),
        name: match p.name {
            Some(name) => Some(name.spec_bytes()),
            None => None,
        },
    }
}

/// The model of a named parameter of a function type.
pub open spec fn named_model(p: FuncTypeParamNamed) -> FuncTypeParamNamedM
    decreases p,
{
    FuncTypeParamNamedM { param_type: type_model(p.param_type), name: p.name.spec_bytes() }
}

/// The models of the positional parameters of a vector, each with its
/// metadata.
pub open spec fn pos_list_model(v: Vec<WithMeta<FuncTypeParamPos>>) -> Seq<
    WithMetaM<FuncTypeParamPosM>,
>
    decreases v,
{
    Seq::new(
        v.len() as nat,
        |i: int|
            if 0 <= i < v.len() {
                WithMetaM { meta: metas_model(v[i].meta), value: pos_model(v[i].value) }
            } else {
                arbitrary()
            },
    )
}

/// The models of the named parameters of a vector, each with its metadata.
pub open spec fn named_list_model(v: Vec<WithMeta<MaybeRequired<FuncTypeParamNamed>>>) -> Seq<
    WithMetaM<MaybeRequiredM<FuncTypeParamNamedM>>,
>
    decreases v,
{
    Seq::new(
        v.len() as nat,
        |i: int|
            if 0 <= i < v.len() {
                WithMetaM {
                    meta: metas_model(v[i].meta),
                    value: MaybeRequiredM {
                        is_required: v[i].value.is_required,
                        value: named_model(v[i].value.value),
                    },
                }
            } else {
                arbitrary()
            },
    )
}

/// The model of the parameters of a function type.
pub open spec fn signature_model(
    p: FuncParams<FuncTypeParamPos, FuncTypeParamNamed>,
) -> FuncParamsM<FuncTypeParamPosM, FuncTypeParamNamedM>
    decreases p,
{
    FuncParamsM {
        positional_req: pos_list_model(p.positional_req),
        extra: match p.extra {
            Some(FuncParamsExtra::PositionalOpt(v)) => Some(
                FuncParamsExtraM::PositionalOpt(pos_list_model(v)),
            ),
            Some(FuncParamsExtra::Named(v)) => Some(FuncParamsExtraM::Named(named_list_model(v))),
            None => None,
        },
    }
}

/// The model of an item of metadata.
pub open spec fn meta_model(m: Meta) -> MetaM
    decreases m,
{
    match m {
        Meta::Annotation(a) => MetaM::Annotation(annotation_model(a)),
        Meta::Comment(c) => MetaM::Comment(c.model()),
    }
}

/// The models of the items of metadata of a vector.
pub open spec fn metas_model(v: Vec<Meta>) -> Seq<MetaM>
    decreases v,
{
    Seq::new(
        v.len() as nat,
        |i: int|
            if 0 <= i < v.len() {
                meta_model(v[i])
            } else {
                arbitrary()
            },
    )
}

/// The model of an annotation.
pub open spec fn annotation_model(a: Annotation) -> AnnotationM
    decreases a,
{
    match a {
        Annotation::Ident(name) => AnnotationM::Ident(name.spec_bytes()),
        Annotation::FuncCall(call) => AnnotationM::FuncCall(func_call_model(call)),
    }
}

/// The model of a call.
pub open spec fn func_call_model(c: FuncCall) -> FuncCallM
    decreases c,
{
    FuncCallM { ident: not_func_model(c.ident), args: c.args.model() }
}

impl<'s> Model for Type<'s> {
    type M = TypeM;

    open spec fn model(&self) -> TypeM {
        type_model(*self)
    }
}

impl<'s> Model for NotFuncType<'s> {
    type M = NotFuncTypeM;

    open spec fn model(&self) -> NotFuncTypeM {
        not_func_model(*self)
    }
}

impl<'s> Model for FuncType<'s> {
    type M = FuncTypeM;

    open spec fn model(&self) -> FuncTypeM {
        func_type_model(*self)
    }
}

impl<'s> Model for FuncTypeParamPos<'s> {
    type M = FuncTypeParamPosM;

    open spec fn model(&self) -> FuncTypeParamPosM {
        pos_model(*self)
    }
}

impl<'s> Model for FuncTypeParamNamed<'s> {
    type M = FuncTypeParamNamedM;

    open spec fn model(&self) -> FuncTypeParamNamedM {
        named_model(*self)
    }
}

impl<'s> Model for Tuple<'s> {
    type M = TupleM;

    open spec fn model(&self) -> TupleM {
        tuple_model(*self)
    }
}

/// The model of a vector of types is the sequence of their models.
pub broadcast proof fn lemma_types_model(v: Vec<Type>)
    ensures
        #[trigger] types_model(v) == v.model(),
{
    assert(types_model(v) =~= v.model());
}

/// The model of a vector of type parameters is the sequence of their models.
pub broadcast proof fn lemma_type_params_model(v: Vec<TypeParam>)
    ensures
        #[trigger] type_params_model(v) == v.model(),
{
    assert(type_params_model(v) =~= v.model());
}

/// The model of a vector of metadata is the sequence of their models.
pub broadcast proof fn lemma_metas_model(v: Vec<Meta>)
    ensures
        #[trigger] metas_model(v) == v.model(),
{
    assert(metas_model(v) =~= v.model());
}

/// The model of a parameter list of a function type, field by field.
pub broadcast proof fn lemma_signature_model(p: FuncParams<FuncTypeParamPos, FuncTypeParamNamed>)
    ensures
        #[trigger] signature_model(p) == p.model(),
{
    assert(pos_list_model(p.positional_req) =~= p.positional_req.model());
    match p.extra {
        Some(FuncParamsExtra::PositionalOpt(v)) => {
            assert(pos_list_model(v) =~= v.model());
        },
        Some(FuncParamsExtra::Named(v)) => {
            assert(named_list_model(v) =~= v.model());
        },
        None => {},
    }
}

/// The model of a record type, field by field.
pub broadcast proof fn lemma_tuple_model(t: Tuple)
    ensures
        #[trigger] tuple_model(t) == (TupleM {
            params_pos: t.params_pos.model(),
            params_named: t.params_named.model(),
            is_nullable: t.is_nullable,
        }),
{
    assert(tuple_model(t).params_pos =~= t.params_pos.model());
    assert(tuple_model(t).params_named =~= t.params_named.model());
}

/// The model of a vector is made of the models of what it holds.
pub broadcast group group_models {
    lemma_types_model,
    lemma_type_params_model,
    lemma_metas_model,
    lemma_signature_model,
    lemma_tuple_model,
}

} // verus!
