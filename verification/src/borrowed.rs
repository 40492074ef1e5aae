//! Where the texts of a syntax tree come from.
//!
//! A tree holds no text of its own: each text that it holds is a part of
//! the input.  The one exception is the name `dynamic` of the type that a
//! function type returns where none is written.

use vstd::prelude::*;
use crate::dart::DartM;
use crate::dart::annotation::AnnotationM;
use crate::dart::class::{ClassM, ClassMemberM, ConstructorM};
use crate::dart::comment::CommentM;
use crate::dart::directive::{DirectiveM, ExportM, FilterM, ImportM, PartOfM};
use crate::dart::enum_ty::{EnumTyM, EnumValueM};
use crate::dart::expr::ExprM;
use crate::dart::extension::{ExtensionM, ExtensionMemberM};
use crate::dart::func_call::{FuncArgM, FuncCallM};
use crate::dart::func_like::{
    FuncBodyContentM, FuncBodyM, FuncLikeM, FuncM, FuncParamM, FuncParamsExtraM, FuncParamsM,
    GetterM, OperatorM, SetterM,
};
use crate::dart::maybe_required::MaybeRequiredM;
use crate::dart::meta::{MetaM, WithMetaM};
use crate::dart::ty::{
    FuncTypeM, FuncTypeParamNamedM, FuncTypeParamPosM, NotFuncTypeM, TupleM, TypeM,
};
use crate::dart::type_param::TypeParamM;
use crate::dart::typedef::TypeDefM;
use crate::dart::var::VarM;
use crate::parser::ty::dynamic_model;

verus! {

/// Whether `text` is the part of `bytes` between two offsets.
pub open spec fn is_part(text: Seq<u8>, bytes: Seq<u8>) -> bool {
    exists|from: int, to: int|
        0 <= from <= to <= bytes.len() && text == #[trigger] bytes.subrange(from, to)
}

/// The part of `bytes` between two offsets is a part of `bytes`.
pub proof fn lemma_is_part(bytes: Seq<u8>, from: int, to: int)
    requires
        0 <= from <= to <= bytes.len(),
    ensures
        is_part(bytes.subrange(from, to), bytes),
{
}

/// A part of a part of `bytes` is a part of `bytes`.
pub proof fn lemma_part_of_part(text: Seq<u8>, part: Seq<u8>, bytes: Seq<u8>)
    requires
        is_part(text, part),
        is_part(part, bytes),
    ensures
        is_part(text, bytes),
{
    let (a, b) = choose|a: int, b: int|
        0 <= a <= b <= part.len() && text == #[trigger] part.subrange(a, b);
    let (c, d) = choose|c: int, d: int|
        0 <= c <= d <= bytes.len() && part == #[trigger] bytes.subrange(c, d);
    assert(text =~= bytes.subrange(c + a, c + b));
}

/// Whether the text `text`, if there is one, is a part of `bytes`.
pub open spec fn opt_part(text: Option<Seq<u8>>, bytes: Seq<u8>) -> bool {
    match text {
        Some(text) => is_part(text, bytes),
        None => true,
    }
}

/// Whether each of `texts` is a part of `bytes`.
pub open spec fn all_parts(texts: Seq<Seq<u8>>, bytes: Seq<u8>) -> bool {
    forall|i: int| 0 <= i < texts.len() ==> is_part(#[trigger] texts[i], bytes)
}

/// A model of which every text is a part of the input.
pub trait Borrowed {
    /// Whether every text of the model is a part of `bytes`.
    spec fn borrowed(&self, bytes: Seq<u8>) -> bool;
}

impl<T: Borrowed> Borrowed for Option<T> {
    open spec fn borrowed(&self, bytes: Seq<u8>) -> bool {
        match self {
            Some(value) => value.borrowed(bytes),
            None => true,
        }
    }
}

impl<T: Borrowed> Borrowed for Seq<T> {
    open spec fn borrowed(&self, bytes: Seq<u8>) -> bool {
        forall|i: int| 0 <= i < self.len() ==> (#[trigger] self[i]).borrowed(bytes)
    }
}

impl<A: Borrowed, B: Borrowed> Borrowed for (A, B) {
    open spec fn borrowed(&self, bytes: Seq<u8>) -> bool {
        self.0.borrowed(bytes) && self.1.borrowed(bytes)
    }
}

impl Borrowed for CommentM {
    open spec fn borrowed(&self, bytes: Seq<u8>) -> bool {
        match self {
            CommentM::SingleLine(text) => is_part(*text, bytes),
            CommentM::MultiLine(text) => is_part(*text, bytes),
        }
    }
}

impl Borrowed for ExprM {
    open spec fn borrowed(&self, bytes: Seq<u8>) -> bool {
        match self {
            ExprM::Verbatim(text) => is_part(*text, bytes),
            ExprM::Ident(text) => is_part(*text, bytes),
            ExprM::String(text) => is_part(*text, bytes),
        }
    }
}

impl Borrowed for FuncArgM {
    open spec fn borrowed(&self, bytes: Seq<u8>) -> bool {
        opt_part(self.name, bytes) && self.value.borrowed(bytes)
    }
}

// Types hold metadata and metadata holds types: their predicates are
// defined together, by recursion on the model.

/// Whether every text of the type is a part of `bytes`.
pub open spec fn type_borrowed(t: TypeM, bytes: Seq<u8>) -> bool
    decreases t,
{
    match t {
        TypeM::NotFunc(n) => not_func_borrowed(n, bytes),
        TypeM::Func(f) => func_type_borrowed(*f, bytes),
        TypeM::Tuple(t) => tuple_borrowed(t, bytes),
    }
}

/// Whether every text of the named type is a part of `bytes`.
pub open spec fn not_func_borrowed(n: NotFuncTypeM, bytes: Seq<u8>) -> bool
    decreases n,
{
    is_part(n.name, bytes) && forall|i: int|
        0 <= i < n.type_args.len() ==> type_borrowed(#[trigger] n.type_args[i], bytes)
}

/// The type that a function type returns is written in the input, or is
/// `dynamic`.
pub open spec fn func_type_borrowed(f: FuncTypeM, bytes: Seq<u8>) -> bool
    decreases f,
{
    &&& f.return_type == TypeM::NotFunc(dynamic_model()) || type_borrowed(f.return_type, bytes)
    &&& forall|i: int|
        0 <= i < f.type_params.len() ==> type_param_borrowed(#[trigger] f.type_params[i], bytes)
    &&& forall|i: int|
        0 <= i < f.params.positional_req.len() ==> with_meta_pos_borrowed(
            #[trigger] f.params.positional_req[i],
            bytes,
        )
    &&& match f.params.extra {
        Some(FuncParamsExtraM::PositionalOpt(v)) => forall|i: int|
            0 <= i < v.len() ==> with_meta_pos_borrowed(#[trigger] v[i], bytes),
        Some(FuncParamsExtraM::Named(v)) => forall|i: int|
            0 <= i < v.len() ==> with_meta_named_borrowed(#[trigger] v[i], bytes),
        None => true,
    }
}

/// Whether every text of the record type is a part of `bytes`.
pub open spec fn tuple_borrowed(t: TupleM, bytes: Seq<u8>) -> bool
    decreases t,
{
    &&& forall|i: int|
        0 <= i < t.params_pos.len() ==> pos_borrowed(#[trigger] t.params_pos[i], bytes)
    &&& forall|i: int|
        0 <= i < t.params_named.len() ==> named_borrowed(#[trigger] t.params_named[i], bytes)
}

/// Whether every text of the type parameter is a part of `bytes`.
pub open spec fn type_param_borrowed(p: TypeParamM, bytes: Seq<u8>) -> bool
    decreases p,
{
    is_part(p.name, bytes) && match p.extends {
        Some(t) => type_borrowed(t, bytes),
        None => true,
    }
}

/// Whether every text of the positional parameter is a part of `bytes`.
pub open spec fn pos_borrowed(p: FuncTypeParamPosM, bytes: Seq<u8>) -> bool
    decreases p,
{
    type_borrowed(p.param_type, bytes) && opt_part(p.name, bytes)
}

/// Whether every text of the named parameter is a part of `bytes`.
pub open spec fn named_borrowed(p: FuncTypeParamNamedM, bytes: Seq<u8>) -> bool
    decreases p,
{
    type_borrowed(p.param_type, bytes) && is_part(p.name, bytes)
}

/// Whether every text of the positional parameter and of its metadata is a
/// part of `bytes`.
pub open spec fn with_meta_pos_borrowed(w: WithMetaM<FuncTypeParamPosM>, bytes: Seq<u8>) -> bool
    decreases w,
{
    metas_borrowed(w.meta, bytes) && pos_borrowed(w.value, bytes)
}

/// Whether every text of the named parameter and of its metadata is a part
/// of `bytes`.
pub open spec fn with_meta_named_borrowed(
    w: WithMetaM<MaybeRequiredM<FuncTypeParamNamedM>>,
    bytes: Seq<u8>,
) -> bool
    decreases w,
{
    metas_borrowed(w.meta, bytes) && named_borrowed(w.value.value, bytes)
}

/// Whether every text of the metadata is a part of `bytes`.
pub open spec fn metas_borrowed(v: Seq<MetaM>, bytes: Seq<u8>) -> bool
    decreases v,
{
    forall|i: int| 0 <= i < v.len() ==> meta_borrowed(#[trigger] v[i], bytes)
}

/// Whether every text of the item of metadata is a part of `bytes`.
pub open spec fn meta_borrowed(m: MetaM, bytes: Seq<u8>) -> bool
    decreases m,
{
    match m {
        MetaM::Annotation(a) => annotation_borrowed(a, bytes),
        MetaM::Comment(c) => c.borrowed(bytes),
    }
}

/// Whether every text of the annotation is a part of `bytes`.
pub open spec fn annotation_borrowed(a: AnnotationM, bytes: Seq<u8>) -> bool
    decreases a,
{
    match a {
        AnnotationM::Ident(name) => is_part(name, bytes),
        AnnotationM::FuncCall(call) => func_call_borrowed(call, bytes),
    }
}

/// Whether every text of the call is a part of `bytes`.
pub open spec fn func_call_borrowed(c: FuncCallM, bytes: Seq<u8>) -> bool
    decreases c,
{
    not_func_borrowed(c.ident, bytes) && c.args.borrowed(bytes)
}

impl Borrowed for TypeM {
    open spec fn borrowed(&self, bytes: Seq<u8>) -> bool {
        type_borrowed(*self, bytes)
    }
}

impl Borrowed for NotFuncTypeM {
    open spec fn borrowed(&self, bytes: Seq<u8>) -> bool {
        not_func_borrowed(*self, bytes)
    }
}

impl Borrowed for FuncTypeM {
    open spec fn borrowed(&self, bytes: Seq<u8>) -> bool {
        func_type_borrowed(*self, bytes)
    }
}

impl Borrowed for TupleM {
    open spec fn borrowed(&self, bytes: Seq<u8>) -> bool {
        tuple_borrowed(*self, bytes)
    }
}

impl Borrowed for TypeParamM {
    open spec fn borrowed(&self, bytes: Seq<u8>) -> bool {
        type_param_borrowed(*self, bytes)
    }
}

impl Borrowed for FuncTypeParamPosM {
    open spec fn borrowed(&self, bytes: Seq<u8>) -> bool {
        pos_borrowed(*self, bytes)
    }
}

impl Borrowed for FuncTypeParamNamedM {
    open spec fn borrowed(&self, bytes: Seq<u8>) -> bool {
        named_borrowed(*self, bytes)
    }
}

impl Borrowed for MetaM {
    open spec fn borrowed(&self, bytes: Seq<u8>) -> bool {
        meta_borrowed(*self, bytes)
    }
}

impl Borrowed for AnnotationM {
    open spec fn borrowed(&self, bytes: Seq<u8>) -> bool {
        annotation_borrowed(*self, bytes)
    }
}

impl Borrowed for FuncCallM {
    open spec fn borrowed(&self, bytes: Seq<u8>) -> bool {
        func_call_borrowed(*self, bytes)
    }
}

impl<T: Borrowed> Borrowed for WithMetaM<T> {
    open spec fn borrowed(&self, bytes: Seq<u8>) -> bool {
        metas_borrowed(self.meta, bytes) && self.value.borrowed(bytes)
    }
}

impl<T: Borrowed> Borrowed for MaybeRequiredM<T> {
    open spec fn borrowed(&self, bytes: Seq<u8>) -> bool {
        self.value.borrowed(bytes)
    }
}

impl<P: Borrowed, N: Borrowed> Borrowed for FuncParamsExtraM<P, N> {
    open spec fn borrowed(&self, bytes: Seq<u8>) -> bool {
        match self {
            FuncParamsExtraM::PositionalOpt(v) => v.borrowed(bytes),
            FuncParamsExtraM::Named(v) => v.borrowed(bytes),
        }
    }
}

impl<P: Borrowed, N: Borrowed> Borrowed for FuncParamsM<P, N> {
    open spec fn borrowed(&self, bytes: Seq<u8>) -> bool {
        self.positional_req.borrowed(bytes) && self.extra.borrowed(bytes)
    }
}

impl Borrowed for FuncParamM {
    open spec fn borrowed(&self, bytes: Seq<u8>) -> bool {
        self.param_type.borrowed(bytes) && is_part(self.name, bytes) && self.initializer.borrowed(
            bytes,
        )
    }
}

impl Borrowed for VarM {
    open spec fn borrowed(&self, bytes: Seq<u8>) -> bool {
        self.var_type.borrowed(bytes) && is_part(self.name, bytes) && self.initializer.borrowed(
            bytes,
        )
    }
}

impl Borrowed for FuncBodyContentM {
    open spec fn borrowed(&self, bytes: Seq<u8>) -> bool {
        match self {
            FuncBodyContentM::Block(text) => is_part(*text, bytes),
            FuncBodyContentM::Expr(expr) => expr.borrowed(bytes),
        }
    }
}

impl Borrowed for FuncBodyM {
    open spec fn borrowed(&self, bytes: Seq<u8>) -> bool {
        self.content.borrowed(bytes)
    }
}

impl Borrowed for FuncM {
    open spec fn borrowed(&self, bytes: Seq<u8>) -> bool {
        &&& self.return_type.borrowed(bytes)
        &&& is_part(self.name, bytes)
        &&& self.type_params.borrowed(bytes)
        &&& self.params.borrowed(bytes)
        &&& self.body.borrowed(bytes)
    }
}

impl Borrowed for GetterM {
    open spec fn borrowed(&self, bytes: Seq<u8>) -> bool {
        self.return_type.borrowed(bytes) && is_part(self.name, bytes) && self.body.borrowed(bytes)
    }
}

impl Borrowed for SetterM {
    open spec fn borrowed(&self, bytes: Seq<u8>) -> bool {
        is_part(self.name, bytes) && self.params.borrowed(bytes) && self.body.borrowed(bytes)
    }
}

impl Borrowed for OperatorM {
    open spec fn borrowed(&self, bytes: Seq<u8>) -> bool {
        &&& self.return_type.borrowed(bytes)
        &&& self.type_params.borrowed(bytes)
        &&& self.params.borrowed(bytes)
        &&& self.body.borrowed(bytes)
    }
}

impl Borrowed for FuncLikeM {
    open spec fn borrowed(&self, bytes: Seq<u8>) -> bool {
        match self {
            FuncLikeM::Func(f) => f.borrowed(bytes),
            FuncLikeM::Getter(g) => g.borrowed(bytes),
            FuncLikeM::Setter(s) => s.borrowed(bytes),
            FuncLikeM::Operator(o) => o.borrowed(bytes),
        }
    }
}

impl Borrowed for ConstructorM {
    open spec fn borrowed(&self, bytes: Seq<u8>) -> bool {
        &&& is_part(self.name, bytes)
        &&& self.params.borrowed(bytes)
        &&& opt_part(self.initializers, bytes)
        &&& self.body.borrowed(bytes)
    }
}

impl Borrowed for ClassMemberM {
    open spec fn borrowed(&self, bytes: Seq<u8>) -> bool {
        match self {
            ClassMemberM::Constructor(c) => c.borrowed(bytes),
            ClassMemberM::Var(v) => v.borrowed(bytes),
            ClassMemberM::FuncLike(f) => f.borrowed(bytes),
        }
    }
}

impl Borrowed for ClassM {
    open spec fn borrowed(&self, bytes: Seq<u8>) -> bool {
        &&& is_part(self.name, bytes)
        &&& self.type_params.borrowed(bytes)
        &&& self.extends.borrowed(bytes)
        &&& self.with.borrowed(bytes)
        &&& self.implements.borrowed(bytes)
        &&& self.mixin_on.borrowed(bytes)
        &&& self.body.borrowed(bytes)
    }
}

impl Borrowed for EnumValueM {
    open spec fn borrowed(&self, bytes: Seq<u8>) -> bool {
        is_part(self.name, bytes) && self.args.borrowed(bytes)
    }
}

impl Borrowed for EnumTyM {
    open spec fn borrowed(&self, bytes: Seq<u8>) -> bool {
        &&& is_part(self.name, bytes)
        &&& self.implements.borrowed(bytes)
        &&& self.values.borrowed(bytes)
        &&& self.members.borrowed(bytes)
    }
}

impl Borrowed for ExtensionMemberM {
    open spec fn borrowed(&self, bytes: Seq<u8>) -> bool {
        match self {
            ExtensionMemberM::FuncLike(f) => f.borrowed(bytes),
            ExtensionMemberM::Var(v) => v.borrowed(bytes),
        }
    }
}

impl Borrowed for ExtensionM {
    open spec fn borrowed(&self, bytes: Seq<u8>) -> bool {
        &&& opt_part(self.name, bytes)
        &&& self.type_params.borrowed(bytes)
        &&& self.on.borrowed(bytes)
        &&& self.body.borrowed(bytes)
    }
}

impl Borrowed for TypeDefM {
    open spec fn borrowed(&self, bytes: Seq<u8>) -> bool {
        is_part(self.name, bytes) && self.type_params.borrowed(bytes) && self.target.borrowed(bytes)
    }
}

impl Borrowed for FilterM {
    open spec fn borrowed(&self, bytes: Seq<u8>) -> bool {
        match self {
            FilterM::Show(names) => all_parts(*names, bytes),
            FilterM::Hide(names) => all_parts(*names, bytes),
        }
    }
}

impl Borrowed for ImportM {
    open spec fn borrowed(&self, bytes: Seq<u8>) -> bool {
        is_part(self.target, bytes) && opt_part(self.prefix, bytes) && self.filters.borrowed(bytes)
    }
}

impl Borrowed for ExportM {
    open spec fn borrowed(&self, bytes: Seq<u8>) -> bool {
        is_part(self.target, bytes) && self.filters.borrowed(bytes)
    }
}

impl Borrowed for PartOfM {
    open spec fn borrowed(&self, bytes: Seq<u8>) -> bool {
        match self {
            PartOfM::LibPath(path) => is_part(*path, bytes),
            PartOfM::LibName(name) => is_part(*name, bytes),
        }
    }
}

impl Borrowed for DirectiveM {
    open spec fn borrowed(&self, bytes: Seq<u8>) -> bool {
        match self {
            DirectiveM::Export(e) => e.borrowed(bytes),
            DirectiveM::Import(i) => i.borrowed(bytes),
            DirectiveM::Part(path) => is_part(*path, bytes),
            DirectiveM::PartOf(p) => p.borrowed(bytes),
        }
    }
}

impl Borrowed for DartM {
    open spec fn borrowed(&self, bytes: Seq<u8>) -> bool {
        match self {
            DartM::Directive(d) => d.borrowed(bytes),
            DartM::TypeDef(t) => t.borrowed(bytes),
            DartM::Var(v) => v.borrowed(bytes),
            DartM::FuncLike(f) => f.borrowed(bytes),
            DartM::Class(c) => c.borrowed(bytes),
            DartM::Enum(e) => e.borrowed(bytes),
            DartM::Extension(e) => e.borrowed(bytes),
        }
    }
}

} // verus!
