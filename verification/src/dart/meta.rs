//! The metadata of a declaration.

use vstd::prelude::*;
use crate::dart::annotation::{Annotation, AnnotationM};
use crate::dart::comment::{Comment, CommentM};
use crate::dart::ty::{meta_model, metas_model};
use crate::model::Model;

verus! {

/// A value with the comments and annotations that stand before it, in the
/// order in which they were written.
#[derive(PartialEq, Eq, Debug)]
pub struct WithMeta<'s, T> {
    pub meta: Vec<Meta<'s>>,
    pub value: T,
}

impl<'s, T> WithMeta<'s, T> {
    /// `value` with the metadata `meta`.
    pub fn new(meta: Vec<Meta<'s>>, value: T) -> (r: Self)
        ensures
            r.meta == meta,
            r.value == value,
    {
        Self { meta, value }
    }

    /// `value` without metadata.
    pub fn value(value: T) -> (r: Self)
        ensures
            r.meta@ == Seq::<Meta<'s>>::empty(),
            r.value == value,
    {
        Self { meta: Vec::new(), value }
    }

    /// The value.
    pub fn as_ref(&self) -> (r: &T)
        ensures
            *r == self.value,
    {
        &self.value
    }
}

/// One item of metadata.
#[derive(PartialEq, Eq, Debug)]
pub enum Meta<'s> {
    Annotation(Annotation<'s>),
    Comment(Comment<'s>),
}

/// The model of a value with metadata.
pub struct WithMetaM<T> {
    pub meta: Seq<MetaM>,
    pub value: T,
}

/// The model of an item of metadata.
pub enum MetaM {
    Annotation(AnnotationM),
    Comment(CommentM),
}

impl<'s> Model for Meta<'s> {
    type M = MetaM;

    open spec fn model(&self) -> MetaM {
        meta_model(*self)
    }
}

impl<'s, T: Model> Model for WithMeta<'s, T> {
    type M = WithMetaM<T::M>;

    open spec fn model(&self) -> WithMetaM<T::M> {
        WithMetaM { meta: metas_model(self.meta), value: self.value.model() }
    }
}

} // verus!
