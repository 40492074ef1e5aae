//! The mathematical model of parsed values.
//!
//! Every syntax-tree type has a model: the same shape with each borrowed slice
//! replaced by the bytes it holds and each vector by a sequence.  Contracts
//! are stated over models.

use vstd::prelude::*;
use vstd::string::*;

verus! {

/// A value that stands for a mathematical model of itself.
pub trait Model {
    type M;

    spec fn model(&self) -> Self::M;
}

impl<'a> Model for &'a str {
    type M = Seq<u8>;

    open spec fn model(&self) -> Seq<u8> {
        self.spec_bytes()
    }
}

impl Model for bool {
    type M = bool;

    open spec fn model(&self) -> bool {
        *self
    }
}

impl Model for usize {
    type M = int;

    open spec fn model(&self) -> int {
        *self as int
    }
}

impl Model for () {
    type M = ();

    open spec fn model(&self) -> () {
        ()
    }
}

impl<T: Model> Model for Vec<T> {
    type M = Seq<T::M>;

    open spec fn model(&self) -> Seq<T::M> {
        Seq::new(self.len() as nat, |i: int| self[i].model())
    }
}

impl<T: Model> Model for Option<T> {
    type M = Option<T::M>;

    open spec fn model(&self) -> Option<T::M> {
        match self {
            Some(value) => Some(value.model()),
            None => None,
        }
    }
}

impl<T: Model> Model for Box<T> {
    type M = T::M;

    open spec fn model(&self) -> T::M {
        (**self).model()
    }
}

impl<A: Model, B: Model> Model for (A, B) {
    type M = (A::M, B::M);

    open spec fn model(&self) -> (A::M, B::M) {
        (self.0.model(), self.1.model())
    }
}

impl<A: Model, B: Model, C: Model> Model for (A, B, C) {
    type M = (A::M, B::M, C::M);

    open spec fn model(&self) -> (A::M, B::M, C::M) {
        (self.0.model(), self.1.model(), self.2.model())
    }
}

/// Pushing onto a vector pushes the model of the item onto the model.
pub proof fn lemma_model_push<T: Model>(before: Vec<T>, after: Vec<T>, item: T)
    requires
        after@ == before@.push(item),
    ensures
        after.model() == before.model().push(item.model()),
{
    assert(after.model() =~= before.model().push(item.model()));
}

/// The model of an empty vector is the empty sequence.
pub proof fn lemma_model_empty<T: Model>(v: Vec<T>)
    requires
        v@.len() == 0,
    ensures
        v.model() == Seq::<T::M>::empty(),
{
    assert(v.model() =~= Seq::<T::M>::empty());
}

} // verus!
