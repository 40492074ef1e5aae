//! Named parameters that may be marked `required`.

use vstd::prelude::*;
use crate::model::Model;

verus! {

/// A named parameter and whether it is marked `required`.
#[derive(PartialEq, Eq, Debug)]
pub struct MaybeRequired<T> {
    pub is_required: bool,
    pub value: T,
}

impl<T> MaybeRequired<T> {
    /// The parameter `value`, required or not.
    pub fn new(is_required: bool, value: T) -> (r: Self)
        ensures
            r.is_required == is_required,
            r.value == value,
    {
        Self { is_required, value }
    }

    /// The parameter `value`, marked as required.
    pub fn required(value: T) -> (r: Self)
        ensures
            r.is_required,
            r.value == value,
    {
        Self { is_required: true, value }
    }

    /// The parameter `value`, not marked as required.
    pub fn optional(value: T) -> (r: Self)
        ensures
            !r.is_required,
            r.value == value,
    {
        Self { is_required: false, value }
    }

    /// The parameter.
    pub fn as_ref(&self) -> (r: &T)
        ensures
            *r == self.value,
    {
        &self.value
    }
}

/// The model of a named parameter.
pub struct MaybeRequiredM<T> {
    pub is_required: bool,
    pub value: T,
}

impl<T: Model> Model for MaybeRequired<T> {
    type M = MaybeRequiredM<T::M>;

    open spec fn model(&self) -> MaybeRequiredM<T::M> {
        MaybeRequiredM { is_required: self.is_required, value: self.value.model() }
    }
}

} // verus!
