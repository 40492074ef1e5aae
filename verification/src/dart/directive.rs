//! Directives: imports, exports and parts.

use vstd::prelude::*;
use crate::model::Model;

verus! {

/// A directive.
#[derive(PartialEq, Eq, Debug)]
pub enum Directive<'s> {
    Export(Export<'s>),
    Import(Import<'s>),
    Part(&'s str),
    PartOf(PartOf<'s>),
}

/// An export, with its filters in the order in which they were written.
#[derive(PartialEq, Eq, Debug)]
pub struct Export<'s> {
    pub target: &'s str,
    pub filters: Vec<Filter<'s>>,
}

/// An import, with its filters in the order in which they were written.
#[derive(PartialEq, Eq, Debug)]
pub struct Import<'s> {
    pub target: &'s str,
    pub prefix: Option<&'s str>,
    pub filters: Vec<Filter<'s>>,
}

impl<'s> Import<'s> {
    /// The import of `target`, without a prefix and without filters.
    pub fn target(target: &'s str) -> (r: Self)
        ensures
            r.target == target,
            r.prefix is None,
            r.filters@ == Seq::<Filter<'s>>::empty(),
    {
        Import { target, prefix: None, filters: Vec::new() }
    }

    /// The import of `target` as `prefix`, without filters.
    pub fn target_as(target: &'s str, prefix: &'s str) -> (r: Self)
        ensures
            r.target == target,
            r.prefix == Some(prefix),
            r.filters@ == Seq::<Filter<'s>>::empty(),
    {
        Import { target, prefix: Some(prefix), filters: Vec::new() }
    }
}

/// A `show` or a `hide` clause.
#[derive(PartialEq, Eq, Debug)]
pub enum Filter<'s> {
    Show(Vec<&'s str>),
    Hide(Vec<&'s str>),
}

/// What a part is a part of.
#[derive(PartialEq, Eq, Debug)]
pub enum PartOf<'s> {
    LibPath(&'s str),
    /// Discouraged, but allowed.
    LibName(&'s str),
}

/// The model of a directive.
pub enum DirectiveM {
    Export(ExportM),
    Import(ImportM),
    Part(Seq<u8>),
    PartOf(PartOfM),
}

/// The model of an export.
pub struct ExportM {
    pub target: Seq<u8>,
    pub filters: Seq<FilterM>,
}

/// The model of an import.
pub struct ImportM {
    pub target: Seq<u8>,
    pub prefix: Option<Seq<u8>>,
    pub filters: Seq<FilterM>,
}

/// The model of a filter.
pub enum FilterM {
    Show(Seq<Seq<u8>>),
    Hide(Seq<Seq<u8>>),
}

/// The model of what a part is a part of.
pub enum PartOfM {
    LibPath(Seq<u8>),
    LibName(Seq<u8>),
}

impl<'s> Model for Filter<'s> {
    type M = FilterM;

    open spec fn model(&self) -> FilterM {
        match self {
            Filter::Show(names) => FilterM::Show(names.model()),
            Filter::Hide(names) => FilterM::Hide(names.model()),
        }
    }
}

impl<'s> Model for PartOf<'s> {
    type M = PartOfM;

    open spec fn model(&self) -> PartOfM {
        match self {
            PartOf::LibPath(path) => PartOfM::LibPath(path.model()),
            PartOf::LibName(name) => PartOfM::LibName(name.model()),
        }
    }
}

impl<'s> Model for Export<'s> {
    type M = ExportM;

    open spec fn model(&self) -> ExportM {
        ExportM { target: self.target.model(), filters: self.filters.model() }
    }
}

impl<'s> Model for Import<'s> {
    type M = ImportM;

    open spec fn model(&self) -> ImportM {
        ImportM {
            target: self.target.model(),
            prefix: self.prefix.model(),
            filters: self.filters.model(),
        }
    }
}

impl<'s> Model for Directive<'s> {
    type M = DirectiveM;

    open spec fn model(&self) -> DirectiveM {
        match self {
            Directive::Export(e) => DirectiveM::Export(e.model()),
            Directive::Import(i) => DirectiveM::Import(i.model()),
            Directive::Part(path) => DirectiveM::Part(path.model()),
            Directive::PartOf(p) => DirectiveM::PartOf(p.model()),
        }
    }
}

} // verus!
