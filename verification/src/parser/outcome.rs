//! What a production returns: a value and the next offset, or a failure that
//! is either recoverable (the next alternative is tried) or committed.

use vstd::prelude::*;
use crate::model::Model;

verus! {

/// What was expected, or which production was active, where parsing failed.
#[derive(Clone, Copy, PartialEq, Eq, Debug)]
pub enum Label {
    Tag,
    Char,
    OneOf,
    IsA,
    Eof,
    Reserved,
    Many0,
    Many1,
    SeparatedList,
    FuncTypeChain,
    Class,
    ClassBody,
    CommentMultiLine,
    CommentSingleLine,
    Constructor,
    Directive,
    EnumBody,
    EnumTy,
    EnumValue,
    Export,
    Expr,
    ExtendsClause,
    Extension,
    ExtensionBody,
    Func,
    FuncArgs,
    FuncCall,
    FuncLike,
    FuncParamNamed,
    FuncParamPos,
    FuncParams,
    FuncParamsNamed,
    FuncType,
    FuncTypeParams,
    Getter,
    Identifier,
    ImplementsClause,
    Import,
    InterpolationExpr,
    MaybeRequired,
    Meta,
    MixinOnClause,
    NotFuncType,
    Operator,
    Part,
    PartOf,
    Scope,
    Setter,
    StringLit,
    Tuple,
    Ty,
    TypeArgs,
    TypeParam,
    TypeParams,
    Typedef,
    Var,
    WithClause,
    WithMeta,
}

/// One entry of a failure's trace, in the model: an offset and a label.
pub struct Spot {
    pub at: int,
    pub label: Label,
}

/// One entry of a failure's trace: an offset into the input and a label.
#[derive(Clone, Copy, PartialEq, Eq, Debug)]
pub struct Mark {
    pub at: usize,
    pub label: Label,
}

impl Model for Mark {
    type M = Spot;

    open spec fn model(&self) -> Spot {
        Spot { at: self.at as int, label: self.label }
    }
}

/// A failure: the innermost cause first, then the productions that were
/// active, from the inside out.
#[derive(PartialEq, Eq, Debug)]
pub struct ParseError {
    pub fatal: bool,
    pub marks: Vec<Mark>,
}

/// The result of a production: the offset after what it consumed and the
/// value, or a failure.
pub type PResult<T> = Result<(usize, T), ParseError>;

/// The result of a production, in the model.
pub enum Parsed<T> {
    /// The production matched up to `next` and produced `value`.
    Done { next: int, value: T },
    /// It did not match; an enclosing choice goes on with its next alternative.
    Miss { trace: Seq<Spot> },
    /// It failed after a commit point; every enclosing production fails.
    Fault { trace: Seq<Spot> },
}

impl<T> Parsed<T> {
    /// A recoverable failure at `at`.
    pub open spec fn miss(at: int, label: Label) -> Parsed<T> {
        Parsed::Miss { trace: seq![Spot { at, label }] }
    }

    /// The same failure, as the result of another production.
    pub open spec fn carry<U>(self) -> Parsed<U> {
        match self {
            Parsed::Done { .. } => Parsed::Miss { trace: Seq::empty() },
            Parsed::Miss { trace } => Parsed::Miss { trace },
            Parsed::Fault { trace } => Parsed::Fault { trace },
        }
    }

    /// A failure gets the name of the production that was active at `at`.
    pub open spec fn within(self, label: Label, at: int) -> Parsed<T> {
        match self {
            Parsed::Done { .. } => self,
            Parsed::Miss { trace } => Parsed::Miss { trace: trace.push(Spot { at, label }) },
            Parsed::Fault { trace } => Parsed::Fault { trace: trace.push(Spot { at, label }) },
        }
    }

    /// After a commit point a recoverable failure becomes a committed one.
    pub open spec fn committed(self) -> Parsed<T> {
        match self {
            Parsed::Miss { trace } => Parsed::Fault { trace },
            _ => self,
        }
    }

    /// A committed failure becomes recoverable again.
    pub open spec fn tolerant(self) -> Parsed<T> {
        match self {
            Parsed::Fault { trace } => Parsed::Miss { trace },
            _ => self,
        }
    }

    /// Ordered choice: the second result counts only where the first is a
    /// recoverable failure.
    pub open spec fn or(self, other: Parsed<T>) -> Parsed<T> {
        if self is Miss {
            other
        } else {
            self
        }
    }

    /// The same result with another value.
    pub open spec fn with<U>(self, value: U) -> Parsed<U> {
        match self {
            Parsed::Done { next, .. } => Parsed::Done { next, value },
            _ => self.carry(),
        }
    }

    /// The same result where it ends at `pos` or later, inside `bytes`; else
    /// a failure.
    /// Every production's result is of this kind.
    pub open spec fn onward(self, bytes: Seq<u8>, pos: int) -> Parsed<T> {
        match self {
            Parsed::Done { next, .. } => if 0 <= pos <= next <= bytes.len() {
                self
            } else {
                Parsed::miss(pos, Label::Eof)
            },
            _ => self,
        }
    }

    /// The same result where it ends after `pos`, inside `bytes`; else a
    /// failure.
    pub open spec fn ahead(self, bytes: Seq<u8>, pos: int) -> Parsed<T> {
        match self {
            Parsed::Done { next, .. } => if 0 <= pos < next <= bytes.len() {
                self
            } else {
                Parsed::miss(pos, Label::Eof)
            },
            _ => self,
        }
    }

    /// An optional production at `at`: a recoverable failure is no value.
    pub open spec fn optional(self, at: int) -> Parsed<Option<T>> {
        match self {
            Parsed::Done { next, value } => Parsed::Done { next, value: Some(value) },
            Parsed::Miss { .. } => Parsed::Done { next: at, value: None },
            Parsed::Fault { trace } => Parsed::Fault { trace },
        }
    }
}

impl ParseError {
    /// The trace of this failure in the model.
    pub open spec fn trace(&self) -> Seq<Spot> {
        self.marks.model()
    }

    /// A recoverable failure at `at`.
    pub fn miss(at: usize, label: Label) -> (e: ParseError)
        ensures
            !e.fatal,
            e.trace() == seq![Spot { at: at as int, label }],
    {
        let mut marks: Vec<Mark> = Vec::new();
        marks.push(Mark { at, label });
        let e = ParseError { fatal: false, marks };
        assert(e.trace() =~= seq![Spot { at: at as int, label }]);
        e
    }

    /// The failure with the name of the production that was active at `at`.
    pub fn within(self, label: Label, at: usize) -> (e: ParseError)
        ensures
            e.fatal == self.fatal,
            e.trace() == self.trace().push(Spot { at: at as int, label }),
    {
        let ParseError { fatal, marks } = self;
        let mut marks = marks;
        let ghost before = marks;
        marks.push(Mark { at, label });
        let e = ParseError { fatal, marks };
        assert(e.trace() =~= before.model().push(Spot { at: at as int, label }));
        e
    }

    /// The failure as a committed one.
    pub fn committed(self) -> (e: ParseError)
        ensures
            e.fatal,
            e.trace() == self.trace(),
    {
        ParseError { fatal: true, marks: self.marks }
    }

    /// The failure as a recoverable one.
    pub fn tolerant(self) -> (e: ParseError)
        ensures
            !e.fatal,
            e.trace() == self.trace(),
    {
        ParseError { fatal: false, marks: self.marks }
    }
}

/// The model of a production's result.
pub open spec fn outcome<T: Model>(r: PResult<T>) -> Parsed<T::M> {
    match r {
        Ok((next, value)) => Parsed::Done { next: next as int, value: value.model() },
        Err(e) => if e.fatal {
            Parsed::Fault { trace: e.trace() }
        } else {
            Parsed::Miss { trace: e.trace() }
        },
    }
}

/// A result that is `Ok` ends between `pos` and the end of the input.
pub open spec fn stays<T>(r: PResult<T>, pos: usize, len: nat) -> bool {
    r matches Ok((next, _)) ==> pos <= next <= len
}

/// A result that is `Ok` ends after `pos`, at the end of the input at most.
pub open spec fn advances<T>(r: PResult<T>, pos: usize, len: nat) -> bool {
    r matches Ok((next, _)) ==> pos < next <= len
}

/// A failed result names the production that was active at `pos`.
pub fn framed<T: Model>(r: PResult<T>, label: Label, pos: usize) -> (out: PResult<T>)
    ensures
        outcome(out) == outcome(r).within(label, pos as int),
        out is Ok ==> out == r,
        out is Ok <==> r is Ok,
{
    match r {
        Ok(done) => Ok(done),
        Err(e) => Err(e.within(label, pos)),
    }
}

/// A failed result is a committed failure.
pub fn cut<T: Model>(r: PResult<T>) -> (out: PResult<T>)
    ensures
        outcome(out) == outcome(r).committed(),
        out is Ok ==> out == r,
        out is Ok <==> r is Ok,
{
    match r {
        Ok(done) => Ok(done),
        Err(e) => Err(e.committed()),
    }
}

/// Convert a committed failure into a recoverable one.
pub fn uncut<T: Model>(r: PResult<T>) -> (out: PResult<T>)
    ensures
        outcome(out) == outcome(r).tolerant(),
        out is Ok ==> out == r,
        out is Ok <==> r is Ok,
{
    match r {
        Ok(done) => Ok(done),
        Err(e) => Err(e.tolerant()),
    }
}

} // verus!
