//! Functions, getters, setters and operators; their parameters and bodies;
//! and the sets of their modifiers.

use vstd::prelude::*;
use crate::dart::bits::{lemma_bit_added, lemma_concat_contains, lemma_no_bit};
use crate::dart::expr::{Expr, ExprM};
use crate::dart::maybe_required::{MaybeRequired, MaybeRequiredM};
use crate::dart::meta::{WithMeta, WithMetaM};
use crate::dart::ty::{Type, TypeM};
use crate::dart::type_param::{TypeParam, TypeParamM};
use crate::model::Model;

verus! {

/// The parameters of a function: the required positional ones, then at most
/// one group of either optional positional or named ones.
#[derive(PartialEq, Eq, Debug)]
pub struct FuncParams<'s, ParamPos, ParamNamed = ParamPos> {
    pub positional_req: Vec<WithMeta<'s, ParamPos>>,
    pub extra: Option<FuncParamsExtra<'s, ParamPos, ParamNamed>>,
}

impl<'s, T, U> Default for FuncParams<'s, T, U> {
    /// No parameters.
    fn default() -> (r: Self)
        ensures
            r.positional_req@ == Seq::<WithMeta<'s, T>>::empty(),
            r.extra is None,
    {
        Self { positional_req: Vec::new(), extra: None }
    }
}

/// The group of parameters in `[...]` or in `{...}`.
#[derive(PartialEq, Eq, Debug)]
pub enum FuncParamsExtra<'s, ParamPos, ParamNamed = ParamPos> {
    PositionalOpt(Vec<WithMeta<'s, ParamPos>>),
    Named(Vec<WithMeta<'s, MaybeRequired<ParamNamed>>>),
}

/// The model of the parameters of a function.
pub struct FuncParamsM<ParamPos, ParamNamed> {
    pub positional_req: Seq<WithMetaM<ParamPos>>,
    pub extra: Option<FuncParamsExtraM<ParamPos, ParamNamed>>,
}

/// The model of the group of parameters in `[...]` or in `{...}`.
pub enum FuncParamsExtraM<ParamPos, ParamNamed> {
    PositionalOpt(Seq<WithMetaM<ParamPos>>),
    Named(Seq<WithMetaM<MaybeRequiredM<ParamNamed>>>),
}

impl<'s, P: Model, N: Model> Model for FuncParamsExtra<'s, P, N> {
    type M = FuncParamsExtraM<P::M, N::M>;

    open spec fn model(&self) -> FuncParamsExtraM<P::M, N::M> {
        match self {
            FuncParamsExtra::PositionalOpt(v) => FuncParamsExtraM::PositionalOpt(v.model()),
            FuncParamsExtra::Named(v) => FuncParamsExtraM::Named(v.model()),
        }
    }
}

impl<'s, P: Model, N: Model> Model for FuncParams<'s, P, N> {
    type M = FuncParamsM<P::M, N::M>;

    open spec fn model(&self) -> FuncParamsM<P::M, N::M> {
        FuncParamsM { positional_req: self.positional_req.model(), extra: self.extra.model() }
    }
}

/// A function, a getter, a setter or an operator.
#[derive(PartialEq, Eq, Debug)]
pub enum FuncLike<'s> {
    Func(Func<'s>),
    Getter(Getter<'s>),
    Setter(Setter<'s>),
    Operator(Operator<'s>),
}

/// A function.  It has no body where its declaration ends with `;`.
#[derive(PartialEq, Eq, Debug)]
pub struct Func<'s> {
    pub modifiers: FuncModifierSet,
    pub return_type: Type<'s>,
    pub name: &'s str,
    pub type_params: Vec<TypeParam<'s>>,
    pub params: FuncParams<'s, FuncParam<'s>>,
    pub body: Option<FuncBody<'s>>,
}

/// A getter.
#[derive(PartialEq, Eq, Debug)]
pub struct Getter<'s> {
    pub modifiers: FuncModifierSet,
    pub return_type: Type<'s>,
    pub name: &'s str,
    pub body: Option<FuncBody<'s>>,
}

/// A setter.
#[derive(PartialEq, Eq, Debug)]
pub struct Setter<'s> {
    pub modifiers: FuncModifierSet,
    pub name: &'s str,
    /// Setters must declare exactly one required positional parameter.
    pub params: FuncParams<'s, FuncParam<'s>>,
    pub body: Option<FuncBody<'s>>,
}

/// An operator that a class defines.
#[derive(PartialEq, Eq, Debug)]
pub struct Operator<'s> {
    pub modifiers: FuncModifierSet,
    pub return_type: Type<'s>,
    pub operator_type: UserDefOperator,
    pub type_params: Vec<TypeParam<'s>>,
    pub params: FuncParams<'s, FuncParam<'s>>,
    pub body: Option<FuncBody<'s>>,
}

/// The operators that a class can define.
#[derive(PartialEq, Eq, Copy, Clone, Debug)]
pub enum UserDefOperator {
    /// `<`
    Lt,
    /// `<=`
    Lte,
    /// `<<`
    LShift,
    /// `<<<`
    LShiftTri,
    /// `>`
    Gt,
    /// `>=`
    Gte,
    /// `>>`
    RShift,
    /// `-`
    Minus,
    /// `+`
    Add,
    /// `/`
    Div,
    /// `~/`
    DivInt,
    /// `*`
    Mul,
    /// `%`
    Mod,
    /// `|`
    Pipe,
    /// `^`
    Caret,
    /// `&`
    Amp,
    /// `[]`
    IndexGet,
    /// `[]=`
    IndexSet,
    /// `~`
    Tilde,
    /// `==`
    Eq,
}

/// A parameter of a function.
#[derive(PartialEq, Eq, Debug)]
pub struct FuncParam<'s> {
    pub modifiers: FuncParamModifierSet,
    pub param_type: Option<Type<'s>>,
    pub name: &'s str,
    pub initializer: Option<Expr<'s>>,
}

/// The body of a function.
#[derive(PartialEq, Eq, Debug)]
pub struct FuncBody<'s> {
    pub modifier: Option<FuncBodyModifier>,
    pub content: FuncBodyContent<'s>,
}

/// What makes a function a generator or asynchronous.
#[derive(PartialEq, Eq, Copy, Clone, Debug)]
pub enum FuncBodyModifier {
    /// `sync*`
    SyncGenerator,
    /// `async`
    Async,
    /// `async*`
    AsyncGenerator,
}

/// The content of the body of a function.
#[derive(PartialEq, Eq, Debug)]
pub enum FuncBodyContent<'s> {
    /// A block, with its braces.
    Block(&'s str),
    /// Not allowed in generator functions and constructors, except factory
    /// constructors.
    Expr(Expr<'s>),
}

/// The model of a function, a getter, a setter or an operator.
pub enum FuncLikeM {
    Func(FuncM),
    Getter(GetterM),
    Setter(SetterM),
    Operator(OperatorM),
}

/// The model of a function.
pub struct FuncM {
    pub modifiers: Set<FuncModifier>,
    pub return_type: TypeM,
    pub name: Seq<u8>,
    pub type_params: Seq<TypeParamM>,
    pub params: FuncParamsM<FuncParamM, FuncParamM>,
    pub body: Option<FuncBodyM>,
}

/// The model of a getter.
pub struct GetterM {
    pub modifiers: Set<FuncModifier>,
    pub return_type: TypeM,
    pub name: Seq<u8>,
    pub body: Option<FuncBodyM>,
}

/// The model of a setter.
pub struct SetterM {
    pub modifiers: Set<FuncModifier>,
    pub name: Seq<u8>,
    pub params: FuncParamsM<FuncParamM, FuncParamM>,
    pub body: Option<FuncBodyM>,
}

/// The model of an operator.
pub struct OperatorM {
    pub modifiers: Set<FuncModifier>,
    pub return_type: TypeM,
    pub operator_type: UserDefOperator,
    pub type_params: Seq<TypeParamM>,
    pub params: FuncParamsM<FuncParamM, FuncParamM>,
    pub body: Option<FuncBodyM>,
}

/// The model of a parameter.
pub struct FuncParamM {
    pub modifiers: Set<FuncParamModifier>,
    pub param_type: Option<TypeM>,
    pub name: Seq<u8>,
    pub initializer: Option<ExprM>,
}

/// The model of the body of a function.
pub struct FuncBodyM {
    pub modifier: Option<FuncBodyModifier>,
    pub content: FuncBodyContentM,
}

/// The model of the content of the body of a function.
pub enum FuncBodyContentM {
    Block(Seq<u8>),
    Expr(ExprM),
}

impl Model for UserDefOperator {
    type M = UserDefOperator;

    open spec fn model(&self) -> UserDefOperator {
        *self
    }
}

impl Model for FuncBodyModifier {
    type M = FuncBodyModifier;

    open spec fn model(&self) -> FuncBodyModifier {
        *self
    }
}

impl<'s> Model for FuncBodyContent<'s> {
    type M = FuncBodyContentM;

    open spec fn model(&self) -> FuncBodyContentM {
        match self {
            FuncBodyContent::Block(text) => FuncBodyContentM::Block(text.model()),
            FuncBodyContent::Expr(expr) => FuncBodyContentM::Expr(expr.model()),
        }
    }
}

impl<'s> Model for FuncBody<'s> {
    type M = FuncBodyM;

    open spec fn model(&self) -> FuncBodyM {
        FuncBodyM { modifier: self.modifier.model(), content: self.content.model() }
    }
}

impl<'s> Model for FuncParam<'s> {
    type M = FuncParamM;

    open spec fn model(&self) -> FuncParamM {
        FuncParamM {
            modifiers: self.modifiers.model(),
            param_type: self.param_type.model(),
            name: self.name.model(),
            initializer: self.initializer.model(),
        }
    }
}

impl<'s> Model for Func<'s> {
    type M = FuncM;

    open spec fn model(&self) -> FuncM {
        FuncM {
            modifiers: self.modifiers.model(),
            return_type: self.return_type.model(),
            name: self.name.model(),
            type_params: self.type_params.model(),
            params: self.params.model(),
            body: self.body.model(),
        }
    }
}

impl<'s> Model for Getter<'s> {
    type M = GetterM;

    open spec fn model(&self) -> GetterM {
        GetterM {
            modifiers: self.modifiers.model(),
            return_type: self.return_type.model(),
            name: self.name.model(),
            body: self.body.model(),
        }
    }
}

impl<'s> Model for Setter<'s> {
    type M = SetterM;

    open spec fn model(&self) -> SetterM {
        SetterM {
            modifiers: self.modifiers.model(),
            name: self.name.model(),
            params: self.params.model(),
            body: self.body.model(),
        }
    }
}

impl<'s> Model for Operator<'s> {
    type M = OperatorM;

    open spec fn model(&self) -> OperatorM {
        OperatorM {
            modifiers: self.modifiers.model(),
            return_type: self.return_type.model(),
            operator_type: self.operator_type,
            type_params: self.type_params.model(),
            params: self.params.model(),
            body: self.body.model(),
        }
    }
}

impl<'s> Model for FuncLike<'s> {
    type M = FuncLikeM;

    open spec fn model(&self) -> FuncLikeM {
        match self {
            FuncLike::Func(f) => FuncLikeM::Func(f.model()),
            FuncLike::Getter(g) => FuncLikeM::Getter(g.model()),
            FuncLike::Setter(s) => FuncLikeM::Setter(s.model()),
            FuncLike::Operator(o) => FuncLikeM::Operator(o.model()),
        }
    }
}

/// A modifier of a function.
#[derive(PartialEq, Eq, Copy, Clone, Debug)]
pub enum FuncModifier {
    External,
    Static,
}

impl FuncModifier {
    /// The place of the modifier in the declared order.
    pub open spec fn rank(self) -> nat {
        match self {
            FuncModifier::External => 0,
            FuncModifier::Static => 1,
        }
    }

    /// The bit that stands for the modifier in a set.
    pub open spec fn bit(self) -> u8 {
        match self {
            FuncModifier::External => 1,
            FuncModifier::Static => 2,
        }
    }

    fn mask(self) -> (m: u8)
        ensures
            m == self.bit(),
    {
        match self {
            FuncModifier::External => 1,
            FuncModifier::Static => 2,
        }
    }
}

impl Model for FuncModifier {
    type M = FuncModifier;

    open spec fn model(&self) -> FuncModifier {
        *self
    }
}

/// A set of function modifiers, held in one byte.
#[derive(PartialEq, Eq, Structural, Copy, Clone, Debug)]
pub struct FuncModifierSet(u8);

impl FuncModifierSet {
    /// The byte that holds the set: the bits of its members, taken together.
    pub closed spec fn bits(self) -> u8 {
        self.0
    }

    /// The modifiers that the set holds: those whose bit is set.
    pub open spec fn members(self) -> Set<FuncModifier> {
        Set::new(|m: FuncModifier| self.bits() & m.bit() == m.bit())
    }

    /// No bit is set that stands for no modifier.
    pub open spec fn wf(self) -> bool {
        self.bits() <= 3
    }

    /// Every set that is built is well formed.
    #[verifier::type_invariant]
    spec fn tidy(self) -> bool {
        self.0 <= 3
    }

    /// The set with `item` added, in the model.
    pub closed spec fn added(self, item: FuncModifier) -> Self {
        FuncModifierSet(self.0 | item.bit())
    }

    /// Two sets are equal exactly when they are held in the same byte.
    pub proof fn lemma_equal_by_bits(self, other: Self)
        ensures
            (self == other) <==> (self.bits() == other.bits()),
    {
    }

    /// Two sets are equal exactly when they hold the same modifiers.
    pub proof fn lemma_equal_by_members(self, other: Self)
        requires
            self.wf(),
            other.wf(),
        ensures
            (self == other) <==> (self.members() == other.members()),
    {
        if self.members() == other.members() {
            let a: u8 = self.0;
            let b: u8 = other.0;
            assert((a & 1 == 1) == (b & 1 == 1)) by {
                let m = FuncModifier::External;
                assert(self.members().contains(m) == other.members().contains(m));
            }
            assert((a & 2 == 2) == (b & 2 == 2)) by {
                let m = FuncModifier::Static;
                assert(self.members().contains(m) == other.members().contains(m));
            }
            assert(a == b) by (bit_vector)
                requires
                    a <= 3,
                    b <= 3,
                    (a & 1 == 1) == (b & 1 == 1),
                    (a & 2 == 2) == (b & 2 == 2),
            ;
        }
    }

    /// What adding a modifier does to the byte.  Adding a modifier that the
    /// set holds changes nothing, adding one twice is adding it once, and
    /// the order of two additions does not matter.
    pub proof fn lemma_added(self, a: FuncModifier, b: FuncModifier)
        ensures
            self.added(a).bits() == self.bits() | a.bit(),
            self.added(a).members() == self.members().insert(a),
            self.wf() ==> self.added(a).wf(),
            self.members().contains(a) ==> self.added(a) == self,
            self.added(a).added(a) == self.added(a),
            self.added(a).added(b) == self.added(b).added(a),
    {
        let s: u8 = self.0;
        let x: u8 = a.bit();
        let y: u8 = b.bit();
        assert(x <= 3 && y <= 3);
        assert((s & x == x) ==> (s | x) == s) by (bit_vector);
        assert(((s | x) | x) == (s | x)) by (bit_vector);
        assert(((s | x) | y) == ((s | y) | x)) by (bit_vector);
        assert(s <= 3 ==> (s | x) <= 3) by (bit_vector)
            requires
                x <= 3,
        ;
        assert forall|m: FuncModifier|
            self.added(a).members().contains(m) == self.members().insert(a).contains(m) by {
            lemma_bit_added(s, x, m.bit());
        }
        assert(self.added(a).members() =~= self.members().insert(a));
    }

    /// The set with `item` added.
    pub fn with(&self, item: FuncModifier) -> (r: Self)
        ensures
            r == self.added(item),
            r.bits() == self.bits() | item.bit(),
            r.members() == self.members().insert(item),
            r.wf(),
    {
        let bits: u8 = self.0;
        let mask: u8 = item.mask();
        proof {
            use_type_invariant(self);
            self.lemma_added(item, item);
        }
        FuncModifierSet(bits | mask)
    }

    /// Whether the set holds `item`.
    pub fn contains(&self, item: FuncModifier) -> (r: bool)
        ensures
            r == self.members().contains(item),
            self.wf(),
    {
        proof {
            use_type_invariant(self);
        }
        let mask = item.mask();
        self.0 & mask == mask
    }

    /// The set of the modifiers in `items`, in the model: the empty set
    /// with each of them added.
    pub closed spec fn of(items: Seq<FuncModifier>) -> Self
        decreases items.len(),
    {
        if items.len() == 0 {
            FuncModifierSet(0)
        } else {
            Self::of(items.drop_last()).added(items.last())
        }
    }

    /// The set of the modifiers in `items` is well formed and holds exactly
    /// the modifiers that stand in `items`.
    pub proof fn lemma_of(items: Seq<FuncModifier>)
        ensures
            Self::of(items).wf(),
            forall|m: FuncModifier|
                Self::of(items).members().contains(m) <==> items.contains(m),
        decreases items.len(),
    {
        if items.len() == 0 {
            assert forall|m: FuncModifier| !Self::of(items).members().contains(m) by {
                lemma_no_bit(m.bit());
            }
        } else {
            let head = items.drop_last();
            let last = items.last();
            Self::lemma_of(head);
            Self::of(head).lemma_added(last, last);
            assert forall|m: FuncModifier|
                Self::of(items).members().contains(m) <==> items.contains(m) by {
                if head.contains(m) {
                    let k = choose|k: int| 0 <= k < head.len() && head[k] == m;
                    assert(items[k] == m);
                }
                if m == last {
                    assert(items[items.len() - 1] == m);
                }
                if items.contains(m) {
                    let k = choose|k: int| 0 <= k < items.len() && items[k] == m;
                    if k < items.len() - 1 {
                        assert(head[k] == m);
                    }
                }
            }
        }
    }

    /// The modifier `m` alone where the set holds it, else nothing.
    pub open spec fn part(self, m: FuncModifier) -> Seq<FuncModifier> {
        if self.members().contains(m) {
            seq![m]
        } else {
            Seq::empty()
        }
    }

    /// The modifiers of the set, each once, in the declared order.
    pub open spec fn listed(self) -> Seq<FuncModifier> {
        self.part(FuncModifier::External)
            + self.part(FuncModifier::Static)
    }

    /// Whether `list` holds exactly the modifiers of the set whose rank is
    /// under `bound`.
    spec fn holds(self, list: Seq<FuncModifier>, bound: nat) -> bool {
        forall|m: FuncModifier| list.contains(m) <==> self.members().contains(m) && m.rank() < bound
    }

    /// A list that holds the modifiers under the rank of `next` holds, with
    /// `next` after it where the set holds it, those up to that rank.
    proof fn lemma_holds_more(self, list: Seq<FuncModifier>, next: FuncModifier)
        requires
            self.holds(list, next.rank()),
        ensures
            self.holds(list + self.part(next), next.rank() + 1),
    {
        assert forall|m: FuncModifier|
            (list + self.part(next)).contains(m) <==> self.members().contains(m) && m.rank()
                < next.rank() + 1 by {
            lemma_concat_contains(list, self.part(next), m);
            assert(m.rank() == next.rank() ==> m == next);
            if self.members().contains(next) {
                assert(self.part(next)[0] == next);
            }
        }
    }

    /// The list of a set holds exactly the modifiers of the set.
    pub proof fn lemma_listed(self)
        ensures
            forall|m: FuncModifier| self.listed().contains(m) <==> self.members().contains(m),
    {
        let l0 = self.part(FuncModifier::External);
        self.lemma_holds_more(Seq::empty(), FuncModifier::External);
        assert(Seq::<FuncModifier>::empty() + self.part(FuncModifier::External) =~= l0);
        let l1 = l0 + self.part(FuncModifier::Static);
        self.lemma_holds_more(l0, FuncModifier::Static);
        assert(l1 == self.listed());
        assert forall|m: FuncModifier|
            self.listed().contains(m) <==> self.members().contains(m) by {
            assert(m.rank() < 2);
        }
    }

    /// Whether the ranks in `list` rise and stay under `bound`.
    spec fn rising(list: Seq<FuncModifier>, bound: nat) -> bool {
        &&& forall|i: int| 0 <= i < list.len() ==> (#[trigger] list[i]).rank() < bound
        &&& forall|i: int, j: int|
            0 <= i < j < list.len() ==> (#[trigger] list[i]).rank() < (#[trigger] list[j]).rank()
    }

    /// The list of a set stands in the declared order.
    pub proof fn lemma_listed_in_order(self)
        ensures
            forall|i: int, j: int|
                0 <= i < j < self.listed().len() ==> (#[trigger] self.listed()[i]).rank() < (
                #[trigger] self.listed()[j]).rank(),
    {
        let l0 = self.part(FuncModifier::External);
        assert(Self::rising(l0, 1));
        let l1 = l0 + self.part(FuncModifier::Static);
        assert(Self::rising(l1, 2));
        assert(l1 == self.listed());
    }

    /// A set is the set of the modifiers in its list: built again from what
    /// `to_vec` gives, it is the same set.
    pub proof fn lemma_round_trip(self)
        requires
            self.wf(),
        ensures
            Self::of(self.listed()) == self,
    {
        self.lemma_listed();
        Self::lemma_of(self.listed());
        assert(Self::of(self.listed()).members() =~= self.members());
        Self::of(self.listed()).lemma_equal_by_members(self);
    }

    /// The set of the modifiers in `items`.
    pub fn from_slice(items: &[FuncModifier]) -> (r: Self)
        ensures
            r == Self::of(items@),
            forall|m: FuncModifier| r.members().contains(m) <==> items@.contains(m),
            r.wf(),
    {
        let mut set = FuncModifierSet::default();
        let mut i: usize = 0;
        proof {
            set.lemma_equal_by_bits(Self::of(items@.take(0)));
        }
        while i < items.len()
            invariant
                i <= items.len(),
                set == Self::of(items@.take(i as int)),
            decreases items.len() - i,
        {
            proof {
                assert(items@.take(i + 1).drop_last() =~= items@.take(i as int));
            }
            set = set.with(items[i]);
            i = i + 1;
        }
        proof {
            assert(items@.take(items.len() as int) =~= items@);
            Self::lemma_of(items@);
        }
        set
    }

    /// The set of the modifiers in `items`.
    pub fn from_iter<const N: usize>(items: [FuncModifier; N]) -> (r: Self)
        ensures
            r == Self::of(items@),
            forall|m: FuncModifier| r.members().contains(m) <==> items@.contains(m),
            r.wf(),
    {
        Self::from_slice(items.as_slice())
    }

    /// The modifiers of the set, each once, in the declared order.
    pub fn to_vec(&self) -> (v: Vec<FuncModifier>)
        ensures
            v@ == self.listed(),
            self.wf(),
            forall|m: FuncModifier| v@.contains(m) <==> self.members().contains(m),
            forall|i: int, j: int| 0 <= i < j < v.len() ==> v[i].rank() < v[j].rank(),
    {
        let mut v: Vec<FuncModifier> = Vec::new();
        let ghost s0 = v@;
        if self.contains(FuncModifier::External) {
            v.push(FuncModifier::External);
        }
        assert(v@ =~= s0 + self.part(FuncModifier::External));
        let ghost s1 = v@;
        if self.contains(FuncModifier::Static) {
            v.push(FuncModifier::Static);
        }
        assert(v@ =~= s1 + self.part(FuncModifier::Static));
        proof {
            use_type_invariant(self);
            self.lemma_listed();
            self.lemma_listed_in_order();
        }
        v
    }
}

impl Default for FuncModifierSet {
    /// The empty set.
    fn default() -> (r: Self)
        ensures
            r.bits() == 0,
            r.members() == Set::<FuncModifier>::empty(),
            r.wf(),
    {
        let r = FuncModifierSet(0);
        proof {
            assert forall|m: FuncModifier| !r.members().contains(m) by {
                lemma_no_bit(m.bit());
            }
            assert(r.members() =~= Set::<FuncModifier>::empty());
        }
        r
    }
}

impl Model for FuncModifierSet {
    type M = Set<FuncModifier>;

    open spec fn model(&self) -> Set<FuncModifier> {
        self.members()
    }
}

/// A modifier of a parameter.
#[derive(PartialEq, Eq, Copy, Clone, Debug)]
pub enum FuncParamModifier {
    /// Can only be used for parameters in instance methods.
    Covariant,
    Final,
}

impl FuncParamModifier {
    /// The place of the modifier in the declared order.
    pub open spec fn rank(self) -> nat {
        match self {
            FuncParamModifier::Covariant => 0,
            FuncParamModifier::Final => 1,
        }
    }

    /// The bit that stands for the modifier in a set.
    pub open spec fn bit(self) -> u8 {
        match self {
            FuncParamModifier::Covariant => 1,
            FuncParamModifier::Final => 2,
        }
    }

    fn mask(self) -> (m: u8)
        ensures
            m == self.bit(),
    {
        match self {
            FuncParamModifier::Covariant => 1,
            FuncParamModifier::Final => 2,
        }
    }
}

impl Model for FuncParamModifier {
    type M = FuncParamModifier;

    open spec fn model(&self) -> FuncParamModifier {
        *self
    }
}

/// A set of parameter modifiers, held in one byte.
#[derive(PartialEq, Eq, Structural, Copy, Clone, Debug)]
pub struct FuncParamModifierSet(u8);

impl FuncParamModifierSet {
    /// The byte that holds the set: the bits of its members, taken together.
    pub closed spec fn bits(self) -> u8 {
        self.0
    }

    /// The modifiers that the set holds: those whose bit is set.
    pub open spec fn members(self) -> Set<FuncParamModifier> {
        Set::new(|m: FuncParamModifier| self.bits() & m.bit() == m.bit())
    }

    /// No bit is set that stands for no modifier.
    pub open spec fn wf(self) -> bool {
        self.bits() <= 3
    }

    /// Every set that is built is well formed.
    #[verifier::type_invariant]
    spec fn tidy(self) -> bool {
        self.0 <= 3
    }

    /// The set with `item` added, in the model.
    pub closed spec fn added(self, item: FuncParamModifier) -> Self {
        FuncParamModifierSet(self.0 | item.bit())
    }

    /// Two sets are equal exactly when they are held in the same byte.
    pub proof fn lemma_equal_by_bits(self, other: Self)
        ensures
            (self == other) <==> (self.bits() == other.bits()),
    {
    }

    /// Two sets are equal exactly when they hold the same modifiers.
    pub proof fn lemma_equal_by_members(self, other: Self)
        requires
            self.wf(),
            other.wf(),
        ensures
            (self == other) <==> (self.members() == other.members()),
    {
        if self.members() == other.members() {
            let a: u8 = self.0;
            let b: u8 = other.0;
            assert((a & 1 == 1) == (b & 1 == 1)) by {
                let m = FuncParamModifier::Covariant;
                assert(self.members().contains(m) == other.members().contains(m));
            }
            assert((a & 2 == 2) == (b & 2 == 2)) by {
                let m = FuncParamModifier::Final;
                assert(self.members().contains(m) == other.members().contains(m));
            }
            assert(a == b) by (bit_vector)
                requires
                    a <= 3,
                    b <= 3,
                    (a & 1 == 1) == (b & 1 == 1),
                    (a & 2 == 2) == (b & 2 == 2),
            ;
        }
    }

    /// What adding a modifier does to the byte.  Adding a modifier that the
    /// set holds changes nothing, adding one twice is adding it once, and
    /// the order of two additions does not matter.
    pub proof fn lemma_added(self, a: FuncParamModifier, b: FuncParamModifier)
        ensures
            self.added(a).bits() == self.bits() | a.bit(),
            self.added(a).members() == self.members().insert(a),
            self.wf() ==> self.added(a).wf(),
            self.members().contains(a) ==> self.added(a) == self,
            self.added(a).added(a) == self.added(a),
            self.added(a).added(b) == self.added(b).added(a),
    {
        let s: u8 = self.0;
        let x: u8 = a.bit();
        let y: u8 = b.bit();
        assert(x <= 3 && y <= 3);
        assert((s & x == x) ==> (s | x) == s) by (bit_vector);
        assert(((s | x) | x) == (s | x)) by (bit_vector);
        assert(((s | x) | y) == ((s | y) | x)) by (bit_vector);
        assert(s <= 3 ==> (s | x) <= 3) by (bit_vector)
            requires
                x <= 3,
        ;
        assert forall|m: FuncParamModifier|
            self.added(a).members().contains(m) == self.members().insert(a).contains(m) by {
            lemma_bit_added(s, x, m.bit());
        }
        assert(self.added(a).members() =~= self.members().insert(a));
    }

    /// The set with `item` added.
    pub fn with(&self, item: FuncParamModifier) -> (r: Self)
        ensures
            r == self.added(item),
            r.bits() == self.bits() | item.bit(),
            r.members() == self.members().insert(item),
            r.wf(),
    {
        let bits: u8 = self.0;
        let mask: u8 = item.mask();
        proof {
            use_type_invariant(self);
            self.lemma_added(item, item);
        }
        FuncParamModifierSet(bits | mask)
    }

    /// Whether the set holds `item`.
    pub fn contains(&self, item: FuncParamModifier) -> (r: bool)
        ensures
            r == self.members().contains(item),
            self.wf(),
    {
        proof {
            use_type_invariant(self);
        }
        let mask = item.mask();
        self.0 & mask == mask
    }

    /// The set of the modifiers in `items`, in the model: the empty set
    /// with each of them added.
    pub closed spec fn of(items: Seq<FuncParamModifier>) -> Self
        decreases items.len(),
    {
        if items.len() == 0 {
            FuncParamModifierSet(0)
        } else {
            Self::of(items.drop_last()).added(items.last())
        }
    }

    /// The set of the modifiers in `items` is well formed and holds exactly
    /// the modifiers that stand in `items`.
    pub proof fn lemma_of(items: Seq<FuncParamModifier>)
        ensures
            Self::of(items).wf(),
            forall|m: FuncParamModifier|
                Self::of(items).members().contains(m) <==> items.contains(m),
        decreases items.len(),
    {
        if items.len() == 0 {
            assert forall|m: FuncParamModifier| !Self::of(items).members().contains(m) by {
                lemma_no_bit(m.bit());
            }
        } else {
            let head = items.drop_last();
            let last = items.last();
            Self::lemma_of(head);
            Self::of(head).lemma_added(last, last);
            assert forall|m: FuncParamModifier|
                Self::of(items).members().contains(m) <==> items.contains(m) by {
                if head.contains(m) {
                    let k = choose|k: int| 0 <= k < head.len() && head[k] == m;
                    assert(items[k] == m);
                }
                if m == last {
                    assert(items[items.len() - 1] == m);
                }
                if items.contains(m) {
                    let k = choose|k: int| 0 <= k < items.len() && items[k] == m;
                    if k < items.len() - 1 {
                        assert(head[k] == m);
                    }
                }
            }
        }
    }

    /// The modifier `m` alone where the set holds it, else nothing.
    pub open spec fn part(self, m: FuncParamModifier) -> Seq<FuncParamModifier> {
        if self.members().contains(m) {
            seq![m]
        } else {
            Seq::empty()
        }
    }

    /// The modifiers of the set, each once, in the declared order.
    pub open spec fn listed(self) -> Seq<FuncParamModifier> {
        self.part(FuncParamModifier::Covariant)
            + self.part(FuncParamModifier::Final)
    }

    /// Whether `list` holds exactly the modifiers of the set whose rank is
    /// under `bound`.
    spec fn holds(self, list: Seq<FuncParamModifier>, bound: nat) -> bool {
        forall|m: FuncParamModifier| list.contains(m) <==> self.members().contains(m) && m.rank() < bound
    }

    /// A list that holds the modifiers under the rank of `next` holds, with
    /// `next` after it where the set holds it, those up to that rank.
    proof fn lemma_holds_more(self, list: Seq<FuncParamModifier>, next: FuncParamModifier)
        requires
            self.holds(list, next.rank()),
        ensures
            self.holds(list + self.part(next), next.rank() + 1),
    {
        assert forall|m: FuncParamModifier|
            (list + self.part(next)).contains(m) <==> self.members().contains(m) && m.rank()
                < next.rank() + 1 by {
            lemma_concat_contains(list, self.part(next), m);
            assert(m.rank() == next.rank() ==> m == next);
            if self.members().contains(next) {
                assert(self.part(next)[0] == next);
            }
        }
    }

    /// The list of a set holds exactly the modifiers of the set.
    pub proof fn lemma_listed(self)
        ensures
            forall|m: FuncParamModifier| self.listed().contains(m) <==> self.members().contains(m),
    {
        let l0 = self.part(FuncParamModifier::Covariant);
        self.lemma_holds_more(Seq::empty(), FuncParamModifier::Covariant);
        assert(Seq::<FuncParamModifier>::empty() + self.part(FuncParamModifier::Covariant) =~= l0);
        let l1 = l0 + self.part(FuncParamModifier::Final);
        self.lemma_holds_more(l0, FuncParamModifier::Final);
        assert(l1 == self.listed());
        assert forall|m: FuncParamModifier|
            self.listed().contains(m) <==> self.members().contains(m) by {
            assert(m.rank() < 2);
        }
    }

    /// Whether the ranks in `list` rise and stay under `bound`.
    spec fn rising(list: Seq<FuncParamModifier>, bound: nat) -> bool {
        &&& forall|i: int| 0 <= i < list.len() ==> (#[trigger] list[i]).rank() < bound
        &&& forall|i: int, j: int|
            0 <= i < j < list.len() ==> (#[trigger] list[i]).rank() < (#[trigger] list[j]).rank()
    }

    /// The list of a set stands in the declared order.
    pub proof fn lemma_listed_in_order(self)
        ensures
            forall|i: int, j: int|
                0 <= i < j < self.listed().len() ==> (#[trigger] self.listed()[i]).rank() < (
                #[trigger] self.listed()[j]).rank(),
    {
        let l0 = self.part(FuncParamModifier::Covariant);
        assert(Self::rising(l0, 1));
        let l1 = l0 + self.part(FuncParamModifier::Final);
        assert(Self::rising(l1, 2));
        assert(l1 == self.listed());
    }

    /// A set is the set of the modifiers in its list: built again from what
    /// `to_vec` gives, it is the same set.
    pub proof fn lemma_round_trip(self)
        requires
            self.wf(),
        ensures
            Self::of(self.listed()) == self,
    {
        self.lemma_listed();
        Self::lemma_of(self.listed());
        assert(Self::of(self.listed()).members() =~= self.members());
        Self::of(self.listed()).lemma_equal_by_members(self);
    }

    /// The set of the modifiers in `items`.
    pub fn from_slice(items: &[FuncParamModifier]) -> (r: Self)
        ensures
            r == Self::of(items@),
            forall|m: FuncParamModifier| r.members().contains(m) <==> items@.contains(m),
            r.wf(),
    {
        let mut set = FuncParamModifierSet::default();
        let mut i: usize = 0;
        proof {
            set.lemma_equal_by_bits(Self::of(items@.take(0)));
        }
        while i < items.len()
            invariant
                i <= items.len(),
                set == Self::of(items@.take(i as int)),
            decreases items.len() - i,
        {
            proof {
                assert(items@.take(i + 1).drop_last() =~= items@.take(i as int));
            }
            set = set.with(items[i]);
            i = i + 1;
        }
        proof {
            assert(items@.take(items.len() as int) =~= items@);
            Self::lemma_of(items@);
        }
        set
    }

    /// The set of the modifiers in `items`.
    pub fn from_iter<const N: usize>(items: [FuncParamModifier; N]) -> (r: Self)
        ensures
            r == Self::of(items@),
            forall|m: FuncParamModifier| r.members().contains(m) <==> items@.contains(m),
            r.wf(),
    {
        Self::from_slice(items.as_slice())
    }

    /// The modifiers of the set, each once, in the declared order.
    pub fn to_vec(&self) -> (v: Vec<FuncParamModifier>)
        ensures
            v@ == self.listed(),
            self.wf(),
            forall|m: FuncParamModifier| v@.contains(m) <==> self.members().contains(m),
            forall|i: int, j: int| 0 <= i < j < v.len() ==> v[i].rank() < v[j].rank(),
    {
        let mut v: Vec<FuncParamModifier> = Vec::new();
        let ghost s0 = v@;
        if self.contains(FuncParamModifier::Covariant) {
            v.push(FuncParamModifier::Covariant);
        }
        assert(v@ =~= s0 + self.part(FuncParamModifier::Covariant));
        let ghost s1 = v@;
        if self.contains(FuncParamModifier::Final) {
            v.push(FuncParamModifier::Final);
        }
        assert(v@ =~= s1 + self.part(FuncParamModifier::Final));
        proof {
            use_type_invariant(self);
            self.lemma_listed();
            self.lemma_listed_in_order();
        }
        v
    }
}

impl Default for FuncParamModifierSet {
    /// The empty set.
    fn default() -> (r: Self)
        ensures
            r.bits() == 0,
            r.members() == Set::<FuncParamModifier>::empty(),
            r.wf(),
    {
        let r = FuncParamModifierSet(0);
        proof {
            assert forall|m: FuncParamModifier| !r.members().contains(m) by {
                lemma_no_bit(m.bit());
            }
            assert(r.members() =~= Set::<FuncParamModifier>::empty());
        }
        r
    }
}

impl Model for FuncParamModifierSet {
    type M = Set<FuncParamModifier>;

    open spec fn model(&self) -> Set<FuncParamModifier> {
        self.members()
    }
}

} // verus!
