//! Classes and mixins, their members, and the set of class modifiers.

use vstd::prelude::*;
use crate::dart::bits::{lemma_bit_added, lemma_concat_contains, lemma_no_bit};
use crate::dart::func_like::{
    FuncBodyContent, FuncBodyContentM, FuncLike, FuncLikeM, FuncParam, FuncParamM, FuncParams,
    FuncParamsM,
};
use crate::dart::meta::{WithMeta, WithMetaM};
use crate::dart::ty::{NotFuncType, NotFuncTypeM};
use crate::dart::type_param::{TypeParam, TypeParamM};
use crate::dart::var::{Var, VarM};
use crate::model::Model;

verus! {

/// A class or a mixin.
#[derive(PartialEq, Eq, Debug)]
pub struct Class<'s> {
    pub modifiers: ClassModifierSet,
    pub name: &'s str,
    pub type_params: Vec<TypeParam<'s>>,
    /// The base class.
    pub extends: Option<NotFuncType<'s>>,
    /// Mix-ins.
    pub with: Vec<NotFuncType<'s>>,
    /// Interfaces.
    pub implements: Vec<NotFuncType<'s>>,
    /// Types a mix-in can be added to.
    pub mixin_on: Vec<NotFuncType<'s>>,
    pub body: Vec<WithMeta<'s, ClassMember<'s>>>,
}

/// A member of a class.
#[derive(PartialEq, Eq, Debug)]
pub enum ClassMember<'s> {
    Constructor(Constructor<'s>),
    Var(Var<'s>),
    FuncLike(FuncLike<'s>),
}

/// A constructor.  Its name may have dots in it (`Foo.named`).
#[derive(PartialEq, Eq, Debug)]
pub struct Constructor<'s> {
    pub modifier: Option<ConstructorModifier>,
    pub name: &'s str,
    pub params: FuncParams<'s, FuncParam<'s>>,
    /// The initializer list after the `:`, as it was written.
    pub initializers: Option<&'s str>,
    pub body: Option<FuncBodyContent<'s>>,
}

/// The modifier of a constructor.
#[derive(PartialEq, Eq, Copy, Clone, Debug)]
pub enum ConstructorModifier {
    Const,
    Factory,
    External,
}

/// The model of a class.
pub struct ClassM {
    pub modifiers: Set<ClassModifier>,
    pub name: Seq<u8>,
    pub type_params: Seq<TypeParamM>,
    pub extends: Option<NotFuncTypeM>,
    pub with: Seq<NotFuncTypeM>,
    pub implements: Seq<NotFuncTypeM>,
    pub mixin_on: Seq<NotFuncTypeM>,
    pub body: Seq<WithMetaM<ClassMemberM>>,
}

/// The model of a member of a class.
pub enum ClassMemberM {
    Constructor(ConstructorM),
    Var(VarM),
    FuncLike(FuncLikeM),
}

/// The model of a constructor.
pub struct ConstructorM {
    pub modifier: Option<ConstructorModifier>,
    pub name: Seq<u8>,
    pub params: FuncParamsM<FuncParamM, FuncParamM>,
    pub initializers: Option<Seq<u8>>,
    pub body: Option<FuncBodyContentM>,
}

impl Model for ConstructorModifier {
    type M = ConstructorModifier;

    open spec fn model(&self) -> ConstructorModifier {
        *self
    }
}

impl<'s> Model for Constructor<'s> {
    type M = ConstructorM;

    open spec fn model(&self) -> ConstructorM {
        ConstructorM {
            modifier: self.modifier.model(),
            name: self.name.model(),
            params: self.params.model(),
            initializers: self.initializers.model(),
            body: self.body.model(),
        }
    }
}

impl<'s> Model for ClassMember<'s> {
    type M = ClassMemberM;

    open spec fn model(&self) -> ClassMemberM {
        match self {
            ClassMember::Constructor(c) => ClassMemberM::Constructor(c.model()),
            ClassMember::Var(v) => ClassMemberM::Var(v.model()),
            ClassMember::FuncLike(f) => ClassMemberM::FuncLike(f.model()),
        }
    }
}

impl<'s> Model for Class<'s> {
    type M = ClassM;

    open spec fn model(&self) -> ClassM {
        ClassM {
            modifiers: self.modifiers.model(),
            name: self.name.model(),
            type_params: self.type_params.model(),
            extends: self.extends.model(),
            with: self.with.model(),
            implements: self.implements.model(),
            mixin_on: self.mixin_on.model(),
            body: self.body.model(),
        }
    }
}

/// A modifier of a class.
///
/// The possible combinations are:
///
/// - `mixin` or `class`
/// - `mixin class`
/// - `base mixin` (only the `base` modifier can appear before a mixin declaration)
/// - `class` with other modifiers
///
/// See [Class modifiers](https://dart.dev/language/class-modifiers).
#[derive(PartialEq, Eq, Copy, Clone, Debug)]
pub enum ClassModifier {
    Class,
    Mixin,
    Abstract,
    Base,
    Final,
    Interface,
    Sealed,
}

impl ClassModifier {
    /// The place of the modifier in the declared order.
    pub open spec fn rank(self) -> nat {
        match self {
            ClassModifier::Class => 0,
            ClassModifier::Mixin => 1,
            ClassModifier::Abstract => 2,
            ClassModifier::Base => 3,
            ClassModifier::Final => 4,
            ClassModifier::Interface => 5,
            ClassModifier::Sealed => 6,
        }
    }

    /// The bit that stands for the modifier in a set.
    pub open spec fn bit(self) -> u8 {
        match self {
            ClassModifier::Class => 1,
            ClassModifier::Mixin => 2,
            ClassModifier::Abstract => 4,
            ClassModifier::Base => 8,
            ClassModifier::Final => 16,
            ClassModifier::Interface => 32,
            ClassModifier::Sealed => 64,
        }
    }

    fn mask(self) -> (m: u8)
        ensures
            m == self.bit(),
    {
        match self {
            ClassModifier::Class => 1,
            ClassModifier::Mixin => 2,
            ClassModifier::Abstract => 4,
            ClassModifier::Base => 8,
            ClassModifier::Final => 16,
            ClassModifier::Interface => 32,
            ClassModifier::Sealed => 64,
        }
    }
}

impl Model for ClassModifier {
    type M = ClassModifier;

    open spec fn model(&self) -> ClassModifier {
        *self
    }
}

/// A set of class modifiers, held in one byte.
#[derive(PartialEq, Eq, Structural, Copy, Clone, Debug)]
pub struct ClassModifierSet(u8);

impl ClassModifierSet {
    /// The byte that holds the set: the bits of its members, taken together.
    pub closed spec fn bits(self) -> u8 {
        self.0
    }

    /// The modifiers that the set holds: those whose bit is set.
    pub open spec fn members(self) -> Set<ClassModifier> {
        Set::new(|m: ClassModifier| self.bits() & m.bit() == m.bit())
    }

    /// No bit is set that stands for no modifier.
    pub open spec fn wf(self) -> bool {
        self.bits() <= 127
    }

    /// Every set that is built is well formed.
    #[verifier::type_invariant]
    spec fn tidy(self) -> bool {
        self.0 <= 127
    }

    /// The set with `item` added, in the model.
    pub closed spec fn added(self, item: ClassModifier) -> Self {
        ClassModifierSet(self.0 | item.bit())
    }

    /// Two sets are equal exactly when they are held in the same byte.
    pub proof fn lemma_equal_by_bits(self, other: Self)
        ensures
            (self == other) <==> (self.bits() == other.bits()),
    {
    }

    /// Two sets are equal exactly when they hold the same modifiers.
    pub proof fn lemma_equal_by_members(self, other: Self)
        requires
            self.wf(),
            other.wf(),
        ensures
            (self == other) <==> (self.members() == other.members()),
    {
        if self.members() == other.members() {
            let a: u8 = self.0;
            let b: u8 = other.0;
            assert((a & 1 == 1) == (b & 1 == 1)) by {
                let m = ClassModifier::Class;
                assert(self.members().contains(m) == other.members().contains(m));
            }
            assert((a & 2 == 2) == (b & 2 == 2)) by {
                let m = ClassModifier::Mixin;
                assert(self.members().contains(m) == other.members().contains(m));
            }
            assert((a & 4 == 4) == (b & 4 == 4)) by {
                let m = ClassModifier::Abstract;
                assert(self.members().contains(m) == other.members().contains(m));
            }
            assert((a & 8 == 8) == (b & 8 == 8)) by {
                let m = ClassModifier::Base;
                assert(self.members().contains(m) == other.members().contains(m));
            }
            assert((a & 16 == 16) == (b & 16 == 16)) by {
                let m = ClassModifier::Final;
                assert(self.members().contains(m) == other.members().contains(m));
            }
            assert((a & 32 == 32) == (b & 32 == 32)) by {
                let m = ClassModifier::Interface;
                assert(self.members().contains(m) == other.members().contains(m));
            }
            assert((a & 64 == 64) == (b & 64 == 64)) by {
                let m = ClassModifier::Sealed;
                assert(self.members().contains(m) == other.members().contains(m));
            }
            assert(a == b) by (bit_vector)
                requires
                    a <= 127,
                    b <= 127,
                    (a & 1 == 1) == (b & 1 == 1),
                    (a & 2 == 2) == (b & 2 == 2),
                    (a & 4 == 4) == (b & 4 == 4),
                    (a & 8 == 8) == (b & 8 == 8),
                    (a & 16 == 16) == (b & 16 == 16),
                    (a & 32 == 32) == (b & 32 == 32),
                    (a & 64 == 64) == (b & 64 == 64),
            ;
        }
    }

    /// What adding a modifier does to the byte.  Adding a modifier that the
    /// set holds changes nothing, adding one twice is adding it once, and
    /// the order of two additions does not matter.
    pub proof fn lemma_added(self, a: ClassModifier, b: ClassModifier)
        ensures
            self.added(a).bits() == self.bits() | a.bit(),
            self.added(a).members() == self.members().insert(a),
            self.wf() ==> self.added(a).wf(),
            self.members().contains(a) ==> self.added(a) == self,
            self.added(a).added(a) == self.added(a),
            self.added(a).added(b) == self.added(b).added(a),
    {
        let s: u8 = self.0;
        let x: u8 = a.bit();
        let y: u8 = b.bit();
        assert(x <= 127 && y <= 127);
        assert((s & x == x) ==> (s | x) == s) by (bit_vector);
        assert(((s | x) | x) == (s | x)) by (bit_vector);
        assert(((s | x) | y) == ((s | y) | x)) by (bit_vector);
        assert(s <= 127 ==> (s | x) <= 127) by (bit_vector)
            requires
                x <= 127,
        ;
        assert forall|m: ClassModifier|
            self.added(a).members().contains(m) == self.members().insert(a).contains(m) by {
            lemma_bit_added(s, x, m.bit());
        }
        assert(self.added(a).members() =~= self.members().insert(a));
    }

    /// The set with `item` added.
    pub fn with(&self, item: ClassModifier) -> (r: Self)
        ensures
            r == self.added(item),
            r.bits() == self.bits() | item.bit(),
            r.members() == self.members().insert(item),
            r.wf(),
    {
        let bits: u8 = self.0;
        let mask: u8 = item.mask();
        proof {
            use_type_invariant(self);
            self.lemma_added(item, item);
        }
        ClassModifierSet(bits | mask)
    }

    /// Whether the set holds `item`.
    pub fn contains(&self, item: ClassModifier) -> (r: bool)
        ensures
            r == self.members().contains(item),
            self.wf(),
    {
        proof {
            use_type_invariant(self);
        }
        let mask = item.mask();
        self.0 & mask == mask
    }

    /// The set of the modifiers in `items`, in the model: the empty set
    /// with each of them added.
    pub closed spec fn of(items: Seq<ClassModifier>) -> Self
        decreases items.len(),
    {
        if items.len() == 0 {
            ClassModifierSet(0)
        } else {
            Self::of(items.drop_last()).added(items.last())
        }
    }

    /// The set of the modifiers in `items` is well formed and holds exactly
    /// the modifiers that stand in `items`.
    pub proof fn lemma_of(items: Seq<ClassModifier>)
        ensures
            Self::of(items).wf(),
            forall|m: ClassModifier|
                Self::of(items).members().contains(m) <==> items.contains(m),
        decreases items.len(),
    {
        if items.len() == 0 {
            assert forall|m: ClassModifier| !Self::of(items).members().contains(m) by {
                lemma_no_bit(m.bit());
            }
        } else {
            let head = items.drop_last();
            let last = items.last();
            Self::lemma_of(head);
            Self::of(head).lemma_added(last, last);
            assert forall|m: ClassModifier|
                Self::of(items).members().contains(m) <==> items.contains(m) by {
                if head.contains(m) {
                    let k = choose|k: int| 0 <= k < head.len() && head[k] == m;
                    assert(items[k] == m);
                }
                if m == last {
                    assert(items[items.len() - 1] == m);
                }
                if items.contains(m) {
                    let k = choose|k: int| 0 <= k < items.len() && items[k] == m;
                    if k < items.len() - 1 {
                        assert(head[k] == m);
                    }
                }
            }
        }
    }

    /// The modifier `m` alone where the set holds it, else nothing.
    pub open spec fn part(self, m: ClassModifier) -> Seq<ClassModifier> {
        if self.members().contains(m) {
            seq![m]
        } else {
            Seq::empty()
        }
    }

    /// The modifiers of the set, each once, in the declared order.
    pub open spec fn listed(self) -> Seq<ClassModifier> {
        self.part(ClassModifier::Class)
            + self.part(ClassModifier::Mixin)
            + self.part(ClassModifier::Abstract)
            + self.part(ClassModifier::Base)
            + self.part(ClassModifier::Final)
            + self.part(ClassModifier::Interface)
            + self.part(ClassModifier::Sealed)
    }

    /// Whether `list` holds exactly the modifiers of the set whose rank is
    /// under `bound`.
    spec fn holds(self, list: Seq<ClassModifier>, bound: nat) -> bool {
        forall|m: ClassModifier| list.contains(m) <==> self.members().contains(m) && m.rank() < bound
    }

    /// A list that holds the modifiers under the rank of `next` holds, with
    /// `next` after it where the set holds it, those up to that rank.
    proof fn lemma_holds_more(self, list: Seq<ClassModifier>, next: ClassModifier)
        requires
            self.holds(list, next.rank()),
        ensures
            self.holds(list + self.part(next), next.rank() + 1),
    {
        assert forall|m: ClassModifier|
            (list + self.part(next)).contains(m) <==> self.members().contains(m) && m.rank()
                < next.rank() + 1 by {
            lemma_concat_contains(list, self.part(next), m);
            assert(m.rank() == next.rank() ==> m == next);
            if self.members().contains(next) {
                assert(self.part(next)[0] == next);
            }
        }
    }

    /// The list of a set holds exactly the modifiers of the set.
    pub proof fn lemma_listed(self)
        ensures
            forall|m: ClassModifier| self.listed().contains(m) <==> self.members().contains(m),
    {
        let l0 = self.part(ClassModifier::Class);
        self.lemma_holds_more(Seq::empty(), ClassModifier::Class);
        assert(Seq::<ClassModifier>::empty() + self.part(ClassModifier::Class) =~= l0);
        let l1 = l0 + self.part(ClassModifier::Mixin);
        self.lemma_holds_more(l0, ClassModifier::Mixin);
        let l2 = l1 + self.part(ClassModifier::Abstract);
        self.lemma_holds_more(l1, ClassModifier::Abstract);
        let l3 = l2 + self.part(ClassModifier::Base);
        self.lemma_holds_more(l2, ClassModifier::Base);
        let l4 = l3 + self.part(ClassModifier::Final);
        self.lemma_holds_more(l3, ClassModifier::Final);
        let l5 = l4 + self.part(ClassModifier::Interface);
        self.lemma_holds_more(l4, ClassModifier::Interface);
        let l6 = l5 + self.part(ClassModifier::Sealed);
        self.lemma_holds_more(l5, ClassModifier::Sealed);
        assert(l6 == self.listed());
        assert forall|m: ClassModifier|
            self.listed().contains(m) <==> self.members().contains(m) by {
            assert(m.rank() < 7);
        }
    }

    /// Whether the ranks in `list` rise and stay under `bound`.
    spec fn rising(list: Seq<ClassModifier>, bound: nat) -> bool {
        &&& forall|i: int| 0 <= i < list.len() ==> (#[trigger] list[i]).rank() < bound
        &&& forall|i: int, j: int|
            0 <= i < j < list.len() ==> (#[trigger] list[i]).rank() < (#[trigger] list[j]).rank()
    }

    /// The list of a set stands in the declared order.
    pub proof fn lemma_listed_in_order(self)
        ensures
            forall|i: int, j: int|
                0 <= i < j < self.listed().len() ==> (#[trigger] self.listed()[i]).rank() < (
                #[trigger] self.listed()[j]).rank(),
    {
        let l0 = self.part(ClassModifier::Class);
        assert(Self::rising(l0, 1));
        let l1 = l0 + self.part(ClassModifier::Mixin);
        assert(Self::rising(l1, 2));
        let l2 = l1 + self.part(ClassModifier::Abstract);
        assert(Self::rising(l2, 3));
        let l3 = l2 + self.part(ClassModifier::Base);
        assert(Self::rising(l3, 4));
        let l4 = l3 + self.part(ClassModifier::Final);
        assert(Self::rising(l4, 5));
        let l5 = l4 + self.part(ClassModifier::Interface);
        assert(Self::rising(l5, 6));
        let l6 = l5 + self.part(ClassModifier::Sealed);
        assert(Self::rising(l6, 7));
        assert(l6 == self.listed());
    }

    /// A set is the set of the modifiers in its list: built again from what
    /// `to_vec` gives, it is the same set.
    pub proof fn lemma_round_trip(self)
        requires
            self.wf(),
        ensures
            Self::of(self.listed()) == self,
    {
        self.lemma_listed();
        Self::lemma_of(self.listed());
        assert(Self::of(self.listed()).members() =~= self.members());
        Self::of(self.listed()).lemma_equal_by_members(self);
    }

    /// The set of the modifiers in `items`.
    pub fn from_slice(items: &[ClassModifier]) -> (r: Self)
        ensures
            r == Self::of(items@),
            forall|m: ClassModifier| r.members().contains(m) <==> items@.contains(m),
            r.wf(),
    {
        let mut set = ClassModifierSet::default();
        let mut i: usize = 0;
        proof {
            set.lemma_equal_by_bits(Self::of(items@.take(0)));
        }
        while i < items.len()
            invariant
                i <= items.len(),
                set == Self::of(items@.take(i as int)),
            decreases items.len() - i,
        {
            proof {
                assert(items@.take(i + 1).drop_last() =~= items@.take(i as int));
            }
            set = set.with(items[i]);
            i = i + 1;
        }
        proof {
            assert(items@.take(items.len() as int) =~= items@);
            Self::lemma_of(items@);
        }
        set
    }

    /// The set of the modifiers in `items`.
    pub fn from_iter<const N: usize>(items: [ClassModifier; N]) -> (r: Self)
        ensures
            r == Self::of(items@),
            forall|m: ClassModifier| r.members().contains(m) <==> items@.contains(m),
            r.wf(),
    {
        Self::from_slice(items.as_slice())
    }

    /// The modifiers of the set, each once, in the declared order.
    pub fn to_vec(&self) -> (v: Vec<ClassModifier>)
        ensures
            v@ == self.listed(),
            self.wf(),
            forall|m: ClassModifier| v@.contains(m) <==> self.members().contains(m),
            forall|i: int, j: int| 0 <= i < j < v.len() ==> v[i].rank() < v[j].rank(),
    {
        let mut v: Vec<ClassModifier> = Vec::new();
        let ghost s0 = v@;
        if self.contains(ClassModifier::Class) {
            v.push(ClassModifier::Class);
        }
        assert(v@ =~= s0 + self.part(ClassModifier::Class));
        let ghost s1 = v@;
        if self.contains(ClassModifier::Mixin) {
            v.push(ClassModifier::Mixin);
        }
        assert(v@ =~= s1 + self.part(ClassModifier::Mixin));
        let ghost s2 = v@;
        if self.contains(ClassModifier::Abstract) {
            v.push(ClassModifier::Abstract);
        }
        assert(v@ =~= s2 + self.part(ClassModifier::Abstract));
        let ghost s3 = v@;
        if self.contains(ClassModifier::Base) {
            v.push(ClassModifier::Base);
        }
        assert(v@ =~= s3 + self.part(ClassModifier::Base));
        let ghost s4 = v@;
        if self.contains(ClassModifier::Final) {
            v.push(ClassModifier::Final);
        }
        assert(v@ =~= s4 + self.part(ClassModifier::Final));
        let ghost s5 = v@;
        if self.contains(ClassModifier::Interface) {
            v.push(ClassModifier::Interface);
        }
        assert(v@ =~= s5 + self.part(ClassModifier::Interface));
        let ghost s6 = v@;
        if self.contains(ClassModifier::Sealed) {
            v.push(ClassModifier::Sealed);
        }
        assert(v@ =~= s6 + self.part(ClassModifier::Sealed));
        proof {
            use_type_invariant(self);
            self.lemma_listed();
            self.lemma_listed_in_order();
        }
        v
    }
}

impl Default for ClassModifierSet {
    /// The empty set.
    fn default() -> (r: Self)
        ensures
            r.bits() == 0,
            r.members() == Set::<ClassModifier>::empty(),
            r.wf(),
    {
        let r = ClassModifierSet(0);
        proof {
            assert forall|m: ClassModifier| !r.members().contains(m) by {
                lemma_no_bit(m.bit());
            }
            assert(r.members() =~= Set::<ClassModifier>::empty());
        }
        r
    }
}

impl Model for ClassModifierSet {
    type M = Set<ClassModifier>;

    open spec fn model(&self) -> Set<ClassModifier> {
        self.members()
    }
}

} // verus!
