//! Variables and the set of their modifiers.

use vstd::prelude::*;
use crate::dart::bits::{lemma_bit_added, lemma_concat_contains, lemma_no_bit};
use crate::dart::expr::{Expr, ExprM};
use crate::dart::ty::{Type, TypeM};
use crate::model::Model;

verus! {

/// A variable declaration.  The token `var` leaves no trace: it stands for
/// "no type".
#[derive(PartialEq, Eq, Debug)]
pub struct Var<'s> {
    pub modifiers: VarModifierSet,
    pub var_type: Option<Type<'s>>,
    pub name: &'s str,
    pub initializer: Option<Expr<'s>>,
}

/// The model of a variable declaration.
pub struct VarM {
    pub modifiers: Set<VarModifier>,
    pub var_type: Option<TypeM>,
    pub name: Seq<u8>,
    pub initializer: Option<ExprM>,
}

impl<'s> Model for Var<'s> {
    type M = VarM;

    open spec fn model(&self) -> VarM {
        VarM {
            modifiers: self.modifiers.model(),
            var_type: self.var_type.model(),
            name: self.name.model(),
            initializer: self.initializer.model(),
        }
    }
}

/// A modifier of a variable declaration.
#[derive(PartialEq, Eq, Copy, Clone, Debug)]
pub enum VarModifier {
    External,
    Static,
    Const,
    Final,
    Late,
    /// Can only be used before non-final instance fields.
    Covariant,
}

impl VarModifier {
    /// The place of the modifier in the declared order.
    pub open spec fn rank(self) -> nat {
        match self {
            VarModifier::External => 0,
            VarModifier::Static => 1,
            VarModifier::Const => 2,
            VarModifier::Final => 3,
            VarModifier::Late => 4,
            VarModifier::Covariant => 5,
        }
    }

    /// The bit that stands for the modifier in a set.
    pub open spec fn bit(self) -> u8 {
        match self {
            VarModifier::External => 1,
            VarModifier::Static => 2,
            VarModifier::Const => 4,
            VarModifier::Final => 8,
            VarModifier::Late => 16,
            VarModifier::Covariant => 32,
        }
    }

    fn mask(self) -> (m: u8)
        ensures
            m == self.bit(),
    {
        match self {
            VarModifier::External => 1,
            VarModifier::Static => 2,
            VarModifier::Const => 4,
            VarModifier::Final => 8,
            VarModifier::Late => 16,
            VarModifier::Covariant => 32,
        }
    }
}

impl Model for VarModifier {
    type M = VarModifier;

    open spec fn model(&self) -> VarModifier {
        *self
    }
}

/// A set of variable modifiers, held in one byte.
#[derive(PartialEq, Eq, Structural, Copy, Clone, Debug)]
pub struct VarModifierSet(u8);

impl VarModifierSet {
    /// The byte that holds the set: the bits of its members, taken together.
    pub closed spec fn bits(self) -> u8 {
        self.0
    }

    /// The modifiers that the set holds: those whose bit is set.
    pub open spec fn members(self) -> Set<VarModifier> {
        Set::new(|m: VarModifier| self.bits() & m.bit() == m.bit())
    }

    /// No bit is set that stands for no modifier.
    pub open spec fn wf(self) -> bool {
        self.bits() <= 63
    }

    /// Every set that is built is well formed.
    #[verifier::type_invariant]
    spec fn tidy(self) -> bool {
        self.0 <= 63
    }

    /// The set with `item` added, in the model.
    pub closed spec fn added(self, item: VarModifier) -> Self {
        VarModifierSet(self.0 | item.bit())
    }

    /// Two sets are equal exactly when they are held in the same byte.
    pub proof fn lemma_equal_by_bits(self, other: Self)
        ensures
            (self == other) <==> (self.bits() == other.bits()),
    {
    }

    /// Two sets are equal exactly when they hold the same modifiers.
    pub proof fn lemma_equal_by_members(self, other: Self)
        requires
            self.wf(),
            other.wf(),
        ensures
            (self == other) <==> (self.members() == other.members()),
    {
        if self.members() == other.members() {
            let a: u8 = self.0;
            let b: u8 = other.0;
            assert((a & 1 == 1) == (b & 1 == 1)) by {
                let m = VarModifier::External;
                assert(self.members().contains(m) == other.members().contains(m));
            }
            assert((a & 2 == 2) == (b & 2 == 2)) by {
                let m = VarModifier::Static;
                assert(self.members().contains(m) == other.members().contains(m));
            }
            assert((a & 4 == 4) == (b & 4 == 4)) by {
                let m = VarModifier::Const;
                assert(self.members().contains(m) == other.members().contains(m));
            }
            assert((a & 8 == 8) == (b & 8 == 8)) by {
                let m = VarModifier::Final;
                assert(self.members().contains(m) == other.members().contains(m));
            }
            assert((a & 16 == 16) == (b & 16 == 16)) by {
                let m = VarModifier::Late;
                assert(self.members().contains(m) == other.members().contains(m));
            }
            assert((a & 32 == 32) == (b & 32 == 32)) by {
                let m = VarModifier::Covariant;
                assert(self.members().contains(m) == other.members().contains(m));
            }
            assert(a == b) by (bit_vector)
                requires
                    a <= 63,
                    b <= 63,
                    (a & 1 == 1) == (b & 1 == 1),
                    (a & 2 == 2) == (b & 2 == 2),
                    (a & 4 == 4) == (b & 4 == 4),
                    (a & 8 == 8) == (b & 8 == 8),
                    (a & 16 == 16) == (b & 16 == 16),
                    (a & 32 == 32) == (b & 32 == 32),
            ;
        }
    }

    /// What adding a modifier does to the byte.  Adding a modifier that the
    /// set holds changes nothing, adding one twice is adding it once, and
    /// the order of two additions does not matter.
    pub proof fn lemma_added(self, a: VarModifier, b: VarModifier)
        ensures
            self.added(a).bits() == self.bits() | a.bit(),
            self.added(a).members() == self.members().insert(a),
            self.wf() ==> self.added(a).wf(),
            self.members().contains(a) ==> self.added(a) == self,
            self.added(a).added(a) == self.added(a),
            self.added(a).added(b) == self.added(b).added(a),
    {
        let s: u8 = self.0;
        let x: u8 = a.bit();
        let y: u8 = b.bit();
        assert(x <= 63 && y <= 63);
        assert((s & x == x) ==> (s | x) == s) by (bit_vector);
        assert(((s | x) | x) == (s | x)) by (bit_vector);
        assert(((s | x) | y) == ((s | y) | x)) by (bit_vector);
        assert(s <= 63 ==> (s | x) <= 63) by (bit_vector)
            requires
                x <= 63,
        ;
        assert forall|m: VarModifier|
            self.added(a).members().contains(m) == self.members().insert(a).contains(m) by {
            lemma_bit_added(s, x, m.bit());
        }
        assert(self.added(a).members() =~= self.members().insert(a));
    }

    /// The set with `item` added.
    pub fn with(&self, item: VarModifier) -> (r: Self)
        ensures
            r == self.added(item),
            r.bits() == self.bits() | item.bit(),
            r.members() == self.members().insert(item),
            r.wf(),
    {
        let bits: u8 = self.0;
        let mask: u8 = item.mask();
        proof {
            use_type_invariant(self);
            self.lemma_added(item, item);
        }
        VarModifierSet(bits | mask)
    }

    /// Whether the set holds `item`.
    pub fn contains(&self, item: VarModifier) -> (r: bool)
        ensures
            r == self.members().contains(item),
            self.wf(),
    {
        proof {
            use_type_invariant(self);
        }
        let mask = item.mask();
        self.0 & mask == mask
    }

    /// The set of the modifiers in `items`, in the model: the empty set
    /// with each of them added.
    pub closed spec fn of(items: Seq<VarModifier>) -> Self
        decreases items.len(),
    {
        if items.len() == 0 {
            VarModifierSet(0)
        } else {
            Self::of(items.drop_last()).added(items.last())
        }
    }

    /// The set of the modifiers in `items` is well formed and holds exactly
    /// the modifiers that stand in `items`.
    pub proof fn lemma_of(items: Seq<VarModifier>)
        ensures
            Self::of(items).wf(),
            forall|m: VarModifier|
                Self::of(items).members().contains(m) <==> items.contains(m),
        decreases items.len(),
    {
        if items.len() == 0 {
            assert forall|m: VarModifier| !Self::of(items).members().contains(m) by {
                lemma_no_bit(m.bit());
            }
        } else {
            let head = items.drop_last();
            let last = items.last();
            Self::lemma_of(head);
            Self::of(head).lemma_added(last, last);
            assert forall|m: VarModifier|
                Self::of(items).members().contains(m) <==> items.contains(m) by {
                if head.contains(m) {
                    let k = choose|k: int| 0 <= k < head.len() && head[k] == m;
                    assert(items[k] == m);
                }
                if m == last {
                    assert(items[items.len() - 1] == m);
                }
                if items.contains(m) {
                    let k = choose|k: int| 0 <= k < items.len() && items[k] == m;
                    if k < items.len() - 1 {
                        assert(head[k] == m);
                    }
                }
            }
        }
    }

    /// The modifier `m` alone where the set holds it, else nothing.
    pub open spec fn part(self, m: VarModifier) -> Seq<VarModifier> {
        if self.members().contains(m) {
            seq![m]
        } else {
            Seq::empty()
        }
    }

    /// The modifiers of the set, each once, in the declared order.
    pub open spec fn listed(self) -> Seq<VarModifier> {
        self.part(VarModifier::External)
            + self.part(VarModifier::Static)
            + self.part(VarModifier::Const)
            + self.part(VarModifier::Final)
            + self.part(VarModifier::Late)
            + self.part(VarModifier::Covariant)
    }

    /// Whether `list` holds exactly the modifiers of the set whose rank is
    /// under `bound`.
    spec fn holds(self, list: Seq<VarModifier>, bound: nat) -> bool {
        forall|m: VarModifier| list.contains(m) <==> self.members().contains(m) && m.rank() < bound
    }

    /// A list that holds the modifiers under the rank of `next` holds, with
    /// `next` after it where the set holds it, those up to that rank.
    proof fn lemma_holds_more(self, list: Seq<VarModifier>, next: VarModifier)
        requires
            self.holds(list, next.rank()),
        ensures
            self.holds(list + self.part(next), next.rank() + 1),
    {
        assert forall|m: VarModifier|
            (list + self.part(next)).contains(m) <==> self.members().contains(m) && m.rank()
                < next.rank() + 1 by {
            lemma_concat_contains(list, self.part(next), m);
            assert(m.rank() == next.rank() ==> m == next);
            if self.members().contains(next) {
                assert(self.part(next)[0] == next);
            }
        }
    }

    /// The list of a set holds exactly the modifiers of the set.
    pub proof fn lemma_listed(self)
        ensures
            forall|m: VarModifier| self.listed().contains(m) <==> self.members().contains(m),
    {
        let l0 = self.part(VarModifier::External);
        self.lemma_holds_more(Seq::empty(), VarModifier::External);
        assert(Seq::<VarModifier>::empty() + self.part(VarModifier::External) =~= l0);
        let l1 = l0 + self.part(VarModifier::Static);
        self.lemma_holds_more(l0, VarModifier::Static);
        let l2 = l1 + self.part(VarModifier::Const);
        self.lemma_holds_more(l1, VarModifier::Const);
        let l3 = l2 + self.part(VarModifier::Final);
        self.lemma_holds_more(l2, VarModifier::Final);
        let l4 = l3 + self.part(VarModifier::Late);
        self.lemma_holds_more(l3, VarModifier::Late);
        let l5 = l4 + self.part(VarModifier::Covariant);
        self.lemma_holds_more(l4, VarModifier::Covariant);
        assert(l5 == self.listed());
        assert forall|m: VarModifier|
            self.listed().contains(m) <==> self.members().contains(m) by {
            assert(m.rank() < 6);
        }
    }

    /// Whether the ranks in `list` rise and stay under `bound`.
    spec fn rising(list: Seq<VarModifier>, bound: nat) -> bool {
        &&& forall|i: int| 0 <= i < list.len() ==> (#[trigger] list[i]).rank() < bound
        &&& forall|i: int, j: int|
            0 <= i < j < list.len() ==> (#[trigger] list[i]).rank() < (#[trigger] list[j]).rank()
    }

    /// The list of a set stands in the declared order.
    pub proof fn lemma_listed_in_order(self)
        ensures
            forall|i: int, j: int|
                0 <= i < j < self.listed().len() ==> (#[trigger] self.listed()[i]).rank() < (
                #[trigger] self.listed()[j]).rank(),
    {
        let l0 = self.part(VarModifier::External);
        assert(Self::rising(l0, 1));
        let l1 = l0 + self.part(VarModifier::Static);
        assert(Self::rising(l1, 2));
        let l2 = l1 + self.part(VarModifier::Const);
        assert(Self::rising(l2, 3));
        let l3 = l2 + self.part(VarModifier::Final);
        assert(Self::rising(l3, 4));
        let l4 = l3 + self.part(VarModifier::Late);
        assert(Self::rising(l4, 5));
        let l5 = l4 + self.part(VarModifier::Covariant);
        assert(Self::rising(l5, 6));
        assert(l5 == self.listed());
    }

    /// A set is the set of the modifiers in its list: built again from what
    /// `to_vec` gives, it is the same set.
    pub proof fn lemma_round_trip(self)
        requires
            self.wf(),
        ensures
            Self::of(self.listed()) == self,
    {
        self.lemma_listed();
        Self::lemma_of(self.listed());
        assert(Self::of(self.listed()).members() =~= self.members());
        Self::of(self.listed()).lemma_equal_by_members(self);
    }

    /// The set of the modifiers in `items`.
    pub fn from_slice(items: &[VarModifier]) -> (r: Self)
        ensures
            r == Self::of(items@),
            forall|m: VarModifier| r.members().contains(m) <==> items@.contains(m),
            r.wf(),
    {
        let mut set = VarModifierSet::default();
        let mut i: usize = 0;
        proof {
            set.lemma_equal_by_bits(Self::of(items@.take(0)));
        }
        while i < items.len()
            invariant
                i <= items.len(),
                set == Self::of(items@.take(i as int)),
            decreases items.len() - i,
        {
            proof {
                assert(items@.take(i + 1).drop_last() =~= items@.take(i as int));
            }
            set = set.with(items[i]);
            i = i + 1;
        }
        proof {
            assert(items@.take(items.len() as int) =~= items@);
            Self::lemma_of(items@);
        }
        set
    }

    /// The set of the modifiers in `items`.
    pub fn from_iter<const N: usize>(items: [VarModifier; N]) -> (r: Self)
        ensures
            r == Self::of(items@),
            forall|m: VarModifier| r.members().contains(m) <==> items@.contains(m),
            r.wf(),
    {
        Self::from_slice(items.as_slice())
    }

    /// The modifiers of the set, each once, in the declared order.
    pub fn to_vec(&self) -> (v: Vec<VarModifier>)
        ensures
            v@ == self.listed(),
            self.wf(),
            forall|m: VarModifier| v@.contains(m) <==> self.members().contains(m),
            forall|i: int, j: int| 0 <= i < j < v.len() ==> v[i].rank() < v[j].rank(),
    {
        let mut v: Vec<VarModifier> = Vec::new();
        let ghost s0 = v@;
        if self.contains(VarModifier::External) {
            v.push(VarModifier::External);
        }
        assert(v@ =~= s0 + self.part(VarModifier::External));
        let ghost s1 = v@;
        if self.contains(VarModifier::Static) {
            v.push(VarModifier::Static);
        }
        assert(v@ =~= s1 + self.part(VarModifier::Static));
        let ghost s2 = v@;
        if self.contains(VarModifier::Const) {
            v.push(VarModifier::Const);
        }
        assert(v@ =~= s2 + self.part(VarModifier::Const));
        let ghost s3 = v@;
        if self.contains(VarModifier::Final) {
            v.push(VarModifier::Final);
        }
        assert(v@ =~= s3 + self.part(VarModifier::Final));
        let ghost s4 = v@;
        if self.contains(VarModifier::Late) {
            v.push(VarModifier::Late);
        }
        assert(v@ =~= s4 + self.part(VarModifier::Late));
        let ghost s5 = v@;
        if self.contains(VarModifier::Covariant) {
            v.push(VarModifier::Covariant);
        }
        assert(v@ =~= s5 + self.part(VarModifier::Covariant));
        proof {
            use_type_invariant(self);
            self.lemma_listed();
            self.lemma_listed_in_order();
        }
        v
    }
}

impl Default for VarModifierSet {
    /// The empty set.
    fn default() -> (r: Self)
        ensures
            r.bits() == 0,
            r.members() == Set::<VarModifier>::empty(),
            r.wf(),
    {
        let r = VarModifierSet(0);
        proof {
            assert forall|m: VarModifier| !r.members().contains(m) by {
                lemma_no_bit(m.bit());
            }
            assert(r.members() =~= Set::<VarModifier>::empty());
        }
        r
    }
}

impl Model for VarModifierSet {
    type M = Set<VarModifier>;

    open spec fn model(&self) -> Set<VarModifier> {
        self.members()
    }
}

} // verus!
