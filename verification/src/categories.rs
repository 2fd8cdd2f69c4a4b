//! Open sets generated from a basis, as the objects of a category whose
//! morphisms are inclusions.
//!
//! A set is a `Vec<T>`; its model is the `Seq<T>` of its items. Items are
//! duplicated with `Clone`, of which Verus knows only the relation `cloned`,
//! so the contracts speak of copies rather than of equal sequences. Items are
//! compared with `==`, whose meaning in contracts is `eq_spec`, for item types
//! that obey it.

use vstd::prelude::*;
use vstd::std_specs::cmp::PartialEqSpec;

verus! {

/// `b` has as many items as `a`, and the item of `b` at each place is a clone
/// of the item of `a` at that place.
pub open spec fn copies<T: Clone>(a: Seq<T>, b: Seq<T>) -> bool {
    &&& a.len() == b.len()
    &&& forall|i: int| 0 <= i < a.len() ==> cloned(a[i], #[trigger] b[i])
}

/// `b` has as many sets as `a`, and each is a copy of the set of `a` at its place.
pub open spec fn copies_each<T: Clone>(a: Seq<Seq<T>>, b: Seq<Seq<T>>) -> bool {
    &&& a.len() == b.len()
    &&& forall|i: int| 0 <= i < a.len() ==> copies(a[i], #[trigger] b[i])
}

/// The sets held by a vector of vectors.
pub open spec fn sets_of<T>(v: Seq<Vec<T>>) -> Seq<Seq<T>> {
    v.map_values(|s: Vec<T>| s@)
}

/// Every index of `idx` names a set of a basis of `n` sets.
pub open spec fn indices_within(idx: Seq<usize>, n: nat) -> bool {
    forall|k: int| 0 <= k < idx.len() ==> (#[trigger] idx[k]) < n
}

/// The basis sets named by `idx`, one after the other, in the order of `idx`.
pub open spec fn union_of<T>(basis: Seq<Seq<T>>, idx: Seq<usize>) -> Seq<T> {
    idx.map_values(|i: usize| basis[i as int]).flatten()
}

/// `s` is a copy of the union of some basis sets.
pub open spec fn is_union<T: Clone>(basis: Seq<Seq<T>>, s: Seq<T>) -> bool {
    exists|idx: Seq<usize>|
        indices_within(idx, basis.len()) && copies(#[trigger] union_of(basis, idx), s)
}

/// Some item of `s` equals `x`.
pub open spec fn occurs_in<T: PartialEq>(x: T, s: Seq<T>) -> bool {
    exists|j: int| 0 <= j < s.len() && (#[trigger] s[j]).eq_spec(&x)
}

/// Every item of `from` occurs in `to`.
pub open spec fn included<T: PartialEq>(from: Seq<T>, to: Seq<T>) -> bool {
    forall|i: int| 0 <= i < from.len() ==> occurs_in(#[trigger] from[i], to)
}

/// Something that carries an object to an object.
pub trait Arrow<Obj> {
    /// `to` is a value that applying `self` to `from` may give.
    spec fn maps(&self, from: Obj, to: Obj) -> bool;

    /// What `self` carries `obj` to.
    fn apply(&self, obj: &Obj) -> (r: Obj)
        ensures
            self.maps(*obj, r),
    ;
}

/// Objects, and morphisms between them that can be composed.
pub trait Category {
    type Object;

    type Morphism: Arrow<Self::Object>;

    /// The object that the identity carries `obj` to.
    fn id(obj: &Self::Object) -> Self::Object;

    /// The morphism that applies `morph_1`, then `morph_2`.
    fn compose(morph_1: Self::Morphism, morph_2: Self::Morphism) -> (r: Self::Morphism)
        ensures
            forall|x: Self::Object, z: Self::Object|
                #[trigger] r.maps(x, z) <==> exists|y: Self::Object|
                    #[trigger] morph_1.maps(x, y) && morph_2.maps(y, z),
    ;
}

/// The inclusion of any set into the set `target`: it carries every set to a
/// copy of `target`.
pub struct Inclusion<T: Clone> {
    target: Vec<T>,
}

impl<T: Clone> Inclusion<T> {
    /// The set that the inclusion leads into.
    pub closed spec fn target(&self) -> Seq<T> {
        self.target@
    }
}

impl<T: Clone> Arrow<Vec<T>> for Inclusion<T> {
    open spec fn maps(&self, from: Vec<T>, to: Vec<T>) -> bool {
        copies(self.target(), to@)
    }

    fn apply(&self, obj: &Vec<T>) -> (r: Vec<T>) {
        self.target.clone()
    }
}

/// A basis of sets, and the open sets made from it so far.
pub struct OpX<T: Clone> {
    basis: Vec<Vec<T>>,
    opensets: Vec<Vec<T>>,
}

impl<T: Clone> Category for OpX<T> {
    type Object = Vec<T>;

    type Morphism = Inclusion<T>;

    fn id(obj: &Self::Object) -> (r: Self::Object)
        ensures
            copies(obj@, r@),
    {
        obj.clone()
    }

    fn compose(morph_1: Self::Morphism, morph_2: Self::Morphism) -> (r: Self::Morphism)
        ensures
            r.target() == morph_2.target(),
    {
        proof {
            let mid = morph_1.target;
            assert forall|x: Vec<T>, z: Vec<T>| morph_2.maps(x, z) implies exists|y: Vec<T>|
                #[trigger] morph_1.maps(x, y) && morph_2.maps(y, z) by {
                assert(morph_1.maps(x, mid) && morph_2.maps(mid, z));
            }
        }
        morph_2
    }
}

/// Whether some item of `s` equals `x`.
fn occurs<T: PartialEq>(x: &T, s: &Vec<T>) -> (r: bool)
    ensures
        T::obeys_eq_spec() ==> r == occurs_in(*x, s@),
{
    let mut j: usize = 0;
    while j < s.len()
        invariant
            j <= s.len(),
            T::obeys_eq_spec() ==> forall|p: int| 0 <= p < j ==> !(#[trigger] s@[p]).eq_spec(x),
        decreases s.len() - j,
    {
        if s[j] == *x {
            return true;
        }
        j += 1;
    }
    false
}

impl<T: Clone> OpX<T> {
    /// The sets of the basis, in the order in which they were given.
    pub closed spec fn basis_sets(&self) -> Seq<Seq<T>> {
        sets_of(self.basis@)
    }

    /// The open sets, oldest first.
    pub closed spec fn open_sets(&self) -> Seq<Seq<T>> {
        sets_of(self.opensets@)
    }

    /// The first open sets are those that the basis was copied from, one for
    /// each basis set, and every later one is a copy of a union of basis sets.
    pub open spec fn wf(&self) -> bool {
        let n = self.basis_sets().len() as int;
        &&& n <= self.open_sets().len()
        &&& copies_each(self.open_sets().take(n), self.basis_sets())
        &&& forall|i: int|
            n <= i < self.open_sets().len() ==> is_union(
                self.basis_sets(),
                #[trigger] self.open_sets()[i],
            )
    }
}

impl<T: Clone + 'static + Eq + core::fmt::Debug> OpX<T> {
    /// Takes `base` as the first open sets and keeps a copy of it as the basis.
    pub fn new(base: Vec<Vec<T>>) -> (r: OpX<T>)
        ensures
            r.open_sets() == sets_of(base@),
            copies_each(sets_of(base@), r.basis_sets()),
            r.wf(),
    {
        let basis = base.clone();
        let r = OpX { basis, opensets: base };
        assert(r.open_sets().take(r.basis_sets().len() as int) == r.open_sets());
        r
    }

    /// Adds, as the newest open set, a copy of the union of the basis sets
    /// that `union_idx` names, in the order of `union_idx`.
    pub fn make_openset_from_basis(&mut self, union_idx: Vec<usize>)
        requires
            indices_within(union_idx@, old(self).basis_sets().len()),
        ensures
            final(self).basis_sets() == old(self).basis_sets(),
            final(self).open_sets().len() == old(self).open_sets().len() + 1,
            final(self).open_sets().drop_last() == old(self).open_sets(),
            copies(union_of(old(self).basis_sets(), union_idx@), final(self).open_sets().last()),
            old(self).wf() ==> final(self).wf(),
    {
        let ghost basis = self.basis_sets();
        let mut cumulative_vec: Vec<T> = Vec::new();
        let mut k: usize = 0;
        while k < union_idx.len()
            invariant
                k <= union_idx.len(),
                basis == self.basis_sets(),
                *self == *old(self),
                indices_within(union_idx@, basis.len()),
                copies(union_of(basis, union_idx@.take(k as int)), cumulative_vec@),
            decreases union_idx.len() - k,
        {
            let idx = union_idx[k];
            let mut base = self.basis[idx].clone();
            proof {
                let done = union_idx@.take(k as int);
                assert(union_idx@.take(k + 1) == done.push(idx));
                assert(done.push(idx).map_values(|i: usize| basis[i as int]) == done.map_values(
                    |i: usize| basis[i as int],
                ).push(basis[idx as int]));
                done.map_values(|i: usize| basis[i as int]).lemma_flatten_push(basis[idx as int]);
            }
            cumulative_vec.append(&mut base);
            k += 1;
        }
        assert(union_idx@.take(k as int) == union_idx@);
        self.opensets.push(cumulative_vec);
        proof {
            let before = old(self).open_sets();
            let after = self.open_sets();
            assert(after == before.push(cumulative_vec@));
            assert(after.drop_last() == before);
            if old(self).wf() {
                let n = basis.len() as int;
                assert(after.take(n) == before.take(n));
                assert(is_union(basis, after[after.len() - 1]));
            }
        }
    }

    /// The inclusion of `from` into `to`, where every item of `from` occurs
    /// in `to`; `None` where some item does not.
    pub fn inlcusion(&self, from: &Vec<T>, to: &Vec<T>) -> (r: Option<Inclusion<T>>)
        ensures
            T::obeys_eq_spec() ==> (r is Some <==> included(from@, to@)),
            r matches Some(m) ==> copies(to@, m.target()),
    {
        let mut i: usize = 0;
        while i < from.len()
            invariant
                i <= from.len(),
                T::obeys_eq_spec() ==> included(from@.take(i as int), to@),
            decreases from.len() - i,
        {
            if !occurs(&from[i], to) {
                proof {
                    if T::obeys_eq_spec() {
                        assert(!occurs_in(from@[i as int], to@));
                    }
                }
                return None;
            }
            proof {
                if T::obeys_eq_spec() {
                    let seen = from@.take(i + 1);
                    assert forall|p: int| 0 <= p < seen.len() implies occurs_in(
                        #[trigger] seen[p],
                        to@,
                    ) by {
                        if p < i {
                            assert(seen[p] == from@.take(i as int)[p]);
                        }
                    }
                }
            }
            i += 1;
        }
        assert(from@.take(i as int) == from@);
        let to_clone = to.clone();
        Some(Inclusion { target: to_clone })
    }

    /// The sets of the basis.
    pub fn basis(&self) -> (r: &Vec<Vec<T>>)
        ensures
            sets_of(r@) == self.basis_sets(),
    {
        &self.basis
    }

    /// The open sets, oldest first.
    pub fn opensets(&self) -> (r: &Vec<Vec<T>>)
        ensures
            sets_of(r@) == self.open_sets(),
    {
        &self.opensets
    }
}

} // verus!
