use vstd::prelude::*;

use core::borrow::Borrow;
use core::hash::Hash;
use std::collections::btree_set;
use std::collections::BTreeSet;
use vstd::laws_cmp::obeys_cmp;
use vstd::seq_lib::seq_to_set_is_finite;
use vstd::std_specs::btree::{axiom_spec_btree_keys_iter, spec_btree_keys_iter, 
    set_contains_borrowed_key, sets_borrowed_key_to_key, sets_differ_by_borrowed_key,
};
use vstd::std_specs::iter::IteratorSpec;

verus! {

/// `BTreeSet::is_disjoint`: whether the two sets share no element.
#[verifier::external_body]
fn btree_set_is_disjoint<T: Ord>(a: &BTreeSet<T>, b: &BTreeSet<T>) -> (r: bool)
    ensures
        obeys_cmp::<T>() ==> r == a@.disjoint(b@),
{
    a.is_disjoint(b)
}

/// `BTreeSet::is_subset`: whether `b` holds every element of `a`.
#[verifier::external_body]
fn btree_set_is_subset<T: Ord>(a: &BTreeSet<T>, b: &BTreeSet<T>) -> (r: bool)
    ensures
        obeys_cmp::<T>() ==> r == a@.subset_of(b@),
{
    a.is_subset(b)
}

/// `BTreeSet::replace`: inserts `value`, returning the equal element it replaced.
#[verifier::external_body]
fn btree_set_replace<T: Ord>(set: &mut BTreeSet<T>, value: T) -> (r: Option<T>)
    ensures
        obeys_cmp::<T>() ==> {
            &&& final(set)@ == old(set)@.insert(value)
            &&& match r {
                Some(prev) => old(set)@.contains(value) && prev == value,
                None => !old(set)@.contains(value),
            }
        },
{
    set.replace(value)
}

/// `BTreeSet::take`: removes and returns the element equal to `value`, if any.
#[verifier::external_body]
fn btree_set_take<T: Borrow<Q> + Ord, Q: ?Sized + Ord>(set: &mut BTreeSet<T>, value: &Q) -> (r: Option<T>)
    ensures
        obeys_cmp::<T>() ==> {
            &&& sets_differ_by_borrowed_key(old(set)@, final(set)@, value)
            &&& match r {
                Some(prev) => sets_borrowed_key_to_key(old(set)@, value, &prev),
                None => !set_contains_borrowed_key(old(set)@, value),
            }
        },
{
    set.take(value)
}

/// `BTreeSet::retain`: keeps exactly the elements on which `keep` answers `true`.
#[verifier::external_body]
fn btree_set_retain<T: Ord, F: Fn(&T) -> bool>(set: &mut BTreeSet<T>, keep: F)
    requires
        forall|t: T| #[trigger] keep.requires((&t,)),
    ensures
        obeys_cmp::<T>() ==> final(set)@.subset_of(old(set)@),
        obeys_cmp::<T>() ==> forall|t: T| #[trigger]
            old(set)@.contains(t) ==> if final(set)@.contains(t) {
                keep.ensures((&t,), true)
            } else {
                keep.ensures((&t,), false)
            },
{
    set.retain(keep)
}

/// `BTreeSet::append`: moves every element of `other` into `set`, leaving `other` empty.
#[verifier::external_body]
fn btree_set_append<T: Ord>(set: &mut BTreeSet<T>, other: &mut BTreeSet<T>)
    ensures
        obeys_cmp::<T>() ==> final(set)@ == old(set)@.union(old(other)@),
        obeys_cmp::<T>() ==> final(other)@ == Set::<T>::empty(),
{
    set.append(other)
}

/// A set whose iteration order callers must not rely on.
///
/// Its model is a finite `Set<T>`. Every contract is stated for element types whose `Ord` is
/// known to behave as a total order (`obeys_cmp`): the integer types, and tuples and options of
/// them. For elements with a derived `Ord`, such as `Vram` or `Rom`, the contracts promise
/// nothing.
#[derive(Debug, Clone)]
pub struct UnorderedSet<T> where T: Ord + Hash + Eq {
    inner: BTreeSet<T>,
}

/// Advances `it`, handing out the head of what it still holds.
fn next_item<I: Iterator>(it: &mut I) -> (r: Option<I::Item>)
    ensures
        (*final(it)).obeys_prophetic_iter_laws() == (*old(it)).obeys_prophetic_iter_laws(),
        (*final(it)).obeys_prophetic_iter_laws() ==> if (*old(it)).remaining().len() > 0 {
            &&& (*final(it)).remaining() == (*old(it)).remaining().drop_first()
            &&& r == Some((*old(it)).remaining()[0])
        } else {
            r is None
        },
{
    it.next()
}

impl<T> View for UnorderedSet<T> where T: Ord + Hash + Eq {
    type V = Set<T>;

    closed spec fn view(&self) -> Set<T> {
        self.inner@
    }
}

impl<T> Default for UnorderedSet<T> where T: Ord + Hash + Eq {
    fn default() -> (r: Self)
        ensures
            r@ == Set::<T>::empty(),
    {
        Self::new()
    }
}

impl<T> UnorderedSet<T> where T: Ord + Hash + Eq {
    pub fn new() -> (r: Self)
        ensures
            r@ == Set::<T>::empty(),
    {
        Self { inner: BTreeSet::new() }
    }

    /// The capacity is only a hint: the set starts empty whatever it is.
    pub fn with_capacity(capacity: usize) -> (r: Self)
        ensures
            r@ == Set::<T>::empty(),
    {
        Self { inner: BTreeSet::new() }
    }

    pub fn get<Q>(&self, value: &Q) -> (r: Option<&T>) where T: Borrow<Q>, Q: ?Sized + Ord + Hash + Eq
        ensures
            obeys_cmp::<T>() ==> match r {
                Some(v) => sets_borrowed_key_to_key(self@, value, v),
                None => !set_contains_borrowed_key(self@, value),
            },
    {
        self.inner.get(value)
    }

    pub fn contains<Q>(&self, value: &Q) -> (r: bool) where
        T: Borrow<Q>,
        Q: ?Sized + Ord + Hash + Eq,

        ensures
            obeys_cmp::<T>() ==> r == set_contains_borrowed_key(self@, value),
    {
        self.inner.contains(value)
    }

    pub fn len(&self) -> (r: usize)
        ensures
            obeys_cmp::<T>() ==> r == self@.len(),
    {
        self.inner.len()
    }

    pub fn is_empty(&self) -> (r: bool)
        ensures
            r == (self@ == Set::<T>::empty()),
    {
        let r = self.inner.is_empty();
        proof {
            if r {
                assert(self@ =~= Set::<T>::empty());
            }
        }
        r
    }

    pub fn is_disjoint(&self, other: &Self) -> (r: bool)
        ensures
            obeys_cmp::<T>() ==> r == self@.disjoint(other@),
    {
        btree_set_is_disjoint(&self.inner, &other.inner)
    }

    pub fn is_subset(&self, other: &Self) -> (r: bool)
        ensures
            obeys_cmp::<T>() ==> r == self@.subset_of(other@),
    {
        btree_set_is_subset(&self.inner, &other.inner)
    }

    pub fn is_superset(&self, other: &Self) -> (r: bool)
        ensures
            obeys_cmp::<T>() ==> r == other@.subset_of(self@),
    {
        btree_set_is_subset(&other.inner, &self.inner)
    }

    /// The set holds finitely many elements.
    pub proof fn lemma_view_finite(&self)
        ensures
            self@.finite(),
    {
        axiom_spec_btree_keys_iter(&self.inner);
        seq_to_set_is_finite(spec_btree_keys_iter(&self.inner).remaining().unref());
    }

    /// Adds `value`; `true` when it was not there yet.
    pub fn insert(&mut self, value: T) -> (r: bool)
        ensures
            final(self)@.finite(),
            obeys_cmp::<T>() ==> {
                &&& final(self)@ == old(self)@.insert(value)
                &&& r == !old(self)@.contains(value)
                &&& final(self)@.len() == old(self)@.len() + if r {
                    1int
                } else {
                    0int
                }
            },
    {
        proof {
            self.lemma_view_finite();
        }
        let r = self.inner.insert(value);
        proof {
            self.lemma_view_finite();
        }
        r
    }

    /// Adds `value`, handing back the equal element it displaced, if any.
    pub fn replace(&mut self, value: T) -> (r: Option<T>)
        ensures
            obeys_cmp::<T>() ==> {
                &&& final(self)@ == old(self)@.insert(value)
                &&& match r {
                    Some(prev) => old(self)@.contains(value) && prev == value,
                    None => !old(self)@.contains(value),
                }
            },
    {
        btree_set_replace(&mut self.inner, value)
    }

    /// Removes the element equal to `value` and hands it back, if there was one.
    pub fn take<Q>(&mut self, value: &Q) -> (r: Option<T>) where
        T: Borrow<Q>,
        Q: ?Sized + Ord + Hash + Eq,

        ensures
            obeys_cmp::<T>() ==> {
                &&& sets_differ_by_borrowed_key(old(self)@, final(self)@, value)
                &&& match r {
                    Some(prev) => sets_borrowed_key_to_key(old(self)@, value, &prev),
                    None => !set_contains_borrowed_key(old(self)@, value),
                }
            },
    {
        btree_set_take(&mut self.inner, value)
    }

    pub fn clear(&mut self)
        ensures
            final(self)@ == Set::<T>::empty(),
    {
        self.inner.clear();
    }

    /// Removes the element equal to `value`; `true` when there was one.
    pub fn remove<Q>(&mut self, value: &Q) -> (r: bool) where
        T: Borrow<Q>,
        Q: ?Sized + Ord + Hash + Eq,

        ensures
            final(self)@.finite(),
            obeys_cmp::<T>() ==> {
                &&& sets_differ_by_borrowed_key(old(self)@, final(self)@, value)
                &&& r == set_contains_borrowed_key(old(self)@, value)
            },
    {
        let r = self.inner.remove(value);
        proof {
            self.lemma_view_finite();
        }
        r
    }

    /// Keeps exactly the elements on which `f` answers `true`.
    pub fn retain<F>(&mut self, f: F) where F: Fn(&T) -> bool
        requires
            forall|t: T| #[trigger] f.requires((&t,)),
        ensures
            obeys_cmp::<T>() ==> final(self)@.subset_of(old(self)@),
            obeys_cmp::<T>() ==> forall|t: T| #[trigger]
                old(self)@.contains(t) ==> if final(self)@.contains(t) {
                    f.ensures((&t,), true)
                } else {
                    f.ensures((&t,), false)
                },
    {
        btree_set_retain(&mut self.inner, f);
    }

    /// Moves every element of `other` into `self`, leaving `other` empty.
    pub fn append(&mut self, other: &mut Self)
        ensures
            obeys_cmp::<T>() ==> final(self)@ == old(self)@.union(old(other)@),
            obeys_cmp::<T>() ==> final(other)@ == Set::<T>::empty(),
    {
        btree_set_append(&mut self.inner, &mut other.inner);
    }

    /// Every element, each exactly once.
    pub fn iter(&self) -> (r: btree_set::Iter<'_, T>)
        ensures
            obeys_cmp::<T>() ==> {
                &&& r.remaining().unref().to_set() == self@
                &&& r.remaining().no_duplicates()
                &&& r.remaining().len() == self@.len()
                &&& IteratorSpec::decrease(&r) is Some
                &&& IteratorSpec::initial_value_relation(&r, &r)
            },
    {
        self.inner.iter()
    }

    /// References to every element, each exactly once.
    fn elements(&self) -> (r: Vec<&T>)
        ensures
            obeys_cmp::<T>() ==> r@.unref().to_set() == self@ && r@.no_duplicates(),
    {
        let n = self.inner.len();
        let mut items = self.inner.iter();
        let ghost all: Seq<&T> = items.remaining();
        let mut out: Vec<&T> = Vec::new();
        let mut i: usize = 0;
        let ghost mut gi: int = 0;
        while i < n
            invariant
                0 <= i <= n,
                gi == i,
                obeys_cmp::<T>() ==> {
                    &&& all.len() == n
                    &&& all.unref().to_set() == self@
                    &&& all.no_duplicates()
                    &&& items.obeys_prophetic_iter_laws()
                    &&& items.remaining() == all.skip(gi)
                    &&& out@ == all.take(gi)
                },
            decreases n - i,
        {
            let next = next_item(&mut items);
            match next {
                Some(x) => {
                    out.push(x);
                },
                None => {},
            }
            proof {
                if obeys_cmp::<T>() {
                    assert(all.skip(gi).drop_first() == all.skip(gi + 1));
                    assert(all.take(gi).push(all[gi]) == all.take(gi + 1));
                }
            }
            i = i + 1;
            proof {
                gi = gi + 1;
            }
        }
        proof {
            if obeys_cmp::<T>() {
                assert(all.take(gi) == all);
            }
        }
        out
    }

    /// Appends to `out` each element of `items` whose membership in `set` is `wanted`.
    fn extend_filtered<'a>(out: &mut Vec<&'a T>, items: &Vec<&'a T>, set: &Self, wanted: bool)
        requires
            obeys_cmp::<T>() ==> {
                &&& old(out)@.unref().no_duplicates()
                &&& items@.unref().no_duplicates()
                &&& forall|k: int|
                    0 <= k < items@.len() && set@.contains(*items@[k]) == wanted
                        ==> !old(out)@.unref().contains(*items@[k])
            },
        ensures
            obeys_cmp::<T>() ==> {
                &&& final(out)@.unref().no_duplicates()
                &&& final(out)@.unref().to_set() == old(out)@.unref().to_set().union(
                    items@.unref().to_set().filter(|t: T| set@.contains(t) == wanted),
                )
            },
    {
        let ghost start: Set<T> = out@.unref().to_set();
        let ghost all: Seq<T> = items@.unref();
        let ghost keep = |t: T| set@.contains(t) == wanted;
        let mut i: usize = 0;
        let ghost mut gi: int = 0;
        while i < items.len()
            invariant
                i <= items.len(),
                gi == i,
                all == items@.unref(),
                keep == (|t: T| set@.contains(t) == wanted),
                obeys_cmp::<T>() ==> {
                    &&& out@.unref().no_duplicates()
                    &&& all.no_duplicates()
                    &&& out@.unref().to_set() == start.union(all.take(gi).to_set().filter(keep))
                    &&& forall|k: int|
                        i <= k < all.len() && keep(all[k]) ==> !out@.unref().contains(all[k])
                },
            decreases items.len() - i,
        {
            let x = items[i];
            let member = set.inner.contains(x);
            let ghost before: Seq<T> = out@.unref();
            if member == wanted {
                out.push(x);
            }
            proof {
                if obeys_cmp::<T>() {
                    let prefix = all.take(gi);
                    let next = all.take(i + 1);
                    assert(next == prefix.push(all[gi]));
                    assert(all[gi] == *x);
                    if member == wanted {
                        assert(!before.contains(*x));
                        assert(out@.unref() =~= before.push(*x));
                        assert(out@.unref().no_duplicates()) by {
                            assert forall|a: int, b: int|
                                0 <= a < b < out@.unref().len() implies out@.unref()[a]
                                != out@.unref()[b] by {
                                assert(before[a] == out@.unref()[a]);
                                if b < before.len() {
                                    assert(before[b] == out@.unref()[b]);
                                }
                            }
                        }
                        before.lemma_push_to_set_commute(*x);
                        prefix.lemma_push_to_set_commute(*x);
                        assert(next.to_set().filter(keep) =~= prefix.to_set().filter(keep).insert(*x));
                        assert forall|k: int|
                            i + 1 <= k < all.len() && keep(all[k]) implies !out@.unref().contains(all[k]) by {
                            assert(all[k] != all[gi]);
                            if out@.unref().contains(all[k]) {
                                let j = choose|j: int| 0 <= j < out@.unref().len() && out@.unref()[j] == all[k];
                                if j < before.len() {
                                    assert(before[j] == all[k]);
                                }
                            }
                        }
                    } else {
                        assert(out@.unref() =~= before);
                        prefix.lemma_push_to_set_commute(all[gi]);
                        assert(next.to_set().filter(keep) =~= prefix.to_set().filter(keep));
                    }
                }
            }
            i = i + 1;
            proof {
                gi = gi + 1;
            }
        }
        proof {
            if obeys_cmp::<T>() {
                assert(all.take(gi) == all);
                assert(all.to_set().filter(keep) =~= items@.unref().to_set().filter(|t: T| set@.contains(t) == wanted));
            }
        }
    }

    /// The elements of `self` that are also in `other`.
    pub fn intersection<'a>(&'a self, other: &'a Self) -> (r: Vec<&'a T>)
        ensures
            obeys_cmp::<T>() ==> r@.unref().to_set() == self@.intersect(other@),
            obeys_cmp::<T>() ==> r@.unref().no_duplicates(),
    {
        let mut out: Vec<&'a T> = Vec::new();
        let mine = self.elements();
        Self::extend_filtered(&mut out, &mine, other, true);
        proof {
            if obeys_cmp::<T>() {
                assert(out@.unref().to_set() =~= self@.intersect(other@));
            }
        }
        out
    }

    /// The elements of either set, each once.
    pub fn union<'a>(&'a self, other: &'a Self) -> (r: Vec<&'a T>)
        ensures
            obeys_cmp::<T>() ==> r@.unref().to_set() == self@.union(other@),
            obeys_cmp::<T>() ==> r@.unref().no_duplicates(),
    {
        let mut out = self.elements();
        let theirs = other.elements();
        proof {
            if obeys_cmp::<T>() {
                assert forall|k: int|
                    0 <= k < theirs@.len() && self@.contains(*theirs@[k]) == false
                        implies !out@.unref().contains(*theirs@[k]) by {
                    if out@.unref().contains(*theirs@[k]) {
                        assert(out@.unref().to_set().contains(*theirs@[k]));
                    }
                }
            }
        }
        Self::extend_filtered(&mut out, &theirs, self, false);
        proof {
            if obeys_cmp::<T>() {
                assert(out@.unref().to_set() =~= self@.union(other@));
            }
        }
        out
    }

    /// The elements of `self` that are not in `other`.
    pub fn difference<'a>(&'a self, other: &'a Self) -> (r: Vec<&'a T>)
        ensures
            obeys_cmp::<T>() ==> r@.unref().to_set() == self@.difference(other@),
            obeys_cmp::<T>() ==> r@.unref().no_duplicates(),
    {
        let mut out: Vec<&'a T> = Vec::new();
        let mine = self.elements();
        Self::extend_filtered(&mut out, &mine, other, false);
        proof {
            if obeys_cmp::<T>() {
                assert(out@.unref().to_set() =~= self@.difference(other@));
            }
        }
        out
    }

    /// The elements that are in exactly one of the two sets.
    pub fn symmetric_difference<'a>(&'a self, other: &'a Self) -> (r: Vec<&'a T>)
        ensures
            obeys_cmp::<T>() ==> r@.unref().to_set() == self@.difference(other@).union(
                other@.difference(self@),
            ),
            obeys_cmp::<T>() ==> r@.unref().no_duplicates(),
    {
        let mut out: Vec<&'a T> = Vec::new();
        let mine = self.elements();
        let theirs = other.elements();
        Self::extend_filtered(&mut out, &mine, other, false);
        proof {
            if obeys_cmp::<T>() {
                assert forall|k: int|
                    0 <= k < theirs@.len() && self@.contains(*theirs@[k]) == false
                        implies !out@.unref().contains(*theirs@[k]) by {
                    if out@.unref().contains(*theirs@[k]) {
                        assert(out@.unref().to_set().contains(*theirs@[k]));
                    }
                }
            }
        }
        Self::extend_filtered(&mut out, &theirs, self, false);
        proof {
            if obeys_cmp::<T>() {
                assert(out@.unref().to_set() =~= self@.difference(other@).union(
                    other@.difference(self@),
                ));
            }
        }
        out
    }
}


/// After `insert(value)` the set holds `value`, after `clear()` it holds nothing, and an
/// insert changes the membership of no other element.
pub proof fn lemma_membership_after_insert<T>(before: Set<T>, value: T, other: T)
    ensures
        before.insert(value).contains(value),
        !Set::<T>::empty().contains(other),
        other != value ==> before.insert(value).contains(other) == before.contains(other),
{
}

} // verus!
