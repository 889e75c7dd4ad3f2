use vstd::prelude::*;

use core::borrow::Borrow;
use core::hash::Hash;
use std::collections::btree_map;
use std::collections::BTreeMap;
use vstd::laws_cmp::obeys_cmp;
use vstd::std_specs::btree::{axiom_btree_map_view_finite_dom, contains_borrowed_key, maps_borrowed_key_to_value};
use vstd::std_specs::iter::IteratorSpec;

verus! {

/// A map whose iteration order callers must not rely on.
///
/// Its model is a finite `Map<K, V>`. Every contract is stated for key types whose `Ord` is
/// known to behave as a total order (`obeys_cmp`): the integer types, and tuples and options of
/// them. For keys with a derived `Ord`, such as `Vram` or `Rom`, the contracts promise nothing.
#[derive(Debug, Clone)]
pub struct UnorderedMap<K, V> where K: Ord + Hash + Eq {
    inner: BTreeMap<K, V>,
}

impl<K, V> View for UnorderedMap<K, V> where K: Ord + Hash + Eq {
    type V = Map<K, V>;

    closed spec fn view(&self) -> Map<K, V> {
        self.inner@
    }
}

/// `std::collections::btree_map::IterMut`, the iterator over an entry's key and a mutable
/// reference to its value. Verus sees nothing inside it.
#[verifier::external_type_specification]
#[verifier::external_body]
#[verifier::reject_recursive_types(K)]
#[verifier::reject_recursive_types(V)]
pub struct ExIterMut<'a, K: 'a, V: 'a>(btree_map::IterMut<'a, K, V>);

/// `BTreeMap::iter_mut`: an iterator handing out every entry with its value mutable.
/// Claims only that the keys stay as they were; which values get written is up to the
/// caller of the iterator, and nothing is said of it here.
#[verifier::external_body]
fn btree_map_iter_mut<'a, K, V>(map: &'a mut BTreeMap<K, V>) -> (r: btree_map::IterMut<'a, K, V>)
    ensures
        final(map)@.dom() == old(map)@.dom(),
{
    map.iter_mut()
}

/// `BTreeMap::get_mut`: a mutable reference to the value stored under `key`, if any.
/// Claims that `None` comes exactly when the key is absent, that `Some` refers to the stored
/// value, and that the map afterwards holds what was written through that reference.
#[verifier::external_body]
fn btree_map_get_mut<'a, K: Ord, V>(map: &'a mut BTreeMap<K, V>, key: &K) -> (r: Option<&'a mut V>)
    ensures
        obeys_cmp::<K>() ==> match r {
            Some(v) => {
                &&& old(map)@.contains_key(*key)
                &&& *v == old(map)@[*key]
                &&& final(map)@ == old(map)@.insert(*key, *final(v))
            },
            None => !old(map)@.contains_key(*key) && final(map)@ == old(map)@,
        },
{
    map.get_mut(key)
}

/// Advances `it`, handing out the head of what it still holds.
fn next_entry<I: Iterator>(it: &mut I) -> (r: Option<I::Item>)
    ensures
        (*final(it)).obeys_prophetic_iter_laws() == (*old(it)).obeys_prophetic_iter_laws(),
        (*final(it)).obeys_prophetic_iter_laws() ==> if (*old(it)).remaining().len() > 0 {
            &&& (*final(it)).remaining() == (*old(it)).remaining().drop_first()
            &&& r == Some((*old(it)).remaining()[0])
        } else {
            r is None
        },
{
    it.next()
}

impl<K, V> Default for UnorderedMap<K, V> where K: Ord + Hash + Eq {
    fn default() -> (r: Self)
        ensures
            r@ == Map::<K, V>::empty(),
    {
        Self::new()
    }
}

impl<K, V> UnorderedMap<K, V> where K: Ord + Hash + Eq {
    pub fn new() -> (r: Self)
        ensures
            r@ == Map::<K, V>::empty(),
    {
        Self { inner: BTreeMap::new() }
    }

    /// The capacity is only a hint: the map starts empty whatever it is.
    pub fn with_capacity(capacity: usize) -> (r: Self)
        ensures
            r@ == Map::<K, V>::empty(),
    {
        Self { inner: BTreeMap::new() }
    }

    /// The map holds finitely many entries.
    pub proof fn lemma_view_finite(&self)
        ensures
            self@.dom().finite(),
    {
        axiom_btree_map_view_finite_dom(self.inner);
    }

    pub fn insert(&mut self, key: K, value: V) -> (r: Option<V>)
        ensures
            final(self)@.dom().finite(),
            obeys_cmp::<K>() ==> {
                &&& final(self)@ == old(self)@.insert(key, value)
                &&& match r {
                    Some(prev) => old(self)@.contains_key(key) && prev == old(self)@[key],
                    None => !old(self)@.contains_key(key),
                }
                &&& final(self)@.len() == old(self)@.len() + if r is None {
                    1int
                } else {
                    0int
                }
            },
    {
        proof {
            self.lemma_view_finite();
        }
        let r = self.inner.insert(key, value);
        proof {
            self.lemma_view_finite();
        }
        r
    }

    pub fn get<Q>(&self, key: &Q) -> (r: Option<&V>) where K: Borrow<Q>, Q: ?Sized + Ord + Hash + Eq
        ensures
            obeys_cmp::<K>() ==> match r {
                Some(v) => maps_borrowed_key_to_value(self@, key, *v),
                None => !contains_borrowed_key(self@, key),
            },
    {
        self.inner.get(key)
    }

    pub fn get_mut(&mut self, key: &K) -> (r: Option<&mut V>)
        ensures
            obeys_cmp::<K>() ==> match r {
                Some(v) => {
                    &&& old(self)@.contains_key(*key)
                    &&& *v == old(self)@[*key]
                    &&& final(self)@ == old(self)@.insert(*key, *final(v))
                },
                None => !old(self)@.contains_key(*key) && final(self)@ == old(self)@,
            },
    {
        btree_map_get_mut(&mut self.inner, key)
    }

    pub fn contains_key<Q>(&self, key: &Q) -> (r: bool) where
        K: Borrow<Q>,
        Q: ?Sized + Ord + Hash + Eq,

        ensures
            obeys_cmp::<K>() ==> r == contains_borrowed_key(self@, key),
    {
        self.inner.contains_key(key)
    }

    pub fn len(&self) -> (r: usize)
        ensures
            obeys_cmp::<K>() ==> r == self@.len(),
    {
        self.inner.len()
    }

    pub fn is_empty(&self) -> (r: bool)
        ensures
            r == (self@ == Map::<K, V>::empty()),
    {
        let r = self.inner.is_empty();
        proof {
            if !r {
                assert(self@ != Map::<K, V>::empty()) by {
                    let k = choose|k: K| self@.contains_key(k);
                    assert(self@.dom().contains(k));
                }
            } else {
                assert(self@ =~= Map::<K, V>::empty());
            }
        }
        r
    }
    /// Every entry, each exactly once.
    pub fn iter(&self) -> (r: btree_map::Iter<'_, K, V>)
        ensures
            obeys_cmp::<K>() ==> {
                &&& r.remaining().unref().to_set() == self@.kv_pairs()
                &&& r.remaining().no_duplicates()
                &&& r.remaining().len() == self@.len()
                &&& IteratorSpec::decrease(&r) is Some
                &&& IteratorSpec::initial_value_relation(&r, &r)
            },
    {
        self.inner.iter()
    }

    /// Every entry, with its value open to change; the keys stay as they are.
    pub fn iter_mut(&mut self) -> (r: btree_map::IterMut<'_, K, V>)
        ensures
            final(self)@.dom() == old(self)@.dom(),
    {
        btree_map_iter_mut(&mut self.inner)
    }

    /// Every key, each exactly once.
    pub fn keys(&self) -> (r: btree_map::Keys<'_, K, V>)
        ensures
            obeys_cmp::<K>() ==> {
                &&& r.remaining().unref().to_set() == self@.dom()
                &&& r.remaining().no_duplicates()
                &&& r.remaining().len() == self@.len()
                &&& IteratorSpec::decrease(&r) is Some
                &&& IteratorSpec::initial_value_relation(&r, &r)
            },
    {
        self.inner.keys()
    }

    /// The value of every entry, one per key: the values of the distinct keys `ks`, in order,
    /// where `ks` lists every key once.
    pub fn values(&self) -> (r: Vec<&V>)
        ensures
            obeys_cmp::<K>() ==> exists|ks: Seq<K>|
                {
                    &&& ks.len() == r@.len()
                    &&& ks.no_duplicates()
                    &&& ks.to_set() == self@.dom()
                    &&& forall|i: int| 0 <= i < ks.len() ==> *#[trigger] r@[i] == self@[ks[i]]
                },
            obeys_cmp::<K>() ==> r@.len() == self@.len(),
    {
        let n = self.inner.len();
        let mut items = self.inner.iter();
        let ghost all: Seq<(&K, &V)> = items.remaining();
        let mut out: Vec<&V> = Vec::new();
        let mut i: usize = 0;
        let ghost mut gi: int = 0;
        while i < n
            invariant
                0 <= i <= n,
                gi == i,
                obeys_cmp::<K>() ==> {
                    &&& all.len() == n
                    &&& items.obeys_prophetic_iter_laws()
                    &&& items.remaining() == all.skip(gi)
                    &&& out@.len() == i
                    &&& forall|j: int| 0 <= j < i ==> #[trigger] out@[j] == all[j].1
                },
            decreases n - i,
        {
            let ghost before = out@;
            let next = next_entry(&mut items);
            match next {
                Some((_, v)) => {
                    out.push(v);
                },
                None => {},
            }
            proof {
                if obeys_cmp::<K>() {
                    assert(all.skip(gi).drop_first() == all.skip(gi + 1));
                    assert(all.skip(gi)[0] == all[gi]);
                }
            }
            i = i + 1;
            proof {
                gi = gi + 1;
            }
        }
        proof {
            if obeys_cmp::<K>() {
                let pairs = all.unref();
                let ks = pairs.map_values(|p: (K, V)| p.0);
                assert forall|a: int| 0 <= a < pairs.len() implies #[trigger] self@.kv_pairs().contains(pairs[a]) by {
                    assert(pairs.to_set().contains(pairs[a]));
                }
                assert forall|a: int, b: int| 0 <= a < ks.len() && 0 <= b < ks.len() && a != b implies ks[a]
                    != ks[b] by {
                    assert(self@.kv_pairs().contains(pairs[a]));
                    assert(self@.kv_pairs().contains(pairs[b]));
                    if ks[a] == ks[b] {
                        assert(pairs[a] == pairs[b]);
                        assert(all[a] == all[b]);
                    }
                }
                assert(ks.to_set() =~= self@.dom()) by {
                    assert forall|k: K| self@.dom().contains(k) implies ks.to_set().contains(k) by {
                        assert(self@.kv_pairs().contains((k, self@[k])));
                        assert(pairs.to_set().contains((k, self@[k])));
                        let a = choose|a: int| 0 <= a < pairs.len() && pairs[a] == (k, self@[k]);
                        assert(ks[a] == k);
                    }
                    assert forall|k: K| ks.to_set().contains(k) implies self@.dom().contains(k) by {
                        let a = choose|a: int| 0 <= a < ks.len() && ks[a] == k;
                        assert(self@.kv_pairs().contains(pairs[a]));
                    }
                }
                assert forall|a: int| 0 <= a < ks.len() implies *#[trigger] out@[a] == self@[ks[a]] by {
                    assert(self@.kv_pairs().contains(pairs[a]));
                }
            }
        }
        out
    }

    /// The slot for `key`, to be filled or updated in place.
    pub fn entry(&mut self, key: K) -> (r: Entry<'_, K, V>)
        ensures
            r.key == key,
            (*r.map)@ == old(self)@,
            (*final(r.map))@ == final(self)@,
    {
        Entry { map: &mut self.inner, key }
    }
}

/// `BTreeMap::entry(key).or_insert(default)`: the value under `key`, inserting `default`
/// first when the key is absent. Claims that the reference starts at the stored value (or at
/// `default`) and that the map afterwards holds what was written through it under `key`.
#[verifier::external_body]
fn btree_map_or_insert<'a, K: Ord, V>(map: &'a mut BTreeMap<K, V>, key: K, default: V) -> (r: &'a mut V)
    ensures
        obeys_cmp::<K>() ==> {
            &&& *r == if old(map)@.contains_key(key) { old(map)@[key] } else { default }
            &&& final(map)@ == old(map)@.insert(key, *final(r))
        },
{
    map.entry(key).or_insert(default)
}

/// `BTreeMap::entry(key).or_insert_with_key(make)`: as [`btree_map_or_insert`], with the value
/// to insert made by `make` from the key, which is called only when the key is absent.
#[verifier::external_body]
fn btree_map_or_insert_with_key<'a, K: Ord, V, F: FnOnce(&K) -> V>(
    map: &'a mut BTreeMap<K, V>,
    key: K,
    make: F,
) -> (r: &'a mut V)
    requires
        make.requires((&key,)),
    ensures
        obeys_cmp::<K>() ==> {
            &&& old(map)@.contains_key(key) ==> *r == old(map)@[key]
            &&& !old(map)@.contains_key(key) ==> make.ensures((&key,), *r)
            &&& final(map)@ == old(map)@.insert(key, *final(r))
        },
{
    map.entry(key).or_insert_with_key(make)
}

/// `BTreeMap::entry(key).or_default()`: as [`btree_map_or_insert`], inserting `V::default()`.
/// What that default value is, is left unsaid here: it depends on `V`.
#[verifier::external_body]
fn btree_map_or_default<'a, K: Ord, V: Default>(map: &'a mut BTreeMap<K, V>, key: K) -> (r: &'a mut V)
    ensures
        obeys_cmp::<K>() ==> {
            &&& old(map)@.contains_key(key) ==> *r == old(map)@[key]
            &&& final(map)@ == old(map)@.insert(key, *final(r))
        },
{
    map.entry(key).or_default()
}

/// The slot of an [`UnorderedMap`] for one key, whether or not it holds a value yet.
///
/// `map` is the borrowed map and `key` the key of the slot.
pub struct Entry<'a, K: 'a, V: 'a> where K: Ord {
    pub map: &'a mut BTreeMap<K, V>,
    pub key: K,
}

impl<'a, K, V> Entry<'a, K, V> where K: Ord {
    /// The value in the slot, after putting `default` there if it was empty.
    pub fn or_insert(self, default: V) -> (r: &'a mut V)
        ensures
            obeys_cmp::<K>() ==> {
                &&& *r == if (*old(self.map))@.contains_key(self.key) {
                    (*old(self.map))@[self.key]
                } else {
                    default
                }
                &&& (*final(self.map))@ == (*old(self.map))@.insert(self.key, *final(r))
            },
    {
        btree_map_or_insert(self.map, self.key, default)
    }

    /// The value in the slot, after putting there what `default` makes if it was empty.
    pub fn or_insert_with<F>(self, default: F) -> (r: &'a mut V) where F: FnOnce() -> V
        requires
            default.requires(()),
        ensures
            obeys_cmp::<K>() ==> {
                &&& (*old(self.map))@.contains_key(self.key) ==> *r == (*old(self.map))@[self.key]
                &&& !(*old(self.map))@.contains_key(self.key) ==> default.ensures((), *r)
                &&& (*final(self.map))@ == (*old(self.map))@.insert(self.key, *final(r))
            },
    {
        let make = move |_k: &K| -> (v: V)
            requires
                default.requires(()),
            ensures
                default.ensures((), v),
            { default() };
        btree_map_or_insert_with_key(self.map, self.key, make)
    }

    /// The value in the slot, after putting there what `default` makes from the key if it
    /// was empty.
    pub fn or_insert_with_key<F>(self, default: F) -> (r: &'a mut V) where F: FnOnce(&K) -> V
        requires
            default.requires((&self.key,)),
        ensures
            obeys_cmp::<K>() ==> {
                &&& (*old(self.map))@.contains_key(self.key) ==> *r == (*old(self.map))@[self.key]
                &&& !(*old(self.map))@.contains_key(self.key) ==> default.ensures((&self.key,), *r)
                &&& (*final(self.map))@ == (*old(self.map))@.insert(self.key, *final(r))
            },
    {
        btree_map_or_insert_with_key(self.map, self.key, default)
    }

    /// The key of the slot.
    pub fn key(&self) -> (r: &K)
        ensures
            *r == self.key,
    {
        &self.key
    }

    /// Lets `f` update the value in the slot, if there is one.
    pub fn and_modify<F>(self, f: F) -> (r: Self) where F: FnOnce(&mut V)
        requires
            forall|v: &mut V| #[trigger] f.requires((v,)),
        ensures
            r.key == self.key,
            *final(r.map) == *final(self.map),
            obeys_cmp::<K>() ==> if (*old(self.map))@.contains_key(self.key) {
                exists|v: &mut V|
                    {
                        &&& *v == (*old(self.map))@[self.key]
                        &&& #[trigger] f.ensures((v,), ())
                        &&& (*r.map)@ == (*old(self.map))@.insert(self.key, *final(v))
                    }
            } else {
                (*r.map)@ == (*old(self.map))@
            },
    {
        let Entry { map, key } = self;
        match btree_map_get_mut(map, &key) {
            Some(v) => f(v),
            None => {},
        }
        Entry { map, key }
    }
}

impl<'a, K, V> Entry<'a, K, V> where K: Ord, V: Default {
    /// The value in the slot, after putting `V::default()` there if it was empty.
    pub fn or_default(self) -> (r: &'a mut V)
        ensures
            obeys_cmp::<K>() ==> {
                &&& (*old(self.map))@.contains_key(self.key) ==> *r == (*old(self.map))@[self.key]
                &&& (*final(self.map))@ == (*old(self.map))@.insert(self.key, *final(r))
            },
    {
        btree_map_or_default(self.map, self.key)
    }
}


/// A read gives back what a write wrote: after `insert(key, value)` the map holds `value` at
/// `key`, and every other key keeps what it held.
pub proof fn lemma_read_after_write<K, V>(before: Map<K, V>, key: K, value: V, other: K)
    ensures
        before.insert(key, value).contains_key(key),
        before.insert(key, value)[key] == value,
        other != key ==> before.insert(key, value).contains_key(other) == before.contains_key(other),
        other != key && before.contains_key(other) ==> before.insert(key, value)[other] == before[other],
{
}

} // verus!
