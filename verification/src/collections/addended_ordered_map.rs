use vstd::prelude::*;

use crate::addresses::{AddressValue, Size};

verus! {

/// A value that covers a number of addresses from its key onwards.
pub trait SizedValue {
    spec fn spec_size(&self) -> nat;

    fn size(&self) -> (r: Size)
        ensures
            r.inner == self.spec_size(),
    ;
}

impl SizedValue for Size {
    open spec fn spec_size(&self) -> nat {
        self.inner as nat
    }

    fn size(&self) -> (r: Size) {
        *self
    }
}

/// How a key is looked up.
#[derive(Debug, Clone, Copy, Hash, PartialEq, Eq, Structural, PartialOrd, Ord)]
pub struct FindSettings {
    allow_addend: bool,
}

impl FindSettings {
    /// With `allow_addend`, a key also finds the entry whose span holds it.
    pub fn new(allow_addend: bool) -> (r: Self)
        ensures
            r.allows_addend() == allow_addend,
    {
        FindSettings { allow_addend }
    }

    pub closed spec fn allows_addend(&self) -> bool {
        self.allow_addend
    }
}

/// Keys strictly increase along the entries.
pub open spec fn spec_sorted<K: AddressValue, V>(s: Seq<(K, V)>) -> bool {
    forall|i: int, j: int| 0 <= i < j < s.len() ==> s[i].0.spec_key() < s[j].0.spec_key()
}

/// Entry `i` is the last one whose key is at most `q`.
pub open spec fn spec_last_at_or_below<K: AddressValue, V>(s: Seq<(K, V)>, q: int, i: int) -> bool {
    &&& 0 <= i < s.len()
    &&& s[i].0.spec_key() <= q
    &&& (i + 1 == s.len() || s[i + 1].0.spec_key() > q)
}

/// Entry `i` answers a lookup of `q`: its key is `q`, or, when addends are allowed, it is the
/// last entry at or below `q` and its span reaches past `q`.
pub open spec fn spec_answers<K: AddressValue, V: SizedValue>(
    s: Seq<(K, V)>,
    q: int,
    allow_addend: bool,
    i: int,
) -> bool {
    &&& spec_last_at_or_below(s, q, i)
    &&& (s[i].0.spec_key() == q || (allow_addend && q < s[i].0.spec_key() + s[i].1.spec_size()))
}

/// Only the entries at or below `q` come before position `p`.
pub open spec fn spec_split_at<K: AddressValue, V>(s: Seq<(K, V)>, q: int, p: int) -> bool {
    &&& 0 <= p <= s.len()
    &&& forall|j: int| 0 <= j < p ==> s[j].0.spec_key() <= q
    &&& (p < s.len() ==> s[p].0.spec_key() > q)
}

/// In sorted entries, at most one entry is the last at or below a key.
pub proof fn lemma_last_at_or_below_unique<K: AddressValue, V>(s: Seq<(K, V)>, q: int, i: int, j: int)
    requires
        spec_sorted(s),
        spec_last_at_or_below(s, q, i),
        spec_last_at_or_below(s, q, j),
    ensures
        i == j,
{
    if i < j {
        assert(s[i + 1].0.spec_key() <= s[j].0.spec_key());
    } else if j < i {
        assert(s[j + 1].0.spec_key() <= s[i].0.spec_key());
    }
}

/// An ordered map from addresses to values that span a number of addresses, where a key can
/// also find the entry whose span holds it.
#[derive(Debug, Clone)]
pub struct AddendedOrderedMap<K: AddressValue, V: SizedValue> {
    entries: Vec<(K, V)>,
}

impl<K: AddressValue, V: SizedValue> AddendedOrderedMap<K, V> {
    /// The entries in key order.
    pub closed spec fn spec_entries(&self) -> Seq<(K, V)> {
        self.entries@
    }

    /// Keys strictly increase along the entries; every map that `new` made and the methods
    /// changed since is well formed.
    pub open spec fn well_formed(&self) -> bool {
        spec_sorted(self.spec_entries())
    }

    pub fn new() -> (r: Self)
        ensures
            r.well_formed(),
            r.spec_entries() == Seq::<(K, V)>::empty(),
    {
        AddendedOrderedMap { entries: Vec::new() }
    }

    pub fn len(&self) -> (r: usize)
        ensures
            r == self.spec_entries().len(),
    {
        self.entries.len()
    }

    pub fn is_empty(&self) -> (r: bool)
        ensures
            r == (self.spec_entries().len() == 0),
    {
        self.entries.len() == 0
    }

    /// How many entries have a key at most `key`.
    fn position(&self, key: &K) -> (r: usize)
        requires
            self.well_formed(),
        ensures
            spec_split_at(self.spec_entries(), key.spec_key(), r as int),
    {
        let mut i: usize = 0;
        while i < self.entries.len()
            invariant
                spec_sorted(self.entries@),
                i <= self.entries@.len(),
                forall|j: int| 0 <= j < i ==> self.entries@[j].0.spec_key() <= key.spec_key(),
            decreases self.entries@.len() - i,
        {
            if key.key_lt(&self.entries[i].0) {
                return i;
            }
            i = i + 1;
        }
        i
    }

    /// The position of the entry that answers a lookup of `key`, if there is one.
    fn lookup(&self, key: &K, settings: FindSettings) -> (r: Option<usize>)
        requires
            self.well_formed(),
        ensures
            match r {
                Some(i) => spec_answers(self.spec_entries(), key.spec_key(), settings.allows_addend(), i as int),
                None => forall|i: int|
                    !spec_answers(self.spec_entries(), key.spec_key(), settings.allows_addend(), i),
            },
    {
        let p = self.position(key);
        if p == 0 {
            return None;
        }
        let (k, ref v) = self.entries[p - 1];
        let ghost s = self.entries@;
        proof {
            assert(spec_last_at_or_below(s, key.spec_key(), p - 1));
            assert forall|i: int| spec_last_at_or_below(s, key.spec_key(), i) implies i == p - 1 by {
                lemma_last_at_or_below_unique(s, key.spec_key(), i, p - 1);
            }
        }
        if !key.key_lt(&k) && k.key_le(key) && key.key_le(&k) {
            return Some(p - 1);
        }
        if !settings.allow_addend {
            return None;
        }
        proof {
            K::lemma_key_spread(key, &k);
        }
        let distance = key.key_distance(&k);
        if distance < v.size().inner {
            Some(p - 1)
        } else {
            None
        }
    }

    /// The entries whose keys lie in `[start, end)`, in key order.
    pub fn range(&self, start: &K, end: &K) -> (r: &[(K, V)])
        requires
            self.well_formed(),
        ensures
            exists|lo: int, hi: int|
                {
                    &&& 0 <= lo <= hi <= self.spec_entries().len()
                    &&& r@ == self.spec_entries().subrange(lo, hi)
                    &&& forall|j: int| 0 <= j < lo ==> (#[trigger] self.spec_entries()[j]).0.spec_key() < start.spec_key()
                    &&& forall|j: int|
                        lo <= j < hi ==> start.spec_key() <= (#[trigger] self.spec_entries()[j]).0.spec_key() < end.spec_key()
                    &&& forall|j: int|
                        hi <= j < self.spec_entries().len() ==> !(start.spec_key() <= (
                        #[trigger] self.spec_entries()[j]).0.spec_key() < end.spec_key())
                },
    {
        let mut lo: usize = 0;
        while lo < self.entries.len() && self.entries[lo].0.key_lt(start)
            invariant
                spec_sorted(self.entries@),
                lo <= self.entries@.len(),
                forall|j: int| 0 <= j < lo ==> (#[trigger] self.entries@[j]).0.spec_key() < start.spec_key(),
            decreases self.entries@.len() - lo,
        {
            lo = lo + 1;
        }
        let mut hi: usize = lo;
        while hi < self.entries.len() && self.entries[hi].0.key_lt(end)
            invariant
                spec_sorted(self.entries@),
                lo <= hi <= self.entries@.len(),
                lo < self.entries@.len() ==> start.spec_key() <= self.entries@[lo as int].0.spec_key(),
                forall|j: int| lo <= j < hi ==> start.spec_key() <= (#[trigger] self.entries@[j]).0.spec_key() < end.spec_key(),
            decreases self.entries@.len() - hi,
        {
            hi = hi + 1;
        }
        proof {
            assert forall|j: int| hi <= j < self.entries@.len() implies !(start.spec_key() <= (
                #[trigger] self.entries@[j]).0.spec_key() < end.spec_key()) by {
                if lo < self.entries@.len() && lo < j {
                    assert(self.entries@[lo as int].0.spec_key() < self.entries@[j].0.spec_key());
                }
                if hi < j {
                    assert(self.entries@[hi as int].0.spec_key() < self.entries@[j].0.spec_key());
                }
            }
        }
        vstd::slice::slice_subrange(self.entries.as_slice(), lo, hi)
    }

    /// The value whose key is `key` or, with an addend allowed, whose span holds `key`.
    pub fn find(&self, key: &K, settings: FindSettings) -> (r: Option<&V>)
        requires
            self.well_formed(),
        ensures
            match r {
                Some(v) => exists|i: int|
                    spec_answers(self.spec_entries(), key.spec_key(), settings.allows_addend(), i)
                        && self.spec_entries()[i].1 == *v,
                None => forall|i: int|
                    !spec_answers(self.spec_entries(), key.spec_key(), settings.allows_addend(), i),
            },
    {
        match self.lookup(key, settings) {
            Some(i) => Some(&self.entries[i].1),
            None => None,
        }
    }

    /// As [`AddendedOrderedMap::find`], with the value open to change.
    pub fn find_mut(&mut self, key: &K, settings: FindSettings) -> (r: Option<&mut V>)
        requires
            old(self).well_formed(),
        ensures
            match r {
                Some(v) => exists|i: int|
                    spec_answers(old(self).spec_entries(), key.spec_key(), settings.allows_addend(), i)
                        && old(self).spec_entries()[i].1 == *v && final(self).spec_entries()
                        == old(self).spec_entries().update(i, (old(self).spec_entries()[i].0, *final(v))),
                None => (forall|i: int|
                    !spec_answers(old(self).spec_entries(), key.spec_key(), settings.allows_addend(), i))
                    && final(self).spec_entries() == old(self).spec_entries(),
            },
    {
        match self.lookup(key, settings) {
            Some(i) => {
                let entry = &mut self.entries[i];
                Some(&mut entry.1)
            },
            None => None,
        }
    }

    /// Inserts `(key, value)` at position `p`, which keeps the keys increasing.
    fn insert_at(&mut self, p: usize, key: K, value: V)
        requires
            old(self).well_formed(),
            spec_split_at(old(self).spec_entries(), key.spec_key(), p as int),
            p > 0 ==> old(self).spec_entries()[p - 1].0.spec_key() < key.spec_key(),
        ensures
            final(self).well_formed(),
            final(self).spec_entries() == old(self).spec_entries().insert(p as int, (key, value)),
    {
        self.entries.insert(p, (key, value));
        proof {
            let s = self.entries@;
            assert forall|i: int, j: int| 0 <= i < j < s.len() implies s[i].0.spec_key() < s[j].0.spec_key() by {
                let o = old(self).spec_entries();
                if j < p {
                } else if i > p {
                    assert(s[i] == o[i - 1] && s[j] == o[j - 1]);
                } else if i == p {
                    assert(s[j] == o[j - 1]);
                } else if j == p {
                    assert(o[i].0.spec_key() <= o[p - 1].0.spec_key());
                } else {
                    assert(s[j] == o[j - 1]);
                }
            }
        }
    }

    /// The value that answers a lookup of `key`; when there is none, a new entry for `key`
    /// with the value `default` makes. The flag says whether the entry is new.
    pub fn find_mut_or_insert_with<F>(&mut self, key: K, settings: FindSettings, default: F) -> (r: (&mut V, bool)) where
        F: FnOnce() -> V,

        requires
            old(self).well_formed(),
            default.requires(()),
        ensures
            final(self).well_formed(),
            (exists|i: int| spec_answers(old(self).spec_entries(), key.spec_key(), settings.allows_addend(), i))
                ==> exists|i: int|
                {
                    &&& spec_answers(old(self).spec_entries(), key.spec_key(), settings.allows_addend(), i)
                    &&& !r.1
                    &&& *r.0 == old(self).spec_entries()[i].1
                    &&& final(self).spec_entries() == old(self).spec_entries().update(
                        i,
                        (old(self).spec_entries()[i].0, *final(r.0)),
                    )
                },
            (forall|i: int| !spec_answers(old(self).spec_entries(), key.spec_key(), settings.allows_addend(), i))
                ==> exists|p: int|
                {
                    &&& spec_split_at(old(self).spec_entries(), key.spec_key(), p)
                    &&& r.1
                    &&& default.ensures((), *r.0)
                    &&& final(self).spec_entries() == old(self).spec_entries().insert(p, (key, *final(r.0)))
                },
    {
        match self.lookup(&key, settings) {
            Some(i) => {
                let entry = &mut self.entries[i];
                (&mut entry.1, false)
            },
            None => {
                let p = self.position(&key);
                proof {
                    if p > 0 {
                        assert(spec_last_at_or_below(self.entries@, key.spec_key(), p - 1));
                        assert(!spec_answers(self.entries@, key.spec_key(), settings.allows_addend(), p - 1));
                    }
                }
                let value = default();
                self.insert_at(p, key, value);
                let entry = &mut self.entries[p];
                (&mut entry.1, true)
            },
        }
    }

    /// As [`AddendedOrderedMap::find_mut_or_insert_with`], with `default` making the key too.
    /// When an entry with that key already exists, it is kept and handed back as not new.
    pub fn find_mut_or_insert_with_key_value<F>(&mut self, key: &K, settings: FindSettings, default: F) -> (r: (&mut V, bool)) where
        F: FnOnce() -> (K, V),

        requires
            old(self).well_formed(),
            default.requires(()),
        ensures
            final(self).well_formed(),
            (exists|i: int| spec_answers(old(self).spec_entries(), key.spec_key(), settings.allows_addend(), i))
                ==> exists|i: int|
                {
                    &&& spec_answers(old(self).spec_entries(), key.spec_key(), settings.allows_addend(), i)
                    &&& !r.1
                    &&& *r.0 == old(self).spec_entries()[i].1
                    &&& final(self).spec_entries() == old(self).spec_entries().update(
                        i,
                        (old(self).spec_entries()[i].0, *final(r.0)),
                    )
                },
            (forall|i: int| !spec_answers(old(self).spec_entries(), key.spec_key(), settings.allows_addend(), i))
                ==> exists|made: (K, V)|
                {
                    &&& default.ensures((), made)
                    &&& (exists|j: int|
                        {
                            &&& 0 <= j < old(self).spec_entries().len()
                            &&& old(self).spec_entries()[j].0.spec_key() == made.0.spec_key()
                            &&& !r.1
                            &&& *r.0 == old(self).spec_entries()[j].1
                            &&& final(self).spec_entries() == old(self).spec_entries().update(
                                j,
                                (old(self).spec_entries()[j].0, *final(r.0)),
                            )
                        }) || (exists|p: int|
                        {
                            &&& spec_split_at(old(self).spec_entries(), made.0.spec_key(), p)
                            &&& (forall|j: int|
                                0 <= j < old(self).spec_entries().len()
                                    ==> old(self).spec_entries()[j].0.spec_key() != made.0.spec_key())
                            &&& r.1
                            &&& *r.0 == made.1
                            &&& final(self).spec_entries() == old(self).spec_entries().insert(
                                p,
                                (made.0, *final(r.0)),
                            )
                        })
                },
    {
        match self.lookup(key, settings) {
            Some(i) => {
                let entry = &mut self.entries[i];
                (&mut entry.1, false)
            },
            None => {
                let made = default();
                let (k, v) = made;
                let p = self.position(&k);
                if p > 0 && self.entries[p - 1].0.key_le(&k) && k.key_le(&self.entries[p - 1].0) {
                    let entry = &mut self.entries[p - 1];
                    (&mut entry.1, false)
                } else {
                    proof {
                        let s = self.entries@;
                        assert forall|j: int| 0 <= j < s.len() implies s[j].0.spec_key() != k.spec_key() by {
                            if j < p {
                                if p > 0 && j < p - 1 {
                                    assert(s[j].0.spec_key() < s[p - 1].0.spec_key());
                                }
                            }
                        }
                    }
                    self.insert_at(p, k, v);
                    let entry = &mut self.entries[p];
                    (&mut entry.1, true)
                }
            },
        }
    }

    /// The entries in key order.
    pub fn iter(&self) -> (r: &[(K, V)])
        ensures
            r@ == self.spec_entries(),
    {
        self.entries.as_slice()
    }

    /// The keys in increasing order.
    pub fn keys(&self) -> (r: Vec<K>)
        ensures
            r@ == self.spec_entries().map_values(|e: (K, V)| e.0),
    {
        let mut out: Vec<K> = Vec::new();
        let mut i: usize = 0;
        while i < self.entries.len()
            invariant
                i <= self.entries@.len(),
                out@ == self.entries@.take(i as int).map_values(|e: (K, V)| e.0),
            decreases self.entries@.len() - i,
        {
            out.push(self.entries[i].0);
            proof {
                assert(self.entries@.take(i + 1) == self.entries@.take(i as int).push(self.entries@[i as int]));
            }
            i = i + 1;
        }
        proof {
            assert(self.entries@.take(i as int) == self.entries@);
        }
        out
    }

    /// The values in key order.
    pub fn values(&self) -> (r: Vec<&V>)
        ensures
            r@.len() == self.spec_entries().len(),
            forall|i: int| 0 <= i < r@.len() ==> *r@[i] == self.spec_entries()[i].1,
    {
        let mut out: Vec<&V> = Vec::new();
        let mut i: usize = 0;
        while i < self.entries.len()
            invariant
                i <= self.entries@.len(),
                out@.len() == i,
                forall|j: int| 0 <= j < i ==> *out@[j] == self.entries@[j].1,
            decreases self.entries@.len() - i,
        {
            out.push(&self.entries[i].1);
            i = i + 1;
        }
        out
    }

    /// The keys in increasing order, consuming the map.
    pub fn into_keys(self) -> (r: Vec<K>)
        ensures
            r@ == self.spec_entries().map_values(|e: (K, V)| e.0),
    {
        self.keys()
    }

    /// The values in key order, consuming the map.
    pub fn into_values(self) -> (r: Vec<V>)
        ensures
            r@ == self.spec_entries().map_values(|e: (K, V)| e.1),
    {
        let ghost all = self.entries@;
        let n = self.entries.len();
        let mut rest = self.entries;
        let mut out: Vec<V> = Vec::new();
        let mut i: usize = 0;
        while rest.len() > 0
            invariant
                all.len() == n,
                i <= all.len(),
                rest@ == all.skip(i as int),
                out@ == all.take(i as int).map_values(|e: (K, V)| e.1),
            decreases rest@.len(),
        {
            let (_, v) = rest.remove(0);
            out.push(v);
            proof {
                assert(all.take(i + 1) == all.take(i as int).push(all[i as int]));
                assert(all.skip(i + 1) == all.skip(i as int).remove(0));
            }
            i = i + 1;
        }
        proof {
            assert(all.take(i as int) == all);
        }
        out
    }

    /// Keeps exactly the entries on which `f` answers `true`, in the same order.
    pub fn retain<F>(&mut self, f: F) where F: Fn(&K, &V) -> bool
        requires
            old(self).well_formed(),
            forall|k: K, v: V| #[trigger] f.requires((&k, &v)),
        ensures
            final(self).well_formed(),
            forall|i: int|
                0 <= i < final(self).spec_entries().len() ==> old(self).spec_entries().contains(
                    #[trigger] final(self).spec_entries()[i],
                ) && f.ensures((&final(self).spec_entries()[i].0, &final(self).spec_entries()[i].1), true),
            forall|i: int|
                0 <= i < old(self).spec_entries().len() && !final(self).spec_entries().contains(
                    #[trigger] old(self).spec_entries()[i],
                ) ==> f.ensures((&old(self).spec_entries()[i].0, &old(self).spec_entries()[i].1), false),
    {
        let ghost all = self.entries@;
        let n = self.entries.len();
        let mut rest: Vec<(K, V)> = Vec::new();
        core::mem::swap(&mut rest, &mut self.entries);
        let mut kept: Vec<(K, V)> = Vec::new();
        let mut i: usize = 0;
        while rest.len() > 0
            invariant
                all.len() == n,
                i <= all.len(),
                spec_sorted(all),
                rest@ == all.skip(i as int),
                spec_sorted(kept@),
                forall|f_: K, g_: V| #[trigger] f.requires((&f_, &g_)),
                forall|a: int| 0 <= a < kept@.len() ==> exists|j: int| 0 <= j < i && all[j] == #[trigger] kept@[a],
                forall|a: int| 0 <= a < kept@.len() ==> f.ensures((&kept@[a].0, &kept@[a].1), true),
                forall|j: int| 0 <= j < i && !kept@.contains(#[trigger] all[j]) ==> f.ensures((&all[j].0, &all[j].1), false),
                kept@.len() > 0 ==> (exists|j: int| 0 <= j < i && all[j] == kept@.last()),
            decreases rest@.len(),
        {
            let entry = rest.remove(0);
            proof {
                assert(entry == all[i as int]);
                assert(all.skip(i + 1) == all.skip(i as int).remove(0));
            }
            let keep = f(&entry.0, &entry.1);
            if keep {
                proof {
                    if kept@.len() > 0 {
                        let j = choose|j: int| 0 <= j < i && all[j] == kept@.last();
                        assert(all[j].0.spec_key() < all[i as int].0.spec_key());
                        assert forall|a: int| 0 <= a < kept@.len() implies kept@[a].0.spec_key() < entry.0.spec_key() by {
                            let ja = choose|ja: int| 0 <= ja < i && all[ja] == #[trigger] kept@[a];
                            assert(all[ja].0.spec_key() < all[i as int].0.spec_key());
                        }
                    }
                }
                let ghost before = kept@;
                kept.push(entry);
                proof {
                    assert(kept@ == before.push(entry));
                    assert(kept@.last() == all[i as int]);
                    assert forall|j: int| 0 <= j < i + 1 && !kept@.contains(#[trigger] all[j]) implies f.ensures((&all[j].0, &all[j].1), false) by {
                        if j < i {
                            if before.contains(all[j]) {
                                let a = choose|a: int| 0 <= a < before.len() && before[a] == all[j];
                                assert(kept@[a] == all[j]);
                            }
                        } else {
                            assert(kept@[kept@.len() - 1] == all[j]);
                        }
                    }
                    assert forall|a: int| 0 <= a < kept@.len() implies exists|j: int| 0 <= j < i + 1 && all[j] == #[trigger] kept@[a] by {
                        if a < before.len() {
                            let j = choose|j: int| 0 <= j < i && all[j] == #[trigger] before[a];
                            assert(kept@[a] == before[a]);
                        } else {
                            assert(all[i as int] == kept@[a]);
                        }
                    }
                }
            } else {
                proof {
                    assert forall|a: int| 0 <= a < kept@.len() implies exists|j: int| 0 <= j < i + 1 && all[j] == #[trigger] kept@[a] by {
                        let j = choose|j: int| 0 <= j < i && all[j] == #[trigger] kept@[a];
                    }
                }
            }
            i = i + 1;
        }
        proof {
            assert(i == all.len()) by {
                assert(all.skip(i as int).len() == 0);
            }
            assert forall|a: int| 0 <= a < kept@.len() implies all.contains(#[trigger] kept@[a]) by {
                let j = choose|j: int| 0 <= j < i && all[j] == #[trigger] kept@[a];
            }
        }
        self.entries = kept;
    }
}


/// An entry inserted for key `q` where [`AddendedOrderedMap::find_mut_or_insert_with`] puts
/// it (at a position that splits the entries at `q`) answers every later lookup of `q`,
/// with or without addends.
pub proof fn lemma_inserted_entry_answers<K: AddressValue, V: SizedValue>(
    entries: Seq<(K, V)>,
    q: int,
    p: int,
    entry: (K, V),
    allow_addend: bool,
)
    requires
        spec_split_at(entries, q, p),
        entry.0.spec_key() == q,
    ensures
        spec_answers(entries.insert(p, entry), q, allow_addend, p),
{
    let s = entries.insert(p, entry);
    assert(s[p] == entry);
    if p + 1 < s.len() {
        assert(s[p + 1] == entries[p]);
    }
}

} // verus!
