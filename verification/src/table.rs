//! A table from texts to values.
//!
//! Entries are kept in the order in which their keys were first inserted, and
//! no key occurs twice.

use vstd::prelude::*;
use vstd::string::*;

use crate::text::same;

verus! {

/// One key with its value.
#[derive(Debug)]
pub struct Entry<V> {
    /// The key.
    pub key: String,
    /// The value held under the key.
    pub value: V,
}

/// A table from texts to values, seen in contracts as a map.
#[derive(Debug)]
pub struct Table<V> {
    entries: Vec<Entry<V>>,
}

/// Whether no two entries have the same key.
pub open spec fn distinct<V>(s: Seq<Entry<V>>) -> bool {
    forall|i: int, j: int|
        0 <= i < j < s.len() ==> (#[trigger] s[i]).key@ != (#[trigger] s[j]).key@
}

/// Whether `k` is the key of an entry.
pub open spec fn has_key<V>(s: Seq<Entry<V>>, k: Seq<char>) -> bool {
    exists|i: int| 0 <= i < s.len() && (#[trigger] s[i]).key@ == k
}

/// The position of the entry with key `k`.
pub open spec fn place<V>(s: Seq<Entry<V>>, k: Seq<char>) -> int {
    choose|i: int| 0 <= i < s.len() && (#[trigger] s[i]).key@ == k
}

/// The entries as a map from keys to values.
pub open spec fn as_map<V>(s: Seq<Entry<V>>) -> Map<Seq<char>, V> {
    Map::new(|k: Seq<char>| has_key(s, k), |k: Seq<char>| s[place(s, k)].value)
}

proof fn lemma_place<V>(s: Seq<Entry<V>>, i: int)
    requires
        distinct(s),
        0 <= i < s.len(),
    ensures
        has_key(s, s[i].key@),
        place(s, s[i].key@) == i,
        as_map(s).dom().contains(s[i].key@),
        as_map(s)[s[i].key@] == s[i].value,
{
    let p = place(s, s[i].key@);
    assert(0 <= p < s.len() && s[p].key@ == s[i].key@);
}

proof fn lemma_push<V>(s: Seq<Entry<V>>, e: Entry<V>)
    requires
        distinct(s),
        !has_key(s, e.key@),
    ensures
        distinct(s.push(e)),
        as_map(s.push(e)) == as_map(s).insert(e.key@, e.value),
{
    let t = s.push(e);
    assert(distinct(t));
    let a = as_map(t);
    let b = as_map(s).insert(e.key@, e.value);
    assert forall|k: Seq<char>| a.dom().contains(k) == b.dom().contains(k) by {
        if has_key(s, k) {
            let i = place(s, k);
            assert(t[i].key@ == k);
        }
        if has_key(t, k) {
            let i = place(t, k);
            assert(i < s.len() ==> s[i].key@ == k);
        }
        assert(t[s.len() as int].key@ == e.key@);
    }
    assert forall|k: Seq<char>| a.dom().contains(k) implies a[k] == b[k] by {
        let i = place(t, k);
        lemma_place(t, i);
        if i < s.len() {
            assert(s[i].key@ == k);
            lemma_place(s, i);
        }
    }
    assert(a =~= b);
}

proof fn lemma_replace<V>(s: Seq<Entry<V>>, i: int, e: Entry<V>)
    requires
        distinct(s),
        0 <= i < s.len(),
        s[i].key@ == e.key@,
    ensures
        distinct(s.update(i, e)),
        as_map(s.update(i, e)) == as_map(s).insert(e.key@, e.value),
{
    let t = s.update(i, e);
    assert(distinct(t)) by {
        assert forall|x: int, y: int| 0 <= x < y < t.len() implies (#[trigger] t[x]).key@ != (
        #[trigger] t[y]).key@ by {
            assert(s[x].key@ != s[y].key@);
        }
    }
    let a = as_map(t);
    let b = as_map(s).insert(e.key@, e.value);
    assert forall|k: Seq<char>| a.dom().contains(k) == b.dom().contains(k) by {
        if has_key(s, k) {
            let j = place(s, k);
            assert(t[j].key@ == k);
        }
        if has_key(t, k) {
            let j = place(t, k);
            assert(s[j].key@ == k);
        }
        assert(t[i].key@ == e.key@);
    }
    assert forall|k: Seq<char>| a.dom().contains(k) implies a[k] == b[k] by {
        let j = place(t, k);
        lemma_place(t, j);
        lemma_place(s, j);
    }
    assert(a =~= b);
}

proof fn lemma_remove<V>(s: Seq<Entry<V>>, i: int)
    requires
        distinct(s),
        0 <= i < s.len(),
    ensures
        distinct(s.remove(i)),
        as_map(s.remove(i)) == as_map(s).remove(s[i].key@),
{
    let t = s.remove(i);
    let key = s[i].key@;
    assert(distinct(t)) by {
        assert forall|x: int, y: int| 0 <= x < y < t.len() implies (#[trigger] t[x]).key@ != (
        #[trigger] t[y]).key@ by {
            let p = if x < i { x } else { x + 1 };
            let q = if y < i { y } else { y + 1 };
            assert(t[x] == s[p] && t[y] == s[q]);
        }
    }
    let a = as_map(t);
    let b = as_map(s).remove(key);
    assert forall|k: Seq<char>| a.dom().contains(k) == b.dom().contains(k) by {
        if has_key(s, k) && k != key {
            let j = place(s, k);
            let q = if j < i { j } else { j - 1 };
            assert(t[q] == s[j]);
        }
        if has_key(t, k) {
            let j = place(t, k);
            let q = if j < i { j } else { j + 1 };
            assert(s[q] == t[j]);
        }
    }
    assert forall|k: Seq<char>| a.dom().contains(k) implies a[k] == b[k] by {
        let j = place(t, k);
        let q = if j < i { j } else { j + 1 };
        assert(t[j] == s[q]);
        lemma_place(t, j);
        lemma_place(s, q);
    }
    assert(a =~= b);
}

proof fn lemma_finite<V>(s: Seq<Entry<V>>)
    requires
        distinct(s),
    ensures
        as_map(s).dom().finite(),
        as_map(s).dom().len() == s.len(),
    decreases s.len(),
{
    if s.len() == 0 {
        assert(as_map(s).dom() =~= Set::empty());
    } else {
        let t = s.drop_last();
        assert(distinct(t)) by {
            assert forall|x: int, y: int| 0 <= x < y < t.len() implies (#[trigger] t[x]).key@ != (
            #[trigger] t[y]).key@ by {
                assert(s[x].key@ != s[y].key@);
            }
        }
        lemma_finite(t);
        assert(!has_key(t, s.last().key@)) by {
            if has_key(t, s.last().key@) {
                let p = place(t, s.last().key@);
                assert(s[p].key@ == s[s.len() - 1].key@);
            }
        }
        lemma_push(t, s.last());
        assert(t.push(s.last()) =~= s);
        assert(as_map(s).dom() =~= as_map(t).dom().insert(s.last().key@));
    }
}

impl<V> View for Table<V> {
    type V = Map<Seq<char>, V>;

    closed spec fn view(&self) -> Map<Seq<char>, V> {
        as_map(self.entries@)
    }
}

impl Clone for Table<String> {
    fn clone(&self) -> (t: Table<String>)
        ensures
            t@ == self@,
            t.entries() == self.entries(),
    {
        proof {
            use_type_invariant(self);
        }
        let mut entries: Vec<Entry<String>> = Vec::new();
        let mut i: usize = 0;
        while i < self.entries.len()
            invariant
                i <= self.entries@.len(),
                entries@ == self.entries@.take(i as int),
            decreases self.entries@.len() - i,
        {
            let e: &Entry<String> = &self.entries[i];
            entries.push(Entry { key: e.key.clone(), value: e.value.clone() });
            i = i + 1;
            proof {
                assert(self.entries@.take(i as int) =~= self.entries@.take(i - 1).push(
                    self.entries@[i - 1],
                ));
            }
        }
        proof {
            assert(self.entries@.take(i as int) =~= self.entries@);
        }
        Table { entries }
    }
}

impl<V> Table<V> {
    /// The entries in order.
    pub closed spec fn entries(self) -> Seq<Entry<V>> {
        self.entries@
    }

    #[verifier::type_invariant]
    spec fn keys_distinct(self) -> bool {
        distinct(self.entries@)
    }

    /// A table without entries.
    pub fn new() -> (t: Table<V>)
        ensures
            t@ == Map::<Seq<char>, V>::empty(),
            t.entries() == Seq::<Entry<V>>::empty(),
    {
        let t: Table<V> = Table { entries: Vec::new() };
        proof {
            assert(t@ =~= Map::empty());
        }
        t
    }

    /// How many keys the table holds.
    pub fn len(&self) -> (n: usize)
        ensures
            n == self@.dom().len(),
            n == self.entries().len(),
            self@.dom().finite(),
            distinct(self.entries()),
            forall|k: Seq<char>| #[trigger]
                self@.dom().contains(k) ==> has_key(self.entries(), k),
    {
        proof {
            use_type_invariant(&*self);
            lemma_finite(self.entries@);
        }
        self.entries.len()
    }

    /// The `i`th entry.
    pub fn entry(&self, i: usize) -> (e: &Entry<V>)
        requires
            i < self.entries().len(),
        ensures
            e == self.entries()[i as int],
            self@.dom().contains(e.key@),
            self@[e.key@] == e.value,
    {
        proof {
            use_type_invariant(&*self);
            lemma_place(self.entries@, i as int);
        }
        &self.entries[i]
    }

    fn find(&self, key: &str) -> (r: Option<usize>)
        ensures
            match r {
                Some(i) => i < self.entries@.len() && self.entries@[i as int].key@ == key@,
                None => !has_key(self.entries@, key@),
            },
    {
        let mut i: usize = 0;
        while i < self.entries.len()
            invariant
                i <= self.entries@.len(),
                forall|j: int| 0 <= j < i ==> (#[trigger] self.entries@[j]).key@ != key@,
            decreases self.entries@.len() - i,
        {
            if same(self.entries[i].key.as_str(), key) {
                return Some(i);
            }
            i = i + 1;
        }
        None
    }

    /// The value under `key`, if there is one.
    pub fn get(&self, key: &str) -> (r: Option<&V>)
        ensures
            match r {
                Some(v) => self@.dom().contains(key@) && *v == self@[key@],
                None => !self@.dom().contains(key@),
            },
    {
        match self.find(key) {
            Some(i) => {
                proof {
                    use_type_invariant(&*self);
                    lemma_place(self.entries@, i as int);
                }
                Some(&self.entries[i].value)
            },
            None => None,
        }
    }

    /// Whether the table holds `key`.
    pub fn contains_key(&self, key: &str) -> (r: bool)
        ensures
            r == self@.dom().contains(key@),
    {
        self.get(key).is_some()
    }

    /// Put `value` under `key`, in place of what was there.
    pub fn insert(&mut self, key: String, value: V)
        ensures
            final(self)@ == old(self)@.insert(key@, value),
            // A key that is there keeps its place, and a new one comes last.
            has_key(old(self).entries(), key@) ==> exists|i: int|
                0 <= i < old(self).entries().len() && #[trigger] old(self).entries()[i].key@
                    == key@ && final(self).entries() == old(self).entries().update(
                    i,
                    Entry { key, value },
                ),
            !has_key(old(self).entries(), key@) ==> final(self).entries()
                == old(self).entries().push(Entry { key, value }),
    {
        proof {
            use_type_invariant(&*self);
        }
        let found: Option<usize> = self.find(key.as_str());
        let mut entries: Vec<Entry<V>> = Vec::new();
        std::mem::swap(&mut entries, &mut self.entries);
        match found {
            Some(i) => {
                proof {
                    lemma_replace(entries@, i as int, Entry { key, value });
                }
                entries.set(i, Entry { key, value });
            },
            None => {
                proof {
                    lemma_push(entries@, Entry { key, value });
                }
                entries.push(Entry { key, value });
            },
        }
        self.entries = entries;
    }

    /// Take out what stands under `key`.
    pub fn remove(&mut self, key: &str) -> (r: Option<V>)
        ensures
            final(self)@ == old(self)@.remove(key@),
            // The other entries stay in order.
            has_key(old(self).entries(), key@) ==> exists|i: int|
                0 <= i < old(self).entries().len() && #[trigger] old(self).entries()[i].key@
                    == key@ && final(self).entries() == old(self).entries().remove(i),
            !has_key(old(self).entries(), key@) ==> final(self).entries()
                == old(self).entries(),
            match r {
                Some(v) => old(self)@.dom().contains(key@) && v == old(self)@[key@],
                None => !old(self)@.dom().contains(key@),
            },
    {
        proof {
            use_type_invariant(&*self);
        }
        match self.find(key) {
            Some(i) => {
                let mut entries: Vec<Entry<V>> = Vec::new();
                std::mem::swap(&mut entries, &mut self.entries);
                proof {
                    lemma_place(entries@, i as int);
                    lemma_remove(entries@, i as int);
                }
                let e: Entry<V> = entries.remove(i);
                self.entries = entries;
                Some(e.value)
            },
            None => {
                proof {
                    assert(self@.remove(key@) =~= self@);
                }
                None
            },
        }
    }
}

/// The map holds exactly the entries: the value of each under its key, and
/// nothing under any other key.
pub proof fn law_map_holds_the_entries<V>(s: Seq<Entry<V>>, i: int, k: Seq<char>)
    requires
        forall|a: int, b: int|
            0 <= a < s.len() && 0 <= b < s.len() && (#[trigger] s[a]).key@ == (
            #[trigger] s[b]).key@ ==> a == b,
        0 <= i < s.len(),
    ensures
        as_map(s).dom().contains(s[i].key@),
        as_map(s)[s[i].key@] == s[i].value,
        as_map(s).dom().contains(k) <==> exists|j: int|
            0 <= j < s.len() && (#[trigger] s[j]).key@ == k,
{
    lemma_place(s, i);
}

} // verus!
