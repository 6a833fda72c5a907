//! A small map from strings to strings that keeps its insertion order: the
//! environment variables and configuration changes of a build.
use crate::text::{owned, string_views};
use vstd::prelude::*;

verus! {

/// A map from strings to strings, each key once, in insertion order.
#[derive(Clone, Debug, PartialEq, Eq)]
pub struct StringMap {
    entries: Vec<(String, String)>,
}

/// The keys of a sequence of entries.
pub open spec fn entry_keys(es: Seq<(String, String)>) -> Seq<Seq<char>> {
    es.map_values(|e: (String, String)| e.0@)
}

/// The entries as a map of their views.
pub open spec fn entries_map(es: Seq<(String, String)>) -> Map<Seq<char>, Seq<char>>
    decreases es.len(),
{
    if es.len() == 0 {
        Map::empty()
    } else {
        entries_map(es.drop_last()).insert(es.last().0@, es.last().1@)
    }
}

impl View for StringMap {
    type V = Map<Seq<char>, Seq<char>>;

    closed spec fn view(&self) -> Map<Seq<char>, Seq<char>> {
        entries_map(self.entries@)
    }
}

impl StringMap {
    /// The entries, in insertion order, as views.
    pub closed spec fn pairs(&self) -> Seq<(Seq<char>, Seq<char>)> {
        self.entries@.map_values(|e: (String, String)| (e.0@, e.1@))
    }

    /// Each key occurs once.
    pub closed spec fn wf(&self) -> bool {
        entry_keys(self.entries@).no_duplicates()
    }

    /// An empty map.
    pub fn new() -> (r: Self)
        ensures
            r.wf(),
            r@ == Map::<Seq<char>, Seq<char>>::empty(),
            r.pairs() == Seq::<(Seq<char>, Seq<char>)>::empty(),
    {
        let r = StringMap { entries: Vec::new() };
        assert(r.pairs() =~= Seq::<(Seq<char>, Seq<char>)>::empty());
        r
    }

    /// The number of keys.
    pub fn len(&self) -> (r: usize)
        requires
            self.wf(),
        ensures
            r == self@.dom().len(),
            r == self.pairs().len(),
    {
        proof {
            lemma_entries_map_dom(self.entries@);
        }
        self.entries.len()
    }

    fn position(&self, key: &str) -> (r: Option<usize>)
        ensures
            match r {
                Some(i) => i < self.entries@.len() && self.entries@[i as int].0@ == key@,
                None => !entry_keys(self.entries@).contains(key@),
            },
    {
        for i in 0..self.entries.len()
            invariant
                forall|j: int| 0 <= j < i ==> self.entries@[j].0@ != key@,
        {
            if self.entries[i].0 == owned(key) {
                return Some(i);
            }
        }
        proof {
            if entry_keys(self.entries@).contains(key@) {
                let j = choose|j: int| 0 <= j < entry_keys(self.entries@).len() && entry_keys(self.entries@)[j] == key@;
                assert(self.entries@[j].0@ == key@);
            }
        }
        None
    }

    /// The value of a key.
    pub fn get(&self, key: &str) -> (r: Option<&String>)
        requires
            self.wf(),
        ensures
            match r {
                Some(v) => self@.contains_key(key@) && self@[key@] == v@,
                None => !self@.contains_key(key@),
            },
    {
        proof {
            lemma_entries_map_dom(self.entries@);
        }
        match self.position(key) {
            Some(i) => {
                proof {
                    lemma_entries_map_at(self.entries@, i as int);
                }
                Some(&self.entries[i].1)
            },
            None => None,
        }
    }

    /// Whether a key is present.
    pub fn contains_key(&self, key: &str) -> (r: bool)
        requires
            self.wf(),
        ensures
            r == self@.contains_key(key@),
    {
        proof {
            lemma_entries_map_dom(self.entries@);
        }
        let p = self.position(key);
        proof {
            if let Some(i) = p {
                assert(entry_keys(self.entries@)[i as int] == key@);
            }
        }
        p.is_some()
    }

    /// Sets a key's value: a new key goes last, an existing key keeps its place.
    pub fn insert(&mut self, key: String, value: String)
        requires
            old(self).wf(),
        ensures
            final(self).wf(),
            final(self)@ == old(self)@.insert(key@, value@),
    {
        proof {
            lemma_entries_map_dom(self.entries@);
        }
        match self.position(key.as_str()) {
            Some(i) => {
                let ghost before = self.entries@;
                let k = self.entries[i].0.clone();
                self.entries.set(i, (k, value));
                proof {
                    assert(entry_keys(self.entries@) =~= entry_keys(before));
                    lemma_entries_map_update(before, i as int, value);
                }
            },
            None => {
                let ghost before = self.entries@;
                self.entries.push((key, value));
                proof {
                    assert(entry_keys(self.entries@) =~= entry_keys(before).push(key@));
                    assert(self.entries@.drop_last() == before);
                }
            },
        }
    }

    /// Removes a key, if present; the other entries keep their order.
    pub fn remove(&mut self, key: &str)
        requires
            old(self).wf(),
        ensures
            final(self).wf(),
            final(self)@ == old(self)@.remove(key@),
    {
        proof {
            lemma_entries_map_dom(self.entries@);
        }
        match self.position(key) {
            Some(i) => {
                let ghost before = self.entries@;
                let _ = self.entries.remove(i);
                proof {
                    assert(self.entries@ == before.remove(i as int));
                    lemma_entries_map_remove(before, i as int);
                }
            },
            None => {
                assert(self@ =~= self@.remove(key@));
            },
        }
    }

    /// Sets each key of `other` to its value there.
    pub fn extend_from(&mut self, other: &StringMap)
        requires
            old(self).wf(),
            other.wf(),
        ensures
            final(self).wf(),
            final(self)@ == old(self)@.union_prefer_right(other@),
    {
        let ghost start = self@;
        for i in 0..other.entries.len()
            invariant
                self.wf(),
                self@ == start.union_prefer_right(entries_map(other.entries@.take(i as int))),
        {
            let ghost before = self@;
            let ghost t = other.entries@.take(i + 1);
            assert(t.drop_last() =~= other.entries@.take(i as int));
            assert(t.last() == other.entries@[i as int]);
            let k = other.entries[i].0.clone();
            let v = other.entries[i].1.clone();
            self.insert(k, v);
            assert(self@ =~= start.union_prefer_right(entries_map(t)));
        }
        assert(other.entries@.take(other.entries@.len() as int) =~= other.entries@);
    }

    /// A copy of the map, entry for entry.
    pub fn duplicate(&self) -> (r: Self)
        ensures
            r@ == self@,
            r.pairs() == self.pairs(),
            r.wf() == self.wf(),
    {
        let mut es: Vec<(String, String)> = Vec::new();
        for i in 0..self.entries.len()
            invariant
                es@.len() == i,
                forall|j: int| 0 <= j < i ==> (#[trigger] es@[j]).0@ == self.entries@[j].0@ && es@[j].1@ == self.entries@[j].1@,
        {
            let k = self.entries[i].0.clone();
            let v = self.entries[i].1.clone();
            es.push((k, v));
        }
        let r = StringMap { entries: es };
        assert(entry_keys(r.entries@) =~= entry_keys(self.entries@));
        assert(r.pairs() =~= self.pairs());
        assert(r@ == self@) by {
            lemma_entries_map_same_views(r.entries@, self.entries@);
        }
        r
    }

    /// The entries whose keys are among `allowed`, in their order.
    pub fn filter_keys(&self, allowed: &Vec<String>) -> (r: Self)
        requires
            self.wf(),
        ensures
            r.wf(),
            r@ == self@.restrict(Set::new(|k: Seq<char>| string_views(allowed@).contains(k))),
    {
        let ghost a = Set::new(|k: Seq<char>| string_views(allowed@).contains(k));
        let mut r = StringMap::new();
        for i in 0..self.entries.len()
            invariant
                self.wf(),
                r.wf(),
                a == Set::new(|k: Seq<char>| string_views(allowed@).contains(k)),
                r@ == entries_map(self.entries@.take(i as int)).restrict(a),
        {
            let ghost t = self.entries@.take(i + 1);
            assert(t.drop_last() =~= self.entries@.take(i as int));
            assert(t.last() == self.entries@[i as int]);
            let k = &self.entries[i].0;
            let mut found = false;
            for j in 0..allowed.len()
                invariant
                    found == exists|m: int| 0 <= m < j && string_views(allowed@)[m] == k@,
            {
                if allowed[j] == *k {
                    assert(string_views(allowed@)[j as int] == k@);
                    found = true;
                }
            }
            assert(found == a.contains(k@)) by {
                if a.contains(k@) {
                    let m = choose|m: int| 0 <= m < string_views(allowed@).len() && string_views(allowed@)[m] == k@;
                }
            }
            if found {
                r.insert(k.clone(), self.entries[i].1.clone());
            }
            assert(r@ =~= entries_map(t).restrict(a));
        }
        assert(self.entries@.take(self.entries@.len() as int) =~= self.entries@);
        r
    }

    /// The entries in insertion order.
    pub fn entries(&self) -> (r: &Vec<(String, String)>)
        ensures
            r@.map_values(|e: (String, String)| (e.0@, e.1@)) == self.pairs(),
    {
        &self.entries
    }
}

/// The keys of the map are the keys of the entries.
proof fn lemma_entries_map_dom(es: Seq<(String, String)>)
    ensures
        forall|k: Seq<char>| #[trigger] entries_map(es).contains_key(k) <==> entry_keys(es).contains(k),
        entry_keys(es).no_duplicates() ==> entries_map(es).dom().len() == es.len(),
        entries_map(es).dom().finite(),
    decreases es.len(),
{
    if es.len() > 0 {
        let init = es.drop_last();
        lemma_entries_map_dom(init);
        assert(entry_keys(es) =~= entry_keys(init).push(es.last().0@));
        assert forall|k: Seq<char>| #[trigger] entries_map(es).contains_key(k) <==> entry_keys(es).contains(k) by {
            if k == es.last().0@ {
                assert(entry_keys(es)[es.len() - 1] == k);
            }
            if entry_keys(init).contains(k) {
                let j = choose|j: int| 0 <= j < entry_keys(init).len() && entry_keys(init)[j] == k;
                assert(entry_keys(es)[j] == k);
            }
            if entry_keys(es).contains(k) {
                let j = choose|j: int| 0 <= j < entry_keys(es).len() && entry_keys(es)[j] == k;
                if j < init.len() {
                    assert(entry_keys(init)[j] == k);
                }
            }
        }
        if entry_keys(es).no_duplicates() {
            assert(entry_keys(init).no_duplicates()) by {
                assert forall|a: int, b: int| 0 <= a < b < entry_keys(init).len() implies entry_keys(init)[a] != entry_keys(init)[b] by {
                    assert(entry_keys(es)[a] == entry_keys(init)[a]);
                    assert(entry_keys(es)[b] == entry_keys(init)[b]);
                }
            }
            assert(!entry_keys(init).contains(es.last().0@)) by {
                if entry_keys(init).contains(es.last().0@) {
                    let j = choose|j: int| 0 <= j < entry_keys(init).len() && entry_keys(init)[j] == es.last().0@;
                    assert(entry_keys(es)[j] == entry_keys(es)[es.len() - 1]);
                }
            }
            assert(!entries_map(init).contains_key(es.last().0@));
        }
    }
}

/// The value of an entry's key is the entry's value, where keys are distinct.
proof fn lemma_entries_map_at(es: Seq<(String, String)>, i: int)
    requires
        0 <= i < es.len(),
        entry_keys(es).no_duplicates(),
    ensures
        entries_map(es).contains_key(es[i].0@),
        entries_map(es)[es[i].0@] == es[i].1@,
    decreases es.len(),
{
    let init = es.drop_last();
    lemma_entries_map_dom(init);
    if i < es.len() - 1 {
        assert(entry_keys(init).no_duplicates()) by {
            assert forall|a: int, b: int| 0 <= a < b < entry_keys(init).len() implies entry_keys(init)[a] != entry_keys(init)[b] by {
                assert(entry_keys(es)[a] == entry_keys(init)[a]);
                assert(entry_keys(es)[b] == entry_keys(init)[b]);
            }
        }
        lemma_entries_map_at(init, i);
        assert(entry_keys(es)[i] != entry_keys(es)[es.len() - 1]);
        assert(init[i] == es[i]);
    }
}

/// Changing the value of an entry changes the map at that key only.
proof fn lemma_entries_map_update(es: Seq<(String, String)>, i: int, v: String)
    requires
        0 <= i < es.len(),
        entry_keys(es).no_duplicates(),
    ensures
        entries_map(es.update(i, (es[i].0, v))) == entries_map(es).insert(es[i].0@, v@),
    decreases es.len(),
{
    let init = es.drop_last();
    let es2 = es.update(i, (es[i].0, v));
    assert(entry_keys(init).no_duplicates()) by {
        assert forall|a: int, b: int| 0 <= a < b < entry_keys(init).len() implies entry_keys(init)[a] != entry_keys(init)[b] by {
            assert(entry_keys(es)[a] == entry_keys(init)[a]);
            assert(entry_keys(es)[b] == entry_keys(init)[b]);
        }
    }
    if i == es.len() - 1 {
        assert(es2.drop_last() =~= init);
        assert(entries_map(es2) =~= entries_map(es).insert(es[i].0@, v@));
    } else {
        assert(es2.drop_last() =~= init.update(i, (es[i].0, v)));
        lemma_entries_map_update(init, i, v);
        assert(entry_keys(es)[i] != entry_keys(es)[es.len() - 1]);
        assert(init[i] == es[i]);
        assert(entries_map(es2) =~= entries_map(es).insert(es[i].0@, v@));
    }
}

/// Removing an entry removes its key from the map, where keys are distinct.
proof fn lemma_entries_map_remove(es: Seq<(String, String)>, i: int)
    requires
        0 <= i < es.len(),
        entry_keys(es).no_duplicates(),
    ensures
        entry_keys(es.remove(i)).no_duplicates(),
        entries_map(es.remove(i)) == entries_map(es).remove(es[i].0@),
    decreases es.len(),
{
    let init = es.drop_last();
    let es2 = es.remove(i);
    lemma_entries_map_dom(init);
    assert(entry_keys(es2) =~= entry_keys(es).remove(i));
    assert(entry_keys(init).no_duplicates()) by {
        assert forall|a: int, b: int| 0 <= a < b < entry_keys(init).len() implies entry_keys(init)[a] != entry_keys(init)[b] by {
            assert(entry_keys(es)[a] == entry_keys(init)[a]);
            assert(entry_keys(es)[b] == entry_keys(init)[b]);
        }
    }
    assert(entry_keys(es2).no_duplicates()) by {
        assert forall|a: int, b: int| 0 <= a < b < entry_keys(es2).len() implies entry_keys(es2)[a] != entry_keys(es2)[b] by {
            let a2 = if a < i { a } else { a + 1 };
            let b2 = if b < i { b } else { b + 1 };
            assert(entry_keys(es2)[a] == entry_keys(es)[a2]);
            assert(entry_keys(es2)[b] == entry_keys(es)[b2]);
        }
    }
    if i == es.len() - 1 {
        assert(es2 =~= init);
        assert(!entry_keys(init).contains(es[i].0@)) by {
            if entry_keys(init).contains(es[i].0@) {
                let j = choose|j: int| 0 <= j < entry_keys(init).len() && entry_keys(init)[j] == es[i].0@;
                assert(entry_keys(es)[j] == entry_keys(es)[i]);
            }
        }
        assert(entries_map(es2) =~= entries_map(es).remove(es[i].0@));
    } else {
        assert(es2.drop_last() =~= init.remove(i));
        assert(es2.last() == es.last());
        lemma_entries_map_remove(init, i);
        assert(entry_keys(es)[i] != entry_keys(es)[es.len() - 1]);
        assert(init[i] == es[i]);
        assert(entries_map(es2) =~= entries_map(es).remove(es[i].0@));
    }
}

/// Entries with the same views give the same map.
proof fn lemma_entries_map_same_views(a: Seq<(String, String)>, b: Seq<(String, String)>)
    requires
        a.len() == b.len(),
        forall|j: int| 0 <= j < a.len() ==> (#[trigger] a[j]).0@ == b[j].0@ && a[j].1@ == b[j].1@,
    ensures
        entries_map(a) == entries_map(b),
    decreases a.len(),
{
    if a.len() > 0 {
        lemma_entries_map_same_views(a.drop_last(), b.drop_last());
        assert(a.last() == a[a.len() - 1]);
    }
}

} // verus!
