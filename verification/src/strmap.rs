//! A map from strings, kept as a list of entries with distinct keys.

use crate::text;
use vstd::prelude::*;

verus! {

/// A map from strings to `V`. Its entries keep the order of their insertion.
#[derive(Debug)]
pub struct StrMap<V> {
    entries: Vec<(String, V)>,
}

impl<V> View for StrMap<V> {
    type V = Map<Seq<char>, V>;

    closed spec fn view(&self) -> Map<Seq<char>, V> {
        entry_map(self.entries@)
    }
}

spec fn entry_map<V>(entries: Seq<(String, V)>) -> Map<Seq<char>, V> {
    Map::new(
        |k: Seq<char>| exists|i: int| 0 <= i < entries.len() && (#[trigger] entries[i]).0@ == k,
        |k: Seq<char>|
            entries[choose|i: int| 0 <= i < entries.len() && (#[trigger] entries[i]).0@ == k].1,
    )
}

spec fn distinct<V>(entries: Seq<(String, V)>) -> bool {
    forall|i: int, j: int|
        0 <= i < entries.len() && 0 <= j < entries.len() && (#[trigger] entries[i]).0@ == (
        #[trigger] entries[j]).0@ ==> i == j
}

impl<V> StrMap<V> {
    #[verifier::type_invariant]
    spec fn keys_are_distinct(self) -> bool {
        distinct(self.entries@)
    }

    /// The keys, in the order of their insertion.
    pub closed spec fn key_list(&self) -> Seq<Seq<char>> {
        self.entries@.map_values(|e: (String, V)| e.0@)
    }

    /// The empty map.
    pub fn new() -> (m: StrMap<V>)
        ensures
            m@ == Map::<Seq<char>, V>::empty(),
            m.key_list() == Seq::<Seq<char>>::empty(),
    {
        let m = StrMap { entries: Vec::new() };
        assert(m@ =~= Map::<Seq<char>, V>::empty());
        assert(m.key_list() =~= Seq::<Seq<char>>::empty());
        m
    }

    fn index_of(&self, key: &str) -> (r: Option<usize>)
        ensures
            match r {
                Some(i) => i < self.entries.len() && self.entries@[i as int].0@ == key@
                    && self@.contains_key(key@) && self@[key@] == self.entries@[i as int].1,
                None => !self@.contains_key(key@),
            },
    {
        proof {
            use_type_invariant(self);
        }
        let mut i: usize = 0;
        while i < self.entries.len()
            invariant
                i <= self.entries.len(),
                forall|k: int| 0 <= k < i ==> (#[trigger] self.entries@[k]).0@ != key@,
                distinct(self.entries@),
            decreases self.entries.len() - i,
        {
            if text::same(self.entries[i].0.as_str(), key) {
                assert(self@.contains_key(key@));
                return Some(i);
            }
            i += 1;
        }
        None
    }

    /// The value under `key`.
    pub fn get(&self, key: &str) -> (r: Option<&V>)
        ensures
            match r {
                Some(v) => self@.contains_key(key@) && *v == self@[key@],
                None => !self@.contains_key(key@),
            },
    {
        match self.index_of(key) {
            Some(i) => Some(&self.entries[i].1),
            None => None,
        }
    }

    /// Whether there is a value under `key`.
    pub fn contains_key(&self, key: &str) -> (b: bool)
        ensures
            b == self@.contains_key(key@),
    {
        match self.index_of(key) {
            Some(_) => true,
            None => false,
        }
    }

    /// Puts `value` under `key`; a value that was there is replaced.
    pub fn insert(&mut self, key: String, value: V)
        ensures
            final(self)@ == old(self)@.insert(key@, value),
            final(self).key_list() == if old(self)@.contains_key(key@) {
                old(self).key_list()
            } else {
                old(self).key_list().push(key@)
            },
    {
        proof {
            use_type_invariant(&*self);
        }
        let ghost before = self.entries@;
        let at = self.index_of(key.as_str());
        let mut entries: Vec<(String, V)> = Vec::new();
        std::mem::swap(&mut entries, &mut self.entries);
        match at {
            Some(i) => {
                let ghost old_key = entries@[i as int].0;
                entries.set(i, (key, value));
                assert(entries@.map_values(|e: (String, V)| e.0@) =~= before.map_values(
                    |e: (String, V)| e.0@,
                ));
                assert forall|j: int| 0 <= j < entries@.len() implies (#[trigger] entries@[j]).0@
                    == before[j].0@ by {}
            },
            None => {
                entries.push((key, value));
                assert(entries@.map_values(|e: (String, V)| e.0@) =~= before.map_values(
                    |e: (String, V)| e.0@,
                ).push(key@));
            },
        }
        proof {
            lemma_inserted(before, entries@, key@, value, at);
        }
        self.entries = entries;
    }

    /// Takes the value under `key` out of the map.
    pub fn take(&mut self, key: &str) -> (r: Option<V>)
        ensures
            final(self)@ == old(self)@.remove(key@),
            match r {
                Some(v) => old(self)@.contains_key(key@) && v == old(self)@[key@],
                None => !old(self)@.contains_key(key@),
            },
    {
        proof {
            use_type_invariant(&*self);
        }
        match self.index_of(key) {
            Some(i) => {
                let ghost before = self.entries@;
                let mut entries: Vec<(String, V)> = Vec::new();
                std::mem::swap(&mut entries, &mut self.entries);
                let (_, value) = entries.remove(i);
                proof {
                    lemma_removed(before, entries@, i as int);
                }
                self.entries = entries;
                Some(value)
            },
            None => {
                assert(self@.remove(key@) =~= self@);
                None
            },
        }
    }

    /// The two maps together; where both have a value under a key, the one of
    /// `other` counts.
    pub fn merged(self, other: StrMap<V>) -> (m: StrMap<V>)
        ensures
            m@ == self@.union_prefer_right(other@),
    {
        proof {
            use_type_invariant(&other);
        }
        let ghost all = other.entries@;
        let ghost start = self@;
        let mut m = self;
        let mut rest: Vec<(String, V)> = other.entries;
        let ghost mut done: Seq<(String, V)> = Seq::empty();
        assert(done + rest@ =~= all);
        assert(entry_map(done) =~= Map::<Seq<char>, V>::empty());
        assert(start.union_prefer_right(entry_map(done)) =~= start);
        while rest.len() > 0
            invariant
                distinct(all),
                done + rest@ == all,
                m@ == start.union_prefer_right(entry_map(done)),
            decreases rest.len(),
        {
            let ghost prior = done;
            let ghost first = rest@[0];
            assert(all[prior.len() as int] == first);
            let (key, value) = rest.remove(0);
            m.insert(key, value);
            proof {
                done = prior.push(first);
                assert(done + rest@ =~= all);
                assert forall|i: int| 0 <= i < prior.len() implies #[trigger] prior[i]
                    == all[i] by {}
                assert(distinct(prior));
                lemma_inserted(prior, done, first.0@, first.1, None);
                assert(start.union_prefer_right(entry_map(prior)).insert(first.0@, first.1)
                    =~= start.union_prefer_right(entry_map(prior).insert(first.0@, first.1)));
            }
        }
        assert(done =~= all);
        m
    }

    /// The keys.
    pub fn keys(&self) -> (r: Vec<String>)
        ensures
            text::views(r@) == self.key_list(),
    {
        let mut r: Vec<String> = Vec::new();
        let mut i: usize = 0;
        while i < self.entries.len()
            invariant
                i <= self.entries.len(),
                r.len() == i,
                forall|k: int| 0 <= k < i ==> (#[trigger] r@[k])@ == self.entries@[k].0@,
            decreases self.entries.len() - i,
        {
            r.push(self.entries[i].0.clone());
            i += 1;
        }
        assert(text::views(r@) =~= self.key_list());
        r
    }

    /// Whether there is no value.
    pub fn is_empty(&self) -> (b: bool)
        ensures
            b == (self@ == Map::<Seq<char>, V>::empty()),
    {
        let b = self.entries.len() == 0;
        if b {
            assert(self@ =~= Map::<Seq<char>, V>::empty());
        } else {
            assert(self@.contains_key(self.entries@[0].0@));
        }
        b
    }

    /// The list of keys holds each key of the map once.
    pub fn key_facts(&self)
        ensures
            self.key_list().no_duplicates(),
            forall|k: Seq<char>| #[trigger] self.key_list().contains(k) <==> self@.contains_key(k),
    {
        proof {
            use_type_invariant(self);
            assert forall|k: Seq<char>| #[trigger]
                self.key_list().contains(k) implies self@.contains_key(k) by {
                let i = choose|i: int| 0 <= i < self.key_list().len() && self.key_list()[i] == k;
                assert(self.entries@[i].0@ == k);
            }
            assert forall|k: Seq<char>| self@.contains_key(k) implies #[trigger]
            self.key_list().contains(k) by {
                let i = choose|i: int|
                    0 <= i < self.entries@.len() && (#[trigger] self.entries@[i]).0@ == k;
                assert(self.key_list()[i] == k);
            }
        }
    }
}

proof fn lemma_removed<V>(before: Seq<(String, V)>, after: Seq<(String, V)>, at: int)
    requires
        distinct(before),
        0 <= at < before.len(),
        after == before.remove(at),
    ensures
        distinct(after),
        entry_map(after) == entry_map(before).remove(before[at].0@),
{
    let key = before[at].0@;
    assert forall|i: int| 0 <= i < after.len() implies #[trigger] after[i] == before[if i < at {
        i
    } else {
        i + 1
    }] by {}
    let a = entry_map(after);
    let b = entry_map(before).remove(key);
    assert forall|k: Seq<char>| a.contains_key(k) <==> b.contains_key(k) by {
        if a.contains_key(k) {
            let i = choose|i: int| 0 <= i < after.len() && (#[trigger] after[i]).0@ == k;
            assert(before[if i < at {
                i
            } else {
                i + 1
            }].0@ == k);
        }
        if b.contains_key(k) {
            let i = choose|i: int| 0 <= i < before.len() && (#[trigger] before[i]).0@ == k;
            assert(after[if i < at {
                i
            } else {
                i - 1
            }].0@ == k);
        }
    }
    assert forall|k: Seq<char>| a.contains_key(k) implies a[k] == b[k] by {
        let i = choose|i: int| 0 <= i < after.len() && (#[trigger] after[i]).0@ == k;
        let x = if i < at {
            i
        } else {
            i + 1
        };
        assert(before[x].0@ == k);
        let j = choose|j: int| 0 <= j < before.len() && (#[trigger] before[j]).0@ == k;
        assert(x == j);
    }
    assert(a =~= b);
}

proof fn lemma_inserted<V>(
    before: Seq<(String, V)>,
    after: Seq<(String, V)>,
    key: Seq<char>,
    value: V,
    at: Option<usize>,
)
    requires
        distinct(before),
        match at {
            Some(i) => i < before.len() && before[i as int].0@ == key && after.len() == before.len()
                && after[i as int].0@ == key && after[i as int].1 == value && forall|j: int|
                0 <= j < before.len() && j != i ==> #[trigger] after[j] == before[j],
            None => after.len() == before.len() + 1 && after.last().0@ == key && after.last().1
                == value && (forall|j: int|
                0 <= j < before.len() ==> #[trigger] after[j] == before[j]) && (forall|j: int|
                0 <= j < before.len() ==> (#[trigger] before[j]).0@ != key),
        },
    ensures
        distinct(after),
        entry_map(after) == entry_map(before).insert(key, value),
{
    let pos: int = match at {
        Some(i) => i as int,
        None => before.len() as int,
    };
    assert forall|i: int, j: int|
        0 <= i < after.len() && 0 <= j < after.len() && (#[trigger] after[i]).0@ == (
        #[trigger] after[j]).0@ implies i == j by {
        if i != pos {
            assert(after[i] == before[i]);
        }
        if j != pos {
            assert(after[j] == before[j]);
        }
    }
    let a = entry_map(after);
    let b = entry_map(before).insert(key, value);
    assert forall|k: Seq<char>| a.contains_key(k) <==> b.contains_key(k) by {
        if a.contains_key(k) && k != key {
            let i = choose|i: int| 0 <= i < after.len() && (#[trigger] after[i]).0@ == k;
            assert(before[i].0@ == k);
        }
        if b.contains_key(k) {
            if k == key {
                assert(after[pos].0@ == k);
            } else {
                let i = choose|i: int| 0 <= i < before.len() && (#[trigger] before[i]).0@ == k;
                assert(after[i].0@ == k);
            }
        }
    }
    assert forall|k: Seq<char>| a.contains_key(k) implies a[k] == b[k] by {
        let i = choose|i: int| 0 <= i < after.len() && (#[trigger] after[i]).0@ == k;
        if k == key {
            assert(after[pos].0@ == k);
        } else {
            assert(before[i].0@ == k);
            let j = choose|j: int| 0 <= j < before.len() && (#[trigger] before[j]).0@ == k;
            assert(i == j);
        }
    }
    assert(a =~= b);
}

} // verus!
