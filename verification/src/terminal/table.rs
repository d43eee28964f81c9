//! A small table keyed by text, with each key at most once.
use vstd::prelude::*;

use crate::text::same;

verus! {

pub open spec fn distinct_keys<T>(entries: Seq<(String, T)>) -> bool {
    forall|i: int, j: int|
        0 <= i < j < entries.len() ==> (#[trigger] entries[i]).0@ != (#[trigger] entries[j]).0@
}

/// The map that `entries` stand for.
pub open spec fn entry_map<T>(entries: Seq<(String, T)>) -> Map<Seq<char>, T>
    decreases entries.len(),
{
    if entries.len() == 0 {
        Map::empty()
    } else {
        entry_map(entries.drop_last()).insert(entries.last().0@, entries.last().1)
    }
}

proof fn lemma_entry_map<T>(entries: Seq<(String, T)>)
    requires
        distinct_keys(entries),
    ensures
        forall|i: int|
            0 <= i < entries.len() ==> entry_map(entries).dom().contains(
                (#[trigger] entries[i]).0@,
            ) && entry_map(entries)[entries[i].0@] == entries[i].1,
        forall|key: Seq<char>| #[trigger]
            entry_map(entries).dom().contains(key) ==> exists|i: int|
                0 <= i < entries.len() && (#[trigger] entries[i]).0@ == key,
        entry_map(entries).dom().finite(),
        entry_map(entries).dom().len() == entries.len(),
    decreases entries.len(),
{
    if entries.len() > 0 {
        let head = entries.drop_last();
        assert(distinct_keys(head)) by {
            assert forall|i: int, j: int| 0 <= i < j < head.len() implies (
            #[trigger] head[i]).0@ != (#[trigger] head[j]).0@ by {
                assert(head[i] == entries[i] && head[j] == entries[j]);
            }
        }
        lemma_entry_map(head);
        let last = entries[entries.len() - 1];
        assert(!entry_map(head).dom().contains(last.0@)) by {
            if entry_map(head).dom().contains(last.0@) {
                let i = choose|i: int| 0 <= i < head.len() && (#[trigger] head[i]).0@ == last.0@;
                assert(entries[i] == head[i]);
            }
        }
        assert forall|i: int| 0 <= i < entries.len() implies entry_map(entries).dom().contains(
            (#[trigger] entries[i]).0@,
        ) && entry_map(entries)[entries[i].0@] == entries[i].1 by {
            if i < head.len() {
                assert(head[i] == entries[i]);
            }
        }
        assert forall|key: Seq<char>| #[trigger]
            entry_map(entries).dom().contains(key) implies exists|i: int|
            0 <= i < entries.len() && (#[trigger] entries[i]).0@ == key by {
            if key != last.0@ {
                let i = choose|i: int| 0 <= i < head.len() && (#[trigger] head[i]).0@ == key;
                assert(entries[i] == head[i]);
            } else {
                assert(entries[entries.len() - 1].0@ == key);
            }
        }
    }
}

/// A table of values by text key.
pub struct Table<T> {
    pub entries: Vec<(String, T)>,
}

impl<T> View for Table<T> {
    type V = Map<Seq<char>, T>;

    open spec fn view(&self) -> Map<Seq<char>, T> {
        entry_map(self.entries@)
    }
}

impl<T> Table<T> {
    pub open spec fn wf(self) -> bool {
        distinct_keys(self.entries@)
    }

    /// A table holds finitely many keys.
    pub proof fn lemma_finite(self)
        requires
            self.wf(),
        ensures
            self@.dom().finite(),
    {
        lemma_entry_map(self.entries@);
    }

    pub proof fn lemma_len(self)
        requires
            self.wf(),
        ensures
            self@.dom().len() == self.entries@.len(),
    {
        lemma_entry_map(self.entries@);
    }

    pub fn new() -> (r: Self)
        ensures
            r.wf(),
            r@ == Map::<Seq<char>, T>::empty(),
    {
        Table { entries: Vec::new() }
    }

    fn position(&self, key: &str) -> (r: Option<usize>)
        requires
            self.wf(),
        ensures
            r is Some <==> self@.dom().contains(key@),
            r matches Some(i) ==> i < self.entries@.len() && self.entries@[i as int].0@ == key@
                && self@[key@] == self.entries@[i as int].1,
    {
        proof {
            lemma_entry_map(self.entries@);
        }
        let mut i: usize = 0;
        while i < self.entries.len()
            invariant
                i <= self.entries@.len(),
                forall|j: int| 0 <= j < i ==> (#[trigger] self.entries@[j]).0@ != key@,
                forall|j: int|
                    0 <= j < self.entries@.len() ==> self@.dom().contains(
                        (#[trigger] self.entries@[j]).0@,
                    ) && self@[self.entries@[j].0@] == self.entries@[j].1,
            decreases self.entries@.len() - i,
        {
            if same(self.entries[i].0.as_str(), key) {
                return Some(i);
            }
            i = i + 1;
        }
        None
    }

    pub fn contains(&self, key: &str) -> (r: bool)
        requires
            self.wf(),
        ensures
            r == self@.dom().contains(key@),
    {
        self.position(key).is_some()
    }

    pub fn get(&self, key: &str) -> (r: Option<&T>)
        requires
            self.wf(),
        ensures
            r is Some <==> self@.dom().contains(key@),
            r matches Some(value) ==> *value == self@[key@],
    {
        match self.position(key) {
            Some(i) => Some(&self.entries[i].1),
            None => None,
        }
    }

    /// Take out the value at `key`, if there is one.
    pub fn remove(&mut self, key: &str) -> (r: Option<T>)
        requires
            old(self).wf(),
        ensures
            final(self).wf(),
            final(self)@ == old(self)@.remove(key@),
            r is Some <==> old(self)@.dom().contains(key@),
            r matches Some(value) ==> value == old(self)@[key@],
    {
        match self.position(key) {
            Some(i) => {
                let taken = self.entries.remove(i);
                proof {
                    let before = old(self).entries@;
                    let after = self.entries@;
                    assert forall|a: int, b: int| 0 <= a < b < after.len() implies (
                    #[trigger] after[a]).0@ != (#[trigger] after[b]).0@ by {
                        let x = if a < i { a } else { a + 1 };
                        let y = if b < i { b } else { b + 1 };
                        assert(after[a] == before[x] && after[b] == before[y]);
                    }
                    lemma_entry_map(before);
                    lemma_entry_map(after);
                    let smaller = entry_map(before).remove(key@);
                    assert forall|k: Seq<char>| entry_map(after).dom().contains(
                        k,
                    ) == smaller.dom().contains(k) by {
                        if entry_map(after).dom().contains(k) {
                            let a = choose|a: int|
                                0 <= a < after.len() && (#[trigger] after[a]).0@ == k;
                            let x = if a < i { a } else { a + 1 };
                            assert(after[a] == before[x]);
                            assert(before[i as int].0@ == key@);
                        }
                        if smaller.dom().contains(k) {
                            let x = choose|x: int|
                                0 <= x < before.len() && (#[trigger] before[x]).0@ == k;
                            let a = if x < i { x } else { x - 1 };
                            assert(after[a] == before[x]);
                        }
                    }
                    assert forall|k: Seq<char>| #[trigger]
                        entry_map(after).dom().contains(k) implies entry_map(after)[k]
                        == smaller[k] by {
                        let a = choose|a: int|
                            0 <= a < after.len() && (#[trigger] after[a]).0@ == k;
                        let x = if a < i { a } else { a + 1 };
                        assert(after[a] == before[x]);
                    }
                    assert(entry_map(after) =~= smaller);
                }
                Some(taken.1)
            },
            None => {
                assert(self@.remove(key@) =~= self@);
                None
            },
        }
    }

    /// Put `value` at `key`, and hand back the value that was there.
    pub fn insert(&mut self, key: String, value: T) -> (r: Option<T>)
        requires
            old(self).wf(),
        ensures
            final(self).wf(),
            final(self)@ == old(self)@.insert(key@, value),
            r is Some <==> old(self)@.dom().contains(key@),
            r matches Some(displaced) ==> displaced == old(self)@[key@],
    {
        let displaced = self.remove(key.as_str());
        let ghost name = key@;
        let ghost before = self.entries@;
        self.entries.push((key, value));
        proof {
            lemma_entry_map(before);
            let after = self.entries@;
            assert(after.drop_last() =~= before);
            assert forall|a: int, b: int| 0 <= a < b < after.len() implies (
            #[trigger] after[a]).0@ != (#[trigger] after[b]).0@ by {
                assert(after[a] == before[a]);
                if b < before.len() {
                    assert(after[b] == before[b]);
                } else {
                    assert(entry_map(before).dom().contains(before[a].0@));
                    assert(!entry_map(before).dom().contains(name));
                }
            }
            assert(entry_map(after) =~= old(self)@.insert(name, value));
        }
        displaced
    }

    pub fn len(&self) -> (r: usize)
        requires
            self.wf(),
        ensures
            r == self@.dom().len(),
            self@.dom().finite(),
    {
        proof {
            lemma_entry_map(self.entries@);
        }
        self.entries.len()
    }

    /// The number of keys of this table that `other` does not hold.
    pub fn count_beyond<U>(&self, other: &Table<U>) -> (r: usize)
        requires
            self.wf(),
            other.wf(),
        ensures
            r == self@.dom().difference(other@.dom()).len(),
            r <= self.entries@.len(),
    {
        let mut count: usize = 0;
        let mut i: usize = 0;
        let ghost entries = self.entries@;
        assert(entries.take(0) =~= Seq::empty());
        assert(entry_map(entries.take(0)).dom().difference(other@.dom()) =~= Set::empty());
        while i < self.entries.len()
            invariant
                i <= self.entries@.len(),
                entries == self.entries@,
                distinct_keys(entries),
                other.wf(),
                count <= i,
                entry_map(entries.take(i as int)).dom().difference(other@.dom()).finite(),
                count == entry_map(entries.take(i as int)).dom().difference(other@.dom()).len(),
            decreases self.entries@.len() - i,
        {
            let held: bool = other.contains(self.entries[i].0.as_str());
            proof {
                let before = entries.take(i as int);
                let after = entries.take(i as int + 1);
                let key = entries[i as int].0@;
                assert(after.drop_last() =~= before);
                assert(after.last() == entries[i as int]);
                assert(distinct_keys(before)) by {
                    assert forall|a: int, b: int| 0 <= a < b < before.len() implies (
                    #[trigger] before[a]).0@ != (#[trigger] before[b]).0@ by {
                        assert(before[a] == entries[a] && before[b] == entries[b]);
                    }
                }
                lemma_entry_map(before);
                assert(!entry_map(before).dom().contains(key)) by {
                    if entry_map(before).dom().contains(key) {
                        let a = choose|a: int|
                            0 <= a < before.len() && (#[trigger] before[a]).0@ == key;
                        assert(before[a] == entries[a]);
                    }
                }
                let x = entry_map(before).dom().difference(other@.dom());
                let y = entry_map(after).dom().difference(other@.dom());
                if held {
                    assert(y =~= x);
                } else {
                    assert(y =~= x.insert(key));
                }
            }
            if !held {
                count = count + 1;
            }
            i = i + 1;
        }
        assert(entries.take(entries.len() as int) =~= entries);
        count
    }
}

/// A table maps each of its keys to the value that stands beside it, and nothing else.
pub proof fn tables_hold_their_entries<T>(table: Table<T>, i: int, key: Seq<char>)
    requires
        table.wf(),
    ensures
        0 <= i < table.entries@.len() ==> table@.dom().contains(table.entries@[i].0@)
            && table@[table.entries@[i].0@] == table.entries@[i].1,
        table@.dom().contains(key) ==> exists|j: int|
            0 <= j < table.entries@.len() && (#[trigger] table.entries@[j]).0@ == key,
{
    lemma_holds_entry(table.entries@, i);
    lemma_holds_key(table.entries@, key);
}

proof fn lemma_holds_entry<T>(entries: Seq<(String, T)>, i: int)
    requires
        distinct_keys(entries),
    ensures
        0 <= i < entries.len() ==> entry_map(entries).dom().contains(entries[i].0@) && entry_map(
            entries,
        )[entries[i].0@] == entries[i].1,
    decreases entries.len(),
{
    if 0 <= i < entries.len() - 1 {
        let head = entries.drop_last();
        assert forall|j: int, k: int| 0 <= j < k < head.len() implies (#[trigger] head[j]).0@ != (
        #[trigger] head[k]).0@ by {
            assert(entries[j].0@ != entries[k].0@);
        }
        lemma_holds_entry(head, i);
        assert(head[i] == entries[i]);
        assert(entries[i].0@ != entries[entries.len() - 1].0@);
    }
}

proof fn lemma_holds_key<T>(entries: Seq<(String, T)>, key: Seq<char>)
    ensures
        entry_map(entries).dom().contains(key) ==> exists|j: int|
            0 <= j < entries.len() && (#[trigger] entries[j]).0@ == key,
    decreases entries.len(),
{
    if entries.len() > 0 {
        let head = entries.drop_last();
        lemma_holds_key(head, key);
        if entry_map(entries).dom().contains(key) {
            if entries.last().0@ == key {
                assert(entries[entries.len() - 1].0@ == key);
            } else {
                let j = choose|j: int| 0 <= j < head.len() && (#[trigger] head[j]).0@ == key;
                assert(entries[j].0@ == key);
            }
        }
    }
}

} // verus!
