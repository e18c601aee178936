//! A table of values under names, each name standing for one value at most.

use vstd::prelude::*;
use crate::text::same_text;

verus! {

/// Some entry has the name.
pub open spec fn has_name<V>(entries: Seq<(String, V)>, name: Seq<char>) -> bool {
    exists|i: int| 0 <= i < entries.len() && #[trigger] entries[i].0@ == name
}

/// The position of an entry with the name.
pub open spec fn position_of<V>(entries: Seq<(String, V)>, name: Seq<char>) -> int {
    choose|i: int| 0 <= i < entries.len() && #[trigger] entries[i].0@ == name
}

/// No two entries share a name.
pub open spec fn distinct_names<V>(entries: Seq<(String, V)>) -> bool {
    forall|i: int, j: int|
        0 <= i < entries.len() && 0 <= j < entries.len() && i != j ==> #[trigger] entries[i].0@
            != #[trigger] entries[j].0@
}

/// The map that entries with distinct names make up.
pub open spec fn as_map<V>(entries: Seq<(String, V)>) -> Map<Seq<char>, V> {
    Map::new(
        |name: Seq<char>| has_name(entries, name),
        |name: Seq<char>| entries[position_of(entries, name)].1,
    )
}

/// Each entry stands in the map under its name, and nothing else does.
pub proof fn lemma_as_map<V>(entries: Seq<(String, V)>)
    requires
        distinct_names(entries),
    ensures
        forall|i: int|
            0 <= i < entries.len() ==> as_map(entries).contains_key(#[trigger] entries[i].0@)
                && as_map(entries)[entries[i].0@] == entries[i].1,
        forall|name: Seq<char>| #[trigger]
            as_map(entries).contains_key(name) ==> 0 <= position_of(entries, name) < entries.len()
                && entries[position_of(entries, name)].0@ == name,
{
    assert forall|i: int| 0 <= i < entries.len() implies as_map(entries).contains_key(
        #[trigger] entries[i].0@,
    ) && as_map(entries)[entries[i].0@] == entries[i].1 by {
        let name = entries[i].0@;
        assert(has_name(entries, name));
        assert(position_of(entries, name) == i);
    }
}

/// Taking one entry out leaves the map without its name.
proof fn lemma_without<V>(before: Seq<(String, V)>, at: int)
    requires
        distinct_names(before),
        0 <= at < before.len(),
    ensures
        distinct_names(before.remove(at)),
        as_map(before.remove(at)) == as_map(before).remove(before[at].0@),
{
    let after = before.remove(at);
    let name = before[at].0@;
    assert(distinct_names(after)) by {
        assert forall|a: int, b: int|
            0 <= a < after.len() && 0 <= b < after.len() && a != b implies #[trigger] after[a].0@
            != #[trigger] after[b].0@ by {
            let oa = if a < at { a } else { a + 1 };
            let ob = if b < at { b } else { b + 1 };
            assert(after[a] == before[oa]);
            assert(after[b] == before[ob]);
        }
    }
    lemma_as_map(before);
    lemma_as_map(after);
    assert forall|n: Seq<char>| #[trigger]
        as_map(after).contains_key(n) <==> as_map(before).remove(name).contains_key(n) by {
        if has_name(after, n) {
            let p = position_of(after, n);
            let op = if p < at { p } else { p + 1 };
            assert(after[p] == before[op]);
            assert(before[op].0@ == n);
        }
        if has_name(before, n) && n != name {
            let p = position_of(before, n);
            let np = if p < at { p } else { p - 1 };
            assert(after[np] == before[p]);
            assert(after[np].0@ == n);
        }
    }
    assert forall|n: Seq<char>| #[trigger] as_map(after).contains_key(n) implies as_map(after)[n]
        == as_map(before).remove(name)[n] by {
        let p = position_of(after, n);
        let op = if p < at { p } else { p + 1 };
        assert(after[p] == before[op]);
        assert(before[op].0@ == n);
    }
    assert(as_map(after) =~= as_map(before).remove(name));
}

/// Adding an entry under a new name puts it into the map.
proof fn lemma_with<V>(before: Seq<(String, V)>, entry: (String, V))
    requires
        distinct_names(before),
        !has_name(before, entry.0@),
    ensures
        distinct_names(before.push(entry)),
        as_map(before.push(entry)) == as_map(before).insert(entry.0@, entry.1),
{
    let after = before.push(entry);
    let name = entry.0@;
    assert(distinct_names(after)) by {
        assert forall|a: int, b: int|
            0 <= a < after.len() && 0 <= b < after.len() && a != b implies #[trigger] after[a].0@
            != #[trigger] after[b].0@ by {
            if a < before.len() {
                assert(after[a] == before[a]);
            }
            if b < before.len() {
                assert(after[b] == before[b]);
            }
        }
    }
    lemma_as_map(before);
    lemma_as_map(after);
    assert forall|n: Seq<char>| #[trigger]
        as_map(after).contains_key(n) <==> as_map(before).insert(name, entry.1).contains_key(
            n,
        ) by {
        if has_name(after, n) {
            let p = position_of(after, n);
            if p < before.len() {
                assert(after[p] == before[p]);
                assert(before[p].0@ == n);
            }
        }
        if has_name(before, n) {
            let p = position_of(before, n);
            assert(after[p] == before[p]);
            assert(after[p].0@ == n);
        }
        if n == name {
            assert(after[after.len() - 1].0@ == n);
        }
    }
    assert forall|n: Seq<char>| #[trigger] as_map(after).contains_key(n) implies as_map(after)[n]
        == as_map(before).insert(name, entry.1)[n] by {
        let p = position_of(after, n);
        if p < before.len() {
            assert(after[p] == before[p]);
            assert(before[p].0@ == n);
        }
    }
    assert(as_map(after) =~= as_map(before).insert(name, entry.1));
}

/// What a map holds under a name, if anything.
pub open spec fn lookup<V>(map: Map<Seq<char>, V>, name: Seq<char>) -> Option<V> {
    if map.contains_key(name) {
        Some(map[name])
    } else {
        None
    }
}

/// Values under names. The view is the map from each name to its value.
pub struct NameTable<V> {
    entries: Vec<(String, V)>,
}

impl<V> View for NameTable<V> {
    type V = Map<Seq<char>, V>;

    closed spec fn view(&self) -> Map<Seq<char>, V> {
        as_map(self.entries@)
    }
}

impl<V> NameTable<V> {
    #[verifier::type_invariant]
    spec fn well_formed(&self) -> bool {
        distinct_names(self.entries@)
    }

    /// The names and values in the order in which the table holds them.
    pub closed spec fn slots(&self) -> Seq<(String, V)> {
        self.entries@
    }

    /// An empty table.
    pub fn new() -> (r: NameTable<V>)
        ensures
            r@ == Map::<Seq<char>, V>::empty(),
            r.slots().len() == 0,
    {
        let r = NameTable { entries: Vec::new() };
        proof {
            assert(r@ =~= Map::<Seq<char>, V>::empty());
        }
        r
    }

    fn find(&self, name: &str) -> (r: Option<usize>)
        ensures
            match r {
                Some(i) => i < self.entries@.len() && self.entries@[i as int].0@ == name@,
                None => !has_name(self.entries@, name@),
            },
    {
        let mut i: usize = 0;
        while i < self.entries.len()
            invariant
                i <= self.entries@.len(),
                forall|k: int| 0 <= k < i ==> self.entries@[k].0@ != name@,
            decreases self.entries.len() - i,
        {
            if same_text(self.entries[i].0.as_str(), name) {
                return Some(i);
            }
            i = i + 1;
        }
        None
    }

    /// Puts a value under a name, and hands back the value that the name
    /// stood for before, if any.
    pub fn insert(&mut self, name: &str, value: V) -> (r: Option<V>)
        ensures
            final(self)@ == old(self)@.insert(name@, value),
            r == lookup(old(self)@, name@),
    {
        proof {
            use_type_invariant(&*self);
            lemma_as_map(self.entries@);
        }
        let ghost before = self.entries@;
        let at = self.find(name);
        let mut entries: Vec<(String, V)> = Vec::new();
        core::mem::swap(&mut entries, &mut self.entries);
        let entry = (String::from_str(name), value);
        let previous = match at {
            Some(i) => {
                let removed = entries.remove(i);
                proof {
                    lemma_without(before, i as int);
                    lemma_as_map(entries@);
                    assert(!as_map(entries@).contains_key(name@));
                    assert(!has_name(entries@, name@));
                }
                Some(removed.1)
            },
            None => None,
        };
        proof {
            lemma_with(entries@, entry);
            assert(as_map(before).remove(name@).insert(name@, value) =~= as_map(before).insert(
                name@,
                value,
            ));
        }
        entries.push(entry);
        self.entries = entries;
        previous
    }

    /// Takes a name out, and hands back the value that it stood for, if
    /// any. Without the name in the table nothing changes.
    pub fn remove(&mut self, name: &str) -> (r: Option<V>)
        ensures
            final(self)@ == old(self)@.remove(name@),
            r == lookup(old(self)@, name@),
            r is None ==> final(self)@ == old(self)@,
    {
        proof {
            use_type_invariant(&*self);
            lemma_as_map(self.entries@);
        }
        let ghost before = self.entries@;
        match self.find(name) {
            Some(i) => {
                let mut entries: Vec<(String, V)> = Vec::new();
                core::mem::swap(&mut entries, &mut self.entries);
                let removed = entries.remove(i);
                proof {
                    lemma_without(before, i as int);
                }
                self.entries = entries;
                Some(removed.1)
            },
            None => {
                proof {
                    assert(as_map(before) =~= as_map(before).remove(name@));
                }
                None
            },
        }
    }

    /// The value under a name, if any.
    pub fn get(&self, name: &str) -> (r: Option<&V>)
        ensures
            match r {
                Some(value) => lookup(self@, name@) == Some(*value),
                None => lookup(self@, name@) is None,
            },
    {
        proof {
            use_type_invariant(self);
            lemma_as_map(self.entries@);
        }
        match self.find(name) {
            Some(i) => Some(&self.entries[i].1),
            None => None,
        }
    }

    /// How many slots the table has. They hold each name once, and make up
    /// the map.
    pub(crate) fn count(&self) -> (r: usize)
        ensures
            r == self.slots().len(),
            distinct_names(self.slots()),
            self@ == as_map(self.slots()),
    {
        proof {
            use_type_invariant(self);
        }
        self.entries.len()
    }

    /// The name in a slot.
    pub(crate) fn name_at(&self, slot: usize) -> (r: &String)
        requires
            slot < self.slots().len(),
        ensures
            *r == self.slots()[slot as int].0,
    {
        &self.entries[slot].0
    }

    /// The value in a slot.
    pub(crate) fn value_at(&self, slot: usize) -> (r: &V)
        requires
            slot < self.slots().len(),
        ensures
            *r == self.slots()[slot as int].1,
    {
        &self.entries[slot].1
    }
}

} // verus!
