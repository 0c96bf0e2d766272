//! A small map from names to values, kept in the order of first insertion.
use vstd::prelude::*;
use crate::text::str_eq;

verus! {

/// A map keyed by text. It holds one entry per name that was inserted and not
/// removed since; its view is the mathematical map from names to values.
#[derive(Clone, Debug)]
pub struct NameMap<V> {
    pub entries: Vec<(String, V)>,
}

/// The map that a list of entries stands for: a later entry overrides an
/// earlier one of the same name.
pub open spec fn bindings<V>(entries: Seq<(String, V)>) -> Map<Seq<char>, V>
    decreases entries.len(),
{
    if entries.len() == 0 {
        Map::empty()
    } else {
        bindings(entries.drop_last()).insert(entries.last().0@, entries.last().1)
    }
}

/// No entry at or after `from` carries the name `key`.
pub open spec fn absent_from<V>(entries: Seq<(String, V)>, key: Seq<char>, from: int) -> bool {
    forall|j: int| from <= j < entries.len() ==> (#[trigger] entries[j]).0@ != key
}

/// What the entries below `upto` bind decides a name that no later entry carries.
pub proof fn lemma_bindings_prefix<V>(entries: Seq<(String, V)>, key: Seq<char>, upto: int)
    requires
        0 <= upto <= entries.len(),
        absent_from(entries, key, upto),
    ensures
        bindings(entries).contains_key(key) == bindings(entries.take(upto)).contains_key(key),
        bindings(entries).contains_key(key) ==> bindings(entries)[key] == bindings(
            entries.take(upto),
        )[key],
    decreases entries.len() - upto,
{
    if upto == entries.len() {
        assert(entries.take(upto) =~= entries);
    } else {
        let shorter = entries.drop_last();
        assert(entries.last() == entries[entries.len() - 1]);
        assert(shorter.take(upto) =~= entries.take(upto));
        assert(absent_from(shorter, key, upto)) by {
            assert forall|j: int| upto <= j < shorter.len() implies (#[trigger] shorter[j]).0@
                != key by {
                assert(shorter[j] == entries[j]);
            }
        }
        lemma_bindings_prefix(shorter, key, upto);
    }
}

/// Replacing the last entry of a name changes only what that name is bound to.
pub proof fn lemma_bindings_update<V>(entries: Seq<(String, V)>, at: int, name: String, value: V)
    requires
        0 <= at < entries.len(),
        entries[at].0@ == name@,
        absent_from(entries, name@, at + 1),
    ensures
        bindings(entries.update(at, (name, value))) == bindings(entries).insert(name@, value),
    decreases entries.len() - at,
{
    let updated = entries.update(at, (name, value));
    if at == entries.len() - 1 {
        assert(updated.drop_last() =~= entries.drop_last());
        assert(bindings(updated) =~= bindings(entries).insert(name@, value));
    } else {
        let shorter = entries.drop_last();
        assert(updated.drop_last() =~= shorter.update(at, (name, value)));
        assert(absent_from(shorter, name@, at + 1)) by {
            assert forall|j: int| at + 1 <= j < shorter.len() implies (#[trigger] shorter[j]).0@
                != name@ by {
                assert(shorter[j] == entries[j]);
            }
        }
        lemma_bindings_update(shorter, at, name, value);
        assert(entries.last() == entries[entries.len() - 1]);
        assert(updated.last() == entries.last());
        assert(bindings(updated) =~= bindings(entries).insert(name@, value));
    }
}

/// The entries of every name but `key`.
pub open spec fn other_than<V>(key: Seq<char>) -> spec_fn((String, V)) -> bool {
    |e: (String, V)| e.0@ != key
}

/// Dropping every entry of a name removes the name and nothing else.
pub proof fn lemma_bindings_without<V>(entries: Seq<(String, V)>, key: Seq<char>)
    ensures
        bindings(entries.filter(other_than(key))) == bindings(entries).remove(key),
    decreases entries.len(),
{
    let keep = other_than::<V>(key);
    reveal(Seq::filter);
    if entries.len() == 0 {
        assert(bindings(entries.filter(keep)) =~= bindings(entries).remove(key));
    } else {
        let shorter = entries.drop_last();
        lemma_bindings_without(shorter, key);
        if keep(entries.last()) {
            assert(entries.filter(keep) == shorter.filter(keep).push(entries.last()));
            assert(entries.filter(keep).drop_last() =~= shorter.filter(keep));
        } else {
            assert(entries.filter(keep) == shorter.filter(keep));
        }
        assert(bindings(entries.filter(keep)) =~= bindings(entries).remove(key));
    }
}

/// The name of every entry is bound.
pub proof fn lemma_entered_is_bound<V>(entries: Seq<(String, V)>, at: int)
    requires
        0 <= at < entries.len(),
    ensures
        bindings(entries).contains_key(entries[at].0@),
    decreases entries.len(),
{
    if at < entries.len() - 1 {
        lemma_entered_is_bound(entries.drop_last(), at);
        assert(entries.drop_last()[at] == entries[at]);
    }
}

/// Every name that the entries bind is the name of an entry.
pub proof fn lemma_bound_is_entered<V>(entries: Seq<(String, V)>, key: Seq<char>)
    requires
        bindings(entries).contains_key(key),
    ensures
        exists|i: int| 0 <= i < entries.len() && (#[trigger] entries[i]).0@ == key,
    decreases entries.len(),
{
    if entries.len() > 0 {
        if entries.last().0@ == key {
            assert(entries[entries.len() - 1].0@ == key);
        } else {
            lemma_bound_is_entered(entries.drop_last(), key);
            let i = choose|i: int|
                0 <= i < entries.drop_last().len() && (#[trigger] entries.drop_last()[i]).0@ == key;
            assert(entries[i] == entries.drop_last()[i]);
        }
    }
}

impl<V> View for NameMap<V> {
    type V = Map<Seq<char>, V>;

    open spec fn view(&self) -> Map<Seq<char>, V> {
        bindings(self.entries@)
    }
}

impl<V> NameMap<V> {
    /// The empty map.
    pub fn new() -> (r: Self)
        ensures
            r@ == Map::<Seq<char>, V>::empty(),
    {
        NameMap { entries: Vec::new() }
    }

    /// The position of the entry that binds `key`, if the name is bound.
    fn find(&self, key: &str) -> (r: Option<usize>)
        ensures
            match r {
                Some(i) => i < self.entries.len() && self.entries[i as int].0@ == key@
                    && absent_from(self.entries@, key@, i + 1),
                None => absent_from(self.entries@, key@, 0),
            },
    {
        let mut i: usize = self.entries.len();
        while i > 0
            invariant
                i <= self.entries.len(),
                absent_from(self.entries@, key@, i as int),
            decreases i,
        {
            i -= 1;
            if str_eq(self.entries[i].0.as_str(), key) {
                return Some(i);
            }
        }
        None
    }

    /// The value bound to `key`.
    pub fn get(&self, key: &str) -> (r: Option<&V>)
        ensures
            match r {
                Some(v) => self@.contains_key(key@) && *v == self@[key@],
                None => !self@.contains_key(key@),
            },
    {
        match self.find(key) {
            Some(i) => {
                proof {
                    lemma_bindings_prefix(self.entries@, key@, i + 1);
                    assert(self.entries@.take(i + 1).drop_last() =~= self.entries@.take(i as int));
                }
                Some(&self.entries[i].1)
            },
            None => {
                proof {
                    lemma_bindings_prefix(self.entries@, key@, 0);
                    assert(self.entries@.take(0).len() == 0);
                }
                None
            },
        }
    }

    /// Whether `key` is bound.
    pub fn contains_key(&self, key: &str) -> (r: bool)
        ensures
            r == self@.contains_key(key@),
    {
        self.get(key).is_some()
    }

    /// Binds `key` to `value`, in place of what it was bound to before.
    pub fn insert(&mut self, key: String, value: V)
        ensures
            final(self)@ == old(self)@.insert(key@, value),
    {
        match self.find(key.as_str()) {
            Some(i) => {
                proof {
                    lemma_bindings_update(self.entries@, i as int, key, value);
                }
                self.entries[i] = (key, value);
            },
            None => {
                let ghost before = self.entries@;
                self.entries.push((key, value));
                assert(self.entries@.drop_last() =~= before);
            },
        }
    }

    /// Unbinds `key`.
    pub fn remove(&mut self, key: &str)
        ensures
            final(self)@ == old(self)@.remove(key@),
    {
        let ghost keep = other_than::<V>(key@);
        let ghost all = self.entries@;
        let mut i: usize = self.entries.len();
        proof {
            reveal(Seq::filter);
            assert(all.subrange(i as int, all.len() as int).len() == 0);
            assert(self.entries@ =~= all.take(i as int) + all.subrange(
                i as int,
                all.len() as int,
            ).filter(keep));
        }
        while i > 0
            invariant
                i <= all.len(),
                keep == other_than::<V>(key@),
                self.entries@ == all.take(i as int) + all.subrange(i as int, all.len() as int).filter(
                    keep,
                ),
            decreases i,
        {
            i -= 1;
            let ghost rest = all.subrange(i + 1, all.len() as int);
            proof {
                reveal(Seq::filter);
                assert(all.subrange(i as int, all.len() as int) =~= seq![all[i as int]] + rest);
                Seq::filter_distributes_over_add(seq![all[i as int]], rest, keep);
                assert(seq![all[i as int]].drop_last().len() == 0);
                assert(seq![all[i as int]].drop_last().filter(keep).len() == 0);
                assert(seq![all[i as int]].last() == all[i as int]);
                assert(seq![all[i as int]].filter(keep) =~= if keep(all[i as int]) {
                    seq![all[i as int]]
                } else {
                    Seq::empty()
                });
                assert(self.entries@[i as int] == all[i as int]);
            }
            if str_eq(self.entries[i].0.as_str(), key) {
                self.entries.remove(i);
            }
            assert(self.entries@ =~= all.take(i as int) + all.subrange(
                i as int,
                all.len() as int,
            ).filter(keep));
        }
        proof {
            assert(all.subrange(0, all.len() as int) =~= all);
            assert(self.entries@ =~= all.filter(keep));
            lemma_bindings_without(all, key@);
        }
    }

    /// The number of entries.
    pub fn len(&self) -> (r: usize)
        ensures
            r == self.entries.len(),
    {
        self.entries.len()
    }
}

} // verus!
