//! A table from names to values: what a scope, an object's fields and a
//! class's methods are held in.

use crate::text::same_bytes;
use std::rc::Rc;
use vstd::prelude::*;

verus! {

/// One entry of a table.
#[derive(Debug)]
pub struct Entry<V> {
    pub name: Rc<Vec<u8>>,
    pub value: V,
}

/// The mapping that a list of entries stands for: each name maps to the
/// value of the last entry that bears it.
pub open spec fn entries_map<V: View>(entries: Seq<Entry<V>>) -> Map<Seq<u8>, V::V>
    decreases entries.len(),
{
    if entries.len() == 0 {
        Map::empty()
    } else {
        entries_map(entries.drop_last()).insert(entries.last().name@, entries.last().value@)
    }
}

/// The entry at `i` is the last that bears `name`.
pub open spec fn last_named<V>(entries: Seq<Entry<V>>, name: Seq<u8>, i: int) -> bool {
    &&& 0 <= i < entries.len()
    &&& entries[i].name@ == name
    &&& forall|j: int| i < j < entries.len() ==> (#[trigger] entries[j]).name@ != name
}

/// No entry bears `name`.
pub open spec fn unnamed<V>(entries: Seq<Entry<V>>, name: Seq<u8>) -> bool {
    forall|j: int| 0 <= j < entries.len() ==> (#[trigger] entries[j]).name@ != name
}

pub proof fn lemma_last_named<V: View>(entries: Seq<Entry<V>>, name: Seq<u8>, i: int)
    requires
        last_named(entries, name, i),
    ensures
        entries_map(entries).contains_key(name),
        entries_map(entries)[name] == entries[i].value@,
    decreases entries.len(),
{
    if i < entries.len() - 1 {
        let front = entries.drop_last();
        assert(last_named(front, name, i)) by {
            assert forall|j: int| i < j < front.len() implies (#[trigger] front[j]).name@ != name by {
                assert(front[j] == entries[j]);
            }
        }
        lemma_last_named(front, name, i);
        assert(entries.last().name@ != name);
    }
}

pub proof fn lemma_unnamed<V: View>(entries: Seq<Entry<V>>, name: Seq<u8>)
    requires
        unnamed(entries, name),
    ensures
        !entries_map(entries).contains_key(name),
    decreases entries.len(),
{
    if entries.len() > 0 {
        let front = entries.drop_last();
        assert(unnamed(front, name)) by {
            assert forall|j: int| 0 <= j < front.len() implies (#[trigger] front[j]).name@ != name by {
                assert(front[j] == entries[j]);
            }
        }
        lemma_unnamed(front, name);
        assert(entries.last().name@ != name);
    }
}

pub proof fn lemma_replaced<V: View>(entries: Seq<Entry<V>>, name: Seq<u8>, i: int, entry: Entry<V>)
    requires
        last_named(entries, name, i),
        entry.name@ == name,
    ensures
        entries_map(entries.update(i, entry)) == entries_map(entries).insert(name, entry.value@),
    decreases entries.len(),
{
    let after = entries.update(i, entry);
    if i < entries.len() - 1 {
        let front = entries.drop_last();
        assert(last_named(front, name, i)) by {
            assert forall|j: int| i < j < front.len() implies (#[trigger] front[j]).name@ != name by {
                assert(front[j] == entries[j]);
            }
        }
        lemma_replaced(front, name, i, entry);
        assert(after.drop_last() =~= front.update(i, entry));
        assert(after.last() == entries.last());
        assert(entries.last().name@ != name);
        assert(entries_map(after) =~= entries_map(entries).insert(name, entry.value@));
    } else {
        assert(after.drop_last() =~= entries.drop_last());
        assert(entries_map(after) =~= entries_map(entries).insert(name, entry.value@));
    }
}

pub proof fn lemma_pushed<V: View>(entries: Seq<Entry<V>>, entry: Entry<V>)
    ensures
        entries_map(entries.push(entry)) == entries_map(entries).insert(entry.name@, entry.value@),
{
    assert(entries.push(entry).drop_last() =~= entries);
}

/// A table from names to values.
#[derive(Debug)]
pub struct Table<V> {
    pub entries: Vec<Entry<V>>,
}

impl<V: View> View for Table<V> {
    type V = Map<Seq<u8>, V::V>;

    open spec fn view(&self) -> Map<Seq<u8>, V::V> {
        entries_map(self.entries@)
    }
}

impl<V: View> Table<V> {
    pub fn new() -> (r: Self)
        ensures
            r@ == Map::<Seq<u8>, V::V>::empty(),
    {
        Table { entries: Vec::new() }
    }

    /// The place of the last entry that bears `name`.
    fn find(&self, name: &[u8]) -> (r: Option<usize>)
        ensures
            match r {
                Some(i) => last_named(self.entries@, name@, i as int),
                None => unnamed(self.entries@, name@),
            },
    {
        let mut i: usize = self.entries.len();
        while i > 0
            invariant
                i <= self.entries.len(),
                forall|j: int| i <= j < self.entries.len() ==> (#[trigger] self.entries@[j]).name@ != name@,
            decreases i,
        {
            i -= 1;
            if same_bytes(self.entries[i].name.as_slice(), name) {
                return Some(i);
            }
        }
        None
    }

    /// Whether the table holds `name`.
    pub fn contains_key(&self, name: &[u8]) -> (r: bool)
        ensures
            r == self@.contains_key(name@),
    {
        let found = self.find(name);
        proof {
            match found {
                Some(i) => lemma_last_named(self.entries@, name@, i as int),
                None => lemma_unnamed(self.entries@, name@),
            }
        }
        found.is_some()
    }

    /// The value that `name` maps to, if the table holds it.
    pub fn get(&self, name: &[u8]) -> (r: Option<&V>)
        ensures
            match r {
                Some(v) => self@.contains_key(name@) && self@[name@] == v@,
                None => !self@.contains_key(name@),
            },
    {
        let found = self.find(name);
        proof {
            match found {
                Some(i) => lemma_last_named(self.entries@, name@, i as int),
                None => lemma_unnamed(self.entries@, name@),
            }
        }
        match found {
            Some(i) => Some(&self.entries[i].value),
            None => None,
        }
    }

    /// Maps `name` to `value`, whether or not the table held the name.
    pub fn insert(&mut self, name: Rc<Vec<u8>>, value: V)
        ensures
            final(self)@ == old(self)@.insert(name@, value@),
    {
        let found = self.find(name.as_slice());
        let entry = Entry { name, value };
        match found {
            Some(i) => {
                proof {
                    lemma_replaced(self.entries@, name@, i as int, entry);
                }
                self.entries.set(i, entry);
            },
            None => {
                proof {
                    lemma_pushed(self.entries@, entry);
                }
                self.entries.push(entry);
            },
        }
    }
}

} // verus!
