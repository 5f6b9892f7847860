//! A table from names to values in which a later entry of a name replaces an
//! earlier one.

use vstd::prelude::*;

verus! {

/// One entry of a table.
pub struct Entry<V> {
    pub name: String,
    pub value: V,
}

/// The map that the entries stand for, a later entry overriding an earlier
/// one of the same name.
pub open spec fn map_of<V>(entries: Seq<Entry<V>>) -> Map<Seq<char>, V>
    decreases entries.len(),
{
    if entries.len() == 0 {
        Map::empty()
    } else {
        map_of(entries.drop_last()).insert(entries.last().name@, entries.last().value)
    }
}

/// A table from names to values.
pub struct Table<V> {
    entries: Vec<Entry<V>>,
}

impl<V> View for Table<V> {
    type V = Map<Seq<char>, V>;

    closed spec fn view(&self) -> Map<Seq<char>, V> {
        map_of(self.entries@)
    }
}

impl<V: Copy> Table<V> {
    /// A table without entries.
    pub fn new() -> (table: Self)
        ensures
            table@ == Map::<Seq<char>, V>::empty(),
    {
        Table { entries: Vec::new() }
    }

    /// Binds `name` to `value`, in place of what it was bound to.
    pub fn insert(&mut self, name: String, value: V)
        ensures
            final(self)@ == old(self)@.insert(name@, value),
    {
        let entry = Entry { name, value };
        proof {
            assert(self.entries@.push(entry).drop_last() =~= self.entries@);
        }
        self.entries.push(entry);
    }

    /// The value that `name` is bound to, if it is bound.
    pub fn get(&self, name: &String) -> (r: Option<V>)
        ensures
            r is Some <==> self@.dom().contains(name@),
            r is Some ==> self@[name@] == r->0,
    {
        let mut i = self.entries.len();
        assert(self.entries@.take(i as int) =~= self.entries@);
        while i > 0
            invariant
                i <= self.entries@.len(),
                self@.dom().contains(name@) <==> map_of(self.entries@.take(i as int)).dom().contains(
                    name@,
                ),
                self@.dom().contains(name@) ==> self@[name@] == map_of(
                    self.entries@.take(i as int),
                )[name@],
            decreases i,
        {
            i -= 1;
            proof {
                assert(self.entries@.take(i + 1).drop_last() =~= self.entries@.take(i as int));
            }
            if self.entries[i].name == *name {
                return Some(self.entries[i].value);
            }
        }
        None
    }
}

} // verus!
