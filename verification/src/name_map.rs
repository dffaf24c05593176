//! A map from names to values, kept as the list of its insertions.

use vstd::prelude::*;

verus! {

/// A map keyed by strings. A later insertion of a name replaces what an
/// earlier one gave it.
pub struct NameMap<V> {
    entries: Vec<(String, V)>,
}

/// The position of the last of the first `j` insertions that gave `name` a
/// value; -1 if none did.
pub closed spec fn last_index<V>(entries: Seq<(String, V)>, name: Seq<char>, j: int) -> int
    decreases j,
{
    if j <= 0 {
        -1
    } else if entries[j - 1].0@ == name {
        j - 1
    } else {
        last_index(entries, name, j - 1)
    }
}

proof fn lemma_last_index_bounds<V>(entries: Seq<(String, V)>, name: Seq<char>, j: int)
    ensures
        -1 <= last_index(entries, name, j) < j || (j < 0 && last_index(entries, name, j) == -1),
    decreases j,
{
    if j > 0 && entries[j - 1].0@ != name {
        lemma_last_index_bounds(entries, name, j - 1);
    }
}

proof fn lemma_last_index_push<V>(entries: Seq<(String, V)>, entry: (String, V), name: Seq<char>, j: int)
    requires
        j <= entries.len(),
    ensures
        last_index(entries.push(entry), name, j) == last_index(entries, name, j),
    decreases j,
{
    if j > 0 {
        assert(entries.push(entry)[j - 1] == entries[j - 1]);
        if entries[j - 1].0@ != name {
            lemma_last_index_push(entries, entry, name, j - 1);
        }
    }
}

impl<V> View for NameMap<V> {
    type V = Map<Seq<char>, V>;

    closed spec fn view(&self) -> Map<Seq<char>, V> {
        Map::new(
            |name: Seq<char>| last_index(self.entries@, name, self.entries@.len() as int) >= 0,
            |name: Seq<char>| self.entries@[last_index(self.entries@, name, self.entries@.len() as int)].1,
        )
    }
}

impl<V> NameMap<V> {
    /// The empty map.
    pub fn new() -> (r: Self)
        ensures
            r@ == Map::<Seq<char>, V>::empty(),
    {
        let r = NameMap { entries: Vec::new() };
        assert(r@ =~= Map::<Seq<char>, V>::empty());
        r
    }

    /// Gives `name` the value `value`.
    pub fn insert(&mut self, name: String, value: V)
        ensures
            final(self)@ == old(self)@.insert(name@, value),
    {
        let ghost before = self.entries@;
        self.entries.push((name, value));
        proof {
            let after = self.entries@;
            let n = before.len() as int;
            assert forall|other: Seq<char>| other != name@ implies last_index(after, other, n + 1) == last_index(
                before,
                other,
                n,
            ) by {
                lemma_last_index_push(before, (name, value), other, n);
            }
            assert forall|other: Seq<char>| last_index(before, other, n) >= 0 implies #[trigger] before[last_index(
                before,
                other,
                n,
            )] == after[last_index(before, other, n)] by {
                lemma_last_index_bounds(before, other, n);
            }
            assert(self@ =~= old(self)@.insert(name@, value));
        }
    }

    /// The value of `name`, if it has one.
    pub fn get(&self, name: &str) -> (r: Option<&V>)
        ensures
            match r {
                Some(v) => self@.contains_key(name@) && self@[name@] == *v,
                None => !self@.contains_key(name@),
            },
    {
        let key = name.to_owned();
        let mut j: usize = self.entries.len();
        while j > 0
            invariant
                j <= self.entries@.len(),
                key@ == name@,
                last_index(self.entries@, name@, j as int) == last_index(
                    self.entries@,
                    name@,
                    self.entries@.len() as int,
                ),
            decreases j,
        {
            j -= 1;
            if self.entries[j].0 == key {
                return Some(&self.entries[j].1);
            }
        }
        None
    }
}

/// The texts of a map of strings.
pub open spec fn texts(m: Map<Seq<char>, String>) -> Map<Seq<char>, Seq<char>> {
    m.map_values(|v: String| v@)
}

} // verus!
