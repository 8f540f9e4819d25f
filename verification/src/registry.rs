//! Entries found by name, at most one of each name.

use vstd::prelude::*;

verus! {

/// A finite map from names to entries.
pub struct Registry<D> {
    entries: Vec<(String, D)>,
}

/// No two entries of `entries` have the same name.
spec fn names_differ<D>(entries: Seq<(String, D)>) -> bool {
    forall|i: int, j: int|
        0 <= i < j < entries.len() ==> (#[trigger] entries[i]).0@ != (#[trigger] entries[j]).0@
}

/// Some entry of `entries` has the name `name`.
spec fn has_name<D>(entries: Seq<(String, D)>, name: Seq<char>) -> bool {
    exists|i: int| 0 <= i < entries.len() && (#[trigger] entries[i]).0@ == name
}

/// Where in `entries` the name `name` stands.
spec fn place<D>(entries: Seq<(String, D)>, name: Seq<char>) -> int {
    choose|i: int| 0 <= i < entries.len() && (#[trigger] entries[i]).0@ == name
}

/// The map that `entries` stands for.
spec fn as_map<D>(entries: Seq<(String, D)>) -> Map<Seq<char>, D> {
    Map::new(|name: Seq<char>| has_name(entries, name), |name: Seq<char>| entries[place(entries, name)].1)
}

impl<D> View for Registry<D> {
    type V = Map<Seq<char>, D>;

    closed spec fn view(&self) -> Map<Seq<char>, D> {
        as_map(self.entries@)
    }
}

/// `values` holds the value of each name of `map` once, in some order.
pub open spec fn lists<D>(values: Seq<D>, map: Map<Seq<char>, D>) -> bool {
    exists|names: Seq<Seq<char>>| #[trigger] listed_as(names, values, map)
}

/// `names` holds each name of `map` once, and `values` their values in the same order.
pub open spec fn listed_as<D>(names: Seq<Seq<char>>, values: Seq<D>, map: Map<Seq<char>, D>) -> bool {
    &&& names.no_duplicates()
    &&& names.to_set() == map.dom()
    &&& values.len() == names.len()
    &&& forall|i: int| 0 <= i < names.len() ==> #[trigger] values[i] == map[names[i]]
}

/// A list of the values of a map holds each of them exactly once, and nothing else, where
/// `name_of` says of each value by which name it stands in the map.
pub proof fn lemma_listed_once<D>(
    values: Seq<D>,
    map: Map<Seq<char>, D>,
    name_of: spec_fn(D) -> Seq<char>,
)
    requires
        lists(values, map),
        forall|name: Seq<char>| #[trigger] map.contains_key(name) ==> name_of(map[name]) == name,
    ensures
        values.len() == map.dom().len(),
        forall|name: Seq<char>| #[trigger] map.contains_key(name) ==> values.contains(map[name]),
        forall|i: int|
            0 <= i < values.len() ==> map.contains_key(name_of(#[trigger] values[i]))
                && map[name_of(values[i])] == values[i],
        forall|i: int, j: int|
            0 <= i < j < values.len() ==> name_of(#[trigger] values[i]) != name_of(
                #[trigger] values[j],
            ),
{
    let names = choose|names: Seq<Seq<char>>| #[trigger] listed_as(names, values, map);
    names.unique_seq_to_set();
    assert forall|i: int| 0 <= i < values.len() implies map.contains_key(
        name_of(#[trigger] values[i]),
    ) && map[name_of(values[i])] == values[i] && name_of(values[i]) == names[i] by {
        assert(names.to_set().contains(names[i]));
        assert(map.contains_key(names[i]));
    }
    assert forall|name: Seq<char>| #[trigger] map.contains_key(name) implies values.contains(
        map[name],
    ) by {
        assert(names.to_set().contains(name));
        let i = choose|i: int| 0 <= i < names.len() && names[i] == name;
        assert(values[i] == map[name]);
    }
}

proof fn lemma_place<D>(entries: Seq<(String, D)>, i: int)
    requires
        names_differ(entries),
        0 <= i < entries.len(),
    ensures
        as_map(entries).contains_key(entries[i].0@),
        as_map(entries)[entries[i].0@] == entries[i].1,
{
    let name = entries[i].0@;
    assert(has_name(entries, name));
    let j = place(entries, name);
    assert(entries[j].0@ == name);
}

impl<D> Registry<D> {
    /// No name occurs twice.
    pub closed spec fn wf(&self) -> bool {
        names_differ(self.entries@)
    }

    /// A registry without entries.
    pub fn new() -> (registry: Self)
        ensures
            registry.wf(),
            registry@ == Map::<Seq<char>, D>::empty(),
    {
        let registry = Registry { entries: Vec::new() };
        assert(registry@ =~= Map::<Seq<char>, D>::empty());
        registry
    }

    /// Where the name stands, if it is there.
    fn position(&self, name: &String) -> (found: Option<usize>)
        requires
            self.wf(),
        ensures
            match found {
                Some(i) => i < self.entries@.len() && self.entries@[i as int].0@ == name@
                    && self@.contains_key(name@) && self@[name@] == self.entries@[i as int].1,
                None => !self@.contains_key(name@),
            },
    {
        let mut i: usize = 0;
        while i < self.entries.len()
            invariant
                self.wf(),
                i <= self.entries@.len(),
                forall|j: int| 0 <= j < i ==> (#[trigger] self.entries@[j]).0@ != name@,
            decreases self.entries@.len() - i,
        {
            if self.entries[i].0 == *name {
                proof {
                    lemma_place(self.entries@, i as int);
                }
                return Some(i);
            }
            i = i + 1;
        }
        None
    }

    /// Takes every entry out.
    pub fn clear(&mut self)
        ensures
            final(self).wf(),
            final(self)@ == Map::<Seq<char>, D>::empty(),
    {
        self.entries.clear();
        assert(self@ =~= Map::<Seq<char>, D>::empty());
    }

    /// Puts an entry in, in place of the one of the same name if there is one.
    pub fn insert(&mut self, name: String, value: D)
        requires
            old(self).wf(),
        ensures
            final(self).wf(),
            final(self)@ == old(self)@.insert(name@, value),
    {
        let ghost key = name@;
        match self.position(&name) {
            Some(i) => {
                self.entries.set(i, (name, value));
                proof {
                    lemma_replaced(old(self).entries@, i as int, self.entries@);
                }
            },
            None => {
                self.entries.push((name, value));
                proof {
                    lemma_pushed(old(self).entries@, self.entries@);
                }
            },
        }
        assert(self@ =~= old(self)@.insert(key, value));
    }

    /// The entry of this name, to be changed in place.
    pub fn get_mut(&mut self, name: &String) -> (found: Option<&mut D>)
        requires
            old(self).wf(),
        ensures
            final(self).wf(),
            match found {
                Some(value) => old(self)@.contains_key(name@) && *value == old(self)@[name@]
                    && final(self)@ == old(self)@.insert(name@, *final(value)),
                None => !old(self)@.contains_key(name@) && final(self)@ == old(self)@,
            },
    {
        match self.position(name) {
            Some(i) => {
                proof {
                    lemma_replaced_by(self.entries@, i as int);
                }
                Some(&mut self.entries[i].1)
            },
            None => None,
        }
    }

    /// The names, in the order in which the entries are kept.
    pub closed spec fn names(&self) -> Seq<Seq<char>> {
        Seq::new(self.entries@.len(), |i: int| self.entries@[i].0@)
    }

    /// The number of entries.
    pub fn len(&self) -> (n: usize)
        requires
            self.wf(),
        ensures
            n == self.names().len(),
            n == self@.dom().len(),
    {
        proof {
            self.lemma_names();
            self.names().unique_seq_to_set();
        }
        self.entries.len()
    }

    /// The value that is kept in this place.
    pub fn value(&self, i: usize) -> (value: &D)
        requires
            self.wf(),
            i < self.names().len(),
        ensures
            *value == self@[self.names()[i as int]],
    {
        proof {
            lemma_place(self.entries@, i as int);
        }
        &self.entries[i].1
    }

    /// The entries are kept under each name once.
    pub proof fn lemma_names(&self)
        requires
            self.wf(),
        ensures
            self.names().no_duplicates(),
            self.names().to_set() == self@.dom(),
    {
        let names = self.names();
        assert forall|name: Seq<char>| names.to_set().contains(name) == self@.dom().contains(name) by {
            if has_name(self.entries@, name) {
                let i = place(self.entries@, name);
                assert(names[i] == name);
            }
            if names.contains(name) {
                let i = choose|i: int| 0 <= i < names.len() && names[i] == name;
                assert(self.entries@[i].0@ == name);
            }
        }
        assert forall|i: int, j: int|
            0 <= i < names.len() && 0 <= j < names.len() && i != j implies names[i] != names[j] by {
            if i < j {
                assert(self.entries@[i].0@ != self.entries@[j].0@);
            } else {
                assert(self.entries@[j].0@ != self.entries@[i].0@);
            }
        }
        assert(names.to_set() =~= self@.dom());
    }
}

/// Changing the value of an entry changes that of its name in the map.
proof fn lemma_replaced_by<D>(before: Seq<(String, D)>, i: int)
    requires
        names_differ(before),
        0 <= i < before.len(),
    ensures
        forall|value: D|
            {
                let after = #[trigger] before.update(i, (before[i].0, value));
                &&& names_differ(after)
                &&& as_map(after) == as_map(before).insert(before[i].0@, value)
            },
{
    assert forall|value: D| {
        let after = #[trigger] before.update(i, (before[i].0, value));
        &&& names_differ(after)
        &&& as_map(after) == as_map(before).insert(before[i].0@, value)
    } by {
        lemma_replaced(before, i, before.update(i, (before[i].0, value)));
    }
}

proof fn lemma_replaced<D>(before: Seq<(String, D)>, i: int, after: Seq<(String, D)>)
    requires
        names_differ(before),
        0 <= i < before.len(),
        after.len() == before.len(),
        forall|j: int| 0 <= j < before.len() && j != i ==> #[trigger] after[j] == before[j],
        after[i].0@ == before[i].0@,
    ensures
        names_differ(after),
        as_map(after) == as_map(before).insert(after[i].0@, after[i].1),
{
    let target = as_map(before).insert(after[i].0@, after[i].1);
    assert forall|a: int, b: int| 0 <= a < b < after.len() implies (#[trigger] after[a]).0@ != (
    #[trigger] after[b]).0@ by {
        assert(before[a].0@ != before[b].0@);
    }
    assert forall|name: Seq<char>| as_map(after).contains_key(name) == target.contains_key(name) by {
        if has_name(after, name) {
            let j = place(after, name);
            assert(before[j].0@ == name);
        }
        if has_name(before, name) {
            let j = place(before, name);
            assert(after[j].0@ == name);
        }
        assert(has_name(after, after[i].0@));
    }
    assert forall|name: Seq<char>| as_map(after).contains_key(name) implies as_map(after)[name]
        == target[name] by {
        let j = place(after, name);
        lemma_place(after, j);
        lemma_place(before, j);
        assert(before[j].0@ == name);
    }
    assert(as_map(after) =~= target);
}

proof fn lemma_pushed<D>(before: Seq<(String, D)>, after: Seq<(String, D)>)
    requires
        names_differ(before),
        after.len() == before.len() + 1,
        forall|j: int| 0 <= j < before.len() ==> #[trigger] after[j] == before[j],
        !has_name(before, after.last().0@),
    ensures
        names_differ(after),
        as_map(after) == as_map(before).insert(after.last().0@, after.last().1),
{
    let target = as_map(before).insert(after.last().0@, after.last().1);
    let n = before.len() as int;
    assert forall|a: int, b: int| 0 <= a < b < after.len() implies (#[trigger] after[a]).0@ != (
    #[trigger] after[b]).0@ by {
        assert(before[a].0@ == after[a].0@);
        if b < n {
            assert(before[a].0@ != before[b].0@);
        }
    }
    assert forall|name: Seq<char>| as_map(after).contains_key(name) == target.contains_key(name) by {
        if has_name(after, name) {
            let j = place(after, name);
            if j < n {
                assert(before[j].0@ == name);
            }
        }
        if has_name(before, name) {
            let j = place(before, name);
            assert(after[j].0@ == name);
        }
        assert(has_name(after, after[n].0@));
    }
    assert forall|name: Seq<char>| as_map(after).contains_key(name) implies as_map(after)[name]
        == target[name] by {
        let j = place(after, name);
        if j < n {
            lemma_place(before, j);
            assert(before[j].0@ == name);
        }
    }
    assert(as_map(after) =~= target);
}

} // verus!
