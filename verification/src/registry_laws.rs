//! What each call of a registry does, entry by entry.

use crate::registry::Registry;
use vstd::prelude::*;

verus! {

/// A new registry has no entry.
pub proof fn lemma_new_registry<D>(registry: Registry<D>)
    requires
        call_ensures(Registry::<D>::new, (), registry),
    ensures
        forall|name: Seq<char>| !#[trigger] registry@.contains_key(name),
{
}

/// Once every entry has been taken out there is none.
pub proof fn lemma_cleared_registry<D>(registry: &mut Registry<D>)
    requires
        call_ensures(Registry::<D>::clear, (registry,), ()),
    ensures
        forall|name: Seq<char>| !#[trigger] final(registry)@.contains_key(name),
{
}

/// An entry that was put in is there under its name, whatever was there before, and every
/// other entry is as it was.
pub proof fn lemma_inserted_entry<D>(registry: &mut Registry<D>, name: String, value: D)
    requires
        call_ensures(Registry::<D>::insert, (registry, name, value), ()),
    ensures
        final(registry)@.contains_key(name@),
        final(registry)@[name@] == value,
        forall|other: Seq<char>|
            other != name@ ==> (#[trigger] final(registry)@.contains_key(other)
                == old(registry)@.contains_key(other)) && (old(registry)@.contains_key(other)
                ==> final(registry)@[other] == old(registry)@[other]),
{
}

/// An entry is found by its name exactly where there is one, as it was last put in. What it
/// is changed to stands in its place afterwards, and every other entry is as it was.
pub proof fn lemma_found_entry<D>(registry: &mut Registry<D>, name: String, found: Option<&mut D>)
    requires
        call_ensures(Registry::<D>::get_mut, (registry, &name), found),
    ensures
        found is Some <==> old(registry)@.contains_key(name@),
        found matches Some(value) ==> *value == old(registry)@[name@]
            && final(registry)@.contains_key(name@) && final(registry)@[name@] == *final(value),
        found is None ==> final(registry)@ == old(registry)@,
        forall|other: Seq<char>|
            other != name@ ==> (#[trigger] final(registry)@.contains_key(other)
                == old(registry)@.contains_key(other)) && (old(registry)@.contains_key(other)
                ==> final(registry)@[other] == old(registry)@[other]),
{
}

/// There are as many places as names, and the place of each holds the value of its name.
pub proof fn lemma_entries_in_their_places<D>(
    registry: Registry<D>,
    n: usize,
    i: usize,
    value: &D,
)
    requires
        registry.wf(),
        call_ensures(Registry::<D>::len, (&registry,), n),
        i < n,
        call_ensures(Registry::<D>::value, (&registry, i), value),
    ensures
        n == registry@.dom().len(),
        registry@.contains_key(registry.names()[i as int]),
        *value == registry@[registry.names()[i as int]],
        forall|a: int, b: int|
            0 <= a < b < n ==> #[trigger] registry.names()[a] != #[trigger] registry.names()[b],
{
    registry.lemma_names();
    assert(registry.names().to_set().contains(registry.names()[i as int]));
}

} // verus!
