//! What holds of a table that messages change, and of those who are told of it, whatever the
//! entries and the messages are.

use crate::registry::lists;
use vstd::prelude::*;

verus! {

/// The messages about one name, in their order.
pub open spec fn about<M>(messages: Seq<M>, subject: spec_fn(M) -> Seq<char>, name: Seq<char>) -> Seq<
    M,
> {
    messages.filter(|m: M| subject(m) == name)
}

/// A message changes the entry of the name that it is about, by what that entry was before,
/// and no other entry.
pub open spec fn keeps_to_its_subject<D, M>(
    step: spec_fn(Map<Seq<char>, D>, M) -> Map<Seq<char>, D>,
    subject: spec_fn(M) -> Seq<char>,
) -> bool {
    &&& forall|table: Map<Seq<char>, D>, m: M, name: Seq<char>|
        name != subject(m) ==> #[trigger] step(table, m).get(name) == table.get(name)
    &&& forall|a: Map<Seq<char>, D>, b: Map<Seq<char>, D>, m: M|
        a.get(subject(m)) == b.get(subject(m)) ==> (#[trigger] step(a, m)).get(subject(m))
            == (#[trigger] step(b, m)).get(subject(m))
}

/// `after` is what a listener was told, `before` and then once more: all of `table`.
pub open spec fn told_of<D>(
    before: Seq<(Seq<D>, bool)>,
    after: Seq<(Seq<D>, bool)>,
    table: Map<Seq<char>, D>,
) -> bool {
    &&& after.len() == before.len() + 1
    &&& before.is_prefix_of(after)
    &&& lists(after.last().0, table)
}

/// It makes no difference how messages are split into two batches.
pub proof fn lemma_batches_join<S, M>(
    step: spec_fn(S, M) -> S,
    state: S,
    first: Seq<M>,
    second: Seq<M>,
)
    ensures
        (first + second).fold_left(state, step) == second.fold_left(
            first.fold_left(state, step),
            step,
        ),
{
    let all = first + second;
    all.lemma_fold_left_split(state, step, first.len() as int);
    assert(all.subrange(0, first.len() as int) =~= first);
    assert(all.subrange(first.len() as int, all.len() as int) =~= second);
}

/// Batches that are taken in one after the other leave what their messages leave.
pub proof fn lemma_all_batches_join<S, M>(
    step: spec_fn(S, M) -> S,
    states: Seq<S>,
    batches: Seq<Seq<M>>,
)
    requires
        states.len() == batches.len() + 1,
        forall|k: int|
            0 <= k < batches.len() ==> states[k + 1] == (#[trigger] batches[k]).fold_left(
                states[k],
                step,
            ),
    ensures
        states.last() == batches.flatten_alt().fold_left(states[0], step),
    decreases batches.len(),
{
    if batches.len() > 0 {
        let before = batches.drop_last();
        assert forall|k: int| 0 <= k < before.len() implies states.drop_last()[k + 1] == (
        #[trigger] before[k]).fold_left(states.drop_last()[k], step) by {
            assert(batches[k] == before[k]);
        }
        lemma_all_batches_join(step, states.drop_last(), before);
        lemma_batches_join(step, states[0], before.flatten_alt(), batches.last());
        assert(batches[batches.len() - 1] == batches.last());
    }
}

/// Messages are taken in one after the other, the first of them first: `states` begins with
/// the state before them, and each of its members is what one message leaves of the one
/// before.
pub proof fn lemma_messages_in_their_order<S, M>(
    step: spec_fn(S, M) -> S,
    states: Seq<S>,
    messages: Seq<M>,
)
    requires
        states.len() == messages.len() + 1,
        forall|i: int|
            0 <= i < messages.len() ==> states[i + 1] == step(states[i], #[trigger] messages[i]),
    ensures
        messages.fold_left(states[0], step) == states.last(),
    decreases messages.len(),
{
    if messages.len() > 0 {
        let before = messages.drop_last();
        assert forall|i: int| 0 <= i < before.len() implies states.drop_last()[i + 1] == step(
            states.drop_last()[i],
            #[trigger] before[i],
        ) by {
            assert(messages[i] == before[i]);
        }
        lemma_messages_in_their_order(step, states.drop_last(), before);
        assert(messages[messages.len() - 1] == messages.last());
    }
}

/// A listener that is told of each of these tables after the first is told once of each, in
/// their order and after all that it was told before. `logs` says for each table what each
/// listener has been told by then.
pub proof fn lemma_told_of_each<D>(
    logs: Seq<Seq<Seq<(Seq<D>, bool)>>>,
    tables: Seq<Map<Seq<char>, D>>,
    i: int,
)
    requires
        logs.len() == tables.len() > 0,
        forall|k: int|
            0 < k < logs.len() ==> (#[trigger] logs[k]).len() == logs[k - 1].len(),
        forall|k: int, j: int|
            0 < k < logs.len() && 0 <= j < logs[k].len() ==> told_of(
                logs[k - 1][j],
                #[trigger] logs[k][j],
                tables[k],
            ),
        0 <= i < logs[0].len(),
    ensures
        logs.last().len() == logs[0].len(),
        logs.last()[i].len() == logs[0][i].len() + tables.len() - 1,
        logs[0][i].is_prefix_of(logs.last()[i]),
        forall|k: int|
            0 < k < tables.len() ==> lists(
                logs.last()[i][logs[0][i].len() + k - 1].0,
                #[trigger] tables[k],
            ),
    decreases logs.len(),
{
    if logs.len() > 1 {
        let n = logs.len() - 1;
        assert forall|k: int, j: int|
            0 < k < n && 0 <= j < logs.drop_last()[k].len() implies told_of(
            logs.drop_last()[k - 1][j],
            #[trigger] logs.drop_last()[k][j],
            tables.drop_last()[k],
        ) by {
            assert(told_of(logs[k - 1][j], logs[k][j], tables[k]));
        }
        assert forall|k: int| 0 < k < n implies (#[trigger] logs.drop_last()[k]).len()
            == logs.drop_last()[k - 1].len() by {
            assert(logs[k].len() == logs[k - 1].len());
        }
        lemma_told_of_each(logs.drop_last(), tables.drop_last(), i);
        assert(logs[n].len() == logs[n - 1].len());
        assert(told_of(logs[n - 1][i], logs[n][i], tables[n]));
        assert forall|k: int| 0 < k < tables.len() implies lists(
            logs.last()[i][logs[0][i].len() + k - 1].0,
            #[trigger] tables[k],
        ) by {
            if k < n {
                assert(tables.drop_last()[k] == tables[k]);
                assert(logs[n][i][logs[0][i].len() + k - 1] == logs[n - 1][i][logs[0][i].len() + k
                    - 1]);
            }
        }
    }
}

/// What becomes of an entry rests with the messages about it and with nothing else.
proof fn lemma_entry_of_own_messages<D, M>(
    step: spec_fn(Map<Seq<char>, D>, M) -> Map<Seq<char>, D>,
    subject: spec_fn(M) -> Seq<char>,
    table: Map<Seq<char>, D>,
    messages: Seq<M>,
    name: Seq<char>,
)
    requires
        keeps_to_its_subject(step, subject),
    ensures
        messages.fold_left(table, step).get(name) == about(messages, subject, name).fold_left(
            table,
            step,
        ).get(name),
    decreases messages.len(),
{
    reveal(Seq::filter);
    if messages.len() > 0 {
        let before = messages.drop_last();
        let m = messages.last();
        lemma_entry_of_own_messages(step, subject, table, before, name);
        let own = about(before, subject, name);
        if subject(m) == name {
            assert(about(messages, subject, name) == own.push(m));
            assert(own.push(m).drop_last() =~= own);
            assert(step(before.fold_left(table, step), m).get(name) == step(
                own.fold_left(table, step),
                m,
            ).get(name));
        } else {
            assert(about(messages, subject, name) == own);
            assert(step(before.fold_left(table, step), m).get(name) == before.fold_left(
                table,
                step,
            ).get(name));
        }
    }
}

/// Messages leave the same table in every order that keeps those about one name in theirs.
pub proof fn lemma_own_order_decides<D, M>(
    step: spec_fn(Map<Seq<char>, D>, M) -> Map<Seq<char>, D>,
    subject: spec_fn(M) -> Seq<char>,
    table: Map<Seq<char>, D>,
    first: Seq<M>,
    second: Seq<M>,
)
    requires
        keeps_to_its_subject(step, subject),
        forall|name: Seq<char>| #[trigger]
            about(first, subject, name) == about(second, subject, name),
    ensures
        first.fold_left(table, step) == second.fold_left(table, step),
{
    let a = first.fold_left(table, step);
    let b = second.fold_left(table, step);
    assert forall|name: Seq<char>| #[trigger] a.get(name) == b.get(name) by {
        lemma_entry_of_own_messages(step, subject, table, first, name);
        lemma_entry_of_own_messages(step, subject, table, second, name);
        assert(about(first, subject, name) == about(second, subject, name));
    }
    assert forall|name: Seq<char>| #[trigger] a.dom().contains(name) == b.dom().contains(name) by {
        assert(a.get(name) == b.get(name));
    }
    assert forall|name: Seq<char>| #[trigger] a.dom().contains(name) implies a[name] == b[name] by {
        assert(a.get(name) == b.get(name));
    }
    assert(a =~= b);
}

} // verus!
