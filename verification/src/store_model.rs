//! The backing store as the coordinator may take it to be, and what follows
//! for the snapshot.
//!
//! The table of the backing store is a map from names to values. A write that
//! the store reports as done has changed the table as `table_after` says, and
//! a load returns rows that `read_from` accepts. Nothing here runs: these are
//! the terms in which the coordinator and the store are held together.

use crate::config_store::{
    completed, reloaded, ConfigStoreError, DeferredWork, Response, StoreCall,
};
use crate::models::Pair;
use crate::pair_map::rows_of;
use crate::rows::{
    as_map, collect, distinct_names, lemma_collect, lemma_collect_distinct, map_of, Table,
};
use vstd::prelude::*;

verus! {

/// The table after a write that the store reported as done. An insert adds
/// the row. An update changes the value of a name that the table holds and
/// does nothing for any other name. A delete removes the name if it is there.
pub open spec fn table_after(table: Table, call: StoreCall) -> Table {
    match call {
        StoreCall::Insert(row) => table.insert(row.name@, row.value@),
        StoreCall::Update { name, value } => if table.contains_key(name@) {
            table.insert(name@, value@)
        } else {
            table
        },
        StoreCall::Delete { name } => table.remove(name@),
    }
}

/// The table after the writes `calls`, each reported as done, made one after
/// the other.
pub open spec fn table_after_all(table: Table, calls: Seq<StoreCall>) -> Table
    decreases calls.len(),
{
    if calls.len() == 0 {
        table
    } else {
        table_after(table_after_all(table, calls.drop_last()), calls.last())
    }
}

/// `pairs` is what a load of `table` returns: one row for each name of the
/// table, with its value, in any order.
pub open spec fn read_from(pairs: Seq<Pair>, table: Table) -> bool {
    distinct_names(rows_of(pairs)) && as_map(rows_of(pairs)) == table
}

/// The snapshot after the reloads `loads`, taken one after the other.
pub open spec fn after_reloads(
    snapshot: Table,
    loads: Seq<Result<Vec<Pair>, ConfigStoreError>>,
) -> Table
    decreases loads.len(),
{
    if loads.len() == 0 {
        snapshot
    } else {
        reloaded(after_reloads(snapshot, loads.drop_last()), loads.last())
    }
}

/// A reload from the table makes the snapshot equal to the table, and its
/// entries are the rows as they came.
pub proof fn lemma_reload_mirrors_table(
    snapshot: Table,
    pairs: Vec<Pair>,
    table: Table,
)
    requires
        read_from(pairs@, table),
    ensures
        reloaded(snapshot, Ok(pairs)) == table,
        collect(rows_of(pairs@)) == rows_of(pairs@),
{
    lemma_collect(rows_of(pairs@));
    lemma_collect_distinct(rows_of(pairs@));
}

/// A name that the backing store does not hold is left out of every fetch
/// that follows a reload: the fetch holds no entry for it, whichever names
/// were asked for.
pub proof fn lemma_fetch_omits_absent_name(
    snapshot: Table,
    pairs: Vec<Pair>,
    table: Table,
    names: Seq<Seq<char>>,
    name: Seq<char>,
)
    requires
        read_from(pairs@, table),
        !table.contains_key(name),
    ensures
        !reloaded(snapshot, Ok(pairs)).restrict(names.to_set()).contains_key(name),
{
    lemma_reload_mirrors_table(snapshot, pairs, table);
}

/// After an add that the store reported as done, a reload puts the pair into
/// the snapshot, under its name and with its value.
pub proof fn lemma_add_then_reload(
    snapshot: Table,
    table: Table,
    name: String,
    value: String,
    pairs: Vec<Pair>,
)
    requires
        read_from(pairs@, table_after(table, StoreCall::Insert(Pair { name, value }))),
    ensures
        reloaded(snapshot, Ok(pairs)).contains_pair(name@, value@),
{
    lemma_reload_mirrors_table(
        snapshot,
        pairs,
        table_after(table, StoreCall::Insert(Pair { name, value })),
    );
}

/// After a delete that the store reported as done, a reload leaves the
/// snapshot without the name.
pub proof fn lemma_delete_then_reload(
    snapshot: Table,
    table: Table,
    name: String,
    pairs: Vec<Pair>,
)
    requires
        read_from(pairs@, table_after(table, StoreCall::Delete { name })),
    ensures
        !reloaded(snapshot, Ok(pairs)).contains_key(name@),
{
    lemma_reload_mirrors_table(snapshot, pairs, table_after(table, StoreCall::Delete { name }));
}

/// Two reloads from a table that did not change in between give the same
/// snapshot, whatever the snapshot was before and in whatever order the rows
/// came.
pub proof fn lemma_reload_twice(
    snapshot: Table,
    first: Vec<Pair>,
    second: Vec<Pair>,
    table: Table,
)
    requires
        read_from(first@, table),
        read_from(second@, table),
    ensures
        reloaded(reloaded(snapshot, Ok(first)), Ok(second)) == reloaded(snapshot, Ok(first)),
{
    lemma_reload_mirrors_table(snapshot, first, table);
    lemma_reload_mirrors_table(reloaded(snapshot, Ok(first)), second, table);
}

/// An update of a name that the table does not hold is answered as a
/// success, with a reload behind it, and the table stays as it was: a reload
/// then leaves the snapshot without the name.
pub proof fn lemma_update_of_missing_name(
    snapshot: Table,
    table: Table,
    name: String,
    value: String,
    pairs: Vec<Pair>,
)
    requires
        !table.contains_key(name@),
        read_from(pairs@, table_after(table, StoreCall::Update { name, value })),
    ensures
        completed(Ok(0)).reply == Ok::<Response, ConfigStoreError>(Response::Done(())),
        completed(Ok(0)).deferred == Some(DeferredWork::UpdatePairs),
        table_after(table, StoreCall::Update { name, value }) == table,
        !reloaded(snapshot, Ok(pairs)).contains_key(name@),
{
    lemma_reload_mirrors_table(snapshot, pairs, table);
}

/// Reloads take effect one after the other, each as a whole: after any run
/// of them the snapshot is the one before the run, where no load in it
/// brought rows, and else the map of the rows of the last load that did.
/// It is never a mixture of two loads.
pub proof fn lemma_reloads_in_order(
    snapshot: Table,
    loads: Seq<Result<Vec<Pair>, ConfigStoreError>>,
)
    ensures
        (forall|i: int| 0 <= i < loads.len() ==> (#[trigger] loads[i]) is Err) ==> after_reloads(
            snapshot,
            loads,
        ) == snapshot,
        forall|i: int|
            0 <= i < loads.len() && (#[trigger] loads[i]) is Ok && (forall|j: int|
                i < j < loads.len() ==> (#[trigger] loads[j]) is Err) ==> after_reloads(
                snapshot,
                loads,
            ) == map_of(rows_of(loads[i]->Ok_0@)),
    decreases loads.len(),
{
    if loads.len() > 0 {
        let head = loads.drop_last();
        lemma_reloads_in_order(snapshot, head);
        assert forall|i: int|
            0 <= i < loads.len() && (#[trigger] loads[i]) is Ok && (forall|j: int|
                i < j < loads.len() ==> (#[trigger] loads[j]) is Err) implies after_reloads(
            snapshot,
            loads,
        ) == map_of(rows_of(loads[i]->Ok_0@)) by {
            if i < loads.len() - 1 {
                assert(loads[loads.len() - 1] is Err);
                assert(head[i] == loads[i]);
                assert forall|j: int| i < j < head.len() implies (#[trigger] head[j]) is Err by {
                    assert(loads[j] is Err);
                }
            }
        }
        if forall|i: int| 0 <= i < loads.len() ==> (#[trigger] loads[i]) is Err {
            assert forall|i: int| 0 <= i < head.len() implies (#[trigger] head[i]) is Err by {
                assert(loads[i] is Err);
            }
        }
    }
}

/// Writes take effect in the order in which they were made: where each
/// write of a run is followed by a reload that reads the table as the writes
/// so far have left it, the snapshot after the run is the table after all of
/// them.
pub proof fn lemma_writes_in_order(
    snapshot: Table,
    table: Table,
    calls: Seq<StoreCall>,
    loads: Seq<Result<Vec<Pair>, ConfigStoreError>>,
)
    requires
        calls.len() > 0,
        loads.len() == calls.len(),
        forall|i: int|
            0 <= i < loads.len() ==> ((#[trigger] loads[i]) matches Ok(pairs) && read_from(
                pairs@,
                table_after_all(table, calls.take(i + 1)),
            )),
    ensures
        after_reloads(snapshot, loads) == table_after_all(table, calls),
{
    let last = loads.len() - 1;
    let before = after_reloads(snapshot, loads.drop_last());
    assert(loads[last] is Ok);
    assert(calls.take(last + 1) =~= calls);
    lemma_reload_mirrors_table(before, loads[last]->Ok_0, table_after_all(table, calls));
}

} // verus!
