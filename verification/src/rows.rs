//! The mathematical model of a table of name/value rows.
//!
//! A row is a pair `(name, value)` of character sequences. A sequence of rows
//! in which no name occurs twice stands for a finite map from names to values;
//! the order of the rows is the order in which the names first appeared.

use vstd::prelude::*;

verus! {

/// A row: a name and its value.
pub type Row = (Seq<char>, Seq<char>);

/// Rows in their order.
pub type Rows = Seq<Row>;

/// A table as a map from names to values.
pub type Table = Map<Seq<char>, Seq<char>>;

/// Some row of `rows` carries `name`.
pub open spec fn has_name(rows: Rows, name: Seq<char>) -> bool {
    exists|i: int| 0 <= i < rows.len() && (#[trigger] rows[i]).0 == name
}

/// An index at which `rows` carries `name` (meaningful when `has_name` holds).
pub open spec fn position(rows: Rows, name: Seq<char>) -> int {
    choose|i: int| 0 <= i < rows.len() && (#[trigger] rows[i]).0 == name
}

/// No name occurs in two rows.
pub open spec fn distinct_names(rows: Rows) -> bool {
    forall|i: int, j: int|
        0 <= i < rows.len() && 0 <= j < rows.len() && i != j ==> (#[trigger] rows[i]).0 != (
        #[trigger] rows[j]).0
}

/// The map that `rows` stands for: each name goes to the value of its row.
pub open spec fn as_map(rows: Rows) -> Table {
    Map::new(|k: Seq<char>| has_name(rows, k), |k: Seq<char>| rows[position(rows, k)].1)
}

/// `rows` with `name` set to `value`: the row of `name` is overwritten in
/// place, or a new row is appended when there is none.
pub open spec fn upsert(rows: Rows, name: Seq<char>, value: Seq<char>) -> Rows {
    if has_name(rows, name) {
        rows.update(position(rows, name), (name, value))
    } else {
        rows.push((name, value))
    }
}

/// The rows obtained by setting, in order, every row of `input` into an
/// empty table. A later row with the same name overrides an earlier one.
pub open spec fn collect(input: Rows) -> Rows
    decreases input.len(),
{
    if input.len() == 0 {
        Seq::empty()
    } else {
        upsert(collect(input.drop_last()), input.last().0, input.last().1)
    }
}

/// The map built by inserting every row of `input` in order.
pub open spec fn map_of(input: Rows) -> Table
    decreases input.len(),
{
    if input.len() == 0 {
        Map::empty()
    } else {
        map_of(input.drop_last()).insert(input.last().0, input.last().1)
    }
}

/// The rows of `rows` that `names` ask for, in the order in which `names`
/// first mentions them. Names that `rows` does not carry are left out.
pub open spec fn select(rows: Rows, names: Seq<Seq<char>>) -> Rows
    decreases names.len(),
{
    if names.len() == 0 {
        Seq::empty()
    } else if has_name(rows, names.last()) {
        upsert(select(rows, names.drop_last()), names.last(), as_map(rows)[names.last()])
    } else {
        select(rows, names.drop_last())
    }
}

/// With distinct names, the row that carries a name is the one `position` finds.
pub proof fn lemma_position_unique(rows: Rows, i: int)
    requires
        distinct_names(rows),
        0 <= i < rows.len(),
    ensures
        has_name(rows, rows[i].0),
        position(rows, rows[i].0) == i,
        as_map(rows).contains_key(rows[i].0),
        as_map(rows)[rows[i].0] == rows[i].1,
{
    let name = rows[i].0;
    assert(0 <= i < rows.len() && rows[i].0 == name);
    let p = position(rows, name);
    assert(0 <= p < rows.len() && rows[p].0 == name);
    if p != i {
        assert(rows[p].0 != rows[i].0);
    }
}

/// Setting a name keeps the names distinct and changes the map by one insert.
pub proof fn lemma_upsert(rows: Rows, name: Seq<char>, value: Seq<char>)
    requires
        distinct_names(rows),
    ensures
        distinct_names(upsert(rows, name, value)),
        as_map(upsert(rows, name, value)) == as_map(rows).insert(name, value),
        has_name(rows, name) ==> upsert(rows, name, value).len() == rows.len(),
        !has_name(rows, name) ==> upsert(rows, name, value) == rows.push((name, value)),
{
    let next = upsert(rows, name, value);
    if has_name(rows, name) {
        let p = position(rows, name);
        assert(0 <= p < rows.len() && rows[p].0 == name);
        assert forall|i: int| 0 <= i < next.len() implies (#[trigger] next[i]).0 == rows[i].0 by {}
        assert(distinct_names(next)) by {
            assert forall|i: int, j: int|
                0 <= i < next.len() && 0 <= j < next.len() && i != j implies (#[trigger] next[i]).0
                != (#[trigger] next[j]).0 by {
                assert(rows[i].0 != rows[j].0);
            }
        }
        assert forall|k: Seq<char>| has_name(next, k) == has_name(rows, k) by {
            if has_name(rows, k) {
                let q = position(rows, k);
                assert(0 <= q < next.len() && next[q].0 == k);
            }
            if has_name(next, k) {
                let q = position(next, k);
                assert(0 <= q < rows.len() && rows[q].0 == k);
            }
        }
        assert forall|k: Seq<char>| has_name(next, k) implies #[trigger] as_map(next)[k] == as_map(
            rows,
        ).insert(name, value)[k] by {
            let q = position(next, k);
            assert(0 <= q < next.len() && next[q].0 == k);
            lemma_position_unique(next, q);
            lemma_position_unique(rows, q);
            if k == name {
                assert(q == p) by {
                    if q != p {
                        assert(rows[q].0 != rows[p].0);
                    }
                }
            }
        }
        assert(as_map(next) =~= as_map(rows).insert(name, value));
    } else {
        let n = rows.len() as int;
        assert(next[n].0 == name);
        assert(distinct_names(next)) by {
            assert forall|i: int, j: int|
                0 <= i < next.len() && 0 <= j < next.len() && i != j implies (#[trigger] next[i]).0
                != (#[trigger] next[j]).0 by {
                if i < n && j < n {
                    assert(rows[i].0 != rows[j].0);
                } else if i < n {
                    assert(rows[i].0 != name);
                } else {
                    assert(rows[j].0 != name);
                }
            }
        }
        assert forall|k: Seq<char>| has_name(next, k) == (has_name(rows, k) || k == name) by {
            if has_name(rows, k) {
                let q = position(rows, k);
                assert(0 <= q < next.len() && next[q].0 == k);
            }
            if k == name {
                assert(0 <= n < next.len() && next[n].0 == k);
            }
            if has_name(next, k) {
                let q = position(next, k);
                if q < n {
                    assert(0 <= q < rows.len() && rows[q].0 == k);
                }
            }
        }
        assert forall|k: Seq<char>| has_name(next, k) implies #[trigger] as_map(next)[k] == as_map(
            rows,
        ).insert(name, value)[k] by {
            let q = position(next, k);
            assert(0 <= q < next.len() && next[q].0 == k);
            lemma_position_unique(next, q);
            if q < n {
                lemma_position_unique(rows, q);
            }
        }
        assert(as_map(next) =~= as_map(rows).insert(name, value));
    }
}

/// Collecting any rows gives distinct names and the map of the rows.
pub proof fn lemma_collect(input: Rows)
    ensures
        distinct_names(collect(input)),
        as_map(collect(input)) == map_of(input),
    decreases input.len(),
{
    if input.len() == 0 {
        assert(as_map(collect(input)) =~= map_of(input));
    } else {
        lemma_collect(input.drop_last());
        lemma_upsert(collect(input.drop_last()), input.last().0, input.last().1);
    }
}

/// Rows whose names are already distinct collect to themselves.
pub proof fn lemma_collect_distinct(input: Rows)
    requires
        distinct_names(input),
    ensures
        collect(input) == input,
    decreases input.len(),
{
    if input.len() > 0 {
        let head = input.drop_last();
        assert forall|i: int, j: int|
            0 <= i < head.len() && 0 <= j < head.len() && i != j implies (#[trigger] head[i]).0 != (
            #[trigger] head[j]).0 by {
            assert(input[i].0 != input[j].0);
        }
        lemma_collect_distinct(head);
        if has_name(head, input.last().0) {
            let p = position(head, input.last().0);
            assert(input[p].0 != input[input.len() - 1].0);
        }
        assert(head.push(input.last()) =~= input);
    }
}

/// Selecting by names gives distinct names and the map of `rows` cut down to
/// the names asked for.
pub proof fn lemma_select(rows: Rows, names: Seq<Seq<char>>)
    ensures
        distinct_names(select(rows, names)),
        as_map(select(rows, names)) == as_map(rows).restrict(names.to_set()),
    decreases names.len(),
{
    let picked = select(rows, names);
    if names.len() == 0 {
        assert(as_map(picked) =~= as_map(rows).restrict(names.to_set()));
    } else {
        let head = names.drop_last();
        let last = names.last();
        lemma_select(rows, head);
        assert forall|k: Seq<char>| names.to_set().contains(k) == (head.to_set().contains(k) || k
            == last) by {
            if head.to_set().contains(k) {
                let i = choose|i: int| 0 <= i < head.len() && head[i] == k;
                assert(names[i] == k);
            }
            if k == last {
                assert(names[names.len() - 1] == k);
            }
            if names.to_set().contains(k) {
                let i = choose|i: int| 0 <= i < names.len() && names[i] == k;
                if i < head.len() {
                    assert(head[i] == k);
                }
            }
        }
        if has_name(rows, last) {
            lemma_upsert(select(rows, head), last, as_map(rows)[last]);
        }
        assert(as_map(picked) =~= as_map(rows).restrict(names.to_set()));
    }
}

} // verus!
