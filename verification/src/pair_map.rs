//! An insertion-ordered map from names to values, held as a vector of pairs
//! in which no name occurs twice.

use crate::models::Pair;
use crate::rows::{
    as_map, collect, distinct_names, has_name, lemma_collect, lemma_position_unique, lemma_select,
    lemma_upsert, map_of, position, select, upsert, Rows, Table,
};
use crate::text::names_of;
use vstd::prelude::*;

verus! {

/// The rows that a sequence of pairs stands for.
pub open spec fn rows_of(pairs: Seq<Pair>) -> Rows {
    pairs.map_values(|p: Pair| p@)
}

/// A finite map from names to values that remembers the order in which the
/// names were first set.
#[derive(Debug)]
pub struct PairMap {
    entries: Vec<Pair>,
}

impl View for PairMap {
    type V = Table;

    open spec fn view(&self) -> Table {
        as_map(self.rows())
    }
}

impl PairMap {
    #[verifier::type_invariant]
    spec fn names_are_distinct(self) -> bool {
        distinct_names(rows_of(self.entries@))
    }

    /// The entries in order; no name occurs twice among them.
    pub closed spec fn rows(&self) -> Rows {
        rows_of(self.entries@)
    }

    /// The empty map.
    pub fn new() -> (m: PairMap)
        ensures
            m.rows() == Rows::empty(),
            m@ == Table::empty(),
    {
        let m = PairMap { entries: Vec::new() };
        assert(m.rows() =~= Rows::empty());
        assert(m@ =~= Table::empty());
        m
    }

    /// The number of entries.
    pub fn len(&self) -> (n: usize)
        ensures
            n == self.rows().len(),
            distinct_names(self.rows()),
    {
        proof {
            use_type_invariant(self);
        }
        self.entries.len()
    }

    /// The entry at position `i`.
    pub fn entry(&self, i: usize) -> (p: &Pair)
        requires
            i < self.rows().len(),
        ensures
            p@ == self.rows()[i as int],
    {
        &self.entries[i]
    }

    /// Where `name` stands among the entries, if it does.
    pub fn find(&self, name: &String) -> (found: Option<usize>)
        ensures
            match found {
                Some(i) => i < self.rows().len() && self.rows()[i as int].0 == name@ && has_name(
                    self.rows(),
                    name@,
                ) && position(self.rows(), name@) == i,
                None => !has_name(self.rows(), name@),
            },
    {
        proof {
            use_type_invariant(self);
        }
        let n: usize = self.entries.len();
        let mut i: usize = 0;
        while i < n
            invariant
                i <= n,
                n == self.entries@.len(),
                distinct_names(self.rows()),
                forall|j: int| 0 <= j < i ==> (#[trigger] self.rows()[j]).0 != name@,
            decreases n - i,
        {
            if self.entries[i].name == *name {
                proof {
                    lemma_position_unique(self.rows(), i as int);
                }
                return Some(i);
            }
            i = i + 1;
        }
        None
    }

    /// Whether `name` has a value.
    pub fn contains_key(&self, name: &String) -> (found: bool)
        ensures
            found == self@.contains_key(name@),
    {
        self.find(name).is_some()
    }

    /// The value of `name`, if it has one.
    pub fn get(&self, name: &String) -> (value: Option<&String>)
        ensures
            match value {
                Some(v) => self@.contains_key(name@) && v@ == self@[name@],
                None => !self@.contains_key(name@),
            },
    {
        match self.find(name) {
            Some(i) => Some(&self.entries[i].value),
            None => None,
        }
    }

    /// Sets `name` to `value`: overwrites the entry of `name` where it
    /// stands, or appends a new entry.
    pub fn insert(&mut self, name: String, value: String)
        ensures
            final(self).rows() == upsert(old(self).rows(), name@, value@),
            final(self)@ == old(self)@.insert(name@, value@),
    {
        proof {
            use_type_invariant(&*self);
            lemma_upsert(self.rows(), name@, value@);
        }
        let found = self.find(&name);
        let pair = Pair { name, value };
        let mut entries: Vec<Pair> = Vec::new();
        core::mem::swap(&mut self.entries, &mut entries);
        match found {
            Some(i) => {
                entries.set(i, pair);
            },
            None => {
                entries.push(pair);
            },
        }
        assert(rows_of(entries@) =~= upsert(old(self).rows(), pair.name@, pair.value@));
        self.entries = entries;
    }

    /// The map that setting every pair of `pairs` in order gives: a later
    /// pair with the same name overrides an earlier one.
    pub fn from_pairs(pairs: Vec<Pair>) -> (m: PairMap)
        ensures
            m.rows() == collect(rows_of(pairs@)),
            m@ == map_of(rows_of(pairs@)),
    {
        let mut m = PairMap::new();
        let mut pairs = pairs;
        let ghost input = rows_of(pairs@);
        let n: usize = pairs.len();
        let mut i: usize = 0;
        assert(input.take(0) =~= Rows::empty());
        while i < n
            invariant
                i <= n,
                n == pairs@.len(),
                input.len() == n,
                forall|j: int| i <= j < n ==> (#[trigger] pairs@[j])@ == input[j],
                m.rows() == collect(input.take(i as int)),
            decreases n - i,
        {
            let name = pairs[i].name.clone();
            let value = pairs[i].value.clone();
            proof {
                assert(input.take(i + 1).drop_last() =~= input.take(i as int));
                assert(input.take(i + 1).last() == input[i as int]);
            }
            m.insert(name, value);
            i = i + 1;
        }
        proof {
            assert(input.take(n as int) =~= input);
            lemma_collect(input);
        }
        m
    }

    /// The entries whose names `names` asks for, in the order in which
    /// `names` first mentions them; names without a value are left out.
    pub fn subset(&self, names: &Vec<String>) -> (m: PairMap)
        ensures
            m.rows() == select(self.rows(), names_of(names@)),
            m@ == self@.restrict(names_of(names@).to_set()),
    {
        let mut m = PairMap::new();
        let ghost asked = names_of(names@);
        let n: usize = names.len();
        let mut i: usize = 0;
        assert(asked.take(0) =~= Seq::<Seq<char>>::empty());
        while i < n
            invariant
                i <= n,
                n == names@.len(),
                asked == names_of(names@),
                m.rows() == select(self.rows(), asked.take(i as int)),
            decreases n - i,
        {
            proof {
                assert(asked.take(i + 1).drop_last() =~= asked.take(i as int));
                assert(asked.take(i + 1).last() == names@[i as int]@);
            }
            match self.get(&names[i]) {
                Some(value) => {
                    m.insert(names[i].clone(), value.clone());
                },
                None => {},
            }
            i = i + 1;
        }
        proof {
            assert(asked.take(n as int) =~= asked);
            lemma_select(self.rows(), asked);
        }
        m
    }
}

impl Clone for PairMap {
    /// A copy with the same entries in the same order.
    fn clone(&self) -> (m: PairMap)
        ensures
            m.rows() == self.rows(),
            m@ == self@,
    {
        proof {
            use_type_invariant(self);
        }
        let mut entries: Vec<Pair> = Vec::new();
        let n: usize = self.entries.len();
        let mut i: usize = 0;
        while i < n
            invariant
                i <= n,
                n == self.entries@.len(),
                rows_of(entries@) == rows_of(self.entries@).take(i as int),
            decreases n - i,
        {
            let pair = Pair {
                name: self.entries[i].name.clone(),
                value: self.entries[i].value.clone(),
            };
            assert(pair@ == rows_of(self.entries@)[i as int]);
            assert(rows_of(entries@).push(pair@) =~= rows_of(self.entries@).take(i + 1));
            assert(rows_of(entries@.push(pair)) =~= rows_of(entries@).push(pair@));
            entries.push(pair);
            i = i + 1;
        }
        assert(rows_of(self.entries@).take(n as int) =~= rows_of(self.entries@));
        PairMap { entries }
    }
}

} // verus!
