//! The uniform record of a row mutation: kind, identifying pair, and the
//! optional pre- and post-image column maps.

use vstd::prelude::*;
use vstd::string::StringExecFns;

use crate::col_value::ColValue;

verus! {

#[derive(Clone, Copy, Debug, PartialEq, Eq, Structural)]
pub enum RowType {
    Insert,
    Update,
    Delete,
}

impl RowType {
    pub open spec fn name_spec(&self) -> Seq<char> {
        match self {
            RowType::Insert => "insert"@,
            RowType::Update => "update"@,
            RowType::Delete => "delete"@,
        }
    }

    pub fn to_string(&self) -> (r: String)
        ensures
            r@ == self.name_spec(),
    {
        match self {
            RowType::Insert => String::from_str("insert"),
            RowType::Update => String::from_str("update"),
            RowType::Delete => String::from_str("delete"),
        }
    }
}

/// An ordered column map: insertion order is kept, keys are looked up by
/// first occurrence.
#[derive(Clone, Debug, PartialEq)]
pub struct ColMap {
    pub entries: Vec<(String, ColValue)>,
}

/// The first index holding key `name` in an association list, or the
/// length.
pub open spec fn assoc_index_of<T>(entries: Seq<(String, T)>, name: Seq<char>) -> int
    decreases entries.len(),
{
    if entries.len() == 0 {
        0
    } else if entries[0].0@ == name {
        0
    } else {
        1 + assoc_index_of(entries.drop_first(), name)
    }
}

pub proof fn lemma_assoc_index_of<T>(entries: Seq<(String, T)>, name: Seq<char>)
    ensures
        0 <= assoc_index_of(entries, name) <= entries.len(),
        assoc_index_of(entries, name) < entries.len() ==> entries[assoc_index_of(
            entries,
            name,
        )].0@ == name,
        forall|i: int|
            0 <= i < assoc_index_of(entries, name) ==> (#[trigger] entries[i]).0@ != name,
    decreases entries.len(),
{
    if entries.len() > 0 && entries[0].0@ != name {
        lemma_assoc_index_of(entries.drop_first(), name);
        assert(forall|i: int|
            1 <= i < entries.len() ==> #[trigger] entries[i] == entries.drop_first()[i - 1]);
    }
}

impl ColMap {
    /// No column name occurs twice. `new` establishes this and `insert`
    /// preserves it; a map built directly from entries must bring it
    /// itself.
    pub open spec fn wf(&self) -> bool {
        forall|i: int, j: int|
            0 <= i < j < self.entries@.len() ==> (#[trigger] self.entries@[i]).0@ != (
            #[trigger] self.entries@[j]).0@
    }

    pub open spec fn contains_col(&self, name: Seq<char>) -> bool {
        assoc_index_of(self.entries@, name) < self.entries@.len()
    }

    /// The value of column `name` (at its first occurrence).
    pub open spec fn spec_value_of(&self, name: Seq<char>) -> ColValue {
        self.entries@[assoc_index_of(self.entries@, name)].1
    }

    pub fn new() -> (r: Self)
        ensures
            r.entries@.len() == 0,
            r.wf(),
    {
        ColMap { entries: Vec::new() }
    }

    pub fn len(&self) -> (r: usize)
        ensures
            r == self.entries@.len(),
    {
        self.entries.len()
    }

    /// Look a column up by name.
    pub fn get(&self, name: &str) -> (r: Option<&ColValue>)
        ensures
            match r {
                Some(v) => self.contains_col(name@) && *v == self.spec_value_of(name@),
                None => !self.contains_col(name@),
            },
    {
        proof {
            lemma_assoc_index_of(self.entries@, name@);
        }
        let mut i: usize = 0;
        while i < self.entries.len()
            invariant
                i <= self.entries@.len(),
                forall|k: int| 0 <= k < i ==> (#[trigger] self.entries@[k]).0@ != name@,
            decreases self.entries@.len() - i,
        {
            if string_eq_str(&self.entries[i].0, name) {
                proof {
                    lemma_assoc_index_of(self.entries@, name@);
                    assert(assoc_index_of(self.entries@, name@) == i as int) by {
                        if assoc_index_of(self.entries@, name@) < i as int {
                            assert(self.entries@[assoc_index_of(self.entries@, name@)].0@ == name@);
                        }
                    }
                }
                return Some(&self.entries[i].1);
            }
            i = i + 1;
        }
        proof {
            lemma_assoc_index_of(self.entries@, name@);
        }
        None
    }

    /// Set a column: replace its first occurrence, or append it.
    pub fn insert(&mut self, name: String, value: ColValue)
        ensures
            ({
                let idx = assoc_index_of(old(self).entries@, name@);
                if idx < old(self).entries@.len() {
                    final(self).entries@ == old(self).entries@.update(idx, (name, value))
                } else {
                    final(self).entries@ == old(self).entries@.push((name, value))
                }
            }),
            old(self).wf() ==> final(self).wf(),
    {
        proof {
            lemma_assoc_index_of(self.entries@, name@);
        }
        let mut i: usize = 0;
        while i < self.entries.len()
            invariant
                i <= self.entries@.len(),
                *self == *old(self),
                forall|k: int| 0 <= k < i ==> (#[trigger] self.entries@[k]).0@ != name@,
            decreases self.entries@.len() - i,
        {
            if string_eq_str(&self.entries[i].0, name.as_str()) {
                proof {
                    lemma_assoc_index_of(self.entries@, name@);
                    assert(assoc_index_of(self.entries@, name@) == i as int) by {
                        if assoc_index_of(self.entries@, name@) < i as int {
                            assert(self.entries@[assoc_index_of(self.entries@, name@)].0@ == name@);
                        }
                    }
                }
                self.entries.set(i, (name, value));
                return ;
            }
            i = i + 1;
        }
        proof {
            lemma_assoc_index_of(self.entries@, name@);
        }
        self.entries.push((name, value));
    }
}

/// `m1` is `m0` with column `name` set to `v`: replaced at its first
/// occurrence, or appended.
pub open spec fn col_inserted(m0: ColMap, m1: ColMap, name: Seq<char>, v: ColValue) -> bool {
    let idx = assoc_index_of(m0.entries@, name);
    if idx < m0.entries@.len() {
        &&& m1.entries@.len() == m0.entries@.len()
        &&& m1.entries@[idx].0@ == name
        &&& m1.entries@[idx].1 == v
        &&& forall|k: int|
            0 <= k < m0.entries@.len() && k != idx ==> #[trigger] m1.entries@[k]
                == m0.entries@[k]
    } else {
        &&& m1.entries@.len() == m0.entries@.len() + 1
        &&& m1.entries@[m0.entries@.len() as int].0@ == name
        &&& m1.entries@[m0.entries@.len() as int].1 == v
        &&& forall|k: int|
            0 <= k < m0.entries@.len() ==> #[trigger] m1.entries@[k] == m0.entries@[k]
    }
}

/// What `ColMap::insert` ensures, read as the `col_inserted` relation.
pub proof fn lemma_insert_is_col_inserted(m0: ColMap, m1: ColMap, name: String, v: ColValue)
    requires
        ({
            let idx = assoc_index_of(m0.entries@, name@);
            if idx < m0.entries@.len() {
                m1.entries@ == m0.entries@.update(idx, (name, v))
            } else {
                m1.entries@ == m0.entries@.push((name, v))
            }
        }),
    ensures
        col_inserted(m0, m1, name@, v),
{
    lemma_assoc_index_of(m0.entries@, name@);
    let idx = assoc_index_of(m0.entries@, name@);
    if idx < m0.entries@.len() {
        assert forall|k: int|
            0 <= k < m0.entries@.len() && k != idx implies #[trigger] m1.entries@[k]
            == m0.entries@[k] by {
            assert(m1.entries@[k] == m0.entries@.update(idx, (name, v))[k]);
        }
    } else {
        assert forall|k: int|
            0 <= k < m0.entries@.len() implies #[trigger] m1.entries@[k] == m0.entries@[k] by {
            assert(m1.entries@[k] == m0.entries@.push((name, v))[k]);
        }
    }
}

/// String equality against a borrowed str.
pub fn string_eq_str(a: &String, b: &str) -> (r: bool)
    ensures
        r == (a@ == b@),
{
    let owned = b.to_owned();
    a.eq(&owned)
}

/// A row mutation. An insert carries only a post-image, a delete only a
/// pre-image, an update both; `data_size` is an advisory byte estimate.
#[derive(Clone, Debug, PartialEq)]
pub struct RowData {
    pub schema: String,
    pub tb: String,
    pub row_type: RowType,
    pub before: Option<ColMap>,
    pub after: Option<ColMap>,
    pub data_size: usize,
}

impl RowData {
    /// The image discipline of the three mutation kinds.
    pub open spec fn wf(&self) -> bool {
        match self.row_type {
            RowType::Insert => self.before is None && self.after is Some,
            RowType::Delete => self.before is Some && self.after is None,
            RowType::Update => self.before is Some && self.after is Some,
        }
    }
}

} // verus!
