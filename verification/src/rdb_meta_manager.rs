//! The meta manager facade: a per-(schema, table) cached view of column
//! list, column origin types and key map, invalidated entry-wise by DDL
//! events. The underlying dialect-specific fetch is outside work: callers
//! fill the cache with `insert_tb_meta` and read it with `get_tb_meta`.

use vstd::prelude::*;

use crate::db_type::DbType;
use crate::ddl_data::DdlData;
use crate::row_data::{assoc_index_of, lemma_assoc_index_of, string_eq_str};

verus! {

/// The cached view of one table. The three lists are keyed by first
/// occurrence; a caller filling them supplies each key once.
#[derive(Clone, Debug, PartialEq)]
pub struct RdbTbMeta {
    pub cols: Vec<String>,
    pub col_origin_type_map: Vec<(String, String)>,
    pub key_map: Vec<(String, Vec<String>)>,
}

impl RdbTbMeta {
    pub open spec fn has_col_type(&self, col: Seq<char>) -> bool {
        assoc_index_of(self.col_origin_type_map@, col) < self.col_origin_type_map@.len()
    }

    pub open spec fn spec_col_type(&self, col: Seq<char>) -> Seq<char> {
        self.col_origin_type_map@[assoc_index_of(self.col_origin_type_map@, col)].1@
    }

    pub open spec fn has_key(&self, key: Seq<char>) -> bool {
        assoc_index_of(self.key_map@, key) < self.key_map@.len()
    }

    pub open spec fn spec_key_cols(&self, key: Seq<char>) -> Seq<String> {
        self.key_map@[assoc_index_of(self.key_map@, key)].1@
    }

    /// The dialect type text recorded for a column.
    pub fn get_col_origin_type(&self, col: &str) -> (r: Option<&String>)
        ensures
            match r {
                Some(t) => self.has_col_type(col@) && t@ == self.spec_col_type(col@),
                None => !self.has_col_type(col@),
            },
    {
        let r = assoc_get(&self.col_origin_type_map, col);
        r
    }

    /// The ordered column list of a named key.
    pub fn get_key_cols(&self, key: &str) -> (r: Option<&Vec<String>>)
        ensures
            match r {
                Some(cols) => self.has_key(key@) && cols@ == self.spec_key_cols(key@),
                None => !self.has_key(key@),
            },
    {
        let r = assoc_get(&self.key_map, key);
        r
    }
}

/// Look a key up in an association list, at its first occurrence.
fn assoc_get<'a, T>(entries: &'a Vec<(String, T)>, name: &str) -> (r: Option<&'a T>)
    ensures
        match r {
            Some(v) => assoc_index_of(entries@, name@) < entries@.len() && *v == entries@[
                assoc_index_of(entries@, name@)
            ].1,
            None => assoc_index_of(entries@, name@) >= entries@.len(),
        },
{
    proof {
        lemma_assoc_index_of(entries@, name@);
    }
    let mut i: usize = 0;
    while i < entries.len()
        invariant
            i <= entries@.len(),
            forall|k: int| 0 <= k < i ==> (#[trigger] entries@[k]).0@ != name@,
        decreases entries@.len() - i,
    {
        if string_eq_str(&entries[i].0, name) {
            proof {
                lemma_assoc_index_of(entries@, name@);
                assert(assoc_index_of(entries@, name@) == i as int) by {
                    if assoc_index_of(entries@, name@) < i as int {
                        assert(entries@[assoc_index_of(entries@, name@)].0@ == name@);
                    }
                }
            }
            return Some(&entries[i].1);
        }
        i = i + 1;
    }
    proof {
        lemma_assoc_index_of(entries@, name@);
    }
    None
}

/// The first cache index holding the (schema, table) pair, or the length.
pub open spec fn cache_index_of(
    cache: Seq<((String, String), RdbTbMeta)>,
    schema: Seq<char>,
    tb: Seq<char>,
) -> int
    decreases cache.len(),
{
    if cache.len() == 0 {
        0
    } else if cache[0].0.0@ == schema && cache[0].0.1@ == tb {
        0
    } else {
        1 + cache_index_of(cache.drop_first(), schema, tb)
    }
}

pub proof fn lemma_cache_index_of(
    cache: Seq<((String, String), RdbTbMeta)>,
    schema: Seq<char>,
    tb: Seq<char>,
)
    ensures
        0 <= cache_index_of(cache, schema, tb) <= cache.len(),
        cache_index_of(cache, schema, tb) < cache.len() ==> cache[cache_index_of(
            cache,
            schema,
            tb,
        )].0.0@ == schema && cache[cache_index_of(cache, schema, tb)].0.1@ == tb,
        forall|i: int|
            0 <= i < cache_index_of(cache, schema, tb) ==> !((#[trigger] cache[i]).0.0@ == schema
                && cache[i].0.1@ == tb),
    decreases cache.len(),
{
    if cache.len() > 0 && !(cache[0].0.0@ == schema && cache[0].0.1@ == tb) {
        lemma_cache_index_of(cache.drop_first(), schema, tb);
        assert(forall|i: int|
            1 <= i < cache.len() ==> #[trigger] cache[i] == cache.drop_first()[i - 1]);
    }
}

/// The cache after dropping what a DDL on `(schema, tb)` invalidates:
/// exactly that entry when `tb` is non-empty, every entry of `schema`
/// when it is empty.
pub open spec fn invalidated_cache(
    cache: Seq<((String, String), RdbTbMeta)>,
    schema: Seq<char>,
    tb: Seq<char>,
) -> Seq<((String, String), RdbTbMeta)> {
    if tb.len() == 0 {
        cache.filter(|e: ((String, String), RdbTbMeta)| e.0.0@ != schema)
    } else {
        cache.filter(|e: ((String, String), RdbTbMeta)| !(e.0.0@ == schema && e.0.1@ == tb))
    }
}

/// No (schema, table) pair occurs twice among these cache entries.
pub open spec fn cache_keys_unique(cache: Seq<((String, String), RdbTbMeta)>) -> bool {
    forall|i: int, j: int|
        0 <= i < j < cache.len() ==> !((#[trigger] cache[i]).0.0@ == (#[trigger] cache[j]).0.0@
            && cache[i].0.1@ == cache[j].0.1@)
}

/// Every surviving entry was cached before the invalidation.
proof fn lemma_invalidated_subset(
    cache: Seq<((String, String), RdbTbMeta)>,
    schema: Seq<char>,
    tb: Seq<char>,
)
    ensures
        forall|i: int|
            0 <= i < invalidated_cache(cache, schema, tb).len() ==> cache.contains(
                #[trigger] invalidated_cache(cache, schema, tb)[i],
            ),
    decreases cache.len(),
{
    reveal(Seq::filter);
    if cache.len() > 0 {
        lemma_invalidated_subset(cache.drop_last(), schema, tb);
        let out = invalidated_cache(cache, schema, tb);
        let sub = invalidated_cache(cache.drop_last(), schema, tb);
        assert forall|i: int| 0 <= i < out.len() implies cache.contains(#[trigger] out[i]) by {
            if i < sub.len() {
                assert(out[i] == sub[i]);
                assert(cache.drop_last().contains(sub[i]));
                let j = choose|j: int|
                    0 <= j < cache.drop_last().len() && cache.drop_last()[j] == sub[i];
                assert(cache[j] == out[i]);
            } else {
                assert(out[i] == cache.last());
                assert(cache[cache.len() - 1] == out[i]);
            }
        }
    }
}

/// Invalidation keeps the cached pairs distinct.
proof fn lemma_invalidated_keeps_unique(
    cache: Seq<((String, String), RdbTbMeta)>,
    schema: Seq<char>,
    tb: Seq<char>,
)
    requires
        cache_keys_unique(cache),
    ensures
        cache_keys_unique(invalidated_cache(cache, schema, tb)),
    decreases cache.len(),
{
    reveal(Seq::filter);
    if cache.len() > 0 {
        assert(cache_keys_unique(cache.drop_last())) by {
            assert(forall|i: int|
                0 <= i < cache.drop_last().len() ==> #[trigger] cache.drop_last()[i] == cache[i]);
        }
        lemma_invalidated_keeps_unique(cache.drop_last(), schema, tb);
        lemma_invalidated_subset(cache.drop_last(), schema, tb);
        let out = invalidated_cache(cache, schema, tb);
        let sub = invalidated_cache(cache.drop_last(), schema, tb);
        if out.len() > sub.len() {
            assert(out =~= sub.push(cache.last()));
            assert forall|i: int, j: int|
                0 <= i < j < out.len() implies !((#[trigger] out[i]).0.0@ == (
            #[trigger] out[j]).0.0@ && out[i].0.1@ == out[j].0.1@) by {
                if j == out.len() - 1 {
                    assert(out[j] == cache.last());
                    assert(out[i] == sub[i]);
                    assert(cache.drop_last().contains(sub[i]));
                    let q = choose|q: int|
                        0 <= q < cache.drop_last().len() && cache.drop_last()[q] == sub[i];
                    assert(cache[q] == out[i]);
                    assert(!(cache[q].0.0@ == cache[cache.len() - 1].0.0@ && cache[q].0.1@
                        == cache[cache.len() - 1].0.1@));
                } else {
                    assert(out[i] == sub[i] && out[j] == sub[j]);
                }
            }
        } else {
            assert(out =~= sub);
        }
    }
}

/// The cache after one DDL event: its identifying pair invalidated, and
/// for a rename the stale target entry too.
pub open spec fn cache_after_ddl(
    cache: Seq<((String, String), RdbTbMeta)>,
    ddl: DdlData,
) -> Seq<((String, String), RdbTbMeta)> {
    let pair = ddl.statement.schema_tb_spec();
    let target = ddl.statement.rename_to_schema_tb_spec();
    let cache1 = invalidated_cache(cache, pair.0, pair.1);
    if target.1.len() > 0 {
        invalidated_cache(cache1, target.0, target.1)
    } else {
        cache1
    }
}

/// The cache after a run of DDL events, applied in order from index `i`.
pub open spec fn cache_after_ddls(
    cache: Seq<((String, String), RdbTbMeta)>,
    ddls: Seq<DdlData>,
    i: int,
) -> Seq<((String, String), RdbTbMeta)>
    decreases ddls.len() - i,
{
    if i < 0 || i >= ddls.len() {
        cache
    } else {
        cache_after_ddls(cache_after_ddl(cache, ddls[i]), ddls, i + 1)
    }
}

/// The read-through cache of table views for one dialect.
#[derive(Clone, Debug, PartialEq)]
pub struct RdbMetaManager {
    pub db_type: DbType,
    pub cache: Vec<((String, String), RdbTbMeta)>,
}

impl RdbMetaManager {
    /// No (schema, table) pair is cached twice. `new` establishes this;
    /// `insert_tb_meta` and invalidation preserve it.
    pub open spec fn wf(&self) -> bool {
        cache_keys_unique(self.cache@)
    }

    pub fn new(db_type: DbType) -> (r: Self)
        ensures
            r.db_type == db_type,
            r.cache@.len() == 0,
            r.wf(),
    {
        RdbMetaManager { db_type, cache: Vec::new() }
    }

    pub open spec fn has_tb_meta(&self, schema: Seq<char>, tb: Seq<char>) -> bool {
        cache_index_of(self.cache@, schema, tb) < self.cache@.len()
    }

    pub open spec fn spec_tb_meta(&self, schema: Seq<char>, tb: Seq<char>) -> RdbTbMeta {
        self.cache@[cache_index_of(self.cache@, schema, tb)].1
    }

    /// The cached view of `(schema, tb)`, if the cache holds one.
    pub fn get_tb_meta(&self, schema: &str, tb: &str) -> (r: Option<&RdbTbMeta>)
        ensures
            match r {
                Some(m) => self.has_tb_meta(schema@, tb@) && *m == self.spec_tb_meta(schema@, tb@),
                None => !self.has_tb_meta(schema@, tb@),
            },
    {
        proof {
            lemma_cache_index_of(self.cache@, schema@, tb@);
        }
        let mut i: usize = 0;
        while i < self.cache.len()
            invariant
                i <= self.cache@.len(),
                forall|k: int|
                    0 <= k < i ==> !((#[trigger] self.cache@[k]).0.0@ == schema@
                        && self.cache@[k].0.1@ == tb@),
            decreases self.cache@.len() - i,
        {
            if string_eq_str(&self.cache[i].0.0, schema) && string_eq_str(&self.cache[i].0.1, tb) {
                proof {
                    lemma_cache_index_of(self.cache@, schema@, tb@);
                    assert(cache_index_of(self.cache@, schema@, tb@) == i as int) by {
                        if cache_index_of(self.cache@, schema@, tb@) < i as int {
                            assert(self.cache@[cache_index_of(self.cache@, schema@, tb@)].0.0@
                                == schema@);
                        }
                    }
                }
                return Some(&self.cache[i].1);
            }
            i = i + 1;
        }
        proof {
            lemma_cache_index_of(self.cache@, schema@, tb@);
        }
        None
    }

    /// Record the fetched view of a table: replaces a cached entry for the
    /// pair, or appends one.
    pub fn insert_tb_meta(&mut self, schema: String, tb: String, meta: RdbTbMeta)
        ensures
            ({
                let idx = cache_index_of(old(self).cache@, schema@, tb@);
                &&& final(self).db_type == old(self).db_type
                &&& if idx < old(self).cache@.len() {
                    final(self).cache@ == old(self).cache@.update(idx, ((schema, tb), meta))
                } else {
                    final(self).cache@ == old(self).cache@.push(((schema, tb), meta))
                }
            }),
            old(self).wf() ==> final(self).wf(),
    {
        proof {
            lemma_cache_index_of(self.cache@, schema@, tb@);
        }
        let mut i: usize = 0;
        while i < self.cache.len()
            invariant
                i <= self.cache@.len(),
                *self == *old(self),
                forall|k: int|
                    0 <= k < i ==> !((#[trigger] self.cache@[k]).0.0@ == schema@
                        && self.cache@[k].0.1@ == tb@),
            decreases self.cache@.len() - i,
        {
            if string_eq_str(&self.cache[i].0.0, schema.as_str()) && string_eq_str(
                &self.cache[i].0.1,
                tb.as_str(),
            ) {
                proof {
                    lemma_cache_index_of(self.cache@, schema@, tb@);
                    assert(cache_index_of(self.cache@, schema@, tb@) == i as int) by {
                        if cache_index_of(self.cache@, schema@, tb@) < i as int {
                            assert(self.cache@[cache_index_of(self.cache@, schema@, tb@)].0.0@
                                == schema@);
                        }
                    }
                }
                self.cache.set(i, ((schema, tb), meta));
                return ;
            }
            i = i + 1;
        }
        proof {
            lemma_cache_index_of(self.cache@, schema@, tb@);
        }
        self.cache.push(((schema, tb), meta));
    }

    /// Drop what the identifying pair of this DDL event invalidates, and
    /// for a rename also the stale target entry.
    pub fn invalidate_cache_by_ddl_data(&mut self, ddl_data: &DdlData)
        ensures
            final(self).db_type == old(self).db_type,
            final(self).cache@ == cache_after_ddl(old(self).cache@, *ddl_data),
            old(self).wf() ==> final(self).wf(),
    {
        let ghost orig = self.cache@;
        let (schema, tb) = ddl_data.statement.get_schema_tb();
        drop_invalidated(&mut self.cache, schema.as_str(), tb.as_str());
        let (new_schema, new_tb) = ddl_data.statement.get_rename_to_schema_tb();
        if !new_tb.as_str().is_empty() {
            drop_invalidated(&mut self.cache, new_schema.as_str(), new_tb.as_str());
        }
        proof {
            if cache_keys_unique(orig) {
                let pair = ddl_data.statement.schema_tb_spec();
                let target = ddl_data.statement.rename_to_schema_tb_spec();
                lemma_invalidated_keeps_unique(orig, pair.0, pair.1);
                if target.1.len() > 0 {
                    lemma_invalidated_keeps_unique(
                        invalidated_cache(orig, pair.0, pair.1),
                        target.0,
                        target.1,
                    );
                }
            }
        }
    }
}

proof fn lemma_invalidated_snoc(
    s: Seq<((String, String), RdbTbMeta)>,
    x: ((String, String), RdbTbMeta),
    schema: Seq<char>,
    tb: Seq<char>,
)
    ensures
        invalidated_cache(s.push(x), schema, tb) == if (if tb.len() == 0 {
            x.0.0@ != schema
        } else {
            !(x.0.0@ == schema && x.0.1@ == tb)
        }) {
            invalidated_cache(s, schema, tb).push(x)
        } else {
            invalidated_cache(s, schema, tb)
        },
{
    reveal(Seq::filter);
    assert(s.push(x).drop_last() =~= s);
    assert(s.push(x).last() == x);
}

/// Remove the cache entries that a DDL on `(schema, tb)` invalidates.
fn drop_invalidated(cache: &mut Vec<((String, String), RdbTbMeta)>, schema: &str, tb: &str)
    ensures
        final(cache)@ == invalidated_cache(old(cache)@, schema@, tb@),
{
    let ghost orig = cache@;
    let drop_whole_schema = tb.is_empty();
    let mut i: usize = 0;
    let ghost mut j: int = 0;
    proof {
        reveal(Seq::filter);
        assert(orig.subrange(0, 0).filter(
            |e: ((String, String), RdbTbMeta)| e.0.0@ != schema@,
        ) =~= Seq::<((String, String), RdbTbMeta)>::empty());
        assert(orig.subrange(0, 0).filter(
            |e: ((String, String), RdbTbMeta)| !(e.0.0@ == schema@ && e.0.1@ == tb@),
        ) =~= Seq::<((String, String), RdbTbMeta)>::empty());
        assert(orig.subrange(0, orig.len() as int) =~= orig);
        assert(cache@ =~= invalidated_cache(orig.subrange(0, j), schema@, tb@) + orig.subrange(
            j,
            orig.len() as int,
        ));
    }
    while i < cache.len()
        invariant
            0 <= j <= orig.len(),
            drop_whole_schema == (tb@.len() == 0),
            i as int == invalidated_cache(orig.subrange(0, j), schema@, tb@).len(),
            cache@ == invalidated_cache(orig.subrange(0, j), schema@, tb@) + orig.subrange(
                j,
                orig.len() as int,
            ),
        decreases orig.len() - j,
    {
        let ghost kept = invalidated_cache(orig.subrange(0, j), schema@, tb@);
        let ghost cur = orig[j];
        proof {
            assert(cache@[i as int] == orig.subrange(j, orig.len() as int)[0]);
            assert(cache@[i as int] == cur);
            assert(orig.subrange(0, j + 1).drop_last() =~= orig.subrange(0, j));
            assert(orig.subrange(0, j + 1).last() == cur);
            assert(orig.subrange(j + 1, orig.len() as int) =~= orig.subrange(
                j,
                orig.len() as int,
            ).drop_first());
        }
        let keep = if drop_whole_schema {
            !string_eq_str(&cache[i].0.0, schema)
        } else {
            !(string_eq_str(&cache[i].0.0, schema) && string_eq_str(&cache[i].0.1, tb))
        };
        proof {
            assert(orig.subrange(0, j + 1) =~= orig.subrange(0, j).push(cur));
            lemma_invalidated_snoc(orig.subrange(0, j), cur, schema@, tb@);
        }
        if keep {
            proof {
                assert(invalidated_cache(orig.subrange(0, j + 1), schema@, tb@) == kept.push(
                    cur,
                ));
                assert(cache@ =~= kept.push(cur) + orig.subrange(j + 1, orig.len() as int));
            }
            i = i + 1;
        } else {
            cache.remove(i);
            proof {
                assert(invalidated_cache(orig.subrange(0, j + 1), schema@, tb@) == kept);
                assert(cache@ =~= kept + orig.subrange(j + 1, orig.len() as int));
            }
        }
        proof {
            j = j + 1;
        }
    }
    proof {
        assert(orig.subrange(j, orig.len() as int).len() == 0);
        assert(j == orig.len());
        assert(orig.subrange(0, j) =~= orig);
        assert(cache@ =~= invalidated_cache(orig, schema@, tb@));
    }
}

} // verus!
