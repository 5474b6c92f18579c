//! The vendor JSON-template encoder (CloudCanal shape): a row event
//! becomes `{action, bid, db, schema, table, ddl, entryType, execTs,
//! sendTs, sql, pks, before?, data?, dbValType?, jdbcType?}`, serialized
//! with the field keys in sorted order; a DDL event a fixed descriptive
//! object carrying the query.

use vstd::prelude::*;
use vstd::string::{StrSliceExecFns, StringExecFns};

use crate::chars::str_to_chars;
use crate::col_value::{col_value_to_vendor_json_value, col_value_vendor_json_text, str_lit_text};
use crate::db_type::DbType;
use crate::ddl_data::DdlData;
use crate::error::Error;
use crate::json_value::{
    int_text, json_text, lemma_arr_text_push, lemma_obj_text_push, obj_field_text, JsonVal,
};
use crate::rdb_meta_manager::{RdbMetaManager, RdbTbMeta};
use crate::row_data::{ColMap, RowData, RowType};
use crate::wallclock::now_millis;

verus! {

/// Result of `str::to_lowercase` on the characters of `s`; a function of
/// the characters alone.
pub uninterp spec fn lower_of(s: Seq<char>) -> Seq<char>;

/// Relies on str::to_lowercase: the lowercase mapping of the string,
/// which depends only on its characters.
#[verifier::external_body]
pub(crate) fn lowercase_str(s: &str) -> (r: String)
    ensures
        r@ == lower_of(s@),
{
    s.to_lowercase()
}

/// Does `n` occur contiguously in `h`?
pub open spec fn has_substring(h: Seq<char>, n: Seq<char>) -> bool {
    exists|i: int| 0 <= i <= h.len() - n.len() && #[trigger] h.subrange(i, i + n.len()) == n
}

fn sub_at(h: &Vec<char>, i: usize, needle: &str, n: usize) -> (r: bool)
    requires
        n == needle@.len(),
        i + n <= h@.len(),
    ensures
        r == (h@.subrange(i as int, i + needle@.len()) == needle@),
{
    let len = h.len();
    let mut k: usize = 0;
    while k < n
        invariant
            k <= n,
            n == needle@.len(),
            len == h@.len(),
            i + n <= len,
            forall|j: int| 0 <= j < k ==> h@[i + j] == needle@[j],
        decreases n - k,
    {
        if h[i + k] != needle.get_char(k) {
            proof {
                let s = h@.subrange(i as int, i + needle@.len());
                assert(s[k as int] == h@[i + k]);
                assert(s != needle@) by {
                    assert(s[k as int] != needle@[k as int]);
                }
            }
            return false;
        }
        k = k + 1;
    }
    proof {
        assert(h@.subrange(i as int, i + needle@.len()) =~= needle@);
    }
    true
}

/// Does the needle occur in these characters?
fn chars_contain(h: &Vec<char>, needle: &str) -> (r: bool)
    ensures
        r == has_substring(h@, needle@),
{
    let n = needle.unicode_len();
    if n > h.len() {
        return false;
    }
    if n == 0 {
        proof {
            assert(h@.subrange(0, 0 + needle@.len() as int) =~= needle@);
        }
        return true;
    }
    let len = h.len();
    let last = h.len() - n;
    let mut i: usize = 0;
    while i <= last
        invariant
            n == needle@.len(),
            1 <= n <= h@.len(),
            len == h@.len(),
            last == h@.len() - n,
            i <= last + 1,
            forall|j: int| 0 <= j < i ==> #[trigger] h@.subrange(j, j + needle@.len()) != needle@,
        decreases last + 1 - i,
    {
        if sub_at(h, i, needle, n) {
            return true;
        }
        i = i + 1;
    }
    false
}

/// The JDBC type code the template reports for a dialect type text
/// (already lowercased).
pub open spec fn jdbc_code(db_type: DbType, lower: Seq<char>) -> int {
    if has_substring(lower, "bigint"@) {
        -5
    } else if (match db_type {
        DbType::Pg => has_substring(lower, "integer"@),
        _ => has_substring(lower, "int"@),
    }) {
        4
    } else if has_substring(lower, "varchar"@) || has_substring(lower, "text"@) {
        12
    } else if (match db_type {
        DbType::Pg => has_substring(lower, "timestamp"@),
        _ => has_substring(lower, "timestamp"@) || has_substring(lower, "datetime"@),
    }) {
        93
    } else if has_substring(lower, "json"@) {
        1111
    } else {
        12
    }
}

/// The JDBC code of a type text, computed over its lowercase form.
fn jdbc_code_for(db_type: &DbType, lower: &String) -> (r: i64)
    ensures
        r as int == jdbc_code(*db_type, lower@),
{
    let chars = str_to_chars(lower.as_str());
    if chars_contain(&chars, "bigint") {
        -5
    } else if (match db_type {
        DbType::Pg => chars_contain(&chars, "integer"),
        _ => chars_contain(&chars, "int"),
    }) {
        4
    } else if chars_contain(&chars, "varchar") || chars_contain(&chars, "text") {
        12
    } else if (match db_type {
        DbType::Pg => chars_contain(&chars, "timestamp"),
        _ => chars_contain(&chars, "timestamp") || chars_contain(&chars, "datetime"),
    }) {
        93
    } else if chars_contain(&chars, "json") {
        1111
    } else {
        12
    }
}

/// The vendor action word of a mutation kind.
pub open spec fn action_text(t: RowType) -> Seq<char> {
    match t {
        RowType::Insert => "INSERT"@,
        RowType::Update => "UPDATE"@,
        RowType::Delete => "DELETE"@,
    }
}

/// The serialized text of the first `k` fields of a column map under the
/// vendor rendering, comma separated.
pub open spec fn vendor_col_fields_prefix(
    entries: Seq<(String, crate::col_value::ColValue)>,
    k: int,
) -> Seq<char>
    decreases k,
{
    if k <= 0 || k > entries.len() {
        Seq::<char>::empty()
    } else {
        let f = obj_field_text(entries[k - 1].0@, col_value_vendor_json_text(entries[k - 1].1));
        if k == 1 {
            f
        } else {
            vendor_col_fields_prefix(entries, k - 1) + seq![','] + f
        }
    }
}

/// A column map image as the template carries it: a one-element array
/// holding the column object.
pub open spec fn vendor_map_arr_text(m: ColMap) -> Seq<char> {
    seq!['[', '{'] + vendor_col_fields_prefix(m.entries@, m.entries@.len() as int) + seq!['}', ']']
}

fn vendor_map_array_value(m: &ColMap) -> (r: JsonVal)
    ensures
        json_text(r) == vendor_map_arr_text(*m),
{
    let mut fields: Vec<(String, JsonVal)> = Vec::new();
    let mut i: usize = 0;
    while i < m.entries.len()
        invariant
            i <= m.entries@.len(),
            fields@.len() == i,
            crate::json_value::obj_text(fields@) == vendor_col_fields_prefix(
                m.entries@,
                i as int,
            ),
        decreases m.entries@.len() - i,
    {
        let name = m.entries[i].0.clone();
        let value = col_value_to_vendor_json_value(&m.entries[i].1);
        proof {
            lemma_obj_text_push(fields@, (name, value));
        }
        fields.push((name, value));
        i = i + 1;
    }
    let obj = JsonVal::Obj(fields);
    let mut items: Vec<JsonVal> = Vec::new();
    items.push(obj);
    let r = JsonVal::Arr(items);
    proof {
        assert(items@.len() == 1);
        assert(items@[0] == obj);
        assert(crate::json_value::arr_text(items@) == json_text(obj));
        assert(json_text(r) =~= vendor_map_arr_text(*m));
    }
    r
}

/// The primary-key column names of the first `k`, quoted and comma
/// separated.
pub open spec fn pk_names_prefix(cols: Seq<String>, k: int) -> Seq<char>
    decreases k,
{
    if k <= 0 || k > cols.len() {
        Seq::<char>::empty()
    } else if k == 1 {
        str_lit_text(cols[0]@)
    } else {
        pk_names_prefix(cols, k - 1) + seq![','] + str_lit_text(cols[k - 1]@)
    }
}

/// The `pks` field: the primary-key column names, or an empty array.
pub open spec fn pks_text(meta_found: bool, meta: RdbTbMeta) -> Seq<char> {
    if meta_found && meta.has_key("primary"@) {
        let cols = meta.spec_key_cols("primary"@);
        seq!['['] + pk_names_prefix(cols, cols.len() as int) + seq![']']
    } else {
        seq!['[', ']']
    }
}

fn pks_value(meta: &RdbTbMeta) -> (r: JsonVal)
    ensures
        json_text(r) == pks_text(true, *meta),
{
    match meta.get_key_cols("primary") {
        Some(primary_key) => {
            let ghost cols = primary_key@;
            let mut items: Vec<JsonVal> = Vec::new();
            let mut i: usize = 0;
            while i < primary_key.len()
                invariant
                    i <= cols.len(),
                    primary_key@ == cols,
                    items@.len() == i,
                    crate::json_value::arr_text(items@) == pk_names_prefix(cols, i as int),
                decreases cols.len() - i,
            {
                let v = JsonVal::Str(primary_key[i].clone());
                proof {
                    lemma_arr_text_push(items@, v);
                }
                items.push(v);
                i = i + 1;
            }
            let r = JsonVal::Arr(items);
            proof {
                assert(json_text(r) =~= pks_text(true, *meta));
            }
            r
        }
        None => {
            let r = JsonVal::Arr(Vec::new());
            proof {
                assert(json_text(r) =~= pks_text(true, *meta));
            }
            r
        }
    }
}

/// How many of the first `k` columns carry an origin type.
pub open spec fn typed_count(cols: Seq<String>, k: int, meta: RdbTbMeta) -> int
    decreases k,
{
    if k <= 0 || k > cols.len() {
        0
    } else {
        typed_count(cols, k - 1, meta) + (if meta.has_col_type(cols[k - 1]@) {
            1int
        } else {
            0int
        })
    }
}

/// The `dbValType` fields of the first `k` columns: each typed column's
/// dialect type text.
pub open spec fn dbv_prefix(cols: Seq<String>, k: int, meta: RdbTbMeta) -> Seq<char>
    decreases k,
{
    if k <= 0 || k > cols.len() {
        Seq::<char>::empty()
    } else {
        let rest = dbv_prefix(cols, k - 1, meta);
        if meta.has_col_type(cols[k - 1]@) {
            let f = obj_field_text(cols[k - 1]@, str_lit_text(meta.spec_col_type(cols[k - 1]@)));
            if typed_count(cols, k - 1, meta) == 0 {
                f
            } else {
                rest + seq![','] + f
            }
        } else {
            rest
        }
    }
}

/// The `jdbcType` fields of the first `k` columns: each typed column's
/// JDBC code for the dialect.
pub open spec fn jdbc_prefix(cols: Seq<String>, k: int, meta: RdbTbMeta, db_type: DbType) -> Seq<
    char,
>
    decreases k,
{
    if k <= 0 || k > cols.len() {
        Seq::<char>::empty()
    } else {
        let rest = jdbc_prefix(cols, k - 1, meta, db_type);
        if meta.has_col_type(cols[k - 1]@) {
            let f = obj_field_text(
                cols[k - 1]@,
                int_text(jdbc_code(db_type, lower_of(meta.spec_col_type(cols[k - 1]@)))),
            );
            if typed_count(cols, k - 1, meta) == 0 {
                f
            } else {
                rest + seq![','] + f
            }
        } else {
            rest
        }
    }
}

/// The `dbValType` object: typed columns for the two SQL dialects, empty
/// otherwise.
pub open spec fn dbv_obj_text(meta: RdbTbMeta, db_type: DbType) -> Seq<char> {
    match db_type {
        DbType::Mysql => seq!['{'] + dbv_prefix(meta.cols@, meta.cols@.len() as int, meta)
            + seq!['}'],
        DbType::Pg => seq!['{'] + dbv_prefix(meta.cols@, meta.cols@.len() as int, meta)
            + seq!['}'],
        _ => seq!['{', '}'],
    }
}

/// The `jdbcType` object: JDBC codes for the two SQL dialects, empty
/// otherwise.
pub open spec fn jdbc_obj_text(meta: RdbTbMeta, db_type: DbType) -> Seq<char> {
    match db_type {
        DbType::Mysql => seq!['{'] + jdbc_prefix(
            meta.cols@,
            meta.cols@.len() as int,
            meta,
            db_type,
        ) + seq!['}'],
        DbType::Pg => seq!['{'] + jdbc_prefix(meta.cols@, meta.cols@.len() as int, meta, db_type)
            + seq!['}'],
        _ => seq!['{', '}'],
    }
}

fn dbv_value(meta: &RdbTbMeta, db_type: &DbType) -> (r: JsonVal)
    ensures
        json_text(r) == dbv_obj_text(*meta, *db_type),
{
    let mut fields: Vec<(String, JsonVal)> = Vec::new();
    let two_dialects = matches!(db_type, DbType::Mysql | DbType::Pg);
    if two_dialects {
        let mut i: usize = 0;
        while i < meta.cols.len()
            invariant
                i <= meta.cols@.len(),
                fields@.len() == typed_count(meta.cols@, i as int, *meta),
                crate::json_value::obj_text(fields@) == dbv_prefix(meta.cols@, i as int, *meta),
            decreases meta.cols@.len() - i,
        {
            match meta.get_col_origin_type(meta.cols[i].as_str()) {
                Some(origin_type) => {
                    let name = meta.cols[i].clone();
                    let v = JsonVal::Str(origin_type.clone());
                    proof {
                        lemma_obj_text_push(fields@, (name, v));
                    }
                    fields.push((name, v));
                }
                None => {}
            }
            i = i + 1;
        }
    }
    let r = JsonVal::Obj(fields);
    proof {
        assert(json_text(r) =~= dbv_obj_text(*meta, *db_type));
    }
    r
}

fn jdbc_value(meta: &RdbTbMeta, db_type: &DbType) -> (r: JsonVal)
    ensures
        json_text(r) == jdbc_obj_text(*meta, *db_type),
{
    let mut fields: Vec<(String, JsonVal)> = Vec::new();
    let two_dialects = matches!(db_type, DbType::Mysql | DbType::Pg);
    if two_dialects {
        let mut i: usize = 0;
        while i < meta.cols.len()
            invariant
                i <= meta.cols@.len(),
                fields@.len() == typed_count(meta.cols@, i as int, *meta),
                crate::json_value::obj_text(fields@) == jdbc_prefix(
                    meta.cols@,
                    i as int,
                    *meta,
                    *db_type,
                ),
            decreases meta.cols@.len() - i,
        {
            match meta.get_col_origin_type(meta.cols[i].as_str()) {
                Some(origin_type) => {
                    let name = meta.cols[i].clone();
                    let lower = lowercase_str(origin_type.as_str());
                    let code = jdbc_code_for(db_type, &lower);
                    let v = JsonVal::Int(code);
                    proof {
                        lemma_obj_text_push(fields@, (name, v));
                    }
                    fields.push((name, v));
                }
                None => {}
            }
            i = i + 1;
        }
    }
    let r = JsonVal::Obj(fields);
    proof {
        assert(json_text(r) =~= jdbc_obj_text(*meta, *db_type));
    }
    r
}

/// The leading fields of the template row payload: `action` through
/// `db`, with the images and `dbValType` where present.
pub open spec fn vendor_row_front_text(mm: Option<RdbMetaManager>, row: RowData) -> Seq<char> {
    let meta_found = mm is Some && mm->0.has_tb_meta(row.schema@, row.tb@);
    let meta = mm->0.spec_tb_meta(row.schema@, row.tb@);
    obj_field_text("action"@, str_lit_text(action_text(row.row_type))) + seq![','] + (
    match row.before {
        Some(b) => obj_field_text("before"@, vendor_map_arr_text(b)) + seq![','],
        None => Seq::<char>::empty(),
    }) + obj_field_text("bid"@, "0"@) + seq![','] + (match row.after {
        Some(a) => obj_field_text("data"@, vendor_map_arr_text(a)) + seq![','],
        None => Seq::<char>::empty(),
    }) + obj_field_text("db"@, str_lit_text(row.schema@)) + (if meta_found {
        seq![','] + obj_field_text("dbValType"@, dbv_obj_text(meta, mm->0.db_type))
    } else {
        Seq::<char>::empty()
    })
}

/// The trailing fields of the template row payload: `ddl` through
/// `table`, with `jdbcType` where the meta is cached.
pub open spec fn vendor_row_back_text(
    mm: Option<RdbMetaManager>,
    row: RowData,
    exec_ts: i64,
    send_ts: i64,
) -> Seq<char> {
    let meta_found = mm is Some && mm->0.has_tb_meta(row.schema@, row.tb@);
    let meta = mm->0.spec_tb_meta(row.schema@, row.tb@);
    obj_field_text("ddl"@, "false"@) + seq![','] + obj_field_text(
        "entryType"@,
        str_lit_text("ROWDATA"@),
    ) + seq![','] + obj_field_text("execTs"@, int_text(exec_ts as int)) + seq![','] + (
    if meta_found {
        obj_field_text("jdbcType"@, jdbc_obj_text(meta, mm->0.db_type)) + seq![',']
    } else {
        Seq::<char>::empty()
    }) + obj_field_text("pks"@, pks_text(meta_found, meta)) + seq![','] + obj_field_text(
        "schema"@,
        str_lit_text(row.schema@),
    ) + seq![','] + obj_field_text("sendTs"@, int_text(send_ts as int)) + seq![',']
        + obj_field_text("sql"@, "null"@) + seq![','] + obj_field_text(
        "table"@,
        str_lit_text(row.tb@),
    )
}

/// The template payload of a row event at the given timestamps, fields in
/// sorted key order: the two halves joined by one comma. `db` repeats the
/// schema; the image arrays and the type maps appear only when the event,
/// respectively the cached meta, carries them.
pub open spec fn vendor_row_json_text(
    mm: Option<RdbMetaManager>,
    row: RowData,
    exec_ts: i64,
    send_ts: i64,
) -> Seq<char> {
    seq!['{'] + vendor_row_front_text(mm, row) + seq![','] + vendor_row_back_text(
        mm,
        row,
        exec_ts,
        send_ts,
    ) + seq!['}']
}

/// The template payload of a DDL event at the given timestamps: a fixed
/// object with empty images and type maps, carrying the query as `sql`.
pub open spec fn vendor_ddl_json_text(ddl: DdlData, exec_ts: i64, send_ts: i64) -> Seq<char> {
    seq!['{'] + obj_field_text("action"@, str_lit_text("DDL"@)) + seq![','] + obj_field_text(
        "before"@,
        seq!['[', ']'],
    ) + seq![','] + obj_field_text("bid"@, "0"@) + seq![','] + obj_field_text(
        "data"@,
        seq!['[', ']'],
    ) + seq![','] + obj_field_text("db"@, str_lit_text(ddl.default_schema@)) + seq![',']
        + obj_field_text("dbValType"@, seq!['{', '}']) + seq![','] + obj_field_text(
        "ddl"@,
        "true"@,
    ) + seq![','] + obj_field_text("entryType"@, str_lit_text("DDL"@)) + seq![',']
        + obj_field_text("execTs"@, int_text(exec_ts as int)) + seq![','] + obj_field_text(
        "jdbcType"@,
        seq!['{', '}'],
    ) + seq![','] + obj_field_text("pks"@, seq!['[', ']']) + seq![','] + obj_field_text(
        "schema"@,
        str_lit_text(ddl.default_schema@),
    ) + seq![','] + obj_field_text("sendTs"@, int_text(send_ts as int)) + seq![',']
        + obj_field_text("sql"@, str_lit_text(ddl.query@)) + seq![','] + obj_field_text(
        "table"@,
        str_lit_text(Seq::<char>::empty()),
    ) + seq!['}']
}

/// The vendor template's row key: primary-key values under the vendor
/// rendering, or `schema_tb`.
pub open spec fn vendor_key_items_count(
    cols: Seq<String>,
    k: int,
    after: Option<ColMap>,
) -> int
    decreases k,
{
    if k <= 0 || k > cols.len() {
        0
    } else {
        vendor_key_items_count(cols, k - 1, after) + (match after {
            Some(m) => if m.contains_col(cols[k - 1]@) {
                1int
            } else {
                0int
            },
            None => 0int,
        })
    }
}

pub open spec fn vendor_key_prefix_text(
    cols: Seq<String>,
    k: int,
    after: Option<ColMap>,
) -> Seq<char>
    decreases k,
{
    if k <= 0 || k > cols.len() {
        Seq::<char>::empty()
    } else {
        let rest = vendor_key_prefix_text(cols, k - 1, after);
        match after {
            Some(m) => {
                if m.contains_col(cols[k - 1]@) {
                    let t = col_value_vendor_json_text(m.spec_value_of(cols[k - 1]@));
                    if vendor_key_items_count(cols, k - 1, after) == 0 {
                        t
                    } else {
                        rest + seq![','] + t
                    }
                } else {
                    rest
                }
            },
            None => rest,
        }
    }
}

pub open spec fn vendor_row_key_text(mm: Option<RdbMetaManager>, row: RowData) -> Seq<char> {
    match mm {
        Some(m) => {
            if m.has_tb_meta(row.schema@, row.tb@) && m.spec_tb_meta(row.schema@, row.tb@).has_key(
                "primary"@,
            ) {
                let cols = m.spec_tb_meta(row.schema@, row.tb@).spec_key_cols("primary"@);
                seq!['['] + vendor_key_prefix_text(cols, cols.len() as int, row.after) + seq![']']
            } else {
                row.schema@ + "_"@ + row.tb@
            }
        },
        None => row.schema@ + "_"@ + row.tb@,
    }
}

#[derive(Clone, Debug, PartialEq)]
pub struct CloudCanalConverter {
    pub meta_manager: Option<RdbMetaManager>,
}

impl CloudCanalConverter {
    pub fn new(meta_manager: Option<RdbMetaManager>) -> (r: Self)
        ensures
            r.meta_manager == meta_manager,
    {
        CloudCanalConverter { meta_manager }
    }

    /// Invalidate the cached meta for each DDL event, in order.
    pub fn refresh_meta(&mut self, data: &[DdlData])
        ensures
            match old(self).meta_manager {
                Some(m0) => {
                    &&& final(self).meta_manager matches Some(m1)
                    &&& final(self).meta_manager->0.db_type == m0.db_type
                    &&& final(self).meta_manager->0.cache@
                        == crate::rdb_meta_manager::cache_after_ddls(m0.cache@, data@, 0)
                },
                None => *final(self) == *old(self),
            },
    {
        match &mut self.meta_manager {
            Some(meta_manager) => {
                let ghost orig = meta_manager.cache@;
                let ghost db_type0 = meta_manager.db_type;
                let mut i: usize = 0;
                while i < data.len()
                    invariant
                        i <= data@.len(),
                        meta_manager.db_type == db_type0,
                        crate::rdb_meta_manager::cache_after_ddls(orig, data@, 0)
                            == crate::rdb_meta_manager::cache_after_ddls(
                            meta_manager.cache@,
                            data@,
                            i as int,
                        ),
                    decreases data@.len() - i,
                {
                    meta_manager.invalidate_cache_by_ddl_data(&data[i]);
                    i = i + 1;
                }
            }
            None => {}
        }
    }

    /// The message key of a row event under the vendor rendering.
    pub fn row_data_to_json_key(&self, row_data: &RowData) -> (r: Result<String, Error>)
        ensures
            match r {
                Ok(key) => key@ == vendor_row_key_text(self.meta_manager, *row_data),
                Err(_) => false,
            },
    {
        match &self.meta_manager {
            Some(meta_manager) => {
                match meta_manager.get_tb_meta(row_data.schema.as_str(), row_data.tb.as_str()) {
                    Some(tb_meta) => {
                        match tb_meta.get_key_cols("primary") {
                            Some(primary_key) => {
                                let ghost cols = primary_key@;
                                let mut key_values: Vec<JsonVal> = Vec::new();
                                let mut i: usize = 0;
                                while i < primary_key.len()
                                    invariant
                                        i <= cols.len(),
                                        primary_key@ == cols,
                                        key_values@.len() == vendor_key_items_count(
                                            cols,
                                            i as int,
                                            row_data.after,
                                        ),
                                        crate::json_value::arr_text(key_values@)
                                            == vendor_key_prefix_text(
                                            cols,
                                            i as int,
                                            row_data.after,
                                        ),
                                    decreases cols.len() - i,
                                {
                                    let col_value = match &row_data.after {
                                        Some(after) => after.get(primary_key[i].as_str()),
                                        None => Option::None,
                                    };
                                    match col_value {
                                        Some(value) => {
                                            let jv = col_value_to_vendor_json_value(value);
                                            proof {
                                                lemma_arr_text_push(key_values@, jv);
                                            }
                                            key_values.push(jv);
                                        }
                                        None => {}
                                    }
                                    i = i + 1;
                                }
                                let arr = JsonVal::Arr(key_values);
                                let text = arr.to_json_string();
                                proof {
                                    assert(text@ =~= vendor_row_key_text(
                                        self.meta_manager,
                                        *row_data,
                                    ));
                                }
                                Ok(text)
                            }
                            None => Ok(vendor_fallback_key(row_data)),
                        }
                    }
                    None => Ok(vendor_fallback_key(row_data)),
                }
            }
            None => Ok(vendor_fallback_key(row_data)),
        }
    }

    /// The template payload of a row event, stamped with the wall clock.
    pub fn row_data_to_json_value(&self, row_data: RowData) -> (r: Result<String, Error>)
        ensures
            match r {
                Ok(text) => exists|t1: i64, t2: i64|
                    text@ == vendor_row_json_text(self.meta_manager, row_data, t1, t2),
                Err(_) => false,
            },
    {
        let exec_ts = now_millis();
        let send_ts = now_millis();
        self.row_data_to_json_value_at(row_data, exec_ts, send_ts)
    }

    /// The leading half of the payload fields: `action` through `db` and
    /// `dbValType`.
    #[verifier::spinoff_prover]
    #[verifier::rlimit(100)]
    fn vendor_row_front_fields(&self, row_data: &RowData) -> (fields: Vec<(String, JsonVal)>)
        ensures
            fields@.len() > 0,
            crate::json_value::obj_text(fields@) == vendor_row_front_text(
                self.meta_manager,
                *row_data,
            ),
    {
        let mut fields: Vec<(String, JsonVal)> = Vec::new();
        let action = match row_data.row_type {
            RowType::Insert => String::from_str("INSERT"),
            RowType::Update => String::from_str("UPDATE"),
            RowType::Delete => String::from_str("DELETE"),
        };
        let name_action = String::from_str("action");
        let action_v = JsonVal::Str(action);
        proof {
            lemma_obj_text_push(fields@, (name_action, action_v));
        }
        fields.push((name_action, action_v));
        match &row_data.before {
            Some(before) => {
                let v = vendor_map_array_value(before);
                let name = String::from_str("before");
                proof {
                    lemma_obj_text_push(fields@, (name, v));
                }
                fields.push((name, v));
            }
            None => {}
        }
        let name_bid = String::from_str("bid");
        proof {
            reveal_strlit("0");
            assert(json_text(JsonVal::Uint(0)) =~= "0"@);
            lemma_obj_text_push(fields@, (name_bid, JsonVal::Uint(0)));
        }
        fields.push((name_bid, JsonVal::Uint(0)));
        match &row_data.after {
            Some(after) => {
                let v = vendor_map_array_value(after);
                let name = String::from_str("data");
                proof {
                    lemma_obj_text_push(fields@, (name, v));
                }
                fields.push((name, v));
            }
            None => {}
        }
        let name_db = String::from_str("db");
        let db_v = JsonVal::Str(row_data.schema.clone());
        proof {
            lemma_obj_text_push(fields@, (name_db, db_v));
        }
        fields.push((name_db, db_v));
        match &self.meta_manager {
            Some(meta_manager) => {
                match meta_manager.get_tb_meta(row_data.schema.as_str(), row_data.tb.as_str()) {
                    Some(tb_meta) => {
                        let v = dbv_value(tb_meta, &meta_manager.db_type);
                        let name = String::from_str("dbValType");
                        proof {
                            lemma_obj_text_push(fields@, (name, v));
                        }
                        fields.push((name, v));
                    }
                    None => {}
                }
            }
            None => {}
        }
        proof {
            assert(crate::json_value::obj_text(fields@) =~= vendor_row_front_text(
                self.meta_manager,
                *row_data,
            ));
        }
        fields
    }

    /// The template payload of a row event at the given timestamps.
    #[verifier::spinoff_prover]
    #[verifier::rlimit(100)]
    pub fn row_data_to_json_value_at(&self, row_data: RowData, exec_ts: i64, send_ts: i64) -> (r:
        Result<String, Error>)
        ensures
            match r {
                Ok(text) => text@ == vendor_row_json_text(
                    self.meta_manager,
                    row_data,
                    exec_ts,
                    send_ts,
                ),
                Err(_) => false,
            },
    {
        let mut fields = self.vendor_row_front_fields(&row_data);
        let ghost front = vendor_row_front_text(self.meta_manager, row_data);
        let name_ddl = String::from_str("ddl");
        proof {
            lemma_obj_text_push(fields@, (name_ddl, JsonVal::Bool(false)));
        }
        fields.push((name_ddl, JsonVal::Bool(false)));
        let name_entry = String::from_str("entryType");
        let entry_v = JsonVal::Str(String::from_str("ROWDATA"));
        proof {
            lemma_obj_text_push(fields@, (name_entry, entry_v));
        }
        fields.push((name_entry, entry_v));
        let name_exec = String::from_str("execTs");
        let exec_v = JsonVal::Int(exec_ts);
        proof {
            lemma_obj_text_push(fields@, (name_exec, exec_v));
        }
        fields.push((name_exec, exec_v));
        let cached_meta = match &self.meta_manager {
            Some(meta_manager) => meta_manager.get_tb_meta(
                row_data.schema.as_str(),
                row_data.tb.as_str(),
            ),
            None => Option::None,
        };
        match cached_meta {
            Some(tb_meta) => {
                let db_type = match &self.meta_manager {
                    Some(meta_manager) => meta_manager.db_type,
                    None => DbType::Mysql,
                };
                let v = jdbc_value(tb_meta, &db_type);
                let name = String::from_str("jdbcType");
                proof {
                    lemma_obj_text_push(fields@, (name, v));
                }
                fields.push((name, v));
            }
            None => {}
        }
        let pks_v = match cached_meta {
            Some(tb_meta) => pks_value(tb_meta),
            None => JsonVal::Arr(Vec::new()),
        };
        let name_pks = String::from_str("pks");
        proof {
            lemma_obj_text_push(fields@, (name_pks, pks_v));
        }
        fields.push((name_pks, pks_v));
        let name_schema = String::from_str("schema");
        let schema_v = JsonVal::Str(row_data.schema.clone());
        proof {
            lemma_obj_text_push(fields@, (name_schema, schema_v));
        }
        fields.push((name_schema, schema_v));
        let name_send = String::from_str("sendTs");
        let send_v = JsonVal::Int(send_ts);
        proof {
            lemma_obj_text_push(fields@, (name_send, send_v));
        }
        fields.push((name_send, send_v));
        let name_sql = String::from_str("sql");
        proof {
            lemma_obj_text_push(fields@, (name_sql, JsonVal::Null));
        }
        fields.push((name_sql, JsonVal::Null));
        let name_table = String::from_str("table");
        let table_v = JsonVal::Str(row_data.tb.clone());
        proof {
            lemma_obj_text_push(fields@, (name_table, table_v));
        }
        fields.push((name_table, table_v));
        let obj = JsonVal::Obj(fields);
        let text = obj.to_json_string();
        proof {
            assert(crate::json_value::obj_text(fields@) =~= front + seq![',']
                + vendor_row_back_text(self.meta_manager, row_data, exec_ts, send_ts));
            assert(text@ =~= vendor_row_json_text(self.meta_manager, row_data, exec_ts, send_ts));
        }
        Ok(text)
    }

    /// The template payload of a DDL event, stamped with the wall clock.
    pub fn ddl_data_to_json_value(&self, ddl_data: DdlData) -> (r: Result<String, Error>)
        ensures
            match r {
                Ok(text) => exists|t1: i64, t2: i64|
                    text@ == vendor_ddl_json_text(ddl_data, t1, t2),
                Err(_) => false,
            },
    {
        let exec_ts = now_millis();
        let send_ts = now_millis();
        self.ddl_data_to_json_value_at(ddl_data, exec_ts, send_ts)
    }

    /// The template payload of a DDL event at the given timestamps.
    #[verifier::spinoff_prover]
    #[verifier::rlimit(100)]
    pub fn ddl_data_to_json_value_at(&self, ddl_data: DdlData, exec_ts: i64, send_ts: i64) -> (r:
        Result<String, Error>)
        ensures
            match r {
                Ok(text) => text@ == vendor_ddl_json_text(ddl_data, exec_ts, send_ts),
                Err(_) => false,
            },
    {
        let mut fields: Vec<(String, JsonVal)> = Vec::new();
        let name_action = String::from_str("action");
        let action_v = JsonVal::Str(String::from_str("DDL"));
        proof {
            lemma_obj_text_push(fields@, (name_action, action_v));
        }
        fields.push((name_action, action_v));
        let name_before = String::from_str("before");
        let before_v = JsonVal::Arr(Vec::new());
        proof {
            lemma_obj_text_push(fields@, (name_before, before_v));
        }
        fields.push((name_before, before_v));
        let name_bid = String::from_str("bid");
        proof {
            reveal_strlit("0");
            assert(json_text(JsonVal::Uint(0)) =~= "0"@);
            lemma_obj_text_push(fields@, (name_bid, JsonVal::Uint(0)));
        }
        fields.push((name_bid, JsonVal::Uint(0)));
        let name_data = String::from_str("data");
        let data_v = JsonVal::Arr(Vec::new());
        proof {
            lemma_obj_text_push(fields@, (name_data, data_v));
        }
        fields.push((name_data, data_v));
        let name_db = String::from_str("db");
        let db_v = JsonVal::Str(ddl_data.default_schema.clone());
        proof {
            lemma_obj_text_push(fields@, (name_db, db_v));
        }
        fields.push((name_db, db_v));
        let name_dbv = String::from_str("dbValType");
        let dbv_v = JsonVal::Obj(Vec::new());
        proof {
            lemma_obj_text_push(fields@, (name_dbv, dbv_v));
        }
        fields.push((name_dbv, dbv_v));
        let name_ddl = String::from_str("ddl");
        proof {
            lemma_obj_text_push(fields@, (name_ddl, JsonVal::Bool(true)));
        }
        fields.push((name_ddl, JsonVal::Bool(true)));
        let name_entry = String::from_str("entryType");
        let entry_v = JsonVal::Str(String::from_str("DDL"));
        proof {
            lemma_obj_text_push(fields@, (name_entry, entry_v));
        }
        fields.push((name_entry, entry_v));
        let name_exec = String::from_str("execTs");
        let exec_v = JsonVal::Int(exec_ts);
        proof {
            lemma_obj_text_push(fields@, (name_exec, exec_v));
        }
        fields.push((name_exec, exec_v));
        let name_jdbc = String::from_str("jdbcType");
        let jdbc_v = JsonVal::Obj(Vec::new());
        proof {
            lemma_obj_text_push(fields@, (name_jdbc, jdbc_v));
        }
        fields.push((name_jdbc, jdbc_v));
        let name_pks = String::from_str("pks");
        let pks_v = JsonVal::Arr(Vec::new());
        proof {
            lemma_obj_text_push(fields@, (name_pks, pks_v));
        }
        fields.push((name_pks, pks_v));
        let name_schema = String::from_str("schema");
        let schema_v = JsonVal::Str(ddl_data.default_schema.clone());
        proof {
            lemma_obj_text_push(fields@, (name_schema, schema_v));
        }
        fields.push((name_schema, schema_v));
        let name_send = String::from_str("sendTs");
        let send_v = JsonVal::Int(send_ts);
        proof {
            lemma_obj_text_push(fields@, (name_send, send_v));
        }
        fields.push((name_send, send_v));
        let name_sql = String::from_str("sql");
        let sql_v = JsonVal::Str(ddl_data.query.clone());
        proof {
            lemma_obj_text_push(fields@, (name_sql, sql_v));
        }
        fields.push((name_sql, sql_v));
        let name_table = String::from_str("table");
        let table_v = JsonVal::Str(String::new());
        proof {
            lemma_obj_text_push(fields@, (name_table, table_v));
        }
        fields.push((name_table, table_v));
        let obj = JsonVal::Obj(fields);
        let text = obj.to_json_string();
        proof {
            assert(text@ =~= vendor_ddl_json_text(ddl_data, exec_ts, send_ts));
        }
        Ok(text)
    }
}

/// The unkeyed fallback: `schema_tb`.
fn vendor_fallback_key(row_data: &RowData) -> (r: String)
    ensures
        r@ == row_data.schema@ + "_"@ + row_data.tb@,
{
    let mut r = row_data.schema.clone();
    r.append("_");
    r.append(row_data.tb.as_str());
    r
}

} // verus!
