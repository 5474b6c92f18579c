//! The generic JSON encoder: a row event becomes
//! `{operation, schema, tb, before?, after?}` (fields in sorted key
//! order), a DDL event a small descriptive object, and the row key the
//! JSON array of its primary-key values, with `schema_tb` as fallback.

use vstd::prelude::*;
use vstd::string::StringExecFns;

use crate::col_value::{col_value_json_text, col_value_to_json_value, str_lit_text, ColValue};
use crate::ddl_data::DdlData;
use crate::error::Error;
use crate::json_value::{
    json_text, lemma_arr_text_push, lemma_obj_text_push, obj_field_text, JsonVal,
};
use crate::rdb_meta_manager::RdbMetaManager;
use crate::row_data::{ColMap, RowData};

verus! {

/// The serialized text of the first `k` fields of a column map, comma
/// separated.
pub open spec fn col_fields_prefix(entries: Seq<(String, ColValue)>, k: int) -> Seq<char>
    decreases k,
{
    if k <= 0 || k > entries.len() {
        Seq::<char>::empty()
    } else {
        let f = obj_field_text(entries[k - 1].0@, col_value_json_text(entries[k - 1].1));
        if k == 1 {
            f
        } else {
            col_fields_prefix(entries, k - 1) + seq![','] + f
        }
    }
}

/// A column map as a JSON object, fields in stored order.
pub open spec fn col_map_json_text(m: ColMap) -> Seq<char> {
    seq!['{'] + col_fields_prefix(m.entries@, m.entries@.len() as int) + seq!['}']
}

/// A column map as a JSON object value.
pub fn col_values_to_json_value(col_values: &ColMap) -> (r: JsonVal)
    ensures
        json_text(r) == col_map_json_text(*col_values),
{
    let mut fields: Vec<(String, JsonVal)> = Vec::new();
    let mut i: usize = 0;
    while i < col_values.entries.len()
        invariant
            i <= col_values.entries@.len(),
            fields@.len() == i,
            crate::json_value::obj_text(fields@) == col_fields_prefix(
                col_values.entries@,
                i as int,
            ),
        decreases col_values.entries@.len() - i,
    {
        let name = col_values.entries[i].0.clone();
        let value = col_value_to_json_value(&col_values.entries[i].1);
        proof {
            lemma_obj_text_push(fields@, (name, value));
        }
        fields.push((name, value));
        i = i + 1;
    }
    let r = JsonVal::Obj(fields);
    proof {
        assert(json_text(r) =~= col_map_json_text(*col_values));
    }
    r
}

/// The number of primary-key columns among the first `k` that the
/// post-image holds.
pub open spec fn key_items_count(cols: Seq<String>, k: int, after: Option<ColMap>) -> int
    decreases k,
{
    if k <= 0 || k > cols.len() {
        0
    } else {
        key_items_count(cols, k - 1, after) + (match after {
            Some(m) => if m.contains_col(cols[k - 1]@) {
                1int
            } else {
                0int
            },
            None => 0int,
        })
    }
}

/// The serialized texts of those values, comma separated.
pub open spec fn key_prefix_text(cols: Seq<String>, k: int, after: Option<ColMap>) -> Seq<char>
    decreases k,
{
    if k <= 0 || k > cols.len() {
        Seq::<char>::empty()
    } else {
        let rest = key_prefix_text(cols, k - 1, after);
        match after {
            Some(m) => {
                if m.contains_col(cols[k - 1]@) {
                    let t = col_value_json_text(m.spec_value_of(cols[k - 1]@));
                    if key_items_count(cols, k - 1, after) == 0 {
                        t
                    } else {
                        rest + seq![','] + t
                    }
                } else {
                    rest
                }
            },
            None => rest,
        }
    }
}

/// What the row key is: the JSON array of the primary-key values found in
/// the post-image when the cached meta names a primary key, else
/// `schema_tb`.
pub open spec fn row_key_text(mm: Option<RdbMetaManager>, row: RowData) -> Seq<char> {
    match mm {
        Some(m) => {
            if m.has_tb_meta(row.schema@, row.tb@) && m.spec_tb_meta(row.schema@, row.tb@).has_key(
                "primary"@,
            ) {
                let cols = m.spec_tb_meta(row.schema@, row.tb@).spec_key_cols("primary"@);
                seq!['['] + key_prefix_text(cols, cols.len() as int, row.after) + seq![']']
            } else {
                row.schema@ + "_"@ + row.tb@
            }
        },
        None => row.schema@ + "_"@ + row.tb@,
    }
}

/// The generic JSON payload of a row event: `operation`, `schema`, `tb`,
/// and the images that the mutation carries, serialized with the field
/// keys in sorted order.
pub open spec fn row_json_text(row: RowData) -> Seq<char> {
    seq!['{'] + (match row.after {
        Some(a) => obj_field_text("after"@, col_map_json_text(a)) + seq![','],
        None => Seq::<char>::empty(),
    }) + (match row.before {
        Some(b) => obj_field_text("before"@, col_map_json_text(b)) + seq![','],
        None => Seq::<char>::empty(),
    }) + obj_field_text("operation"@, str_lit_text(row.row_type.name_spec())) + seq![',']
        + obj_field_text("schema"@, str_lit_text(row.schema@)) + seq![','] + obj_field_text(
        "tb"@,
        str_lit_text(row.tb@),
    ) + seq!['}']
}

/// The generic JSON payload of a DDL event.
pub open spec fn ddl_json_text(ddl: DdlData) -> Seq<char> {
    seq!['{'] + obj_field_text("db_type"@, str_lit_text(ddl.db_type.name_spec())) + seq![',']
        + obj_field_text("ddl"@, "true"@) + seq![','] + obj_field_text(
        "ddl_type"@,
        str_lit_text(ddl.ddl_type.name_spec()),
    ) + seq![','] + obj_field_text("query"@, str_lit_text(ddl.query@)) + seq![',']
        + obj_field_text("schema"@, str_lit_text(ddl.default_schema@)) + seq!['}']
}

#[derive(Clone, Debug, PartialEq)]
pub struct JsonConverter {
    pub meta_manager: Option<RdbMetaManager>,
}

impl JsonConverter {
    pub fn new(meta_manager: Option<RdbMetaManager>) -> (r: Self)
        ensures
            r.meta_manager == meta_manager,
    {
        JsonConverter { meta_manager }
    }

    /// Invalidate the cached meta for each DDL event, in order.
    pub fn refresh_meta(&mut self, data: &[DdlData])
        ensures
            match old(self).meta_manager {
                Some(m0) => {
                    &&& final(self).meta_manager matches Some(m1)
                    &&& final(self).meta_manager->0.db_type == m0.db_type
                    &&& final(self).meta_manager->0.cache@
                        == crate::rdb_meta_manager::cache_after_ddls(m0.cache@, data@, 0)
                },
                None => *final(self) == *old(self),
            },
    {
        match &mut self.meta_manager {
            Some(meta_manager) => {
                let ghost orig = meta_manager.cache@;
                let ghost db_type0 = meta_manager.db_type;
                let mut i: usize = 0;
                while i < data.len()
                    invariant
                        i <= data@.len(),
                        meta_manager.db_type == db_type0,
                        crate::rdb_meta_manager::cache_after_ddls(orig, data@, 0)
                            == crate::rdb_meta_manager::cache_after_ddls(
                            meta_manager.cache@,
                            data@,
                            i as int,
                        ),
                    decreases data@.len() - i,
                {
                    meta_manager.invalidate_cache_by_ddl_data(&data[i]);
                    i = i + 1;
                }
            }
            None => {}
        }
    }

    /// The message key of a row event: its primary-key values as a JSON
    /// array, or `schema_tb` when no primary key is known.
    pub fn row_data_to_json_key(&self, row_data: &RowData) -> (r: Result<String, Error>)
        ensures
            match r {
                Ok(key) => key@ == row_key_text(self.meta_manager, *row_data),
                Err(_) => false,
            },
    {
        match &self.meta_manager {
            Some(meta_manager) => {
                match meta_manager.get_tb_meta(row_data.schema.as_str(), row_data.tb.as_str()) {
                    Some(tb_meta) => {
                        match tb_meta.get_key_cols("primary") {
                            Some(primary_key) => {
                                let ghost cols = primary_key@;
                                let mut key_values: Vec<JsonVal> = Vec::new();
                                let mut i: usize = 0;
                                while i < primary_key.len()
                                    invariant
                                        i <= cols.len(),
                                        primary_key@ == cols,
                                        key_values@.len() == key_items_count(
                                            cols,
                                            i as int,
                                            row_data.after,
                                        ),
                                        crate::json_value::arr_text(key_values@)
                                            == key_prefix_text(cols, i as int, row_data.after),
                                    decreases cols.len() - i,
                                {
                                    let col_value = match &row_data.after {
                                        Some(after) => after.get(primary_key[i].as_str()),
                                        None => Option::None,
                                    };
                                    match col_value {
                                        Some(value) => {
                                            let jv = col_value_to_json_value(value);
                                            proof {
                                                lemma_arr_text_push(key_values@, jv);
                                            }
                                            key_values.push(jv);
                                        }
                                        None => {}
                                    }
                                    i = i + 1;
                                }
                                let arr = JsonVal::Arr(key_values);
                                let text = arr.to_json_string();
                                proof {
                                    assert(text@ =~= row_key_text(self.meta_manager, *row_data));
                                }
                                Ok(text)
                            }
                            None => Ok(fallback_key(row_data)),
                        }
                    }
                    None => Ok(fallback_key(row_data)),
                }
            }
            None => Ok(fallback_key(row_data)),
        }
    }

    /// The generic JSON payload of a row event.
    #[verifier::rlimit(50)]
    pub fn row_data_to_json_value(&self, row_data: RowData) -> (r: Result<String, Error>)
        ensures
            match r {
                Ok(text) => text@ == row_json_text(row_data),
                Err(_) => false,
            },
    {
        let mut fields: Vec<(String, JsonVal)> = Vec::new();
        match &row_data.after {
            Some(after) => {
                let v = col_values_to_json_value(after);
                let name_after = String::from_str("after");
                proof {
                    lemma_obj_text_push(fields@, (name_after, v));
                }
                fields.push((name_after, v));
            }
            None => {}
        }
        match &row_data.before {
            Some(before) => {
                let v = col_values_to_json_value(before);
                let name_before = String::from_str("before");
                proof {
                    lemma_obj_text_push(fields@, (name_before, v));
                }
                fields.push((name_before, v));
            }
            None => {}
        }
        let op = JsonVal::Str(row_data.row_type.to_string());
        let name_operation = String::from_str("operation");
        proof {
            lemma_obj_text_push(fields@, (name_operation, op));
        }
        fields.push((name_operation, op));
        let schema_v = JsonVal::Str(row_data.schema.clone());
        let name_schema = String::from_str("schema");
        proof {
            lemma_obj_text_push(fields@, (name_schema, schema_v));
        }
        fields.push((name_schema, schema_v));
        let tb_v = JsonVal::Str(row_data.tb.clone());
        let name_tb = String::from_str("tb");
        proof {
            lemma_obj_text_push(fields@, (name_tb, tb_v));
        }
        fields.push((name_tb, tb_v));
        let obj = JsonVal::Obj(fields);
        let text = obj.to_json_string();
        proof {
            assert(text@ =~= row_json_text(row_data));
        }
        Ok(text)
    }

    /// The generic JSON payload of a DDL event.
    pub fn ddl_data_to_json_value(&self, ddl_data: DdlData) -> (r: Result<String, Error>)
        ensures
            match r {
                Ok(text) => text@ == ddl_json_text(ddl_data),
                Err(_) => false,
            },
    {
        let mut fields: Vec<(String, JsonVal)> = Vec::new();
        let db_type_v = JsonVal::Str(ddl_data.db_type.name());
        let name_db_type = String::from_str("db_type");
        proof {
            lemma_obj_text_push(fields@, (name_db_type, db_type_v));
        }
        fields.push((name_db_type, db_type_v));
        let name_ddl = String::from_str("ddl");
        proof {
            lemma_obj_text_push(fields@, (name_ddl, JsonVal::Bool(true)));
        }
        fields.push((name_ddl, JsonVal::Bool(true)));
        let ddl_type_v = JsonVal::Str(ddl_data.ddl_type.to_string());
        let name_ddl_type = String::from_str("ddl_type");
        proof {
            lemma_obj_text_push(fields@, (name_ddl_type, ddl_type_v));
        }
        fields.push((name_ddl_type, ddl_type_v));
        let query_v = JsonVal::Str(ddl_data.query.clone());
        let name_query = String::from_str("query");
        proof {
            lemma_obj_text_push(fields@, (name_query, query_v));
        }
        fields.push((name_query, query_v));
        let schema_v = JsonVal::Str(ddl_data.default_schema.clone());
        let name_schema = String::from_str("schema");
        proof {
            lemma_obj_text_push(fields@, (name_schema, schema_v));
        }
        fields.push((name_schema, schema_v));
        let obj = JsonVal::Obj(fields);
        let text = obj.to_json_string();
        proof {
            assert(text@ =~= ddl_json_text(ddl_data));
        }
        Ok(text)
    }
}

/// The unkeyed fallback: `schema_tb`.
fn fallback_key(row_data: &RowData) -> (r: String)
    ensures
        r@ == row_data.schema@ + "_"@ + row_data.tb@,
{
    let mut r = row_data.schema.clone();
    r.append("_");
    r.append(row_data.tb.as_str());
    r
}

} // verus!
