//! The warehouse bulk-load sinker's decisions: the monotone per-sink sync
//! timestamp, the per-row column conversions, the delete-mode choice, the
//! stream-load request (URL, headers, JSON body) and the response check.
//! The HTTP round-trip itself is the caller's outside work.

use vstd::prelude::*;
use vstd::string::{StrSliceExecFns, StringExecFns};

use crate::cloudcanal_converter::lower_of;
use crate::col_value::{utf8_lossy, utf8_lossy_of, ColValue};
use crate::db_type::DbType;
use crate::error::Error;
use crate::json_converter::{col_map_json_text, col_values_to_json_value};
use crate::json_value::{
    lemma_arr_text_push, parse_json, parsed_json_of, u64_to_string, JsonVal,
};
use crate::rdb_meta_manager::{RdbMetaManager, RdbTbMeta};
use crate::row_data::{ColMap, RowData, RowType};

verus! {

/// The sink-reserved logical-delete column.
pub fn sign_col_name() -> (r: &'static str)
    ensures
        r@ == "_ape_dts_is_deleted"@,
{
    "_ape_dts_is_deleted"
}

/// The sink-reserved ordering column.
pub fn timestamp_col_name() -> (r: &'static str)
    ensures
        r@ == "_ape_dts_timestamp"@,
{
    "_ape_dts_timestamp"
}

#[derive(Clone, Debug, PartialEq)]
pub struct StarRocksSinker {
    pub db_type: DbType,
    pub batch_size: usize,
    pub host: String,
    pub port: String,
    pub username: String,
    pub password: String,
    pub meta_manager: RdbMetaManager,
    pub sync_timestamp: i64,
    pub hard_delete: bool,
}

/// The next batch timestamp: strictly after the previous one, and never
/// behind the wall clock.
pub open spec fn next_sync_timestamp(now: i64, prev: i64) -> int {
    if now > prev + 1 {
        now as int
    } else {
        prev + 1
    }
}

/// Successive batches are totally ordered by their sync timestamps, even
/// when the wall clock does not advance.
pub proof fn lemma_sync_timestamp_strictly_increases(now: i64, prev: i64)
    requires
        prev < i64::MAX,
    ensures
        next_sync_timestamp(now, prev) > prev,
{
}

/// Is the column's recorded origin type JSON?
pub open spec fn is_json_col(meta: RdbTbMeta, col: Seq<char>) -> bool {
    meta.has_col_type(col) && lower_of(meta.spec_col_type(col)) == "json"@
}

/// The per-cell conversion before loading: a textual JSON cell in a JSON
/// column is promoted to its parsed form, binary cells become text, and a
/// bit cell is widened to a signed integer.
pub open spec fn converted_cell(name: Seq<char>, v0: ColValue, v1: ColValue, meta: RdbTbMeta) -> bool {
    match v0 {
        ColValue::Json2(s) => if is_json_col(meta, name) && parsed_json_of(s@) is Some {
            v1 == ColValue::Json3(parsed_json_of(s@)->0)
        } else {
            v1 == v0
        },
        ColValue::Str(s) => if is_json_col(meta, name) && parsed_json_of(s@) is Some {
            v1 == ColValue::Json3(parsed_json_of(s@)->0)
        } else {
            v1 == v0
        },
        ColValue::Blob(b) => v1 matches ColValue::Str(t) && t@ == utf8_lossy_of(b@),
        ColValue::RawString(b) => v1 matches ColValue::Str(t) && t@ == utf8_lossy_of(b@),
        ColValue::Bit(x) => v1 == ColValue::LongLong(x as i64),
        _ => v1 == v0,
    }
}

impl StarRocksSinker {
    /// Advance the batch timestamp; it strictly increases.
    pub fn bump_sync_timestamp(&mut self, now: i64)
        requires
            old(self).sync_timestamp < i64::MAX,
        ensures
            final(self).sync_timestamp as int == next_sync_timestamp(
                now,
                old(self).sync_timestamp,
            ),
            final(self).sync_timestamp > old(self).sync_timestamp,
            *final(self) == (StarRocksSinker {
                sync_timestamp: final(self).sync_timestamp,
                ..*old(self)
            }),
    {
        let candidate = self.sync_timestamp + 1;
        if now > candidate {
            self.sync_timestamp = now;
        } else {
            self.sync_timestamp = candidate;
        }
    }

    /// Convert every cell of both images for loading.
    pub fn convert_row_data(&self, row_data: &mut RowData, tb_meta: &RdbTbMeta)
        ensures
            final(row_data).schema == old(row_data).schema,
            final(row_data).tb == old(row_data).tb,
            final(row_data).row_type == old(row_data).row_type,
            final(row_data).data_size == old(row_data).data_size,
            match (old(row_data).before, final(row_data).before) {
                (Some(b0), Some(b1)) => converted_map(b0, b1, *tb_meta),
                (None, None) => true,
                _ => false,
            },
            match (old(row_data).after, final(row_data).after) {
                (Some(a0), Some(a1)) => converted_map(a0, a1, *tb_meta),
                (None, None) => true,
                _ => false,
            },
    {
        match &mut row_data.before {
            Some(before) => {
                convert_col_values(before, tb_meta);
            }
            None => {}
        }
        match &mut row_data.after {
            Some(after) => {
                convert_col_values(after, tb_meta);
            }
            None => {}
        }
    }

    /// The column map one row contributes to the load body: the pre-image
    /// for a delete (with the sign column set for the dialect that keeps
    /// one), else the post-image; the sink's ordering column always
    /// carries the batch timestamp for that dialect.
    pub fn build_load_row(&self, row_data: RowData, sync_ts: i64) -> (r: ColMap)
        requires
            row_data.wf(),
        ensures
            ({
                let image = if row_data.row_type == RowType::Delete {
                    row_data.before->0
                } else {
                    row_data.after->0
                };
                if self.db_type == DbType::StarRocks {
                    if row_data.row_type == RowType::Delete {
                        exists|mid: ColMap|
                            crate::row_data::col_inserted(
                                image,
                                mid,
                                "_ape_dts_is_deleted"@,
                                ColValue::Long(1),
                            ) && crate::row_data::col_inserted(
                                mid,
                                r,
                                "_ape_dts_timestamp"@,
                                ColValue::LongLong(sync_ts),
                            )
                    } else {
                        crate::row_data::col_inserted(
                            image,
                            r,
                            "_ape_dts_timestamp"@,
                            ColValue::LongLong(sync_ts),
                        )
                    }
                } else {
                    r == image
                }
            }),
    {
        let is_starrocks = matches!(self.db_type, DbType::StarRocks);
        let mut col_values = if matches!(row_data.row_type, RowType::Delete) {
            let mut before = match row_data.before {
                Some(b) => b,
                None => ColMap::new(),
            };
            let ghost image = before;
            if is_starrocks {
                let sign_name = sign_col_name().to_owned();
                before.insert(sign_name.clone(), ColValue::Long(1));
                proof {
                    crate::row_data::lemma_insert_is_col_inserted(
                        image,
                        before,
                        sign_name,
                        ColValue::Long(1),
                    );
                }
            }
            before
        } else {
            match row_data.after {
                Some(a) => a,
                None => ColMap::new(),
            }
        };
        let ghost mid_map = col_values;
        if is_starrocks {
            let ts_name = timestamp_col_name().to_owned();
            col_values.insert(ts_name.clone(), ColValue::LongLong(sync_ts));
            proof {
                crate::row_data::lemma_insert_is_col_inserted(
                    mid_map,
                    col_values,
                    ts_name,
                    ColValue::LongLong(sync_ts),
                );
            }
        }
        col_values
    }

    /// Is this batch loaded in hard-delete mode: a delete batch with no
    /// sign column (or hard deletes forced), or any delete batch for the
    /// dialect without sign columns?
    pub fn delete_op_needed(&self, first_row_type: &RowType, tb_meta: &RdbTbMeta) -> (r: bool)
        ensures
            r == match self.db_type {
                DbType::StarRocks => *first_row_type == RowType::Delete && (self.hard_delete
                    || !tb_meta.has_col_type("_ape_dts_is_deleted"@)),
                _ => *first_row_type == RowType::Delete,
            },
    {
        match self.db_type {
            DbType::StarRocks => {
                let hard_delete = self.hard_delete || tb_meta.get_col_origin_type(
                    sign_col_name(),
                ).is_none();
                matches!(first_row_type, RowType::Delete) && hard_delete
            }
            _ => matches!(first_row_type, RowType::Delete),
        }
    }

    /// The stream-load endpoint for one table.
    pub fn build_load_url(&self, db: &str, tb: &str) -> (r: String)
        ensures
            r@ == "http://"@ + self.host@ + ":"@ + self.port@ + "/api/"@ + db@ + "/"@ + tb@
                + "/_stream_load"@,
    {
        let mut r = String::from_str("http://");
        r.append(self.host.as_str());
        r.append(":");
        r.append(self.port.as_str());
        r.append("/api/");
        r.append(db);
        r.append("/");
        r.append(tb);
        r.append("/_stream_load");
        r
    }

    /// The stream-load header set; `op` non-empty adds the dialect's
    /// delete header.
    pub fn build_load_headers(&self, op: &str) -> (r: Vec<(String, String)>)
        ensures
            r@.len() >= 4,
            r@[0].0@ == "Expect"@ && r@[0].1@ == "100-continue"@,
            r@[1].0@ == "format"@ && r@[1].1@ == "json"@,
            r@[2].0@ == "strip_outer_array"@ && r@[2].1@ == "true"@,
            r@[3].0@ == "timezone"@ && r@[3].1@ == "UTC"@,
            op@.len() > 0 && self.db_type == DbType::StarRocks ==> r@.len() == 5 && r@[4].0@
                == "columns"@ && r@[4].1@ == "__op='"@ + op@ + "'"@,
            op@.len() > 0 && self.db_type == DbType::Doris ==> r@.len() == 5 && r@[4].0@
                == "merge_type"@ && r@[4].1@ == op@,
            op@.len() == 0 || !(self.db_type == DbType::StarRocks || self.db_type == DbType::Doris)
                ==> r@.len() == 4,
    {
        let mut r: Vec<(String, String)> = Vec::new();
        r.push((String::from_str("Expect"), String::from_str("100-continue")));
        r.push((String::from_str("format"), String::from_str("json")));
        r.push((String::from_str("strip_outer_array"), String::from_str("true")));
        r.push((String::from_str("timezone"), String::from_str("UTC")));
        if !op.is_empty() {
            match self.db_type {
                DbType::StarRocks => {
                    let mut v = String::from_str("__op='");
                    v.append(op);
                    v.append("'");
                    r.push((String::from_str("columns"), v));
                }
                DbType::Doris => {
                    r.push((String::from_str("merge_type"), op.to_owned()));
                }
                _ => {}
            }
        }
        r
    }

    /// The JSON array body of a batch of column maps.
    pub fn build_load_body(&self, load_data: &Vec<ColMap>) -> (r: String)
        ensures
            r@ == load_body_text(load_data@),
    {
        let mut items: Vec<JsonVal> = Vec::new();
        let mut i: usize = 0;
        proof {
            assert(crate::json_value::arr_text(items@) =~= maps_prefix_text(load_data@, 0));
        }
        while i < load_data.len()
            invariant
                i <= load_data@.len(),
                items@.len() == i,
                crate::json_value::arr_text(items@) == maps_prefix_text(load_data@, i as int),
            decreases load_data@.len() - i,
        {
            let v = col_values_to_json_value(&load_data[i]);
            proof {
                lemma_arr_text_push(items@, v);
            }
            items.push(v);
            i = i + 1;
        }
        let arr = JsonVal::Arr(items);
        let text = arr.to_json_string();
        proof {
            assert(text@ =~= load_body_text(load_data@));
        }
        text
    }

    /// Check a stream-load reply: success is HTTP 200 with a JSON body
    /// whose `Status` field is `Success`; anything else fails the batch.
    pub fn check_response(&self, status_code: u16, response_text: &str) -> (r: Result<(), Error>)
        ensures
            r is Ok <==> (status_code == 200 && response_status_success(response_text@)),
            r is Err ==> (r->Err_0 is HttpError),
    {
        if status_code != 200 {
            let mut msg = String::from_str(
                "data load request failed, status_code: ",
            );
            let code = u64_to_string(status_code as u64);
            msg.append(code.as_str());
            msg.append(", response_text: ");
            msg.append(response_text);
            return Err(Error::HttpError(msg));
        }
        let parsed = parse_json(response_text);
        let ok = match &parsed {
            Some(JsonVal::Obj(fields)) => {
                match obj_fields_get(fields, "Status") {
                    Some(JsonVal::Str(s)) => {
                        let success = String::from_str("Success");
                        s.eq(&success)
                    }
                    _ => false,
                }
            }
            _ => false,
        };
        if ok {
            Ok(())
        } else {
            let mut msg = String::from_str("stream load request failed, status_code: ");
            let code = u64_to_string(status_code as u64);
            msg.append(code.as_str());
            msg.append(", load_result: ");
            msg.append(response_text);
            Err(Error::HttpError(msg))
        }
    }
}

/// The serialized batch body: a JSON array of the column objects.
pub open spec fn load_body_text(maps: Seq<ColMap>) -> Seq<char> {
    seq!['['] + maps_prefix_text(maps, maps.len() as int) + seq![']']
}

/// The first `k` column objects, comma separated.
pub open spec fn maps_prefix_text(maps: Seq<ColMap>, k: int) -> Seq<char>
    decreases k,
{
    if k <= 0 || k > maps.len() {
        Seq::<char>::empty()
    } else if k == 1 {
        col_map_json_text(maps[0])
    } else {
        maps_prefix_text(maps, k - 1) + seq![','] + col_map_json_text(maps[k - 1])
    }
}

/// Does the reply body parse as an object whose `Status` is `Success`?
pub open spec fn response_status_success(body: Seq<char>) -> bool {
    match parsed_json_of(body) {
        Some(v) => match v {
            JsonVal::Obj(fields) => {
                let idx = json_field_index(fields@, "Status"@);
                &&& idx < fields@.len()
                &&& match fields@[idx].1 {
                    JsonVal::Str(s) => s@ == "Success"@,
                    _ => false,
                }
            },
            _ => false,
        },
        None => false,
    }
}

/// The first object field with this name, or the length.
pub open spec fn json_field_index(fields: Seq<(String, JsonVal)>, name: Seq<char>) -> int
    decreases fields.len(),
{
    if fields.len() == 0 {
        0
    } else if fields[0].0@ == name {
        0
    } else {
        1 + json_field_index(fields.drop_first(), name)
    }
}

proof fn lemma_json_field_index(fields: Seq<(String, JsonVal)>, name: Seq<char>)
    ensures
        0 <= json_field_index(fields, name) <= fields.len(),
        json_field_index(fields, name) < fields.len() ==> fields[json_field_index(
            fields,
            name,
        )].0@ == name,
        forall|i: int|
            0 <= i < json_field_index(fields, name) ==> (#[trigger] fields[i]).0@ != name,
    decreases fields.len(),
{
    if fields.len() > 0 && fields[0].0@ != name {
        lemma_json_field_index(fields.drop_first(), name);
        assert(forall|i: int|
            1 <= i < fields.len() ==> #[trigger] fields[i] == fields.drop_first()[i - 1]);
    }
}

/// The value of the first object field with this name.
fn obj_fields_get<'a>(fields: &'a Vec<(String, JsonVal)>, name: &str) -> (r: Option<&'a JsonVal>)
    ensures
        match r {
            Some(v) => json_field_index(fields@, name@) < fields@.len() && *v == fields@[
                json_field_index(fields@, name@)
            ].1,
            None => json_field_index(fields@, name@) >= fields@.len(),
        },
{
    proof {
        lemma_json_field_index(fields@, name@);
    }
    let mut i: usize = 0;
    while i < fields.len()
        invariant
            i <= fields@.len(),
            forall|k: int| 0 <= k < i ==> (#[trigger] fields@[k]).0@ != name@,
        decreases fields@.len() - i,
    {
        if crate::row_data::string_eq_str(&fields[i].0, name) {
            proof {
                lemma_json_field_index(fields@, name@);
                assert(json_field_index(fields@, name@) == i as int) by {
                    if json_field_index(fields@, name@) < i as int {
                        assert(fields@[json_field_index(fields@, name@)].0@ == name@);
                    }
                }
            }
            return Some(&fields[i].1);
        }
        i = i + 1;
    }
    proof {
        lemma_json_field_index(fields@, name@);
    }
    None
}

/// Every entry converted in place, keys and order kept.
pub open spec fn converted_map(m0: ColMap, m1: ColMap, meta: RdbTbMeta) -> bool {
    &&& m1.entries@.len() == m0.entries@.len()
    &&& forall|i: int|
        0 <= i < m0.entries@.len() ==> (#[trigger] m1.entries@[i]).0 == m0.entries@[i].0
            && converted_cell(m0.entries@[i].0@, m0.entries@[i].1, m1.entries@[i].1, meta)
}

/// Convert each cell of one column map for loading.
pub fn convert_col_values(col_values: &mut ColMap, tb_meta: &RdbTbMeta)
    ensures
        converted_map(*old(col_values), *final(col_values), *tb_meta),
{
    let ghost orig = col_values.entries@;
    let mut i: usize = 0;
    while i < col_values.entries.len()
        invariant
            i <= orig.len(),
            col_values.entries@.len() == orig.len(),
            forall|k: int| i <= k < orig.len() ==> #[trigger] col_values.entries@[k] == orig[k],
            forall|k: int|
                0 <= k < i ==> (#[trigger] col_values.entries@[k]).0 == orig[k].0
                    && converted_cell(
                    orig[k].0@,
                    orig[k].1,
                    col_values.entries@[k].1,
                    *tb_meta,
                ),
        decreases orig.len() - i,
    {
        let name = col_values.entries[i].0.clone();
        let converted: Option<ColValue> = match &col_values.entries[i].1 {
            ColValue::Json2(s) => {
                if is_json_col_exec(tb_meta, name.as_str()) {
                    match parse_json(s.as_str()) {
                        Some(v) => Some(ColValue::Json3(v)),
                        None => Option::None,
                    }
                } else {
                    Option::None
                }
            }
            ColValue::Str(s) => {
                if is_json_col_exec(tb_meta, name.as_str()) {
                    match parse_json(s.as_str()) {
                        Some(v) => Some(ColValue::Json3(v)),
                        None => Option::None,
                    }
                } else {
                    Option::None
                }
            }
            ColValue::Blob(b) => Some(ColValue::Str(utf8_lossy(b.as_slice()))),
            ColValue::RawString(b) => Some(ColValue::Str(utf8_lossy(b.as_slice()))),
            ColValue::Bit(x) => Some(ColValue::LongLong(*x as i64)),
            _ => Option::None,
        };
        match converted {
            Some(v) => {
                col_values.entries.set(i, (name, v));
            }
            None => {}
        }
        i = i + 1;
    }
}

/// Is the column recorded as a JSON column?
fn is_json_col_exec(meta: &RdbTbMeta, col: &str) -> (r: bool)
    ensures
        r == is_json_col(*meta, col@),
{
    match meta.get_col_origin_type(col) {
        Some(t) => {
            let lower = crate::cloudcanal_converter::lowercase_str(t.as_str());
            let json = String::from_str("json");
            lower.eq(&json)
        }
        None => false,
    }
}

} // verus!
