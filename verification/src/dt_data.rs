//! The items that flow through the pipeline queue: row mutations, DDL
//! events, commit marks and KV-store entries.

use vstd::prelude::*;

use crate::ddl_data::DdlData;
use crate::row_data::RowData;

verus! {

/// A KV-store command with the cluster slots its keys hash to.
#[derive(Clone, Debug, PartialEq)]
pub struct RedisEntry {
    pub cmd: String,
    pub slots: Vec<u16>,
}

#[derive(Clone, Debug, PartialEq)]
pub enum DtData {
    Dml { row_data: RowData },
    Ddl { ddl_data: DdlData },
    Commit { position: String },
    Redis { entry: RedisEntry },
}

#[derive(Clone, Debug, PartialEq)]
pub struct DtItem {
    pub dt_data: DtData,
}

/// How much a batch holds, for monitor accounting.
#[derive(Clone, Copy, Debug, PartialEq, Eq, Structural)]
pub struct DataSize {
    pub count: u64,
    pub bytes: u64,
}

} // verus!
