//! A parsed DDL event: the statement model plus its source dialect,
//! default schema and verbatim query text.

use vstd::prelude::*;
use vstd::string::StringExecFns;

use crate::db_type::DbType;
use crate::ddl_statement::DdlStatement;

verus! {

#[derive(Clone, Copy, Debug, PartialEq, Eq, Structural)]
pub enum DdlType {
    CreateDatabase,
    DropDatabase,
    AlterDatabase,
    CreateSchema,
    DropSchema,
    AlterSchema,
    CreateTable,
    DropTable,
    AlterTable,
    TruncateTable,
    RenameTable,
    CreateIndex,
    DropIndex,
    Unknown,
}

impl DdlType {
    pub open spec fn name_spec(&self) -> Seq<char> {
        match self {
            DdlType::CreateDatabase => "create_database"@,
            DdlType::DropDatabase => "drop_database"@,
            DdlType::AlterDatabase => "alter_database"@,
            DdlType::CreateSchema => "create_schema"@,
            DdlType::DropSchema => "drop_schema"@,
            DdlType::AlterSchema => "alter_schema"@,
            DdlType::CreateTable => "create_table"@,
            DdlType::DropTable => "drop_table"@,
            DdlType::AlterTable => "alter_table"@,
            DdlType::TruncateTable => "truncate_table"@,
            DdlType::RenameTable => "rename_table"@,
            DdlType::CreateIndex => "create_index"@,
            DdlType::DropIndex => "drop_index"@,
            DdlType::Unknown => "unknown"@,
        }
    }

    pub fn to_string(&self) -> (r: String)
        ensures
            r@ == self.name_spec(),
    {
        match self {
            DdlType::CreateDatabase => String::from_str("create_database"),
            DdlType::DropDatabase => String::from_str("drop_database"),
            DdlType::AlterDatabase => String::from_str("alter_database"),
            DdlType::CreateSchema => String::from_str("create_schema"),
            DdlType::DropSchema => String::from_str("drop_schema"),
            DdlType::AlterSchema => String::from_str("alter_schema"),
            DdlType::CreateTable => String::from_str("create_table"),
            DdlType::DropTable => String::from_str("drop_table"),
            DdlType::AlterTable => String::from_str("alter_table"),
            DdlType::TruncateTable => String::from_str("truncate_table"),
            DdlType::RenameTable => String::from_str("rename_table"),
            DdlType::CreateIndex => String::from_str("create_index"),
            DdlType::DropIndex => String::from_str("drop_index"),
            DdlType::Unknown => String::from_str("unknown"),
        }
    }
}

#[derive(Clone, Debug, PartialEq)]
pub struct DdlData {
    pub default_schema: String,
    pub query: String,
    pub ddl_type: DdlType,
    pub db_type: DbType,
    pub statement: DdlStatement,
}

} // verus!
