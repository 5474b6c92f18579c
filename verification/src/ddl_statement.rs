//! The DDL statement model: a closed tagged sum over database, schema,
//! table and index create/drop/alter/rename/truncate forms for the two SQL
//! dialects, plus multi-table/multi-index staging variants. Identifier
//! rewriting (`route`), splitting of multi forms, and canonical SQL
//! reconstruction operate on it.

use vstd::prelude::*;
use vstd::string::StringExecFns;

use crate::chars::{utf8_len, utf8_len64};
use crate::db_type::{escape_identifier_for, quoted_identifier, DbType};

verus! {

/// Result of `str::to_uppercase` on the characters of `s`; a function of
/// the characters alone.
pub uninterp spec fn upper_of(s: Seq<char>) -> Seq<char>;

/// Relies on str::to_uppercase: the uppercase mapping of the string, which
/// depends only on its characters.
#[verifier::external_body]
fn to_uppercase_str(s: &str) -> (r: String)
    ensures
        r@ == upper_of(s@),
{
    s.to_uppercase()
}

#[derive(Clone, Debug, PartialEq, Eq)]
pub struct CreateDatabaseStatement {
    pub db: String,
    pub if_not_exists: bool,
    pub unparsed: String,
}

#[derive(Clone, Debug, PartialEq, Eq)]
pub struct DropDatabaseStatement {
    pub db: String,
    pub if_exists: bool,
    pub unparsed: String,
}

#[derive(Clone, Debug, PartialEq, Eq)]
pub struct AlterDatabaseStatement {
    pub db: String,
    pub unparsed: String,
}

#[derive(Clone, Debug, PartialEq, Eq)]
pub struct CreateSchemaStatement {
    pub schema: String,
    pub if_not_exists: bool,
    pub unparsed: String,
}

#[derive(Clone, Debug, PartialEq, Eq)]
pub struct DropSchemaStatement {
    pub schema: String,
    pub if_exists: bool,
    pub unparsed: String,
}

#[derive(Clone, Debug, PartialEq, Eq)]
pub struct AlterSchemaStatement {
    pub schema: String,
    pub unparsed: String,
}

#[derive(Clone, Debug, PartialEq, Eq)]
pub struct MysqlCreateTableStatement {
    pub db: String,
    pub tb: String,
    pub if_not_exists: bool,
    pub unparsed: String,
}

#[derive(Clone, Debug, PartialEq, Eq)]
pub struct PgCreateTableStatement {
    pub schema: String,
    pub tb: String,
    pub temporary: Option<String>,
    pub unlogged: Option<String>,
    pub if_not_exists: bool,
    pub unparsed: String,
}

#[derive(Clone, Debug, PartialEq, Eq)]
pub struct DropMultiTableStatement {
    pub schema_tbs: Vec<(String, String)>,
    pub if_exists: bool,
    pub unparsed: String,
}

#[derive(Clone, Debug, PartialEq, Eq)]
pub struct DropTableStatement {
    pub schema: String,
    pub tb: String,
    pub if_exists: bool,
    pub unparsed: String,
}

#[derive(Clone, Debug, PartialEq, Eq)]
pub struct MysqlAlterTableStatement {
    pub db: String,
    pub tb: String,
    pub unparsed: String,
}

#[derive(Clone, Debug, PartialEq, Eq)]
pub struct MysqlAlterTableRenameStatement {
    pub db: String,
    pub tb: String,
    pub new_db: String,
    pub new_tb: String,
    pub unparsed: String,
}

#[derive(Clone, Debug, PartialEq, Eq)]
pub struct PgAlterTableStatement {
    pub schema: String,
    pub tb: String,
    pub if_exists: bool,
    pub is_only: bool,
    pub unparsed: String,
}

#[derive(Clone, Debug, PartialEq, Eq)]
pub struct PgAlterTableRenameStatement {
    pub schema: String,
    pub tb: String,
    pub new_schema: String,
    pub new_tb: String,
    pub if_exists: bool,
    pub is_only: bool,
    pub unparsed: String,
}

#[derive(Clone, Debug, PartialEq, Eq)]
pub struct PgAlterTableSetSchemaStatement {
    pub schema: String,
    pub tb: String,
    pub new_schema: String,
    pub new_tb: String,
    pub if_exists: bool,
    pub is_only: bool,
    pub unparsed: String,
}

#[derive(Clone, Debug, PartialEq, Eq)]
pub struct MysqlTruncateTableStatement {
    pub db: String,
    pub tb: String,
    pub unparsed: String,
}

#[derive(Clone, Debug, PartialEq, Eq)]
pub struct PgTruncateTableStatement {
    pub schema: String,
    pub tb: String,
    pub is_only: bool,
    pub unparsed: String,
}

#[derive(Clone, Debug, PartialEq, Eq)]
pub struct RenameMultiTableStatement {
    pub schema_tbs: Vec<(String, String)>,
    pub new_schema_tbs: Vec<(String, String)>,
    pub unparsed: String,
}

#[derive(Clone, Debug, PartialEq, Eq)]
pub struct RenameTableStatement {
    pub schema: String,
    pub tb: String,
    pub new_schema: String,
    pub new_tb: String,
    pub unparsed: String,
}

#[derive(Clone, Debug, PartialEq, Eq)]
pub struct MysqlCreateIndexStatement {
    pub db: String,
    pub tb: String,
    pub index_name: String,
    pub index_kind: Option<String>,
    pub index_type: Option<String>,
    pub unparsed: String,
}

#[derive(Clone, Debug, PartialEq, Eq)]
pub struct PgCreateIndexStatement {
    pub schema: String,
    pub tb: String,
    pub index_name: Option<String>,
    pub is_unique: bool,
    pub is_concurrently: bool,
    pub if_not_exists: bool,
    pub is_only: bool,
    pub unparsed: String,
}

#[derive(Clone, Debug, PartialEq, Eq)]
pub struct MysqlDropIndexStatement {
    pub db: String,
    pub tb: String,
    pub index_name: String,
    pub unparsed: String,
}

#[derive(Clone, Debug, PartialEq, Eq)]
pub struct PgDropMultiIndexStatement {
    pub index_names: Vec<String>,
    pub if_exists: bool,
    pub is_concurrently: bool,
    pub unparsed: String,
}

#[derive(Clone, Debug, PartialEq, Eq)]
pub struct PgDropIndexStatement {
    pub index_name: String,
    pub if_exists: bool,
    pub is_concurrently: bool,
    pub unparsed: String,
}

#[derive(Clone, Debug, PartialEq, Eq)]
pub enum DdlStatement {
    CreateDatabase(CreateDatabaseStatement),
    DropDatabase(DropDatabaseStatement),
    AlterDatabase(AlterDatabaseStatement),
    CreateSchema(CreateSchemaStatement),
    DropSchema(DropSchemaStatement),
    AlterSchema(AlterSchemaStatement),
    MysqlCreateTable(MysqlCreateTableStatement),
    MysqlAlterTable(MysqlAlterTableStatement),
    MysqlAlterTableRename(MysqlAlterTableRenameStatement),
    MysqlTruncateTable(MysqlTruncateTableStatement),
    MysqlCreateIndex(MysqlCreateIndexStatement),
    MysqlDropIndex(MysqlDropIndexStatement),
    PgCreateTable(PgCreateTableStatement),
    PgAlterTable(PgAlterTableStatement),
    PgAlterTableRename(PgAlterTableRenameStatement),
    PgAlterTableSetSchema(PgAlterTableSetSchemaStatement),
    PgTruncateTable(PgTruncateTableStatement),
    PgCreateIndex(PgCreateIndexStatement),
    DropMultiTable(DropMultiTableStatement),
    RenameMultiTable(RenameMultiTableStatement),
    PgDropMultiIndex(PgDropMultiIndexStatement),
    DropTable(DropTableStatement),
    RenameTable(RenameTableStatement),
    PgDropIndex(PgDropIndexStatement),
    Unknown,
}

impl Default for DdlStatement {
    fn default() -> (r: Self)
        ensures
            r == DdlStatement::Unknown,
    {
        DdlStatement::Unknown
    }
}

impl DdlStatement {
    /// A rename-multi statement must pair every source with a target.
    pub open spec fn wf(&self) -> bool {
        match self {
            DdlStatement::RenameMultiTable(s) => s.new_schema_tbs@.len() == s.schema_tbs@.len(),
            _ => true,
        }
    }

    /// What `split_to_multi` yields: the singular statements of a
    /// multi-variant, sharing its flags and unparsed tail; any other
    /// statement stands alone.
    pub open spec fn split_spec(self) -> Seq<DdlStatement> {
        match self {
            DdlStatement::DropMultiTable(s) => Seq::new(
                s.schema_tbs@.len(),
                |i: int|
                    DdlStatement::DropTable(
                        DropTableStatement {
                            schema: s.schema_tbs@[i].0,
                            tb: s.schema_tbs@[i].1,
                            if_exists: s.if_exists,
                            unparsed: s.unparsed,
                        },
                    ),
            ),
            DdlStatement::RenameMultiTable(s) => Seq::new(
                s.schema_tbs@.len(),
                |i: int|
                    DdlStatement::RenameTable(
                        RenameTableStatement {
                            schema: s.schema_tbs@[i].0,
                            tb: s.schema_tbs@[i].1,
                            new_schema: s.new_schema_tbs@[i].0,
                            new_tb: s.new_schema_tbs@[i].1,
                            unparsed: s.unparsed,
                        },
                    ),
            ),
            DdlStatement::PgDropMultiIndex(s) => Seq::new(
                s.index_names@.len(),
                |i: int|
                    DdlStatement::PgDropIndex(
                        PgDropIndexStatement {
                            index_name: s.index_names@[i],
                            if_exists: s.if_exists,
                            is_concurrently: s.is_concurrently,
                            unparsed: s.unparsed,
                        },
                    ),
            ),
            _ => seq![self],
        }
    }

    /// Expand a multi-variant into its singular statements.
    pub fn split_to_multi(self) -> (r: Vec<DdlStatement>)
        requires
            self.wf(),
        ensures
            r@ == self.split_spec(),
    {
        let ghost orig = self;
        let mut res: Vec<DdlStatement> = Vec::new();
        match self {
            DdlStatement::DropMultiTable(s) => {
                let mut i: usize = 0;
                while i < s.schema_tbs.len()
                    invariant
                        i <= s.schema_tbs@.len(),
                        orig == DdlStatement::DropMultiTable(s),
                        res@ == orig.split_spec().subrange(0, i as int),
                    decreases s.schema_tbs@.len() - i,
                {
                    let statement = DropTableStatement {
                        schema: s.schema_tbs[i].0.clone(),
                        tb: s.schema_tbs[i].1.clone(),
                        if_exists: s.if_exists,
                        unparsed: s.unparsed.clone(),
                    };
                    res.push(DdlStatement::DropTable(statement));
                    i = i + 1;
                    proof {
                        assert(res@ =~= orig.split_spec().subrange(0, i as int));
                    }
                }
                proof {
                    assert(res@ =~= orig.split_spec());
                }
            }
            DdlStatement::RenameMultiTable(s) => {
                let mut i: usize = 0;
                while i < s.schema_tbs.len()
                    invariant
                        i <= s.schema_tbs@.len(),
                        orig == DdlStatement::RenameMultiTable(s),
                        orig.wf(),
                        res@ == orig.split_spec().subrange(0, i as int),
                    decreases s.schema_tbs@.len() - i,
                {
                    let statement = RenameTableStatement {
                        schema: s.schema_tbs[i].0.clone(),
                        tb: s.schema_tbs[i].1.clone(),
                        new_schema: s.new_schema_tbs[i].0.clone(),
                        new_tb: s.new_schema_tbs[i].1.clone(),
                        unparsed: s.unparsed.clone(),
                    };
                    res.push(DdlStatement::RenameTable(statement));
                    i = i + 1;
                    proof {
                        assert(res@ =~= orig.split_spec().subrange(0, i as int));
                    }
                }
                proof {
                    assert(res@ =~= orig.split_spec());
                }
            }
            DdlStatement::PgDropMultiIndex(s) => {
                let mut i: usize = 0;
                while i < s.index_names.len()
                    invariant
                        i <= s.index_names@.len(),
                        orig == DdlStatement::PgDropMultiIndex(s),
                        res@ == orig.split_spec().subrange(0, i as int),
                    decreases s.index_names@.len() - i,
                {
                    let statement = PgDropIndexStatement {
                        index_name: s.index_names[i].clone(),
                        if_exists: s.if_exists,
                        is_concurrently: s.is_concurrently,
                        unparsed: s.unparsed.clone(),
                    };
                    res.push(DdlStatement::PgDropIndex(statement));
                    i = i + 1;
                    proof {
                        assert(res@ =~= orig.split_spec().subrange(0, i as int));
                    }
                }
                proof {
                    assert(res@ =~= orig.split_spec());
                }
            }
            other => {
                res.push(other);
                proof {
                    assert(res@ =~= orig.split_spec());
                }
            }
        }
        res
    }

    /// The identifying (schema, table) pair; statements that do not name a
    /// table leave the table (or both) empty.
    pub open spec fn schema_tb_spec(&self) -> (Seq<char>, Seq<char>) {
        match self {
            DdlStatement::CreateDatabase(s) => (s.db@, Seq::<char>::empty()),
            DdlStatement::DropDatabase(s) => (s.db@, Seq::<char>::empty()),
            DdlStatement::AlterDatabase(s) => (s.db@, Seq::<char>::empty()),
            DdlStatement::CreateSchema(s) => (s.schema@, Seq::<char>::empty()),
            DdlStatement::DropSchema(s) => (s.schema@, Seq::<char>::empty()),
            DdlStatement::AlterSchema(s) => (s.schema@, Seq::<char>::empty()),
            DdlStatement::MysqlCreateTable(s) => (s.db@, s.tb@),
            DdlStatement::MysqlAlterTable(s) => (s.db@, s.tb@),
            DdlStatement::MysqlTruncateTable(s) => (s.db@, s.tb@),
            DdlStatement::MysqlCreateIndex(s) => (s.db@, s.tb@),
            DdlStatement::MysqlDropIndex(s) => (s.db@, s.tb@),
            DdlStatement::PgCreateTable(s) => (s.schema@, s.tb@),
            DdlStatement::PgAlterTable(s) => (s.schema@, s.tb@),
            DdlStatement::PgTruncateTable(s) => (s.schema@, s.tb@),
            DdlStatement::PgCreateIndex(s) => (s.schema@, s.tb@),
            DdlStatement::DropTable(s) => (s.schema@, s.tb@),
            DdlStatement::RenameTable(s) => (s.schema@, s.tb@),
            DdlStatement::MysqlAlterTableRename(s) => (s.db@, s.tb@),
            DdlStatement::PgAlterTableRename(s) => (s.schema@, s.tb@),
            DdlStatement::PgAlterTableSetSchema(s) => (s.schema@, s.tb@),
            _ => (Seq::<char>::empty(), Seq::<char>::empty()),
        }
    }

    pub fn get_schema_tb(&self) -> (r: (String, String))
        ensures
            r.0@ == self.schema_tb_spec().0,
            r.1@ == self.schema_tb_spec().1,
    {
        match self {
            DdlStatement::CreateDatabase(s) => (s.db.clone(), String::new()),
            DdlStatement::DropDatabase(s) => (s.db.clone(), String::new()),
            DdlStatement::AlterDatabase(s) => (s.db.clone(), String::new()),
            DdlStatement::CreateSchema(s) => (s.schema.clone(), String::new()),
            DdlStatement::DropSchema(s) => (s.schema.clone(), String::new()),
            DdlStatement::AlterSchema(s) => (s.schema.clone(), String::new()),
            DdlStatement::MysqlCreateTable(s) => (s.db.clone(), s.tb.clone()),
            DdlStatement::MysqlAlterTable(s) => (s.db.clone(), s.tb.clone()),
            DdlStatement::MysqlTruncateTable(s) => (s.db.clone(), s.tb.clone()),
            DdlStatement::MysqlCreateIndex(s) => (s.db.clone(), s.tb.clone()),
            DdlStatement::MysqlDropIndex(s) => (s.db.clone(), s.tb.clone()),
            DdlStatement::PgCreateTable(s) => (s.schema.clone(), s.tb.clone()),
            DdlStatement::PgAlterTable(s) => (s.schema.clone(), s.tb.clone()),
            DdlStatement::PgTruncateTable(s) => (s.schema.clone(), s.tb.clone()),
            DdlStatement::PgCreateIndex(s) => (s.schema.clone(), s.tb.clone()),
            DdlStatement::DropTable(s) => (s.schema.clone(), s.tb.clone()),
            DdlStatement::RenameTable(s) => (s.schema.clone(), s.tb.clone()),
            DdlStatement::MysqlAlterTableRename(s) => (s.db.clone(), s.tb.clone()),
            DdlStatement::PgAlterTableRename(s) => (s.schema.clone(), s.tb.clone()),
            DdlStatement::PgAlterTableSetSchema(s) => (s.schema.clone(), s.tb.clone()),
            _ => (String::new(), String::new()),
        }
    }

    /// The rename target (schema, table) pair; empty for non-rename forms.
    pub open spec fn rename_to_schema_tb_spec(&self) -> (Seq<char>, Seq<char>) {
        match self {
            DdlStatement::RenameTable(s) => (s.new_schema@, s.new_tb@),
            DdlStatement::MysqlAlterTableRename(s) => (s.new_db@, s.new_tb@),
            DdlStatement::PgAlterTableRename(s) => (s.new_schema@, s.new_tb@),
            _ => (Seq::<char>::empty(), Seq::<char>::empty()),
        }
    }

    pub fn get_rename_to_schema_tb(&self) -> (r: (String, String))
        ensures
            r.0@ == self.rename_to_schema_tb_spec().0,
            r.1@ == self.rename_to_schema_tb_spec().1,
    {
        match self {
            DdlStatement::RenameTable(s) => (s.new_schema.clone(), s.new_tb.clone()),
            DdlStatement::MysqlAlterTableRename(s) => (s.new_db.clone(), s.new_tb.clone()),
            DdlStatement::PgAlterTableRename(s) => (s.new_schema.clone(), s.new_tb.clone()),
            _ => (String::new(), String::new()),
        }
    }

    /// `route_rename_table` on a rename form: a non-empty source or target
    /// schema is replaced, an empty one is left empty, and both table
    /// names are always replaced. Other forms are untouched.
    pub open spec fn route_rename_spec(
        self,
        dst_schema: String,
        dst_tb: String,
        dst_new_schema: String,
        dst_new_tb: String,
    ) -> DdlStatement {
        match self {
            DdlStatement::MysqlAlterTableRename(s) => DdlStatement::MysqlAlterTableRename(
                MysqlAlterTableRenameStatement {
                    db: if s.db@.len() > 0 {
                        dst_schema
                    } else {
                        s.db
                    },
                    tb: dst_tb,
                    new_db: if s.new_db@.len() > 0 {
                        dst_new_schema
                    } else {
                        s.new_db
                    },
                    new_tb: dst_new_tb,
                    unparsed: s.unparsed,
                },
            ),
            DdlStatement::PgAlterTableRename(s) => DdlStatement::PgAlterTableRename(
                PgAlterTableRenameStatement {
                    schema: if s.schema@.len() > 0 {
                        dst_schema
                    } else {
                        s.schema
                    },
                    tb: dst_tb,
                    new_schema: if s.new_schema@.len() > 0 {
                        dst_new_schema
                    } else {
                        s.new_schema
                    },
                    new_tb: dst_new_tb,
                    if_exists: s.if_exists,
                    is_only: s.is_only,
                    unparsed: s.unparsed,
                },
            ),
            DdlStatement::RenameTable(s) => DdlStatement::RenameTable(
                RenameTableStatement {
                    schema: if s.schema@.len() > 0 {
                        dst_schema
                    } else {
                        s.schema
                    },
                    tb: dst_tb,
                    new_schema: if s.new_schema@.len() > 0 {
                        dst_new_schema
                    } else {
                        s.new_schema
                    },
                    new_tb: dst_new_tb,
                    unparsed: s.unparsed,
                },
            ),
            _ => self,
        }
    }

    /// Rewrite both pairs of a rename statement to the destination.
    pub fn route_rename_table(
        &mut self,
        dst_schema: String,
        dst_tb: String,
        dst_new_schema: String,
        dst_new_tb: String,
    )
        ensures
            *final(self) == old(self).route_rename_spec(
                dst_schema,
                dst_tb,
                dst_new_schema,
                dst_new_tb,
            ),
    {
        match self {
            DdlStatement::MysqlAlterTableRename(s) => {
                if !s.db.as_str().is_empty() {
                    s.db = dst_schema;
                }
                if !s.new_db.as_str().is_empty() {
                    s.new_db = dst_new_schema;
                }
                s.tb = dst_tb;
                s.new_tb = dst_new_tb;
            }
            DdlStatement::PgAlterTableRename(s) => {
                if !s.schema.as_str().is_empty() {
                    s.schema = dst_schema;
                }
                if !s.new_schema.as_str().is_empty() {
                    s.new_schema = dst_new_schema;
                }
                s.tb = dst_tb;
                s.new_tb = dst_new_tb;
            }
            DdlStatement::RenameTable(s) => {
                if !s.schema.as_str().is_empty() {
                    s.schema = dst_schema;
                }
                if !s.new_schema.as_str().is_empty() {
                    s.new_schema = dst_new_schema;
                }
                s.tb = dst_tb;
                s.new_tb = dst_new_tb;
            }
            _ => {}
        }
    }

    /// `route` on a single-table (non-rename) form: a non-empty schema/db
    /// is replaced by the destination schema, an empty one stays empty so
    /// the destination's current schema applies; the table is always
    /// replaced. Database/schema statements take the destination schema
    /// unconditionally. Rename forms, multi forms and `Unknown` are
    /// untouched.
    pub open spec fn route_spec(self, dst_schema: String, dst_tb: String) -> DdlStatement {
        match self {
            DdlStatement::CreateDatabase(s) => DdlStatement::CreateDatabase(
                CreateDatabaseStatement {
                    db: dst_schema,
                    if_not_exists: s.if_not_exists,
                    unparsed: s.unparsed,
                },
            ),
            DdlStatement::DropDatabase(s) => DdlStatement::DropDatabase(
                DropDatabaseStatement {
                    db: dst_schema,
                    if_exists: s.if_exists,
                    unparsed: s.unparsed,
                },
            ),
            DdlStatement::AlterDatabase(s) => DdlStatement::AlterDatabase(
                AlterDatabaseStatement { db: dst_schema, unparsed: s.unparsed },
            ),
            DdlStatement::CreateSchema(s) => DdlStatement::CreateSchema(
                CreateSchemaStatement {
                    schema: dst_schema,
                    if_not_exists: s.if_not_exists,
                    unparsed: s.unparsed,
                },
            ),
            DdlStatement::DropSchema(s) => DdlStatement::DropSchema(
                DropSchemaStatement {
                    schema: dst_schema,
                    if_exists: s.if_exists,
                    unparsed: s.unparsed,
                },
            ),
            DdlStatement::AlterSchema(s) => DdlStatement::AlterSchema(
                AlterSchemaStatement { schema: dst_schema, unparsed: s.unparsed },
            ),
            DdlStatement::MysqlCreateTable(s) => DdlStatement::MysqlCreateTable(
                MysqlCreateTableStatement {
                    db: if s.db@.len() > 0 {
                        dst_schema
                    } else {
                        s.db
                    },
                    tb: dst_tb,
                    if_not_exists: s.if_not_exists,
                    unparsed: s.unparsed,
                },
            ),
            DdlStatement::MysqlAlterTable(s) => DdlStatement::MysqlAlterTable(
                MysqlAlterTableStatement {
                    db: if s.db@.len() > 0 {
                        dst_schema
                    } else {
                        s.db
                    },
                    tb: dst_tb,
                    unparsed: s.unparsed,
                },
            ),
            DdlStatement::MysqlTruncateTable(s) => DdlStatement::MysqlTruncateTable(
                MysqlTruncateTableStatement {
                    db: if s.db@.len() > 0 {
                        dst_schema
                    } else {
                        s.db
                    },
                    tb: dst_tb,
                    unparsed: s.unparsed,
                },
            ),
            DdlStatement::MysqlCreateIndex(s) => DdlStatement::MysqlCreateIndex(
                MysqlCreateIndexStatement {
                    db: if s.db@.len() > 0 {
                        dst_schema
                    } else {
                        s.db
                    },
                    tb: dst_tb,
                    index_name: s.index_name,
                    index_kind: s.index_kind,
                    index_type: s.index_type,
                    unparsed: s.unparsed,
                },
            ),
            DdlStatement::MysqlDropIndex(s) => DdlStatement::MysqlDropIndex(
                MysqlDropIndexStatement {
                    db: if s.db@.len() > 0 {
                        dst_schema
                    } else {
                        s.db
                    },
                    tb: dst_tb,
                    index_name: s.index_name,
                    unparsed: s.unparsed,
                },
            ),
            DdlStatement::PgCreateTable(s) => DdlStatement::PgCreateTable(
                PgCreateTableStatement {
                    schema: if s.schema@.len() > 0 {
                        dst_schema
                    } else {
                        s.schema
                    },
                    tb: dst_tb,
                    temporary: s.temporary,
                    unlogged: s.unlogged,
                    if_not_exists: s.if_not_exists,
                    unparsed: s.unparsed,
                },
            ),
            DdlStatement::PgAlterTable(s) => DdlStatement::PgAlterTable(
                PgAlterTableStatement {
                    schema: if s.schema@.len() > 0 {
                        dst_schema
                    } else {
                        s.schema
                    },
                    tb: dst_tb,
                    if_exists: s.if_exists,
                    is_only: s.is_only,
                    unparsed: s.unparsed,
                },
            ),
            DdlStatement::PgTruncateTable(s) => DdlStatement::PgTruncateTable(
                PgTruncateTableStatement {
                    schema: if s.schema@.len() > 0 {
                        dst_schema
                    } else {
                        s.schema
                    },
                    tb: dst_tb,
                    is_only: s.is_only,
                    unparsed: s.unparsed,
                },
            ),
            DdlStatement::PgCreateIndex(s) => DdlStatement::PgCreateIndex(
                PgCreateIndexStatement {
                    schema: if s.schema@.len() > 0 {
                        dst_schema
                    } else {
                        s.schema
                    },
                    tb: dst_tb,
                    index_name: s.index_name,
                    is_unique: s.is_unique,
                    is_concurrently: s.is_concurrently,
                    if_not_exists: s.if_not_exists,
                    is_only: s.is_only,
                    unparsed: s.unparsed,
                },
            ),
            DdlStatement::DropTable(s) => DdlStatement::DropTable(
                DropTableStatement {
                    schema: if s.schema@.len() > 0 {
                        dst_schema
                    } else {
                        s.schema
                    },
                    tb: dst_tb,
                    if_exists: s.if_exists,
                    unparsed: s.unparsed,
                },
            ),
            _ => self,
        }
    }

    /// Rewrite the identifiers of a non-rename statement to the
    /// destination pair.
    pub fn route(&mut self, dst_schema: String, dst_tb: String)
        ensures
            *final(self) == old(self).route_spec(dst_schema, dst_tb),
    {
        match self {
            DdlStatement::CreateDatabase(s) => {
                s.db = dst_schema;
            }
            DdlStatement::DropDatabase(s) => {
                s.db = dst_schema;
            }
            DdlStatement::AlterDatabase(s) => {
                s.db = dst_schema;
            }
            DdlStatement::CreateSchema(s) => {
                s.schema = dst_schema;
            }
            DdlStatement::DropSchema(s) => {
                s.schema = dst_schema;
            }
            DdlStatement::AlterSchema(s) => {
                s.schema = dst_schema;
            }
            DdlStatement::MysqlCreateTable(s) => {
                if !s.db.as_str().is_empty() {
                    s.db = dst_schema;
                }
                s.tb = dst_tb;
            }
            DdlStatement::MysqlAlterTable(s) => {
                if !s.db.as_str().is_empty() {
                    s.db = dst_schema;
                }
                s.tb = dst_tb;
            }
            DdlStatement::MysqlTruncateTable(s) => {
                if !s.db.as_str().is_empty() {
                    s.db = dst_schema;
                }
                s.tb = dst_tb;
            }
            DdlStatement::MysqlCreateIndex(s) => {
                if !s.db.as_str().is_empty() {
                    s.db = dst_schema;
                }
                s.tb = dst_tb;
            }
            DdlStatement::MysqlDropIndex(s) => {
                if !s.db.as_str().is_empty() {
                    s.db = dst_schema;
                }
                s.tb = dst_tb;
            }
            DdlStatement::PgCreateTable(s) => {
                if !s.schema.as_str().is_empty() {
                    s.schema = dst_schema;
                }
                s.tb = dst_tb;
            }
            DdlStatement::PgAlterTable(s) => {
                if !s.schema.as_str().is_empty() {
                    s.schema = dst_schema;
                }
                s.tb = dst_tb;
            }
            DdlStatement::PgTruncateTable(s) => {
                if !s.schema.as_str().is_empty() {
                    s.schema = dst_schema;
                }
                s.tb = dst_tb;
            }
            DdlStatement::PgCreateIndex(s) => {
                if !s.schema.as_str().is_empty() {
                    s.schema = dst_schema;
                }
                s.tb = dst_tb;
            }
            DdlStatement::DropTable(s) => {
                if !s.schema.as_str().is_empty() {
                    s.schema = dst_schema;
                }
                s.tb = dst_tb;
            }
            _ => {}
        }
    }
}

/// Heap header size of an optional string on 64-bit targets, counted in
/// the allocation estimate.
pub const OPT_STRING_HEADER_BYTES: u64 = 24;

/// Heap header size of a vector on 64-bit targets, counted in the
/// allocation estimate.
pub const VEC_HEADER_BYTES: u64 = 24;

/// UTF-8 byte length of an optional string.
pub open spec fn opt_len(o: Option<String>) -> int {
    match o {
        Some(s) => utf8_len(s@) as int,
        None => 0,
    }
}

/// Sum of the byte lengths of the (schema, table) pairs from index `i`
/// on.
pub open spec fn pair_lens_from(tbs: Seq<(String, String)>, i: int) -> int
    decreases tbs.len() - i,
{
    if i < 0 || i >= tbs.len() {
        0
    } else {
        utf8_len(tbs[i].0@) + utf8_len(tbs[i].1@) + pair_lens_from(tbs, i + 1)
    }
}

proof fn lemma_pair_lens_nonneg(tbs: Seq<(String, String)>, i: int)
    ensures
        pair_lens_from(tbs, i) >= 0,
    decreases tbs.len() - i,
{
    if 0 <= i < tbs.len() {
        lemma_pair_lens_nonneg(tbs, i + 1);
    }
}

/// Sum of the byte lengths of the names from index `i` on.
pub open spec fn name_lens_from(names: Seq<String>, i: int) -> int
    decreases names.len() - i,
{
    if i < 0 || i >= names.len() {
        0
    } else {
        utf8_len(names[i]@) + name_lens_from(names, i + 1)
    }
}

proof fn lemma_name_lens_nonneg(names: Seq<String>, i: int)
    ensures
        name_lens_from(names, i) >= 0,
    decreases names.len() - i,
{
    if 0 <= i < names.len() {
        lemma_name_lens_nonneg(names, i + 1);
    }
}

impl DdlStatement {
    /// The allocation estimate: the lengths of the statement's strings (in
    /// characters) plus a fixed per-variant overhead for flags and
    /// container headers.
    pub open spec fn malloc_size_spec(&self) -> int {
        match self {
            DdlStatement::CreateDatabase(s) => utf8_len(s.db@) as int + utf8_len(s.unparsed@) as int + 1,
            DdlStatement::DropDatabase(s) => utf8_len(s.db@) as int + utf8_len(s.unparsed@) as int + 1,
            DdlStatement::AlterDatabase(s) => utf8_len(s.db@) as int + utf8_len(s.unparsed@) as int,
            DdlStatement::CreateSchema(s) => utf8_len(s.schema@) as int + utf8_len(s.unparsed@) as int + 1,
            DdlStatement::DropSchema(s) => utf8_len(s.schema@) as int + utf8_len(s.unparsed@) as int + 1,
            DdlStatement::AlterSchema(s) => utf8_len(s.schema@) as int + utf8_len(s.unparsed@) as int,
            DdlStatement::MysqlCreateTable(s) => utf8_len(s.db@) as int + utf8_len(s.tb@) as int + utf8_len(s.unparsed@) as int + 1,
            DdlStatement::MysqlAlterTable(s) => utf8_len(s.db@) as int + utf8_len(s.tb@) as int + utf8_len(s.unparsed@) as int,
            DdlStatement::MysqlAlterTableRename(s) => utf8_len(s.db@) as int + utf8_len(s.tb@) as int + utf8_len(s.new_db@) as int
                + utf8_len(s.new_tb@) as int + utf8_len(s.unparsed@) as int,
            DdlStatement::MysqlTruncateTable(s) => utf8_len(s.db@) as int + utf8_len(s.tb@) as int + utf8_len(s.unparsed@) as int,
            DdlStatement::PgCreateTable(s) => utf8_len(s.schema@) as int + utf8_len(s.tb@) as int + utf8_len(s.unparsed@) as int + 2
                * OPT_STRING_HEADER_BYTES + opt_len(s.temporary) + opt_len(s.unlogged) + 1,
            DdlStatement::PgAlterTable(s) => utf8_len(s.schema@) as int + utf8_len(s.tb@) as int + utf8_len(s.unparsed@) as int + 2,
            DdlStatement::PgAlterTableRename(s) => utf8_len(s.schema@) as int + utf8_len(s.tb@) as int
                + utf8_len(s.new_schema@) as int + utf8_len(s.new_tb@) as int + utf8_len(s.unparsed@) as int + 2,
            DdlStatement::PgAlterTableSetSchema(s) => utf8_len(s.schema@) as int + utf8_len(s.tb@) as int
                + utf8_len(s.new_schema@) as int + utf8_len(s.new_tb@) as int + utf8_len(s.unparsed@) as int + 2,
            DdlStatement::PgTruncateTable(s) => utf8_len(s.schema@) as int + utf8_len(s.tb@) as int + utf8_len(s.unparsed@) as int
                + 1,
            DdlStatement::PgCreateIndex(s) => utf8_len(s.schema@) as int + utf8_len(s.tb@) as int + utf8_len(s.unparsed@) as int
                + OPT_STRING_HEADER_BYTES + opt_len(s.index_name) + 4,
            DdlStatement::PgDropIndex(s) => utf8_len(s.index_name@) as int + utf8_len(s.unparsed@) as int + 2,
            DdlStatement::PgDropMultiIndex(s) => VEC_HEADER_BYTES + name_lens_from(
                s.index_names@,
                0,
            ) + utf8_len(s.unparsed@) as int + 1,
            DdlStatement::DropMultiTable(s) => VEC_HEADER_BYTES + pair_lens_from(s.schema_tbs@, 0)
                + utf8_len(s.unparsed@) as int + 1,
            DdlStatement::RenameMultiTable(s) => 2 * VEC_HEADER_BYTES + pair_lens_from(
                s.schema_tbs@,
                0,
            ) + pair_lens_from(s.new_schema_tbs@, 0) + utf8_len(s.unparsed@) as int + 1,
            DdlStatement::DropTable(s) => utf8_len(s.schema@) as int + utf8_len(s.tb@) as int + utf8_len(s.unparsed@) as int + 1,
            DdlStatement::RenameTable(s) => utf8_len(s.schema@) as int + utf8_len(s.tb@) as int + utf8_len(s.new_schema@) as int
                + utf8_len(s.new_tb@) as int + utf8_len(s.unparsed@) as int,
            DdlStatement::MysqlCreateIndex(s) => utf8_len(s.db@) as int + utf8_len(s.tb@) as int + utf8_len(s.index_name@) as int
                + utf8_len(s.unparsed@) as int + 2 * OPT_STRING_HEADER_BYTES + opt_len(s.index_kind)
                + opt_len(s.index_type),
            DdlStatement::MysqlDropIndex(s) => utf8_len(s.db@) as int + utf8_len(s.tb@) as int + utf8_len(s.index_name@) as int
                + utf8_len(s.unparsed@) as int,
            DdlStatement::Unknown => 0,
        }
    }

    /// The allocation estimate, used for backpressure accounting.
    pub fn get_malloc_size(&self) -> (r: u64)
        requires
            self.malloc_size_spec() <= u64::MAX,
        ensures
            r as int == self.malloc_size_spec(),
    {
        match self {
            DdlStatement::CreateDatabase(s) => {
                str_len64(s.db.as_str()) + str_len64(s.unparsed.as_str()) + 1
            }
            DdlStatement::DropDatabase(s) => {
                str_len64(s.db.as_str()) + str_len64(s.unparsed.as_str()) + 1
            }
            DdlStatement::AlterDatabase(s) => {
                str_len64(s.db.as_str()) + str_len64(s.unparsed.as_str())
            }
            DdlStatement::CreateSchema(s) => {
                str_len64(s.schema.as_str()) + str_len64(s.unparsed.as_str()) + 1
            }
            DdlStatement::DropSchema(s) => {
                str_len64(s.schema.as_str()) + str_len64(s.unparsed.as_str()) + 1
            }
            DdlStatement::AlterSchema(s) => {
                str_len64(s.schema.as_str()) + str_len64(s.unparsed.as_str())
            }
            DdlStatement::MysqlCreateTable(s) => {
                str_len64(s.db.as_str()) + str_len64(s.tb.as_str()) + str_len64(
                    s.unparsed.as_str(),
                ) + 1
            }
            DdlStatement::MysqlAlterTable(s) => {
                str_len64(s.db.as_str()) + str_len64(s.tb.as_str()) + str_len64(
                    s.unparsed.as_str(),
                )
            }
            DdlStatement::MysqlAlterTableRename(s) => {
                str_len64(s.db.as_str()) + str_len64(s.tb.as_str()) + str_len64(
                    s.new_db.as_str(),
                ) + str_len64(s.new_tb.as_str()) + str_len64(s.unparsed.as_str())
            }
            DdlStatement::MysqlTruncateTable(s) => {
                str_len64(s.db.as_str()) + str_len64(s.tb.as_str()) + str_len64(
                    s.unparsed.as_str(),
                )
            }
            DdlStatement::PgCreateTable(s) => {
                str_len64(s.schema.as_str()) + str_len64(s.tb.as_str()) + str_len64(
                    s.unparsed.as_str(),
                ) + 2 * OPT_STRING_HEADER_BYTES + opt_len64(&s.temporary) + opt_len64(&s.unlogged)
                    + 1
            }
            DdlStatement::PgAlterTable(s) => {
                str_len64(s.schema.as_str()) + str_len64(s.tb.as_str()) + str_len64(
                    s.unparsed.as_str(),
                ) + 2
            }
            DdlStatement::PgAlterTableRename(s) => {
                str_len64(s.schema.as_str()) + str_len64(s.tb.as_str()) + str_len64(
                    s.new_schema.as_str(),
                ) + str_len64(s.new_tb.as_str()) + str_len64(s.unparsed.as_str()) + 2
            }
            DdlStatement::PgAlterTableSetSchema(s) => {
                str_len64(s.schema.as_str()) + str_len64(s.tb.as_str()) + str_len64(
                    s.new_schema.as_str(),
                ) + str_len64(s.new_tb.as_str()) + str_len64(s.unparsed.as_str()) + 2
            }
            DdlStatement::PgTruncateTable(s) => {
                str_len64(s.schema.as_str()) + str_len64(s.tb.as_str()) + str_len64(
                    s.unparsed.as_str(),
                ) + 1
            }
            DdlStatement::PgCreateIndex(s) => {
                str_len64(s.schema.as_str()) + str_len64(s.tb.as_str()) + str_len64(
                    s.unparsed.as_str(),
                ) + OPT_STRING_HEADER_BYTES + opt_len64(&s.index_name) + 4
            }
            DdlStatement::PgDropIndex(s) => {
                str_len64(s.index_name.as_str()) + str_len64(s.unparsed.as_str()) + 2
            }
            DdlStatement::PgDropMultiIndex(s) => {
                let mut size: u64 = VEC_HEADER_BYTES;
                let ghost total = self.malloc_size_spec();
                let mut i: usize = 0;
                while i < s.index_names.len()
                    invariant
                        i <= s.index_names@.len(),
                        total == VEC_HEADER_BYTES + name_lens_from(s.index_names@, 0)
                            + utf8_len(s.unparsed@) + 1,
                        total <= u64::MAX,
                        size as int + name_lens_from(s.index_names@, i as int) + utf8_len(s.unparsed@)
                            + 1 == total,
                    decreases s.index_names@.len() - i,
                {
                    proof {
                        lemma_name_lens_nonneg(s.index_names@, i + 1);
                    }
                    size = size + str_len64(s.index_names[i].as_str());
                    i = i + 1;
                }
                size + str_len64(s.unparsed.as_str()) + 1
            }
            DdlStatement::DropMultiTable(s) => {
                let mut size: u64 = VEC_HEADER_BYTES;
                let ghost total = self.malloc_size_spec();
                let mut i: usize = 0;
                while i < s.schema_tbs.len()
                    invariant
                        i <= s.schema_tbs@.len(),
                        total == VEC_HEADER_BYTES + pair_lens_from(s.schema_tbs@, 0)
                            + utf8_len(s.unparsed@) + 1,
                        total <= u64::MAX,
                        size as int + pair_lens_from(s.schema_tbs@, i as int) + utf8_len(s.unparsed@)
                            + 1 == total,
                    decreases s.schema_tbs@.len() - i,
                {
                    proof {
                        lemma_pair_lens_nonneg(s.schema_tbs@, i + 1);
                    }
                    size = size + str_len64(s.schema_tbs[i].0.as_str()) + str_len64(
                        s.schema_tbs[i].1.as_str(),
                    );
                    i = i + 1;
                }
                size + str_len64(s.unparsed.as_str()) + 1
            }
            DdlStatement::RenameMultiTable(s) => {
                let mut size: u64 = 2 * VEC_HEADER_BYTES;
                let ghost total = self.malloc_size_spec();
                proof {
                    lemma_pair_lens_nonneg(s.new_schema_tbs@, 0);
                }
                let mut i: usize = 0;
                while i < s.schema_tbs.len()
                    invariant
                        i <= s.schema_tbs@.len(),
                        total == 2 * VEC_HEADER_BYTES + pair_lens_from(s.schema_tbs@, 0)
                            + pair_lens_from(s.new_schema_tbs@, 0) + utf8_len(s.unparsed@) + 1,
                        total <= u64::MAX,
                        pair_lens_from(s.new_schema_tbs@, 0) >= 0,
                        size as int + pair_lens_from(s.schema_tbs@, i as int) + pair_lens_from(
                            s.new_schema_tbs@,
                            0,
                        ) + utf8_len(s.unparsed@) + 1 == total,
                    decreases s.schema_tbs@.len() - i,
                {
                    proof {
                        lemma_pair_lens_nonneg(s.schema_tbs@, i + 1);
                    }
                    size = size + str_len64(s.schema_tbs[i].0.as_str()) + str_len64(
                        s.schema_tbs[i].1.as_str(),
                    );
                    i = i + 1;
                }
                let mut j: usize = 0;
                while j < s.new_schema_tbs.len()
                    invariant
                        j <= s.new_schema_tbs@.len(),
                        total <= u64::MAX,
                        size as int + pair_lens_from(s.new_schema_tbs@, j as int)
                            + utf8_len(s.unparsed@) + 1 == total,
                    decreases s.new_schema_tbs@.len() - j,
                {
                    proof {
                        lemma_pair_lens_nonneg(s.new_schema_tbs@, j + 1);
                    }
                    size = size + str_len64(s.new_schema_tbs[j].0.as_str()) + str_len64(
                        s.new_schema_tbs[j].1.as_str(),
                    );
                    j = j + 1;
                }
                size + str_len64(s.unparsed.as_str()) + 1
            }
            DdlStatement::DropTable(s) => {
                str_len64(s.schema.as_str()) + str_len64(s.tb.as_str()) + str_len64(
                    s.unparsed.as_str(),
                ) + 1
            }
            DdlStatement::RenameTable(s) => {
                str_len64(s.schema.as_str()) + str_len64(s.tb.as_str()) + str_len64(
                    s.new_schema.as_str(),
                ) + str_len64(s.new_tb.as_str()) + str_len64(s.unparsed.as_str())
            }
            DdlStatement::MysqlCreateIndex(s) => {
                str_len64(s.db.as_str()) + str_len64(s.tb.as_str()) + str_len64(
                    s.index_name.as_str(),
                ) + str_len64(s.unparsed.as_str()) + 2 * OPT_STRING_HEADER_BYTES + opt_len64(
                    &s.index_kind,
                ) + opt_len64(&s.index_type)
            }
            DdlStatement::MysqlDropIndex(s) => {
                str_len64(s.db.as_str()) + str_len64(s.tb.as_str()) + str_len64(
                    s.index_name.as_str(),
                ) + str_len64(s.unparsed.as_str())
            }
            DdlStatement::Unknown => 0,
        }
    }
}

/// Splitting a multi-table drop yields exactly one `DropTable` per
/// (schema, table) pair, in order, each sharing the `if_exists` flag and
/// the unparsed tail of the multi statement.
pub proof fn lemma_split_drop_multi(s: DropMultiTableStatement)
    ensures
        ({
            let parts = DdlStatement::DropMultiTable(s).split_spec();
            &&& parts.len() == s.schema_tbs@.len()
            &&& forall|i: int|
                0 <= i < parts.len() ==> parts[i] == DdlStatement::DropTable(
                    DropTableStatement {
                        schema: s.schema_tbs@[i].0,
                        tb: s.schema_tbs@[i].1,
                        if_exists: s.if_exists,
                        unparsed: s.unparsed,
                    },
                )
        }),
{
}

/// Splitting a multi-rename yields exactly one `RenameTable` per pair,
/// in order, carrying the matching target pair and the unparsed tail.
pub proof fn lemma_split_rename_multi(s: RenameMultiTableStatement)
    ensures
        ({
            let parts = DdlStatement::RenameMultiTable(s).split_spec();
            &&& parts.len() == s.schema_tbs@.len()
            &&& forall|i: int|
                0 <= i < parts.len() ==> parts[i] == DdlStatement::RenameTable(
                    RenameTableStatement {
                        schema: s.schema_tbs@[i].0,
                        tb: s.schema_tbs@[i].1,
                        new_schema: s.new_schema_tbs@[i].0,
                        new_tb: s.new_schema_tbs@[i].1,
                        unparsed: s.unparsed,
                    },
                )
        }),
{
}

impl DdlStatement {
    /// For a single-table, non-rename statement: what stands before the
    /// table name in its SQL, and its unparsed tail. Both depend only on
    /// the statement's flags and non-table identifiers, never on its
    /// schema or table name.
    pub open spec fn single_table_sql_parts(&self, db_type: DbType) -> Option<(Seq<char>, Seq<
        char,
    >)> {
        match self {
            DdlStatement::MysqlCreateTable(s) => Some(
                (
                    if s.if_not_exists {
                        "CREATE TABLE"@ + " IF NOT EXISTS"@
                    } else {
                        "CREATE TABLE"@
                    },
                    s.unparsed@,
                ),
            ),
            DdlStatement::MysqlAlterTable(s) => Some(("ALTER TABLE"@, s.unparsed@)),
            DdlStatement::MysqlTruncateTable(s) => Some(("TRUNCATE TABLE"@, s.unparsed@)),
            DdlStatement::MysqlCreateIndex(s) => {
                let head0 = match s.index_kind {
                    Some(kind) => "CREATE"@ + " "@ + upper_of(kind@),
                    None => "CREATE"@,
                };
                let head1 = append_identifier_spec(
                    head0 + " INDEX"@,
                    s.index_name@,
                    true,
                    db_type,
                );
                let head2 = match s.index_type {
                    Some(t) => head1 + " USING "@ + upper_of(t@),
                    None => head1,
                };
                Some((head2 + " ON"@, s.unparsed@))
            },
            DdlStatement::MysqlDropIndex(s) => Some(
                (
                    append_identifier_spec("DROP INDEX"@, s.index_name@, true, db_type) + " ON"@,
                    s.unparsed@,
                ),
            ),
            DdlStatement::PgCreateTable(s) => {
                let head0 = append_opt_str_spec(
                    append_opt_str_spec("CREATE"@, s.temporary),
                    s.unlogged,
                ) + " TABLE"@;
                Some(
                    (
                        if s.if_not_exists {
                            head0 + " IF NOT EXISTS"@
                        } else {
                            head0
                        },
                        s.unparsed@,
                    ),
                )
            },
            DdlStatement::PgAlterTable(s) => {
                let head0 = if s.if_exists {
                    "ALTER TABLE"@ + " IF EXISTS"@
                } else {
                    "ALTER TABLE"@
                };
                Some(
                    (
                        if s.is_only {
                            head0 + " ONLY"@
                        } else {
                            head0
                        },
                        s.unparsed@,
                    ),
                )
            },
            DdlStatement::PgTruncateTable(s) => Some(
                (
                    if s.is_only {
                        "TRUNCATE TABLE"@ + " ONLY"@
                    } else {
                        "TRUNCATE TABLE"@
                    },
                    s.unparsed@,
                ),
            ),
            DdlStatement::PgCreateIndex(s) => {
                let head0 = if s.is_unique {
                    "CREATE"@ + " UNIQUE"@
                } else {
                    "CREATE"@
                };
                let head1 = head0 + " INDEX"@;
                let head2 = if s.is_concurrently {
                    head1 + " CONCURRENTLY"@
                } else {
                    head1
                };
                let head3 = if s.if_not_exists {
                    head2 + " IF NOT EXISTS"@
                } else {
                    head2
                };
                let head4 = match s.index_name {
                    Some(name) => append_identifier_spec(head3, name@, true, db_type),
                    None => head3,
                };
                let head5 = head4 + " ON"@;
                Some(
                    (
                        if s.is_only {
                            head5 + " ONLY"@
                        } else {
                            head5
                        },
                        s.unparsed@,
                    ),
                )
            },
            DdlStatement::DropTable(s) => Some(
                (
                    if s.if_exists {
                        "DROP TABLE"@ + " IF EXISTS"@
                    } else {
                        "DROP TABLE"@
                    },
                    s.unparsed@,
                ),
            ),
            _ => None,
        }
    }
}

/// Routing a single-table, non-rename statement with a non-empty source
/// schema makes the destination pair its identifying pair, and its SQL
/// names the destination schema and table exactly once, in the table
/// position: everything before the pair and the unparsed tail after it
/// are byte-identical to the unrouted statement's.
pub proof fn lemma_route_to_sql_names_destination(
    stmt: DdlStatement,
    dst_schema: String,
    dst_tb: String,
    db_type: DbType,
)
    requires
        stmt.single_table_sql_parts(db_type) is Some,
        stmt.schema_tb_spec().0.len() > 0,
    ensures
        ({
            let routed = stmt.route_spec(dst_schema, dst_tb);
            let parts = stmt.single_table_sql_parts(db_type)->Some_0;
            &&& routed.schema_tb_spec() == (dst_schema@, dst_tb@)
            &&& routed.single_table_sql_parts(db_type) == stmt.single_table_sql_parts(db_type)
            &&& routed.to_sql_spec(db_type) == (if dst_schema@.len() > 0 {
                append_unparsed_spec(
                    parts.0 + " "@ + quoted_identifier(dst_schema@, db_type) + "."@
                        + quoted_identifier(dst_tb@, db_type),
                    parts.1,
                )
            } else {
                // An empty destination schema is left out, so only the
                // table name is emitted.
                append_unparsed_spec(
                    parts.0 + " "@ + quoted_identifier(dst_tb@, db_type),
                    parts.1,
                )
            })
        }),
{
}

/// The byte length of a string, widened to u64.
fn str_len64(s: &str) -> (r: u64)
    requires
        utf8_len(s@) <= u64::MAX,
    ensures
        r as int == utf8_len(s@),
{
    utf8_len64(s)
}

/// The byte length of an optional string, widened to u64.
fn opt_len64(o: &Option<String>) -> (r: u64)
    requires
        opt_len(*o) <= u64::MAX,
    ensures
        r as int == opt_len(*o),
{
    match o {
        Some(s) => str_len64(s.as_str()),
        None => 0,
    }
}

/// `sql`, a space, and the quoted table, prefixed by the quoted schema and
/// a dot when the schema is non-empty.
pub open spec fn append_tb_spec(
    sql: Seq<char>,
    schema: Seq<char>,
    tb: Seq<char>,
    db_type: DbType,
) -> Seq<char> {
    if schema.len() == 0 {
        sql + " "@ + quoted_identifier(tb, db_type)
    } else {
        sql + " "@ + quoted_identifier(schema, db_type) + "."@ + quoted_identifier(tb, db_type)
    }
}

/// `sql` with a space and the word appended when present.
pub open spec fn append_opt_str_spec(sql: Seq<char>, opt: Option<String>) -> Seq<char> {
    match opt {
        Some(s) => sql + " "@ + s@,
        None => sql,
    }
}

/// `sql` with the quoted identifier appended, after a space if asked.
pub open spec fn append_identifier_spec(
    sql: Seq<char>,
    id: Seq<char>,
    with_white_space: bool,
    db_type: DbType,
) -> Seq<char> {
    if with_white_space {
        sql + " "@ + quoted_identifier(id, db_type)
    } else {
        sql + quoted_identifier(id, db_type)
    }
}

/// `sql` with the unparsed tail appended after one space when non-empty.
pub open spec fn append_unparsed_spec(sql: Seq<char>, unparsed: Seq<char>) -> Seq<char> {
    if unparsed.len() > 0 {
        sql + " "@ + unparsed
    } else {
        sql
    }
}

fn append_tb(sql: &str, schema: &str, tb: &str, db_type: &DbType) -> (r: String)
    ensures
        r@ == append_tb_spec(sql@, schema@, tb@, *db_type),
{
    let tb_esc = escape_identifier(tb, db_type);
    if schema.is_empty() {
        let mut r = sql.to_owned();
        r.append(" ");
        r.append(tb_esc.as_str());
        r
    } else {
        let schema_esc = escape_identifier(schema, db_type);
        let mut r = sql.to_owned();
        r.append(" ");
        r.append(schema_esc.as_str());
        r.append(".");
        r.append(tb_esc.as_str());
        r
    }
}

fn append_opt_str(sql: &str, opt_str: &Option<String>) -> (r: String)
    ensures
        r@ == append_opt_str_spec(sql@, *opt_str),
{
    match opt_str {
        Some(s) => {
            let mut r = sql.to_owned();
            r.append(" ");
            r.append(s.as_str());
            r
        }
        None => sql.to_owned(),
    }
}

fn append_identifier(sql: &str, identifier: &str, with_white_space: bool, db_type: &DbType) -> (r:
    String)
    ensures
        r@ == append_identifier_spec(sql@, identifier@, with_white_space, *db_type),
{
    let id_esc = escape_identifier(identifier, db_type);
    let mut r = sql.to_owned();
    if with_white_space {
        r.append(" ");
    }
    r.append(id_esc.as_str());
    r
}

fn append_unparsed(sql: String, unparsed: &str) -> (r: String)
    ensures
        r@ == append_unparsed_spec(sql@, unparsed@),
{
    if !unparsed.is_empty() {
        let mut r = sql;
        r.append(" ");
        r.append(unparsed);
        return r;
    }
    sql
}

fn escape_identifier(identifier: &str, db_type: &DbType) -> (r: String)
    ensures
        r@ == quoted_identifier(identifier@, *db_type),
{
    escape_identifier_for(identifier, db_type)
}

/// The quoted tables appended one after the other, from index `i` on.
pub open spec fn append_tbs_from(
    sql: Seq<char>,
    tbs: Seq<(String, String)>,
    i: int,
    db_type: DbType,
) -> Seq<char>
    decreases tbs.len() - i,
{
    if i < 0 || i >= tbs.len() {
        sql
    } else {
        append_tbs_from(append_tb_spec(sql, tbs[i].0@, tbs[i].1@, db_type), tbs, i + 1, db_type)
    }
}

/// The `old TO new` clauses of a multi-rename from index `i` on, comma
/// separated.
pub open spec fn rename_items_from(
    sql: Seq<char>,
    tbs: Seq<(String, String)>,
    news: Seq<(String, String)>,
    i: int,
    db_type: DbType,
) -> Seq<char>
    decreases tbs.len() - i,
{
    if i < 0 || i >= tbs.len() {
        sql
    } else {
        let with_pair = append_tb_spec(
            append_tb_spec(sql, tbs[i].0@, tbs[i].1@, db_type) + " TO"@,
            news[i].0@,
            news[i].1@,
            db_type,
        );
        let with_comma = if i < tbs.len() - 1 {
            with_pair + ","@
        } else {
            with_pair
        };
        rename_items_from(with_comma, tbs, news, i + 1, db_type)
    }
}

/// The quoted index names from index `i` on, comma separated.
pub open spec fn index_names_from(
    sql: Seq<char>,
    names: Seq<String>,
    i: int,
    db_type: DbType,
) -> Seq<char>
    decreases names.len() - i,
{
    if i < 0 || i >= names.len() {
        sql
    } else {
        let with_name = append_identifier_spec(sql, names[i]@, true, db_type);
        let with_comma = if i < names.len() - 1 {
            with_name + ","@
        } else {
            with_name
        };
        index_names_from(with_comma, names, i + 1, db_type)
    }
}

impl DropMultiTableStatement {
    pub open spec fn to_sql_spec(&self, db_type: DbType) -> Seq<char> {
        let head = if self.if_exists {
            "DROP TABLE"@ + " IF EXISTS"@
        } else {
            "DROP TABLE"@
        };
        append_unparsed_spec(append_tbs_from(head, self.schema_tbs@, 0, db_type), self.unparsed@)
    }

    pub fn to_sql(&self, db_type: &DbType) -> (r: String)
        ensures
            r@ == self.to_sql_spec(*db_type),
    {
        let mut sql = String::from_str("DROP TABLE");
        if self.if_exists {
            sql.append(" IF EXISTS");
        }
        let ghost head = sql@;
        let mut i: usize = 0;
        while i < self.schema_tbs.len()
            invariant
                i <= self.schema_tbs@.len(),
                append_tbs_from(head, self.schema_tbs@, 0, *db_type) == append_tbs_from(
                    sql@,
                    self.schema_tbs@,
                    i as int,
                    *db_type,
                ),
            decreases self.schema_tbs@.len() - i,
        {
            sql = append_tb(
                sql.as_str(),
                self.schema_tbs[i].0.as_str(),
                self.schema_tbs[i].1.as_str(),
                db_type,
            );
            i = i + 1;
        }
        append_unparsed(sql, self.unparsed.as_str())
    }
}

impl RenameMultiTableStatement {
    pub open spec fn to_sql_spec(&self, db_type: DbType) -> Seq<char> {
        rename_items_from("RENAME TABLE"@, self.schema_tbs@, self.new_schema_tbs@, 0, db_type)
    }

    pub fn to_sql(&self, db_type: &DbType) -> (r: String)
        requires
            self.new_schema_tbs@.len() == self.schema_tbs@.len(),
        ensures
            r@ == self.to_sql_spec(*db_type),
    {
        let mut sql = String::from_str("RENAME TABLE");
        let ghost head = sql@;
        let mut i: usize = 0;
        while i < self.schema_tbs.len()
            invariant
                i <= self.schema_tbs@.len(),
                self.new_schema_tbs@.len() == self.schema_tbs@.len(),
                rename_items_from(head, self.schema_tbs@, self.new_schema_tbs@, 0, *db_type)
                    == rename_items_from(
                    sql@,
                    self.schema_tbs@,
                    self.new_schema_tbs@,
                    i as int,
                    *db_type,
                ),
            decreases self.schema_tbs@.len() - i,
        {
            sql = append_tb(
                sql.as_str(),
                self.schema_tbs[i].0.as_str(),
                self.schema_tbs[i].1.as_str(),
                db_type,
            );
            sql.append(" TO");
            sql = append_tb(
                sql.as_str(),
                self.new_schema_tbs[i].0.as_str(),
                self.new_schema_tbs[i].1.as_str(),
                db_type,
            );
            if i < self.schema_tbs.len() - 1 {
                sql.append(",");
            }
            i = i + 1;
        }
        sql
    }
}

impl PgDropMultiIndexStatement {
    pub open spec fn to_sql_spec(&self, db_type: DbType) -> Seq<char> {
        let head0 = "DROP INDEX"@;
        let head1 = if self.is_concurrently {
            head0 + " CONCURRENTLY"@
        } else {
            head0
        };
        let head2 = if self.if_exists {
            head1 + " IF EXISTS"@
        } else {
            head1
        };
        append_unparsed_spec(index_names_from(head2, self.index_names@, 0, db_type), self.unparsed@)
    }

    pub fn to_sql(&self, db_type: &DbType) -> (r: String)
        ensures
            r@ == self.to_sql_spec(*db_type),
    {
        let mut sql = String::from_str("DROP INDEX");
        if self.is_concurrently {
            sql.append(" CONCURRENTLY");
        }
        if self.if_exists {
            sql.append(" IF EXISTS");
        }
        let ghost head = sql@;
        let mut i: usize = 0;
        while i < self.index_names.len()
            invariant
                i <= self.index_names@.len(),
                index_names_from(head, self.index_names@, 0, *db_type) == index_names_from(
                    sql@,
                    self.index_names@,
                    i as int,
                    *db_type,
                ),
            decreases self.index_names@.len() - i,
        {
            sql = append_identifier(sql.as_str(), self.index_names[i].as_str(), true, db_type);
            if i < self.index_names.len() - 1 {
                sql.append(",");
            }
            i = i + 1;
        }
        append_unparsed(sql, self.unparsed.as_str())
    }
}

impl DdlStatement {
    /// The canonical SQL text of the statement for a dialect: fixed
    /// keyword sequences for the flags, dialect quoting for identifiers,
    /// and the unparsed tail after one space. `Unknown` yields the empty
    /// string.
    pub open spec fn to_sql_spec(&self, db_type: DbType) -> Seq<char> {
        match self {
            DdlStatement::CreateDatabase(s) => {
                let head = if s.if_not_exists {
                    "CREATE DATABASE"@ + " IF NOT EXISTS"@
                } else {
                    "CREATE DATABASE"@
                };
                append_unparsed_spec(
                    append_identifier_spec(head, s.db@, true, db_type),
                    s.unparsed@,
                )
            },
            DdlStatement::DropDatabase(s) => {
                let head = if s.if_exists {
                    "DROP DATABASE"@ + " IF EXISTS"@
                } else {
                    "DROP DATABASE"@
                };
                append_unparsed_spec(
                    append_identifier_spec(head, s.db@, true, db_type),
                    s.unparsed@,
                )
            },
            DdlStatement::AlterDatabase(s) => append_unparsed_spec(
                append_identifier_spec("ALTER DATABASE"@, s.db@, true, db_type),
                s.unparsed@,
            ),
            DdlStatement::CreateSchema(s) => {
                let head = if s.if_not_exists {
                    "CREATE SCHEMA"@ + " IF NOT EXISTS"@
                } else {
                    "CREATE SCHEMA"@
                };
                append_unparsed_spec(
                    append_identifier_spec(head, s.schema@, true, db_type),
                    s.unparsed@,
                )
            },
            DdlStatement::DropSchema(s) => {
                let head = if s.if_exists {
                    "DROP SCHEMA"@ + " IF EXISTS"@
                } else {
                    "DROP SCHEMA"@
                };
                append_unparsed_spec(
                    append_identifier_spec(head, s.schema@, true, db_type),
                    s.unparsed@,
                )
            },
            DdlStatement::AlterSchema(s) => append_unparsed_spec(
                append_identifier_spec("ALTER SCHEMA"@, s.schema@, true, db_type),
                s.unparsed@,
            ),
            DdlStatement::MysqlCreateTable(s) => {
                let head = if s.if_not_exists {
                    "CREATE TABLE"@ + " IF NOT EXISTS"@
                } else {
                    "CREATE TABLE"@
                };
                append_unparsed_spec(append_tb_spec(head, s.db@, s.tb@, db_type), s.unparsed@)
            },
            DdlStatement::PgCreateTable(s) => {
                let head0 = append_opt_str_spec(
                    append_opt_str_spec("CREATE"@, s.temporary),
                    s.unlogged,
                ) + " TABLE"@;
                let head = if s.if_not_exists {
                    head0 + " IF NOT EXISTS"@
                } else {
                    head0
                };
                append_unparsed_spec(append_tb_spec(head, s.schema@, s.tb@, db_type), s.unparsed@)
            },
            DdlStatement::DropMultiTable(s) => s.to_sql_spec(db_type),
            DdlStatement::DropTable(s) => {
                let head = if s.if_exists {
                    "DROP TABLE"@ + " IF EXISTS"@
                } else {
                    "DROP TABLE"@
                };
                append_unparsed_spec(append_tb_spec(head, s.schema@, s.tb@, db_type), s.unparsed@)
            },
            DdlStatement::MysqlTruncateTable(s) => append_unparsed_spec(
                append_tb_spec("TRUNCATE TABLE"@, s.db@, s.tb@, db_type),
                s.unparsed@,
            ),
            DdlStatement::PgTruncateTable(s) => {
                let head = if s.is_only {
                    "TRUNCATE TABLE"@ + " ONLY"@
                } else {
                    "TRUNCATE TABLE"@
                };
                append_unparsed_spec(append_tb_spec(head, s.schema@, s.tb@, db_type), s.unparsed@)
            },
            DdlStatement::MysqlAlterTable(s) => append_unparsed_spec(
                append_tb_spec("ALTER TABLE"@, s.db@, s.tb@, db_type),
                s.unparsed@,
            ),
            DdlStatement::MysqlAlterTableRename(s) => append_unparsed_spec(
                append_tb_spec(
                    append_tb_spec("ALTER TABLE"@, s.db@, s.tb@, db_type) + " RENAME TO"@,
                    s.new_db@,
                    s.new_tb@,
                    db_type,
                ),
                s.unparsed@,
            ),
            DdlStatement::PgAlterTable(s) => {
                let head0 = if s.if_exists {
                    "ALTER TABLE"@ + " IF EXISTS"@
                } else {
                    "ALTER TABLE"@
                };
                let head = if s.is_only {
                    head0 + " ONLY"@
                } else {
                    head0
                };
                append_unparsed_spec(append_tb_spec(head, s.schema@, s.tb@, db_type), s.unparsed@)
            },
            DdlStatement::PgAlterTableRename(s) => {
                let head0 = if s.if_exists {
                    "ALTER TABLE"@ + " IF EXISTS"@
                } else {
                    "ALTER TABLE"@
                };
                let head = if s.is_only {
                    head0 + " ONLY"@
                } else {
                    head0
                };
                append_unparsed_spec(
                    append_tb_spec(
                        append_tb_spec(head, s.schema@, s.tb@, db_type) + " RENAME TO"@,
                        s.new_schema@,
                        s.new_tb@,
                        db_type,
                    ),
                    s.unparsed@,
                )
            },
            DdlStatement::PgAlterTableSetSchema(s) => {
                let head0 = if s.if_exists {
                    "ALTER TABLE"@ + " IF EXISTS"@
                } else {
                    "ALTER TABLE"@
                };
                let head = if s.is_only {
                    head0 + " ONLY"@
                } else {
                    head0
                };
                append_unparsed_spec(
                    append_identifier_spec(
                        append_tb_spec(head, s.schema@, s.tb@, db_type) + " SET SCHEMA"@,
                        s.new_schema@,
                        true,
                        db_type,
                    ),
                    s.unparsed@,
                )
            },
            DdlStatement::RenameMultiTable(s) => s.to_sql_spec(db_type),
            DdlStatement::RenameTable(s) => append_tb_spec(
                append_tb_spec("RENAME TABLE"@, s.schema@, s.tb@, db_type) + " TO"@,
                s.new_schema@,
                s.new_tb@,
                db_type,
            ),
            DdlStatement::MysqlCreateIndex(s) => {
                let head0 = match s.index_kind {
                    Some(kind) => "CREATE"@ + " "@ + upper_of(kind@),
                    None => "CREATE"@,
                };
                let head1 = append_identifier_spec(
                    head0 + " INDEX"@,
                    s.index_name@,
                    true,
                    db_type,
                );
                let head2 = match s.index_type {
                    Some(t) => head1 + " USING "@ + upper_of(t@),
                    None => head1,
                };
                append_unparsed_spec(
                    append_tb_spec(head2 + " ON"@, s.db@, s.tb@, db_type),
                    s.unparsed@,
                )
            },
            DdlStatement::PgCreateIndex(s) => {
                let head0 = if s.is_unique {
                    "CREATE"@ + " UNIQUE"@
                } else {
                    "CREATE"@
                };
                let head1 = head0 + " INDEX"@;
                let head2 = if s.is_concurrently {
                    head1 + " CONCURRENTLY"@
                } else {
                    head1
                };
                let head3 = if s.if_not_exists {
                    head2 + " IF NOT EXISTS"@
                } else {
                    head2
                };
                let head4 = match s.index_name {
                    Some(name) => append_identifier_spec(head3, name@, true, db_type),
                    None => head3,
                };
                let head5 = head4 + " ON"@;
                let head6 = if s.is_only {
                    head5 + " ONLY"@
                } else {
                    head5
                };
                append_unparsed_spec(
                    append_tb_spec(head6, s.schema@, s.tb@, db_type),
                    s.unparsed@,
                )
            },
            DdlStatement::MysqlDropIndex(s) => append_unparsed_spec(
                append_tb_spec(
                    append_identifier_spec("DROP INDEX"@, s.index_name@, true, db_type) + " ON"@,
                    s.db@,
                    s.tb@,
                    db_type,
                ),
                s.unparsed@,
            ),
            DdlStatement::PgDropMultiIndex(s) => s.to_sql_spec(db_type),
            DdlStatement::PgDropIndex(s) => {
                let head0 = "DROP INDEX"@;
                let head1 = if s.is_concurrently {
                    head0 + " CONCURRENTLY"@
                } else {
                    head0
                };
                let head2 = if s.if_exists {
                    head1 + " IF EXISTS"@
                } else {
                    head1
                };
                append_unparsed_spec(
                    append_identifier_spec(head2, s.index_name@, true, db_type),
                    s.unparsed@,
                )
            },
            DdlStatement::Unknown => Seq::<char>::empty(),
        }
    }

    /// Reconstruct the canonical SQL for a dialect.
    pub fn to_sql(&self, db_type: &DbType) -> (r: String)
        requires
            self.wf(),
        ensures
            r@ == self.to_sql_spec(*db_type),
    {
        match self {
            DdlStatement::CreateDatabase(s) => {
                let mut sql = String::from_str("CREATE DATABASE");
                if s.if_not_exists {
                    sql.append(" IF NOT EXISTS");
                }
                let sql = append_identifier(sql.as_str(), s.db.as_str(), true, db_type);
                append_unparsed(sql, s.unparsed.as_str())
            }
            DdlStatement::DropDatabase(s) => {
                let mut sql = String::from_str("DROP DATABASE");
                if s.if_exists {
                    sql.append(" IF EXISTS");
                }
                let sql = append_identifier(sql.as_str(), s.db.as_str(), true, db_type);
                append_unparsed(sql, s.unparsed.as_str())
            }
            DdlStatement::AlterDatabase(s) => {
                let sql = String::from_str("ALTER DATABASE");
                let sql = append_identifier(sql.as_str(), s.db.as_str(), true, db_type);
                append_unparsed(sql, s.unparsed.as_str())
            }
            DdlStatement::CreateSchema(s) => {
                let mut sql = String::from_str("CREATE SCHEMA");
                if s.if_not_exists {
                    sql.append(" IF NOT EXISTS");
                }
                let sql = append_identifier(sql.as_str(), s.schema.as_str(), true, db_type);
                append_unparsed(sql, s.unparsed.as_str())
            }
            DdlStatement::DropSchema(s) => {
                let mut sql = String::from_str("DROP SCHEMA");
                if s.if_exists {
                    sql.append(" IF EXISTS");
                }
                let sql = append_identifier(sql.as_str(), s.schema.as_str(), true, db_type);
                append_unparsed(sql, s.unparsed.as_str())
            }
            DdlStatement::AlterSchema(s) => {
                let sql = String::from_str("ALTER SCHEMA");
                let sql = append_identifier(sql.as_str(), s.schema.as_str(), true, db_type);
                append_unparsed(sql, s.unparsed.as_str())
            }
            DdlStatement::MysqlCreateTable(s) => {
                let mut sql = String::from_str("CREATE TABLE");
                if s.if_not_exists {
                    sql.append(" IF NOT EXISTS");
                }
                let sql = append_tb(sql.as_str(), s.db.as_str(), s.tb.as_str(), db_type);
                append_unparsed(sql, s.unparsed.as_str())
            }
            DdlStatement::PgCreateTable(s) => {
                let sql = String::from_str("CREATE");
                let sql = append_opt_str(sql.as_str(), &s.temporary);
                let mut sql = append_opt_str(sql.as_str(), &s.unlogged);
                sql.append(" TABLE");
                if s.if_not_exists {
                    sql.append(" IF NOT EXISTS");
                }
                let sql = append_tb(sql.as_str(), s.schema.as_str(), s.tb.as_str(), db_type);
                append_unparsed(sql, s.unparsed.as_str())
            }
            DdlStatement::DropMultiTable(s) => s.to_sql(db_type),
            DdlStatement::DropTable(s) => {
                let mut schema_tbs: Vec<(String, String)> = Vec::new();
                schema_tbs.push((s.schema.clone(), s.tb.clone()));
                let multi_s = DropMultiTableStatement {
                    if_exists: s.if_exists,
                    schema_tbs,
                    unparsed: s.unparsed.clone(),
                };
                let r = multi_s.to_sql(db_type);
                proof {
                    let head = if s.if_exists {
                        "DROP TABLE"@ + " IF EXISTS"@
                    } else {
                        "DROP TABLE"@
                    };
                    let tbs = multi_s.schema_tbs@;
                    assert(append_tbs_from(head, tbs, 0, *db_type) == append_tbs_from(
                        append_tb_spec(head, s.schema@, s.tb@, *db_type),
                        tbs,
                        1,
                        *db_type,
                    ));
                }
                r
            }
            DdlStatement::MysqlTruncateTable(s) => {
                let sql = String::from_str("TRUNCATE TABLE");
                let sql = append_tb(sql.as_str(), s.db.as_str(), s.tb.as_str(), db_type);
                append_unparsed(sql, s.unparsed.as_str())
            }
            DdlStatement::PgTruncateTable(s) => {
                let mut sql = String::from_str("TRUNCATE TABLE");
                if s.is_only {
                    sql.append(" ONLY");
                }
                let sql = append_tb(sql.as_str(), s.schema.as_str(), s.tb.as_str(), db_type);
                append_unparsed(sql, s.unparsed.as_str())
            }
            DdlStatement::MysqlAlterTable(s) => {
                let sql = String::from_str("ALTER TABLE");
                let sql = append_tb(sql.as_str(), s.db.as_str(), s.tb.as_str(), db_type);
                append_unparsed(sql, s.unparsed.as_str())
            }
            DdlStatement::MysqlAlterTableRename(s) => {
                let sql = String::from_str("ALTER TABLE");
                let mut sql = append_tb(sql.as_str(), s.db.as_str(), s.tb.as_str(), db_type);
                sql.append(" RENAME TO");
                let sql = append_tb(sql.as_str(), s.new_db.as_str(), s.new_tb.as_str(), db_type);
                append_unparsed(sql, s.unparsed.as_str())
            }
            DdlStatement::PgAlterTable(s) => {
                let mut sql = String::from_str("ALTER TABLE");
                if s.if_exists {
                    sql.append(" IF EXISTS");
                }
                if s.is_only {
                    sql.append(" ONLY");
                }
                let sql = append_tb(sql.as_str(), s.schema.as_str(), s.tb.as_str(), db_type);
                append_unparsed(sql, s.unparsed.as_str())
            }
            DdlStatement::PgAlterTableRename(s) => {
                let mut sql = String::from_str("ALTER TABLE");
                if s.if_exists {
                    sql.append(" IF EXISTS");
                }
                if s.is_only {
                    sql.append(" ONLY");
                }
                let mut sql = append_tb(sql.as_str(), s.schema.as_str(), s.tb.as_str(), db_type);
                sql.append(" RENAME TO");
                let sql = append_tb(
                    sql.as_str(),
                    s.new_schema.as_str(),
                    s.new_tb.as_str(),
                    db_type,
                );
                append_unparsed(sql, s.unparsed.as_str())
            }
            DdlStatement::PgAlterTableSetSchema(s) => {
                let mut sql = String::from_str("ALTER TABLE");
                if s.if_exists {
                    sql.append(" IF EXISTS");
                }
                if s.is_only {
                    sql.append(" ONLY");
                }
                let mut sql = append_tb(sql.as_str(), s.schema.as_str(), s.tb.as_str(), db_type);
                sql.append(" SET SCHEMA");
                let sql = append_identifier(sql.as_str(), s.new_schema.as_str(), true, db_type);
                append_unparsed(sql, s.unparsed.as_str())
            }
            DdlStatement::RenameMultiTable(s) => s.to_sql(db_type),
            DdlStatement::RenameTable(s) => {
                let sql = String::from_str("RENAME TABLE");
                let mut sql = append_tb(sql.as_str(), s.schema.as_str(), s.tb.as_str(), db_type);
                sql.append(" TO");
                let sql = append_tb(
                    sql.as_str(),
                    s.new_schema.as_str(),
                    s.new_tb.as_str(),
                    db_type,
                );
                sql
            }
            DdlStatement::MysqlCreateIndex(s) => {
                let mut sql = String::from_str("CREATE");
                match &s.index_kind {
                    Some(index_kind) => {
                        sql.append(" ");
                        let upper = to_uppercase_str(index_kind.as_str());
                        sql.append(upper.as_str());
                    }
                    None => {}
                }
                sql.append(" INDEX");
                let sql = append_identifier(sql.as_str(), s.index_name.as_str(), true, db_type);
                let mut sql = sql;
                match &s.index_type {
                    Some(index_type) => {
                        sql.append(" USING ");
                        let upper = to_uppercase_str(index_type.as_str());
                        sql.append(upper.as_str());
                    }
                    None => {}
                }
                sql.append(" ON");
                let sql = append_tb(sql.as_str(), s.db.as_str(), s.tb.as_str(), db_type);
                append_unparsed(sql, s.unparsed.as_str())
            }
            DdlStatement::PgCreateIndex(s) => {
                let mut sql = String::from_str("CREATE");
                if s.is_unique {
                    sql.append(" UNIQUE");
                }
                sql.append(" INDEX");
                if s.is_concurrently {
                    sql.append(" CONCURRENTLY");
                }
                if s.if_not_exists {
                    sql.append(" IF NOT EXISTS");
                }
                let sql = match &s.index_name {
                    Some(index_name) => append_identifier(
                        sql.as_str(),
                        index_name.as_str(),
                        true,
                        db_type,
                    ),
                    None => sql,
                };
                let mut sql = sql;
                sql.append(" ON");
                if s.is_only {
                    sql.append(" ONLY");
                }
                let sql = append_tb(sql.as_str(), s.schema.as_str(), s.tb.as_str(), db_type);
                append_unparsed(sql, s.unparsed.as_str())
            }
            DdlStatement::MysqlDropIndex(s) => {
                let sql = String::from_str("DROP INDEX");
                let mut sql = append_identifier(
                    sql.as_str(),
                    s.index_name.as_str(),
                    true,
                    db_type,
                );
                sql.append(" ON");
                let sql = append_tb(sql.as_str(), s.db.as_str(), s.tb.as_str(), db_type);
                append_unparsed(sql, s.unparsed.as_str())
            }
            DdlStatement::PgDropMultiIndex(s) => s.to_sql(db_type),
            DdlStatement::PgDropIndex(s) => {
                let mut index_names: Vec<String> = Vec::new();
                index_names.push(s.index_name.clone());
                let multi_s = PgDropMultiIndexStatement {
                    if_exists: s.if_exists,
                    is_concurrently: s.is_concurrently,
                    unparsed: s.unparsed.clone(),
                    index_names,
                };
                let r = multi_s.to_sql(db_type);
                proof {
                    let head0 = "DROP INDEX"@;
                    let head1 = if s.is_concurrently {
                        head0 + " CONCURRENTLY"@
                    } else {
                        head0
                    };
                    let head2 = if s.if_exists {
                        head1 + " IF EXISTS"@
                    } else {
                        head1
                    };
                    let names = multi_s.index_names@;
                    assert(index_names_from(head2, names, 0, *db_type) == index_names_from(
                        append_identifier_spec(head2, s.index_name@, true, *db_type),
                        names,
                        1,
                        *db_type,
                    ));
                }
                r
            }
            DdlStatement::Unknown => String::new(),
        }
    }
}

} // verus!
