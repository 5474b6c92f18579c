use dt_core::db_type::DbType;
use dt_core::ddl_statement::{
    DdlStatement, DropMultiTableStatement, DropTableStatement, MysqlCreateIndexStatement,
    PgCreateTableStatement, RenameMultiTableStatement, RenameTableStatement,
};

#[test]
fn test_drop_multi_table_to_sql_mysql() {
    let stmt = DropMultiTableStatement {
        schema_tbs: vec![
            ("s1".to_string(), "t1".to_string()),
            ("s2".to_string(), "t2".to_string()),
        ],
        if_exists: true,
        unparsed: String::new(),
    };
    assert_eq!(
        stmt.to_sql(&DbType::Mysql),
        "DROP TABLE IF EXISTS `s1`.`t1` `s2`.`t2`"
    );
}

#[test]
fn test_rename_multi_table_to_sql_mysql() {
    let stmt = RenameMultiTableStatement {
        schema_tbs: vec![
            ("a".to_string(), "b".to_string()),
            ("c".to_string(), "d".to_string()),
        ],
        new_schema_tbs: vec![
            ("e".to_string(), "f".to_string()),
            ("g".to_string(), "h".to_string()),
        ],
        unparsed: String::new(),
    };
    assert_eq!(
        stmt.to_sql(&DbType::Mysql),
        "RENAME TABLE `a`.`b` TO `e`.`f`, `c`.`d` TO `g`.`h`"
    );
}

#[test]
fn test_split_to_multi_expands_drop() {
    let stmt = DdlStatement::DropMultiTable(DropMultiTableStatement {
        schema_tbs: vec![
            ("s1".to_string(), "t1".to_string()),
            ("s2".to_string(), "t2".to_string()),
            ("s3".to_string(), "t3".to_string()),
        ],
        if_exists: true,
        unparsed: "CASCADE".to_string(),
    });
    let parts = stmt.split_to_multi();
    assert_eq!(parts.len(), 3);
    for (i, part) in parts.iter().enumerate() {
        match part {
            DdlStatement::DropTable(s) => {
                assert_eq!(s.schema, format!("s{}", i + 1));
                assert_eq!(s.tb, format!("t{}", i + 1));
                assert!(s.if_exists);
                assert_eq!(s.unparsed, "CASCADE");
            }
            other => panic!("expected a single-table drop, got {:?}", other),
        }
    }
}

#[test]
fn test_route_replaces_nonempty_schema_and_table() {
    let mut stmt = DdlStatement::DropTable(DropTableStatement {
        schema: "src_db".to_string(),
        tb: "src_tb".to_string(),
        if_exists: false,
        unparsed: String::new(),
    });
    stmt.route("dst_db".to_string(), "dst_tb".to_string());
    assert_eq!(stmt.get_schema_tb(), ("dst_db".to_string(), "dst_tb".to_string()));
    assert_eq!(stmt.to_sql(&DbType::Mysql), "DROP TABLE `dst_db`.`dst_tb`");
}

#[test]
fn test_route_keeps_empty_schema_empty() {
    let mut stmt = DdlStatement::DropTable(DropTableStatement {
        schema: String::new(),
        tb: "src_tb".to_string(),
        if_exists: false,
        unparsed: String::new(),
    });
    stmt.route("dst_db".to_string(), "dst_tb".to_string());
    assert_eq!(stmt.get_schema_tb(), (String::new(), "dst_tb".to_string()));
    assert_eq!(stmt.to_sql(&DbType::Mysql), "DROP TABLE `dst_tb`");
}

#[test]
fn test_route_rename_table_rewrites_both_pairs() {
    let mut stmt = DdlStatement::RenameTable(RenameTableStatement {
        schema: "a".to_string(),
        tb: "b".to_string(),
        new_schema: "c".to_string(),
        new_tb: "d".to_string(),
        unparsed: String::new(),
    });
    stmt.route_rename_table(
        "s2".to_string(),
        "t2".to_string(),
        "s3".to_string(),
        "t3".to_string(),
    );
    assert_eq!(stmt.get_schema_tb(), ("s2".to_string(), "t2".to_string()));
    assert_eq!(stmt.get_rename_to_schema_tb(), ("s3".to_string(), "t3".to_string()));
    assert_eq!(
        stmt.to_sql(&DbType::Mysql),
        "RENAME TABLE `s2`.`t2` TO `s3`.`t3`"
    );
}

#[test]
fn test_pg_create_table_to_sql() {
    let stmt = DdlStatement::PgCreateTable(PgCreateTableStatement {
        schema: "public".to_string(),
        tb: "tb_1".to_string(),
        temporary: None,
        unlogged: Some("UNLOGGED".to_string()),
        if_not_exists: true,
        unparsed: "(id int)".to_string(),
    });
    assert_eq!(
        stmt.to_sql(&DbType::Pg),
        "CREATE UNLOGGED TABLE IF NOT EXISTS \"public\".\"tb_1\" (id int)"
    );
}

#[test]
fn test_mysql_create_index_to_sql() {
    let stmt = DdlStatement::MysqlCreateIndex(MysqlCreateIndexStatement {
        db: "d".to_string(),
        tb: "t".to_string(),
        index_name: "idx".to_string(),
        index_kind: Some("unique".to_string()),
        index_type: Some("btree".to_string()),
        unparsed: "(col_1)".to_string(),
    });
    assert_eq!(
        stmt.to_sql(&DbType::Mysql),
        "CREATE UNIQUE INDEX `idx` USING BTREE ON `d`.`t` (col_1)"
    );
}

#[test]
fn test_get_malloc_size_counts_strings_and_overhead() {
    let stmt = DdlStatement::DropTable(DropTableStatement {
        schema: "abc".to_string(),
        tb: "de".to_string(),
        if_exists: true,
        unparsed: "xyzw".to_string(),
    });
    assert_eq!(stmt.get_malloc_size(), 3 + 2 + 4 + 1);

    let wide = DdlStatement::DropTable(DropTableStatement {
        schema: "中文".to_string(),
        tb: "t".to_string(),
        if_exists: false,
        unparsed: String::new(),
    });
    assert_eq!(wide.get_malloc_size(), "中文".len() as u64 + 1 + 0 + 1);

    assert_eq!(DdlStatement::Unknown.get_malloc_size(), 0);
}

#[test]
fn test_unknown_statement_renders_empty() {
    assert_eq!(DdlStatement::Unknown.to_sql(&DbType::Mysql), "");
    let (s, t) = DdlStatement::Unknown.get_schema_tb();
    assert_eq!(s, "");
    assert_eq!(t, "");
}
