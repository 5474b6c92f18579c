use dt_core::cloudcanal_converter::CloudCanalConverter;
use dt_core::col_value::ColValue;
use dt_core::db_type::DbType;
use dt_core::ddl_data::{DdlData, DdlType};
use dt_core::json_converter::JsonConverter;
use dt_core::rdb_meta_manager::{RdbMetaManager, RdbTbMeta};
use dt_core::row_data::{ColMap, RowData, RowType};

fn insert_row(after: ColMap) -> RowData {
    RowData {
        schema: "test_schema".to_string(),
        tb: "test_table".to_string(),
        row_type: RowType::Insert,
        before: None,
        after: Some(after),
        data_size: 100,
    }
}

#[test]
fn test_row_data_to_json() {
    let json_converter = JsonConverter::new(None);

    let mut after = ColMap::new();
    after.insert("id".to_string(), ColValue::Long(123));
    after.insert("name".to_string(), ColValue::Str("test".to_string()));
    after.insert("active".to_string(), ColValue::Bool(true));

    let row_data = insert_row(after);
    let result = json_converter.row_data_to_json_value(row_data);
    assert!(result.is_ok());

    let json_str = result.unwrap();
    let parsed: serde_json::Value = serde_json::from_str(&json_str).unwrap();

    assert_eq!(parsed["operation"], "insert");
    assert_eq!(parsed["schema"], "test_schema");
    assert_eq!(parsed["tb"], "test_table");
    assert!(parsed["after"].is_object());
    assert_eq!(parsed["after"]["id"], 123);
    assert_eq!(parsed["after"]["name"], "test");
    assert_eq!(parsed["after"]["active"], true);
    assert!(parsed.get("before").is_none());
}

#[test]
fn test_ddl_data_to_json() {
    let json_converter = JsonConverter::new(None);

    let ddl_data = DdlData {
        default_schema: "test_schema".to_string(),
        query: "CREATE TABLE test (id INT)".to_string(),
        ddl_type: DdlType::CreateTable,
        db_type: DbType::Mysql,
        statement: Default::default(),
    };

    let result = json_converter.ddl_data_to_json_value(ddl_data);
    assert!(result.is_ok());

    let json_str = result.unwrap();
    let parsed: serde_json::Value = serde_json::from_str(&json_str).unwrap();

    assert_eq!(parsed["ddl"], true);
    assert_eq!(parsed["db_type"], "mysql");
    assert_eq!(parsed["schema"], "test_schema");
    assert_eq!(parsed["query"], "CREATE TABLE test (id INT)");
}

#[test]
fn test_row_key_uses_primary_key_values() {
    let mut meta_manager = RdbMetaManager::new(DbType::Mysql);
    meta_manager.insert_tb_meta(
        "s".to_string(),
        "t".to_string(),
        RdbTbMeta {
            cols: vec!["id".to_string(), "name".to_string()],
            col_origin_type_map: vec![
                ("id".to_string(), "bigint".to_string()),
                ("name".to_string(), "varchar(255)".to_string()),
            ],
            key_map: vec![("primary".to_string(), vec!["id".to_string()])],
        },
    );
    let converter = JsonConverter::new(Some(meta_manager));

    let mut after = ColMap::new();
    after.insert("id".to_string(), ColValue::Long(7));
    after.insert("name".to_string(), ColValue::Str("x".to_string()));
    let mut row = insert_row(after);
    row.schema = "s".to_string();
    row.tb = "t".to_string();

    let key = converter.row_data_to_json_key(&row).unwrap();
    assert_eq!(key, "[7]");
}

#[test]
fn test_row_key_falls_back_without_meta() {
    let converter = JsonConverter::new(None);
    let row = insert_row(ColMap::new());
    let key = converter.row_data_to_json_key(&row).unwrap();
    assert_eq!(key, "test_schema_test_table");
}

#[test]
fn test_cloudcanal_ddl_payload() {
    let converter = CloudCanalConverter::new(None);
    let ddl_data = DdlData {
        default_schema: "s".to_string(),
        query: "CREATE TABLE t (id INT)".to_string(),
        ddl_type: DdlType::CreateTable,
        db_type: DbType::Mysql,
        statement: Default::default(),
    };
    let json_str = converter.ddl_data_to_json_value_at(ddl_data, 1000, 2000).unwrap();
    let parsed: serde_json::Value = serde_json::from_str(&json_str).unwrap();

    assert_eq!(parsed["action"], "DDL");
    assert_eq!(parsed["ddl"], true);
    assert_eq!(parsed["entryType"], "DDL");
    assert_eq!(parsed["sql"], "CREATE TABLE t (id INT)");
    assert_eq!(parsed["db"], "s");
    assert_eq!(parsed["schema"], "s");
    assert_eq!(parsed["table"], "");
    assert_eq!(parsed["bid"], 0);
    assert_eq!(parsed["execTs"], 1000);
    assert_eq!(parsed["sendTs"], 2000);
    assert!(parsed["sql"].is_string());
    assert_eq!(parsed["pks"].as_array().unwrap().len(), 0);
    assert_eq!(parsed["before"].as_array().unwrap().len(), 0);
    assert_eq!(parsed["data"].as_array().unwrap().len(), 0);
    assert_eq!(parsed["dbValType"].as_object().unwrap().len(), 0);
    assert_eq!(parsed["jdbcType"].as_object().unwrap().len(), 0);
}

#[test]
fn test_cloudcanal_row_payload_with_meta() {
    let mut meta_manager = RdbMetaManager::new(DbType::Mysql);
    meta_manager.insert_tb_meta(
        "s".to_string(),
        "t".to_string(),
        RdbTbMeta {
            cols: vec!["id".to_string(), "name".to_string()],
            col_origin_type_map: vec![
                ("id".to_string(), "bigint".to_string()),
                ("name".to_string(), "varchar(255)".to_string()),
            ],
            key_map: vec![("primary".to_string(), vec!["id".to_string()])],
        },
    );
    let converter = CloudCanalConverter::new(Some(meta_manager));

    let mut after = ColMap::new();
    after.insert("id".to_string(), ColValue::Long(1));
    after.insert("name".to_string(), ColValue::Str("n".to_string()));
    let row = RowData {
        schema: "s".to_string(),
        tb: "t".to_string(),
        row_type: RowType::Insert,
        before: None,
        after: Some(after),
        data_size: 10,
    };

    let json_str = converter.row_data_to_json_value_at(row, 5, 6).unwrap();
    let parsed: serde_json::Value = serde_json::from_str(&json_str).unwrap();

    assert_eq!(parsed["action"], "INSERT");
    assert_eq!(parsed["ddl"], false);
    assert_eq!(parsed["entryType"], "ROWDATA");
    assert_eq!(parsed["db"], "s");
    assert_eq!(parsed["table"], "t");
    assert!(parsed["sql"].is_null());
    assert_eq!(parsed["pks"][0], "id");
    assert_eq!(parsed["data"][0]["id"], 1);
    assert_eq!(parsed["data"][0]["name"], "n");
    assert_eq!(parsed["dbValType"]["id"], "bigint");
    assert_eq!(parsed["jdbcType"]["id"], -5);
    assert_eq!(parsed["jdbcType"]["name"], 12);
    assert!(parsed.get("before").is_none());
}

#[test]
fn test_col_value_binary_renders_as_base64() {
    let converter = JsonConverter::new(None);
    let mut after = ColMap::new();
    after.insert("b".to_string(), ColValue::Blob(vec![0u8, 1, 2]));
    let row = insert_row(after);
    let json_str = converter.row_data_to_json_value(row).unwrap();
    let parsed: serde_json::Value = serde_json::from_str(&json_str).unwrap();
    assert_eq!(parsed["after"]["b"], "AAEC");
}

#[test]
fn test_col_value_json_cell_is_embedded_when_valid() {
    let converter = JsonConverter::new(None);
    let mut after = ColMap::new();
    after.insert(
        "j".to_string(),
        ColValue::Json2("{\"name\": \"Alice\", \"age\": 30}".to_string()),
    );
    after.insert("bad".to_string(), ColValue::Json2("{not json".to_string()));
    let row = insert_row(after);
    let json_str = converter.row_data_to_json_value(row).unwrap();
    let parsed: serde_json::Value = serde_json::from_str(&json_str).unwrap();
    assert_eq!(parsed["after"]["j"]["name"], "Alice");
    assert_eq!(parsed["after"]["j"]["age"], 30);
    assert_eq!(parsed["after"]["bad"], "{not json");
}

#[test]
fn test_cloudcanal_cells_follow_the_column_encoding_table() {
    // Bit/Enum/Set render as JSON numbers, binary as base64, and a
    // non-finite float as its decimal string — same table as the
    // generic encoder.
    let converter = CloudCanalConverter::new(None);
    let mut after = ColMap::new();
    after.insert("bits".to_string(), ColValue::Bit(5));
    after.insert("e".to_string(), ColValue::Enum(2));
    after.insert("s".to_string(), ColValue::SetBits(3));
    after.insert("raw".to_string(), ColValue::RawString(vec![0u8, 1, 2]));
    after.insert("f".to_string(), ColValue::Double("NaN".to_string()));
    let row = insert_row(after);
    let json_str = converter.row_data_to_json_value_at(row, 1, 2).unwrap();
    let parsed: serde_json::Value = serde_json::from_str(&json_str).unwrap();
    assert_eq!(parsed["data"][0]["bits"], 5);
    assert_eq!(parsed["data"][0]["e"], 2);
    assert_eq!(parsed["data"][0]["s"], 3);
    assert_eq!(parsed["data"][0]["raw"], "AAEC");
    assert_eq!(parsed["data"][0]["f"], "NaN");
}

#[test]
fn test_cloudcanal_mongo_doc_keeps_its_text() {
    let converter = CloudCanalConverter::new(None);
    let mut after = ColMap::new();
    after.insert(
        "doc".to_string(),
        ColValue::MongoDoc("{\"_id\": {\"$oid\": \"abc\"}}".to_string()),
    );
    let row = insert_row(after);
    let json_str = converter.row_data_to_json_value_at(row, 1, 2).unwrap();
    let parsed: serde_json::Value = serde_json::from_str(&json_str).unwrap();
    assert_eq!(parsed["data"][0]["doc"], "{\"_id\": {\"$oid\": \"abc\"}}");

    // The generic encoder renders the same cell as null.
    let generic = JsonConverter::new(None);
    let mut after = ColMap::new();
    after.insert(
        "doc".to_string(),
        ColValue::MongoDoc("{\"_id\": {\"$oid\": \"abc\"}}".to_string()),
    );
    let json_str = generic.row_data_to_json_value(insert_row(after)).unwrap();
    let parsed: serde_json::Value = serde_json::from_str(&json_str).unwrap();
    assert!(parsed["after"]["doc"].is_null());
}

#[test]
fn test_refresh_meta_invalidates_entry() {
    let mut meta_manager = RdbMetaManager::new(DbType::Mysql);
    meta_manager.insert_tb_meta(
        "s".to_string(),
        "t".to_string(),
        RdbTbMeta { cols: vec![], col_origin_type_map: vec![], key_map: vec![] },
    );
    let mut converter = JsonConverter::new(Some(meta_manager));

    let ddl = DdlData {
        default_schema: "s".to_string(),
        query: "DROP TABLE t".to_string(),
        ddl_type: DdlType::DropTable,
        db_type: DbType::Mysql,
        statement: dt_core::ddl_statement::DdlStatement::DropTable(
            dt_core::ddl_statement::DropTableStatement {
                schema: "s".to_string(),
                tb: "t".to_string(),
                if_exists: false,
                unparsed: String::new(),
            },
        ),
    };
    converter.refresh_meta(&[ddl]);
    let mm = converter.meta_manager.as_ref().unwrap();
    assert!(mm.get_tb_meta("s", "t").is_none());
}
