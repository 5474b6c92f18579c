use dt_core::col_value::ColValue;
use dt_core::config_source::{
    cache_key, filter_config_sections, CliArgs, ConfigSourceKind,
};
use dt_core::db_type::DbType;
use dt_core::dt_data::{DtData, DtItem, RedisEntry};
use dt_core::error::Error;
use dt_core::json_template_type::JsonTemplateType;
use dt_core::message_format::MessageFormat;
use dt_core::partition_parallelizer::PartitionParallelizer;
use dt_core::rdb_meta_manager::{RdbMetaManager, RdbTbMeta};
use dt_core::redis_parallelizer::RedisParallelizer;
use dt_core::redis_reshard::{
    migrate_cmd, node_conn_url, plan_reshard, setslot_importing_cmd, ClusterNode, CmdTarget,
};
use dt_core::row_data::{ColMap, RowData, RowType};
use dt_core::starrocks_sinker::{convert_col_values, StarRocksSinker};

fn dml_item(size: usize) -> DtItem {
    DtItem {
        dt_data: DtData::Dml {
            row_data: RowData {
                schema: "s".to_string(),
                tb: "t".to_string(),
                row_type: RowType::Insert,
                before: None,
                after: Some(ColMap::new()),
                data_size: size,
            },
        },
    }
}

#[test]
fn test_partition_drain_stops_after_unpartitionable_row() {
    let p = PartitionParallelizer { parallel_size: 2 };
    let items = vec![dml_item(1), dml_item(2), dml_item(3)];
    let partitionable = vec![true, false, true];
    let taken = p.drain(&items, &partitionable);
    assert_eq!(taken, vec![0, 1]);
}

#[test]
fn test_partition_drain_keeps_everything_when_serial() {
    let p = PartitionParallelizer { parallel_size: 1 };
    let items = vec![dml_item(1), dml_item(2)];
    let partitionable = vec![false, false];
    let taken = p.drain(&items, &partitionable);
    assert_eq!(taken, vec![0, 1]);
}

#[test]
fn test_partition_buckets_by_hash() {
    let p = PartitionParallelizer { parallel_size: 3 };
    let hashes: Vec<u64> = vec![0, 1, 2, 3, 4, 5, 6];
    let buckets = p.partition(&hashes);
    assert_eq!(buckets.len(), 3);
    assert_eq!(buckets[0], vec![0, 3, 6]);
    assert_eq!(buckets[1], vec![1, 4]);
    assert_eq!(buckets[2], vec![2, 5]);
}

fn redis_item(cmd: &str, slots: Vec<u16>) -> DtItem {
    DtItem { dt_data: DtData::Redis { entry: RedisEntry { cmd: cmd.to_string(), slots } } }
}

fn cluster_parallelizer() -> RedisParallelizer {
    RedisParallelizer {
        parallel_size: 2,
        slot_node_map: vec![
            (1, "node_a".to_string()),
            (2, "node_b".to_string()),
        ],
        node_sinker_index_map: vec![("node_a".to_string(), 0), ("node_b".to_string(), 1)],
    }
}

#[test]
fn test_cluster_dispatch_routes_by_slot() {
    let p = cluster_parallelizer();
    let data = vec![
        redis_item("SET k1 v", vec![1]),
        redis_item("SET k2 v", vec![2]),
        redis_item("SET k3 v", vec![1, 1]),
    ];
    let buckets = p.dispatch(&data, 2).unwrap();
    assert_eq!(buckets[0], vec![0, 2]);
    assert_eq!(buckets[1], vec![1]);
}

#[test]
fn test_cluster_dispatch_broadcasts_keyless_entry() {
    let p = cluster_parallelizer();
    let data = vec![redis_item("SWAPDB 0 1", vec![]), redis_item("SET k v", vec![2])];
    let buckets = p.dispatch(&data, 2).unwrap();
    assert_eq!(buckets[0], vec![0]);
    assert_eq!(buckets[1], vec![0, 1]);
}

#[test]
fn test_cluster_dispatch_rejects_mixed_slots() {
    let p = cluster_parallelizer();
    let data = vec![redis_item("MSET k1 v k2 v", vec![1, 2])];
    match p.dispatch(&data, 2) {
        Err(Error::RedisCmdError(msg)) => {
            assert!(msg.contains("multi keys don't hash to the same slot"));
            assert!(msg.contains("MSET k1 v k2 v"));
        }
        other => panic!("expected a cluster-command error, got {:?}", other),
    }
}

fn warehouse_sinker() -> StarRocksSinker {
    StarRocksSinker {
        db_type: DbType::StarRocks,
        batch_size: 100,
        host: "warehouse".to_string(),
        port: "8030".to_string(),
        username: "u".to_string(),
        password: String::new(),
        meta_manager: RdbMetaManager::new(DbType::Mysql),
        sync_timestamp: 0,
        hard_delete: false,
    }
}

#[test]
fn test_sync_timestamp_strictly_increases() {
    let mut sinker = warehouse_sinker();
    sinker.sync_timestamp = 100;
    sinker.bump_sync_timestamp(50);
    assert_eq!(sinker.sync_timestamp, 101);
    sinker.bump_sync_timestamp(5000);
    assert_eq!(sinker.sync_timestamp, 5000);
    sinker.bump_sync_timestamp(5000);
    assert_eq!(sinker.sync_timestamp, 5001);
}

#[test]
fn test_stream_load_request_shape() {
    let sinker = warehouse_sinker();
    let url = sinker.build_load_url("db1", "tb1");
    assert_eq!(url, "http://warehouse:8030/api/db1/tb1/_stream_load");

    let headers = sinker.build_load_headers("delete");
    assert_eq!(headers.len(), 5);
    assert_eq!(headers[0], ("Expect".to_string(), "100-continue".to_string()));
    assert_eq!(headers[1], ("format".to_string(), "json".to_string()));
    assert_eq!(headers[2], ("strip_outer_array".to_string(), "true".to_string()));
    assert_eq!(headers[3], ("timezone".to_string(), "UTC".to_string()));
    assert_eq!(headers[4], ("columns".to_string(), "__op='delete'".to_string()));

    let plain = sinker.build_load_headers("");
    assert_eq!(plain.len(), 4);
}

#[test]
fn test_check_response_requires_success_status() {
    let sinker = warehouse_sinker();
    assert!(sinker.check_response(200, "{\"Status\": \"Success\"}").is_ok());
    assert!(sinker.check_response(200, "{\"Status\": \"Fail\"}").is_err());
    assert!(sinker.check_response(500, "{\"Status\": \"Success\"}").is_err());
    assert!(sinker.check_response(200, "not json").is_err());
}

#[test]
fn test_convert_col_values_for_loading() {
    let meta = RdbTbMeta {
        cols: vec!["j".to_string(), "b".to_string(), "bits".to_string()],
        col_origin_type_map: vec![("j".to_string(), "json".to_string())],
        key_map: vec![],
    };
    let mut map = ColMap::new();
    map.insert("j".to_string(), ColValue::Json2("{\"a\": 1}".to_string()));
    map.insert("b".to_string(), ColValue::Blob(vec![104, 105]));
    map.insert("bits".to_string(), ColValue::Bit(5));
    convert_col_values(&mut map, &meta);

    match map.get("j") {
        Some(ColValue::Json3(_)) => {}
        other => panic!("expected a parsed JSON cell, got {:?}", other),
    }
    assert_eq!(map.get("b"), Some(&ColValue::Str("hi".to_string())));
    assert_eq!(map.get("bits"), Some(&ColValue::LongLong(5)));
}

#[test]
fn test_convert_col_values_replaces_invalid_utf8() {
    let meta = RdbTbMeta { cols: vec![], col_origin_type_map: vec![], key_map: vec![] };
    let mut map = ColMap::new();
    map.insert("b".to_string(), ColValue::Blob(vec![0xff, 0xfe]));
    convert_col_values(&mut map, &meta);
    assert_eq!(map.get("b"), Some(&ColValue::Str("\u{fffd}\u{fffd}".to_string())));
}

#[test]
fn test_build_load_row_for_delete_injects_sign_and_timestamp() {
    let sinker = warehouse_sinker();
    let mut before = ColMap::new();
    before.insert("id".to_string(), ColValue::Long(4));
    let row = RowData {
        schema: "s".to_string(),
        tb: "t".to_string(),
        row_type: RowType::Delete,
        before: Some(before),
        after: None,
        data_size: 1,
    };
    let map = sinker.build_load_row(row, 77);
    assert_eq!(map.get("id"), Some(&ColValue::Long(4)));
    assert_eq!(map.get("_ape_dts_is_deleted"), Some(&ColValue::Long(1)));
    assert_eq!(map.get("_ape_dts_timestamp"), Some(&ColValue::LongLong(77)));
}

#[test]
fn test_delete_op_needed_depends_on_sign_column() {
    let sinker = warehouse_sinker();
    let with_sign = RdbTbMeta {
        cols: vec![],
        col_origin_type_map: vec![("_ape_dts_is_deleted".to_string(), "tinyint".to_string())],
        key_map: vec![],
    };
    let without_sign = RdbTbMeta { cols: vec![], col_origin_type_map: vec![], key_map: vec![] };
    assert!(!sinker.delete_op_needed(&RowType::Delete, &with_sign));
    assert!(sinker.delete_op_needed(&RowType::Delete, &without_sign));
    assert!(!sinker.delete_op_needed(&RowType::Insert, &without_sign));
}

#[test]
fn test_jdbc_codes_ignore_type_text_case() {
    let mut meta_manager = RdbMetaManager::new(DbType::Mysql);
    meta_manager.insert_tb_meta(
        "s".to_string(),
        "t".to_string(),
        RdbTbMeta {
            cols: vec!["id".to_string(), "ts".to_string(), "doc".to_string()],
            col_origin_type_map: vec![
                ("id".to_string(), "BIGINT".to_string()),
                ("ts".to_string(), "DATETIME".to_string()),
                ("doc".to_string(), "JSON".to_string()),
            ],
            key_map: vec![],
        },
    );
    let converter =
        dt_core::cloudcanal_converter::CloudCanalConverter::new(Some(meta_manager));
    let row = RowData {
        schema: "s".to_string(),
        tb: "t".to_string(),
        row_type: RowType::Insert,
        before: None,
        after: Some(ColMap::new()),
        data_size: 1,
    };
    let json_str = converter.row_data_to_json_value_at(row, 1, 2).unwrap();
    let parsed: serde_json::Value = serde_json::from_str(&json_str).unwrap();
    assert_eq!(parsed["jdbcType"]["id"], -5);
    assert_eq!(parsed["jdbcType"]["ts"], 93);
    assert_eq!(parsed["jdbcType"]["doc"], 1111);
}

#[test]
fn test_load_body_is_a_json_array() {
    let sinker = warehouse_sinker();
    let mut row = ColMap::new();
    row.insert("id".to_string(), ColValue::Long(1));
    let body = sinker.build_load_body(&vec![row]);
    let parsed: serde_json::Value = serde_json::from_str(&body).unwrap();
    assert_eq!(parsed[0]["id"], 1);
}

fn node(id: &str, address: &str, slots: Vec<u16>) -> ClusterNode {
    ClusterNode {
        id: id.to_string(),
        host: "h".to_string(),
        port: "6379".to_string(),
        address: address.to_string(),
        slots,
    }
}

#[test]
fn test_plan_reshard_deals_surplus_to_deficit() {
    // With two nodes the target is 8192 each; node_a has 3 extra slots in
    // a tiny synthetic topology, node_b demands up to its deficit.
    let mut big_slots: Vec<u16> = Vec::new();
    for s in 0..8195u16 {
        big_slots.push(s);
    }
    let nodes = vec![node("node_a", "a:6379", big_slots), node("node_b", "b:6379", vec![])];
    let plan = plan_reshard(&nodes);
    assert_eq!(plan.len(), 1);
    assert_eq!(plan[0].0, "node_b");
    assert_eq!(plan[0].1, vec![8192, 8193, 8194]);
}

#[test]
fn test_sink_raw_plan_without_slot_map_is_one_serial_bucket() {
    let p = RedisParallelizer {
        parallel_size: 1,
        slot_node_map: vec![],
        node_sinker_index_map: vec![],
    };
    let data = vec![redis_item("SET k v", vec![1]), redis_item("SET k2 v", vec![9])];
    let buckets = p.sink_raw_plan(&data, 1).unwrap();
    assert_eq!(buckets.len(), 1);
    assert_eq!(buckets[0], vec![0, 1]);
}

#[test]
fn test_slot_migration_steps_follow_the_protocol_order() {
    let src = node("src_id", "a:6379", vec![7]);
    let dst = node("dst_id", "b:6380", vec![]);
    let keys = vec!["k1".to_string(), "k2".to_string()];
    let steps = dt_core::redis_reshard::slot_migration_steps(&src, &dst, 7, &keys);
    assert_eq!(steps.len(), 6);
    assert_eq!(steps[0].0, CmdTarget::Destination);
    assert_eq!(steps[0].1, vec!["cluster", "setslot", "7", "importing", "src_id"]);
    assert_eq!(steps[1].0, CmdTarget::Source);
    assert_eq!(steps[1].1, vec!["cluster", "setslot", "7", "migrating", "dst_id"]);
    assert_eq!(steps[2].0, CmdTarget::Source);
    assert_eq!(steps[2].1, vec!["migrate", "h", "6379", "", "0", "5000", "keys", "k1"]);
    assert_eq!(steps[3].1[7], "k2");
    assert_eq!(steps[4].0, CmdTarget::Destination);
    assert_eq!(steps[4].1, vec!["cluster", "setslot", "7", "node", "dst_id"]);
    assert_eq!(steps[5].0, CmdTarget::Source);
    assert_eq!(steps[5].1, vec!["cluster", "setslot", "7", "node", "dst_id"]);
}

#[test]
fn test_migration_commands() {
    assert_eq!(
        setslot_importing_cmd(42, "src_id"),
        vec!["cluster", "setslot", "42", "importing", "src_id"]
    );
    assert_eq!(
        migrate_cmd("h2", "6380", "k1"),
        vec!["migrate", "h2", "6380", "", "0", "5000", "keys", "k1"]
    );
    assert_eq!(node_conn_url("u", "p", "h:6379"), "redis://u:p@h:6379");
}

#[test]
fn test_message_format_parsing() {
    assert_eq!(MessageFormat::from_str("AVRO"), Ok(MessageFormat::Avro));
    assert_eq!(MessageFormat::from_str("json"), Ok(MessageFormat::Json));
    assert_eq!(
        MessageFormat::from_str("json_template:cloudcanal"),
        Ok(MessageFormat::JsonTemplate(JsonTemplateType::CloudCanal))
    );
    assert_eq!(
        MessageFormat::from_str("cloudcanal"),
        Ok(MessageFormat::JsonTemplate(JsonTemplateType::CloudCanal))
    );
    assert_eq!(
        MessageFormat::from_str("bogus"),
        Err("Invalid message format: bogus".to_string())
    );
    assert_eq!(
        MessageFormat::from_str("json_template:bogus"),
        Err("unsupported json template type: bogus".to_string())
    );
    assert_eq!(MessageFormat::Json.to_string(), "json");
    assert_eq!(
        MessageFormat::JsonTemplate(JsonTemplateType::Standard).to_string(),
        "json_template:standard"
    );
}

#[test]
fn test_cli_args_validate() {
    let local_ok = CliArgs {
        source: ConfigSourceKind::Local,
        config_path: Some("task.ini".to_string()),
        nacos_address: None,
        nacos_dataid: None,
        nacos_group: "DEFAULT_GROUP".to_string(),
    };
    assert!(local_ok.validate().is_ok());

    let local_missing = CliArgs { config_path: None, ..local_ok.clone() };
    match local_missing.validate() {
        Err(Error::ConfigError(msg)) => assert_eq!(
            msg,
            "--config-path is required when --config-source=local (or pass a single positional path)."
        ),
        other => panic!("expected a configuration error, got {:?}", other),
    }

    let nacos_missing = CliArgs {
        source: ConfigSourceKind::Nacos,
        config_path: None,
        nacos_address: Some("http://n:8848".to_string()),
        nacos_dataid: None,
        nacos_group: "DEFAULT_GROUP".to_string(),
    };
    assert!(nacos_missing.validate().is_err());

    let nacos_ok = CliArgs { nacos_dataid: Some("task".to_string()), ..nacos_missing };
    assert!(nacos_ok.validate().is_ok());
}

#[test]
fn test_cache_key_replaces_unsafe_characters() {
    assert_eq!(
        cache_key("http://n:8848", "data id", "G"),
        "http___n_8848_data_id_G"
    );
}

#[test]
fn test_nacos_config_url_encodes_parameters() {
    let url = dt_core::config_source::nacos_config_url("http://n:8848/", "data id", "G#1");
    assert_eq!(
        url,
        "http://n:8848/nacos/v1/cs/configs?dataId=data%20id&group=G%231"
    );
}

#[test]
fn test_filter_config_sections_keeps_allowed_sections_only() {
    let content = "[extractor]\nurl=x\n[secret]\ntoken=y\n[sinker]\nurl=z\n";
    let filtered = filter_config_sections(content).unwrap();
    assert!(filtered.contains("[extractor]\nurl=x\n"));
    assert!(filtered.contains("[sinker]\nurl=z\n"));
    assert!(!filtered.contains("secret"));
    assert!(!filtered.contains("token=y"));
}

#[test]
fn test_kafka_messages_carry_topic_key_and_payload() {
    let converter = dt_core::json_converter::JsonConverter::new(None);
    let mut after = ColMap::new();
    after.insert("id".to_string(), ColValue::Long(9));
    let row = RowData {
        schema: "s".to_string(),
        tb: "t".to_string(),
        row_type: RowType::Insert,
        before: None,
        after: Some(after),
        data_size: 1,
    };
    let msgs =
        dt_core::kafka_sinker::build_json_messages(&converter, vec![row], vec!["topic_1".to_string()])
            .unwrap();
    assert_eq!(msgs.len(), 1);
    assert_eq!(msgs[0].topic, "topic_1");
    assert_eq!(msgs[0].key, "s_t");
    let parsed: serde_json::Value = serde_json::from_str(&msgs[0].payload).unwrap();
    assert_eq!(parsed["operation"], "insert");
    assert_eq!(parsed["after"]["id"], 9);
}

#[test]
fn test_error_texts_name_the_phase() {
    assert_eq!(
        Error::ConfigError("x".to_string()).to_string(),
        "config error: x"
    );
    assert_eq!(
        Error::HttpError("y".to_string()).to_string(),
        "http request error: y"
    );
}
