use dt_core::db_type::DbType;
use dt_core::error::Error;
use dt_core::token_parser::ConfigTokenParser;

#[test]
fn test_parse_mysql_filter_config_tokens() {
    let config = "db_1.tb_1,`db.2`.`tb.2`,`db\"3`.tb_3,db_4.`tb\"4`,db_5.*,`db.6`.*,db_7*.*,`db.8*`.*,*.*,`*`.`*`,r#.*#.r#.?#,`r#.*#`.`r#.?#`";
    let delimiters = vec!['.', ','];
    let escape_pairs = vec![('`', '`')];

    let tokens = ConfigTokenParser::parse(config, &delimiters, &escape_pairs);
    assert_eq!(tokens.len(), 24);
    assert_eq!(tokens[0], "db_1");
    assert_eq!(tokens[1], "tb_1");
    assert_eq!(tokens[2], "`db.2`");
    assert_eq!(tokens[3], "`tb.2`");
    assert_eq!(tokens[4], "`db\"3`");
    assert_eq!(tokens[5], "tb_3");
    assert_eq!(tokens[6], "db_4");
    assert_eq!(tokens[7], "`tb\"4`");
    assert_eq!(tokens[8], "db_5");
    assert_eq!(tokens[9], "*");
    assert_eq!(tokens[10], "`db.6`");
    assert_eq!(tokens[11], "*");
    assert_eq!(tokens[12], "db_7*");
    assert_eq!(tokens[13], "*");
    assert_eq!(tokens[14], "`db.8*`");
    assert_eq!(tokens[15], "*");
    assert_eq!(tokens[16], "*");
    assert_eq!(tokens[17], "*");
    assert_eq!(tokens[18], "`*`");
    assert_eq!(tokens[19], "`*`");
    assert_eq!(tokens[20], "r#.*#");
    assert_eq!(tokens[21], "r#.?#");
    assert_eq!(tokens[22], "`r#.*#`");
    assert_eq!(tokens[23], "`r#.?#`");
}

#[test]
fn test_parse_mysql_router_config_tokens() {
    let config = "db_1.tb_1:`db.2`.`tb.2`,`db\"3`.tb_3:db_4.`tb\"4`";
    let delimiters = vec!['.', ',', ':'];
    let escape_pairs = vec![('`', '`')];

    let tokens = ConfigTokenParser::parse(config, &delimiters, &escape_pairs);
    assert_eq!(tokens.len(), 8);
    assert_eq!(tokens[0], "db_1");
    assert_eq!(tokens[1], "tb_1");
    assert_eq!(tokens[2], "`db.2`");
    assert_eq!(tokens[3], "`tb.2`");
    assert_eq!(tokens[4], "`db\"3`");
    assert_eq!(tokens[5], "tb_3");
    assert_eq!(tokens[6], "db_4");
    assert_eq!(tokens[7], "`tb\"4`");
}

#[test]
fn test_parse_pg_filter_config_tokens() {
    let config = "db_1.tb_1,\"db.2\".\"tb.2\",\"db`3\".tb_3,db_4.\"tb`4\",db_5.*,\"db.6\".*,db_7*.*,\"db.8*\".*,*.*,\"*\".\"*\"";
    let delimiters = vec!['.', ','];
    let escape_pairs = vec![('"', '"')];

    let tokens = ConfigTokenParser::parse(config, &delimiters, &escape_pairs);
    assert_eq!(tokens.len(), 20);
    assert_eq!(tokens[0], "db_1");
    assert_eq!(tokens[1], "tb_1");
    assert_eq!(tokens[2], "\"db.2\"");
    assert_eq!(tokens[3], "\"tb.2\"");
    assert_eq!(tokens[4], "\"db`3\"");
    assert_eq!(tokens[5], "tb_3");
    assert_eq!(tokens[6], "db_4");
    assert_eq!(tokens[7], "\"tb`4\"");
    assert_eq!(tokens[8], "db_5");
    assert_eq!(tokens[9], "*");
    assert_eq!(tokens[10], "\"db.6\"");
    assert_eq!(tokens[11], "*");
    assert_eq!(tokens[12], "db_7*");
    assert_eq!(tokens[13], "*");
    assert_eq!(tokens[14], "\"db.8*\"");
    assert_eq!(tokens[15], "*");
    assert_eq!(tokens[16], "*");
    assert_eq!(tokens[17], "*");
    assert_eq!(tokens[18], "\"*\"");
    assert_eq!(tokens[19], "\"*\"");
}

#[test]
fn test_parse_pg_router_config_tokens() {
    let config = "db_1.tb_1:\"db.2\".\"tb.2\",\"db`3\".tb_3:db_4.\"tb`4\"";
    let delimiters = vec!['.', ',', ':'];
    let escape_pairs = vec![('"', '"')];

    let tokens = ConfigTokenParser::parse(config, &delimiters, &escape_pairs);
    assert_eq!(tokens.len(), 8);
    assert_eq!(tokens[0], "db_1");
    assert_eq!(tokens[1], "tb_1");
    assert_eq!(tokens[2], "\"db.2\"");
    assert_eq!(tokens[3], "\"tb.2\"");
    assert_eq!(tokens[4], "\"db`3\"");
    assert_eq!(tokens[5], "tb_3");
    assert_eq!(tokens[6], "db_4");
    assert_eq!(tokens[7], "\"tb`4\"");
}

#[test]
fn test_parse_emoj_config_tokens() {
    let config = "SET \"set_key_3_  😀\" \"val_2_  😀\"";
    let delimiters = vec![' '];
    let escape_pairs = vec![('"', '"')];
    let tokens = ConfigTokenParser::parse(config, &delimiters, &escape_pairs);
    assert_eq!(tokens.len(), 3);
    assert_eq!(tokens[0], "SET");
    assert_eq!(tokens[1], "\"set_key_3_  😀\"");
    assert_eq!(tokens[2], "\"val_2_  😀\"");

    let config = "ZADD key 2 val_2_中文 3 \"val_3_  😀\"";
    let tokens = ConfigTokenParser::parse(config, &delimiters, &escape_pairs);
    assert_eq!(tokens.len(), 6);
    assert_eq!(tokens[0], "ZADD");
    assert_eq!(tokens[1], "key");
    assert_eq!(tokens[2], "2");
    assert_eq!(tokens[3], "val_2_中文");
    assert_eq!(tokens[4], "3");
    assert_eq!(tokens[5], "\"val_3_  😀\"");
}

#[test]
fn test_parse_config_accepts_plain_and_quoted_tokens() {
    let tokens =
        ConfigTokenParser::parse_config("db_1.tb_1,`db.2`.`tb.2`", &DbType::Mysql, &['.', ','])
            .unwrap();
    assert_eq!(tokens.len(), 4);
    assert_eq!(tokens[0], "db_1");
    assert_eq!(tokens[1], "tb_1");
    assert_eq!(tokens[2], "`db.2`");
    assert_eq!(tokens[3], "`tb.2`");
}

#[test]
fn test_parse_config_rejects_special_characters() {
    let result = ConfigTokenParser::parse_config("db-1.tb_1", &DbType::Mysql, &['.', ',']);
    match result {
        Err(Error::ConfigError(msg)) => {
            assert!(msg.contains("config error near: db-1"));
        }
        other => panic!("expected a configuration error, got {:?}", other),
    }
}
