//! Verified core of a change-data-capture engine: configuration tokenizing,
//! a DDL statement model with routing and SQL reconstruction, row-event
//! encoding to JSON payloads, partition/slot dispatch strategies, and the
//! planning logic of a cluster resharder and a warehouse bulk loader.

pub mod chars;
pub mod cloudcanal_converter;
pub mod col_value;
pub mod config_source;
pub mod db_type;
pub mod ddl_data;
pub mod ddl_statement;
pub mod dt_data;
pub mod error;
pub mod json_converter;
pub mod json_template_type;
pub mod kafka_sinker;
pub mod json_value;
pub mod message_format;
pub mod partition_parallelizer;
pub mod rdb_meta_manager;
pub mod redis_parallelizer;
pub mod redis_reshard;
pub mod row_data;
pub mod starrocks_sinker;
pub mod token_parser;
pub mod wallclock;
