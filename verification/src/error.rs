//! The library's error taxonomy. Each variant carries the message text that
//! callers surface as a single line.

use vstd::prelude::*;
use vstd::string::StringExecFns;

verus! {

#[derive(Clone, Debug, PartialEq, Eq)]
pub enum Error {
    ConfigError(String),
    ExtractorError(String),
    PipelineError(String),
    SinkerError(String),
    HeartbeatError(String),
    Unexpected(String),
    RedisRdbError(String),
    RedisCmdError(String),
    RedisResultError(String),
    MetadataError(String),
    StructError(String),
    HttpError(String),
    DataMarkerError(String),
}

impl Error {
    /// The single-line rendering: a phase prefix followed by the cause.
    pub open spec fn text_spec(&self) -> Seq<char> {
        match self {
            Error::ConfigError(m) => "config error: "@ + m@,
            Error::ExtractorError(m) => "extractor error: "@ + m@,
            Error::PipelineError(m) => "pipeline error: "@ + m@,
            Error::SinkerError(m) => "sinker error: "@ + m@,
            Error::HeartbeatError(m) => "heartbeat error: "@ + m@,
            Error::Unexpected(m) => "unexpected error: "@ + m@,
            Error::RedisRdbError(m) => "parse redis rdb error: "@ + m@,
            Error::RedisCmdError(m) => "parse redis cmd error: "@ + m@,
            Error::RedisResultError(m) => "parse redis result error: "@ + m@,
            Error::MetadataError(m) => "metadata error: "@ + m@,
            Error::StructError(m) => "struct error: "@ + m@,
            Error::HttpError(m) => "http request error: "@ + m@,
            Error::DataMarkerError(m) => "data marker error: "@ + m@,
        }
    }

    pub fn to_string(&self) -> (r: String)
        ensures
            r@ == self.text_spec(),
    {
        match self {
            Error::ConfigError(m) => String::from_str("config error: ").concat(m.as_str()),
            Error::ExtractorError(m) => String::from_str("extractor error: ").concat(m.as_str()),
            Error::PipelineError(m) => String::from_str("pipeline error: ").concat(m.as_str()),
            Error::SinkerError(m) => String::from_str("sinker error: ").concat(m.as_str()),
            Error::HeartbeatError(m) => String::from_str("heartbeat error: ").concat(m.as_str()),
            Error::Unexpected(m) => String::from_str("unexpected error: ").concat(m.as_str()),
            Error::RedisRdbError(m) => String::from_str("parse redis rdb error: ").concat(
                m.as_str(),
            ),
            Error::RedisCmdError(m) => String::from_str("parse redis cmd error: ").concat(
                m.as_str(),
            ),
            Error::RedisResultError(m) => String::from_str("parse redis result error: ").concat(
                m.as_str(),
            ),
            Error::MetadataError(m) => String::from_str("metadata error: ").concat(m.as_str()),
            Error::StructError(m) => String::from_str("struct error: ").concat(m.as_str()),
            Error::HttpError(m) => String::from_str("http request error: ").concat(m.as_str()),
            Error::DataMarkerError(m) => String::from_str("data marker error: ").concat(m.as_str()),
        }
    }
}

} // verus!
