//! The message-bus sinker's compute step: pair every row of a batch with
//! its topic, key and JSON payload. Publishing the messages and awaiting
//! their delivery reports is the caller's outside work. The JSON-template
//! format reuses the generic JSON payload, as the bus sinker always did.

use vstd::prelude::*;

use crate::error::Error;
use crate::json_converter::{row_json_text, row_key_text, JsonConverter};
use crate::row_data::RowData;

verus! {

/// One publish-ready message.
#[derive(Clone, Debug, PartialEq)]
pub struct KafkaMessage {
    pub topic: String,
    pub key: String,
    pub payload: String,
}

/// Encode a batch: message `i` carries the router-chosen topic, the row's
/// primary-key JSON array as key, and the generic JSON payload.
pub fn build_json_messages(
    converter: &JsonConverter,
    mut data: Vec<RowData>,
    topics: Vec<String>,
) -> (r: Result<Vec<KafkaMessage>, Error>)
    requires
        topics@.len() == data@.len(),
    ensures
        match r {
            Ok(msgs) => {
                &&& msgs@.len() == data@.len()
                &&& forall|i: int|
                    0 <= i < msgs@.len() ==> {
                        &&& (#[trigger] msgs@[i]).topic == topics@[i]
                        &&& msgs@[i].key@ == row_key_text(converter.meta_manager, data@[i])
                        &&& msgs@[i].payload@ == row_json_text(data@[i])
                    }
            },
            Err(_) => false,
        },
{
    let ghost orig = data@;
    let ghost orig_topics = topics@;
    let mut msgs: Vec<KafkaMessage> = Vec::new();
    let mut data = data;
    let mut topics = topics;
    while data.len() > 0
        invariant
            data@.len() == topics@.len(),
            msgs@.len() + data@.len() == orig.len(),
            orig_topics.len() == orig.len(),
            data@ == orig.subrange(msgs@.len() as int, orig.len() as int),
            topics@ == orig_topics.subrange(msgs@.len() as int, orig.len() as int),
            forall|i: int|
                0 <= i < msgs@.len() ==> {
                    &&& (#[trigger] msgs@[i]).topic == orig_topics[i]
                    &&& msgs@[i].key@ == row_key_text(converter.meta_manager, orig[i])
                    &&& msgs@[i].payload@ == row_json_text(orig[i])
                },
        decreases data@.len(),
    {
        let ghost k = msgs@.len() as int;
        let row = data.remove(0);
        let topic = topics.remove(0);
        proof {
            assert(row == orig[k]);
            assert(topic == orig_topics[k]);
            assert(data@ =~= orig.subrange(k + 1, orig.len() as int));
            assert(topics@ =~= orig_topics.subrange(k + 1, orig.len() as int));
        }
        let key = match converter.row_data_to_json_key(&row) {
            Ok(key) => key,
            Err(e) => {
                return Err(e);
            }
        };
        let payload = match converter.row_data_to_json_value(row) {
            Ok(payload) => payload,
            Err(e) => {
                return Err(e);
            }
        };
        msgs.push(KafkaMessage { topic, key, payload });
    }
    Ok(msgs)
}

} // verus!
