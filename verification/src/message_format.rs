//! Which wire format a message-bus sink produces.

use vstd::prelude::*;
use vstd::string::StringExecFns;

use crate::json_template_type::{
    ascii_lower, ascii_lowercase, parse_template_spec, template_err_text, JsonTemplateType,
};

verus! {

#[derive(Clone, Copy, Debug, PartialEq, Eq, Structural)]
pub enum MessageFormat {
    Avro,
    Json,
    JsonTemplate(JsonTemplateType),
}

/// The format named by a word, case-insensitively: `avro`, `json`,
/// `json_template:<template>`, or the bare `cloudcanal` shorthand.
pub open spec fn parse_message_format_spec(s: Seq<char>) -> Option<MessageFormat> {
    let lower = ascii_lower(s);
    if lower == "avro"@ {
        Some(MessageFormat::Avro)
    } else if lower == "json"@ {
        Some(MessageFormat::Json)
    } else if lower.len() >= "json_template:"@.len() && lower.subrange(
        0,
        "json_template:"@.len() as int,
    ) == "json_template:"@ {
        match parse_template_spec(
            lower.subrange("json_template:"@.len() as int, lower.len() as int),
        ) {
            Some(t) => Some(MessageFormat::JsonTemplate(t)),
            None => None,
        }
    } else if lower == "cloudcanal"@ {
        Some(MessageFormat::JsonTemplate(JsonTemplateType::CloudCanal))
    } else {
        None
    }
}

impl MessageFormat {
    /// Parse a format word, case-insensitively. An unknown template after
    /// the `json_template:` prefix is named in its own error.
    pub fn from_str(s: &str) -> (r: Result<Self, String>)
        ensures
            ({
                let lower = ascii_lower(s@);
                match r {
                    Ok(f) => parse_message_format_spec(s@) == Some(f),
                    Err(m) => parse_message_format_spec(s@) is None && (if lower.len()
                        >= "json_template:"@.len() && lower.subrange(
                        0,
                        "json_template:"@.len() as int,
                    ) == "json_template:"@ {
                        m@ == template_err_text(
                            lower.subrange("json_template:"@.len() as int, lower.len() as int),
                        )
                    } else {
                        m@ == "Invalid message format: "@ + s@
                    }),
                }
            }),
    {
        let lower = ascii_lowercase(s);
        let prefix = String::from_str("json_template:");
        if lower.eq(&String::from_str("avro")) {
            Ok(MessageFormat::Avro)
        } else if lower.eq(&String::from_str("json")) {
            Ok(MessageFormat::Json)
        } else if has_prefix(&lower, &prefix) {
            let lower_chars = crate::chars::str_to_chars(lower.as_str());
            let prefix_len = prefix.as_str().unicode_len();
            let mut suffix_chars: Vec<char> = Vec::new();
            let mut i: usize = prefix_len;
            while i < lower_chars.len()
                invariant
                    prefix_len <= i <= lower_chars@.len(),
                    lower_chars@ == lower@,
                    prefix_len == "json_template:"@.len(),
                    suffix_chars@ == lower@.subrange(prefix_len as int, i as int),
                decreases lower_chars@.len() - i,
            {
                suffix_chars.push(lower_chars[i]);
                i = i + 1;
                proof {
                    assert(suffix_chars@ =~= lower@.subrange(prefix_len as int, i as int));
                }
            }
            let suffix = crate::chars::chars_to_string(&suffix_chars);
            proof {
                assert(ascii_lower(suffix@) =~= suffix@) by {
                    assert(forall|k: int|
                        0 <= k < suffix@.len() ==> #[trigger] suffix@[k] == ascii_lower(
                            s@,
                        )[prefix_len + k]);
                    assert(forall|k: int|
                        0 <= k < suffix@.len()
                            ==> crate::json_template_type::ascii_lower_char(
                            #[trigger] suffix@[k],
                        ) == suffix@[k]);
                }
            }
            match JsonTemplateType::from_str(suffix.as_str()) {
                Ok(t) => Ok(MessageFormat::JsonTemplate(t)),
                Err(m) => Err(m),
            }
        } else if lower.eq(&String::from_str("cloudcanal")) {
            Ok(MessageFormat::JsonTemplate(JsonTemplateType::CloudCanal))
        } else {
            let mut msg = String::from_str("Invalid message format: ");
            msg.append(s);
            Err(msg)
        }
    }

    pub open spec fn name_spec(&self) -> Seq<char> {
        match self {
            MessageFormat::Avro => "avro"@,
            MessageFormat::Json => "json"@,
            MessageFormat::JsonTemplate(t) => "json_template:"@ + t.name_spec(),
        }
    }

    pub fn to_string(&self) -> (r: String)
        ensures
            r@ == self.name_spec(),
    {
        match self {
            MessageFormat::Avro => String::from_str("avro"),
            MessageFormat::Json => String::from_str("json"),
            MessageFormat::JsonTemplate(t) => {
                let mut r = String::from_str("json_template:");
                let name = t.to_string();
                r.append(name.as_str());
                r
            }
        }
    }
}

impl Default for MessageFormat {
    fn default() -> (r: Self)
        ensures
            r == MessageFormat::Avro,
    {
        MessageFormat::Avro
    }
}

/// Does `s` begin with `prefix`?
fn has_prefix(s: &String, prefix: &String) -> (r: bool)
    ensures
        r == (s@.len() >= prefix@.len() && s@.subrange(0, prefix@.len() as int) == prefix@),
{
    let s_chars = crate::chars::str_to_chars(s.as_str());
    let p_chars = crate::chars::str_to_chars(prefix.as_str());
    if p_chars.len() > s_chars.len() {
        return false;
    }
    let mut i: usize = 0;
    while i < p_chars.len()
        invariant
            i <= p_chars@.len(),
            p_chars@.len() <= s_chars@.len(),
            s_chars@ == s@,
            p_chars@ == prefix@,
            forall|k: int| 0 <= k < i ==> s@[k] == prefix@[k],
        decreases p_chars@.len() - i,
    {
        if s_chars[i] != p_chars[i] {
            proof {
                let sub = s@.subrange(0, prefix@.len() as int);
                assert(sub[i as int] == s@[i as int]);
                assert(sub != prefix@) by {
                    assert(sub[i as int] != prefix@[i as int]);
                }
            }
            return false;
        }
        i = i + 1;
    }
    proof {
        assert(s@.subrange(0, prefix@.len() as int) =~= prefix@);
    }
    true
}

} // verus!
