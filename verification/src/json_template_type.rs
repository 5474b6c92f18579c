//! Which JSON template a message-bus payload follows.

use vstd::prelude::*;
use vstd::string::StringExecFns;

verus! {

#[derive(Clone, Copy, Debug, PartialEq, Eq, Structural)]
pub enum JsonTemplateType {
    Standard,
    CloudCanal,
}

/// ASCII lowercasing of one character.
pub open spec fn ascii_lower_char(c: char) -> char {
    if 65 <= c as u32 <= 90 {
        (((c as u32) + 32) as u8) as char
    } else {
        c
    }
}

/// ASCII lowercasing of a text.
pub open spec fn ascii_lower(s: Seq<char>) -> Seq<char> {
    s.map_values(|c: char| ascii_lower_char(c))
}

/// The template named by a lowercased word, if any.
pub open spec fn parse_template_spec(lower: Seq<char>) -> Option<JsonTemplateType> {
    if lower == "standard"@ {
        Some(JsonTemplateType::Standard)
    } else if lower == "cloudcanal"@ {
        Some(JsonTemplateType::CloudCanal)
    } else {
        None
    }
}

/// The error text for an unknown template word.
pub open spec fn template_err_text(lower: Seq<char>) -> Seq<char> {
    "unsupported json template type: "@ + lower
}

/// ASCII-lowercase a string.
pub fn ascii_lowercase(s: &str) -> (r: String)
    ensures
        r@ == ascii_lower(s@),
{
    let chars = crate::chars::str_to_chars(s);
    let mut out: Vec<char> = Vec::new();
    let mut i: usize = 0;
    while i < chars.len()
        invariant
            i <= chars@.len(),
            chars@ == s@,
            out@.len() == i,
            forall|k: int| 0 <= k < i ==> #[trigger] out@[k] == ascii_lower_char(s@[k]),
        decreases chars@.len() - i,
    {
        let c = chars[i];
        let u = c as u32;
        if 65 <= u && u <= 90 {
            let lower = ((u + 32) as u8) as char;
            proof {
                assert(lower == ascii_lower_char(c));
            }
            out.push(lower);
        } else {
            out.push(c);
        }
        i = i + 1;
    }
    proof {
        assert(out@ =~= ascii_lower(s@));
    }
    crate::chars::chars_to_string(&out)
}

impl JsonTemplateType {
    /// Parse a template word, case-insensitively.
    pub fn from_str(s: &str) -> (r: Result<Self, String>)
        ensures
            match r {
                Ok(t) => parse_template_spec(ascii_lower(s@)) == Some(t),
                Err(m) => parse_template_spec(ascii_lower(s@)) is None && m@ == template_err_text(
                    ascii_lower(s@),
                ),
            },
    {
        let lower = ascii_lowercase(s);
        if lower.eq(&String::from_str("standard")) {
            Ok(JsonTemplateType::Standard)
        } else if lower.eq(&String::from_str("cloudcanal")) {
            Ok(JsonTemplateType::CloudCanal)
        } else {
            let mut msg = String::from_str("unsupported json template type: ");
            msg.append(lower.as_str());
            Err(msg)
        }
    }

    pub open spec fn name_spec(&self) -> Seq<char> {
        match self {
            JsonTemplateType::Standard => "standard"@,
            JsonTemplateType::CloudCanal => "cloudcanal"@,
        }
    }

    pub fn to_string(&self) -> (r: String)
        ensures
            r@ == self.name_spec(),
    {
        match self {
            JsonTemplateType::Standard => String::from_str("standard"),
            JsonTemplateType::CloudCanal => String::from_str("cloudcanal"),
        }
    }
}

impl Default for JsonTemplateType {
    fn default() -> (r: Self)
        ensures
            r == JsonTemplateType::Standard,
    {
        JsonTemplateType::Standard
    }
}

} // verus!
