//! Tokenizer for filter/router/topic configuration strings.
//!
//! The scanner walks the input left to right by code points. A token is
//! either a quoted run (the dialect's escape pair, quotes kept), a regex
//! escape (`r#` up to the next `#` after the prefix), or a plain run up to
//! the next delimiter. After each token exactly one delimiter is skipped.
//! Tokens are trimmed of ASCII whitespace.

use vstd::prelude::*;
use vstd::string::StrSliceExecFns;

use crate::chars::{chars_to_string, str_to_chars, trim_chars, trim_spec};
use crate::db_type::{escape_pair_of, escape_pairs_of, DbType};
use crate::error::Error;

verus! {

/// Does the regex-escape prefix `r#` stand at `start`?
pub open spec fn regex_prefix_at(chars: Seq<char>, start: int) -> bool {
    &&& start + 2 <= chars.len()
    &&& chars[start] == 'r'
    &&& chars[start + 1] == '#'
}

/// The first index at or after `start` holding a delimiter, or the length.
pub open spec fn find_delim(chars: Seq<char>, start: int, delims: Seq<char>) -> int
    decreases chars.len() - start,
{
    if start < 0 || start >= chars.len() {
        chars.len() as int
    } else if delims.contains(chars[start]) {
        start
    } else {
        find_delim(chars, start + 1, delims)
    }
}

/// The first index at or after `start` holding `c`, or the length.
pub open spec fn find_char(chars: Seq<char>, start: int, c: char) -> int
    decreases chars.len() - start,
{
    if start < 0 || start >= chars.len() {
        chars.len() as int
    } else if chars[start] == c {
        start
    } else {
        find_char(chars, start + 1, c)
    }
}

pub proof fn lemma_find_delim(chars: Seq<char>, start: int, delims: Seq<char>)
    ensures
        find_delim(chars, start, delims) <= chars.len(),
        find_delim(chars, start, delims) >= start || find_delim(chars, start, delims)
            == chars.len(),
        0 <= start <= chars.len() ==> {
            let r = find_delim(chars, start, delims);
            &&& start <= r <= chars.len()
            &&& forall|i: int| start <= i < r ==> !delims.contains(chars[i])
            &&& r < chars.len() ==> delims.contains(chars[r])
        },
    decreases chars.len() - start,
{
    if 0 <= start < chars.len() && !delims.contains(chars[start]) {
        lemma_find_delim(chars, start + 1, delims);
    }
}

pub proof fn lemma_find_char(chars: Seq<char>, start: int, c: char)
    ensures
        find_char(chars, start, c) <= chars.len(),
        find_char(chars, start, c) >= start || find_char(chars, start, c) == chars.len(),
        0 <= start <= chars.len() ==> {
            let r = find_char(chars, start, c);
            &&& start <= r <= chars.len()
            &&& forall|i: int| start <= i < r ==> chars[i] != c
            &&& r < chars.len() ==> chars[r] == c
        },
    decreases chars.len() - start,
{
    if 0 <= start < chars.len() && chars[start] != c {
        lemma_find_char(chars, start + 1, c);
    }
}

/// Which reading rule applies at `start`, scanning the escape pairs in
/// order: a pair whose opener stands at `start` wins; otherwise, as soon as
/// a pair was considered, the regex prefix is checked.
pub enum TokenRule {
    Escaped(char, char),
    Regex,
    Plain,
}

pub open spec fn token_rule_from(
    chars: Seq<char>,
    start: int,
    pairs: Seq<(char, char)>,
    i: int,
) -> TokenRule
    decreases pairs.len() - i,
{
    if i < 0 || i >= pairs.len() {
        TokenRule::Plain
    } else if pairs[i].0 == chars[start] {
        TokenRule::Escaped(pairs[i].0, pairs[i].1)
    } else if regex_prefix_at(chars, start) {
        TokenRule::Regex
    } else {
        token_rule_from(chars, start, pairs, i + 1)
    }
}

pub open spec fn token_rule(chars: Seq<char>, start: int, pairs: Seq<(char, char)>) -> TokenRule {
    token_rule_from(chars, start, pairs, 0)
}

/// Token and next position for a plain read: everything up to the next
/// delimiter, which becomes the next position.
pub open spec fn read_plain_spec(chars: Seq<char>, start: int, delims: Seq<char>) -> (Seq<
    char,
>, int) {
    let end = find_delim(chars, start, delims);
    (chars.subrange(start, end), end)
}

/// Token and next position for a quoted read: from the opener through the
/// first closer after it, both kept; without a closer, the rest of the
/// input.
pub open spec fn read_escaped_spec(chars: Seq<char>, start: int, right: char) -> (Seq<char>, int) {
    let j = find_char(chars, start + 1, right);
    let end = if j < chars.len() {
        j + 1
    } else {
        chars.len() as int
    };
    (chars.subrange(start, end), end)
}

/// Token and next position for a regex-escape read: from `r#` through the
/// first `#` after the prefix; without one, the rest of the input.
pub open spec fn read_regex_spec(chars: Seq<char>, start: int) -> (Seq<char>, int) {
    let j = find_char(chars, start + 2, '#');
    let end = if j < chars.len() {
        j + 1
    } else {
        chars.len() as int
    };
    (chars.subrange(start, end), end)
}

/// One raw (untrimmed) token read at `start`, with the position just after
/// it.
pub open spec fn read_token_spec(
    chars: Seq<char>,
    start: int,
    delims: Seq<char>,
    pairs: Seq<(char, char)>,
) -> (Seq<char>, int) {
    if start >= chars.len() {
        (Seq::<char>::empty(), chars.len() as int)
    } else {
        match token_rule(chars, start, pairs) {
            TokenRule::Escaped(_left, right) => read_escaped_spec(chars, start, right),
            TokenRule::Regex => read_regex_spec(chars, start),
            TokenRule::Plain => read_plain_spec(chars, start, delims),
        }
    }
}

pub proof fn lemma_read_token(
    chars: Seq<char>,
    start: int,
    delims: Seq<char>,
    pairs: Seq<(char, char)>,
)
    requires
        0 <= start <= chars.len(),
    ensures
        ({
            let (tok, next) = read_token_spec(chars, start, delims, pairs);
            &&& start <= next <= chars.len()
            &&& tok == chars.subrange(start, next)
        }),
{
    lemma_find_delim(chars, start, delims);
    if start < chars.len() {
        match token_rule(chars, start, pairs) {
            TokenRule::Escaped(_l, right) => {
                lemma_find_char(chars, start + 1, right);
            }
            TokenRule::Regex => {
                lemma_find_char(chars, start + 2, '#');
            }
            TokenRule::Plain => {}
        }
    } else {
        assert(chars.subrange(start, start) =~= Seq::<char>::empty());
    }
}

/// The raw tokens from `start` on: one per delimiter-separated field.
pub open spec fn raw_tokens_from(
    chars: Seq<char>,
    start: int,
    delims: Seq<char>,
    pairs: Seq<(char, char)>,
) -> Seq<Seq<char>>
    decreases chars.len() - start,
    via raw_tokens_from_decreases
{
    let tok_next = read_token_spec(chars, start, delims, pairs);
    if tok_next.1 >= chars.len() {
        seq![tok_next.0]
    } else {
        seq![tok_next.0] + raw_tokens_from(chars, tok_next.1 + 1, delims, pairs)
    }
}

#[via_fn]
proof fn raw_tokens_from_decreases(
    chars: Seq<char>,
    start: int,
    delims: Seq<char>,
    pairs: Seq<(char, char)>,
) {
    lemma_read_token_advances(chars, start, delims, pairs);
}

proof fn lemma_read_token_advances(
    chars: Seq<char>,
    start: int,
    delims: Seq<char>,
    pairs: Seq<(char, char)>,
)
    ensures
        read_token_spec(chars, start, delims, pairs).1 < chars.len() ==> read_token_spec(
            chars,
            start,
            delims,
            pairs,
        ).1 >= start,
{
    if start < chars.len() {
        match token_rule(chars, start, pairs) {
            TokenRule::Escaped(_l, right) => {
                lemma_find_char(chars, start + 1, right);
            }
            TokenRule::Regex => {
                lemma_find_char(chars, start + 2, '#');
            }
            TokenRule::Plain => {
                lemma_find_delim(chars, start, delims);
            }
        }
    }
}

/// The delimiters the scan consumes, one between adjacent tokens.
pub open spec fn delims_used_from(
    chars: Seq<char>,
    start: int,
    delims: Seq<char>,
    pairs: Seq<(char, char)>,
) -> Seq<char>
    decreases chars.len() - start,
    via delims_used_from_decreases
{
    let tok_next = read_token_spec(chars, start, delims, pairs);
    if tok_next.1 >= chars.len() {
        Seq::<char>::empty()
    } else {
        seq![chars[tok_next.1]] + delims_used_from(chars, tok_next.1 + 1, delims, pairs)
    }
}

#[via_fn]
proof fn delims_used_from_decreases(
    chars: Seq<char>,
    start: int,
    delims: Seq<char>,
    pairs: Seq<(char, char)>,
) {
    lemma_read_token_advances(chars, start, delims, pairs);
}

/// What `parse` returns: the raw tokens, each trimmed of ASCII whitespace.
/// An empty configuration has no tokens at all.
pub open spec fn parse_spec(
    config: Seq<char>,
    delims: Seq<char>,
    pairs: Seq<(char, char)>,
) -> Seq<Seq<char>> {
    if config.len() == 0 {
        Seq::<Seq<char>>::empty()
    } else {
        raw_tokens_from(config, 0, delims, pairs).map_values(|t: Seq<char>| trim_spec(t))
    }
}

/// Tokens joined back with the consumed delimiters, in order.
pub open spec fn join_tokens(toks: Seq<Seq<char>>, ds: Seq<char>) -> Seq<char>
    decreases toks.len(),
{
    if toks.len() == 0 {
        Seq::<char>::empty()
    } else if toks.len() == 1 {
        toks[0]
    } else {
        toks[0] + seq![ds[0]] + join_tokens(toks.drop_first(), ds.drop_first())
    }
}

proof fn lemma_rebuild_from(chars: Seq<char>, start: int, delims: Seq<char>, pairs: Seq<
    (char, char),
>)
    requires
        0 <= start <= chars.len(),
    ensures
        ({
            let toks = raw_tokens_from(chars, start, delims, pairs);
            let ds = delims_used_from(chars, start, delims, pairs);
            &&& ds.len() == toks.len() - 1
            &&& join_tokens(toks, ds) == chars.subrange(start, chars.len() as int)
        }),
    decreases chars.len() - start,
{
    let (tok, next) = read_token_spec(chars, start, delims, pairs);
    lemma_read_token(chars, start, delims, pairs);
    let toks = raw_tokens_from(chars, start, delims, pairs);
    let ds = delims_used_from(chars, start, delims, pairs);
    if next >= chars.len() {
        assert(join_tokens(toks, ds) =~= chars.subrange(start, chars.len() as int));
    } else {
        lemma_rebuild_from(chars, next + 1, delims, pairs);
        let sub_toks = raw_tokens_from(chars, next + 1, delims, pairs);
        let sub_ds = delims_used_from(chars, next + 1, delims, pairs);
        assert(toks.drop_first() =~= sub_toks);
        assert(ds.drop_first() =~= sub_ds);
        assert(join_tokens(toks, ds) =~= chars.subrange(start, chars.len() as int));
    }
}

/// Splitting is lossless: the raw tokens joined with the consumed
/// delimiters rebuild the input exactly; trimming is the only difference
/// between the raw tokens and what `parse` returns.
pub proof fn lemma_tokens_rebuild_input(
    config: Seq<char>,
    delims: Seq<char>,
    pairs: Seq<(char, char)>,
)
    requires
        config.len() > 0,
    ensures
        join_tokens(
            raw_tokens_from(config, 0, delims, pairs),
            delims_used_from(config, 0, delims, pairs),
        ) == config,
        parse_spec(config, delims, pairs) == raw_tokens_from(config, 0, delims, pairs).map_values(
            |t: Seq<char>| trim_spec(t),
        ),
{
    lemma_rebuild_from(config, 0, delims, pairs);
    assert(config.subrange(0, config.len() as int) =~= config);
}

/// Every raw token is one contiguous run of the input: the scanner walks
/// by code points and never rewrites one, so multi-byte code points come
/// through intact.
pub proof fn lemma_token_is_contiguous(
    config: Seq<char>,
    delims: Seq<char>,
    pairs: Seq<(char, char)>,
    k: int,
)
    requires
        0 <= k < raw_tokens_from(config, 0, delims, pairs).len(),
    ensures
        exists|a: int, b: int|
            0 <= a <= b <= config.len() && raw_tokens_from(config, 0, delims, pairs)[k]
                == config.subrange(a, b),
{
    lemma_token_is_contiguous_from(config, 0, delims, pairs, k);
}

proof fn lemma_token_is_contiguous_from(
    chars: Seq<char>,
    start: int,
    delims: Seq<char>,
    pairs: Seq<(char, char)>,
    k: int,
)
    requires
        0 <= start <= chars.len(),
        0 <= k < raw_tokens_from(chars, start, delims, pairs).len(),
    ensures
        exists|a: int, b: int|
            0 <= a <= b <= chars.len() && raw_tokens_from(chars, start, delims, pairs)[k]
                == chars.subrange(a, b),
    decreases k,
{
    let (tok, next) = read_token_spec(chars, start, delims, pairs);
    lemma_read_token(chars, start, delims, pairs);
    if k == 0 {
        assert(raw_tokens_from(chars, start, delims, pairs)[0] == tok);
        assert(0 <= start <= next <= chars.len() && tok == chars.subrange(start, next));
    } else {
        assert(next < chars.len());
        lemma_token_is_contiguous_from(chars, next + 1, delims, pairs, k - 1);
        assert(raw_tokens_from(chars, start, delims, pairs)[k] == raw_tokens_from(
            chars,
            next + 1,
            delims,
            pairs,
        )[k - 1]);
    }
}

/// A character a plain (unquoted) token may hold: ASCII letters, digits,
/// `_` and the wildcard `*`.
pub open spec fn plain_token_char(c: char) -> bool {
    let u = c as u32;
    (97 <= u <= 122) || (65 <= u <= 90) || (48 <= u <= 57) || c == '_' || c == '*'
}

/// A token the dialect accepts: wholly plain characters, or wholly
/// enclosed in the dialect's quoting pair.
pub open spec fn token_valid(t: Seq<char>, db_type: DbType) -> bool {
    (forall|i: int| 0 <= i < t.len() ==> plain_token_char(#[trigger] t[i])) || (
    match escape_pair_of(db_type) {
        Some(pair) => t.len() >= 2 && t[0] == pair.0 && t[t.len() - 1] == pair.1,
        None => false,
    })
}

/// In a token the dialect accepts, quoting is balanced: either no quote
/// character occurs at all, or the token is enclosed by the pair.
pub proof fn lemma_valid_token_quotes_balanced(t: Seq<char>, db_type: DbType, pair: (char, char))
    requires
        token_valid(t, db_type),
        escape_pair_of(db_type) == Some(pair),
    ensures
        (forall|i: int| 0 <= i < t.len() ==> t[i] != pair.0 && #[trigger] t[i] != pair.1) || (
        t.len() >= 2 && t[0] == pair.0 && t[t.len() - 1] == pair.1),
{
}

pub open spec fn all_tokens_valid(toks: Seq<Seq<char>>, db_type: DbType) -> bool {
    forall|i: int| 0 <= i < toks.len() ==> token_valid(#[trigger] toks[i], db_type)
}

/// The index of the first token the dialect rejects.
pub open spec fn first_invalid_token(toks: Seq<Seq<char>>, db_type: DbType) -> int
    decreases toks.len(),
{
    if toks.len() == 0 {
        0
    } else if !token_valid(toks[0], db_type) {
        0
    } else {
        1 + first_invalid_token(toks.drop_first(), db_type)
    }
}

/// The configuration error text for a rejected token.
pub open spec fn config_error_text(token: Seq<char>) -> Seq<char> {
    "config error near: "@ + token
        + ", try enclose database/table/column with escapes if there are special characters other than letters and numbers"@
}

pub struct ConfigTokenParser {}

impl ConfigTokenParser {
    /// Tokenize and validate a configuration string for a dialect. Every
    /// token must be plain or wholly quoted; the first offending token is
    /// named in the error.
    pub fn parse_config(config_str: &str, db_type: &DbType, delimiters: &[char]) -> (r: Result<
        Vec<String>,
        Error,
    >)
        ensures
            ({
                let toks = parse_spec(config_str@, delimiters@, escape_pairs_of(*db_type));
                match r {
                    Ok(tokens) => {
                        &&& all_tokens_valid(toks, *db_type)
                        &&& tokens@.len() == toks.len()
                        &&& forall|i: int| 0 <= i < toks.len() ==> tokens@[i]@ == toks[i]
                    },
                    Err(e) => {
                        &&& !all_tokens_valid(toks, *db_type)
                        &&& match e {
                            Error::ConfigError(m) => m@ == config_error_text(
                                toks[first_invalid_token(toks, *db_type)],
                            ),
                            _ => false,
                        }
                    },
                }
            }),
    {
        let pairs = db_type.get_escape_pairs();
        let tokens = Self::parse(config_str, delimiters, pairs.as_slice());
        let ghost toks = parse_spec(config_str@, delimiters@, pairs@);
        let mut i: usize = 0;
        while i < tokens.len()
            invariant
                i <= tokens@.len(),
                pairs@ == escape_pairs_of(*db_type),
                toks == parse_spec(config_str@, delimiters@, escape_pairs_of(*db_type)),
                tokens@.len() == toks.len(),
                forall|k: int| 0 <= k < toks.len() ==> tokens@[k]@ == toks[k],
                forall|k: int| 0 <= k < i ==> token_valid(#[trigger] toks[k], *db_type),
            decreases tokens@.len() - i,
        {
            let token_chars = str_to_chars(tokens[i].as_str());
            if !is_valid_token(&token_chars, db_type) {
                proof {
                    lemma_first_invalid(toks, *db_type, i as int);
                }
                let mut msg = String::from_str("config error near: ");
                msg.append(tokens[i].as_str());
                msg.append(
                    ", try enclose database/table/column with escapes if there are special characters other than letters and numbers",
                );
                proof {
                    assert(msg@ =~= config_error_text(toks[i as int]));
                }
                return Err(Error::ConfigError(msg));
            }
            i = i + 1;
        }
        Ok(tokens)
    }

    /// Tokenize a configuration string with explicit delimiters and escape
    /// pairs. Yields the trimmed tokens in input order; an empty input
    /// yields no tokens.
    pub fn parse(config: &str, delimiters: &[char], escape_pairs: &[(char, char)]) -> (tokens: Vec<
        String,
    >)
        ensures
            ({
                let toks = parse_spec(config@, delimiters@, escape_pairs@);
                &&& tokens@.len() == toks.len()
                &&& forall|i: int| 0 <= i < toks.len() ==> tokens@[i]@ == toks[i]
            }),
    {
        let chars = str_to_chars(config);
        let mut tokens: Vec<String> = Vec::new();
        if chars.len() == 0 {
            return tokens;
        }
        let ghost total = raw_tokens_from(chars@, 0, delimiters@, escape_pairs@);
        let mut start_index: usize = 0;
        let mut more = true;
        while more
            invariant
                chars@ == config@,
                chars@.len() > 0,
                more ==> start_index <= chars@.len(),
                (if more {
                    (tokens@.len() + raw_tokens_from(
                        chars@,
                        start_index as int,
                        delimiters@,
                        escape_pairs@,
                    ).len()) as int
                } else {
                    tokens@.len() as int
                }) == total.len(),
                forall|k: int|
                    0 <= k < tokens@.len() ==> tokens@[k]@ == trim_spec(#[trigger] total[k]),
                more ==> total =~= total.subrange(0, tokens@.len() as int) + raw_tokens_from(
                    chars@,
                    start_index as int,
                    delimiters@,
                    escape_pairs@,
                ),
            decreases (if more {
                chars@.len() - start_index + 1
            } else {
                0
            }),
        {
            let ghost rest = raw_tokens_from(chars@, start_index as int, delimiters@, escape_pairs@);
            let (token, next_index) = Self::read_token(
                &chars,
                start_index,
                delimiters,
                escape_pairs,
            );
            let trimmed = trim_chars(&token);
            proof {
                assert(rest[0] == token@);
                assert(total[tokens@.len() as int] == token@);
            }
            tokens.push(chars_to_string(&trimmed));
            if next_index >= chars.len() {
                proof {
                    assert(rest.len() == 1);
                }
                more = false;
            } else {
                proof {
                    assert(rest.drop_first() =~= raw_tokens_from(
                        chars@,
                        next_index + 1,
                        delimiters@,
                        escape_pairs@,
                    ));
                    assert(total =~= total.subrange(0, tokens@.len() as int) + rest.drop_first());
                }
                start_index = next_index + 1;
            }
        }
        proof {
            assert(parse_spec(config@, delimiters@, escape_pairs@) =~= total.map_values(
                |t: Seq<char>| trim_spec(t),
            ));
        }
        tokens
    }

    /// One token starting at `start_index`, and the position just after it.
    fn read_token(
        chars: &Vec<char>,
        start_index: usize,
        delimiters: &[char],
        escape_pairs: &[(char, char)],
    ) -> (r: (Vec<char>, usize))
        requires
            start_index <= chars@.len(),
        ensures
            ({
                let (tok, next) = read_token_spec(
                    chars@,
                    start_index as int,
                    delimiters@,
                    escape_pairs@,
                );
                &&& r.0@ == tok
                &&& r.1 as int == next
                &&& start_index <= r.1 <= chars@.len()
            }),
    {
        proof {
            lemma_read_token(chars@, start_index as int, delimiters@, escape_pairs@);
        }
        if start_index >= chars.len() {
            return (Vec::new(), chars.len());
        }
        proof {
            reveal_strlit("r#");
        }
        let mut k: usize = 0;
        while k < escape_pairs.len()
            invariant
                k <= escape_pairs@.len(),
                start_index < chars@.len(),
                token_rule(chars@, start_index as int, escape_pairs@) == token_rule_from(
                    chars@,
                    start_index as int,
                    escape_pairs@,
                    k as int,
                ),
            decreases escape_pairs@.len() - k,
        {
            proof {
                reveal_strlit("r#");
                lemma_read_token(chars@, start_index as int, delimiters@, escape_pairs@);
            }
            let (left, right) = escape_pairs[k];
            if left == chars[start_index] {
                proof {
                    assert(escape_pairs@[k as int] == (left, right));
                    assert(token_rule_from(chars@, start_index as int, escape_pairs@, k as int)
                        == TokenRule::Escaped(left, right));
                    assert(token_rule(chars@, start_index as int, escape_pairs@)
                        == TokenRule::Escaped(left, right));
                    assert(read_token_spec(chars@, start_index as int, delimiters@, escape_pairs@)
                        == read_escaped_spec(chars@, start_index as int, right));
                }
                return Self::read_token_with_escape(chars, start_index, (left, right));
            } else if Self::match_prefix(chars, start_index, "r#") {
                proof {
                    let s = chars@.subrange(start_index as int, start_index + "r#"@.len());
                    assert(s == "r#"@);
                    assert(chars@[start_index as int] == s[0]);
                    assert(chars@[start_index + 1] == s[1]);
                    assert(regex_prefix_at(chars@, start_index as int));
                    assert(token_rule_from(chars@, start_index as int, escape_pairs@, k as int)
                        == TokenRule::Regex);
                    assert(read_token_spec(chars@, start_index as int, delimiters@, escape_pairs@)
                        == read_regex_spec(chars@, start_index as int));
                }
                return Self::read_token_with_regex_escape(chars, start_index);
            }
            proof {
                if regex_prefix_at(chars@, start_index as int) {
                    assert(chars@.subrange(start_index as int, start_index + "r#"@.len())
                        =~= "r#"@);
                    assert(false);
                }
                assert(token_rule_from(chars@, start_index as int, escape_pairs@, k as int)
                    == token_rule_from(chars@, start_index as int, escape_pairs@, k + 1));
            }
            k = k + 1;
        }
        Self::read_token_to_delimiter(chars, start_index, delimiters)
    }

    /// Do the characters of `prefix` stand at `start_index`?
    fn match_prefix(chars: &Vec<char>, start_index: usize, prefix: &str) -> (r: bool)
        requires
            start_index <= chars@.len(),
        ensures
            r == (start_index + prefix@.len() <= chars@.len() && chars@.subrange(
                start_index as int,
                start_index + prefix@.len(),
            ) == prefix@),
    {
        let n = prefix.unicode_len();
        let len = chars.len();
        if n > len - start_index {
            return false;
        }
        let mut i: usize = 0;
        while i < n
            invariant
                i <= n,
                n == prefix@.len(),
                len == chars@.len(),
                start_index + n <= len,
                forall|j: int| 0 <= j < i ==> chars@[start_index + j] == prefix@[j],
            decreases n - i,
        {
            if chars[start_index + i] != prefix.get_char(i) {
                proof {
                    let s = chars@.subrange(start_index as int, start_index + prefix@.len());
                    assert(s[i as int] == chars@[start_index + i]);
                    assert(s != prefix@) by {
                        assert(s[i as int] != prefix@[i as int]);
                    }
                }
                return false;
            }
            i = i + 1;
        }
        proof {
            assert(chars@.subrange(start_index as int, start_index + prefix@.len()) =~= prefix@);
        }
        true
    }

    /// Everything up to the next delimiter.
    fn read_token_to_delimiter(chars: &Vec<char>, start_index: usize, delimiters: &[char]) -> (r: (
        Vec<char>,
        usize,
    ))
        requires
            start_index <= chars@.len(),
        ensures
            ({
                let (tok, next) = read_plain_spec(chars@, start_index as int, delimiters@);
                &&& r.0@ == tok
                &&& r.1 as int == next
            }),
    {
        proof {
            lemma_find_delim(chars@, start_index as int, delimiters@);
        }
        let end = find_delim_at(chars, start_index, delimiters);
        (copy_range(chars, start_index, end), end)
    }

    /// A quoted token: the opener through the matching closer, quotes kept.
    fn read_token_with_escape(chars: &Vec<char>, start_index: usize, escape_pair: (char, char)) -> (r: (
        Vec<char>,
        usize,
    ))
        requires
            start_index < chars@.len(),
            chars@[start_index as int] == escape_pair.0,
        ensures
            ({
                let (tok, next) = read_escaped_spec(chars@, start_index as int, escape_pair.1);
                &&& r.0@ == tok
                &&& r.1 as int == next
            }),
    {
        proof {
            lemma_find_char(chars@, start_index + 1, escape_pair.1);
        }
        let len = chars.len();
        assert(start_index < len);
        let j = find_char_at(chars, start_index + 1, escape_pair.1);
        let end = if j < chars.len() {
            j + 1
        } else {
            chars.len()
        };
        (copy_range(chars, start_index, end), end)
    }

    /// A regex-escaped token: `r#` through the first `#` after the prefix.
    fn read_token_with_regex_escape(chars: &Vec<char>, start_index: usize) -> (r: (Vec<char>, usize))
        requires
            start_index < chars@.len(),
            regex_prefix_at(chars@, start_index as int),
        ensures
            ({
                let (tok, next) = read_regex_spec(chars@, start_index as int);
                &&& r.0@ == tok
                &&& r.1 as int == next
            }),
    {
        proof {
            lemma_find_char(chars@, start_index + 2, '#');
        }
        let len = chars.len();
        assert(start_index + 2 <= len);
        let j = find_char_at(chars, start_index + 2, '#');
        let end = if j < chars.len() {
            j + 1
        } else {
            chars.len()
        };
        (copy_range(chars, start_index, end), end)
    }
}

fn contains_char(delimiters: &[char], c: char) -> (r: bool)
    ensures
        r == delimiters@.contains(c),
{
    let mut i: usize = 0;
    while i < delimiters.len()
        invariant
            i <= delimiters@.len(),
            forall|j: int| 0 <= j < i ==> delimiters@[j] != c,
        decreases delimiters@.len() - i,
    {
        if delimiters[i] == c {
            return true;
        }
        i = i + 1;
    }
    false
}

fn find_delim_at(chars: &Vec<char>, start: usize, delimiters: &[char]) -> (r: usize)
    requires
        start <= chars@.len(),
    ensures
        r as int == find_delim(chars@, start as int, delimiters@),
{
    let mut i: usize = start;
    while i < chars.len()
        invariant
            start <= i <= chars@.len(),
            find_delim(chars@, start as int, delimiters@) == find_delim(
                chars@,
                i as int,
                delimiters@,
            ),
        decreases chars@.len() - i,
    {
        if contains_char(delimiters, chars[i]) {
            return i;
        }
        i = i + 1;
    }
    chars.len()
}

pub(crate) fn find_char_at(chars: &Vec<char>, start: usize, c: char) -> (r: usize)
    requires
        start <= chars@.len(),
    ensures
        r as int == find_char(chars@, start as int, c),
{
    let mut i: usize = start;
    while i < chars.len()
        invariant
            start <= i <= chars@.len(),
            find_char(chars@, start as int, c) == find_char(chars@, i as int, c),
        decreases chars@.len() - i,
    {
        if chars[i] == c {
            return i;
        }
        i = i + 1;
    }
    chars.len()
}

fn copy_range(chars: &Vec<char>, a: usize, b: usize) -> (r: Vec<char>)
    requires
        a <= b <= chars@.len(),
    ensures
        r@ == chars@.subrange(a as int, b as int),
{
    let mut r: Vec<char> = Vec::new();
    let mut i: usize = a;
    while i < b
        invariant
            a <= i <= b <= chars@.len(),
            r@ == chars@.subrange(a as int, i as int),
        decreases b - i,
    {
        r.push(chars[i]);
        i = i + 1;
        proof {
            assert(r@ =~= chars@.subrange(a as int, i as int));
        }
    }
    r
}

/// Is the token plain (letters, digits, `_`, `*`) or wholly quoted for the
/// dialect?
pub fn is_valid_token(token: &Vec<char>, db_type: &DbType) -> (r: bool)
    ensures
        r == token_valid(token@, *db_type),
{
    let mut all_plain = true;
    let mut i: usize = 0;
    while i < token.len()
        invariant
            i <= token@.len(),
            all_plain == (forall|j: int| 0 <= j < i ==> plain_token_char(#[trigger] token@[j])),
        decreases token@.len() - i,
    {
        let c = token[i];
        let u = c as u32;
        let plain = (97 <= u && u <= 122) || (65 <= u && u <= 90) || (48 <= u && u <= 57) || c
            == '_' || c == '*';
        proof {
            assert(plain == plain_token_char(token@[i as int]));
        }
        all_plain = all_plain && plain;
        i = i + 1;
    }
    if all_plain {
        return true;
    }
    match db_type {
        DbType::Mysql => {
            token.len() >= 2 && token[0] == '`' && token[token.len() - 1] == '`'
        }
        DbType::Pg => {
            token.len() >= 2 && token[0] == '"' && token[token.len() - 1] == '"'
        }
        _ => false,
    }
}

proof fn lemma_first_invalid(toks: Seq<Seq<char>>, db_type: DbType, i: int)
    requires
        0 <= i < toks.len(),
        !token_valid(toks[i], db_type),
        forall|k: int| 0 <= k < i ==> token_valid(#[trigger] toks[k], db_type),
    ensures
        first_invalid_token(toks, db_type) == i,
        !all_tokens_valid(toks, db_type),
    decreases i,
{
    if i > 0 {
        lemma_first_invalid(toks.drop_first(), db_type, i - 1);
        assert(forall|k: int|
            0 <= k < i - 1 ==> toks.drop_first()[k] == #[trigger] toks[k + 1]);
    }
}

} // verus!
