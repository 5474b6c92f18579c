//! Where the task configuration comes from: the validated CLI choice, the
//! cache filename for a configuration-server entry, and the fetch URL.
//! Reading files, the environment and the network is the caller's outside
//! work.

use vstd::prelude::*;
use vstd::string::StringExecFns;

use crate::chars::{chars_to_string, str_to_chars};
use crate::error::Error;

verus! {

#[derive(Clone, Copy, Debug, PartialEq, Eq, Structural)]
pub enum ConfigSourceKind {
    Local,
    Nacos,
}

#[derive(Clone, Debug, PartialEq)]
pub struct CliArgs {
    pub source: ConfigSourceKind,
    pub config_path: Option<String>,
    pub nacos_address: Option<String>,
    pub nacos_dataid: Option<String>,
    pub nacos_group: String,
}

/// Is the optional argument missing or empty?
pub open spec fn opt_missing(o: Option<String>) -> bool {
    match o {
        Some(s) => s@.len() == 0,
        None => true,
    }
}

impl CliArgs {
    /// The arguments the chosen source requires are present and
    /// non-empty.
    pub open spec fn valid(&self) -> bool {
        match self.source {
            ConfigSourceKind::Local => !opt_missing(self.config_path),
            ConfigSourceKind::Nacos => !opt_missing(self.nacos_address) && !opt_missing(
                self.nacos_dataid,
            ),
        }
    }

    /// The error text naming the first missing argument of the chosen
    /// source.
    pub open spec fn missing_arg_text(&self) -> Seq<char> {
        match self.source {
            ConfigSourceKind::Local => "--config-path is required when --config-source=local (or pass a single positional path)."@,
            ConfigSourceKind::Nacos => if opt_missing(self.nacos_address) {
                "--nacos-address is required when --config-source=nacos."@
            } else {
                "--nacos-dataid is required when --config-source=nacos."@
            },
        }
    }

    /// Check the arguments; the error names the first missing one.
    pub fn validate(&self) -> (r: Result<(), Error>)
        ensures
            r is Ok <==> self.valid(),
            match r {
                Ok(_) => true,
                Err(e) => match e {
                    Error::ConfigError(m) => m@ == self.missing_arg_text(),
                    _ => false,
                },
            },
    {
        match self.source {
            ConfigSourceKind::Local => {
                if opt_str_missing(&self.config_path) {
                    return Err(
                        Error::ConfigError(
                            String::from_str(
                                "--config-path is required when --config-source=local (or pass a single positional path).",
                            ),
                        ),
                    );
                }
                Ok(())
            }
            ConfigSourceKind::Nacos => {
                if opt_str_missing(&self.nacos_address) {
                    return Err(
                        Error::ConfigError(
                            String::from_str(
                                "--nacos-address is required when --config-source=nacos.",
                            ),
                        ),
                    );
                }
                if opt_str_missing(&self.nacos_dataid) {
                    return Err(
                        Error::ConfigError(
                            String::from_str(
                                "--nacos-dataid is required when --config-source=nacos.",
                            ),
                        ),
                    );
                }
                Ok(())
            }
        }
    }
}

fn opt_str_missing(o: &Option<String>) -> (r: bool)
    ensures
        r == opt_missing(*o),
{
    match o {
        Some(s) => s.as_str().is_empty(),
        None => true,
    }
}

/// A character the cache filename may not hold.
pub open spec fn unsafe_filename_char(c: char) -> bool {
    c == ':' || c == '/' || c == '\\' || c == '?' || c == '&' || c == '=' || c == '#' || c == ' '
}

/// The cache filename of a configuration-server entry:
/// `address_dataid_group` with every unsafe character replaced by `_`.
pub open spec fn cache_key_spec(address: Seq<char>, dataid: Seq<char>, group: Seq<char>) -> Seq<
    char,
> {
    (address + "_"@ + dataid + "_"@ + group).map_values(
        |c: char|
            if unsafe_filename_char(c) {
                '_'
            } else {
                c
            },
    )
}

pub fn cache_key(address: &str, dataid: &str, group: &str) -> (r: String)
    ensures
        r@ == cache_key_spec(address@, dataid@, group@),
{
    let mut joined = address.to_owned();
    joined.append("_");
    joined.append(dataid);
    joined.append("_");
    joined.append(group);
    let chars = str_to_chars(joined.as_str());
    let mut out: Vec<char> = Vec::new();
    let mut i: usize = 0;
    while i < chars.len()
        invariant
            i <= chars@.len(),
            chars@ == joined@,
            out@.len() == i,
            forall|k: int|
                0 <= k < i ==> #[trigger] out@[k] == (if unsafe_filename_char(joined@[k]) {
                    '_'
                } else {
                    joined@[k]
                }),
        decreases chars@.len() - i,
    {
        let c = chars[i];
        let replaced = if c == ':' || c == '/' || c == '\\' || c == '?' || c == '&' || c == '='
            || c == '#' || c == ' ' {
            '_'
        } else {
            c
        };
        out.push(replaced);
        i = i + 1;
    }
    proof {
        assert(out@ =~= cache_key_spec(address@, dataid@, group@));
    }
    chars_to_string(&out)
}

/// Result of percent-encoding this text with the non-alphanumeric set; a
/// function of the text alone.
pub uninterp spec fn percent_encoded_of(s: Seq<char>) -> Seq<char>;

/// Relies on percent_encoding::utf8_percent_encode with
/// NON_ALPHANUMERIC: every byte outside ASCII alphanumerics becomes a
/// `%XX` escape; the result depends on the text alone.
#[verifier::external_body]
pub fn percent_encode_non_alnum(s: &str) -> (r: String)
    ensures
        r@ == percent_encoded_of(s@),
{
    percent_encoding::utf8_percent_encode(s, percent_encoding::NON_ALPHANUMERIC).to_string()
}

/// `address` without its trailing slashes.
pub open spec fn trim_trailing_slashes(s: Seq<char>) -> Seq<char>
    decreases s.len(),
{
    if s.len() > 0 && s[s.len() - 1] == '/' {
        trim_trailing_slashes(s.drop_last())
    } else {
        s
    }
}

/// The configuration-server fetch URL for one entry.
pub open spec fn nacos_url_spec(address: Seq<char>, dataid: Seq<char>, group: Seq<char>) -> Seq<
    char,
> {
    trim_trailing_slashes(address) + "/nacos/v1/cs/configs?dataId="@ + percent_encoded_of(dataid)
        + "&group="@ + percent_encoded_of(group)
}

pub fn nacos_config_url(address: &str, dataid: &str, group: &str) -> (r: String)
    ensures
        r@ == nacos_url_spec(address@, dataid@, group@),
{
    let chars = str_to_chars(address);
    let mut end: usize = chars.len();
    proof {
        assert(address@.subrange(0, address@.len() as int) =~= address@);
    }
    while end > 0 && chars[end - 1] == '/'
        invariant
            end <= chars@.len(),
            chars@ == address@,
            trim_trailing_slashes(address@) == trim_trailing_slashes(
                address@.subrange(0, end as int),
            ),
        decreases end,
    {
        proof {
            assert(address@.subrange(0, end as int).drop_last() =~= address@.subrange(
                0,
                end - 1,
            ));
        }
        end = end - 1;
    }
    proof {
        assert(trim_trailing_slashes(address@.subrange(0, end as int)) == address@.subrange(
            0,
            end as int,
        ));
    }
    let mut trimmed_chars: Vec<char> = Vec::new();
    let mut i: usize = 0;
    while i < end
        invariant
            i <= end <= chars@.len(),
            chars@ == address@,
            trimmed_chars@ == address@.subrange(0, i as int),
        decreases end - i,
    {
        trimmed_chars.push(chars[i]);
        i = i + 1;
        proof {
            assert(trimmed_chars@ =~= address@.subrange(0, i as int));
        }
    }
    let mut r = chars_to_string(&trimmed_chars);
    r.append("/nacos/v1/cs/configs?dataId=");
    let enc_dataid = percent_encode_non_alnum(dataid);
    r.append(enc_dataid.as_str());
    r.append("&group=");
    let enc_group = percent_encode_non_alnum(group);
    r.append(enc_group.as_str());
    r
}

/// The lines of a text, split on newline (the newline not kept).
pub open spec fn split_lines(s: Seq<char>) -> Seq<Seq<char>>
    decreases s.len(),
    via split_lines_decreases
{
    let j = crate::token_parser::find_char(s, 0, '\n');
    if j >= s.len() {
        seq![s]
    } else {
        seq![s.subrange(0, j)] + split_lines(s.subrange(j + 1, s.len() as int))
    }
}

#[via_fn]
proof fn split_lines_decreases(s: Seq<char>) {
    crate::token_parser::lemma_find_char(s, 0, '\n');
}

/// The section a header line opens, if the line is one: `[name]` after
/// trimming, the name trimmed too.
pub open spec fn header_name(line: Seq<char>) -> Option<Seq<char>> {
    let t = crate::chars::trim_spec(line);
    if t.len() >= 2 && t[0] == '[' && t[t.len() - 1] == ']' {
        Some(crate::chars::trim_spec(t.subrange(1, t.len() - 1)))
    } else {
        None
    }
}

/// The section the first `i` lines leave open.
pub open spec fn open_section(lines: Seq<Seq<char>>, i: int) -> Option<Seq<char>>
    decreases i,
{
    if i <= 0 || i > lines.len() {
        None
    } else {
        match header_name(lines[i - 1]) {
            Some(n) => Some(n),
            None => open_section(lines, i - 1),
        }
    }
}

/// Does any header line open section `a`?
pub open spec fn section_present(lines: Seq<Seq<char>>, a: Seq<char>) -> bool {
    exists|i: int| 0 <= i < lines.len() && header_name(#[trigger] lines[i]) == Some(a)
}

/// The body text of section `a` among the first `k` lines: every
/// non-header line standing under a header of that name, each with a
/// newline.
pub open spec fn section_block(lines: Seq<Seq<char>>, a: Seq<char>, k: int) -> Seq<char>
    decreases k,
{
    if k <= 0 || k > lines.len() {
        Seq::<char>::empty()
    } else {
        section_block(lines, a, k - 1) + (if header_name(lines[k - 1]) is None && open_section(
            lines,
            k,
        ) == Some(a) {
            lines[k - 1] + seq!['\n']
        } else {
            Seq::<char>::empty()
        })
    }
}

/// The emitted text of section `a`: its header, its body lines, and one
/// blank line.
pub open spec fn section_text(lines: Seq<Seq<char>>, a: Seq<char>) -> Seq<char> {
    seq!['['] + a + seq![']', '\n'] + section_block(lines, a, lines.len() as int) + seq!['\n']
}

/// The sections a configuration-server file may carry, in emission order.
pub open spec fn allowed_sections() -> Seq<Seq<char>> {
    seq![
        "extractor"@,
        "sinker"@,
        "pipeline"@,
        "parallelizer"@,
        "runtime"@,
        "filter"@,
        "router"@,
        "resumer"@,
        "data_marker"@,
        "processor"@,
        "meta_center"@,
        "metrics"@,
        "precheck"@,
    ]
}

/// The filtered configuration: the allowed sections that appear, each
/// with its lines, everything else dropped.
pub open spec fn filtered_config(lines: Seq<Seq<char>>, j: int) -> Seq<char>
    decreases j,
{
    if j <= 0 || j > allowed_sections().len() {
        Seq::<char>::empty()
    } else {
        filtered_config(lines, j - 1) + (if section_present(lines, allowed_sections()[j - 1]) {
            section_text(lines, allowed_sections()[j - 1])
        } else {
            Seq::<char>::empty()
        })
    }
}

/// One of the allowed section names.
fn allowed_section_name(j: usize) -> (r: &'static str)
    requires
        j < 13,
    ensures
        r@ == allowed_sections()[j as int],
{
    if j == 0 {
        "extractor"
    } else if j == 1 {
        "sinker"
    } else if j == 2 {
        "pipeline"
    } else if j == 3 {
        "parallelizer"
    } else if j == 4 {
        "runtime"
    } else if j == 5 {
        "filter"
    } else if j == 6 {
        "router"
    } else if j == 7 {
        "resumer"
    } else if j == 8 {
        "data_marker"
    } else if j == 9 {
        "processor"
    } else if j == 10 {
        "meta_center"
    } else if j == 11 {
        "metrics"
    } else {
        "precheck"
    }
}

/// Split a text into lines.
fn split_lines_exec(content: &str) -> (r: Vec<Vec<char>>)
    ensures
        r@.map_values(|l: Vec<char>| l@) == split_lines(content@),
{
    let chars = str_to_chars(content);
    let ghost whole = content@;
    let mut out: Vec<Vec<char>> = Vec::new();
    let mut start: usize = 0;
    let ghost m = |l: Vec<char>| l@;
    let mut done = false;
    proof {
        assert(chars@.subrange(0, chars@.len() as int) =~= chars@);
    }
    while !done
        invariant
            start <= chars@.len(),
            chars@ == whole,
            m == (|l: Vec<char>| l@),
            !done ==> split_lines(whole) == out@.map_values(m) + split_lines(
                whole.subrange(start as int, whole.len() as int),
            ),
            done ==> split_lines(whole) == out@.map_values(m),
        decreases (if done {
            0int
        } else {
            whole.len() - start + 1
        }),
    {
        let ghost rest = whole.subrange(start as int, whole.len() as int);
        proof {
            crate::token_parser::lemma_find_char(whole, start as int, '\n');
            crate::token_parser::lemma_find_char(rest, 0, '\n');
            assert forall|q: int| 0 <= q < rest.len() implies rest[q] == whole[start + q] by {}
            assert(crate::token_parser::find_char(rest, 0, '\n') == crate::token_parser::find_char(
                whole,
                start as int,
                '\n',
            ) - start) by {
                lemma_find_char_shift(whole, start as int);
            }
        }
        let j = crate::token_parser::find_char_at(&chars, start, '\n');
        let mut line: Vec<char> = Vec::new();
        let mut k: usize = start;
        while k < j
            invariant
                start <= k <= j <= chars@.len(),
                chars@ == whole,
                line@ == whole.subrange(start as int, k as int),
            decreases j - k,
        {
            line.push(chars[k]);
            k = k + 1;
            proof {
                assert(line@ =~= whole.subrange(start as int, k as int));
            }
        }
        let ghost prev = out@;
        out.push(line);
        proof {
            assert(out@.map_values(m) =~= prev.map_values(m).push(
                whole.subrange(start as int, j as int),
            ));
            assert(rest.subrange(0, j - start) =~= whole.subrange(start as int, j as int));
        }
        if j >= chars.len() {
            proof {
                assert(split_lines(rest) =~= seq![rest]);
                assert(rest =~= whole.subrange(start as int, j as int));
                assert(split_lines(whole) =~= out@.map_values(m));
            }
            done = true;
        } else {
            proof {
                assert(rest.subrange((j - start) + 1, rest.len() as int) =~= whole.subrange(
                    j + 1,
                    whole.len() as int,
                ));
                assert(split_lines(rest) =~= seq![whole.subrange(start as int, j as int)]
                    + split_lines(whole.subrange(j + 1, whole.len() as int)));
                assert(split_lines(whole) =~= out@.map_values(m) + split_lines(
                    whole.subrange(j + 1, whole.len() as int),
                ));
            }
            start = j + 1;
        }
    }
    out
}

proof fn lemma_find_char_shift(whole: Seq<char>, start: int)
    requires
        0 <= start <= whole.len(),
    ensures
        crate::token_parser::find_char(whole.subrange(start, whole.len() as int), 0, '\n')
            == crate::token_parser::find_char(whole, start, '\n') - start,
{
    let rest = whole.subrange(start, whole.len() as int);
    crate::token_parser::lemma_find_char(whole, start, '\n');
    crate::token_parser::lemma_find_char(rest, 0, '\n');
    let jw = crate::token_parser::find_char(whole, start, '\n');
    let jr = crate::token_parser::find_char(rest, 0, '\n');
    if jr + start < jw {
        assert(whole[jr + start] == rest[jr]);
        assert(false);
    }
    if jw < jr + start {
        assert(rest[jw - start] == whole[jw]);
        assert(false);
    }
}

/// The header name a line opens, if it is a header line.
fn header_name_exec(line: &Vec<char>) -> (r: Option<Vec<char>>)
    ensures
        match r {
            Some(v) => header_name(line@) == Some(v@),
            None => header_name(line@) is None,
        },
{
    let t = crate::chars::trim_chars(line);
    if t.len() >= 2 {
        let open_ok = t[0] == '[';
        let close_ok = t[t.len() - 1] == ']';
        if open_ok && close_ok {
            let mut inner: Vec<char> = Vec::new();
            let mut k: usize = 1;
            while k < t.len() - 1
                invariant
                    1 <= k <= t@.len() - 1,
                    t@.len() >= 2,
                    inner@ == t@.subrange(1, k as int),
                decreases t@.len() - 1 - k,
            {
                inner.push(t[k]);
                k = k + 1;
                proof {
                    assert(inner@ =~= t@.subrange(1, k as int));
                }
            }
            proof {
                assert(inner@ =~= t@.subrange(1, t@.len() - 1));
            }
            let trimmed_inner = crate::chars::trim_chars(&inner);
            return Some(trimmed_inner);
        }
        return None;
    }
    None
}

/// Are two character lists equal?
fn chars_eq(a: &Vec<char>, b: &Vec<char>) -> (r: bool)
    ensures
        r == (a@ == b@),
{
    if a.len() != b.len() {
        proof {
            assert(a@ != b@);
        }
        return false;
    }
    let mut i: usize = 0;
    while i < a.len()
        invariant
            i <= a@.len(),
            a@.len() == b@.len(),
            forall|k: int| 0 <= k < i ==> a@[k] == b@[k],
        decreases a@.len() - i,
    {
        if a[i] != b[i] {
            proof {
                assert(a@[i as int] != b@[i as int]);
            }
            return false;
        }
        i = i + 1;
    }
    proof {
        assert(a@ =~= b@);
    }
    true
}

/// Keep only the allowed sections of an INI-style configuration, each
/// emitted as its header, its lines, and a blank line, in the fixed
/// section order.
pub fn filter_config_sections(content: &str) -> (r: Result<String, Error>)
    ensures
        match r {
            Ok(text) => text@ == filtered_config(split_lines(content@), allowed_sections().len() as int),
            Err(_) => false,
        },
{
    let lines = split_lines_exec(content);
    let ghost lns = split_lines(content@);
    let mut out = String::new();
    let mut j: usize = 0;
    proof {
        assert(lines@.map_values(|l: Vec<char>| l@) == lns);
        assert(out@ =~= filtered_config(lns, 0));
    }
    while j < 13
        invariant
            j <= 13,
            lines@.map_values(|l: Vec<char>| l@) == lns,
            out@ == filtered_config(lns, j as int),
        decreases 13 - j,
    {
        let name = allowed_section_name(j);
        let name_chars = str_to_chars(name);
        let ghost a = allowed_sections()[j as int];
        let mut present = false;
        let mut i: usize = 0;
        while i < lines.len()
            invariant
                i <= lines@.len(),
                name_chars@ == a,
                lines@.map_values(|l: Vec<char>| l@) == lns,
                present ==> section_present(lns, a),
                !present ==> forall|k: int|
                    0 <= k < i ==> header_name(#[trigger] lns[k]) != Some(a),
            decreases lines@.len() - i,
        {
            if !present {
                match header_name_exec(&lines[i]) {
                    Some(h) => {
                        if chars_eq(&h, &name_chars) {
                            proof {
                                assert(lns[i as int] == lines@[i as int]@);
                                assert(header_name(lns[i as int]) == Some(a));
                            }
                            present = true;
                        }
                    }
                    None => {}
                }
            }
            i = i + 1;
        }
        if present {
            let ghost base = out@;
            out.push('[');
            out.append(name);
            out.push(']');
            out.push('\n');
            let ghost header_text = seq!['['] + a + seq![']', '\n'];
            proof {
                assert(out@ =~= base + header_text);
            }
            let mut in_section = false;
            let mut i2: usize = 0;
            proof {
                assert(section_block(lns, a, 0) =~= Seq::<char>::empty());
                assert(out@ =~= base + header_text + section_block(lns, a, 0));
            }
            while i2 < lines.len()
                invariant
                    i2 <= lines@.len(),
                    name_chars@ == a,
                    lines@.map_values(|l: Vec<char>| l@) == lns,
                    in_section == (open_section(lns, i2 as int) == Some(a)),
                    out@ == base + header_text + section_block(lns, a, i2 as int),
                decreases lines@.len() - i2,
            {
                let ghost prev_out = out@;
                proof {
                    assert(lns[i2 as int] == lines@[i2 as int]@);
                }
                match header_name_exec(&lines[i2]) {
                    Some(h) => {
                        in_section = chars_eq(&h, &name_chars);
                        proof {
                            assert(open_section(lns, i2 + 1) == Some(h@));
                        }
                    }
                    None => {
                        if in_section {
                            let line_str = chars_to_string(&lines[i2]);
                            out.append(line_str.as_str());
                            out.push('\n');
                            proof {
                                assert(out@ =~= prev_out + (lns[i2 as int] + seq!['\n']));
                            }
                        }
                    }
                }
                proof {
                    assert(out@ =~= base + header_text + section_block(lns, a, i2 + 1));
                }
                i2 = i2 + 1;
            }
            out.push('\n');
            proof {
                assert(out@ =~= base + section_text(lns, a));
                assert(out@ =~= filtered_config(lns, j + 1));
            }
        } else {
            proof {
                assert(!section_present(lns, a));
                assert(out@ =~= filtered_config(lns, j + 1));
            }
        }
        j = j + 1;
    }
    proof {
        assert(allowed_sections().len() == 13);
    }
    Ok(out)
}

} // verus!
