//! Character-level helpers shared by the tokenizer and the SQL builders:
//! conversion between `&str` and `Vec<char>`, and whitespace trimming.

use vstd::prelude::*;

verus! {

/// Relies on std's `String::push`: appends the character to the string.
pub assume_specification[ String::push ](s: &mut String, ch: char)
    ensures
        final(s)@ == old(s)@.push(ch),
;

/// The characters this library trims from token edges: ASCII whitespace.
pub open spec fn is_ascii_ws(c: char) -> bool {
    c == ' ' || c == '\t' || c == '\n' || c == '\r' || c == '\u{c}'
}

/// Index of the first character from `start` on that fails `is_ascii_ws`,
/// or the length when all of them are whitespace.
pub open spec fn first_non_ws(s: Seq<char>, start: int) -> int
    decreases s.len() - start,
{
    if start < 0 || start >= s.len() {
        s.len() as int
    } else if is_ascii_ws(s[start]) {
        first_non_ws(s, start + 1)
    } else {
        start
    }
}

/// Index one past the last non-whitespace character at or before `end - 1`,
/// or 0 when all of them are whitespace.
pub open spec fn last_non_ws_end(s: Seq<char>, end: int) -> int
    decreases end,
{
    if end <= 0 || end > s.len() {
        0
    } else if is_ascii_ws(s[end - 1]) {
        last_non_ws_end(s, end - 1)
    } else {
        end
    }
}

/// A token with its leading and trailing ASCII whitespace removed.
pub open spec fn trim_spec(s: Seq<char>) -> Seq<char> {
    let lo = first_non_ws(s, 0);
    let hi = last_non_ws_end(s, s.len() as int);
    if lo >= hi {
        Seq::empty()
    } else {
        s.subrange(lo, hi)
    }
}

pub fn exec_is_ascii_ws(c: char) -> (r: bool)
    ensures
        r == is_ascii_ws(c),
{
    c == ' ' || c == '\t' || c == '\n' || c == '\r' || c == '\u{c}'
}

/// The UTF-8 encoded length of one character.
pub open spec fn char_utf8_len(c: char) -> nat {
    if (c as u32) < 128 {
        1
    } else if (c as u32) < 2048 {
        2
    } else if (c as u32) < 65536 {
        3
    } else {
        4
    }
}

/// The UTF-8 byte length of the first `k` characters.
pub open spec fn utf8_len_prefix(s: Seq<char>, k: int) -> nat
    decreases k,
{
    if k <= 0 || k > s.len() {
        0
    } else {
        utf8_len_prefix(s, k - 1) + char_utf8_len(s[k - 1])
    }
}

/// The UTF-8 byte length of a text: what `str::len` counts.
pub open spec fn utf8_len(s: Seq<char>) -> nat {
    utf8_len_prefix(s, s.len() as int)
}

proof fn lemma_utf8_prefix_mono(s: Seq<char>, a: int, b: int)
    requires
        a <= b <= s.len(),
    ensures
        utf8_len_prefix(s, a) <= utf8_len_prefix(s, b),
    decreases b - a,
{
    if a < b {
        lemma_utf8_prefix_mono(s, a, b - 1);
    }
}

/// The UTF-8 byte length of a string, widened to u64.
pub fn utf8_len64(s: &str) -> (r: u64)
    requires
        utf8_len(s@) <= u64::MAX,
    ensures
        r as int == utf8_len(s@),
{
    let chars = str_to_chars(s);
    let mut acc: u64 = 0;
    let mut i: usize = 0;
    while i < chars.len()
        invariant
            i <= chars@.len(),
            chars@ == s@,
            utf8_len(s@) <= u64::MAX,
            acc as int == utf8_len_prefix(s@, i as int),
        decreases chars@.len() - i,
    {
        let c = chars[i];
        let u = c as u32;
        let step: u64 = if u < 128 {
            1
        } else if u < 2048 {
            2
        } else if u < 65536 {
            3
        } else {
            4
        };
        proof {
            assert(step as nat == char_utf8_len(c));
            lemma_utf8_prefix_mono(s@, i + 1, s@.len() as int);
        }
        acc = acc + step;
        i = i + 1;
    }
    acc
}

/// The characters of `s`, in order.
pub fn str_to_chars(s: &str) -> (r: Vec<char>)
    ensures
        r@ == s@,
{
    let mut r: Vec<char> = Vec::new();
    for c in it: s.chars()
        invariant
            it.seq() == s@,
            r@ == it.seq().subrange(0, it.index() as int),
    {
        r.push(c);
    }
    proof {
        assert(r@ =~= s@);
    }
    r
}

/// The string whose characters are exactly `v`.
pub fn chars_to_string(v: &Vec<char>) -> (r: String)
    ensures
        r@ == v@,
{
    let mut r = String::new();
    let mut i: usize = 0;
    while i < v.len()
        invariant
            i <= v.len(),
            r@ == v@.subrange(0, i as int),
        decreases v.len() - i,
    {
        r.push(v[i]);
        i = i + 1;
        proof {
            assert(r@ =~= v@.subrange(0, i as int));
        }
    }
    proof {
        assert(r@ =~= v@);
    }
    r
}

/// `v` without its leading and trailing ASCII whitespace.
pub fn trim_chars(v: &Vec<char>) -> (r: Vec<char>)
    ensures
        r@ == trim_spec(v@),
{
    let mut lo: usize = 0;
    while lo < v.len() && exec_is_ascii_ws(v[lo])
        invariant
            0 <= lo <= v.len(),
            first_non_ws(v@, 0) == first_non_ws(v@, lo as int),
        decreases v.len() - lo,
    {
        lo = lo + 1;
    }
    assert(first_non_ws(v@, 0) == lo);
    let mut hi: usize = v.len();
    while hi > 0 && exec_is_ascii_ws(v[hi - 1])
        invariant
            0 <= hi <= v.len(),
            last_non_ws_end(v@, v@.len() as int) == last_non_ws_end(v@, hi as int),
        decreases hi,
    {
        hi = hi - 1;
    }
    assert(last_non_ws_end(v@, v@.len() as int) == hi);
    let mut r: Vec<char> = Vec::new();
    if lo < hi {
        let mut i: usize = lo;
        while i < hi
            invariant
                lo <= i <= hi <= v.len(),
                r@ == v@.subrange(lo as int, i as int),
            decreases hi - i,
        {
            r.push(v[i]);
            i = i + 1;
            proof {
                assert(r@ =~= v@.subrange(lo as int, i as int));
            }
        }
    }
    proof {
        assert(r@ =~= trim_spec(v@));
    }
    r
}

} // verus!
