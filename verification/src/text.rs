//! Text helpers over `&str`: whitespace, blank tests, trimming, word counts
//! and decimal rendering of unsigned integers.

use vstd::prelude::*;
use vstd::string::*;

verus! {

/// The code points with the Unicode `White_Space` property.
pub open spec fn is_whitespace(c: char) -> bool {
    let u = c as u32;
    ||| 0x09 <= u <= 0x0d
    ||| u == 0x20
    ||| u == 0x85
    ||| u == 0xa0
    ||| u == 0x1680
    ||| 0x2000 <= u <= 0x200a
    ||| u == 0x2028
    ||| u == 0x2029
    ||| u == 0x202f
    ||| u == 0x205f
    ||| u == 0x3000
}

/// A text is blank when it holds nothing but whitespace.
pub open spec fn is_blank(s: Seq<char>) -> bool {
    forall|i: int| 0 <= i < s.len() ==> is_whitespace(#[trigger] s[i])
}

/// Index of the first character at or after `i` that is not whitespace
/// (the length of `s` if there is none).
pub open spec fn skip_whitespace(s: Seq<char>, i: int) -> int
    decreases s.len() - i,
{
    if 0 <= i < s.len() && is_whitespace(s[i]) {
        skip_whitespace(s, i + 1)
    } else {
        i
    }
}

/// Largest `j` in `lo..=j0` reached by walking back from `j0` over whitespace.
pub open spec fn skip_whitespace_back(s: Seq<char>, lo: int, j: int) -> int
    decreases j,
{
    if 0 <= lo < j <= s.len() && is_whitespace(s[j - 1]) {
        skip_whitespace_back(s, lo, j - 1)
    } else {
        j
    }
}

/// Start of the trimmed part of `s`.
pub open spec fn trim_start(s: Seq<char>) -> int {
    skip_whitespace(s, 0)
}

/// End (exclusive) of the trimmed part of `s`.
pub open spec fn trim_end(s: Seq<char>) -> int {
    skip_whitespace_back(s, trim_start(s), s.len() as int)
}

/// `s` without its leading and trailing whitespace.
pub open spec fn trimmed(s: Seq<char>) -> Seq<char> {
    s.subrange(trim_start(s), trim_end(s))
}

/// Whether a word starts at index `i`: a non-whitespace character that is
/// first in the text or follows whitespace.
pub open spec fn starts_word(s: Seq<char>, i: int) -> bool {
    &&& 0 <= i < s.len()
    &&& !is_whitespace(s[i])
    &&& (i == 0 || is_whitespace(s[i - 1]))
}

/// Number of words that start before index `n`.
pub open spec fn words_before(s: Seq<char>, n: int) -> nat
    decreases n,
{
    if n <= 0 {
        0
    } else {
        words_before(s, n - 1) + if starts_word(s, n - 1) { 1nat } else { 0nat }
    }
}

/// Number of maximal runs of non-whitespace characters in `s`.
pub open spec fn word_count(s: Seq<char>) -> nat {
    words_before(s, s.len() as int)
}

/// The sixteen lower-case hex digits.
pub open spec fn is_lower_hex(c: char) -> bool {
    ('0' <= c <= '9') || ('a' <= c <= 'f')
}

/// The texts that a list of strings holds.
pub open spec fn texts(strings: Seq<String>) -> Seq<Seq<char>> {
    strings.map_values(|text: String| text@)
}

/// The decimal digit character for `d < 10`.
pub open spec fn digit_char(d: nat) -> char {
    if d == 0 { '0' }
    else if d == 1 { '1' }
    else if d == 2 { '2' }
    else if d == 3 { '3' }
    else if d == 4 { '4' }
    else if d == 5 { '5' }
    else if d == 6 { '6' }
    else if d == 7 { '7' }
    else if d == 8 { '8' }
    else { '9' }
}

/// Decimal rendering of `n`, without sign or leading zeros.
pub open spec fn decimal(n: nat) -> Seq<char>
    decreases n,
{
    if n < 10 {
        seq![digit_char(n)]
    } else {
        decimal(n / 10).push(digit_char(n % 10))
    }
}

/// `String::push` appends one character at the end of the text, as its
/// documentation says.
pub assume_specification[ String::push ](text: &mut String, c: char)
    ensures
        final(text)@ == old(text)@.push(c),
;

pub fn char_is_whitespace(c: char) -> (r: bool)
    ensures
        r == is_whitespace(c),
{
    let u: u32 = c as u32;
    (0x09 <= u && u <= 0x0d) || u == 0x20 || u == 0x85 || u == 0xa0 || u == 0x1680 || (0x2000 <= u
        && u <= 0x200a) || u == 0x2028 || u == 0x2029 || u == 0x202f || u == 0x205f || u == 0x3000
}

pub fn str_is_blank(s: &str) -> (r: bool)
    ensures
        r == is_blank(s@),
{
    let n: usize = s.unicode_len();
    let mut i: usize = 0;
    while i < n
        invariant
            n == s@.len(),
            i <= n,
            forall|k: int| 0 <= k < i ==> is_whitespace(#[trigger] s@[k]),
        decreases n - i,
    {
        if !char_is_whitespace(s.get_char(i)) {
            return false;
        }
        i += 1;
    }
    true
}

pub fn trim(s: &str) -> (r: &str)
    ensures
        r@ == trimmed(s@),
{
    let n: usize = s.unicode_len();
    let mut lo: usize = 0;
    while lo < n && char_is_whitespace(s.get_char(lo))
        invariant
            n == s@.len(),
            lo <= n,
            skip_whitespace(s@, lo as int) == trim_start(s@),
        decreases n - lo,
    {
        lo += 1;
    }
    let mut hi: usize = n;
    while hi > lo && char_is_whitespace(s.get_char(hi - 1))
        invariant
            n == s@.len(),
            lo <= hi <= n,
            lo == trim_start(s@),
            skip_whitespace_back(s@, lo as int, hi as int) == trim_end(s@),
        decreases hi,
    {
        hi -= 1;
    }
    s.substring_char(lo, hi)
}

pub fn count_words(s: &str) -> (r: u64)
    ensures
        r == word_count(s@),
{
    let n: usize = s.unicode_len();
    let mut i: usize = 0;
    let mut count: u64 = 0;
    let mut prev_ws: bool = true;
    while i < n
        invariant
            n == s@.len(),
            i <= n,
            count == words_before(s@, i as int),
            count <= i,
            prev_ws == (i == 0 || is_whitespace(s@[i - 1])),
        decreases n - i,
    {
        let ws = char_is_whitespace(s.get_char(i));
        if !ws && prev_ws {
            count += 1;
        }
        prev_ws = ws;
        i += 1;
    }
    count
}

fn digit_str(d: u64) -> (r: &'static str)
    requires
        d < 10,
    ensures
        r@ == seq![digit_char(d as nat)],
{
    proof {
        reveal_strlit("0");
        reveal_strlit("1");
        reveal_strlit("2");
        reveal_strlit("3");
        reveal_strlit("4");
        reveal_strlit("5");
        reveal_strlit("6");
        reveal_strlit("7");
        reveal_strlit("8");
        reveal_strlit("9");
    }
    let r = if d == 0 { "0" }
        else if d == 1 { "1" }
        else if d == 2 { "2" }
        else if d == 3 { "3" }
        else if d == 4 { "4" }
        else if d == 5 { "5" }
        else if d == 6 { "6" }
        else if d == 7 { "7" }
        else if d == 8 { "8" }
        else { "9" };
    assert(r@ =~= seq![digit_char(d as nat)]);
    r
}

/// Renders `n` in decimal.
pub fn u64_to_decimal(n: u64) -> (r: String)
    ensures
        r@ == decimal(n as nat),
    decreases n,
{
    if n < 10 {
        digit_str(n).to_owned()
    } else {
        let mut s = u64_to_decimal(n / 10);
        let d = digit_str(n % 10);
        s.append(d);
        assert(s@ =~= decimal(n as nat));
        s
    }
}

} // verus!
