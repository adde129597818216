//! Character-level groundwork for the line parser: whitespace classes,
//! decimal integer syntax, scanning for a character, whitespace trimming and
//! tokenization of a line into whitespace-separated tokens.

use vstd::prelude::*;

verus! {

/// The two characters that separate fields within a line.
pub open spec fn is_sep(c: char) -> bool {
    c == ' ' || c == '\t'
}

/// Whitespace as understood by the line-level trim: the Unicode
/// `White_Space` code points.
pub open spec fn is_line_ws(c: char) -> bool {
    c == ' ' || c == '\t' || c == '\n' || c == '\r' || c as u32 == 0xB || c as u32 == 0xC || (c
        as u32) == 0x85 || c as u32 == 0xA0 || c as u32 == 0x1680 || (0x2000 <= c as u32 && c as u32
        <= 0x200A) || c as u32 == 0x2028 || c as u32 == 0x2029 || c as u32 == 0x202F || (c as u32)
        == 0x205F || c as u32 == 0x3000
}

pub open spec fn is_digit(c: char) -> bool {
    48 <= c as u32 && c as u32 <= 57
}

pub open spec fn digit_val(c: char) -> nat {
    (c as u32 - 48) as nat
}

pub open spec fn all_digits(s: Seq<char>) -> bool {
    forall|i: int| 0 <= i < s.len() ==> is_digit(#[trigger] s[i])
}

/// Numeric value of a sequence of decimal digits, most significant first.
pub open spec fn dec_val(s: Seq<char>) -> nat
    decreases s.len(),
{
    if s.len() == 0 {
        0
    } else {
        dec_val(s.drop_last()) * 10 + digit_val(s.last())
    }
}

/// The digits of an integer token once an optional leading `+` is removed.
pub open spec fn numeric_body(s: Seq<char>) -> Seq<char> {
    if s.len() > 0 && s[0] == '+' {
        s.drop_first()
    } else {
        s
    }
}

/// An unsigned decimal integer token: an optional `+`, then one or more
/// digits, denoting a value of at most `max`.
pub open spec fn valid_uint_str(s: Seq<char>, max: nat) -> bool {
    numeric_body(s).len() > 0 && all_digits(numeric_body(s)) && dec_val(numeric_body(s)) <= max
}

/// Index of the first occurrence of `c` in `s` at or after `i`, or `s.len()`
/// if there is none.
pub open spec fn find_from(s: Seq<char>, c: char, i: int) -> int
    decreases s.len() - i,
{
    if i < 0 || i >= s.len() {
        s.len() as int
    } else if s[i] == c {
        i
    } else {
        find_from(s, c, i + 1)
    }
}

pub open spec fn find_char(s: Seq<char>, c: char) -> int {
    find_from(s, c, 0)
}

/// Number of occurrences of `c` in `s` at or after `i`.
pub open spec fn count_from(s: Seq<char>, c: char, i: int) -> nat
    decreases s.len() - i,
{
    if i < 0 || i >= s.len() {
        0
    } else if s[i] == c {
        count_from(s, c, i + 1) + 1
    } else {
        count_from(s, c, i + 1)
    }
}

pub open spec fn count_char(s: Seq<char>, c: char) -> nat {
    count_from(s, c, 0)
}

pub proof fn lemma_find_from_bounds(s: Seq<char>, c: char, i: int)
    requires
        0 <= i <= s.len(),
    ensures
        i <= find_from(s, c, i) <= s.len(),
        find_from(s, c, i) < s.len() ==> s[find_from(s, c, i)] == c,
        forall|m: int| i <= m < find_from(s, c, i) ==> s[m] != c,
    decreases s.len() - i,
{
    if i < s.len() && s[i] != c {
        lemma_find_from_bounds(s, c, i + 1);
    }
}

/// Counting occurrences through the first one found: either there is none,
/// or the count splits around the first occurrence.
pub proof fn lemma_count_find(s: Seq<char>, c: char, i: int)
    requires
        0 <= i <= s.len(),
    ensures
        (count_from(s, c, i) == 0) <==> (find_from(s, c, i) == s.len()),
        find_from(s, c, i) < s.len() ==> count_from(s, c, i) == 1 + count_from(
            s,
            c,
            find_from(s, c, i) + 1,
        ),
    decreases s.len() - i,
{
    if i < s.len() && s[i] != c {
        lemma_count_find(s, c, i + 1);
    }
}

/// End of the run of line whitespace that starts at `i`.
pub open spec fn ws_scan(s: Seq<char>, i: int) -> int
    decreases s.len() - i,
{
    if i < 0 || i >= s.len() {
        s.len() as int
    } else if is_line_ws(s[i]) {
        ws_scan(s, i + 1)
    } else {
        i
    }
}

/// Start of the run of line whitespace that ends just before `j`, scanning
/// backwards from `j`.
pub open spec fn ws_rscan(s: Seq<char>, j: int) -> int
    decreases j,
{
    if j <= 0 || j > s.len() {
        0
    } else if is_line_ws(s[j - 1]) {
        ws_rscan(s, j - 1)
    } else {
        j
    }
}

/// The line with leading and trailing whitespace removed.
pub open spec fn trim_spec(s: Seq<char>) -> Seq<char> {
    if ws_scan(s, 0) <= ws_rscan(s, s.len() as int) {
        s.subrange(ws_scan(s, 0), ws_rscan(s, s.len() as int))
    } else {
        Seq::empty()
    }
}

/// End of the token that starts at `i`: the first separator at or after `i`,
/// or the end of the line.
pub open spec fn token_end(s: Seq<char>, i: int) -> int
    decreases s.len() - i,
{
    if i < 0 || i >= s.len() {
        s.len() as int
    } else if is_sep(s[i]) {
        i
    } else {
        token_end(s, i + 1)
    }
}

pub proof fn lemma_token_end_bounds(s: Seq<char>, i: int)
    requires
        0 <= i <= s.len(),
    ensures
        i <= token_end(s, i) <= s.len(),
    decreases s.len() - i,
{
    if i < s.len() && !is_sep(s[i]) {
        lemma_token_end_bounds(s, i + 1);
    }
}

/// The whitespace-separated tokens of `s` from position `i` on: separators
/// are pure delimiters, and empty tokens do not arise.
pub open spec fn tokens_from(s: Seq<char>, i: int) -> Seq<Seq<char>>
    decreases s.len() - i,
        via tokens_from_decreases
{
    if i < 0 || i >= s.len() {
        Seq::empty()
    } else if is_sep(s[i]) {
        tokens_from(s, i + 1)
    } else {
        seq![s.subrange(i, token_end(s, i))] + tokens_from(s, token_end(s, i))
    }
}

#[via_fn]
proof fn tokens_from_decreases(s: Seq<char>, i: int) {
    if 0 <= i < s.len() && !is_sep(s[i]) {
        lemma_token_end_bounds(s, i + 1);
    }
}

pub open spec fn tokens_of(s: Seq<char>) -> Seq<Seq<char>> {
    tokens_from(s, 0)
}

/// Whether `p` is a prefix of `s`.
pub open spec fn is_prefix(p: Seq<char>, s: Seq<char>) -> bool {
    p.len() <= s.len() && s.subrange(0, p.len() as int) == p
}

fn is_line_ws_exec(c: char) -> (b: bool)
    ensures
        b == is_line_ws(c),
{
    let u = c as u32;
    u == 0x9 || u == 0xA || u == 0xB || u == 0xC || u == 0xD || u == 0x20 || u == 0x85 || u == 0xA0
        || u == 0x1680 || (0x2000 <= u && u <= 0x200A) || u == 0x2028 || u == 0x2029 || u == 0x202F
        || u == 0x205F || u == 0x3000
}

/// Scan for the first occurrence of `c` at or after `from`.
pub fn find_char_in(s: &str, from: usize, c: char) -> (r: usize)
    requires
        from <= s@.len(),
    ensures
        r as int == find_from(s@, c, from as int),
        from <= r <= s@.len(),
{
    let n = s.unicode_len();
    let mut i = from;
    while i < n
        invariant
            from <= i <= n,
            n == s@.len(),
            find_from(s@, c, from as int) == find_from(s@, c, i as int),
        decreases n - i,
    {
        if s.get_char(i) == c {
            return i;
        }
        i = i + 1;
    }
    proof {
        lemma_find_from_bounds(s@, c, from as int);
    }
    n
}

/// Remove leading and trailing whitespace.
pub fn trim(s: &str) -> (r: &str)
    ensures
        r@ == trim_spec(s@),
{
    let n = s.unicode_len();
    let mut a: usize = 0;
    while a < n && is_line_ws_exec(s.get_char(a))
        invariant
            0 <= a <= n,
            n == s@.len(),
            ws_scan(s@, 0) == ws_scan(s@, a as int),
        decreases n - a,
    {
        a = a + 1;
    }
    if a == n {
        proof {
            assert(ws_scan(s@, 0) == n);
            assert(ws_rscan(s@, n as int) <= n) by {
                lemma_ws_rscan_bounds(s@, n as int);
            }
            if ws_scan(s@, 0) <= ws_rscan(s@, s@.len() as int) {
                assert(trim_spec(s@) =~= s@.subrange(n as int, n as int));
                assert(trim_spec(s@) =~= Seq::<char>::empty());
            }
        }
        return s.substring_char(n, n);
    }
    let mut b: usize = n;
    while b > a && is_line_ws_exec(s.get_char(b - 1))
        invariant
            a < b <= n,
            n == s@.len(),
            a < n,
            !is_line_ws(s@[a as int]),
            ws_rscan(s@, n as int) == ws_rscan(s@, b as int),
        decreases b,
    {
        b = b - 1;
    }
    proof {
        assert(ws_scan(s@, a as int) == a);
        assert(!is_line_ws(s@[b - 1]));
        assert(ws_rscan(s@, b as int) == b);
        assert(trim_spec(s@) == s@.subrange(a as int, b as int));
    }
    s.substring_char(a, b)
}

proof fn lemma_ws_rscan_bounds(s: Seq<char>, j: int)
    requires
        0 <= j <= s.len(),
    ensures
        0 <= ws_rscan(s, j) <= j,
    decreases j,
{
    if 0 < j <= s.len() && is_line_ws(s[j - 1]) {
        lemma_ws_rscan_bounds(s, j - 1);
    }
}

/// Split a line into its whitespace-separated tokens.
pub fn split_tokens(s: &str) -> (toks: Vec<String>)
    ensures
        toks.deep_view() == tokens_of(s@),
{
    let n = s.unicode_len();
    let mut toks: Vec<String> = Vec::new();
    let mut i: usize = 0;
    proof {
        assert(tokens_of(s@) =~~= toks.deep_view() + tokens_from(s@, 0));
    }
    while i < n
        invariant
            0 <= i <= n,
            n == s@.len(),
            tokens_of(s@) == toks.deep_view() + tokens_from(s@, i as int),
        decreases n - i,
    {
        if is_sep_exec(s.get_char(i)) {
            proof {
                assert(tokens_from(s@, i as int) == tokens_from(s@, i + 1));
            }
            i = i + 1;
        } else {
            let start = i;
            let mut j = i + 1;
            while j < n && !is_sep_exec(s.get_char(j))
                invariant
                    start < j <= n,
                    n == s@.len(),
                    token_end(s@, start as int) == token_end(s@, j as int),
                decreases n - j,
            {
                j = j + 1;
            }
            proof {
                assert(token_end(s@, j as int) == j);
                assert(token_end(s@, start as int) == j);
            }
            let tok = s.substring_char(start, j).to_owned();
            let ghost dv = toks.deep_view();
            proof {
                assert(tokens_from(s@, start as int) == seq![s@.subrange(start as int, j as int)]
                    + tokens_from(s@, j as int));
            }
            toks.push(tok);
            proof {
                assert(toks.deep_view() =~~= dv.push(tok@));
                assert(dv.push(tok@) + tokens_from(s@, j as int) =~~= dv + (seq![tok@]
                    + tokens_from(s@, j as int)));
                assert(tokens_of(s@) =~~= toks.deep_view() + tokens_from(s@, j as int));
            }
            i = j;
        }
    }
    proof {
        assert(tokens_of(s@) =~~= toks.deep_view());
    }
    toks
}

fn is_sep_exec(c: char) -> (b: bool)
    ensures
        b == is_sep(c),
{
    c == ' ' || c == '\t'
}

pub uninterp spec fn usize_err_of(s: Seq<char>) -> std::num::ParseIntError;

/// Relies on `<usize as core::str::FromStr>::from_str`, reached through
/// `str::parse`: a token of an optional leading `+` and one or more decimal
/// digits whose value fits in `usize` parses to that value; any other token
/// is an error, and the error value is a function of the token alone.
#[verifier::external_body]
pub(crate) fn parse_usize_token(s: &str) -> (r: Result<usize, std::num::ParseIntError>)
    ensures
        r is Ok <==> valid_uint_str(s@, usize::MAX as nat),
        r matches Ok(n) ==> n as nat == dec_val(numeric_body(s@)),
        r matches Err(e) ==> e == usize_err_of(s@),
{
    s.parse::<usize>()
}

/// Relies on `<u32 as core::str::FromStr>::from_str`, reached through
/// `str::parse`: a token of an optional leading `+` and one or more decimal
/// digits whose value fits in `u32` parses to that value; any other token is
/// an error.
#[verifier::external_body]
pub(crate) fn parse_u32_token(s: &str) -> (r: Result<u32, std::num::ParseIntError>)
    ensures
        r is Ok <==> valid_uint_str(s@, u32::MAX as nat),
        r matches Ok(n) ==> n as nat == dec_val(numeric_body(s@)),
{
    s.parse::<u32>()
}

} // verus!
