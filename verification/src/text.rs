//! Small verified text utilities: decimal rendering of integers, the
//! token-count formatter used by the status bar, and character helpers shared
//! by the parsers.

use vstd::prelude::*;
use vstd::string::StrSliceExecFns;

verus! {

/// The Unicode `White_Space` characters, the set `char::is_whitespace` tests.
pub open spec fn is_ws(c: char) -> bool {
    ||| c == ' '
    ||| ('\u{9}' <= c && c <= '\u{d}')
    ||| c == '\u{85}'
    ||| c == '\u{a0}'
    ||| c == '\u{1680}'
    ||| ('\u{2000}' <= c && c <= '\u{200a}')
    ||| c == '\u{2028}'
    ||| c == '\u{2029}'
    ||| c == '\u{202f}'
    ||| c == '\u{205f}'
    ||| c == '\u{3000}'
}

/// Tests membership in the Unicode `White_Space` set.
pub fn is_ws_char(c: char) -> (r: bool)
    ensures
        r == is_ws(c),
{
    let n = c as u32;
    n == 32 || (9 <= n && n <= 13) || n == 0x85 || n == 0xa0 || n == 0x1680 || (0x2000 <= n && n
        <= 0x200a) || n == 0x2028 || n == 0x2029 || n == 0x202f || n == 0x205f || n == 0x3000
}

/// The first position at or after `i` whose character is not whitespace
/// (`s.len()` if the rest is all whitespace).
pub open spec fn ws_from(s: Seq<char>, i: int) -> int
    decreases s.len() - i,
{
    if i < 0 || i >= s.len() || !is_ws(s[i]) {
        i
    } else {
        ws_from(s, i + 1)
    }
}

/// One past the last non-whitespace character before position `j`
/// (0 if everything before `j` is whitespace).
pub open spec fn ws_rfrom(s: Seq<char>, j: int) -> int
    decreases j,
{
    if j <= 0 || j > s.len() || !is_ws(s[j - 1]) {
        j
    } else {
        ws_rfrom(s, j - 1)
    }
}

/// The string with leading whitespace removed.
pub open spec fn spec_trim_start(s: Seq<char>) -> Seq<char> {
    s.subrange(ws_from(s, 0), s.len() as int)
}

/// The string with leading and trailing whitespace removed.
pub open spec fn spec_trim(s: Seq<char>) -> Seq<char> {
    let a = ws_from(s, 0);
    let b = ws_rfrom(s, s.len() as int);
    if b <= a {
        Seq::empty()
    } else {
        s.subrange(a, b)
    }
}

pub proof fn lemma_ws_from_bounds(s: Seq<char>, i: int)
    requires
        0 <= i <= s.len(),
    ensures
        i <= ws_from(s, i) <= s.len(),
        forall|k: int| i <= k < ws_from(s, i) ==> is_ws(s[k]),
        ws_from(s, i) < s.len() ==> !is_ws(s[ws_from(s, i)]),
    decreases s.len() - i,
{
    if i < s.len() && is_ws(s[i]) {
        lemma_ws_from_bounds(s, i + 1);
    }
}

/// The number of leading whitespace characters of `s`.
pub fn ws_prefix_end(s: &str) -> (r: usize)
    ensures
        r == ws_from(s@, 0),
{
    let n = s.unicode_len();
    let mut i: usize = 0;
    while i < n && is_ws_char(s.get_char(i))
        invariant
            0 <= i <= n == s@.len(),
            ws_from(s@, 0) == ws_from(s@, i as int),
        decreases n - i,
    {
        i = i + 1;
    }
    proof {
        assert(ws_from(s@, i as int) == i);
    }
    i
}

/// Removes leading whitespace.
pub fn trim_start_str<'a>(s: &'a str) -> (r: &'a str)
    ensures
        r@ == spec_trim_start(s@),
{
    let n = s.unicode_len();
    let a = ws_prefix_end(s);
    proof {
        lemma_ws_from_bounds(s@, 0);
    }
    s.substring_char(a, n)
}

/// Removes leading and trailing whitespace.
pub fn trim_str<'a>(s: &'a str) -> (r: &'a str)
    ensures
        r@ == spec_trim(s@),
{
    let n = s.unicode_len();
    let a = ws_prefix_end(s);
    proof {
        lemma_ws_from_bounds(s@, 0);
    }
    let mut b: usize = n;
    while b > 0 && is_ws_char(s.get_char(b - 1))
        invariant
            0 <= b <= n == s@.len(),
            ws_rfrom(s@, n as int) == ws_rfrom(s@, b as int),
        decreases b,
    {
        b = b - 1;
    }
    proof {
        assert(ws_rfrom(s@, b as int) == b);
    }
    if b <= a {
        let r = s.substring_char(0, 0);
        assert(r@ =~= spec_trim(s@));
        r
    } else {
        s.substring_char(a, b)
    }
}

/// The string with trailing whitespace removed.
pub open spec fn spec_trim_end(s: Seq<char>) -> Seq<char> {
    s.subrange(0, ws_rfrom(s, s.len() as int))
}

/// Removes trailing whitespace.
pub fn trim_end_str<'a>(s: &'a str) -> (r: &'a str)
    ensures
        r@ == spec_trim_end(s@),
{
    let n = s.unicode_len();
    let mut b: usize = n;
    while b > 0 && is_ws_char(s.get_char(b - 1))
        invariant
            0 <= b <= n == s@.len(),
            ws_rfrom(s@, n as int) == ws_rfrom(s@, b as int),
        decreases b,
    {
        b = b - 1;
    }
    proof {
        assert(ws_rfrom(s@, b as int) == b);
    }
    s.substring_char(0, b)
}

/// True when the two strings hold the same characters.
pub fn str_eq(a: &str, b: &str) -> (r: bool)
    ensures
        r == (a@ == b@),
{
    let na = a.unicode_len();
    let nb = b.unicode_len();
    if na != nb {
        return false;
    }
    let mut i: usize = 0;
    while i < na
        invariant
            0 <= i <= na == a@.len(),
            na == nb == b@.len(),
            forall|k: int| 0 <= k < i ==> a@[k] == b@[k],
        decreases na - i,
    {
        if a.get_char(i) != b.get_char(i) {
            return false;
        }
        i = i + 1;
    }
    proof {
        assert(a@ =~= b@);
    }
    true
}

/// True when `s` begins with `prefix`.
pub open spec fn spec_starts_with(s: Seq<char>, prefix: Seq<char>) -> bool {
    prefix.len() <= s.len() && s.subrange(0, prefix.len() as int) == prefix
}

/// Tests whether `s` begins with `prefix`.
pub fn starts_with_str(s: &str, prefix: &str) -> (r: bool)
    ensures
        r == spec_starts_with(s@, prefix@),
{
    let np = prefix.unicode_len();
    let ns = s.unicode_len();
    if np > ns {
        assert(!spec_starts_with(s@, prefix@));
        return false;
    }
    let head = s.substring_char(0, np);
    let r = str_eq(head, prefix);
    proof {
        if r {
            assert(s@.subrange(0, np as int) =~= prefix@);
        }
    }
    r
}

/// The first position at or after `i` holding character `c`
/// (`s.len()` if there is none).
pub open spec fn find_char_from(s: Seq<char>, i: int, c: char) -> int
    decreases s.len() - i,
{
    if i < 0 || i >= s.len() {
        s.len() as int
    } else if s[i] == c {
        i
    } else {
        find_char_from(s, i + 1, c)
    }
}

pub proof fn lemma_find_char_bounds(s: Seq<char>, i: int, c: char)
    requires
        0 <= i <= s.len(),
    ensures
        i <= find_char_from(s, i, c) <= s.len(),
        find_char_from(s, i, c) < s.len() ==> s[find_char_from(s, i, c)] == c,
        forall|k: int| i <= k < find_char_from(s, i, c) ==> s[k] != c,
    decreases s.len() - i,
{
    if i < s.len() && s[i] != c {
        lemma_find_char_bounds(s, i + 1, c);
    }
}

/// Finds the first occurrence of `c` at or after `from`; returns the string
/// length when `c` does not occur.
pub fn find_char(s: &str, from: usize, c: char) -> (r: usize)
    requires
        from <= s@.len(),
    ensures
        r == find_char_from(s@, from as int, c),
{
    let n = s.unicode_len();
    let mut i: usize = from;
    while i < n && s.get_char(i) != c
        invariant
            from <= i <= n == s@.len(),
            find_char_from(s@, from as int, c) == find_char_from(s@, i as int, c),
        decreases n - i,
    {
        i = i + 1;
    }
    proof {
        assert(find_char_from(s@, i as int, c) == i);
    }
    i
}

/// The first position at or after `i` whose character differs from `c`.
pub open spec fn skip_char_from(s: Seq<char>, i: int, c: char) -> int
    decreases s.len() - i,
{
    if i < 0 || i >= s.len() || s[i] != c {
        i
    } else {
        skip_char_from(s, i + 1, c)
    }
}

/// Skips a run of the character `c` starting at `from`.
pub fn skip_char(s: &str, from: usize, c: char) -> (r: usize)
    requires
        from <= s@.len(),
    ensures
        r == skip_char_from(s@, from as int, c),
{
    let n = s.unicode_len();
    let mut i: usize = from;
    while i < n && s.get_char(i) == c
        invariant
            from <= i <= n == s@.len(),
            skip_char_from(s@, from as int, c) == skip_char_from(s@, i as int, c),
        decreases n - i,
    {
        i = i + 1;
    }
    proof {
        assert(skip_char_from(s@, i as int, c) == i);
    }
    i
}

pub broadcast proof fn lemma_skip_char_bounds(s: Seq<char>, i: int, c: char)
    requires
        0 <= i <= s.len(),
    ensures
        i <= #[trigger] skip_char_from(s, i, c) <= s.len(),
    decreases s.len() - i,
{
    if i < s.len() && s[i] == c {
        lemma_skip_char_bounds(s, i + 1, c);
    }
}

/// Relies on `String::push`: appends exactly one character.
#[verifier::external_body]
pub fn push_char(s: &mut String, c: char)
    ensures
        final(s)@ == old(s)@.push(c),
{
    s.push(c);
}

/// The decimal digit character for `n` (0..=9).
pub open spec fn digit_char(n: int) -> char {
    if n == 0 {
        '0'
    } else if n == 1 {
        '1'
    } else if n == 2 {
        '2'
    } else if n == 3 {
        '3'
    } else if n == 4 {
        '4'
    } else if n == 5 {
        '5'
    } else if n == 6 {
        '6'
    } else if n == 7 {
        '7'
    } else if n == 8 {
        '8'
    } else {
        '9'
    }
}

/// The usual decimal rendering of a non-negative integer, most significant
/// digit first, with no leading zeros (except for zero itself).
pub open spec fn spec_decimal(n: int) -> Seq<char>
    decreases n,
{
    if n < 10 {
        seq![digit_char(n)]
    } else {
        spec_decimal(n / 10).push(digit_char(n % 10))
    }
}

fn digit_of(n: u64) -> (c: char)
    requires
        n < 10,
    ensures
        c == digit_char(n as int),
{
    if n == 0 {
        '0'
    } else if n == 1 {
        '1'
    } else if n == 2 {
        '2'
    } else if n == 3 {
        '3'
    } else if n == 4 {
        '4'
    } else if n == 5 {
        '5'
    } else if n == 6 {
        '6'
    } else if n == 7 {
        '7'
    } else if n == 8 {
        '8'
    } else {
        '9'
    }
}

/// Renders `n` in decimal.
pub fn u64_to_string(n: u64) -> (r: String)
    ensures
        r@ == spec_decimal(n as int),
{
    let mut rev: Vec<char> = Vec::new();
    let mut rest: u64 = n;
    loop
        invariant_except_break
            spec_decimal(n as int) == spec_decimal(rest as int) + rev@.reverse(),
        ensures
            spec_decimal(n as int) == rev@.reverse(),
        decreases rest,
    {
        let d = digit_of(rest % 10);
        let ghost old_rev = rev@;
        rev.push(d);
        assert(rev@.reverse() =~= seq![d] + old_rev.reverse());
        if rest < 10 {
            assert(spec_decimal(n as int) =~= rev@.reverse());
            break;
        }
        proof {
            assert(spec_decimal(rest as int) =~= spec_decimal(rest as int / 10).push(
                digit_char(rest as int % 10),
            ));
            assert(spec_decimal(rest as int / 10) + (seq![d] + old_rev.reverse())
                =~= spec_decimal(rest as int) + old_rev.reverse());
        }
        rest = rest / 10;
    }
    let mut out = String::new();
    let mut i: usize = 0;
    while i < rev.len()
        invariant
            i <= rev@.len(),
            out@ == rev@.reverse().subrange(0, i as int),
        decreases rev@.len() - i,
    {
        let c = rev[rev.len() - 1 - i];
        push_char(&mut out, c);
        assert(out@ =~= rev@.reverse().subrange(0, i + 1));
        i = i + 1;
    }
    assert(out@ =~= rev@.reverse());
    out
}

/// Decimal rendering of a possibly negative integer.
pub open spec fn spec_decimal_signed(n: int) -> Seq<char> {
    if n < 0 {
        seq!['-'] + spec_decimal(-n)
    } else {
        spec_decimal(n)
    }
}

/// Renders `n` in decimal with a leading minus sign when negative.
pub fn i32_to_string(n: i32) -> (r: String)
    ensures
        r@ == spec_decimal_signed(n as int),
{
    if n < 0 {
        let magnitude: u64 = (-(n as i64)) as u64;
        let mut out = String::new();
        push_char(&mut out, '-');
        let digits = u64_to_string(magnitude);
        out.append(digits.as_str());
        assert(out@ =~= spec_decimal_signed(n as int));
        out
    } else {
        u64_to_string(n as u64)
    }
}

/// Three-digit zero-padded rendering of `n` (0..=999).
pub open spec fn spec_padded3(n: int) -> Seq<char> {
    seq![digit_char(n / 100), digit_char((n / 10) % 10), digit_char(n % 10)]
}

/// `n / d` rounded to the nearest integer, halves rounded up.
pub open spec fn spec_round_div(n: int, d: int) -> int {
    n / d + if n % d >= d / 2 {
        1int
    } else {
        0int
    }
}

/// How a token count is shown: exact under one thousand, with a comma under
/// ten thousand, in tenths of `k` under one million, else in hundredths of `M`.
pub open spec fn spec_format_tokens(count: int) -> Seq<char> {
    if count < 1000 {
        spec_decimal(count)
    } else if count < 10000 {
        spec_decimal(count / 1000) + seq![','] + spec_padded3(count % 1000)
    } else if count < 1000000 {
        let t = spec_round_div(count, 100);
        spec_decimal(t / 10) + seq!['.', digit_char(t % 10), 'k']
    } else {
        let h = spec_round_div(count, 10000);
        spec_decimal(h / 100) + seq!['.', digit_char((h / 10) % 10), digit_char(h % 10), 'M']
    }
}

/// Formats a token count for display: `999`, `1,234`, `12.3k`, `1.23M`.
pub fn format_tokens(count: u64) -> (r: String)
    ensures
        r@ == spec_format_tokens(count as int),
{
    if count < 1000 {
        u64_to_string(count)
    } else if count < 10000 {
        let mut out = u64_to_string(count / 1000);
        push_char(&mut out, ',');
        let rem = count % 1000;
        push_char(&mut out, digit_of(rem / 100));
        push_char(&mut out, digit_of((rem / 10) % 10));
        push_char(&mut out, digit_of(rem % 10));
        assert(out@ =~= spec_format_tokens(count as int));
        out
    } else if count < 1000000 {
        let t = count / 100 + if count % 100 >= 50 {
            1
        } else {
            0
        };
        let mut out = u64_to_string(t / 10);
        push_char(&mut out, '.');
        push_char(&mut out, digit_of(t % 10));
        push_char(&mut out, 'k');
        assert(out@ =~= spec_format_tokens(count as int));
        out
    } else {
        let h = count / 10000 + if count % 10000 >= 5000 {
            1
        } else {
            0
        };
        let mut out = u64_to_string(h / 100);
        push_char(&mut out, '.');
        push_char(&mut out, digit_of((h / 10) % 10));
        push_char(&mut out, digit_of(h % 10));
        push_char(&mut out, 'M');
        assert(out@ =~= spec_format_tokens(count as int));
        out
    }
}

} // verus!
