//! Markdown parsing for terminal display: turns a text into a sequence of
//! [`MarkdownElement`]s. Rendering the elements as styled terminal lines is
//! presentation and lives outside the library.

use vstd::prelude::*;
use vstd::string::{StrSliceExecFns, StringExecFns, StringSliceAdditionalSpecFns};
use crate::text::{
    find_char_from, find_char, push_char, skip_char_from, skip_char, spec_starts_with, spec_trim,
    spec_trim_start, starts_with_str, str_eq, trim_end_str, trim_start_str, trim_str, ws_from,
    lemma_find_char_bounds, lemma_skip_char_bounds,
};

verus! {

/// Parsed markdown element.
#[derive(Debug, Clone, PartialEq)]
pub enum MarkdownElement {
    Text(String),
    Bold(String),
    Italic(String),
    BoldItalic(String),
    Code(String),
    CodeBlock { language: Option<String>, code: String },
    Heading { level: u8, text: String },
    Link { text: String, url: String },
    ListItem { indent: usize, text: String },
    BlockQuote(String),
    HorizontalRule,
    Newline,
}

/// The model of a [`MarkdownElement`]: the same shape over character
/// sequences.
pub enum MdEl {
    Text(Seq<char>),
    Bold(Seq<char>),
    Italic(Seq<char>),
    BoldItalic(Seq<char>),
    Code(Seq<char>),
    CodeBlock { language: Option<Seq<char>>, code: Seq<char> },
    Heading { level: u8, text: Seq<char> },
    Link { text: Seq<char>, url: Seq<char> },
    ListItem { indent: int, text: Seq<char> },
    BlockQuote(Seq<char>),
    HorizontalRule,
    Newline,
}

impl MarkdownElement {
    /// The element over character sequences.
    pub open spec fn view_el(self) -> MdEl {
        match self {
            MarkdownElement::Text(t) => MdEl::Text(t@),
            MarkdownElement::Bold(t) => MdEl::Bold(t@),
            MarkdownElement::Italic(t) => MdEl::Italic(t@),
            MarkdownElement::BoldItalic(t) => MdEl::BoldItalic(t@),
            MarkdownElement::Code(t) => MdEl::Code(t@),
            MarkdownElement::CodeBlock { language, code } => MdEl::CodeBlock {
                language: match language {
                    Some(l) => Some(l@),
                    None => None,
                },
                code: code@,
            },
            MarkdownElement::Heading { level, text } => MdEl::Heading { level, text: text@ },
            MarkdownElement::Link { text, url } => MdEl::Link { text: text@, url: url@ },
            MarkdownElement::ListItem { indent, text } => MdEl::ListItem {
                indent: indent as int,
                text: text@,
            },
            MarkdownElement::BlockQuote(t) => MdEl::BlockQuote(t@),
            MarkdownElement::HorizontalRule => MdEl::HorizontalRule,
            MarkdownElement::Newline => MdEl::Newline,
        }
    }
}

/// The elements a vector holds, over models.
pub open spec fn view_els(s: Seq<MarkdownElement>) -> Seq<MdEl> {
    s.map_values(|e: MarkdownElement| e.view_el())
}

/// One carriage return stripped off the end, as the standard line iterator
/// does for lines that ended in `\r\n`.
pub open spec fn strip_cr(s: Seq<char>) -> Seq<char> {
    if s.len() > 0 && s[s.len() - 1] == '\r' {
        s.drop_last()
    } else {
        s
    }
}

/// The lines of a text: split at `\n`, a `\r` before the `\n` stripped, and
/// no extra line for a trailing newline.
pub open spec fn lines_of(s: Seq<char>) -> Seq<Seq<char>>
    decreases s.len(),
    via lines_of_dec
{
    if s.len() == 0 {
        Seq::empty()
    } else {
        let p = find_char_from(s, 0, '\n');
        if p == s.len() {
            seq![s]
        } else {
            seq![strip_cr(s.subrange(0, p))] + lines_of(s.subrange(p + 1, s.len() as int))
        }
    }
}

#[via_fn]
proof fn lines_of_dec(s: Seq<char>) {
    if s.len() != 0 {
        lemma_find_char_bounds(s, 0, '\n');
    }
}

/// Splits a text into its lines.
pub fn split_lines(text: &str) -> (r: Vec<String>)
    ensures
        r@.map_values(|l: String| l@) == lines_of(text@),
{
    let mut out: Vec<String> = Vec::new();
    let n = text.unicode_len();
    let mut pos: usize = 0;
    proof {
        assert(text@.subrange(0, n as int) =~= text@);
        assert(out@.map_values(|l: String| l@) =~= Seq::<Seq<char>>::empty());
    }
    while pos < n
        invariant
            0 <= pos <= n == text@.len(),
            lines_of(text@) == out@.map_values(|l: String| l@) + lines_of(
                text@.subrange(pos as int, n as int),
            ),
        decreases n - pos,
    {
        let ghost rest = text@.subrange(pos as int, n as int);
        let p = find_char(text, pos, '\n');
        proof {
            lemma_find_char_bounds(text@, pos as int, '\n');
            // The find on the whole text agrees with a find on the suffix.
            lemma_find_suffix(text@, pos as int, '\n');
        }
        let piece = if p < n && p > pos && text.get_char(p - 1) == '\r' {
            text.substring_char(pos, p - 1)
        } else {
            text.substring_char(pos, p)
        };
        let ghost before = out@;
        out.push(String::from_str(piece));
        let next = if p < n {
            p + 1
        } else {
            n
        };
        proof {
            let pr = find_char_from(rest, 0, '\n');
            assert(rest.len() > 0);
            if p < n {
                assert(pr == p - pos);
                assert(rest.subrange(0, pr) =~= text@.subrange(pos as int, p as int));
                assert(piece@ =~= strip_cr(rest.subrange(0, pr)));
                assert(rest.subrange(pr + 1, rest.len() as int) =~= text@.subrange(
                    next as int,
                    n as int,
                ));
                assert(lines_of(rest) == seq![piece@] + lines_of(
                    text@.subrange(next as int, n as int),
                ));
            } else {
                assert(pr == rest.len());
                assert(piece@ =~= rest);
                assert(lines_of(rest) == seq![piece@]);
                assert(text@.subrange(next as int, n as int) =~= Seq::<char>::empty());
            }
            assert(out@.map_values(|l: String| l@) =~= before.map_values(|l: String| l@) + seq![
                piece@,
            ]);
            assert(before.map_values(|l: String| l@) + (seq![piece@] + lines_of(
                text@.subrange(next as int, n as int),
            )) =~= out@.map_values(|l: String| l@) + lines_of(
                text@.subrange(next as int, n as int),
            ));
        }
        pos = next;
    }
    proof {
        assert(text@.subrange(pos as int, n as int) =~= Seq::<char>::empty());
        assert(lines_of(text@) =~= out@.map_values(|l: String| l@));
    }
    out
}

/// What parsing a heading yields: after leading whitespace, a run of `#`
/// whose length (reduced modulo 256, as a byte) is at most six sets the
/// level, and the rest, hashes stripped and trimmed, is the text. The level
/// is a byte, so a run of 256 hashes deliberately wraps around to a level-0
/// heading rather than being rejected.
pub open spec fn spec_parse_heading(line: Seq<char>) -> Option<MdEl> {
    let t = spec_trim_start(line);
    if t.len() > 0 && t[0] == '#' {
        let hashes = skip_char_from(t, 0, '#');
        let level = hashes % 256;
        if level <= 6 {
            Some(
                MdEl::Heading {
                    level: level as u8,
                    text: spec_trim(t.subrange(hashes, t.len() as int)),
                },
            )
        } else {
            None
        }
    } else {
        None
    }
}

/// Parses a heading line.
pub fn parse_heading(line: &str) -> (r: Option<MarkdownElement>)
    ensures
        match r {
            Some(e) => spec_parse_heading(line@) == Some(e.view_el()),
            None => spec_parse_heading(line@) is None,
        },
{
    let t = trim_start_str(line);
    let n = t.unicode_len();
    if n > 0 && t.get_char(0) == '#' {
        let hashes = skip_char(t, 0, '#');
        proof {
            lemma_skip_char_bounds(t@, 0, '#');
        }
        let level = (hashes % 256) as u8;
        if level <= 6 {
            let text = trim_str(t.substring_char(hashes, n));
            Some(MarkdownElement::Heading { level, text: String::from_str(text) })
        } else {
            None
        }
    } else {
        None
    }
}

/// A decimal digit.
pub open spec fn is_digit(c: char) -> bool {
    '0' <= c && c <= '9'
}

/// The first position at or after `i` where `.` is immediately followed by a
/// space (the length when there is none).
pub open spec fn find_dot_space(s: Seq<char>, i: int) -> int
    decreases s.len() - i,
{
    if i < 0 || i + 1 >= s.len() {
        s.len() as int
    } else if s[i] == '.' && s[i + 1] == ' ' {
        i
    } else {
        find_dot_space(s, i + 1)
    }
}

proof fn lemma_find_dot_space_bounds(s: Seq<char>, i: int)
    requires
        0 <= i <= s.len(),
    ensures
        ({
            let p = find_dot_space(s, i);
            &&& i <= p <= s.len()
            &&& (p < s.len() ==> p + 1 < s.len() && s[p] == '.' && s[p + 1] == ' ')
        }),
    decreases s.len() - i,
{
    if !(i + 1 >= s.len()) && !(s[i] == '.' && s[i + 1] == ' ') {
        lemma_find_dot_space_bounds(s, i + 1);
    }
}

/// The encoding of `a + b` is the encoding of `a` followed by that of `b`.
proof fn lemma_encode_utf8_concat(a: Seq<char>, b: Seq<char>)
    ensures
        vstd::utf8::encode_utf8(a + b) == vstd::utf8::encode_utf8(a) + vstd::utf8::encode_utf8(b),
    decreases a.len(),
{
    if a.len() == 0 {
        assert(a + b =~= b);
        assert(vstd::utf8::encode_utf8(a) + vstd::utf8::encode_utf8(b) =~= vstd::utf8::encode_utf8(
            b,
        ));
    } else {
        assert((a + b).drop_first() =~= a.drop_first() + b);
        lemma_encode_utf8_concat(a.drop_first(), b);
        assert((a + b)[0] == a[0]);
        assert(vstd::utf8::encode_utf8(a + b) =~= vstd::utf8::encode_utf8(a)
            + vstd::utf8::encode_utf8(b));
    }
}

/// How many bytes the leading whitespace of the line occupies: the indent is
/// measured as a byte-length difference.
pub open spec fn indent_bytes(line: Seq<char>) -> int {
    vstd::utf8::encode_utf8(line.subrange(0, ws_from(line, 0))).len() as int
}

/// What parsing a list item yields. An unordered item starts, after
/// whitespace, with `- `, `* ` or `+ `; an ordered item has only decimal
/// digits before its first `. `. The indent is the number of bytes the
/// leading whitespace occupies.
pub open spec fn spec_parse_list_item(line: Seq<char>) -> Option<MdEl> {
    let indent = indent_bytes(line);
    let t = spec_trim_start(line);
    if spec_starts_with(t, "- "@) || spec_starts_with(t, "* "@) || spec_starts_with(t, "+ "@) {
        Some(MdEl::ListItem { indent, text: t.subrange(2, t.len() as int) })
    } else {
        let p = find_dot_space(t, 0);
        if p < t.len() && (forall|k: int| 0 <= k < p ==> is_digit(t[k])) {
            Some(MdEl::ListItem { indent, text: t.subrange(p + 2, t.len() as int) })
        } else {
            None
        }
    }
}

fn is_digit_char(c: char) -> (r: bool)
    ensures
        r == is_digit(c),
{
    let n = c as u32;
    48 <= n && n <= 57
}

/// Parses a list-item line.
pub fn parse_list_item(line: &str) -> (r: Option<MarkdownElement>)
    ensures
        match r {
            Some(e) => spec_parse_list_item(line@) == Some(e.view_el()),
            None => spec_parse_list_item(line@) is None,
        },
{
    let t = trim_start_str(line);
    proof {
        let a = crate::text::ws_from(line@, 0);
        crate::text::lemma_ws_from_bounds(line@, 0);
        let prefix = line@.subrange(0, a);
        let rest = line@.subrange(a, line@.len() as int);
        assert(line@ =~= prefix + rest);
        lemma_encode_utf8_concat(prefix, rest);
        assert(line.spec_bytes() == vstd::utf8::encode_utf8(prefix) + vstd::utf8::encode_utf8(
            rest,
        ));
        assert(t@ == rest);
        assert(line.spec_bytes().len() == indent_bytes(line@) + t.spec_bytes().len());
    }
    let line_bytes = line.as_bytes().len();
    let rest_bytes = t.as_bytes().len();
    let indent = line_bytes - rest_bytes;
    let n = t.unicode_len();
    if starts_with_str(t, "- ") || starts_with_str(t, "* ") || starts_with_str(t, "+ ") {
        proof {
            reveal_strlit("- ");
            reveal_strlit("* ");
            reveal_strlit("+ ");
            assert("- "@.len() == 2 && "* "@.len() == 2 && "+ "@.len() == 2);
        }
        let text = t.substring_char(2, n);
        return Some(MarkdownElement::ListItem { indent, text: String::from_str(text) });
    }
    // Look for the first ". " and check that only digits precede it.
    let mut p: usize = 0;
    while n >= 1 && p < n - 1 && !(t.get_char(p) == '.' && t.get_char(p + 1) == ' ')
        invariant
            0 <= p <= n == t@.len(),
            find_dot_space(t@, 0) == find_dot_space(t@, p as int),
        decreases n - p,
    {
        p = p + 1;
    }
    proof {
        assert(find_dot_space(t@, p as int) == if p + 1 < n {
            p as int
        } else {
            n as int
        });
    }
    if n >= 1 && p < n - 1 {
        let mut k: usize = 0;
        let mut all_digits = true;
        while k < p
            invariant
                0 <= k <= p < n == t@.len(),
                all_digits == (forall|j: int| 0 <= j < k ==> is_digit(t@[j])),
            decreases p - k,
        {
            if !is_digit_char(t.get_char(k)) {
                all_digits = false;
            }
            k = k + 1;
        }
        if all_digits {
            let text = t.substring_char(p + 2, n);
            return Some(MarkdownElement::ListItem { indent, text: String::from_str(text) });
        }
    }
    None
}

/// Whether a character counts as part of a word for the underscore rules.
/// Relies on `char::is_alphanumeric`; the result depends on the character
/// alone.
pub uninterp spec fn alnum_char(c: char) -> bool;

/// Relies on `char::is_alphanumeric`: whether the character is alphanumeric.
#[verifier::external_body]
fn alnum(c: char) -> (r: bool)
    ensures
        r == alnum_char(c),
{
    c.is_alphanumeric()
}

/// `n` copies of one character.
pub open spec fn marker_seq(n: int, m: char) -> Seq<char> {
    Seq::new(n as nat, |k: int| m)
}

/// Scans for `stop`: where scanning ended (just past `stop` when found),
/// the content collected before it, and whether it was found. Reaching the
/// end of the line without `stop` keeps the content.
pub open spec fn scan_until(s: Seq<char>, i: int, stop: char) -> (int, Seq<char>, bool)
    decreases s.len() - i,
{
    if i < 0 || i >= s.len() {
        (i, Seq::empty(), false)
    } else if s[i] == stop {
        (i + 1, Seq::empty(), true)
    } else {
        let r = scan_until(s, i + 1, stop);
        (r.0, seq![s[i]] + r.1, r.2)
    }
}

pub proof fn lemma_scan_until_bounds(s: Seq<char>, i: int, stop: char)
    requires
        0 <= i <= s.len(),
    ensures
        i <= scan_until(s, i, stop).0 <= s.len(),
    decreases s.len() - i,
{
    if i < s.len() && s[i] != stop {
        lemma_scan_until_bounds(s, i + 1, stop);
    }
}

/// Scans for a run of `end_count` markers closing an emphasis span. Inside
/// the span an underscore between two word characters is content, not a
/// closer; a shorter run of markers is appended to the content; reaching a
/// full run ends the scan just past it.
pub open spec fn scan_emph(
    s: Seq<char>,
    i: int,
    marker: char,
    end_count: int,
    content: Seq<char>,
) -> (int, Seq<char>, bool)
    decreases s.len() - i,
    via scan_emph_dec
{
    if i < 0 || i >= s.len() || end_count < 2 {
        (i, content, false)
    } else if s[i] == marker {
        if marker == '_' && content.len() > 0 && alnum_char(content.last()) && i + 1 < s.len()
            && alnum_char(s[i + 1]) {
            scan_emph(s, i + 1, marker, end_count, content.push(marker))
        } else {
            let avail = 1 + (skip_char_from(s, i + 1, marker) - (i + 1));
            let consumed = if avail < end_count {
                avail
            } else {
                end_count
            };
            if consumed == end_count {
                (i + consumed, content, true)
            } else {
                scan_emph(s, i + consumed, marker, end_count, content + marker_seq(consumed, marker))
            }
        }
    } else {
        scan_emph(s, i + 1, marker, end_count, content.push(s[i]))
    }
}

#[via_fn]
proof fn scan_emph_dec(s: Seq<char>, i: int, marker: char, end_count: int, content: Seq<char>) {
    if 0 <= i && i < s.len() {
        lemma_skip_char_bounds(s, i + 1, marker);
    }
}

pub proof fn lemma_scan_emph_bounds(
    s: Seq<char>,
    i: int,
    marker: char,
    end_count: int,
    content: Seq<char>,
)
    requires
        0 <= i <= s.len(),
    ensures
        i <= scan_emph(s, i, marker, end_count, content).0 <= s.len(),
    decreases s.len() - i,
{
    if i < s.len() && end_count >= 2 {
        if s[i] == marker {
            if marker == '_' && content.len() > 0 && alnum_char(content.last()) && i + 1 < s.len()
                && alnum_char(s[i + 1]) {
                lemma_scan_emph_bounds(s, i + 1, marker, end_count, content.push(marker));
            } else {
                lemma_skip_char_bounds(s, i + 1, marker);
                let avail = 1 + (skip_char_from(s, i + 1, marker) - (i + 1));
                let consumed = if avail < end_count {
                    avail
                } else {
                    end_count
                };
                if consumed != end_count {
                    lemma_scan_emph_bounds(
                        s,
                        i + consumed,
                        marker,
                        end_count,
                        content + marker_seq(consumed, marker),
                    );
                }
            }
        } else {
            lemma_scan_emph_bounds(s, i + 1, marker, end_count, content.push(s[i]));
        }
    }
}

/// Scans for the single closing marker of an italic span, with the same
/// underscore-inside-a-word rule.
pub open spec fn scan_single(s: Seq<char>, i: int, marker: char, content: Seq<char>) -> (
    int,
    Seq<char>,
    bool,
)
    decreases s.len() - i,
{
    if i < 0 || i >= s.len() {
        (i, content, false)
    } else if s[i] == marker {
        if marker == '_' && content.len() > 0 && alnum_char(content.last()) && i + 1 < s.len()
            && alnum_char(s[i + 1]) {
            scan_single(s, i + 1, marker, content.push(marker))
        } else {
            (i + 1, content, true)
        }
    } else {
        scan_single(s, i + 1, marker, content.push(s[i]))
    }
}

pub proof fn lemma_scan_single_bounds(s: Seq<char>, i: int, marker: char, content: Seq<char>)
    requires
        0 <= i <= s.len(),
    ensures
        i <= scan_single(s, i, marker, content).0 <= s.len(),
    decreases s.len() - i,
{
    if i < s.len() {
        if s[i] == marker {
            if marker == '_' && content.len() > 0 && alnum_char(content.last()) && i + 1 < s.len()
                && alnum_char(s[i + 1]) {
                lemma_scan_single_bounds(s, i + 1, marker, content.push(marker));
            }
        } else {
            lemma_scan_single_bounds(s, i + 1, marker, content.push(s[i]));
        }
    }
}

/// The pending text flushed as a `Text` element (nothing for empty text).
pub open spec fn flush_acc(acc: Seq<MdEl>, cur: Seq<char>) -> Seq<MdEl> {
    if cur.len() > 0 {
        acc.push(MdEl::Text(cur))
    } else {
        acc
    }
}

/// The inline parse of `s` from position `i`, with pending text `cur`, and
/// the elements produced so far: backtick spans become `Code`, single and
/// doubled (or tripled) markers become `Italic`, `Bold` and `BoldItalic`,
/// bracket-parenthesis pairs become `Link`s, everything else is plain text.
/// An unclosed span falls back to plain text with its markers kept.
pub open spec fn inline_from(s: Seq<char>, i: int, cur: Seq<char>, acc: Seq<MdEl>) -> Seq<MdEl>
    decreases s.len() - i,
    via inline_from_dec
{
    if i < 0 || i >= s.len() {
        flush_acc(acc, cur)
    } else {
        let c = s[i];
        if c == '`' {
            let r = scan_until(s, i + 1, '`');
            let acc2 = flush_acc(acc, cur);
            let acc3 = if r.1.len() > 0 {
                acc2.push(MdEl::Code(r.1))
            } else {
                acc2
            };
            inline_from(s, r.0, Seq::empty(), acc3)
        } else if c == '*' || c == '_' {
            if c == '_' && cur.len() > 0 && alnum_char(cur.last()) {
                inline_from(s, i + 1, cur.push(c), acc)
            } else {
                let is_double = i + 1 < s.len() && s[i + 1] == c;
                if is_double {
                    let is_triple = i + 2 < s.len() && s[i + 2] == c;
                    let start = if is_triple {
                        i + 3
                    } else {
                        i + 2
                    };
                    let end_count: int = if is_triple {
                        3
                    } else {
                        2
                    };
                    let acc2 = flush_acc(acc, cur);
                    let r = scan_emph(s, start, c, end_count, Seq::empty());
                    if r.2 && r.1.len() > 0 {
                        let el = if is_triple {
                            MdEl::BoldItalic(r.1)
                        } else {
                            MdEl::Bold(r.1)
                        };
                        inline_from(s, r.0, Seq::empty(), acc2.push(el))
                    } else {
                        inline_from(s, r.0, marker_seq(end_count, c) + r.1, acc2)
                    }
                } else {
                    if c == '_' && !(i + 1 < s.len() && alnum_char(s[i + 1])) {
                        inline_from(s, i + 1, cur.push(c), acc)
                    } else {
                        let acc2 = flush_acc(acc, cur);
                        let r = scan_single(s, i + 1, c, Seq::empty());
                        if r.2 && r.1.len() > 0 {
                            inline_from(s, r.0, Seq::empty(), acc2.push(MdEl::Italic(r.1)))
                        } else {
                            inline_from(s, r.0, seq![c] + r.1, acc2)
                        }
                    }
                }
            }
        } else if c == '[' {
            let acc2 = flush_acc(acc, cur);
            let rt = scan_until(s, i + 1, ']');
            if rt.2 && rt.0 < s.len() && s[rt.0] == '(' {
                let ru = scan_until(s, rt.0 + 1, ')');
                if ru.2 {
                    inline_from(
                        s,
                        ru.0,
                        Seq::empty(),
                        acc2.push(MdEl::Link { text: rt.1, url: ru.1 }),
                    )
                } else {
                    inline_from(s, ru.0, seq!['['] + rt.1 + seq![']', '('] + ru.1, acc2)
                }
            } else {
                let cur2 = if rt.2 {
                    seq!['['] + rt.1 + seq![']']
                } else {
                    seq!['['] + rt.1
                };
                inline_from(s, rt.0, cur2, acc2)
            }
        } else {
            inline_from(s, i + 1, cur.push(c), acc)
        }
    }
}

#[via_fn]
proof fn inline_from_dec(s: Seq<char>, i: int, cur: Seq<char>, acc: Seq<MdEl>) {
    if 0 <= i && i < s.len() {
        let c = s[i];
        lemma_scan_until_bounds(s, i + 1, '`');
        lemma_scan_until_bounds(s, i + 1, ']');
        lemma_scan_single_bounds(s, i + 1, c, Seq::empty());
        let rt = scan_until(s, i + 1, ']');
        if rt.2 && rt.0 < s.len() {
            lemma_scan_until_bounds(s, rt.0 + 1, ')');
        }
        if i + 1 < s.len() && s[i + 1] == c {
            if i + 2 < s.len() && s[i + 2] == c {
                lemma_scan_emph_bounds(s, i + 3, c, 3, Seq::empty());
            } else {
                lemma_scan_emph_bounds(s, i + 2, c, 2, Seq::empty());
            }
        }
    }
}

fn scan_until_exec(s: &str, from: usize, stop: char) -> (r: (usize, String, bool))
    requires
        from as int <= s@.len(),
    ensures
        ({
            let t = scan_until(s@, from as int, stop);
            r.0 as int == t.0 && r.1@ == t.1 && r.2 == t.2
        }),
{
    let n = s.unicode_len();
    let mut j = from;
    let mut content = String::new();
    loop
        invariant
            from <= j <= n == s@.len(),
            scan_until(s@, from as int, stop) == ({
                let t = scan_until(s@, j as int, stop);
                (t.0, content@ + t.1, t.2)
            }),
        decreases n - j,
    {
        if j >= n {
            proof {
                assert(content@ + Seq::<char>::empty() =~= content@);
            }
            return (j, content, false);
        }
        let c = s.get_char(j);
        if c == stop {
            proof {
                assert(content@ + Seq::<char>::empty() =~= content@);
            }
            return (j + 1, content, true);
        }
        let ghost before = content@;
        push_char(&mut content, c);
        proof {
            let t = scan_until(s@, j + 1, stop);
            assert(before + (seq![c] + t.1) =~= content@ + t.1);
        }
        j = j + 1;
    }
}

/// The last character of a string, if any.
fn last_char(s: &str) -> (r: Option<char>)
    ensures
        match r {
            Some(c) => s@.len() > 0 && c == s@.last(),
            None => s@.len() == 0,
        },
{
    let n = s.unicode_len();
    if n == 0 {
        None
    } else {
        Some(s.get_char(n - 1))
    }
}

/// Whether the pending content ends in a word character (the underscore
/// rule's left side).
fn ends_in_word(s: &str) -> (r: bool)
    ensures
        r == (s@.len() > 0 && alnum_char(s@.last())),
{
    match last_char(s) {
        Some(c) => alnum(c),
        None => false,
    }
}

fn scan_single_exec(s: &str, from: usize, marker: char) -> (r: (usize, String, bool))
    requires
        from as int <= s@.len(),
    ensures
        ({
            let t = scan_single(s@, from as int, marker, Seq::empty());
            r.0 as int == t.0 && r.1@ == t.1 && r.2 == t.2
        }),
{
    let n = s.unicode_len();
    let mut j = from;
    let mut content = String::new();
    loop
        invariant
            from <= j <= n == s@.len(),
            scan_single(s@, from as int, marker, Seq::empty()) == scan_single(
                s@,
                j as int,
                marker,
                content@,
            ),
        decreases n - j,
    {
        if j >= n {
            return (j, content, false);
        }
        let c = s.get_char(j);
        if c == marker {
            let boundary = marker == '_' && ends_in_word(content.as_str()) && j + 1 < n && alnum(
                s.get_char(j + 1),
            );
            if boundary {
                push_char(&mut content, marker);
                j = j + 1;
            } else {
                return (j + 1, content, true);
            }
        } else {
            push_char(&mut content, c);
            j = j + 1;
        }
    }
}

fn scan_emph_exec(s: &str, from: usize, marker: char, end_count: usize) -> (r: (
    usize,
    String,
    bool,
))
    requires
        from as int <= s@.len(),
        end_count == 2 || end_count == 3,
    ensures
        ({
            let t = scan_emph(s@, from as int, marker, end_count as int, Seq::empty());
            r.0 as int == t.0 && r.1@ == t.1 && r.2 == t.2
        }),
{
    let n = s.unicode_len();
    let mut j = from;
    let mut content = String::new();
    loop
        invariant
            from <= j <= n == s@.len(),
            end_count == 2 || end_count == 3,
            scan_emph(s@, from as int, marker, end_count as int, Seq::empty()) == scan_emph(
                s@,
                j as int,
                marker,
                end_count as int,
                content@,
            ),
        decreases n - j,
    {
        if j >= n {
            return (j, content, false);
        }
        let c = s.get_char(j);
        if c == marker {
            let boundary = marker == '_' && ends_in_word(content.as_str()) && j + 1 < n && alnum(
                s.get_char(j + 1),
            );
            if boundary {
                push_char(&mut content, marker);
                j = j + 1;
            } else {
                let run_end = skip_char(s, j + 1, marker);
                proof {
                    lemma_skip_char_bounds(s@, j + 1, marker);
                }
                let avail = 1 + (run_end - (j + 1));
                let consumed = if avail < end_count {
                    avail
                } else {
                    end_count
                };
                if consumed == end_count {
                    return (j + consumed, content, true);
                }
                let ghost base = content@;
                proof {
                    assert(base + marker_seq(0, marker) =~= base);
                }
                let mut k: usize = 0;
                while k < consumed
                    invariant
                        0 <= k <= consumed,
                        content@ == base + marker_seq(k as int, marker),
                    decreases consumed - k,
                {
                    push_char(&mut content, marker);
                    proof {
                        assert((base + marker_seq(k as int, marker)).push(marker) =~= base
                            + marker_seq(k + 1, marker));
                    }
                    k = k + 1;
                }
                j = j + consumed;
            }
        } else {
            push_char(&mut content, c);
            j = j + 1;
        }
    }
}

/// Flushes pending text as a `Text` element; hands back an empty buffer.
fn flush_take(elements: &mut Vec<MarkdownElement>, cur: String) -> (r: String)
    ensures
        view_els(final(elements)@) == flush_acc(view_els(old(elements)@), cur@),
        r@ == Seq::<char>::empty(),
{
    if !cur.as_str().is_empty() {
        let ghost before = elements@;
        let ghost c = cur@;
        elements.push(MarkdownElement::Text(cur));
        proof {
            assert(view_els(elements@) =~= view_els(before).push(MdEl::Text(c)));
        }
    }
    String::new()
}

/// Parses the inline elements of one line, appending them (and leaving any
/// trailing plain text as a final `Text` element).
pub fn parse_inline_elements(line: &str, elements: &mut Vec<MarkdownElement>)
    ensures
        view_els(final(elements)@) == inline_from(
            line@,
            0,
            Seq::empty(),
            view_els(old(elements)@),
        ),
{
    let n = line.unicode_len();
    let ghost goal = inline_from(line@, 0, Seq::empty(), view_els(old(elements)@));
    let mut i: usize = 0;
    let mut cur = String::new();
    while i < n
        invariant
            0 <= i <= n == line@.len(),
            inline_from(line@, i as int, cur@, view_els(elements@)) == goal,
        decreases n - i,
    {
        let ghost cur0 = cur@;
        let ghost els0 = view_els(elements@);
        let c = line.get_char(i);
        if c == '`' {
            cur = flush_take(elements, cur);
            let (j, code, _found) = scan_until_exec(line, i + 1, '`');
            proof {
                lemma_scan_until_bounds(line@, i + 1, '`');
            }
            if !code.as_str().is_empty() {
                elements.push(MarkdownElement::Code(code));
            }
            proof {
                assert(view_els(elements@) =~= ({
                    let acc2 = flush_acc(els0, cur0);
                    let r = scan_until(line@, i + 1, '`');
                    if r.1.len() > 0 {
                        acc2.push(MdEl::Code(r.1))
                    } else {
                        acc2
                    }
                }));
            }
            i = j;
        } else if c == '*' || c == '_' {
            if c == '_' && ends_in_word(cur.as_str()) {
                push_char(&mut cur, c);
                i = i + 1;
            } else {
                let is_double = i + 1 < n && line.get_char(i + 1) == c;
                if is_double {
                    let is_triple = i + 2 < n && line.get_char(i + 2) == c;
                    let start = if is_triple {
                        i + 3
                    } else {
                        i + 2
                    };
                    let end_count: usize = if is_triple {
                        3
                    } else {
                        2
                    };
                    cur = flush_take(elements, cur);
                    let (j, content, found) = scan_emph_exec(line, start, c, end_count);
                    proof {
                        lemma_scan_emph_bounds(
                            line@,
                            start as int,
                            c,
                            end_count as int,
                            Seq::empty(),
                        );
                    }
                    if found && !content.as_str().is_empty() {
                        if is_triple {
                            elements.push(MarkdownElement::BoldItalic(content));
                        } else {
                            elements.push(MarkdownElement::Bold(content));
                        }
                        proof {
                            let r = scan_emph(
                                line@,
                                start as int,
                                c,
                                end_count as int,
                                Seq::empty(),
                            );
                            let el = if is_triple {
                                MdEl::BoldItalic(r.1)
                            } else {
                                MdEl::Bold(r.1)
                            };
                            assert(view_els(elements@) =~= flush_acc(els0, cur0).push(el));
                        }
                    } else {
                        push_char(&mut cur, c);
                        push_char(&mut cur, c);
                        if is_triple {
                            push_char(&mut cur, c);
                        }
                        cur.append(content.as_str());
                        proof {
                            let r = scan_emph(
                                line@,
                                start as int,
                                c,
                                end_count as int,
                                Seq::empty(),
                            );
                            assert(cur@ =~= marker_seq(end_count as int, c) + r.1);
                        }
                    }
                    i = j;
                } else {
                    let next_is_word = i + 1 < n && alnum(line.get_char(i + 1));
                    if c == '_' && !next_is_word {
                        push_char(&mut cur, c);
                        i = i + 1;
                    } else {
                        cur = flush_take(elements, cur);
                        let (j, content, found) = scan_single_exec(line, i + 1, c);
                        proof {
                            lemma_scan_single_bounds(line@, i + 1, c, Seq::empty());
                        }
                        if found && !content.as_str().is_empty() {
                            elements.push(MarkdownElement::Italic(content));
                            proof {
                                let r = scan_single(line@, i + 1, c, Seq::empty());
                                assert(view_els(elements@) =~= flush_acc(els0, cur0).push(
                                    MdEl::Italic(r.1),
                                ));
                            }
                        } else {
                            push_char(&mut cur, c);
                            cur.append(content.as_str());
                            proof {
                                let r = scan_single(line@, i + 1, c, Seq::empty());
                                assert(cur@ =~= seq![c] + r.1);
                            }
                        }
                        i = j;
                    }
                }
            }
        } else if c == '[' {
            cur = flush_take(elements, cur);
            let (j1, ltext, found_br) = scan_until_exec(line, i + 1, ']');
            proof {
                lemma_scan_until_bounds(line@, i + 1, ']');
            }
            if found_br && j1 < n && line.get_char(j1) == '(' {
                let (j2, url, found_par) = scan_until_exec(line, j1 + 1, ')');
                proof {
                    lemma_scan_until_bounds(line@, j1 + 1, ')');
                }
                if found_par {
                    elements.push(MarkdownElement::Link { text: ltext, url });
                    proof {
                        let rt = scan_until(line@, i + 1, ']');
                        let ru = scan_until(line@, j1 + 1, ')');
                        assert(view_els(elements@) =~= flush_acc(els0, cur0).push(
                            MdEl::Link { text: rt.1, url: ru.1 },
                        ));
                    }
                } else {
                    push_char(&mut cur, '[');
                    cur.append(ltext.as_str());
                    push_char(&mut cur, ']');
                    push_char(&mut cur, '(');
                    cur.append(url.as_str());
                    proof {
                        let rt = scan_until(line@, i + 1, ']');
                        let ru = scan_until(line@, j1 + 1, ')');
                        assert(cur@ =~= seq!['['] + rt.1 + seq![']', '('] + ru.1);
                    }
                }
                i = j2;
            } else {
                push_char(&mut cur, '[');
                cur.append(ltext.as_str());
                if found_br {
                    push_char(&mut cur, ']');
                }
                proof {
                    let rt = scan_until(line@, i + 1, ']');
                    if found_br {
                        assert(cur@ =~= seq!['['] + rt.1 + seq![']']);
                    } else {
                        assert(cur@ =~= seq!['['] + rt.1);
                    }
                }
                i = j1;
            }
        } else {
            push_char(&mut cur, c);
            i = i + 1;
        }
    }
    let _ = flush_take(elements, cur);
}

/// The characters of an optional owned string.
pub open spec fn opt_text(o: Option<String>) -> Option<Seq<char>> {
    match o {
        Some(s) => Some(s@),
        None => None,
    }
}

/// The parse of the lines from `idx` on, given the code-block state carried
/// so far. A ```` ``` ```` fence opens a code block (the rest of the fence
/// line, trimmed, names the language) or closes one; inside a block, lines
/// are collected verbatim; outside, a line is a horizontal rule, a heading,
/// a block quote, a list item, a blank line, or inline text followed by a
/// line break. An unclosed block with content becomes a final `CodeBlock`.
pub open spec fn md_from(
    ls: Seq<Seq<char>>,
    idx: int,
    in_code: bool,
    lang: Option<Seq<char>>,
    content: Seq<char>,
    acc: Seq<MdEl>,
) -> Seq<MdEl>
    decreases ls.len() - idx,
{
    if idx < 0 || idx >= ls.len() {
        if in_code && content.len() > 0 {
            acc.push(MdEl::CodeBlock { language: lang, code: content })
        } else {
            acc
        }
    } else {
        let line = ls[idx];
        if spec_starts_with(line, "```"@) {
            if in_code {
                md_from(
                    ls,
                    idx + 1,
                    false,
                    None,
                    Seq::empty(),
                    acc.push(
                        MdEl::CodeBlock {
                            language: lang,
                            code: crate::text::spec_trim_end(content),
                        },
                    ),
                )
            } else {
                let lt = spec_trim(
                    line.subrange(skip_char_from(line, 0, '`'), line.len() as int),
                );
                md_from(
                    ls,
                    idx + 1,
                    true,
                    if lt.len() == 0 {
                        None
                    } else {
                        Some(lt)
                    },
                    Seq::empty(),
                    acc,
                )
            }
        } else if in_code {
            md_from(
                ls,
                idx + 1,
                true,
                lang,
                if content.len() == 0 {
                    line
                } else {
                    content + seq!['\n'] + line
                },
                acc,
            )
        } else if spec_trim(line) == "---"@ || spec_trim(line) == "***"@ || spec_trim(line)
            == "___"@ {
            md_from(ls, idx + 1, in_code, lang, content, acc.push(MdEl::HorizontalRule))
        } else if spec_parse_heading(line) is Some {
            md_from(ls, idx + 1, in_code, lang, content, acc.push(spec_parse_heading(line)->0))
        } else if line.len() > 0 && line[0] == '>' {
            let t = spec_trim(line.subrange(skip_char_from(line, 0, '>'), line.len() as int));
            md_from(ls, idx + 1, in_code, lang, content, acc.push(MdEl::BlockQuote(t)))
        } else if spec_parse_list_item(line) is Some {
            md_from(ls, idx + 1, in_code, lang, content, acc.push(spec_parse_list_item(line)->0))
        } else if spec_trim(line).len() == 0 {
            md_from(ls, idx + 1, in_code, lang, content, acc.push(MdEl::Newline))
        } else {
            md_from(
                ls,
                idx + 1,
                in_code,
                lang,
                content,
                inline_from(line, 0, Seq::empty(), acc).push(MdEl::Newline),
            )
        }
    }
}

/// The parse of a whole text.
pub open spec fn spec_parse_markdown(text: Seq<char>) -> Seq<MdEl> {
    md_from(lines_of(text), 0, false, None, Seq::empty(), Seq::empty())
}

/// Parses a markdown text into elements.
pub fn parse_markdown(text: &str) -> (r: Vec<MarkdownElement>)
    ensures
        view_els(r@) == spec_parse_markdown(text@),
{
    let lines = split_lines(text);
    let ghost lv = lines_of(text@);
    let mut elements: Vec<MarkdownElement> = Vec::new();
    let mut in_code = false;
    let mut lang: Option<String> = None;
    let mut content = String::new();
    let nl = lines.len();
    let mut idx: usize = 0;
    proof {
        assert(view_els(elements@) =~= Seq::<MdEl>::empty());
    }
    while idx < nl
        invariant
            0 <= idx <= nl == lines@.len(),
            lv == lines@.map_values(|l: String| l@),
            !in_code ==> content@ == Seq::<char>::empty(),
            md_from(lv, idx as int, in_code, opt_text(lang), content@, view_els(elements@))
                == spec_parse_markdown(text@),
        decreases nl - idx,
    {
        let ghost els0 = view_els(elements@);
        let ghost in0 = in_code;
        let ghost lg0 = opt_text(lang);
        let ghost ct0 = content@;
        let line = lines[idx].as_str();
        proof {
            assert(line@ == lv[idx as int]);
        }
        let line_n = line.unicode_len();
        if starts_with_str(line, "```") {
            if in_code {
                let code = trim_end_str(content.as_str());
                let l = lang;
                lang = None;
                let ghost lview = opt_text(l);
                elements.push(
                    MarkdownElement::CodeBlock { language: l, code: String::from_str(code) },
                );
                proof {
                    assert(view_els(elements@) =~= els0.push(
                        MdEl::CodeBlock {
                            language: lview,
                            code: crate::text::spec_trim_end(content@),
                        },
                    ));
                }
                content = String::new();
                in_code = false;
            } else {
                let k = skip_char(line, 0, '`');
                proof {
                    lemma_skip_char_bounds(line@, 0, '`');
                }
                let lt = trim_str(line.substring_char(k, line_n));
                lang = if lt.is_empty() {
                    None
                } else {
                    Some(String::from_str(lt))
                };
                in_code = true;
            }
        } else if in_code {
            let ghost c0 = content@;
            if !content.as_str().is_empty() {
                push_char(&mut content, '\n');
            }
            content.append(line);
            proof {
                if c0.len() == 0 {
                    assert(content@ =~= line@);
                } else {
                    assert(content@ =~= c0 + seq!['\n'] + line@);
                }
            }
        } else {
            let tl = trim_str(line);
            if str_eq(tl, "---") || str_eq(tl, "***") || str_eq(tl, "___") {
                elements.push(MarkdownElement::HorizontalRule);
                proof {
                    assert(view_els(elements@) =~= els0.push(MdEl::HorizontalRule));
                }
            } else {
                let heading = parse_heading(line);
                match heading {
                    Some(h) => {
                        let ghost hv = h.view_el();
                        elements.push(h);
                        proof {
                            assert(view_els(elements@) =~= els0.push(hv));
                        }
                    },
                    None => {
                        if line_n > 0 && line.get_char(0) == '>' {
                            let k = skip_char(line, 0, '>');
                            proof {
                                lemma_skip_char_bounds(line@, 0, '>');
                            }
                            let t = trim_str(line.substring_char(k, line_n));
                            elements.push(MarkdownElement::BlockQuote(String::from_str(t)));
                            proof {
                                assert(view_els(elements@) =~= els0.push(
                                    MdEl::BlockQuote(t@),
                                ));
                            }
                        } else {
                            let item = parse_list_item(line);
                            match item {
                                Some(li) => {
                                    let ghost lview = li.view_el();
                                    elements.push(li);
                                    proof {
                                        assert(view_els(elements@) =~= els0.push(lview));
                                    }
                                },
                                None => {
                                    if tl.is_empty() {
                                        elements.push(MarkdownElement::Newline);
                                        proof {
                                            assert(view_els(elements@) =~= els0.push(
                                                MdEl::Newline,
                                            ));
                                        }
                                    } else {
                                        parse_inline_elements(line, &mut elements);
                                        let ghost els1 = view_els(elements@);
                                        elements.push(MarkdownElement::Newline);
                                        proof {
                                            assert(view_els(elements@) =~= els1.push(
                                                MdEl::Newline,
                                            ));
                                        }
                                    }
                                },
                            }
                        }
                    },
                }
            }
        }
        idx = idx + 1;
    }
    if in_code && !content.as_str().is_empty() {
        let ghost els0 = view_els(elements@);
        let ghost lview = opt_text(lang);
        elements.push(MarkdownElement::CodeBlock { language: lang, code: content });
        proof {
            assert(view_els(elements@) =~= els0.push(
                MdEl::CodeBlock { language: lview, code: content@ },
            ));
        }
    }
    elements
}

proof fn lemma_find_offset(s: Seq<char>, d: int, i: int, c: char)
    requires
        0 <= d <= i <= s.len(),
    ensures
        find_char_from(s, i, c) == d + find_char_from(s.subrange(d, s.len() as int), i - d, c),
    decreases s.len() - i,
{
    let t = s.subrange(d, s.len() as int);
    if i < s.len() {
        assert(t[i - d] == s[i]);
        if s[i] != c {
            lemma_find_offset(s, d, i + 1, c);
        }
    }
}

proof fn lemma_find_suffix(s: Seq<char>, pos: int, c: char)
    requires
        0 <= pos <= s.len(),
    ensures
        find_char_from(s, pos, c) - pos == find_char_from(s.subrange(pos, s.len() as int), 0, c),
{
    lemma_find_offset(s, pos, pos, c);
}

} // verus!
