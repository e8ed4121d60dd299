use vstd::prelude::*;

use crate::json::{
    decimal, json_text, lemma_decreases_item, lemma_decreases_member, lemma_member_models, lemma_models, member_models, models,
    push_decimal, Json, JsonValue,
};
use crate::graph::{contains_text, contains_text_exec};
use crate::input::{byte_len, Key};
use crate::theme::{styled_view, ColorDef, StyledSpan, Theme};
use crate::sidebar::{lowercase, pop_char, texts, to_lower};
use crate::virtual_scroll::{clamp_to, max_offset, VirtualScroll};
use crate::text::{
    chars_of, copy_str, cut_text, cut_to, lines_of, occurs_at, push_char, push_str, str_eq, string_from_chars, text_lines,
    trim, trim_exec, trim_start,
};
use crate::units::{as_double, as_double_exec, fixed_text, half_even_div, half_even_div_exec, push_fixed};

verus! {

/// How the response pane shows a response.
#[derive(Debug, Clone, Copy, PartialEq, Eq, Structural)]
pub enum ResponseViewMode {
    Pretty,
    Raw,
    Headers,
    Preview,
}

impl ResponseViewMode {
    /// The mode after this one, going round.
    pub open spec fn following(self) -> ResponseViewMode {
        match self {
            ResponseViewMode::Pretty => ResponseViewMode::Raw,
            ResponseViewMode::Raw => ResponseViewMode::Headers,
            ResponseViewMode::Headers => ResponseViewMode::Preview,
            ResponseViewMode::Preview => ResponseViewMode::Pretty,
        }
    }

    /// The mode after this one, going round.
    pub fn next(&self) -> (r: Self)
        ensures
            r == self.following(),
    {
        match self {
            ResponseViewMode::Pretty => ResponseViewMode::Raw,
            ResponseViewMode::Raw => ResponseViewMode::Headers,
            ResponseViewMode::Headers => ResponseViewMode::Preview,
            ResponseViewMode::Preview => ResponseViewMode::Pretty,
        }
    }

    /// The label shown for the variant.
    pub open spec fn label(self) -> Seq<char> {
        match self {
            ResponseViewMode::Pretty => "Pretty"@,
            ResponseViewMode::Raw => "Raw"@,
            ResponseViewMode::Headers => "Headers"@,
            ResponseViewMode::Preview => "Preview"@,
        }
    }

    /// The label shown for the variant.
    pub fn as_str(&self) -> (r: &'static str)
        ensures
            r@ == self.label(),
    {
        match self {
            ResponseViewMode::Pretty => "Pretty",
            ResponseViewMode::Raw => "Raw",
            ResponseViewMode::Headers => "Headers",
            ResponseViewMode::Preview => "Preview",
        }
    }
}

/// A byte count in short form: `b` below a kilobyte, else `KB`, `MB` or
/// `GB` (of 1024) with one decimal.
pub open spec fn short_size_text(bytes: nat) -> Seq<char> {
    if bytes < 1024 {
        decimal(bytes) + "b"@
    } else if bytes < 0x10_0000 {
        fixed_text(half_even_div(bytes * 10, 1024), 1) + "KB"@
    } else if bytes < 0x4000_0000 {
        fixed_text(half_even_div(bytes * 10, 0x10_0000), 1) + "MB"@
    } else {
        fixed_text(half_even_div(as_double(bytes) * 10, 0x4000_0000), 1) + "GB"@
    }
}

/// A byte count in short form, such as `500b` or `2.0KB`.
pub fn human_size(bytes: usize) -> (r: String)
    ensures
        r@ == short_size_text(bytes as nat),
{
    let mut out = String::new();
    if bytes < 1024 {
        push_decimal(&mut out, bytes as u64);
        push_str(&mut out, "b");
    } else if bytes < 0x10_0000 {
        push_fixed(&mut out, half_even_div_exec(bytes as u128 * 10, 1024), 1);
        push_str(&mut out, "KB");
    } else if bytes < 0x4000_0000 {
        push_fixed(&mut out, half_even_div_exec(bytes as u128 * 10, 0x10_0000), 1);
        push_str(&mut out, "MB");
    } else {
        let v = as_double_exec(bytes as u64);
        proof {
            assert(v <= (bytes as nat) + 0x2000) by {
                crate::units::lemma_as_double_bound(bytes as nat);
            }
        }
        push_fixed(&mut out, half_even_div_exec(v * 10, 0x4000_0000), 1);
        push_str(&mut out, "GB");
    }
    out
}

/// What a piece of a highlighted JSON line is.
#[derive(Debug, Clone, Copy, PartialEq, Eq, Structural)]
pub enum SpanKind {
    /// A string followed by `:`, an object key.
    Key,
    /// Any other string.
    Text,
    Number,
    /// `true` or `false`.
    Keyword,
    Null,
    /// `,` or `:`.
    Separator,
    /// `{`, `}`, `[` or `]`.
    Bracket,
    /// Anything else, one character at a time.
    Plain,
}

/// A piece of a highlighted line.
#[derive(Debug, Clone, PartialEq)]
pub struct HighlightSpan {
    pub text: String,
    pub kind: SpanKind,
}

/// The text and kind of each span.
pub open spec fn spans_view(spans: Seq<HighlightSpan>) -> Seq<(Seq<char>, SpanKind)> {
    spans.map_values(|h: HighlightSpan| (h.text@, h.kind))
}

pub open spec fn is_ascii_digit(c: char) -> bool {
    '0' <= c <= '9'
}

/// Where a string that starts before `i` ends: after its closing quote, a
/// backslash taking the next character with it; past the end when the
/// line ends first.
pub open spec fn str_end(c: Seq<char>, i: int) -> int
    decreases c.len() + 1 - i,
{
    if i >= c.len() {
        i
    } else if c[i] == '\\' {
        str_end(c, i + 2)
    } else if c[i] == '"' {
        i + 1
    } else {
        str_end(c, i + 1)
    }
}

/// Where a number that goes on at `i` ends: after its digits, points,
/// exponent letters and plus signs.
pub open spec fn number_end(c: Seq<char>, i: int) -> int
    decreases c.len() - i,
{
    if 0 <= i < c.len() && (is_ascii_digit(c[i]) || c[i] == '.' || c[i] == 'e' || c[i] == 'E' || c[i] == '+') {
        number_end(c, i + 1)
    } else {
        i
    }
}

/// Whether a number starts at `i`: a digit, or `-` before a digit.
pub open spec fn number_starts(c: Seq<char>, i: int) -> bool {
    is_ascii_digit(c[i]) || (c[i] == '-' && i + 1 < c.len() && is_ascii_digit(c[i + 1]))
}

/// Whether the first character after white space from `e` on is `:`.
pub open spec fn colon_follows(c: Seq<char>, e: int) -> bool {
    let t = trim_start(c.subrange(e, c.len() as int));
    t.len() > 0 && t[0] == ':'
}

/// The spans of a character that has no meaning in JSON: one plain span
/// per byte of its UTF-8 form, each byte read as the character of that
/// number.
pub open spec fn byte_spans(ch: char) -> Seq<(Seq<char>, SpanKind)> {
    latin1_spans(crate::input::utf8(seq![ch]))
}

/// One plain span per byte, each byte read as the character of that number.
pub open spec fn latin1_spans(bs: Seq<u8>) -> Seq<(Seq<char>, SpanKind)>
    decreases bs.len(),
{
    if bs.len() == 0 {
        Seq::empty()
    } else {
        latin1_spans(bs.drop_last()).push((seq![bs.last() as char], SpanKind::Plain))
    }
}

/// Whether every string from `i` on is closed before the line ends or
/// runs to its end without a final backslash.
pub open spec fn strings_end(c: Seq<char>, i: int) -> bool
    decreases c.len() - i,
{
    if i < 0 || i >= c.len() {
        true
    } else if c[i] == '"' {
        str_end(c, i + 1) <= c.len() && (str_end(c, i + 1) > i ==> strings_end(c, str_end(c, i + 1)))
    } else if number_starts(c, i) {
        let e = number_end(c, if c[i] == '-' { i + 1 } else { i });
        i < e <= c.len() ==> strings_end(c, e)
    } else if c[i] == 't' && i + 4 <= c.len() && occurs_at(c, i, "true"@) {
        strings_end(c, i + 4)
    } else if c[i] == 'f' && i + 5 <= c.len() && occurs_at(c, i, "false"@) {
        strings_end(c, i + 5)
    } else if c[i] == 'n' && i + 4 <= c.len() && occurs_at(c, i, "null"@) {
        strings_end(c, i + 4)
    } else {
        strings_end(c, i + 1)
    }
}

/// The spans of the line from `i` on.
pub open spec fn spans_from(c: Seq<char>, i: int) -> Seq<(Seq<char>, SpanKind)>
    decreases c.len() - i,
{
    if i < 0 || i >= c.len() {
        Seq::empty()
    } else {
        let ch = c[i];
        if ch == '"' {
            let e = str_end(c, i + 1);
            if e <= i || e > c.len() {
                Seq::empty()
            } else {
                seq![(c.subrange(i, e), if colon_follows(c, e) { SpanKind::Key } else { SpanKind::Text })]
                    + spans_from(c, e)
            }
        } else if number_starts(c, i) {
            let e = number_end(c, if ch == '-' { i + 1 } else { i });
            if e <= i || e > c.len() {
                Seq::empty()
            } else {
                seq![(c.subrange(i, e), SpanKind::Number)] + spans_from(c, e)
            }
        } else if ch == 't' && i + 4 <= c.len() && occurs_at(c, i, "true"@) {
            seq![("true"@, SpanKind::Keyword)] + spans_from(c, i + 4)
        } else if ch == 'f' && i + 5 <= c.len() && occurs_at(c, i, "false"@) {
            seq![("false"@, SpanKind::Keyword)] + spans_from(c, i + 5)
        } else if ch == 'n' && i + 4 <= c.len() && occurs_at(c, i, "null"@) {
            seq![("null"@, SpanKind::Null)] + spans_from(c, i + 4)
        } else if ch == ',' {
            seq![(","@, SpanKind::Separator)] + spans_from(c, i + 1)
        } else if ch == ':' {
            seq![(": "@, SpanKind::Separator)] + spans_from(c, i + 1)
        } else if ch == '{' || ch == '}' || ch == '[' || ch == ']' {
            seq![(seq![ch], SpanKind::Bracket)] + spans_from(c, i + 1)
        } else if (ch as u32) < 128 {
            seq![(seq![ch], SpanKind::Plain)] + spans_from(c, i + 1)
        } else {
            byte_spans(ch) + spans_from(c, i + 1)
        }
    }
}

/// The spans of a line of JSON text; none for a blank line.
pub open spec fn highlighted(line: Seq<char>) -> Seq<(Seq<char>, SpanKind)> {
    if trim(line).len() == 0 {
        Seq::empty()
    } else {
        spans_from(line, 0)
    }
}

fn str_end_exec(c: &Vec<char>, i: usize) -> (r: usize)
    requires
        i <= c@.len(),
        str_end(c@, i as int) <= c@.len(),
    ensures
        r as int == str_end(c@, i as int),
{
    let mut j = i;
    while j < c.len()
        invariant
            i <= j <= c@.len(),
            str_end(c@, j as int) == str_end(c@, i as int),
            str_end(c@, i as int) <= c@.len(),
        decreases c@.len() - j,
    {
        if c[j] == '\\' {
            if j + 1 >= c.len() {
                proof { assert(str_end(c@, j + 2) == j + 2); }
                return j;
            }
            j = j + 2;
        } else if c[j] == '"' {
            return j + 1;
        } else {
            j = j + 1;
        }
    }
    j
}

fn number_end_exec(c: &Vec<char>, i: usize) -> (r: usize)
    requires
        i <= c@.len(),
    ensures
        r as int == number_end(c@, i as int),
        i <= r <= c@.len(),
{
    let mut j = i;
    while j < c.len() && (('0' <= c[j] && c[j] <= '9') || c[j] == '.' || c[j] == 'e' || c[j] == 'E' || c[j] == '+')
        invariant
            i <= j <= c@.len(),
            number_end(c@, j as int) == number_end(c@, i as int),
        decreases c@.len() - j,
    {
        j = j + 1;
    }
    j
}

fn colon_follows_exec(c: &Vec<char>, e: usize) -> (r: bool)
    requires
        e <= c@.len(),
    ensures
        r == colon_follows(c@, e as int),
{
    let mut j = e;
    while j < c.len() && crate::text::is_space_exec(c[j])
        invariant
            e <= j <= c@.len(),
            trim_start(c@.subrange(e as int, c@.len() as int)) == trim_start(c@.subrange(j as int, c@.len() as int)),
        decreases c@.len() - j,
    {
        proof {
            let t = c@.subrange(j as int, c@.len() as int);
            assert(t.drop_first() =~= c@.subrange(j + 1, c@.len() as int));
        }
        j = j + 1;
    }
    proof {
        let t = c@.subrange(j as int, c@.len() as int);
        if t.len() > 0 {
            assert(t[0] == c@[j as int]);
        }
    }
    j < c.len() && c[j] == ':'
}

fn push_span(out: &mut Vec<HighlightSpan>, text: &str, kind: SpanKind)
    ensures
        spans_view(final(out)@) == spans_view(old(out)@).push((text@, kind)),
{
    let ghost before = out@;
    out.push(HighlightSpan { text: crate::text::copy_str(text), kind });
    proof { assert(spans_view(out@) =~= spans_view(before).push((text@, kind))); }
}

fn push_chars_span(out: &mut Vec<HighlightSpan>, c: &Vec<char>, lo: usize, hi: usize, kind: SpanKind)
    requires
        lo <= hi <= c@.len(),
    ensures
        spans_view(final(out)@) == spans_view(old(out)@).push((c@.subrange(lo as int, hi as int), kind)),
{
    let part = crate::engine::sub_chars(c, lo, hi);
    let text = crate::text::string_from_chars(part.as_slice());
    let ghost before = out@;
    out.push(HighlightSpan { text, kind });
    proof { assert(spans_view(out@) =~= spans_view(before).push((c@.subrange(lo as int, hi as int), kind))); }
}

fn push_byte_spans(out: &mut Vec<HighlightSpan>, ch: char)
    ensures
        spans_view(final(out)@) == spans_view(old(out)@) + byte_spans(ch),
{
    let mut tmp = String::new();
    push_char(&mut tmp, ch);
    let bytes = tmp.as_str().as_bytes();
    let ghost before = spans_view(out@);
    let ghost bs = crate::input::utf8(seq![ch]);
    proof {
        assert(tmp@ =~= seq![ch]);
        assert(bs.take(0) =~= Seq::<u8>::empty());
        assert(before + latin1_spans(Seq::<u8>::empty()) =~= before);
    }
    let mut k: usize = 0;
    while k < bytes.len()
        invariant
            k <= bytes@.len(),
            bytes@ == bs,
            spans_view(out@) == before + latin1_spans(bs.take(k as int)),
        decreases bytes@.len() - k,
    {
        let b = bytes[k];
        let ghost kk = k as int;
        let mut t = String::new();
        push_char(&mut t, b as char);
        let ghost prev = out@;
        out.push(HighlightSpan { text: t, kind: SpanKind::Plain });
        proof {
            assert(bs[kk] == b);
            assert(bs.take(kk + 1).drop_last() =~= bs.take(kk));
            assert(spans_view(out@) =~= spans_view(prev).push((seq![b as char], SpanKind::Plain)));
        }
        k = k + 1;
    }
    proof { assert(bs.take(bytes@.len() as int) =~= bs); }
}

/// Where the string that starts before `i` ends, or `None` where a final
/// backslash runs past the end of the line.
fn str_end_within(c: &Vec<char>, i: usize) -> (r: Option<usize>)
    requires
        i <= c@.len(),
    ensures
        r is Some <==> str_end(c@, i as int) <= c@.len(),
        r is Some ==> r->0 as int == str_end(c@, i as int),
{
    let mut j = i;
    while j < c.len()
        invariant
            i <= j <= c@.len(),
            str_end(c@, j as int) == str_end(c@, i as int),
        decreases c@.len() - j,
    {
        if c[j] == '\\' {
            if c.len() - j < 2 {
                proof { assert(str_end(c@, j + 2) == j + 2); }
                return None;
            }
            j = j + 2;
        } else if c[j] == '"' {
            return Some(j + 1);
        } else {
            j = j + 1;
        }
    }
    Some(j)
}

/// Whether a line can be highlighted: it is blank, or no string in it ends
/// the line with a backslash.
pub fn highlightable(line: &str) -> (r: bool)
    ensures
        r == (trim(line@).len() > 0 ==> strings_end(line@, 0)),
{
    let c = chars_of(line);
    let t = trim_exec(&c);
    if t.len() == 0 {
        return true;
    }
    proof {
        reveal_strlit("true");
        reveal_strlit("false");
        reveal_strlit("null");
    }
    let tw = chars_of("true");
    let fw = chars_of("false");
    let nw = chars_of("null");
    let n = c.len();
    let mut i: usize = 0;
    while i < n
        invariant
            n == c@.len(),
            c@ == line@,
            i <= n,
            tw@ == "true"@,
            fw@ == "false"@,
            nw@ == "null"@,
            strings_end(c@, 0) == strings_end(c@, i as int),
            trim(c@).len() > 0,
        decreases n - i,
    {
        let ch = c[i];
        if ch == '"' {
            match str_end_within(&c, i + 1) {
                None => {
                    proof { assert(!strings_end(c@, i as int)); }
                    return false;
                },
                Some(e) => {
                    proof { lemma_str_end_after(c@, i + 1); }
                    i = e;
                },
            }
        } else if ('0' <= ch && ch <= '9') || (ch == '-' && i + 1 < n && '0' <= c[i + 1] && c[i + 1] <= '9') {
            let start = if ch == '-' { i + 1 } else { i };
            let e = number_end_exec(&c, start);
            proof {
                if ch != '-' {
                    lemma_number_end_ge(c@, i + 1);
                    assert(number_end(c@, i as int) == number_end(c@, i + 1));
                } else {
                    lemma_number_end_ge(c@, i + 2);
                    assert(number_end(c@, i + 1) == number_end(c@, i + 2));
                }
            }
            i = e;
        } else if ch == 't' && n - i >= 4 && occurs_at_exec_here(&c, i, &tw) {
            i = i + 4;
        } else if ch == 'f' && n - i >= 5 && occurs_at_exec_here(&c, i, &fw) {
            i = i + 5;
        } else if ch == 'n' && n - i >= 4 && occurs_at_exec_here(&c, i, &nw) {
            i = i + 4;
        } else {
            i = i + 1;
        }
    }
    true
}

/// Splits a line of JSON text into spans to color: strings (keys when a
/// `:` follows), numbers, `true`, `false`, `null`, separators, brackets,
/// and the rest one character at a time (a character beyond ASCII one
/// span per byte). A blank line has no span. The strings of the line must
/// not end it with a backslash, where the scan would run past its end.
pub fn syntax_highlight_line(line: &str) -> (r: Vec<HighlightSpan>)
    requires
        trim(line@).len() > 0 ==> strings_end(line@, 0),
    ensures
        spans_view(r@) == highlighted(line@),
{
    let mut out: Vec<HighlightSpan> = Vec::new();
    let c = crate::text::chars_of(line);
    let t = crate::text::trim_exec(&c);
    if t.len() == 0 {
        return out;
    }
    proof {
        reveal_strlit("true");
        reveal_strlit("false");
        reveal_strlit("null");
        reveal_strlit(",");
        reveal_strlit(": ");
    }
    let tw = crate::text::chars_of("true");
    let fw = crate::text::chars_of("false");
    let nw = crate::text::chars_of("null");
    let n = c.len();
    let mut i: usize = 0;
    while i < n
        invariant
            n == c@.len(),
            c@ == line@,
            i <= n,
            strings_end(c@, i as int),
            tw@ == "true"@,
            fw@ == "false"@,
            nw@ == "null"@,
            spans_view(out@) + spans_from(c@, i as int) == spans_from(c@, 0),
        decreases n - i,
    {
        let ghost before = spans_view(out@);
        let ch = c[i];
        if ch == '"' {
            let e = str_end_exec(&c, i + 1);
            proof { lemma_str_end_after(c@, i + 1); }
            let key = colon_follows_exec(&c, e);
            push_chars_span(&mut out, &c, i, e, if key { SpanKind::Key } else { SpanKind::Text });
            proof {
                assert(spans_view(out@) + spans_from(c@, e as int) =~= before + spans_from(c@, i as int));
            }
            i = e;
        } else if ('0' <= ch && ch <= '9') || (ch == '-' && i + 1 < n && '0' <= c[i + 1] && c[i + 1] <= '9') {
            let start = if ch == '-' { i + 1 } else { i };
            let e = number_end_exec(&c, start);
            proof {
                if ch != '-' {
                    lemma_number_end_ge(c@, i + 1);
                    assert(number_end(c@, i as int) == number_end(c@, i + 1));
                } else {
                    lemma_number_end_ge(c@, i + 2);
                    assert(number_end(c@, i + 1) == number_end(c@, i + 2));
                }
            }
            push_chars_span(&mut out, &c, i, e, SpanKind::Number);
            proof {
                assert(spans_view(out@) + spans_from(c@, e as int) =~= before + spans_from(c@, i as int));
            }
            i = e;
        } else if ch == 't' && n - i >= 4 && occurs_at_exec_here(&c, i, &tw) {
            push_span(&mut out, "true", SpanKind::Keyword);
            proof { assert(spans_view(out@) + spans_from(c@, i + 4) =~= before + spans_from(c@, i as int)); }
            i = i + 4;
        } else if ch == 'f' && n - i >= 5 && occurs_at_exec_here(&c, i, &fw) {
            push_span(&mut out, "false", SpanKind::Keyword);
            proof { assert(spans_view(out@) + spans_from(c@, i + 5) =~= before + spans_from(c@, i as int)); }
            i = i + 5;
        } else if ch == 'n' && n - i >= 4 && occurs_at_exec_here(&c, i, &nw) {
            push_span(&mut out, "null", SpanKind::Null);
            proof { assert(spans_view(out@) + spans_from(c@, i + 4) =~= before + spans_from(c@, i as int)); }
            i = i + 4;
        } else {
            if ch == ',' {
                push_span(&mut out, ",", SpanKind::Separator);
            } else if ch == ':' {
                push_span(&mut out, ": ", SpanKind::Separator);
            } else if ch == '{' || ch == '}' || ch == '[' || ch == ']' {
                push_chars_span(&mut out, &c, i, i + 1, SpanKind::Bracket);
                proof { assert(c@.subrange(i as int, i + 1) =~= seq![ch]); }
            } else if (ch as u32) < 128 {
                push_chars_span(&mut out, &c, i, i + 1, SpanKind::Plain);
                proof { assert(c@.subrange(i as int, i + 1) =~= seq![ch]); }
            } else {
                push_byte_spans(&mut out, ch);
            }
            proof { assert(spans_view(out@) + spans_from(c@, i + 1) =~= before + spans_from(c@, i as int)); }
            i = i + 1;
        }
    }
    proof { assert(spans_view(out@) + spans_from(c@, n as int) =~= spans_view(out@)); }
    out
}

fn occurs_at_exec_here(c: &Vec<char>, i: usize, p: &Vec<char>) -> (r: bool)
    ensures
        r == occurs_at(c@, i as int, p@),
{
    crate::text::occurs_at_exec(c, i, p)
}

proof fn lemma_number_end_ge(c: Seq<char>, i: int)
    requires
        0 <= i,
    ensures
        number_end(c, i) >= i,
    decreases c.len() - i,
{
    if 0 <= i < c.len() && (is_ascii_digit(c[i]) || c[i] == '.' || c[i] == 'e' || c[i] == 'E' || c[i] == '+') {
        lemma_number_end_ge(c, i + 1);
    }
}

proof fn lemma_str_end_after(c: Seq<char>, i: int)
    requires
        0 <= i,
    ensures
        str_end(c, i) >= i,
    decreases c.len() + 1 - i,
{
    if i < c.len() {
        if c[i] == '\\' {
            lemma_str_end_after(c, i + 2);
        } else if c[i] != '"' {
            lemma_str_end_after(c, i + 1);
        }
    }
}

/// The detail lines of an error message: each line of it with white space
/// trimmed, indented by two spaces, blank lines left out.
pub open spec fn detail_lines(ls: Seq<Seq<char>>) -> Seq<Seq<char>>
    decreases ls.len(),
{
    if ls.len() == 0 {
        Seq::empty()
    } else {
        detail_lines(ls.drop_last()) + if trim(ls.last()).len() > 0 {
            seq!["  "@ + trim(ls.last())]
        } else {
            Seq::empty()
        }
    }
}

/// What the response pane shows for a failed request: a heading, the
/// details of the error (or a note that none are known), then what to check.
pub open spec fn error_lines(error: Seq<char>) -> Seq<Seq<char>> {
    let d = detail_lines(text_lines(error));
    seq!["Request failed."@, ""@, "Details:"@] + (if d.len() == 0 {
        seq!["  Unknown transport error"@]
    } else {
        d
    }) + seq![
        ""@,
        "Checks:"@,
        "  - Verify the URL, DNS, and network connectivity"@,
        "  - Check TLS, proxy, or firewall settings"@,
        "  - Inspect the activity log for request lifecycle details"@,
    ]
}

/// The lines shown for a failed request with the message `error`.
pub fn build_error_lines(error: &str) -> (r: Vec<String>)
    ensures
        texts(r@) == error_lines(error@),
{
    let mut lines: Vec<String> = Vec::new();
    lines.push(copy_str("Request failed."));
    lines.push(String::new());
    lines.push(copy_str("Details:"));
    let ghost head = texts(lines@);
    proof {
        reveal_strlit("");
        assert(head.len() == 3);
        assert(head[0] == "Request failed."@);
        assert(head[1] == Seq::<char>::empty());
        assert(""@ == Seq::<char>::empty());
        assert(head[2] == "Details:"@);
        assert(head =~= seq!["Request failed."@, ""@, "Details:"@]);
    }
    let source = lines_of(error);
    let mut i: usize = 0;
    while i < source.len()
        invariant
            i <= source@.len(),
            lines@.len() >= 3,
            texts(source@) == text_lines(error@),
            texts(lines@) == head + detail_lines(texts(source@).take(i as int)),
        decreases source@.len() - i,
    {
        let ghost before = texts(lines@);
        let chars = chars_of(source[i].as_str());
        let trimmed = trim_exec(&chars);
        proof {
            assert(texts(source@).take(i + 1).drop_last() =~= texts(source@).take(i as int));
            assert(texts(source@).take(i + 1).last() == source@[i as int]@);
        }
        if trimmed.len() > 0 {
            let mut line = String::new();
            push_str(&mut line, "  ");
            let t = string_from_chars(trimmed.as_slice());
            push_str(&mut line, t.as_str());
            lines.push(line);
            proof { assert(texts(lines@) =~= before + seq!["  "@ + trim(source@[i as int]@)]); }
        } else {
            proof { assert(before + Seq::<Seq<char>>::empty() =~= before); }
        }
        i += 1;
    }
    proof { assert(texts(source@).take(source@.len() as int) =~= texts(source@)); }
    let ghost details = detail_lines(text_lines(error@));
    if lines.len() == 3 {
        proof { assert(details.len() == 0); }
        lines.push(copy_str("  Unknown transport error"));
    }
    let ghost middle = texts(lines@);
    proof {
        assert(middle =~= seq!["Request failed."@, ""@, "Details:"@] + (if details.len() == 0 {
            seq!["  Unknown transport error"@]
        } else {
            details
        }));
    }
    lines.push(String::new());
    lines.push(copy_str("Checks:"));
    lines.push(copy_str("  - Verify the URL, DNS, and network connectivity"));
    lines.push(copy_str("  - Check TLS, proxy, or firewall settings"));
    lines.push(copy_str("  - Inspect the activity log for request lifecycle details"));
    proof {
        assert(texts(lines@) =~= error_lines(error@));
    }
    lines
}

/// `value` cut to its first `max_chars` characters, with `...` after it where it was cut.
pub fn truncate_inline(value: &str, max_chars: usize) -> (r: String)
    ensures
        r@ == cut_text(value@, max_chars as nat),
{
    cut_to(value, max_chars)
}

/// How many elements of an array are shown before the rest is summed up.
pub open spec fn shown_items() -> int {
    50
}

/// The value with every array of more than fifty elements cut to its first
/// fifty, followed by a string that says how many more there were; nested
/// values are treated the same way.
pub open spec fn collapse(v: Json) -> Json
    decreases v,
{
    match v {
        Json::Array(items) => {
            let all = collapse_each(items);
            if items.len() > 50 {
                Json::Array(all.take(50).push(Json::Str("[+ "@ + decimal((items.len() - 50) as nat) + " more items]"@)))
            } else {
                Json::Array(all)
            }
        },
        Json::Object(members) => Json::Object(collapse_members(members)),
        _ => v,
    }
}

/// Each value collapsed.
pub open spec fn collapse_each(items: Seq<Json>) -> Seq<Json>
    decreases items,
{
    if items.len() == 0 {
        Seq::empty()
    } else {
        collapse_each(items.drop_last()).push(collapse(items.last()))
    }
}

/// Each member's value collapsed.
pub open spec fn collapse_members(members: Seq<(Seq<char>, Json)>) -> Seq<(Seq<char>, Json)>
    decreases members,
{
    if members.len() == 0 {
        Seq::empty()
    } else {
        collapse_members(members.drop_last()).push((members.last().0, collapse(members.last().1)))
    }
}

proof fn lemma_collapse_each(items: Seq<Json>)
    ensures
        collapse_each(items).len() == items.len(),
        forall|i: int| 0 <= i < items.len() ==> #[trigger] collapse_each(items)[i] == collapse(items[i]),
    decreases items.len(),
{
    if items.len() > 0 {
        lemma_collapse_each(items.drop_last());
        assert forall|i: int| 0 <= i < items.len() implies #[trigger] collapse_each(items)[i] == collapse(items[i]) by {
            if i < items.len() - 1 {
                assert(items.drop_last()[i] == items[i]);
            }
        }
    }
}

proof fn lemma_collapse_members(members: Seq<(Seq<char>, Json)>)
    ensures
        collapse_members(members).len() == members.len(),
        forall|i: int| 0 <= i < members.len() ==> #[trigger] collapse_members(members)[i] == (
            members[i].0,
            collapse(members[i].1),
        ),
    decreases members.len(),
{
    if members.len() > 0 {
        lemma_collapse_members(members.drop_last());
        assert forall|i: int| 0 <= i < members.len() implies #[trigger] collapse_members(members)[i] == (
            members[i].0,
            collapse(members[i].1),
        ) by {
            if i < members.len() - 1 {
                assert(members.drop_last()[i] == members[i]);
            }
        }
    }
}

/// The value with its large arrays collapsed.
#[verifier::loop_isolation(false)]
#[verifier::rlimit(30)]
pub fn collapse_value(value: &JsonValue) -> (r: JsonValue)
    ensures
        r.model() == collapse(value.model()),
    decreases value,
{
    match value {
        JsonValue::Array(items) => {
            let n = items.len();
            let keep = if n > 50 { 50 } else { n };
            let mut out: Vec<JsonValue> = Vec::new();
            let mut i: usize = 0;
            while i < keep
                invariant
                    keep <= n == items@.len(),
                    i <= keep,
                    out@.len() == i,
                    forall|j: int| 0 <= j < i ==> #[trigger] out@[j].model() == collapse(items@[j].model()),
                decreases keep - i,
            {
                proof { lemma_decreases_item(value, i as int); }
                let c = collapse_value(&items[i]);
                out.push(c);
                i += 1;
            }
            proof {
                lemma_models(items@);
                lemma_collapse_each(models(items@));
            }
            if n > 50 {
                let mut note = String::new();
                push_str(&mut note, "[+ ");
                push_decimal(&mut note, (n - 50) as u64);
                push_str(&mut note, " more items]");
                let ghost before = out@;
                out.push(JsonValue::Str(note));
                proof {
                    lemma_models(out@);
                    lemma_models(before);
                    assert(models(out@) =~= collapse_each(models(items@)).take(50).push(
                        Json::Str("[+ "@ + decimal((n - 50) as nat) + " more items]"@),
                    ));
                }
            } else {
                proof {
                    lemma_models(out@);
                    assert(models(out@) =~= collapse_each(models(items@)));
                }
            }
            JsonValue::Array(out)
        },
        JsonValue::Object(members) => {
            let mut out: Vec<(String, JsonValue)> = Vec::new();
            let mut i: usize = 0;
            while i < members.len()
                invariant
                    i <= members@.len(),
                    out@.len() == i,
                    forall|j: int| 0 <= j < i ==> #[trigger] out@[j].0@ == members@[j].0@
                        && out@[j].1.model() == collapse(members@[j].1.model()),
                decreases members@.len() - i,
            {
                proof { lemma_decreases_member(value, i as int); }
                let v = collapse_value(&members[i].1);
                out.push((members[i].0.clone(), v));
                i += 1;
            }
            proof {
                lemma_member_models(out@);
                lemma_member_models(members@);
                lemma_collapse_members(member_models(members@));
                assert(member_models(out@) =~= collapse_members(member_models(members@)));
            }
            JsonValue::Object(out)
        },
        _ => value.deep_copy(),
    }
}


/// What a response carries as its body.
pub enum ResponseBody {
    Json(JsonValue),
    Text(String),
    Binary(Vec<u8>),
    Stream(Vec<u8>),
    Empty,
}

/// A response as the pane shows it: the status code, the headers in the
/// order they came, the body and how long the request took.
pub struct Response {
    pub status: u16,
    pub headers: Vec<(String, String)>,
    pub body: ResponseBody,
    pub timing_ms: u64,
}

/// The pretty-printed form (two spaces of indent per level) of the JSON
/// text `compact`, as `serde_json` writes it; empty where the text does not parse.
pub uninterp spec fn pretty_json_text(compact: Seq<char>) -> Seq<char>;

/// Reads `compact` with `serde_json::from_str` into a `serde_json::Value` and
/// writes it back with `serde_json::to_string_pretty`. Claimed: the result is
/// `pretty_json_text` of the characters of `compact`, a function of them alone.
#[verifier::external_body]
fn pretty_json(compact: &str) -> (r: String)
    ensures
        r@ == pretty_json_text(compact@),
{
    match serde_json::from_str::<serde_json::Value>(compact) {
        Ok(v) => serde_json::to_string_pretty(&v).unwrap_or_default(),
        Err(_) => String::new(),
    }
}

/// The text that `String::from_utf8_lossy` makes of `bytes`: each invalid
/// UTF-8 sequence replaced by U+FFFD.
pub uninterp spec fn lossy_text(bytes: Seq<u8>) -> Seq<char>;

/// Calls `String::from_utf8_lossy`. Claimed: the result is `lossy_text` of the
/// bytes, and bytes that are all ASCII come out as the same characters.
#[verifier::external_body]
fn utf8_lossy(bytes: &[u8]) -> (r: String)
    ensures
        r@ == lossy_text(bytes@),
        (forall|i: int| 0 <= i < bytes@.len() ==> bytes@[i] < 128) ==> r@ == bytes@.map_values(
            |b: u8| b as char,
        ),
{
    String::from_utf8_lossy(bytes).into_owned()
}

/// `<binary N bytes>` or `<stream N bytes>`.
pub open spec fn size_note(kind: Seq<char>, n: nat) -> Seq<char> {
    "<"@ + kind + " "@ + decimal(n) + " bytes>"@
}

/// The lines, or the single line `(empty body)` where there are none.
pub open spec fn or_empty_body(lines: Seq<Seq<char>>) -> Seq<Seq<char>> {
    if lines.len() == 0 {
        seq!["(empty body)"@]
    } else {
        lines
    }
}

/// One line per header, `name: value`, or `(no headers)` where there are none.
pub open spec fn header_lines(headers: Seq<(String, String)>) -> Seq<Seq<char>> {
    if headers.len() == 0 {
        seq!["(no headers)"@]
    } else {
        headers.map_values(|h: (String, String)| h.0@ + ": "@ + h.1@)
    }
}

/// The text of the body that the raw and preview views split into lines;
/// `pretty` says whether JSON is pretty-printed.
pub open spec fn body_text(body: ResponseBody, pretty: bool) -> Seq<char> {
    match body {
        ResponseBody::Json(v) => if pretty {
            pretty_json_text(json_text(v.model()))
        } else {
            json_text(v.model())
        },
        ResponseBody::Text(t) => t@,
        ResponseBody::Binary(b) => size_note("binary"@, b@.len()),
        ResponseBody::Stream(b) => size_note("stream"@, b@.len()),
        ResponseBody::Empty => Seq::empty(),
    }
}

/// The lines the pane shows of `response` in `mode`, before any cut.
pub open spec fn view_lines(response: Response, mode: ResponseViewMode) -> Seq<Seq<char>> {
    match mode {
        ResponseViewMode::Pretty => match response.body {
            ResponseBody::Json(v) => text_lines(pretty_json_text(json_text(collapse(v.model())))),
            ResponseBody::Text(t) => text_lines(t@),
            ResponseBody::Binary(b) => seq![size_note("binary"@, b@.len())],
            ResponseBody::Stream(b) => seq![size_note("stream"@, b@.len())],
            ResponseBody::Empty => seq!["(empty body)"@],
        },
        ResponseViewMode::Raw => or_empty_body(text_lines(body_text(response.body, false))),
        ResponseViewMode::Headers => header_lines(response.headers@),
        ResponseViewMode::Preview => or_empty_body(text_lines(body_text(response.body, true))),
    }
}

/// Writes `<kind N bytes>`.
fn size_note_string(kind: &str, n: usize) -> (r: String)
    ensures
        r@ == size_note(kind@, n as nat),
{
    let mut out = copy_str("<");
    push_str(&mut out, kind);
    push_str(&mut out, " ");
    push_decimal(&mut out, n as u64);
    push_str(&mut out, " bytes>");
    out
}

/// The text of the body for the raw (`pretty` false) or preview view.
pub fn body_string(body: &ResponseBody, pretty: bool) -> (r: String)
    ensures
        r@ == body_text(*body, pretty),
{
    match body {
        ResponseBody::Json(v) => {
            let compact = v.to_json_string();
            if pretty {
                pretty_json(&compact)
            } else {
                compact
            }
        },
        ResponseBody::Text(t) => t.clone(),
        ResponseBody::Binary(b) => size_note_string("binary", b.len()),
        ResponseBody::Stream(b) => size_note_string("stream", b.len()),
        ResponseBody::Empty => String::new(),
    }
}

/// The lines of `response` in `mode`, before any cut.
pub fn response_lines(response: &Response, mode: ResponseViewMode) -> (r: Vec<String>)
    ensures
        texts(r@) == view_lines(*response, mode),
{
    match mode {
        ResponseViewMode::Pretty => match &response.body {
            ResponseBody::Json(v) => {
                let collapsed = collapse_value(v);
                let compact = collapsed.to_json_string();
                lines_of(&pretty_json(&compact))
            },
            ResponseBody::Text(t) => lines_of(t),
            ResponseBody::Binary(b) => {
                let mut out: Vec<String> = Vec::new();
                out.push(size_note_string("binary", b.len()));
                proof { assert(texts(out@) =~= seq![size_note("binary"@, b@.len())]); }
                out
            },
            ResponseBody::Stream(b) => {
                let mut out: Vec<String> = Vec::new();
                out.push(size_note_string("stream", b.len()));
                proof { assert(texts(out@) =~= seq![size_note("stream"@, b@.len())]); }
                out
            },
            ResponseBody::Empty => {
                let mut out: Vec<String> = Vec::new();
                out.push(copy_str("(empty body)"));
                proof { assert(texts(out@) =~= seq!["(empty body)"@]); }
                out
            },
        },
        ResponseViewMode::Headers => {
            let mut out: Vec<String> = Vec::new();
            let hs = &response.headers;
            let mut i: usize = 0;
            while i < hs.len()
                invariant
                    i <= hs@.len(),
                    texts(out@) =~= hs@.take(i as int).map_values(|h: (String, String)| h.0@ + ": "@ + h.1@),
                decreases hs@.len() - i,
            {
                let mut line = hs[i].0.clone();
                push_str(&mut line, ": ");
                push_str(&mut line, &hs[i].1);
                let ghost before = texts(out@);
                let ghost l = line@;
                out.push(line);
                proof {
                    assert(texts(out@) =~= before.push(l));
                    assert(hs@.take(i + 1) =~= hs@.take(i as int).push(hs@[i as int]));
                    assert(hs@.take(i + 1).map_values(|h: (String, String)| h.0@ + ": "@ + h.1@) =~= hs@.take(
                        i as int,
                    ).map_values(|h: (String, String)| h.0@ + ": "@ + h.1@).push(l));
                }
                i += 1;
            }
            if out.len() == 0 {
                out.push(copy_str("(no headers)"));
                proof { assert(texts(out@) =~= seq!["(no headers)"@]); }
            } else {
                proof { assert(hs@.take(hs@.len() as int) =~= hs@); }
            }
            out
        },
        _ => {
            let pretty = match mode {
                ResponseViewMode::Preview => true,
                _ => false,
            };
            let text = body_string(&response.body, pretty);
            let mut out = lines_of(&text);
            if out.len() == 0 {
                out.push(copy_str("(empty body)"));
                proof { assert(texts(out@) =~= seq!["(empty body)"@]); }
            }
            out
        },
    }
}


/// The lines kept of a response: where there are more than ten screens of
/// `max_visible` lines and no cut was made yet, the first ten screens and a
/// line that says so.
pub open spec fn capped_lines(lines: Seq<Seq<char>>, max_visible: int, warned: bool) -> Seq<Seq<char>> {
    if lines.len() > max_visible * 10 && !warned {
        lines.take(max_visible * 10).push(
            "[Response truncated: showing first "@ + decimal((max_visible * 10) as nat) + " lines]"@,
        )
    } else {
        lines
    }
}

/// Whether a cut has been made, after `capped_lines`.
pub open spec fn capped_warned(lines: Seq<Seq<char>>, max_visible: int, warned: bool) -> bool {
    warned || lines.len() > max_visible * 10
}

/// The lines at most `cap` long.
pub open spec fn cut_lines(lines: Seq<Seq<char>>, cap: int) -> Seq<Seq<char>> {
    if lines.len() > cap {
        lines.take(cap)
    } else {
        lines
    }
}

/// Whether a line matches a search: the line in lower case holds the term in lower case.
pub open spec fn line_matches(line: Seq<char>, term: Seq<char>) -> bool {
    contains_text(lowercase(line), lowercase(term))
}

/// The indices, in order, of the first `n` lines that match `term`.
pub open spec fn match_indices(lines: Seq<Seq<char>>, term: Seq<char>, n: nat) -> Seq<usize>
    decreases n,
{
    if n == 0 {
        Seq::empty()
    } else {
        let prev = match_indices(lines, term, (n - 1) as nat);
        if line_matches(lines[n - 1], term) {
            prev.push((n - 1) as usize)
        } else {
            prev
        }
    }
}

/// The position, from `i` on, of the first match at or below line `offset`; 0 where there is none.
pub open spec fn first_at_or_after(m: Seq<usize>, offset: int, i: int) -> usize
    decreases m.len() - i,
{
    if i >= m.len() {
        0
    } else if m[i] >= offset {
        i as usize
    } else {
        first_at_or_after(m, offset, i + 1)
    }
}

/// The matches of a search for `term`: none where the term or the text is empty.
pub open spec fn matches_for(lines: Seq<Seq<char>>, term: Seq<char>) -> Seq<usize> {
    if term.len() == 0 || lines.len() == 0 {
        Seq::empty()
    } else {
        match_indices(lines, term, lines.len())
    }
}

/// The match selected after a search from line `offset`: the first at or
/// below it; `sel` kept where the term or the text is empty.
pub open spec fn selected_for(lines: Seq<Seq<char>>, term: Seq<char>, offset: int, sel: usize) -> usize {
    if term.len() == 0 || lines.len() == 0 {
        sel
    } else {
        first_at_or_after(match_indices(lines, term, lines.len()), offset, 0)
    }
}

/// The offset after moving to the selected match: where that line is outside
/// the window of `max` lines from `offset`, ten lines above it (or the top).
pub open spec fn scrolled_to(m: Seq<usize>, sel: int, offset: int, max: int) -> int {
    if 0 <= sel < m.len() {
        let line = m[sel] as int;
        if line < offset || line >= offset + max {
            if line >= 10 {
                line - 10
            } else {
                0
            }
        } else {
            offset
        }
    } else {
        offset
    }
}

/// The response pane: the response or error shown, the lines it is shown
/// as, where the view is scrolled to and the state of a search in it.
pub struct ResponsePane {
    pub response: Option<Response>,
    pub error: Option<String>,
    pub scroll_offset: usize,
    pub search_term: String,
    pub search_visible: bool,
    pub search_matches: Vec<usize>,
    pub search_selected: usize,
    pub view_mode: ResponseViewMode,
    pub lines_cache: Vec<String>,
    pub max_visible_lines: usize,
    pub follow_stream: bool,
    pub stream_bytes: Vec<u8>,
    pub truncation_warned: bool,
    pub collapsed_large_arrays: bool,
    pub virtual_scroll: VirtualScroll<String>,
}

impl ResponsePane {
    /// The lines shown.
    pub open spec fn lines(self) -> Seq<Seq<char>> {
        texts(self.lines_cache@)
    }

    /// Ten screens of lines can be counted.
    pub open spec fn cap_fits(self) -> bool {
        self.max_visible_lines * 10 <= usize::MAX
    }

    /// The lines built again from the response (or the error) in the current mode.
    pub open spec fn rebuilt_lines(self) -> Seq<Seq<char>> {
        match self.response {
            Some(r) => capped_lines(view_lines(r, self.view_mode), self.max_visible_lines as int, self.truncation_warned),
            None => match self.error {
                Some(e) => seq![e@],
                None => Seq::empty(),
            },
        }
    }

    /// Whether a cut was made, after building the lines again.
    pub open spec fn rebuilt_warned(self) -> bool {
        match self.response {
            Some(r) => capped_warned(view_lines(r, self.view_mode), self.max_visible_lines as int, self.truncation_warned),
            None => self.truncation_warned,
        }
    }

    /// The scrolling view holds the lines, with no window height and at the
    /// pane's offset as far as the lines reach.
    pub open spec fn synced(self) -> bool {
        &&& texts(self.virtual_scroll.spec_items()) == self.lines()
        &&& self.virtual_scroll.spec_viewport() == 0
        &&& self.virtual_scroll.spec_offset() == clamp_to(
            self.scroll_offset as int,
            max_offset(self.lines().len() as int, 0),
        )
    }

    /// The state a new response or error starts from.
    pub open spec fn reset_from(self, old: ResponsePane) -> bool {
        &&& self.scroll_offset == 0
        &&& self.search_term@ == Seq::<char>::empty()
        &&& !self.search_visible
        &&& self.search_matches@ == Seq::<usize>::empty()
        &&& self.search_selected == 0
        &&& self.view_mode == old.view_mode
        &&& self.max_visible_lines == old.max_visible_lines
        &&& !self.follow_stream
        &&& self.stream_bytes@ == Seq::<u8>::empty()
        &&& !self.collapsed_large_arrays
        &&& self.synced()
    }

    /// A key typed into the open search box.
    pub open spec fn search_key_step(self, old: ResponsePane, key: Key, r: bool) -> bool {
        let lines = old.lines();
        let off = old.scroll_offset as int;
        r && match key {
            Key::Esc => {
                &&& self.search_term@ == Seq::<char>::empty()
                &&& self == (ResponsePane { search_visible: false, search_term: self.search_term, ..old })
            },
            Key::Enter => {
                let m = matches_for(lines, old.search_term@);
                let sel = selected_for(lines, old.search_term@, off, old.search_selected);
                &&& self.search_matches@ == m
                &&& self.scroll_offset == scrolled_to(m, sel as int, off, old.max_visible_lines as int)
                &&& self == (ResponsePane {
                    search_matches: self.search_matches,
                    search_selected: sel,
                    search_visible: false,
                    scroll_offset: self.scroll_offset,
                    ..old
                })
            },
            Key::Backspace | Key::Char(_) => {
                let t = match key {
                    Key::Char(c) => old.search_term@.push(c),
                    _ => if old.search_term@.len() > 0 {
                        old.search_term@.drop_last()
                    } else {
                        old.search_term@
                    },
                };
                &&& self.search_term@ == t
                &&& self.search_matches@ == matches_for(lines, t)
                &&& self == (ResponsePane {
                    search_term: self.search_term,
                    search_matches: self.search_matches,
                    search_selected: selected_for(lines, t, off, old.search_selected),
                    ..old
                })
            },
            _ => self == old,
        }
    }

    /// A key pressed while browsing the response.
    pub open spec fn browse_key_step(self, old: ResponsePane, key: Key, r: bool) -> bool {
        let len = old.lines().len() as int;
        let off = old.scroll_offset as int;
        let max = old.max_visible_lines as int;
        let last = if len > 0 { len - 1 } else { 0 };
        let half = if max / 2 > 1 { max / 2 } else { 1 };
        let n = old.search_matches@.len() as int;
        let moved = |o: int| r && self == (ResponsePane { scroll_offset: o as usize, ..old });
        match key {
            Key::Char('j') | Key::Down => moved(if off < last { off + 1 } else { off }),
            Key::Char('k') | Key::Up => moved(if off > 0 { off - 1 } else { 0 }),
            Key::PageDown => moved(if off + max < last { off + max } else { last }),
            Key::PageUp => moved(if off > max { off - max } else { 0 }),
            Key::Home => !r && self == old,
            Key::Char('g') => if off > 0 { moved(0) } else { !r && self == old },
            Key::End | Key::Char('G') => moved(if len > max { len - max } else { 0 }),
            Key::Char('t') => {
                let mid = ResponsePane { view_mode: old.view_mode.following(), scroll_offset: 0, ..old };
                let ls = mid.rebuilt_lines();
                &&& r
                &&& self.lines() == ls
                &&& self.search_matches@ == matches_for(ls, old.search_term@)
                &&& self == (ResponsePane {
                    lines_cache: self.lines_cache,
                    truncation_warned: mid.rebuilt_warned(),
                    search_matches: self.search_matches,
                    search_selected: selected_for(ls, old.search_term@, 0, old.search_selected),
                    ..mid
                })
            },
            Key::Char('/') => {
                &&& r
                &&& self.search_term@ == Seq::<char>::empty()
                &&& self == (ResponsePane { search_visible: true, search_term: self.search_term, ..old })
            },
            Key::Char('n') | Key::Char('N') => if n == 0 {
                r && self == old
            } else {
                let sel = if key == Key::Char('n') {
                    (old.search_selected + 1) % n
                } else if old.search_selected == 0 {
                    n - 1
                } else {
                    old.search_selected - 1
                };
                r && self == (ResponsePane {
                    search_selected: sel as usize,
                    scroll_offset: scrolled_to(old.search_matches@, sel, off, max) as usize,
                    ..old
                })
            },
            Key::Char('d') => moved(if off + half < last { off + half } else { last }),
            Key::Char('u') => moved(if off > half { off - half } else { 0 }),
            _ => !r && self == old,
        }
    }

    /// An empty pane that shows a thousand lines at a time.
    pub fn new() -> (r: ResponsePane)
        ensures
            r.response is None,
            r.error is None,
            r.scroll_offset == 0,
            r.search_term@ == Seq::<char>::empty(),
            !r.search_visible,
            r.search_matches@ == Seq::<usize>::empty(),
            r.search_selected == 0,
            r.view_mode == ResponseViewMode::Pretty,
            r.lines() == Seq::<Seq<char>>::empty(),
            r.max_visible_lines == 1000,
            !r.follow_stream,
            r.stream_bytes@ == Seq::<u8>::empty(),
            !r.truncation_warned,
            !r.collapsed_large_arrays,
            r.synced(),
    {
        let r = ResponsePane {
            response: None,
            error: None,
            scroll_offset: 0,
            search_term: String::new(),
            search_visible: false,
            search_matches: Vec::new(),
            search_selected: 0,
            view_mode: ResponseViewMode::Pretty,
            lines_cache: Vec::new(),
            max_visible_lines: 1000,
            follow_stream: false,
            stream_bytes: Vec::new(),
            truncation_warned: false,
            collapsed_large_arrays: false,
            virtual_scroll: VirtualScroll::new(Vec::new()),
        };
        proof { assert(r.lines() =~= Seq::<Seq<char>>::empty()); }
        r
    }

    /// Copies the lines into the scrolling view, at the pane's offset.
    fn sync_virtual_scroll(&mut self)
        ensures
            final(self).synced(),
            *final(self) == (ResponsePane { virtual_scroll: final(self).virtual_scroll, ..*old(self) }),
    {
        let mut copy: Vec<String> = Vec::new();
        let mut i: usize = 0;
        while i < self.lines_cache.len()
            invariant
                i <= self.lines_cache@.len(),
                texts(copy@) =~= texts(self.lines_cache@).take(i as int),
            decreases self.lines_cache@.len() - i,
        {
            let line = self.lines_cache[i].clone();
            let ghost before = texts(copy@);
            copy.push(line);
            proof {
                assert(texts(copy@) =~= before.push(self.lines_cache@[i as int]@));
                assert(texts(self.lines_cache@).take(i + 1) =~= texts(self.lines_cache@).take(i as int).push(
                    self.lines_cache@[i as int]@,
                ));
            }
            i += 1;
        }
        proof { assert(texts(self.lines_cache@).take(i as int) =~= texts(self.lines_cache@)); }
        let mut vs = VirtualScroll::new(copy);
        vs.set_scroll_offset(self.scroll_offset);
        self.virtual_scroll = vs;
    }

    /// Builds the lines again from the response, or from the error where there is none.
    fn rebuild_lines_cache(&mut self)
        requires
            old(self).cap_fits(),
        ensures
            final(self).lines() == old(self).rebuilt_lines(),
            *final(self) == (ResponsePane {
                lines_cache: final(self).lines_cache,
                truncation_warned: old(self).rebuilt_warned(),
                ..*old(self)
            }),
    {
        match &self.response {
            None => {
                let mut lines: Vec<String> = Vec::new();
                match &self.error {
                    Some(e) => {
                        lines.push(e.clone());
                        proof { assert(texts(lines@) =~= seq![e@]); }
                    },
                    None => {
                        proof { assert(texts(lines@) =~= Seq::<Seq<char>>::empty()); }
                    },
                }
                self.lines_cache = lines;
            },
            Some(r) => {
                let mut lines = response_lines(r, self.view_mode);
                let cap = self.max_visible_lines * 10;
                if lines.len() > cap && !self.truncation_warned {
                    let ghost all = texts(lines@);
                    lines.truncate(cap);
                    let mut warn = copy_str("[Response truncated: showing first ");
                    push_decimal(&mut warn, cap as u64);
                    push_str(&mut warn, " lines]");
                    let ghost w = warn@;
                    lines.push(warn);
                    proof { assert(texts(lines@) =~= all.take(cap as int).push(w)); }
                    self.truncation_warned = true;
                }
                self.lines_cache = lines;
            },
        }
    }

    /// Finds the matches of the search term again; the selected match becomes
    /// the first at or below the top of the view.
    fn update_search_matches(&mut self)
        ensures
            final(self).search_matches@ == matches_for(old(self).lines(), old(self).search_term@),
            *final(self) == (ResponsePane {
                search_matches: final(self).search_matches,
                search_selected: selected_for(
                    old(self).lines(),
                    old(self).search_term@,
                    old(self).scroll_offset as int,
                    old(self).search_selected,
                ),
                ..*old(self)
            }),
    {
        let term_chars = chars_of(&self.search_term);
        if term_chars.len() == 0 || self.lines_cache.len() == 0 {
            self.search_matches = Vec::new();
            return;
        }
        let ghost lines = self.lines();
        let ghost term = self.search_term@;
        let lower_term = chars_of(&to_lower(&self.search_term));
        let mut found: Vec<usize> = Vec::new();
        let mut i: usize = 0;
        while i < self.lines_cache.len()
            invariant
                lines == self.lines(),
                term == self.search_term@,
                lower_term@ == lowercase(term),
                i <= lines.len(),
                found@ == match_indices(lines, term, i as nat),
            decreases lines.len() - i,
        {
            let lower_line = chars_of(&to_lower(&self.lines_cache[i]));
            proof { assert(lines[i as int] == self.lines_cache@[i as int]@); }
            if contains_text_exec(&lower_line, &lower_term) {
                found.push(i);
            }
            i += 1;
        }
        let mut k: usize = 0;
        while k < found.len()
            invariant
                k <= found@.len(),
                first_at_or_after(found@, self.scroll_offset as int, 0) == first_at_or_after(
                    found@,
                    self.scroll_offset as int,
                    k as int,
                ),
            ensures
                k <= found@.len(),
                first_at_or_after(found@, self.scroll_offset as int, 0) == first_at_or_after(
                    found@,
                    self.scroll_offset as int,
                    k as int,
                ),
                k < found@.len() ==> found@[k as int] >= self.scroll_offset,
            decreases found@.len() - k,
        {
            if found[k] >= self.scroll_offset {
                break;
            }
            k += 1;
        }
        let sel = if k < found.len() { k } else { 0 };
        self.search_matches = found;
        self.search_selected = sel;
    }

    /// Moves the view to the selected match where it is out of sight.
    fn scroll_to_match(&mut self)
        ensures
            *final(self) == (ResponsePane {
                scroll_offset: scrolled_to(
                    old(self).search_matches@,
                    old(self).search_selected as int,
                    old(self).scroll_offset as int,
                    old(self).max_visible_lines as int,
                ) as usize,
                ..*old(self)
            }),
    {
        if self.search_selected < self.search_matches.len() {
            let line = self.search_matches[self.search_selected];
            if line < self.scroll_offset || line - self.scroll_offset >= self.max_visible_lines {
                self.scroll_offset = if line >= 10 { line - 10 } else { 0 };
            }
        }
    }
}


impl ResponsePane {
    /// Shows `response`: the search, the scroll position and any stream are
    /// reset, and the lines are built in the current view mode.
    pub fn set_response(&mut self, response: Response)
        requires
            old(self).cap_fits(),
        ensures
            final(self).response == Some(response),
            final(self).error is None,
            final(self).reset_from(*old(self)),
            final(self).lines() == capped_lines(
                view_lines(response, old(self).view_mode),
                old(self).max_visible_lines as int,
                false,
            ),
            final(self).truncation_warned == capped_warned(
                view_lines(response, old(self).view_mode),
                old(self).max_visible_lines as int,
                false,
            ),
    {
        self.response = Some(response);
        self.error = None;
        self.scroll_offset = 0;
        self.search_term = String::new();
        self.search_visible = false;
        self.search_matches = Vec::new();
        self.search_selected = 0;
        self.follow_stream = false;
        self.stream_bytes = Vec::new();
        self.truncation_warned = false;
        self.collapsed_large_arrays = false;
        self.rebuild_lines_cache();
        self.sync_virtual_scroll();
    }

    /// Shows a failed request: the message, what it says in detail and what to check.
    pub fn set_error(&mut self, error: String)
        ensures
            final(self).error == Some(error),
            final(self).response is None,
            final(self).reset_from(*old(self)),
            final(self).lines() == error_lines(error@),
            !final(self).truncation_warned,
    {
        let lines = build_error_lines(&error);
        self.error = Some(error);
        self.response = None;
        self.scroll_offset = 0;
        self.search_term = String::new();
        self.search_visible = false;
        self.search_matches = Vec::new();
        self.search_selected = 0;
        self.follow_stream = false;
        self.stream_bytes = Vec::new();
        self.truncation_warned = false;
        self.collapsed_large_arrays = false;
        self.lines_cache = lines;
        self.sync_virtual_scroll();
    }

    /// The response shown, if any.
    pub fn response(&self) -> (r: Option<&Response>)
        ensures
            r == match self.response {
                Some(x) => Some(&x),
                None => None::<&Response>,
            },
    {
        match &self.response {
            Some(x) => Some(x),
            None => None,
        }
    }

    /// The error shown, if any.
    pub fn error(&self) -> (r: Option<&str>)
        ensures
            r is Some == self.error is Some,
            r is Some ==> r->0@ == self.error->0@,
    {
        match &self.error {
            Some(e) => Some(e.as_str()),
            None => None,
        }
    }

    pub fn scroll_offset(&self) -> (r: usize)
        ensures
            r == self.scroll_offset,
    {
        self.scroll_offset
    }

    pub fn view_mode(&self) -> (r: ResponseViewMode)
        ensures
            r == self.view_mode,
    {
        self.view_mode
    }

    pub fn is_search_visible(&self) -> (r: bool)
        ensures
            r == self.search_visible,
    {
        self.search_visible
    }

    pub fn search_term(&self) -> (r: &str)
        ensures
            r@ == self.search_term@,
    {
        self.search_term.as_str()
    }

    /// How many lines match the search.
    pub fn search_match_count(&self) -> (r: usize)
        ensures
            r == self.search_matches@.len(),
    {
        self.search_matches.len()
    }

    /// Which match is selected, counted from 0.
    pub fn search_selected_index(&self) -> (r: usize)
        ensures
            r == self.search_selected,
    {
        self.search_selected
    }

    /// Whether a response or an error is shown.
    pub fn has_content(&self) -> (r: bool)
        ensures
            r == (self.response is Some || self.error is Some),
    {
        self.response.is_some() || self.error.is_some()
    }

    /// How many lines are shown.
    pub fn total_lines(&self) -> (r: usize)
        ensures
            r == self.lines().len(),
    {
        self.lines_cache.len()
    }

    pub fn follow_stream(&self) -> (r: bool)
        ensures
            r == self.follow_stream,
    {
        self.follow_stream
    }

    pub fn set_follow_stream(&mut self, follow: bool)
        ensures
            *final(self) == (ResponsePane { follow_stream: follow, ..*old(self) }),
    {
        self.follow_stream = follow;
    }

    /// Adds a chunk of a streamed body: the lines become those of all bytes
    /// so far (invalid UTF-8 replaced), at most ten screens of them; when the
    /// stream is followed, the view moves to show the last screen.
    pub fn stream_chunk(&mut self, chunk: Vec<u8>)
        requires
            old(self).cap_fits(),
        ensures
            final(self).stream_bytes@ == old(self).stream_bytes@ + chunk@,
            final(self).lines() == cut_lines(
                text_lines(lossy_text(old(self).stream_bytes@ + chunk@)),
                old(self).max_visible_lines * 10,
            ),
            final(self).scroll_offset == if old(self).follow_stream {
                let n = final(self).lines().len() as int;
                let m = old(self).max_visible_lines as int;
                (if n > m { n - m } else { 0 }) as usize
            } else {
                old(self).scroll_offset
            },
            final(self).synced(),
            *final(self) == (ResponsePane {
                stream_bytes: final(self).stream_bytes,
                lines_cache: final(self).lines_cache,
                scroll_offset: final(self).scroll_offset,
                virtual_scroll: final(self).virtual_scroll,
                ..*old(self)
            }),
    {
        let mut more = chunk;
        self.stream_bytes.append(&mut more);
        let text = utf8_lossy(self.stream_bytes.as_slice());
        let mut lines = lines_of(&text);
        let cap = self.max_visible_lines * 10;
        let ghost all = texts(lines@);
        lines.truncate(cap);
        proof { assert(texts(lines@) =~= cut_lines(all, cap as int)); }
        self.lines_cache = lines;
        if self.follow_stream {
            self.scroll_offset = self.lines_cache.len().saturating_sub(self.max_visible_lines);
        }
        self.sync_virtual_scroll();
    }

    /// The keys a pane can take: ten screens can be counted, and the next
    /// match can be counted where the search is closed.
    pub open spec fn key_defined(self, key: Key) -> bool {
        &&& self.cap_fits()
        &&& (!self.search_visible && key == Key::Char('n') ==> self.search_selected < usize::MAX)
    }

    /// Handles a key: typed into the search box while it is open, else a
    /// move, a change of view mode or a search command. Answers whether the
    /// key was used.
    pub fn handle_key(&mut self, key: &Key) -> (r: bool)
        requires
            old(self).key_defined(*key),
        ensures
            old(self).search_visible ==> final(self).search_key_step(*old(self), *key, r),
            !old(self).search_visible ==> final(self).browse_key_step(*old(self), *key, r),
    {
        if self.search_visible {
            return self.handle_search_key(key);
        }
        let len = self.lines_cache.len();
        let last = len.saturating_sub(1);
        let half = if self.max_visible_lines / 2 > 1 { self.max_visible_lines / 2 } else { 1 };
        match key {
            Key::Char('j') | Key::Down => {
                if self.scroll_offset < last {
                    self.scroll_offset += 1;
                }
                true
            },
            Key::Char('k') | Key::Up => {
                self.scroll_offset = self.scroll_offset.saturating_sub(1);
                true
            },
            Key::PageDown => {
                let down = self.scroll_offset.saturating_add(self.max_visible_lines);
                self.scroll_offset = if down < last { down } else { last };
                true
            },
            Key::PageUp => {
                self.scroll_offset = self.scroll_offset.saturating_sub(self.max_visible_lines);
                true
            },
            Key::Home => false,
            Key::Char('g') => {
                if self.scroll_offset > 0 {
                    self.scroll_offset = 0;
                    true
                } else {
                    false
                }
            },
            Key::End | Key::Char('G') => {
                self.scroll_offset = len.saturating_sub(self.max_visible_lines);
                true
            },
            Key::Char('t') => {
                self.view_mode = self.view_mode.next();
                self.scroll_offset = 0;
                self.rebuild_lines_cache();
                self.update_search_matches();
                true
            },
            Key::Char('/') => {
                self.search_visible = true;
                self.search_term = String::new();
                true
            },
            Key::Char('n') => {
                if self.search_matches.len() > 0 {
                    self.search_selected = (self.search_selected + 1) % self.search_matches.len();
                    self.scroll_to_match();
                }
                true
            },
            Key::Char('N') => {
                if self.search_matches.len() > 0 {
                    self.search_selected = if self.search_selected == 0 {
                        self.search_matches.len() - 1
                    } else {
                        self.search_selected - 1
                    };
                    self.scroll_to_match();
                }
                true
            },
            Key::Char('d') => {
                let down = self.scroll_offset.saturating_add(half);
                self.scroll_offset = if down < last { down } else { last };
                true
            },
            Key::Char('u') => {
                self.scroll_offset = self.scroll_offset.saturating_sub(half);
                true
            },
            _ => false,
        }
    }

    /// Handles a key typed into the open search box.
    fn handle_search_key(&mut self, key: &Key) -> (r: bool)
        ensures
            final(self).search_key_step(*old(self), *key, r),
    {
        match key {
            Key::Esc => {
                self.search_visible = false;
                self.search_term = String::new();
            },
            Key::Enter => {
                self.update_search_matches();
                self.scroll_to_match();
                self.search_visible = false;
            },
            Key::Backspace => {
                pop_char(&mut self.search_term);
                self.update_search_matches();
            },
            Key::Char(c) => {
                push_char(&mut self.search_term, *c);
                self.update_search_matches();
            },
            _ => {},
        }
        true
    }
}

impl Default for ResponsePane {
    fn default() -> (r: ResponsePane)
        ensures
            r.response is None,
            r.error is None,
            r.scroll_offset == 0,
            r.search_term@ == Seq::<char>::empty(),
            !r.search_visible,
            r.search_matches@ == Seq::<usize>::empty(),
            r.view_mode == ResponseViewMode::Pretty,
            r.lines() == Seq::<Seq<char>>::empty(),
            r.max_visible_lines == 1000,
            !r.follow_stream,
            r.synced(),
    {
        ResponsePane::new()
    }
}


/// How a shown line is drawn.
pub enum RowStyle {
    /// The selected match of the search.
    SelectedMatch,
    /// Another match of the search.
    Match,
    /// JSON colored piece by piece.
    Highlighted(Vec<HighlightSpan>),
    Plain,
}

/// A line in the window, with how it is drawn.
pub struct ViewRow {
    pub text: String,
    pub style: RowStyle,
}

/// What the window shows: the first line's index, the window's height in
/// lines and the rows.
pub struct ResponseView {
    pub scroll: usize,
    pub viewport: usize,
    pub rows: Vec<ViewRow>,
}

/// The row drawn for line `idx`: a search match (the selected one apart),
/// else JSON colors in the pretty view, else the plain line.
pub open spec fn row_shown(
    row: ViewRow,
    line: Seq<char>,
    idx: int,
    matches: Seq<usize>,
    sel: int,
    mode: ResponseViewMode,
) -> bool {
    let is_match = matches.contains(idx as usize);
    let selected = is_match && 0 <= sel < matches.len() && matches[sel] == idx;
    &&& row.text@ == line
    &&& if selected {
        row.style is SelectedMatch
    } else if is_match {
        row.style is Match
    } else if mode == ResponseViewMode::Pretty {
        row.style matches RowStyle::Highlighted(sp) && spans_view(sp@) == highlighted(line)
    } else {
        row.style is Plain
    }
}

/// The lines of a window `inner_height` rows high: one row is kept for the
/// bottom edge.
pub open spec fn viewport_for(inner_height: int) -> int {
    if inner_height > 1 {
        inner_height - 1
    } else {
        0
    }
}

/// The highest first line a window of `viewport` lines can start at.
pub open spec fn top_limit(total: int, viewport: int) -> int {
    if total > viewport {
        total - viewport
    } else {
        0
    }
}

/// A blank line, or one whose strings do not run off its end.
pub open spec fn can_highlight(line: Seq<char>) -> bool {
    trim(line).len() > 0 ==> strings_end(line, 0)
}

/// Whether `x` is in `m`.
fn holds_index(m: &Vec<usize>, x: usize) -> (r: bool)
    ensures
        r == m@.contains(x),
{
    let mut i: usize = 0;
    while i < m.len()
        invariant
            i <= m@.len(),
            forall|j: int| 0 <= j < i ==> m@[j] != x,
        decreases m@.len() - i,
    {
        if m[i] == x {
            return true;
        }
        i += 1;
    }
    false
}

impl ResponsePane {
    /// The first line shown in a window `inner_height` rows high.
    pub open spec fn view_scroll(self, inner_height: int) -> int {
        let top = top_limit(self.lines().len() as int, viewport_for(inner_height));
        if self.scroll_offset < top {
            self.scroll_offset as int
        } else {
            top
        }
    }

    /// Every line in that window that is drawn with JSON colors can be.
    pub open spec fn window_highlightable(self, inner_height: int) -> bool {
        let start = self.view_scroll(inner_height);
        self.view_mode == ResponseViewMode::Pretty ==> forall|i: int|
            start <= i < start + viewport_for(inner_height) && i < self.lines().len()
                && !self.search_matches@.contains(i as usize) ==> can_highlight(#[trigger] self.lines()[i])
    }

    /// Whether the window of `inner_height` rows can be drawn.
    pub fn view_ready(&self, inner_height: usize) -> (r: bool)
        ensures
            r == self.window_highlightable(inner_height as int),
    {
        let viewport = inner_height.saturating_sub(1);
        let total = self.lines_cache.len();
        let top = total.saturating_sub(viewport);
        let scroll = if self.scroll_offset < top { self.scroll_offset } else { top };
        if self.view_mode != ResponseViewMode::Pretty {
            return true;
        }
        let mut i = scroll;
        while i < total && i - scroll < viewport
            invariant
                scroll <= i <= total,
                total == self.lines().len(),
                scroll == self.view_scroll(inner_height as int),
                viewport == viewport_for(inner_height as int),
                self.view_mode == ResponseViewMode::Pretty,
                forall|j: int|
                    scroll <= j < i && !self.search_matches@.contains(j as usize) ==> can_highlight(
                        #[trigger] self.lines()[j],
                    ),
            decreases total - i,
        {
            if !holds_index(&self.search_matches, i) && !highlightable(&self.lines_cache[i]) {
                proof {
                    assert(self.lines()[i as int] == self.lines_cache@[i as int]@);
                    assert(!can_highlight(self.lines()[i as int]));
                }
                return false;
            }
            i += 1;
        }
        true
    }

    /// Fits the pane to a window `inner_height` rows high and gives what it
    /// shows: the page size becomes the window's height (at least one), the
    /// first line is the pane's offset as far as a full window allows, and
    /// each line in the window comes with how it is drawn.
    pub fn prepare_view(&mut self, inner_height: usize) -> (v: ResponseView)
        requires
            old(self).window_highlightable(inner_height as int),
        ensures
            v.viewport == viewport_for(inner_height as int),
            v.scroll == old(self).view_scroll(inner_height as int),
            v.rows@.len() == if old(self).lines().len() - v.scroll > v.viewport {
                v.viewport as int
            } else {
                old(self).lines().len() - v.scroll
            },
            forall|j: int|
                0 <= j < v.rows@.len() ==> row_shown(
                    #[trigger] v.rows@[j],
                    old(self).lines()[v.scroll + j],
                    v.scroll + j,
                    old(self).search_matches@,
                    old(self).search_selected as int,
                    old(self).view_mode,
                ),
            final(self).virtual_scroll.spec_items() == old(self).virtual_scroll.spec_items(),
            final(self).virtual_scroll.spec_viewport() == v.viewport,
            final(self).virtual_scroll.spec_offset() == clamp_to(
                v.scroll as int,
                max_offset(old(self).virtual_scroll.spec_items().len() as int, v.viewport as int),
            ),
            *final(self) == (ResponsePane {
                max_visible_lines: if v.viewport > 1 { v.viewport } else { 1 },
                virtual_scroll: final(self).virtual_scroll,
                ..*old(self)
            }),
    {
        let viewport = inner_height.saturating_sub(1);
        self.max_visible_lines = if viewport > 1 { viewport } else { 1 };
        let total = self.lines_cache.len();
        let top = total.saturating_sub(viewport);
        let scroll = if self.scroll_offset < top { self.scroll_offset } else { top };
        self.virtual_scroll.set_viewport_height(viewport);
        self.virtual_scroll.set_scroll_offset(scroll);
        let end = if total - scroll > viewport { scroll + viewport } else { total };
        let mut rows: Vec<ViewRow> = Vec::new();
        let mut i = scroll;
        while i < end
            invariant
                scroll <= i <= end <= total,
                total == self.lines().len(),
                end - scroll <= viewport,
                scroll == old(self).view_scroll(inner_height as int),
                viewport == viewport_for(inner_height as int),
                old(self).window_highlightable(inner_height as int),
                self.lines_cache == old(self).lines_cache,
                self.search_matches == old(self).search_matches,
                self.search_selected == old(self).search_selected,
                self.view_mode == old(self).view_mode,
                rows@.len() == i - scroll,
                forall|j: int|
                    0 <= j < rows@.len() ==> row_shown(
                        #[trigger] rows@[j],
                        old(self).lines()[scroll + j],
                        scroll + j,
                        old(self).search_matches@,
                        old(self).search_selected as int,
                        old(self).view_mode,
                    ),
            decreases end - i,
        {
            let line = &self.lines_cache[i];
            let is_match = holds_index(&self.search_matches, i);
            let selected = is_match && self.search_selected < self.search_matches.len()
                && self.search_matches[self.search_selected] == i;
            let style = if selected {
                RowStyle::SelectedMatch
            } else if is_match {
                RowStyle::Match
            } else if self.view_mode == ResponseViewMode::Pretty {
                proof { assert(can_highlight(old(self).lines()[i as int])); }
                RowStyle::Highlighted(syntax_highlight_line(line))
            } else {
                RowStyle::Plain
            };
            let ghost before = rows@;
            rows.push(ViewRow { text: line.clone(), style });
            proof {
                assert forall|j: int| 0 <= j < rows@.len() implies row_shown(
                    #[trigger] rows@[j],
                    old(self).lines()[scroll + j],
                    scroll + j,
                    old(self).search_matches@,
                    old(self).search_selected as int,
                    old(self).view_mode,
                ) by {
                    if j < before.len() {
                        assert(rows@[j] == before[j]);
                    }
                }
            }
            i += 1;
        }
        ResponseView { scroll, viewport, rows }
    }
}


/// The size of a body in bytes: the UTF-8 length of its text (compact JSON
/// for a JSON body), the number of bytes of a binary or streamed body.
pub open spec fn body_size(body: ResponseBody) -> int {
    match body {
        ResponseBody::Json(v) => byte_len(json_text(v.model())) as int,
        ResponseBody::Text(t) => byte_len(t@) as int,
        ResponseBody::Binary(b) => b@.len() as int,
        ResponseBody::Stream(b) => b@.len() as int,
        ResponseBody::Empty => 0,
    }
}

/// The value of the first header from `i` on named `content-type` in any case.
pub open spec fn content_type_from(hs: Seq<(String, String)>, i: int) -> Option<Seq<char>>
    decreases hs.len() - i,
{
    if i < 0 || i >= hs.len() {
        None
    } else if lowercase(hs[i].0@) == "content-type"@ {
        Some(hs[i].1@)
    } else {
        content_type_from(hs, i + 1)
    }
}

impl Response {
    /// The size of the body in bytes.
    pub fn body_size(&self) -> (r: usize)
        ensures
            r == body_size(self.body),
    {
        match &self.body {
            ResponseBody::Json(v) => v.to_json_string().as_str().len(),
            ResponseBody::Text(t) => t.as_str().len(),
            ResponseBody::Binary(b) => b.len(),
            ResponseBody::Stream(b) => b.len(),
            ResponseBody::Empty => 0,
        }
    }

    /// The value of the `Content-Type` header, if there is one.
    pub fn content_type(&self) -> (r: Option<&str>)
        ensures
            r is Some == content_type_from(self.headers@, 0) is Some,
            r is Some ==> r->0@ == content_type_from(self.headers@, 0)->0,
    {
        let mut i: usize = 0;
        while i < self.headers.len()
            invariant
                i <= self.headers@.len(),
                content_type_from(self.headers@, 0) == content_type_from(self.headers@, i as int),
            decreases self.headers@.len() - i,
        {
            let name = to_lower(&self.headers[i].0);
            if str_eq(&name, "content-type") {
                return Some(self.headers[i].1.as_str());
            }
            i += 1;
        }
        None
    }
}

/// The color of a status code: success for 2xx, warning for 3xx, orange for
/// 4xx, error for 5xx, the foreground otherwise.
pub open spec fn status_color(theme: Theme, status: u16) -> ColorDef {
    if 200 <= status < 300 {
        theme.semantic.success
    } else if 300 <= status < 400 {
        theme.semantic.warning
    } else if 400 <= status < 500 {
        ColorDef::Indexed(208)
    } else if 500 <= status < 600 {
        theme.semantic.error
    } else {
        theme.foreground
    }
}

/// The color of a request's duration: success below 100 ms, warning below 500 ms, error otherwise.
pub open spec fn timing_color(theme: Theme, ms: u64) -> ColorDef {
    if ms < 100 {
        theme.semantic.success
    } else if ms < 500 {
        theme.semantic.warning
    } else {
        theme.semantic.error
    }
}

impl ResponsePane {
    /// The title: `RESPONSE`, then the status, the duration, the size and
    /// the content type of a response, or `ERROR` and the start of the
    /// message of an error.
    pub open spec fn title(self, theme: Theme) -> Seq<(Seq<char>, Option<ColorDef>, Option<ColorDef>, bool)> {
        let head = seq![(" RESPONSE "@, Some(theme.pane.title), None, true)];
        match self.response {
            Some(r) => head + seq![
                ("  "@ + decimal(r.status as nat) + " "@, Some(status_color(theme, r.status)), None, true),
                ("  "@ + decimal(r.timing_ms as nat) + "ms "@, Some(timing_color(theme, r.timing_ms)), None, false),
                (
                    "  "@ + short_size_text(body_size(r.body) as nat) + "  "@ + match content_type_from(
                        r.headers@,
                        0,
                    ) {
                        Some(t) => t,
                        None => "unknown"@,
                    },
                    None,
                    None,
                    false,
                ),
            ],
            None => match self.error {
                Some(e) => head + seq![
                    ("  ERROR "@, Some(theme.semantic.error), None, true),
                    ("  "@ + cut_text(e@, 64) + " "@, Some(theme.pane.muted), None, false),
                ],
                None => head,
            },
        }
    }

    /// The title pieces for `theme`.
    pub fn build_title(&self, theme: &Theme) -> (r: Vec<StyledSpan>)
        ensures
            styled_view(r@) == self.title(*theme),
    {
        let mut spans: Vec<StyledSpan> = Vec::new();
        spans.push(StyledSpan { text: copy_str(" RESPONSE "), fg: Some(theme.title_color(true)), bg: None, bold: true });
        let ghost head = styled_view(spans@);
        proof { assert(head =~= seq![(" RESPONSE "@, Some(theme.pane.title), None, true)]); }
        match &self.response {
            Some(r) => {
                let status_color = if 200 <= r.status && r.status < 300 {
                    theme.semantic.success
                } else if 300 <= r.status && r.status < 400 {
                    theme.semantic.warning
                } else if 400 <= r.status && r.status < 500 {
                    ColorDef::Indexed(208)
                } else if 500 <= r.status && r.status < 600 {
                    theme.semantic.error
                } else {
                    theme.foreground
                };
                let mut status = copy_str("  ");
                push_decimal(&mut status, r.status as u64);
                push_str(&mut status, " ");
                let timing_color = if r.timing_ms < 100 {
                    theme.semantic.success
                } else if r.timing_ms < 500 {
                    theme.semantic.warning
                } else {
                    theme.semantic.error
                };
                let mut timing = copy_str("  ");
                push_decimal(&mut timing, r.timing_ms);
                push_str(&mut timing, "ms ");
                let mut info = copy_str("  ");
                push_str(&mut info, &human_size(r.body_size()));
                push_str(&mut info, "  ");
                match r.content_type() {
                    Some(t) => push_str(&mut info, t),
                    None => push_str(&mut info, "unknown"),
                }
                let ghost a = status@;
                let ghost b = timing@;
                let ghost c = info@;
                spans.push(StyledSpan { text: status, fg: Some(status_color), bg: None, bold: true });
                spans.push(StyledSpan { text: timing, fg: Some(timing_color), bg: None, bold: false });
                spans.push(StyledSpan { text: info, fg: None, bg: None, bold: false });
                proof {
                    assert(styled_view(spans@) =~= head + seq![
                        (a, Some(status_color), None::<ColorDef>, true),
                        (b, Some(timing_color), None::<ColorDef>, false),
                        (c, None::<ColorDef>, None::<ColorDef>, false),
                    ]);
                }
            },
            None => {
                match &self.error {
                    Some(e) => {
                        let mut msg = copy_str("  ");
                        push_str(&mut msg, &truncate_inline(e, 64));
                        push_str(&mut msg, " ");
                        let ghost m = msg@;
                        spans.push(StyledSpan { text: copy_str("  ERROR "), fg: Some(theme.semantic.error), bg: None, bold: true });
                        spans.push(StyledSpan { text: msg, fg: Some(theme.muted_color()), bg: None, bold: false });
                        proof {
                            assert(styled_view(spans@) =~= head + seq![
                                ("  ERROR "@, Some(theme.semantic.error), None::<ColorDef>, true),
                                (m, Some(theme.pane.muted), None::<ColorDef>, false),
                            ]);
                        }
                    },
                    None => {},
                }
            },
        }
        spans
    }
}

} // verus!
