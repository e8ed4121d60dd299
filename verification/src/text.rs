use vstd::prelude::*;
use vstd::string::StringExecFns;

verus! {

broadcast use vstd::string::group_string_axioms;

/// The characters of `s`, in order.
pub fn chars_of(s: &str) -> (r: Vec<char>)
    ensures
        r@ == s@,
{
    let mut out: Vec<char> = Vec::new();
    for c in it: s.chars()
        invariant
            it.seq() == s@,
            out@ == s@.take(it.index() as int),
    {
        out.push(c);
    }
    out
}

/// Appends `c` to `s` (`String::push`).
#[verifier::external_body]
pub fn push_char(s: &mut String, c: char)
    ensures
        final(s)@ == old(s)@.push(c),
{
    s.push(c);
}

/// A new string holding the characters of `cs`.
pub fn string_from_chars(cs: &[char]) -> (r: String)
    ensures
        r@ == cs@,
{
    let mut out = String::new();
    let mut i: usize = 0;
    while i < cs.len()
        invariant
            i <= cs@.len(),
            out@ == cs@.take(i as int),
        decreases cs@.len() - i,
    {
        push_char(&mut out, cs[i]);
        i += 1;
        assert(out@ =~= cs@.take(i as int));
    }
    assert(cs@.take(cs@.len() as int) =~= cs@);
    out
}

/// Whether two strings hold the same characters (`str == str`).
#[verifier::external_body]
pub fn str_eq(a: &str, b: &str) -> (r: bool)
    ensures
        r == (a@ == b@),
{
    a == b
}

/// Appends the characters of `t` to `s`.
pub fn push_str(s: &mut String, t: &str)
    ensures
        final(s)@ == old(s)@ + t@,
{
    s.append(t);
}

/// A copy of `s`.
pub fn copy_str(s: &str) -> (r: String)
    ensures
        r@ == s@,
{
    s.to_string()
}

} // verus!

verus! {

/// Whether `c` has the Unicode `White_Space` property (`char::is_whitespace`).
pub open spec fn is_space(c: char) -> bool {
    ||| c == ' '
    ||| ('\t' <= c && c <= '\r')
    ||| c == '\u{85}'
    ||| c == '\u{a0}'
    ||| c == '\u{1680}'
    ||| ('\u{2000}' <= c && c <= '\u{200a}')
    ||| c == '\u{2028}'
    ||| c == '\u{2029}'
    ||| c == '\u{202f}'
    ||| c == '\u{205f}'
    ||| c == '\u{3000}'
}

pub fn is_space_exec(c: char) -> (r: bool)
    ensures
        r == is_space(c),
{
    c == ' ' || ('\t' <= c && c <= '\r') || c == '\u{85}' || c == '\u{a0}' || c == '\u{1680}'
        || ('\u{2000}' <= c && c <= '\u{200a}') || c == '\u{2028}' || c == '\u{2029}' || c
        == '\u{202f}' || c == '\u{205f}' || c == '\u{3000}'
}

/// `s` without its leading white space.
pub open spec fn trim_start(s: Seq<char>) -> Seq<char>
    decreases s.len(),
{
    if s.len() > 0 && is_space(s[0]) {
        trim_start(s.drop_first())
    } else {
        s
    }
}

/// `s` without its trailing white space.
pub open spec fn trim_end(s: Seq<char>) -> Seq<char>
    decreases s.len(),
{
    if s.len() > 0 && is_space(s.last()) {
        trim_end(s.drop_last())
    } else {
        s
    }
}

/// `s` without white space at either end (`str::trim`).
pub open spec fn trim(s: Seq<char>) -> Seq<char> {
    trim_end(trim_start(s))
}

/// Whether `p` occurs in `s` at position `i`.
pub open spec fn occurs_at(s: Seq<char>, i: int, p: Seq<char>) -> bool {
    0 <= i && i + p.len() <= s.len() && s.subrange(i, i + p.len()) == p
}

/// `s` with every occurrence of the non-empty `p` replaced by `r`, matched
/// from the left without overlaps; with an empty `p`, `r` stands before
/// every character and at the end (`str::replace`).
pub open spec fn replace_all(s: Seq<char>, p: Seq<char>, r: Seq<char>) -> Seq<char>
    decreases s.len(),
{
    if s.len() == 0 {
        if p.len() == 0 { r } else { s }
    } else if p.len() == 0 {
        r + seq![s[0]] + replace_all(s.drop_first(), p, r)
    } else if occurs_at(s, 0, p) {
        r + replace_all(s.subrange(p.len() as int, s.len() as int), p, r)
    } else {
        seq![s[0]] + replace_all(s.drop_first(), p, r)
    }
}

/// Whether `p` occurs in `s` at position `i`.
pub fn occurs_at_exec(s: &Vec<char>, i: usize, p: &Vec<char>) -> (r: bool)
    ensures
        r == occurs_at(s@, i as int, p@),
{
    if i > s.len() || p.len() > s.len() - i {
        return false;
    }
    let mut k: usize = 0;
    while k < p.len()
        invariant
            i + p@.len() <= s@.len(),
            k <= p@.len(),
            forall|j: int| 0 <= j < k ==> s@[i + j] == p@[j],
        decreases p@.len() - k,
    {
        assert(i + k < s.len());
        if s[i + k] != p[k] {
            proof {
                assert(s@.subrange(i as int, i + p@.len())[k as int] != p@[k as int]);
            }
            return false;
        }
        k += 1;
    }
    proof {
        assert(s@.subrange(i as int, i + p@.len()) =~= p@);
    }
    true
}

/// Appends the characters of `r` to `out`.
pub fn append_chars(out: &mut Vec<char>, r: &Vec<char>)
    ensures
        final(out)@ == old(out)@ + r@,
{
    let ghost start = out@;
    let mut k: usize = 0;
    while k < r.len()
        invariant
            k <= r@.len(),
            out@ == start + r@.take(k as int),
        decreases r@.len() - k,
    {
        out.push(r[k]);
        k += 1;
        proof { assert(out@ =~= start + r@.take(k as int)); }
    }
    proof { assert(r@.take(r@.len() as int) =~= r@); }
}

/// `s` with `p` replaced by `r` as `str::replace` does.
pub fn replace_all_exec(s: &Vec<char>, p: &Vec<char>, r: &Vec<char>) -> (out: Vec<char>)
    ensures
        out@ == replace_all(s@, p@, r@),
{
    let mut out: Vec<char> = Vec::new();
    let mut i: usize = 0;
    proof { assert(s@.subrange(0, s@.len() as int) =~= s@); assert(out@ + s@ =~= s@); }
    while i < s.len()
        invariant
            i <= s@.len(),
            out@ + replace_all(s@.subrange(i as int, s@.len() as int), p@, r@) == replace_all(
                s@,
                p@,
                r@,
            ),
        decreases s@.len() - i,
    {
        let ghost rest = s@.subrange(i as int, s@.len() as int);
        let ghost before = out@;
        if p.len() == 0 {
            append_chars(&mut out, r);
            out.push(s[i]);
            proof {
                assert(rest.drop_first() =~= s@.subrange(i + 1, s@.len() as int));
                assert(rest[0] == s@[i as int]);
                assert(out@ =~= before + r@ + seq![rest[0]]);
                assert(before + replace_all(rest, p@, r@) =~= out@ + replace_all(
                    rest.drop_first(),
                    p@,
                    r@,
                ));
            }
            i += 1;
        } else if occurs_at_exec(s, i, p) {
            proof {
                assert(rest.subrange(0, p@.len() as int) =~= s@.subrange(i as int, i + p@.len()));
                assert(rest.subrange(p@.len() as int, rest.len() as int) =~= s@.subrange(
                    i + p@.len(),
                    s@.len() as int,
                ));
            }
            append_chars(&mut out, r);
            proof {
                assert(before + replace_all(rest, p@, r@) =~= out@ + replace_all(
                    s@.subrange(i + p@.len(), s@.len() as int),
                    p@,
                    r@,
                ));
            }
            i += p.len();
        } else {
            proof {
                assert(!occurs_at(rest, 0, p@)) by {
                    if occurs_at(rest, 0, p@) {
                        assert(rest.subrange(0, p@.len() as int) =~= s@.subrange(
                            i as int,
                            i + p@.len(),
                        ));
                    }
                }
                assert(rest.drop_first() =~= s@.subrange(i + 1, s@.len() as int));
                assert(rest[0] == s@[i as int]);
            }
            out.push(s[i]);
            proof {
                assert(before + replace_all(rest, p@, r@) =~= out@ + replace_all(
                    rest.drop_first(),
                    p@,
                    r@,
                ));
            }
            i += 1;
        }
    }
    proof {
        assert(s@.subrange(s@.len() as int, s@.len() as int) =~= Seq::<char>::empty());
    }
    if p.len() == 0 {
        append_chars(&mut out, r);
    } else {
        proof { assert(out@ + Seq::<char>::empty() =~= out@); }
    }
    out
}

/// The characters of `s` without white space at either end.
pub fn trim_exec(s: &Vec<char>) -> (r: Vec<char>)
    ensures
        r@ == trim(s@),
{
    let mut lo: usize = 0;
    proof { assert(s@.subrange(0, s@.len() as int) =~= s@); }
    while lo < s.len() && is_space_exec(s[lo])
        invariant
            lo <= s@.len(),
            trim_start(s@) == trim_start(s@.subrange(lo as int, s@.len() as int)),
        decreases s@.len() - lo,
    {
        proof {
            let t = s@.subrange(lo as int, s@.len() as int);
            assert(t.drop_first() =~= s@.subrange(lo + 1, s@.len() as int));
        }
        lo += 1;
    }
    let mut hi: usize = s.len();
    let ghost ts = s@.subrange(lo as int, s@.len() as int);
    proof {
        assert(trim_start(ts) == ts);
    }
    while hi > lo && is_space_exec(s[hi - 1])
        invariant
            lo <= hi <= s@.len(),
            ts == s@.subrange(lo as int, s@.len() as int),
            trim_end(ts) == trim_end(s@.subrange(lo as int, hi as int)),
        decreases hi - lo,
    {
        proof {
            let t = s@.subrange(lo as int, hi as int);
            assert(t.drop_last() =~= s@.subrange(lo as int, hi - 1));
        }
        hi -= 1;
    }
    let mut out: Vec<char> = Vec::new();
    let mut k = lo;
    while k < hi
        invariant
            lo <= k <= hi <= s@.len(),
            out@ == s@.subrange(lo as int, k as int),
        decreases hi - k,
    {
        out.push(s[k]);
        k += 1;
        proof { assert(out@ =~= s@.subrange(lo as int, k as int)); }
    }
    out
}

/// The lines of `s` from `start`, scanning at `cur`, as `str::lines` gives
/// them: split after each line feed, a carriage return just before a line
/// feed dropped, no empty line after a final line feed.
pub open spec fn split_lines(s: Seq<char>, start: int, cur: int) -> Seq<Seq<char>>
    decreases s.len() - cur,
{
    if cur >= s.len() || cur < 0 {
        if 0 <= start < s.len() {
            seq![s.subrange(start, s.len() as int)]
        } else {
            Seq::empty()
        }
    } else if s[cur] == '\n' {
        seq![without_cr(s.subrange(start, cur))] + split_lines(s, cur + 1, cur + 1)
    } else {
        split_lines(s, start, cur + 1)
    }
}

/// The text without one carriage return at its end.
pub open spec fn without_cr(s: Seq<char>) -> Seq<char> {
    if s.len() > 0 && s.last() == '\r' {
        s.drop_last()
    } else {
        s
    }
}

/// The lines of a text (`str::lines`).
pub open spec fn text_lines(s: Seq<char>) -> Seq<Seq<char>> {
    split_lines(s, 0, 0)
}

/// The lines of a text (`str::lines`).
pub fn lines_of(s: &str) -> (r: Vec<String>)
    ensures
        crate::sidebar::texts(r@) == text_lines(s@),
{
    let chars = chars_of(s);
    let mut out: Vec<String> = Vec::new();
    let mut start: usize = 0;
    let mut cur: usize = 0;
    while cur < chars.len()
        invariant
            chars@ == s@,
            start <= cur <= chars@.len(),
            crate::sidebar::texts(out@) + split_lines(chars@, start as int, cur as int) == text_lines(s@),
        decreases chars@.len() - cur,
    {
        if chars[cur] == '\n' {
            let mut end = cur;
            if end > start && chars[end - 1] == '\r' {
                end = end - 1;
            }
            let line = string_from_chars(&chars.as_slice()[start..end]);
            proof {
                let whole = chars@.subrange(start as int, cur as int);
                assert(chars@.subrange(start as int, end as int) =~= without_cr(whole));
            }
            let ghost before = crate::sidebar::texts(out@);
            out.push(line);
            proof {
                assert(crate::sidebar::texts(out@) =~= before.push(line@));
                assert(before.push(line@) + split_lines(chars@, cur + 1, cur + 1) =~= before + (seq![line@]
                    + split_lines(chars@, cur + 1, cur + 1)));
            }
            start = cur + 1;
        }
        cur += 1;
    }
    if start < chars.len() {
        let line = string_from_chars(&chars.as_slice()[start..chars.len()]);
        let ghost before = crate::sidebar::texts(out@);
        out.push(line);
        proof { assert(crate::sidebar::texts(out@) =~= before.push(line@)); }
    } else {
        proof { assert(crate::sidebar::texts(out@) + Seq::<Seq<char>>::empty() =~= crate::sidebar::texts(out@)); }
    }
    out
}

/// `s` cut to its first `n` characters, with `...` after it where it was cut.
pub open spec fn cut_text(s: Seq<char>, n: nat) -> Seq<char> {
    if s.len() > n {
        s.take(n as int) + "..."@
    } else {
        s
    }
}

/// `value` cut to its first `max_chars` characters, with `...` after it where it was cut.
pub fn cut_to(value: &str, max_chars: usize) -> (r: String)
    ensures
        r@ == cut_text(value@, max_chars as nat),
{
    let chars = chars_of(value);
    let mut out = String::new();
    let mut i: usize = 0;
    while i < chars.len() && i < max_chars
        invariant
            chars@ == value@,
            i <= chars@.len(),
            i <= max_chars,
            out@ == chars@.take(i as int),
        decreases chars@.len() - i,
    {
        push_char(&mut out, chars[i]);
        i += 1;
        proof { assert(out@ =~= chars@.take(i as int)); }
    }
    if i < chars.len() {
        push_str(&mut out, "...");
    } else {
        proof { assert(chars@.take(i as int) =~= chars@); }
    }
    out
}

} // verus!
