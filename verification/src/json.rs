use vstd::prelude::*;

use crate::text::{push_char, push_str};

verus! {

/// A JSON value. A number is held as the text that denotes it (such as `42`
/// or `-1.5e3`); an object keeps its members in order, each key at most once.
#[derive(Debug, PartialEq)]
pub enum JsonValue {
    Null,
    Bool(bool),
    Number(String),
    Str(String),
    Array(Vec<JsonValue>),
    Object(Vec<(String, JsonValue)>),
}

/// The mathematical content of a JSON value.
pub enum Json {
    Null,
    Bool(bool),
    Number(Seq<char>),
    Str(Seq<char>),
    Array(Seq<Json>),
    Object(Seq<(Seq<char>, Json)>),
}

impl JsonValue {
    /// The value as a mathematical object.
    pub open spec fn model(self) -> Json
        decreases self,
    {
        match self {
            JsonValue::Null => Json::Null,
            JsonValue::Bool(b) => Json::Bool(b),
            JsonValue::Number(n) => Json::Number(n@),
            JsonValue::Str(s) => Json::Str(s@),
            JsonValue::Array(items) => Json::Array(models(items@)),
            JsonValue::Object(members) => Json::Object(member_models(members@)),
        }
    }
}

/// The models of a sequence of values.
pub open spec fn models(items: Seq<JsonValue>) -> Seq<Json>
    decreases items,
{
    if items.len() == 0 {
        Seq::empty()
    } else {
        models(items.drop_last()).push(items.last().model())
    }
}

/// The models of the members of an object.
pub open spec fn member_models(members: Seq<(String, JsonValue)>) -> Seq<(Seq<char>, Json)>
    decreases members,
{
    if members.len() == 0 {
        Seq::empty()
    } else {
        member_models(members.drop_last()).push((members.last().0@, members.last().1.model()))
    }
}

pub proof fn lemma_models(items: Seq<JsonValue>)
    ensures
        models(items).len() == items.len(),
        forall|i: int| 0 <= i < items.len() ==> #[trigger] models(items)[i] == items[i].model(),
    decreases items.len(),
{
    if items.len() > 0 {
        lemma_models(items.drop_last());
        assert forall|i: int| 0 <= i < items.len() implies #[trigger] models(items)[i]
            == items[i].model() by {
            if i < items.len() - 1 {
                assert(items.drop_last()[i] == items[i]);
            }
        }
    }
}

pub proof fn lemma_member_models(members: Seq<(String, JsonValue)>)
    ensures
        member_models(members).len() == members.len(),
        forall|i: int| 0 <= i < members.len() ==> #[trigger] member_models(members)[i] == (
            members[i].0@,
            members[i].1.model(),
        ),
    decreases members.len(),
{
    if members.len() > 0 {
        lemma_member_models(members.drop_last());
        assert forall|i: int| 0 <= i < members.len() implies #[trigger] member_models(members)[i]
            == (members[i].0@, members[i].1.model()) by {
            if i < members.len() - 1 {
                assert(members.drop_last()[i] == members[i]);
            }
        }
    }
}

/// A lower-case hexadecimal digit.
pub open spec fn hex_digit(n: int) -> char {
    if n < 10 { (48 + n) as char } else { (87 + n) as char }
}

/// How one character is written inside a JSON string: quote, backslash and
/// the control characters are escaped, all else stands as it is.
pub open spec fn escape_char(c: char) -> Seq<char> {
    if c == '"' {
        seq!['\\', '"']
    } else if c == '\\' {
        seq!['\\', '\\']
    } else if c == '\x08' {
        seq!['\\', 'b']
    } else if c == '\x0c' {
        seq!['\\', 'f']
    } else if c == '\n' {
        seq!['\\', 'n']
    } else if c == '\r' {
        seq!['\\', 'r']
    } else if c == '\t' {
        seq!['\\', 't']
    } else if (c as int) < 32 {
        seq!['\\', 'u', '0', '0', hex_digit((c as int) / 16), hex_digit((c as int) % 16)]
    } else {
        seq![c]
    }
}

/// The characters of `s` each escaped as in a JSON string.
pub open spec fn escaped(s: Seq<char>) -> Seq<char>
    decreases s.len(),
{
    if s.len() == 0 {
        Seq::empty()
    } else {
        escaped(s.drop_last()) + escape_char(s.last())
    }
}

/// `s` as a JSON string literal.
pub open spec fn quoted(s: Seq<char>) -> Seq<char> {
    seq!['"'] + escaped(s) + seq!['"']
}

/// The compact JSON text of a value: no spaces, members and elements
/// separated by commas, keys quoted.
pub open spec fn json_text(v: Json) -> Seq<char>
    decreases v,
{
    match v {
        Json::Null => seq!['n', 'u', 'l', 'l'],
        Json::Bool(b) => if b {
            seq!['t', 'r', 'u', 'e']
        } else {
            seq!['f', 'a', 'l', 's', 'e']
        },
        Json::Number(n) => n,
        Json::Str(s) => quoted(s),
        Json::Array(items) => seq!['['] + elements_text(items) + seq![']'],
        Json::Object(members) => seq!['{'] + members_text(members) + seq!['}'],
    }
}

/// The elements of an array, separated by commas.
pub open spec fn elements_text(items: Seq<Json>) -> Seq<char>
    decreases items,
{
    if items.len() == 0 {
        Seq::empty()
    } else if items.len() == 1 {
        json_text(items[0])
    } else {
        elements_text(items.drop_last()) + seq![','] + json_text(items.last())
    }
}

/// The members of an object as `"key":value`, separated by commas.
pub open spec fn members_text(members: Seq<(Seq<char>, Json)>) -> Seq<char>
    decreases members,
{
    if members.len() == 0 {
        Seq::empty()
    } else if members.len() == 1 {
        quoted(members[0].0) + seq![':'] + json_text(members[0].1)
    } else {
        members_text(members.drop_last()) + seq![','] + quoted(members.last().0) + seq![':']
            + json_text(members.last().1)
    }
}

/// The text that stands for a value where it is put into a string: a string
/// stands for its own characters, any other value for its JSON text.
pub open spec fn display_text(v: Json) -> Seq<char> {
    match v {
        Json::Str(s) => s,
        _ => json_text(v),
    }
}

/// The decimal digits of `n`.
pub open spec fn decimal(n: nat) -> Seq<char>
    decreases n,
{
    if n < 10 {
        seq![(48 + n) as char]
    } else {
        decimal(n / 10) + seq![(48 + n % 10) as char]
    }
}

/// Whether `c` is one of `0`..`9`.
pub open spec fn is_digit(c: char) -> bool {
    '0' <= c <= '9'
}

/// The number that a string of decimal digits denotes.
pub open spec fn digits_value(s: Seq<char>) -> nat
    decreases s.len(),
{
    if s.len() == 0 {
        0
    } else {
        digits_value(s.drop_last()) * 10 + ((s.last() as int - 48) as nat)
    }
}

/// A non-empty run of digits.
pub open spec fn all_digits(s: Seq<char>) -> bool {
    s.len() > 0 && forall|i: int| 0 <= i < s.len() ==> is_digit(#[trigger] s[i])
}

/// What `as_u64` gives: a number written as plain digits whose value fits
/// in 64 bits.
pub open spec fn number_as_u64(v: Json) -> Option<u64> {
    match v {
        Json::Number(n) => if all_digits(n) && digits_value(n) <= u64::MAX {
            Some(digits_value(n) as u64)
        } else {
            None
        },
        _ => None,
    }
}

/// The member of an object under `key`: the first one that has it.
pub open spec fn member_index(members: Seq<(String, JsonValue)>, key: Seq<char>) -> int
    decreases members.len(),
{
    if members.len() == 0 {
        -1
    } else if members[0].0@ == key {
        0
    } else {
        let r = member_index(members.drop_first(), key);
        if r < 0 { -1 } else { r + 1 }
    }
}

pub proof fn lemma_member_index(members: Seq<(String, JsonValue)>, key: Seq<char>)
    ensures
        -1 <= member_index(members, key) < members.len(),
        member_index(members, key) >= 0 ==> members[member_index(members, key)].0@ == key,
        member_index(members, key) >= 0 ==> forall|j: int|
            0 <= j < member_index(members, key) ==> members[j].0@ != key,
        member_index(members, key) < 0 ==> forall|j: int|
            0 <= j < members.len() ==> members[j].0@ != key,
    decreases members.len(),
{
    if members.len() > 0 && members[0].0@ != key {
        lemma_member_index(members.drop_first(), key);
        let r = member_index(members.drop_first(), key);
        assert forall|j: int| 1 <= j < members.len() implies members[j] == members.drop_first()[j - 1] by {}
    }
}

/// Writes the decimal digits of `n` after `out`.
pub fn push_decimal(out: &mut String, n: u64)
    ensures
        final(out)@ == old(out)@ + decimal(n as nat),
    decreases n,
{
    if n < 10 {
        push_char(out, ((48 + n) as u8) as char);
        proof { assert(((48 + n) as u8) as char == (48 + n) as char); }
    } else {
        push_decimal(out, n / 10);
        push_char(out, ((48 + n % 10) as u8) as char);
        proof {
            assert(((48 + n % 10) as u8) as char == (48 + (n as nat) % 10) as char);
        }
    }
}

/// Writes the decimal digits of a 128-bit `n` after `out`.
pub fn push_decimal_wide(out: &mut String, n: u128)
    ensures
        final(out)@ == old(out)@ + decimal(n as nat),
    decreases n,
{
    if n < 10 {
        push_char(out, ((48 + n) as u8) as char);
        proof { assert(((48 + n) as u8) as char == (48 + n) as char); }
    } else {
        push_decimal_wide(out, n / 10);
        push_char(out, ((48 + n % 10) as u8) as char);
        proof {
            assert(((48 + n % 10) as u8) as char == (48 + (n as nat) % 10) as char);
        }
    }
}

/// The decimal digits of `n` as a string.
pub fn decimal_string(n: u64) -> (r: String)
    ensures
        r@ == decimal(n as nat),
{
    let mut out = String::new();
    push_decimal(&mut out, n);
    proof { assert(out@ =~= Seq::<char>::empty() + decimal(n as nat)); }
    out
}

fn push_hex_digit(out: &mut String, n: u32)
    requires
        n < 16,
    ensures
        final(out)@ == old(out)@.push(hex_digit(n as int)),
{
    if n < 10 {
        push_char(out, ((48 + n) as u8) as char);
    } else {
        push_char(out, ((87 + n) as u8) as char);
    }
}

/// Writes the escaped form of `c` after `out`.
pub fn push_escaped_char(out: &mut String, c: char)
    ensures
        final(out)@ == old(out)@ + escape_char(c),
{
    if c == '"' {
        push_char(out, '\\');
        push_char(out, '"');
    } else if c == '\\' {
        push_char(out, '\\');
        push_char(out, '\\');
    } else if c == '\x08' {
        push_char(out, '\\');
        push_char(out, 'b');
    } else if c == '\x0c' {
        push_char(out, '\\');
        push_char(out, 'f');
    } else if c == '\n' {
        push_char(out, '\\');
        push_char(out, 'n');
    } else if c == '\r' {
        push_char(out, '\\');
        push_char(out, 'r');
    } else if c == '\t' {
        push_char(out, '\\');
        push_char(out, 't');
    } else if (c as u32) < 32 {
        push_char(out, '\\');
        push_char(out, 'u');
        push_char(out, '0');
        push_char(out, '0');
        push_hex_digit(out, (c as u32) / 16);
        push_hex_digit(out, (c as u32) % 16);
    } else {
        push_char(out, c);
    }
    proof { assert(final(out)@ =~= old(out)@ + escape_char(c)); }
}

/// Writes `s` as a JSON string literal after `out`.
pub fn push_quoted(out: &mut String, s: &str)
    ensures
        final(out)@ == old(out)@ + quoted(s@),
{
    let ghost start = out@;
    push_char(out, '"');
    let cs = crate::text::chars_of(s);
    let mut i: usize = 0;
    while i < cs.len()
        invariant
            i <= cs@.len(),
            cs@ == s@,
            out@ == start + seq!['"'] + escaped(cs@.take(i as int)),
        decreases cs@.len() - i,
    {
        push_escaped_char(out, cs[i]);
        proof {
            assert(cs@.take(i + 1).drop_last() =~= cs@.take(i as int));
        }
        i += 1;
    }
    push_char(out, '"');
    proof {
        assert(cs@.take(cs@.len() as int) =~= cs@);
        assert(out@ =~= start + quoted(s@));
    }
}

impl JsonValue {
    /// A copy of the value.
    #[verifier::loop_isolation(false)]
    pub fn deep_copy(&self) -> (r: JsonValue)
        ensures
            r.model() == self.model(),
        decreases self,
    {
        match self {
            JsonValue::Null => JsonValue::Null,
            JsonValue::Bool(b) => JsonValue::Bool(*b),
            JsonValue::Number(n) => JsonValue::Number(n.clone()),
            JsonValue::Str(s) => JsonValue::Str(s.clone()),
            JsonValue::Array(items) => {
                let mut out: Vec<JsonValue> = Vec::new();
                let mut i: usize = 0;
                while i < items.len()
                    invariant
                        i <= items@.len(),
                        out@.len() == i,
                        forall|j: int| 0 <= j < i ==> #[trigger] out@[j].model() == items@[j].model(),
                    decreases items@.len() - i,
                {
                    proof { lemma_decreases_item(self, i as int); }
                    let c = items[i].deep_copy();
                    out.push(c);
                    i += 1;
                }
                proof {
                    lemma_models(out@);
                    lemma_models(items@);
                    assert(models(out@) =~= models(items@));
                }
                JsonValue::Array(out)
            },
            JsonValue::Object(members) => {
                let mut out: Vec<(String, JsonValue)> = Vec::new();
                let mut i: usize = 0;
                while i < members.len()
                    invariant
                        i <= members@.len(),
                        out@.len() == i,
                        forall|j: int| 0 <= j < i ==> #[trigger] out@[j].0@ == members@[j].0@
                            && out@[j].1.model() == members@[j].1.model(),
                    decreases members@.len() - i,
                {
                    proof { lemma_decreases_member(self, i as int); }
                    let v = members[i].1.deep_copy();
                    out.push((members[i].0.clone(), v));
                    i += 1;
                }
                proof {
                    lemma_member_models(out@);
                    lemma_member_models(members@);
                    assert(member_models(out@) =~= member_models(members@));
                }
                JsonValue::Object(out)
            },
        }
    }

    /// A number given by its value.
    pub fn from_u64(n: u64) -> (r: JsonValue)
        ensures
            match r {
                JsonValue::Number(t) => t@ == decimal(n as nat),
                _ => false,
            },
    {
        JsonValue::Number(decimal_string(n))
    }

    /// The characters of a string value.
    pub fn as_str(&self) -> (r: Option<&String>)
        ensures
            match self.model() {
                Json::Str(s) => r is Some && r->0@ == s,
                _ => r is None,
            },
    {
        match self {
            JsonValue::Str(s) => Some(s),
            _ => None,
        }
    }

    /// The value of a number written as plain digits that fits in 64 bits.
    #[verifier::loop_isolation(false)]
    pub fn as_u64(&self) -> (r: Option<u64>)
        ensures
            r == number_as_u64(self.model()),
    {
        match self {
            JsonValue::Number(n) => {
                let cs = crate::text::chars_of(n.as_str());
                if cs.len() == 0 {
                    return None;
                }
                let mut acc: u64 = 0;
                let mut i: usize = 0;
                while i < cs.len()
                    invariant
                        i <= cs@.len(),
                        cs@ == n@,
                        cs@.len() > 0,
                        forall|j: int| 0 <= j < i ==> is_digit(#[trigger] cs@[j]),
                        acc == digits_value(cs@.take(i as int)),
                    decreases cs@.len() - i,
                {
                    let c = cs[i];
                    proof { assert(cs@.take(i + 1).drop_last() =~= cs@.take(i as int)); }
                    if !('0' <= c && c <= '9') {
                        proof { assert(!is_digit(cs@[i as int])); }
                        return None;
                    }
                    let d = (c as u32 - 48) as u64;
                    if acc > (u64::MAX - d) / 10 {
                        proof {
                            assert(acc * 10 + d > u64::MAX) by (nonlinear_arith)
                                requires
                                    acc > (u64::MAX - d) / 10,
                                    d <= 9;
                            assert(digits_value(cs@.take(i + 1)) == acc * 10 + d);
                            if all_digits(n@) {
                                lemma_digits_prefix_monotone(cs@, i as int + 1);
                            }
                        }
                        return None;
                    }
                    acc = acc * 10 + d;
                    i += 1;
                }
                proof { assert(cs@.take(cs@.len() as int) =~= cs@); }
                Some(acc)
            },
            _ => None,
        }
    }

    /// Writes the compact JSON text of the value after `out`.
    pub fn write_json(&self, out: &mut String)
        ensures
            final(out)@ == old(out)@ + json_text(self.model()),
        decreases self, 1nat,
    {
        match self {
            JsonValue::Null => {
                push_str(out, "null");
                proof { reveal_strlit("null"); }
            },
            JsonValue::Bool(b) => {
                if *b {
                    push_str(out, "true");
                    proof { reveal_strlit("true"); }
                } else {
                    push_str(out, "false");
                    proof { reveal_strlit("false"); }
                }
            },
            JsonValue::Number(n) => {
                push_str(out, n.as_str());
            },
            JsonValue::Str(s) => {
                push_quoted(out, s.as_str());
            },
            JsonValue::Array(items) => {
                let ghost start = out@;
                push_char(out, '[');
                proof { lemma_decreases_items(self); }
                write_elements(items, out);
                push_char(out, ']');
                proof { assert(out@ =~= start + json_text(self.model())); }
            },
            JsonValue::Object(members) => {
                let ghost start = out@;
                push_char(out, '{');
                proof { lemma_decreases_members(self); }
                write_members(members, out);
                push_char(out, '}');
                proof { assert(out@ =~= start + json_text(self.model())); }
            },
        }
    }

    /// The compact JSON text of the value.
    pub fn to_json_string(&self) -> (r: String)
        ensures
            r@ == json_text(self.model()),
    {
        let mut out = String::new();
        self.write_json(&mut out);
        proof { assert(out@ =~= json_text(self.model())); }
        out
    }

    /// The text that stands for the value inside a larger string.
    pub fn display_string(&self) -> (r: String)
        ensures
            r@ == display_text(self.model()),
    {
        match self {
            JsonValue::Str(s) => s.clone(),
            _ => self.to_json_string(),
        }
    }
}

/// Writes the elements of an array, separated by commas, after `out`.
fn write_elements(items: &Vec<JsonValue>, out: &mut String)
    ensures
        final(out)@ == old(out)@ + elements_text(models(items@)),
    decreases items, 0nat,
{
    let ghost start = out@;
    let ghost ms = models(items@);
    proof { lemma_models(items@); }
    let mut i: usize = 0;
    while i < items.len()
        invariant
            i <= items@.len(),
            ms == models(items@),
            ms.len() == items@.len(),
            forall|j: int| 0 <= j < items@.len() ==> #[trigger] ms[j] == items@[j].model(),
            out@ == start + elements_text(ms.take(i as int)),
        decreases items@.len() - i,
    {
        proof {
            broadcast use vstd::std_specs::vec::group_vec_axioms;
            assert(decreases_to!(*items => items[i as int]));
        }
        if i > 0 {
            push_char(out, ',');
        }
        items[i].write_json(out);
        proof {
            assert(ms.take(i + 1).drop_last() =~= ms.take(i as int));
            assert(ms.take(i + 1).last() == ms[i as int]);
            if i == 0 {
                assert(ms.take(1)[0] == ms[0]);
            }
        }
        i += 1;
    }
    proof { assert(ms.take(ms.len() as int) =~= ms); }
}

/// Writes the members of an object, separated by commas, after `out`.
fn write_members(members: &Vec<(String, JsonValue)>, out: &mut String)
    ensures
        final(out)@ == old(out)@ + members_text(member_models(members@)),
    decreases members, 0nat,
{
    let ghost start = out@;
    let ghost ms = member_models(members@);
    proof { lemma_member_models(members@); }
    let mut i: usize = 0;
    while i < members.len()
        invariant
            i <= members@.len(),
            ms == member_models(members@),
            ms.len() == members@.len(),
            forall|j: int| 0 <= j < members@.len() ==> #[trigger] ms[j] == (
                members@[j].0@,
                members@[j].1.model(),
            ),
            out@ == start + members_text(ms.take(i as int)),
        decreases members@.len() - i,
    {
        proof {
            broadcast use vstd::std_specs::vec::group_vec_axioms;
            assert(decreases_to!(*members => members[i as int]));
            assert(decreases_to!(members[i as int] => members[i as int].1));
        }
        if i > 0 {
            push_char(out, ',');
        }
        push_quoted(out, members[i].0.as_str());
        push_char(out, ':');
        members[i].1.write_json(out);
        proof {
            assert(ms.take(i + 1).drop_last() =~= ms.take(i as int));
            assert(ms.take(i + 1).last() == ms[i as int]);
            if i == 0 {
                assert(ms.take(1)[0] == ms[0]);
            }
        }
        i += 1;
    }
    proof { assert(ms.take(ms.len() as int) =~= ms); }
}

proof fn lemma_decreases_items(v: &JsonValue)
    requires
        v is Array,
    ensures
        decreases_to!(*v => v->Array_0),
{
}

proof fn lemma_decreases_members(v: &JsonValue)
    requires
        v is Object,
    ensures
        decreases_to!(*v => v->Object_0),
{
}

pub proof fn lemma_decreases_item(v: &JsonValue, i: int)
    requires
        v is Array,
        0 <= i < v->Array_0@.len(),
    ensures
        decreases_to!(*v => v->Array_0@[i]),
{
    broadcast use vstd::std_specs::vec::group_vec_axioms;
    let items = v->Array_0;
    assert(decreases_to!(*v => items));
    assert(decreases_to!(items => items[i]));
}

pub proof fn lemma_decreases_member(v: &JsonValue, i: int)
    requires
        v is Object,
        0 <= i < v->Object_0@.len(),
    ensures
        decreases_to!(*v => v->Object_0@[i].1),
{
    broadcast use vstd::std_specs::vec::group_vec_axioms;
    let members = v->Object_0;
    assert(decreases_to!(*v => members));
    assert(decreases_to!(members => members[i]));
    assert(decreases_to!(members[i] => members[i].1));
}

pub proof fn lemma_digits_prefix_monotone(s: Seq<char>, k: int)
    requires
        0 <= k <= s.len(),
        forall|i: int| 0 <= i < s.len() ==> is_digit(#[trigger] s[i]),
    ensures
        digits_value(s.take(k)) <= digits_value(s),
    decreases s.len(),
{
    if k < s.len() {
        let t = s.drop_last();
        assert forall|i: int| 0 <= i < t.len() implies is_digit(#[trigger] t[i]) by {
            assert(t[i] == s[i]);
        }
        lemma_digits_prefix_monotone(t, k);
        assert(t.take(k) =~= s.take(k));
    } else {
        assert(s.take(k) =~= s);
    }
}

} // verus!
