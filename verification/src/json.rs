//! What a JSON reader makes of a text: the values of RFC 8259 and a reader
//! for them, used to state what the protocol's messages mean.

use vstd::prelude::*;

use crate::host::{
    decimal, json_bool, lemma_decimal_is_json_number,
    escape_char, json_escaped, lemma_escaped_concat, lemma_hex_digit_value, unicode_escape,
};

verus! {

/// A JSON value.
pub enum Json {
    Null,
    Bool(bool),
    /// A number, by its text.
    Number(Seq<char>),
    Str(Seq<char>),
    Array(Seq<Json>),
    /// The members in the order they are written.
    Object(Seq<(Seq<char>, Json)>),
}

/// Insignificant whitespace between JSON tokens.
pub open spec fn is_ws(c: char) -> bool {
    c == ' ' || c == '\t' || c == '\n' || c == '\r'
}

/// `t` after its leading whitespace.
pub open spec fn skip_ws(t: Seq<char>) -> Seq<char>
    decreases t.len(),
{
    if t.len() > 0 && is_ws(t[0]) {
        skip_ws(t.skip(1))
    } else {
        t
    }
}

pub proof fn lemma_skip_ws_len(t: Seq<char>)
    ensures
        skip_ws(t).len() <= t.len(),
    decreases t.len(),
{
    if t.len() > 0 && is_ws(t[0]) {
        lemma_skip_ws_len(t.skip(1));
    }
}

/// The character a one-letter escape after a backslash stands for.
pub open spec fn simple_escape(e: char) -> Option<char> {
    if e == '"' || e == '\\' || e == '/' {
        Some(e)
    } else if e == 'n' {
        Some('\n')
    } else if e == 'r' {
        Some('\r')
    } else if e == 't' {
        Some('\t')
    } else if e == 'b' {
        Some('\u{8}')
    } else if e == 'f' {
        Some('\u{c}')
    } else {
        None
    }
}

/// `c` in front of the text read, where there is one.
pub open spec fn prepend_read(c: char, o: Option<(Seq<char>, Seq<char>)>) -> Option<
    (Seq<char>, Seq<char>),
> {
    match o {
        Some((x, r)) => Some((seq![c] + x, r)),
        None => None,
    }
}

/// Reads the body of a string up to its closing quote: the characters it
/// stands for and the text after the quote; `None` where a bare control
/// character, a malformed escape or the end of the text comes first.
/// Surrogate pairs are not read.
pub open spec fn read_string_body(t: Seq<char>) -> Option<(Seq<char>, Seq<char>)>
    decreases t.len(),
{
    if t.len() == 0 {
        None
    } else if t[0] == '"' {
        Some((seq![], t.skip(1)))
    } else if t[0] == '\\' {
        if t.len() < 2 {
            None
        } else if simple_escape(t[1]) is Some {
            prepend_read(simple_escape(t[1])->0, read_string_body(t.skip(2)))
        } else if t[1] == 'u' && t.len() >= 6 && unicode_escape(t) is Some {
            prepend_read(unicode_escape(t)->0, read_string_body(t.skip(6)))
        } else {
            None
        }
    } else if (t[0] as int) < 0x20 {
        None
    } else {
        prepend_read(t[0], read_string_body(t.skip(1)))
    }
}

pub proof fn lemma_read_string_shorter(t: Seq<char>)
    ensures
        read_string_body(t) matches Some((_, r)) ==> r.len() < t.len(),
    decreases t.len(),
{
    if t.len() > 0 && t[0] != '"' {
        if t[0] == '\\' {
            if t.len() >= 2 {
                lemma_read_string_shorter(t.skip(2));
                if t.len() >= 6 {
                    lemma_read_string_shorter(t.skip(6));
                }
            }
        } else {
            lemma_read_string_shorter(t.skip(1));
        }
    }
}

proof fn lemma_read_escape_char(c: char, rest: Seq<char>)
    ensures
        read_string_body(escape_char(c) + rest) == prepend_read(c, read_string_body(rest)),
{
    let t = escape_char(c) + rest;
    if c == '"' || c == '\\' || c == '\n' || c == '\r' || c == '\t' {
        assert(t.skip(2) =~= rest);
    } else if (c as int) < 0x20 {
        let v = c as int;
        lemma_hex_digit_value(v / 16);
        lemma_hex_digit_value(v % 16);
        assert(t[2] == '0' && t[3] == '0');
        assert(unicode_escape(t) == Some(c));
        assert(t.skip(6) =~= rest);
    } else {
        assert(t.skip(1) =~= rest);
    }
}

/// The reader gets back exactly the string that was escaped, and stops
/// right after the closing quote.
pub proof fn lemma_read_escaped(s: Seq<char>, rest: Seq<char>)
    ensures
        read_string_body(json_escaped(s) + seq!['"'] + rest) == Some((s, rest)),
    decreases s.len(),
{
    if s.len() == 0 {
        assert(json_escaped(s) + seq!['"'] + rest =~= seq!['"'] + rest);
        assert((seq!['"'] + rest).skip(1) =~= rest);
    } else {
        let tail = s.skip(1);
        let one = seq![s[0]];
        assert(s =~= one + tail);
        lemma_escaped_concat(one, tail);
        assert(one.drop_last() =~= Seq::<char>::empty());
        assert(json_escaped(one.drop_last()) =~= Seq::<char>::empty());
        assert(json_escaped(one) =~= escape_char(s[0]));
        assert(json_escaped(s) + seq!['"'] + rest =~= escape_char(s[0]) + (json_escaped(tail)
            + seq!['"'] + rest));
        lemma_read_escape_char(s[0], json_escaped(tail) + seq!['"'] + rest);
        lemma_read_escaped(tail, rest);
        assert(seq![s[0]] + tail =~= s);
    }
}

/// A decimal digit character.
pub open spec fn is_digit(c: char) -> bool {
    48 <= (c as int) <= 57
}

/// The number of decimal digits at the front of `t`.
pub open spec fn digits_len(t: Seq<char>) -> int
    decreases t.len(),
{
    if t.len() > 0 && is_digit(t[0]) {
        1 + digits_len(t.skip(1))
    } else {
        0
    }
}

/// Reads a number at the front of `t`: an optional minus, an integer part
/// without leading zeros, an optional fraction and an optional exponent.
/// Gives the number's text and what follows it.
pub open spec fn read_number(t: Seq<char>) -> Option<(Seq<char>, Seq<char>)> {
    let a: int = if t.len() > 0 && t[0] == '-' {
        1
    } else {
        0
    };
    let i = digits_len(t.skip(a));
    if i <= 0 || (i > 1 && t[a] == '0') {
        None
    } else {
        let b = a + i;
        let c: int = if b < t.len() && t[b] == '.' {
            if digits_len(t.skip(b + 1)) <= 0 {
                -1
            } else {
                b + 1 + digits_len(t.skip(b + 1))
            }
        } else {
            b
        };
        if c < 0 {
            None
        } else {
            let sign: int = if c + 1 < t.len() && (t[c + 1] == '+' || t[c + 1] == '-') {
                1
            } else {
                0
            };
            let d: int = if c < t.len() && (t[c] == 'e' || t[c] == 'E') {
                if digits_len(t.skip(c + 1 + sign)) <= 0 {
                    -1
                } else {
                    c + 1 + sign + digits_len(t.skip(c + 1 + sign))
                }
            } else {
                c
            };
            if d < 0 {
                None
            } else {
                Some((t.take(d), t.skip(d)))
            }
        }
    }
}

/// Reads one JSON value at the front of `t`, after any whitespace: the value
/// and the text after it.
pub open spec fn parse_value(t: Seq<char>) -> Option<(Json, Seq<char>)>
    decreases t.len(), 0int,
{
    let u = skip_ws(t);
    proof {
        lemma_skip_ws_len(t);
    }
    if u.len() == 0 {
        None
    } else if u[0] == '"' {
        match read_string_body(u.skip(1)) {
            Some((s, r)) => Some((Json::Str(s), r)),
            None => None,
        }
    } else if u[0] == '{' {
        parse_members(u.skip(1), seq![])
    } else if u[0] == '[' {
        parse_elements(u.skip(1), seq![])
    } else if u.len() >= 4 && u.take(4) == "true"@ {
        Some((Json::Bool(true), u.skip(4)))
    } else if u.len() >= 5 && u.take(5) == "false"@ {
        Some((Json::Bool(false), u.skip(5)))
    } else if u.len() >= 4 && u.take(4) == "null"@ {
        Some((Json::Null, u.skip(4)))
    } else {
        match read_number(u) {
            Some((n, r)) => Some((Json::Number(n), r)),
            None => None,
        }
    }
}

/// Reads the members of an object after its opening brace (`acc` holds the
/// members read so far) through its closing brace.
pub open spec fn parse_members(t: Seq<char>, acc: Seq<(Seq<char>, Json)>) -> Option<
    (Json, Seq<char>),
>
    decreases t.len(), 1int,
{
    let u = skip_ws(t);
    proof {
        lemma_skip_ws_len(t);
    }
    if u.len() == 0 {
        None
    } else if u[0] == '}' && acc.len() == 0 {
        Some((Json::Object(acc), u.skip(1)))
    } else if u[0] != '"' {
        None
    } else {
        match read_string_body(u.skip(1)) {
            None => None,
            Some((k, r1)) => {
                proof {
                    lemma_read_string_shorter(u.skip(1));
                    lemma_skip_ws_len(r1);
                }
                let r2 = skip_ws(r1);
                if r2.len() == 0 || r2[0] != ':' {
                    None
                } else {
                    match parse_value(r2.skip(1)) {
                        None => None,
                        Some((v, r3)) => {
                            let r4 = skip_ws(r3);
                            let acc2 = acc.push((k, v));
                            if r4.len() == 0 {
                                None
                            } else if r4[0] == '}' {
                                Some((Json::Object(acc2), r4.skip(1)))
                            } else if r4[0] == ',' && r4.len() <= t.len() {
                                parse_members(r4.skip(1), acc2)
                            } else {
                                None
                            }
                        },
                    }
                }
            },
        }
    }
}

/// Reads the elements of an array after its opening bracket (`acc` holds
/// the elements read so far) through its closing bracket.
pub open spec fn parse_elements(t: Seq<char>, acc: Seq<Json>) -> Option<(Json, Seq<char>)>
    decreases t.len(), 1int,
{
    let u = skip_ws(t);
    if u.len() > 0 && u[0] == ']' && acc.len() == 0 {
        Some((Json::Array(acc), u.skip(1)))
    } else {
        match parse_value(t) {
            None => None,
            Some((v, r)) => {
                let r2 = skip_ws(r);
                let acc2 = acc.push(v);
                if r2.len() == 0 {
                    None
                } else if r2[0] == ']' {
                    Some((Json::Array(acc2), r2.skip(1)))
                } else if r2[0] == ',' && r2.len() <= t.len() {
                    parse_elements(r2.skip(1), acc2)
                } else {
                    None
                }
            },
        }
    }
}

/// The value a whole JSON text stands for, with nothing but whitespace
/// after it.
pub open spec fn parse_json(t: Seq<char>) -> Option<Json> {
    match parse_value(t) {
        Some((v, r)) => if skip_ws(r).len() == 0 {
            Some(v)
        } else {
            None
        },
        None => None,
    }
}

/// The text of a JSON string holding `s`.
pub open spec fn str_text(s: Seq<char>) -> Seq<char> {
    seq!['"'] + json_escaped(s) + seq!['"']
}

/// The text of one object member: its key, a colon and its value's text.
pub open spec fn member_text(key: Seq<char>, value: Seq<char>) -> Seq<char> {
    str_text(key) + seq![':'] + value
}

/// The texts of members, separated by commas.
pub open spec fn members_text(ms: Seq<(Seq<char>, Seq<char>)>) -> Seq<char>
    decreases ms.len(),
{
    if ms.len() == 0 {
        seq![]
    } else if ms.len() == 1 {
        member_text(ms[0].0, ms[0].1)
    } else {
        member_text(ms[0].0, ms[0].1) + seq![','] + members_text(ms.skip(1))
    }
}

/// The text of an object with the given members (keys and value texts).
pub open spec fn object_text(ms: Seq<(Seq<char>, Seq<char>)>) -> Seq<char> {
    seq!['{'] + members_text(ms) + seq!['}']
}

/// What may follow a value inside an object: a comma or the closing brace.
pub open spec fn ends_member(r: Seq<char>) -> bool {
    r.len() > 0 && (r[0] == ',' || r[0] == '}')
}

/// `vt` is the text of the single value `v`: read in front of a comma or a
/// closing brace, the reader takes all of it (but trailing whitespace) and
/// gives `v`.
pub open spec fn value_text_of(vt: Seq<char>, v: Json) -> bool {
    forall|r: Seq<char>|
        ends_member(r) ==> {
            &&& #[trigger] parse_value(vt + r) matches Some((w, rest))
            &&& w == v
            &&& skip_ws(rest) == r
        }
}

/// The members read from `ms` when each value text reads as the value with
/// the same index.
pub open spec fn read_members(ms: Seq<(Seq<char>, Seq<char>)>, vals: Seq<Json>) -> Seq<
    (Seq<char>, Json),
> {
    Seq::new(ms.len(), |i: int| (ms[i].0, vals[i]))
}

proof fn lemma_parse_members(
    ms: Seq<(Seq<char>, Seq<char>)>,
    vals: Seq<Json>,
    acc: Seq<(Seq<char>, Json)>,
    rest: Seq<char>,
)
    requires
        ms.len() >= 1,
        vals.len() == ms.len(),
        forall|i: int| 0 <= i < ms.len() ==> value_text_of(#[trigger] ms[i].1, vals[i]),
    ensures
        parse_members(members_text(ms) + seq!['}'] + rest, acc) == Some(
            (Json::Object(acc + read_members(ms, vals)), rest),
        ),
    decreases ms.len(),
{
    let t = members_text(ms) + seq!['}'] + rest;
    let k = ms[0].0;
    let vt = ms[0].1;
    let after: Seq<char> = if ms.len() == 1 {
        seq!['}'] + rest
    } else {
        seq![','] + members_text(ms.skip(1)) + seq!['}'] + rest
    };
    assert(t =~= seq!['"'] + (json_escaped(k) + seq!['"'] + (seq![':'] + vt + after)));
    assert(skip_ws(t) == t);
    assert(t.skip(1) =~= json_escaped(k) + seq!['"'] + (seq![':'] + vt + after));
    lemma_read_escaped(k, seq![':'] + vt + after);
    let r1 = seq![':'] + vt + after;
    assert(skip_ws(r1) == r1);
    assert(r1.skip(1) =~= vt + after);
    assert(ends_member(after));
    assert(value_text_of(ms[0].1, vals[0]));
    assert(parse_value(vt + after) matches Some((w, r3)) && w == vals[0] && skip_ws(r3) == after);
    let acc2 = acc.push((k, vals[0]));
    if ms.len() == 1 {
        assert(after.skip(1) =~= rest);
        assert(acc2 =~= acc + read_members(ms, vals));
    } else {
        let ms2 = ms.skip(1);
        let vals2 = vals.skip(1);
        assert forall|i: int| 0 <= i < ms2.len() implies value_text_of(#[trigger] ms2[i].1, vals2[i]) by {
            assert(ms2[i] == ms[i + 1]);
            assert(value_text_of(ms[i + 1].1, vals[i + 1]));
        }
        lemma_parse_members(ms2, vals2, acc2, rest);
        assert(after.skip(1) =~= members_text(ms2) + seq!['}'] + rest);
        assert(after.len() <= t.len());
        assert(acc2 + read_members(ms2, vals2) =~= acc + read_members(ms, vals));
    }
}

/// An object written member by member reads back as the object with those
/// keys, in order, and the values their texts stand for.
pub proof fn lemma_object_text(ms: Seq<(Seq<char>, Seq<char>)>, vals: Seq<Json>)
    requires
        ms.len() >= 1,
        vals.len() == ms.len(),
        forall|i: int| 0 <= i < ms.len() ==> value_text_of(#[trigger] ms[i].1, vals[i]),
    ensures
        parse_json(object_text(ms)) == Some(Json::Object(read_members(ms, vals))),
{
    let t = object_text(ms);
    assert(skip_ws(t) == t);
    assert(t.skip(1) =~= members_text(ms) + seq!['}'] + Seq::<char>::empty());
    lemma_parse_members(ms, vals, seq![], Seq::<char>::empty());
    assert(Seq::<(Seq<char>, Json)>::empty() + read_members(ms, vals) =~= read_members(ms, vals));
}

/// A string's text stands for that string.
pub proof fn lemma_str_value(s: Seq<char>)
    ensures
        value_text_of(str_text(s), Json::Str(s)),
{
    assert forall|r: Seq<char>| ends_member(r) implies #[trigger] parse_value(str_text(s) + r)
        == Some((Json::Str(s), r)) by {
        let t = str_text(s) + r;
        assert(skip_ws(t) == t);
        assert(t.skip(1) =~= json_escaped(s) + seq!['"'] + r);
        lemma_read_escaped(s, r);
    }
}

proof fn lemma_digits_len(s: Seq<char>, r: Seq<char>)
    requires
        forall|i: int| 0 <= i < s.len() ==> is_digit(#[trigger] s[i]),
        ends_member(r),
    ensures
        digits_len(s + r) == s.len(),
    decreases s.len(),
{
    if s.len() == 0 {
        assert(s + r =~= r);
    } else {
        assert((s + r).skip(1) =~= s.skip(1) + r);
        lemma_digits_len(s.skip(1), r);
    }
}

/// The decimal digits of `n` stand for the number they spell.
pub proof fn lemma_decimal_value(n: nat)
    ensures
        value_text_of(decimal(n), Json::Number(decimal(n))),
{
    reveal_strlit("true");
    reveal_strlit("false");
    reveal_strlit("null");
    lemma_decimal_is_json_number(n);
    let d = decimal(n);
    assert forall|r: Seq<char>| ends_member(r) implies #[trigger] parse_value(d + r) == Some(
        (Json::Number(d), r),
    ) by {
        let t = d + r;
        assert(is_digit(d[0]));
        assert(t[0] == d[0]);
        assert(skip_ws(t) == t);
        assert(forall|i: int| 0 <= i < d.len() ==> is_digit(#[trigger] d[i]));
        lemma_digits_len(d, r);
        assert(t.skip(0) =~= t);
        if n == 0 {
            assert(d.len() == 1);
        }
        assert(t[d.len() as int] == r[0]);
        assert(t.take(d.len() as int) =~= d);
        assert(t.skip(d.len() as int) =~= r);
        if t.len() >= 4 {
            assert(t.take(4)[0] == d[0]);
        }
        if t.len() >= 5 {
            assert(t.take(5)[0] == d[0]);
        }
    }
}

/// `true` and `false` stand for themselves.
pub proof fn lemma_bool_value(b: bool)
    ensures
        value_text_of(json_bool(b), Json::Bool(b)),
{
    reveal_strlit("true");
    reveal_strlit("false");
    assert forall|r: Seq<char>| ends_member(r) implies #[trigger] parse_value(json_bool(b) + r)
        == Some((Json::Bool(b), r)) by {
        let t = json_bool(b) + r;
        assert(skip_ws(t) == t);
        if b {
            assert(t.take(4) =~= "true"@);
            assert(t.skip(4) =~= r);
        } else {
            assert(t.take(4)[0] == 'f');
            assert(t.take(5) =~= "false"@);
            assert(t.skip(5) =~= r);
        }
    }
}

/// What may follow a number without continuing it: nothing, or anything but
/// a digit, a decimal point or an exponent mark.
pub open spec fn ends_number(x: Seq<char>) -> bool {
    x.len() == 0 || !(is_digit(x[0]) || x[0] == '.' || x[0] == 'e' || x[0] == 'E')
}

proof fn lemma_skip_ws_ext(t: Seq<char>, x: Seq<char>)
    ensures
        skip_ws(t).len() > 0 ==> skip_ws(t + x) == skip_ws(t) + x,
        skip_ws(t).len() == 0 ==> skip_ws(t + x) == skip_ws(x),
    decreases t.len(),
{
    if t.len() == 0 {
        assert(t + x =~= x);
    } else if is_ws(t[0]) {
        lemma_skip_ws_ext(t.skip(1), x);
        assert((t + x).skip(1) =~= t.skip(1) + x);
    } else {
        assert((t + x)[0] == t[0]);
    }
}

proof fn lemma_read_string_ext(t: Seq<char>, x: Seq<char>)
    ensures
        read_string_body(t) matches Some((s, r)) ==> read_string_body(t + x) == Some((s, r + x)),
    decreases t.len(),
{
    if t.len() > 0 {
        let t2 = t + x;
        assert(t2[0] == t[0]);
        if t[0] == '"' {
            assert(t2.skip(1) =~= t.skip(1) + x);
        } else if t[0] == '\\' {
            if t.len() >= 2 {
                assert(t2[1] == t[1]);
                assert(t2.skip(2) =~= t.skip(2) + x);
                lemma_read_string_ext(t.skip(2), x);
                if t.len() >= 6 {
                    assert(t2[2] == t[2] && t2[3] == t[3] && t2[4] == t[4] && t2[5] == t[5]);
                    assert(unicode_escape(t2) == unicode_escape(t));
                    assert(t2.skip(6) =~= t.skip(6) + x);
                    lemma_read_string_ext(t.skip(6), x);
                }
            }
        } else {
            assert(t2.skip(1) =~= t.skip(1) + x);
            lemma_read_string_ext(t.skip(1), x);
        }
    }
}

proof fn lemma_digits_bound(s: Seq<char>)
    ensures
        0 <= digits_len(s) <= s.len(),
    decreases s.len(),
{
    if s.len() > 0 && is_digit(s[0]) {
        lemma_digits_bound(s.skip(1));
    }
}

proof fn lemma_digits_ext(s: Seq<char>, x: Seq<char>)
    requires
        digits_len(s) < s.len() || x.len() == 0 || !is_digit(x[0]),
    ensures
        digits_len(s + x) == digits_len(s),
    decreases s.len(),
{
    lemma_digits_bound(s);
    if s.len() == 0 {
        assert(s + x =~= x);
    } else {
        assert((s + x)[0] == s[0]);
        if is_digit(s[0]) {
            assert((s + x).skip(1) =~= s.skip(1) + x);
            lemma_digits_ext(s.skip(1), x);
        }
    }
}

proof fn lemma_read_number_ext(t: Seq<char>, x: Seq<char>)
    requires
        read_number(t) matches Some((n, r)) && (r.len() > 0 || ends_number(x)),
    ensures
        read_number(t + x) == Some((read_number(t).unwrap().0, read_number(t).unwrap().1 + x)),
{
    let t2 = t + x;
    let a: int = if t.len() > 0 && t[0] == '-' {
        1
    } else {
        0
    };
    assert(t.len() > 0) by {
        if t.len() == 0 {
            assert(digits_len(t.skip(0)) == 0);
        }
    }
    assert(t2[0] == t[0]);
    assert(t2.skip(a) =~= t.skip(a) + x);
    lemma_digits_bound(t.skip(a));
    let i = digits_len(t.skip(a));
    let b = a + i;
    if b < t.len() {
        lemma_digits_ext(t.skip(a), x);
        assert(t2[b] == t[b]);
        if t[b] == '.' {
            assert(t2.skip(b + 1) =~= t.skip(b + 1) + x);
            lemma_digits_bound(t.skip(b + 1));
            if b + 1 + digits_len(t.skip(b + 1)) < t.len() {
                lemma_digits_ext(t.skip(b + 1), x);
            } else {
                lemma_digits_ext(t.skip(b + 1), x);
            }
        }
    } else {
        lemma_digits_ext(t.skip(a), x);
    }
    assert(t2[a] == t[a]);
    let c: int = if b < t.len() && t[b] == '.' {
        if digits_len(t.skip(b + 1)) <= 0 {
            -1
        } else {
            b + 1 + digits_len(t.skip(b + 1))
        }
    } else {
        b
    };
    if c < t.len() {
        assert(t2[c] == t[c]);
        if t[c] == 'e' || t[c] == 'E' {
            if c + 1 < t.len() {
                assert(t2[c + 1] == t[c + 1]);
                let sign: int = if t[c + 1] == '+' || t[c + 1] == '-' {
                    1
                } else {
                    0
                };
                assert(t2.skip(c + 1 + sign) =~= t.skip(c + 1 + sign) + x);
                lemma_digits_bound(t.skip(c + 1 + sign));
                lemma_digits_ext(t.skip(c + 1 + sign), x);
            } else {
                assert(t.skip(c + 1) =~= Seq::<char>::empty());
            }
        }
    }
    let n = read_number(t).unwrap().0;
    let r = read_number(t).unwrap().1;
    assert(t2.take(n.len() as int) =~= n);
    assert(t2.skip(n.len() as int) =~= r + x);
}

proof fn lemma_value_ext(t: Seq<char>, x: Seq<char>)
    requires
        parse_value(t) matches Some((v, r)) && (r.len() > 0 || ends_number(x)),
    ensures
        parse_value(t + x) == Some((parse_value(t).unwrap().0, parse_value(t).unwrap().1 + x)),
    decreases t.len(), 0int,
{
    reveal_strlit("true");
    reveal_strlit("false");
    reveal_strlit("null");
    lemma_skip_ws_ext(t, x);
    lemma_skip_ws_len(t);
    let u = skip_ws(t);
    let u2 = u + x;
    assert(u.len() > 0);
    assert(skip_ws(t + x) == u2);
    assert(u2[0] == u[0]);
    assert(u2.skip(1) =~= u.skip(1) + x);
    if u[0] == '"' {
        lemma_read_string_ext(u.skip(1), x);
    } else if u[0] == '{' {
        lemma_members_ext(u.skip(1), seq![], x);
    } else if u[0] == '[' {
        lemma_elements_ext(u.skip(1), seq![], x);
    } else {
        if u.len() >= 4 {
            assert(u2.take(4) =~= u.take(4));
            assert(u2.skip(4) =~= u.skip(4) + x);
        }
        if u.len() >= 5 {
            assert(u2.take(5) =~= u.take(5));
            assert(u2.skip(5) =~= u.skip(5) + x);
        }
        if u.len() < 5 {
            // A literal that the text cuts short reads as no number either.
            assert(digits_len(u.skip(if u[0] == '-' { 1int } else { 0int })) == 0 || !(u[0] == 't'
                || u[0] == 'f' || u[0] == 'n'));
        }
        if !(u.len() >= 4 && u.take(4) == "true"@) && !(u.len() >= 5 && u.take(5) == "false"@)
            && !(u.len() >= 4 && u.take(4) == "null"@) {
            lemma_read_number_ext(u, x);
        }
    }
}

proof fn lemma_members_ext(t: Seq<char>, acc: Seq<(Seq<char>, Json)>, x: Seq<char>)
    requires
        parse_members(t, acc) is Some,
    ensures
        parse_members(t + x, acc) == Some(
            (parse_members(t, acc).unwrap().0, parse_members(t, acc).unwrap().1 + x),
        ),
    decreases t.len(), 1int,
{
    lemma_skip_ws_ext(t, x);
    lemma_skip_ws_len(t);
    let u = skip_ws(t);
    let u2 = u + x;
    assert(u.len() > 0);
    assert(skip_ws(t + x) == u2);
    assert(u2[0] == u[0]);
    assert(u2.skip(1) =~= u.skip(1) + x);
    if u[0] == '}' && acc.len() == 0 {
    } else {
        lemma_read_string_ext(u.skip(1), x);
        lemma_read_string_shorter(u.skip(1));
        let k = read_string_body(u.skip(1)).unwrap().0;
        let r1 = read_string_body(u.skip(1)).unwrap().1;
        lemma_skip_ws_ext(r1, x);
        lemma_skip_ws_len(r1);
        let r2 = skip_ws(r1);
        assert(skip_ws(r1 + x) == r2 + x);
        assert((r2 + x)[0] == r2[0]);
        assert((r2 + x).skip(1) =~= r2.skip(1) + x);
        let v = parse_value(r2.skip(1)).unwrap().0;
        let r3 = parse_value(r2.skip(1)).unwrap().1;
        lemma_skip_ws_ext(r3, x);
        assert(skip_ws(r3).len() > 0);
        assert(r3.len() > 0) by {
            if r3.len() == 0 {
                assert(skip_ws(r3) == r3);
            }
        }
        lemma_value_ext(r2.skip(1), x);
        let r4 = skip_ws(r3);
        assert(skip_ws(r3 + x) == r4 + x);
        assert((r4 + x)[0] == r4[0]);
        assert((r4 + x).skip(1) =~= r4.skip(1) + x);
        if r4[0] == ',' && r4[0] != '}' {
            lemma_members_ext(r4.skip(1), acc.push((k, v)), x);
        }
    }
}

proof fn lemma_elements_ext(t: Seq<char>, acc: Seq<Json>, x: Seq<char>)
    requires
        parse_elements(t, acc) is Some,
    ensures
        parse_elements(t + x, acc) == Some(
            (parse_elements(t, acc).unwrap().0, parse_elements(t, acc).unwrap().1 + x),
        ),
    decreases t.len(), 1int,
{
    lemma_skip_ws_ext(t, x);
    let u = skip_ws(t);
    if u.len() > 0 && u[0] == ']' && acc.len() == 0 {
        assert(skip_ws(t + x) == u + x);
        assert((u + x)[0] == u[0]);
        assert((u + x).skip(1) =~= u.skip(1) + x);
    } else {
        if u.len() > 0 {
            assert(skip_ws(t + x) == u + x);
            assert((u + x)[0] == u[0]);
        }
        let v = parse_value(t).unwrap().0;
        let r = parse_value(t).unwrap().1;
        lemma_skip_ws_ext(r, x);
        assert(skip_ws(r).len() > 0);
        assert(r.len() > 0) by {
            if r.len() == 0 {
                assert(skip_ws(r) == r);
            }
        }
        lemma_value_ext(t, x);
        let r2 = skip_ws(r);
        assert(skip_ws(r + x) == r2 + x);
        assert((r2 + x)[0] == r2[0]);
        assert((r2 + x).skip(1) =~= r2.skip(1) + x);
        if r2[0] == ',' && r2[0] != ']' {
            lemma_elements_ext(r2.skip(1), acc.push(v), x);
        }
    }
}

/// A whole JSON text of one value is the text of that value wherever it
/// stands in front of a comma or a closing brace.
pub proof fn lemma_json_value_text(d: Seq<char>, v: Json)
    requires
        parse_json(d) == Some(v),
    ensures
        value_text_of(d, v),
{
    let r0 = parse_value(d).unwrap().1;
    assert forall|r: Seq<char>| ends_member(r) implies {
        &&& #[trigger] parse_value(d + r) matches Some((w, rest))
        &&& w == v
        &&& skip_ws(rest) == r
    } by {
        assert(!is_digit(r[0]));
        lemma_value_ext(d, r);
        lemma_skip_ws_ext(r0, r);
        assert(skip_ws(r) == r);
    }
}

} // verus!
