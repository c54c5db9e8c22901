//! A small JSON document model and a verified printer for it.
//!
//! Values are held as plain Rust data: strings, integers, booleans, arrays
//! and objects (an object keeps its members in insertion order).
//! `print_value` renders a value to JSON text; the spec functions below state
//! the exact character sequence it produces, including string escaping.
use vstd::prelude::*;

verus! {

/// A JSON value as this library models it: signed and unsigned integers but
/// no floating point numbers, and objects as ordered member lists.
pub enum JsonValue {
    Null,
    Bool(bool),
    UInt(u64),
    Int(i64),
    Str(String),
    Arr(Vec<JsonValue>),
    Obj(Vec<(String, JsonValue)>),
}

/// The decimal digit character for `d` (`d < 10`).
pub open spec fn dec_digit(d: nat) -> char {
    if d == 0 {
        '0'
    } else if d == 1 {
        '1'
    } else if d == 2 {
        '2'
    } else if d == 3 {
        '3'
    } else if d == 4 {
        '4'
    } else if d == 5 {
        '5'
    } else if d == 6 {
        '6'
    } else if d == 7 {
        '7'
    } else if d == 8 {
        '8'
    } else {
        '9'
    }
}

/// The decimal representation of `n`, most significant digit first.
pub open spec fn dec_seq(n: nat) -> Seq<char>
    decreases n,
{
    if n < 10 {
        seq![dec_digit(n)]
    } else {
        dec_seq(n / 10) + seq![dec_digit(n % 10)]
    }
}

/// The decimal representation of an integer: a minus sign before the
/// magnitude when `n` is negative.
pub open spec fn int_dec_seq(n: int) -> Seq<char> {
    if n < 0 {
        seq!['-'] + dec_seq((-n) as nat)
    } else {
        dec_seq(n as nat)
    }
}

/// The lowercase hexadecimal digit character for `d` (`d < 16`).
pub open spec fn hex_digit(d: nat) -> char {
    if d < 10 {
        dec_digit(d)
    } else if d == 10 {
        'a'
    } else if d == 11 {
        'b'
    } else if d == 12 {
        'c'
    } else if d == 13 {
        'd'
    } else if d == 14 {
        'e'
    } else {
        'f'
    }
}

/// How one character appears inside a JSON string literal: quote and
/// backslash are escaped, control characters take their short escape or a
/// `\u00xx` escape, and every other character stands as itself.
pub open spec fn esc_char(c: char) -> Seq<char> {
    if c == '"' {
        seq!['\\', '"']
    } else if c == '\\' {
        seq!['\\', '\\']
    } else if c == '\u{8}' {
        seq!['\\', 'b']
    } else if c == '\t' {
        seq!['\\', 't']
    } else if c == '\n' {
        seq!['\\', 'n']
    } else if c == '\u{c}' {
        seq!['\\', 'f']
    } else if c == '\r' {
        seq!['\\', 'r']
    } else if (c as u32) < 0x20 {
        seq!['\\', 'u', '0', '0', hex_digit(((c as u32) / 16) as nat), hex_digit(
            ((c as u32) % 16) as nat,
        )]
    } else {
        seq![c]
    }
}

/// The escaped form of `s` from position `i` on.
pub open spec fn esc_from(s: Seq<char>, i: int) -> Seq<char>
    decreases s.len() - i,
{
    if i < 0 || i >= s.len() {
        Seq::empty()
    } else {
        esc_char(s[i]) + esc_from(s, i + 1)
    }
}

/// A JSON string literal: the escaped characters between double quotes.
pub open spec fn quoted(s: Seq<char>) -> Seq<char> {
    seq!['"'] + esc_from(s, 0) + seq!['"']
}

/// The JSON text of a value.
pub open spec fn printed(v: JsonValue) -> Seq<char>
    decreases v, 0int,
{
    match v {
        JsonValue::Null => seq!['n', 'u', 'l', 'l'],
        JsonValue::Bool(b) => if b {
            seq!['t', 'r', 'u', 'e']
        } else {
            seq!['f', 'a', 'l', 's', 'e']
        },
        JsonValue::UInt(n) => dec_seq(n as nat),
        JsonValue::Int(n) => int_dec_seq(n as int),
        JsonValue::Str(s) => quoted(s@),
        JsonValue::Arr(elems) => seq!['['] + printed_elems(elems@, 0) + seq![']'],
        JsonValue::Obj(members) => seq!['{'] + printed_members(members@, 0) + seq!['}'],
    }
}

/// The comma-separated JSON texts of `elems[i..]`.
pub open spec fn printed_elems(elems: Seq<JsonValue>, i: int) -> Seq<char>
    decreases elems, elems.len() - i,
{
    if i < 0 || i >= elems.len() {
        Seq::empty()
    } else if i == elems.len() - 1 {
        printed(elems[i])
    } else {
        printed(elems[i]) + seq![','] + printed_elems(elems, i + 1)
    }
}

/// The comma-separated `"key":value` texts of `members[i..]`.
pub open spec fn printed_members(members: Seq<(String, JsonValue)>, i: int) -> Seq<char>
    decreases members, members.len() - i,
{
    if i < 0 || i >= members.len() {
        Seq::empty()
    } else if i == members.len() - 1 {
        quoted(members[i].0@) + seq![':'] + printed(members[i].1)
    } else {
        quoted(members[i].0@) + seq![':'] + printed(members[i].1) + seq![','] + printed_members(
            members,
            i + 1,
        )
    }
}

/// Relies on String::push: appends one character at the end.
#[verifier::external_body]
pub(crate) fn push_char(s: &mut String, c: char)
    ensures
        final(s)@ == old(s)@.push(c),
{
    s.push(c);
}

/// The decimal digit character for `d`, as executable code.
fn dec_digit_exec(d: u128) -> (c: char)
    requires
        d < 10,
    ensures
        c == dec_digit(d as nat),
{
    match d {
        0 => '0',
        1 => '1',
        2 => '2',
        3 => '3',
        4 => '4',
        5 => '5',
        6 => '6',
        7 => '7',
        8 => '8',
        _ => '9',
    }
}

/// Renders `n` in decimal.
pub fn u128_to_string(n: u128) -> (s: String)
    ensures
        s@ == dec_seq(n as nat),
    decreases n,
{
    if n < 10 {
        let mut s = String::new();
        let c = dec_digit_exec(n);
        push_char(&mut s, c);
        proof {
            assert(s@ =~= dec_seq(n as nat));
        }
        s
    } else {
        let mut s = u128_to_string(n / 10);
        let c = dec_digit_exec(n % 10);
        push_char(&mut s, c);
        proof {
            assert(s@ =~= dec_seq(n as nat));
        }
        s
    }
}

/// Renders `n` in decimal.
pub fn u64_to_string(n: u64) -> (s: String)
    ensures
        s@ == dec_seq(n as nat),
{
    u128_to_string(n as u128)
}

/// Renders `n` in decimal, minus sign included when negative.
pub fn i64_to_string(n: i64) -> (s: String)
    ensures
        s@ == int_dec_seq(n as int),
{
    if n >= 0 {
        u64_to_string(n as u64)
    } else {
        let m: u64 = if n == i64::MIN {
            9223372036854775808
        } else {
            (-n) as u64
        };
        let mut s = String::new();
        push_char(&mut s, '-');
        let digits = u64_to_string(m);
        s.append(digits.as_str());
        proof {
            assert(m as nat == (-(n as int)) as nat);
            assert(s@ =~= int_dec_seq(n as int));
        }
        s
    }
}

/// Appends the escaped form of `s[i..]` to `out`.
fn esc_append(s: &str, i: usize, out: &mut String)
    requires
        i <= s@.len(),
    ensures
        final(out)@ == old(out)@ + esc_from(s@, i as int),
    decreases s@.len() - i,
{
    if i >= s.unicode_len() {
        proof {
            assert(final(out)@ =~= old(out)@ + esc_from(s@, i as int));
        }
    } else {
        let c = s.get_char(i);
        if c == '"' {
            out.append("\\\"");
            proof {
                reveal_strlit("\\\"");
                assert("\\\""@ =~= esc_char(c));
            }
        } else if c == '\\' {
            out.append("\\\\");
            proof {
                reveal_strlit("\\\\");
                assert("\\\\"@ =~= esc_char(c));
            }
        } else if c == '\u{8}' {
            out.append("\\b");
            proof {
                reveal_strlit("\\b");
                assert("\\b"@ =~= esc_char(c));
            }
        } else if c == '\t' {
            out.append("\\t");
            proof {
                reveal_strlit("\\t");
                assert("\\t"@ =~= esc_char(c));
            }
        } else if c == '\n' {
            out.append("\\n");
            proof {
                reveal_strlit("\\n");
                assert("\\n"@ =~= esc_char(c));
            }
        } else if c == '\u{c}' {
            out.append("\\f");
            proof {
                reveal_strlit("\\f");
                assert("\\f"@ =~= esc_char(c));
            }
        } else if c == '\r' {
            out.append("\\r");
            proof {
                reveal_strlit("\\r");
                assert("\\r"@ =~= esc_char(c));
            }
        } else if (c as u32) < 0x20 {
            out.append("\\u00");
            let code = c as u32;
            let hi = dec_or_hex_digit(code / 16);
            let lo = dec_or_hex_digit(code % 16);
            push_char(out, hi);
            push_char(out, lo);
            proof {
                reveal_strlit("\\u00");
                assert(old(out)@ + "\\u00"@ + seq![hi] + seq![lo] =~= old(out)@ + esc_char(c));
            }
        } else {
            push_char(out, c);
            proof {
                assert(old(out)@.push(c) =~= old(out)@ + esc_char(c));
            }
        }
        esc_append(s, i + 1, out);
        proof {
            assert(final(out)@ =~= old(out)@ + esc_from(s@, i as int));
        }
    }
}

/// The lowercase hexadecimal digit character for `d`, as executable code.
fn dec_or_hex_digit(d: u32) -> (c: char)
    requires
        d < 16,
    ensures
        c == hex_digit(d as nat),
{
    match d {
        0 => '0',
        1 => '1',
        2 => '2',
        3 => '3',
        4 => '4',
        5 => '5',
        6 => '6',
        7 => '7',
        8 => '8',
        9 => '9',
        10 => 'a',
        11 => 'b',
        12 => 'c',
        13 => 'd',
        14 => 'e',
        _ => 'f',
    }
}

/// Appends the JSON string literal for `s` to `out`.
fn quoted_append(s: &str, out: &mut String)
    ensures
        final(out)@ == old(out)@ + quoted(s@),
{
    out.append("\"");
    proof {
        reveal_strlit("\"");
    }
    esc_append(s, 0, out);
    out.append("\"");
    proof {
        reveal_strlit("\"");
        assert(final(out)@ =~= old(out)@ + quoted(s@));
    }
}

/// Appends the JSON text of `v` to `out`.
pub fn print_value_into(v: &JsonValue, out: &mut String)
    ensures
        final(out)@ == old(out)@ + printed(*v),
    decreases *v, 0int,
{
    match v {
        JsonValue::Null => {
            out.append("null");
            proof {
                reveal_strlit("null");
                assert(final(out)@ =~= old(out)@ + printed(*v));
            }
        },
        JsonValue::Bool(b) => {
            if *b {
                out.append("true");
                proof {
                    reveal_strlit("true");
                    assert(final(out)@ =~= old(out)@ + printed(*v));
                }
            } else {
                out.append("false");
                proof {
                    reveal_strlit("false");
                    assert(final(out)@ =~= old(out)@ + printed(*v));
                }
            }
        },
        JsonValue::UInt(n) => {
            let digits = u64_to_string(*n);
            out.append(digits.as_str());
        },
        JsonValue::Int(n) => {
            let digits = i64_to_string(*n);
            out.append(digits.as_str());
        },
        JsonValue::Str(s) => {
            quoted_append(s.as_str(), out);
        },
        JsonValue::Arr(elems) => {
            out.append("[");
            print_elems_into(elems, 0, out);
            out.append("]");
            proof {
                reveal_strlit("[");
                reveal_strlit("]");
                assert(final(out)@ =~= old(out)@ + printed(*v));
            }
        },
        JsonValue::Obj(members) => {
            out.append("{");
            print_members_into(members, 0, out);
            out.append("}");
            proof {
                reveal_strlit("{");
                reveal_strlit("}");
                assert(final(out)@ =~= old(out)@ + printed(*v));
            }
        },
    }
}

/// Appends the comma-separated JSON texts of `elems[i..]` to `out`.
fn print_elems_into(elems: &Vec<JsonValue>, i: usize, out: &mut String)
    ensures
        final(out)@ == old(out)@ + printed_elems(elems@, i as int),
    decreases elems@, elems@.len() - i,
{
    if i >= elems.len() {
        proof {
            assert(final(out)@ =~= old(out)@ + printed_elems(elems@, i as int));
        }
    } else {
        print_value_into(&elems[i], out);
        if i + 1 < elems.len() {
            out.append(",");
            proof {
                reveal_strlit(",");
            }
            print_elems_into(elems, i + 1, out);
            proof {
                assert(final(out)@ =~= old(out)@ + printed_elems(elems@, i as int));
            }
        }
    }
}

/// Appends the comma-separated `"key":value` texts of `members[i..]` to `out`.
fn print_members_into(members: &Vec<(String, JsonValue)>, i: usize, out: &mut String)
    ensures
        final(out)@ == old(out)@ + printed_members(members@, i as int),
    decreases members@, members@.len() - i,
{
    if i >= members.len() {
        proof {
            assert(final(out)@ =~= old(out)@ + printed_members(members@, i as int));
        }
    } else {
        quoted_append(members[i].0.as_str(), out);
        out.append(":");
        proof {
            reveal_strlit(":");
        }
        print_value_into(&members[i].1, out);
        if i + 1 < members.len() {
            out.append(",");
            proof {
                reveal_strlit(",");
            }
            print_members_into(members, i + 1, out);
            proof {
                assert(final(out)@ =~= old(out)@ + printed_members(members@, i as int));
            }
        } else {
            proof {
                assert(final(out)@ =~= old(out)@ + printed_members(members@, i as int));
            }
        }
    }
}

/// Renders `v` as JSON text.
pub fn print_value(v: &JsonValue) -> (s: String)
    ensures
        s@ == printed(*v),
{
    let mut out = String::new();
    print_value_into(v, &mut out);
    out
}

/// Two value lists with pairwise equal JSON texts print alike.
pub proof fn lemma_elems_printed_equal(a: Seq<JsonValue>, b: Seq<JsonValue>, i: int)
    requires
        a.len() == b.len(),
        forall|j: int| 0 <= j < a.len() ==> printed(#[trigger] a[j]) == printed(b[j]),
    ensures
        printed_elems(a, i) == printed_elems(b, i),
    decreases a.len() - i,
{
    if 0 <= i && i < a.len() - 1 {
        lemma_elems_printed_equal(a, b, i + 1);
    }
}

/// Two member lists with pairwise equal keys and value texts print alike.
pub proof fn lemma_members_printed_equal(
    a: Seq<(String, JsonValue)>,
    b: Seq<(String, JsonValue)>,
    i: int,
)
    requires
        a.len() == b.len(),
        forall|j: int|
            0 <= j < a.len() ==> (#[trigger] a[j]).0@ == b[j].0@ && printed(a[j].1) == printed(
                b[j].1,
            ),
    ensures
        printed_members(a, i) == printed_members(b, i),
    decreases a.len() - i,
{
    if 0 <= i && i < a.len() - 1 {
        lemma_members_printed_equal(a, b, i + 1);
    }
}

impl JsonValue {
    /// A copy of the value that prints to the same JSON text.
    pub fn deep_clone(&self) -> (r: JsonValue)
        ensures
            printed(r) == printed(*self),
        decreases *self, 0int,
    {
        match self {
            JsonValue::Null => JsonValue::Null,
            JsonValue::Bool(b) => JsonValue::Bool(*b),
            JsonValue::UInt(n) => JsonValue::UInt(*n),
            JsonValue::Int(n) => JsonValue::Int(*n),
            JsonValue::Str(s) => JsonValue::Str(s.clone()),
            JsonValue::Arr(elems) => {
                let mut out: Vec<JsonValue> = Vec::new();
                clone_values_into(elems, 0, &mut out);
                proof {
                    lemma_elems_printed_equal(out@, elems@, 0);
                }
                JsonValue::Arr(out)
            },
            JsonValue::Obj(members) => {
                let mut out: Vec<(String, JsonValue)> = Vec::new();
                clone_members_into(members, 0, &mut out);
                proof {
                    lemma_members_printed_equal(out@, members@, 0);
                }
                JsonValue::Obj(out)
            },
        }
    }
}

/// Appends copies of `elems[i..]` to `out`, preserving each value's text.
fn clone_values_into(elems: &Vec<JsonValue>, i: usize, out: &mut Vec<JsonValue>)
    requires
        i <= elems@.len(),
    ensures
        final(out)@.len() == old(out)@.len() + elems@.len() - i,
        forall|j: int| 0 <= j < old(out)@.len() ==> #[trigger] final(out)@[j] == old(out)@[j],
        forall|j: int|
            old(out)@.len() <= j < final(out)@.len() ==> printed(#[trigger] final(out)@[j])
                == printed(elems@[i + j - old(out)@.len()]),
    decreases elems@, elems@.len() - i,
{
    if i < elems.len() {
        let c = elems[i].deep_clone();
        out.push(c);
        clone_values_into(elems, i + 1, out);
    }
}

/// Appends copies of the members `members[i..]` to `out`, preserving each
/// member's key and value text.
fn clone_members_into(
    members: &Vec<(String, JsonValue)>,
    i: usize,
    out: &mut Vec<(String, JsonValue)>,
)
    requires
        i <= members@.len(),
    ensures
        final(out)@.len() == old(out)@.len() + members@.len() - i,
        forall|j: int| 0 <= j < old(out)@.len() ==> #[trigger] final(out)@[j] == old(out)@[j],
        forall|j: int|
            old(out)@.len() <= j < final(out)@.len() ==> (#[trigger] final(out)@[j]).0@
                == members@[i + j - old(out)@.len()].0@ && printed(final(out)@[j].1) == printed(
                members@[i + j - old(out)@.len()].1,
            ),
    decreases members@, members@.len() - i,
{
    if i < members.len() {
        let k = members[i].0.clone();
        let v = members[i].1.deep_clone();
        out.push((k, v));
        clone_members_into(members, i + 1, out);
    }
}

/// A copy of a member list with the same keys and value texts.
pub fn clone_members(members: &Vec<(String, JsonValue)>) -> (r: Vec<(String, JsonValue)>)
    ensures
        r@.len() == members@.len(),
        forall|j: int|
            0 <= j < members@.len() ==> (#[trigger] r@[j]).0@ == members@[j].0@ && printed(r@[j].1)
                == printed(members@[j].1),
{
    let mut out: Vec<(String, JsonValue)> = Vec::new();
    clone_members_into(members, 0, &mut out);
    out
}

} // verus!
