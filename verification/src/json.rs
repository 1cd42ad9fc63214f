//! The structured JSON value model and its canonical textual form.
//!
//! The engine carries JSON parameters and columns as [`JsonValue`] trees
//! (mappings, ordered sequences, scalars).  The canonical text of a tree
//! is defined by the spec function [`json_chars`]; the executable printer
//! is proved to produce exactly that text.  The reader treats whitespace
//! outside string literals as insignificant and accepts exactly the
//! canonical text of what remains, which covers the formatted output a
//! database server sends; it is proved sound against the canonical form
//! and exercised as the printer's inverse.

use vstd::prelude::*;
use crate::strutil::{
    all_digits, dec_digits, dec_val, is_digit_char, lemma_dec_digits_are_digits,
    lemma_dec_digits_first, lemma_dec_digits_len, lemma_dec_val_mono, lemma_dec_val_of_digits,
    lemma_dec_val_step, push_char, push_dec,
};

verus! {

/// A structured JSON value: mappings with ordered keys, ordered
/// sequences, and scalars.  Numbers are 64-bit signed integers.
#[derive(Debug)]
pub enum JsonValue {
    Null,
    Bool(bool),
    Int(i64),
    Str(String),
    Arr(Vec<JsonValue>),
    Obj(Vec<(String, JsonValue)>),
}

/// The hexadecimal digit character for `0 <= d < 16` (lower case).
pub open spec fn hex_char(d: int) -> char {
    if d < 10 {
        ((48 + d) as u8) as char
    } else {
        ((87 + d) as u8) as char
    }
}

/// The escaped form of one character inside a JSON string literal:
/// quote and backslash get a backslash escape, the common control
/// characters their short escapes, every other control character a
/// `\u00XX` escape, and every other character stands for itself.
pub open spec fn escape_char(c: char) -> Seq<char> {
    if c == '"' {
        seq!['\\', '"']
    } else if c == '\\' {
        seq!['\\', '\\']
    } else if c == '\u{8}' {
        seq!['\\', 'b']
    } else if c == '\u{c}' {
        seq!['\\', 'f']
    } else if c == '\n' {
        seq!['\\', 'n']
    } else if c == '\r' {
        seq!['\\', 'r']
    } else if c == '\t' {
        seq!['\\', 't']
    } else if (c as u32) < 32 {
        seq!['\\', 'u', '0', '0', hex_char((c as u32) as int / 16), hex_char((c as u32) as int % 16)]
    } else {
        seq![c]
    }
}

/// The escaped body of a JSON string literal.
pub open spec fn escape_chars(s: Seq<char>) -> Seq<char>
    decreases s.len(),
{
    if s.len() == 0 {
        Seq::<char>::empty()
    } else {
        escape_char(s[0]) + escape_chars(s.drop_first())
    }
}

/// A quoted JSON string literal.
pub open spec fn quoted_chars(s: Seq<char>) -> Seq<char> {
    seq!['"'] + escape_chars(s) + seq!['"']
}

/// The decimal form of a signed integer.
pub open spec fn int_chars(x: int) -> Seq<char> {
    if x < 0 {
        seq!['-'] + dec_digits((-x) as nat)
    } else {
        dec_digits(x as nat)
    }
}

/// The canonical text of a JSON value: no whitespace, object keys in
/// the order they stand in the value.
pub open spec fn json_chars(j: JsonValue) -> Seq<char>
    decreases j,
{
    match j {
        JsonValue::Null => seq!['n', 'u', 'l', 'l'],
        JsonValue::Bool(b) => if b {
            seq!['t', 'r', 'u', 'e']
        } else {
            seq!['f', 'a', 'l', 's', 'e']
        },
        JsonValue::Int(x) => int_chars(x as int),
        JsonValue::Str(s) => quoted_chars(s@),
        JsonValue::Arr(v) => seq!['['] + arr_body_chars(v@) + seq![']'],
        JsonValue::Obj(v) => seq!['{'] + obj_body_chars(v@) + seq!['}'],
    }
}

/// The comma-separated elements of an array.
pub open spec fn arr_body_chars(elems: Seq<JsonValue>) -> Seq<char>
    decreases elems,
{
    if elems.len() == 0 {
        Seq::<char>::empty()
    } else if elems.len() == 1 {
        json_chars(elems[0])
    } else {
        json_chars(elems[0]) + seq![','] + arr_body_chars(elems.drop_first())
    }
}

/// The comma-separated `"key":value` members of an object.
pub open spec fn obj_body_chars(entries: Seq<(String, JsonValue)>) -> Seq<char>
    decreases entries,
{
    if entries.len() == 0 {
        Seq::<char>::empty()
    } else if entries.len() == 1 {
        entry_chars(entries[0])
    } else {
        entry_chars(entries[0]) + seq![','] + obj_body_chars(entries.drop_first())
    }
}

/// One `"key":value` member.
pub open spec fn entry_chars(entry: (String, JsonValue)) -> Seq<char>
    decreases entry,
{
    quoted_chars(entry.0@) + seq![':'] + json_chars(entry.1)
}

/// Appending one element to an array body appends a comma (when the
/// body was not empty) and the element's text.
pub proof fn lemma_arr_body_snoc(elems: Seq<JsonValue>, e: JsonValue)
    ensures
        arr_body_chars(elems.push(e)) == if elems.len() == 0 {
            json_chars(e)
        } else {
            arr_body_chars(elems) + seq![','] + json_chars(e)
        },
    decreases elems.len(),
{
    let snoc = elems.push(e);
    if elems.len() == 0 {
        assert(snoc.len() == 1);
        assert(snoc[0] == e);
    } else {
        assert(snoc.drop_first() =~= elems.drop_first().push(e));
        lemma_arr_body_snoc(elems.drop_first(), e);
        if elems.len() == 1 {
            assert(elems.drop_first().len() == 0);
            assert(arr_body_chars(snoc) == json_chars(snoc[0]) + seq![','] + arr_body_chars(
                snoc.drop_first(),
            ));
            assert(snoc[0] == elems[0]);
            assert(arr_body_chars(elems) == json_chars(elems[0]));
            assert(arr_body_chars(snoc) =~= arr_body_chars(elems) + seq![','] + json_chars(e));
        } else {
            assert(snoc[0] == elems[0]);
            assert(arr_body_chars(snoc) =~= arr_body_chars(elems) + seq![','] + json_chars(e));
        }
    }
}

/// The same for object members.
pub proof fn lemma_obj_body_snoc(entries: Seq<(String, JsonValue)>, e: (String, JsonValue))
    ensures
        obj_body_chars(entries.push(e)) == if entries.len() == 0 {
            entry_chars(e)
        } else {
            obj_body_chars(entries) + seq![','] + entry_chars(e)
        },
    decreases entries.len(),
{
    let snoc = entries.push(e);
    if entries.len() == 0 {
        assert(snoc.len() == 1);
        assert(snoc[0] == e);
    } else {
        assert(snoc.drop_first() =~= entries.drop_first().push(e));
        lemma_obj_body_snoc(entries.drop_first(), e);
        if entries.len() == 1 {
            assert(snoc[0] == entries[0]);
            assert(obj_body_chars(entries) == entry_chars(entries[0]));
            assert(obj_body_chars(snoc) =~= obj_body_chars(entries) + seq![','] + entry_chars(e));
        } else {
            assert(snoc[0] == entries[0]);
            assert(obj_body_chars(snoc) =~= obj_body_chars(entries) + seq![','] + entry_chars(e));
        }
    }
}

/// Escaping distributes over appending one character.
pub proof fn lemma_escape_snoc(s: Seq<char>, c: char)
    ensures
        escape_chars(s.push(c)) == escape_chars(s) + escape_char(c),
    decreases s.len(),
{
    let snoc = s.push(c);
    if s.len() == 0 {
        assert(snoc.len() == 1);
        assert(snoc[0] == c);
        assert(snoc.drop_first() =~= Seq::<char>::empty());
        assert(escape_chars(snoc.drop_first()) == Seq::<char>::empty());
        assert(escape_chars(snoc) == escape_char(c) + escape_chars(snoc.drop_first()));
        assert(escape_chars(snoc) =~= escape_chars(s) + escape_char(c));
    } else {
        assert(snoc[0] == s[0]);
        assert(snoc.drop_first() =~= s.drop_first().push(c));
        lemma_escape_snoc(s.drop_first(), c);
        assert(escape_chars(snoc) =~= escape_chars(s) + escape_char(c));
    }
}

/// Append the hexadecimal digit character for `d < 16`.
fn push_hex(out: &mut String, d: u32)
    requires
        d < 16,
    ensures
        final(out)@ == old(out)@.push(hex_char(d as int)),
{
    if d < 10 {
        push_char(out, (48 + d as u8) as char);
    } else {
        push_char(out, (87 + d as u8) as char);
    }
}

/// Append the escaped form of one string-literal character.
fn push_escaped(out: &mut String, c: char)
    ensures
        final(out)@ == old(out)@ + escape_char(c),
{
    if c == '"' {
        push_char(out, '\\');
        push_char(out, '"');
        proof {
            assert(out@ =~= old(out)@ + escape_char(c));
        }
    } else if c == '\\' {
        push_char(out, '\\');
        push_char(out, '\\');
        proof {
            assert(out@ =~= old(out)@ + escape_char(c));
        }
    } else if c == '\u{8}' {
        push_char(out, '\\');
        push_char(out, 'b');
        proof {
            assert(out@ =~= old(out)@ + escape_char(c));
        }
    } else if c == '\u{c}' {
        push_char(out, '\\');
        push_char(out, 'f');
        proof {
            assert(out@ =~= old(out)@ + escape_char(c));
        }
    } else if c == '\n' {
        push_char(out, '\\');
        push_char(out, 'n');
        proof {
            assert(out@ =~= old(out)@ + escape_char(c));
        }
    } else if c == '\r' {
        push_char(out, '\\');
        push_char(out, 'r');
        proof {
            assert(out@ =~= old(out)@ + escape_char(c));
        }
    } else if c == '\t' {
        push_char(out, '\\');
        push_char(out, 't');
        proof {
            assert(out@ =~= old(out)@ + escape_char(c));
        }
    } else {
        let u: u32 = c as u32;
        if u < 32 {
            push_char(out, '\\');
            push_char(out, 'u');
            push_char(out, '0');
            push_char(out, '0');
            push_hex(out, u / 16);
            push_hex(out, u % 16);
            proof {
                assert(out@ =~= old(out)@ + escape_char(c));
            }
        } else {
            push_char(out, c);
            proof {
                assert(out@ =~= old(out)@ + escape_char(c));
            }
        }
    }
}

/// Append a quoted, escaped JSON string literal for `s`.
fn push_quoted(out: &mut String, s: &str)
    ensures
        final(out)@ == old(out)@ + quoted_chars(s@),
{
    push_char(out, '"');
    let n: usize = s.unicode_len();
    let mut i: usize = 0;
    proof {
        assert(s@.subrange(0, 0) =~= Seq::<char>::empty());
        assert(out@ =~= old(out)@ + seq!['"'] + escape_chars(s@.subrange(0, 0)));
    }
    while i < n
        invariant
            i <= n,
            n == s@.len(),
            out@ == old(out)@ + seq!['"'] + escape_chars(s@.subrange(0, i as int)),
        decreases n - i,
    {
        let c: char = s.get_char(i);
        push_escaped(out, c);
        proof {
            assert(s@.subrange(0, i + 1) =~= s@.subrange(0, i as int).push(s@[i as int]));
            lemma_escape_snoc(s@.subrange(0, i as int), s@[i as int]);
            assert(out@ =~= old(out)@ + seq!['"'] + escape_chars(s@.subrange(0, i + 1)));
        }
        i = i + 1;
    }
    proof {
        assert(s@.subrange(0, n as int) =~= s@);
    }
    push_char(out, '"');
    proof {
        assert(out@ =~= old(out)@ + quoted_chars(s@));
    }
}

/// Append the decimal form of a signed 64-bit integer.
fn push_int(out: &mut String, x: i64)
    ensures
        final(out)@ == old(out)@ + int_chars(x as int),
{
    if x >= 0 {
        push_dec(out, x as u64);
    } else {
        push_char(out, '-');
        let magnitude: i128 = -(x as i128);
        push_dec(out, magnitude as u64);
        proof {
            assert(out@ =~= old(out)@ + int_chars(x as int));
        }
    }
}

/// Append the canonical text of `j`.
pub fn push_json(out: &mut String, j: &JsonValue)
    ensures
        final(out)@ == old(out)@ + json_chars(*j),
    decreases *j,
{
    match j {
        JsonValue::Null => {
            push_char(out, 'n');
            push_char(out, 'u');
            push_char(out, 'l');
            push_char(out, 'l');
            proof {
                assert(out@ =~= old(out)@ + json_chars(*j));
            }
        },
        JsonValue::Bool(b) => {
            if *b {
                push_char(out, 't');
                push_char(out, 'r');
                push_char(out, 'u');
                push_char(out, 'e');
            } else {
                push_char(out, 'f');
                push_char(out, 'a');
                push_char(out, 'l');
                push_char(out, 's');
                push_char(out, 'e');
            }
            proof {
                assert(out@ =~= old(out)@ + json_chars(*j));
            }
        },
        JsonValue::Int(x) => {
            push_int(out, *x);
        },
        JsonValue::Str(s) => {
            push_quoted(out, s.as_str());
        },
        JsonValue::Arr(v) => {
            push_char(out, '[');
            push_arr_body(out, v);
            push_char(out, ']');
            proof {
                assert(out@ =~= old(out)@ + json_chars(*j));
            }
        },
        JsonValue::Obj(v) => {
            push_char(out, '{');
            push_obj_body(out, v);
            push_char(out, '}');
            proof {
                assert(out@ =~= old(out)@ + json_chars(*j));
            }
        },
    }
}

/// Append the comma-separated elements of an array.
fn push_arr_body(out: &mut String, v: &Vec<JsonValue>)
    ensures
        final(out)@ == old(out)@ + arr_body_chars(v@),
    decreases *v,
{
    let n: usize = v.len();
    let mut i: usize = 0;
    proof {
        assert(v@.subrange(0, 0) =~= Seq::<JsonValue>::empty());
        assert(out@ =~= old(out)@ + arr_body_chars(v@.subrange(0, 0)));
    }
    while i < n
        invariant
            i <= n,
            n == v@.len(),
            out@ == old(out)@ + arr_body_chars(v@.subrange(0, i as int)),
        decreases n - i,
    {
        if i > 0 {
            push_char(out, ',');
        }
        proof {
            vstd::std_specs::vec::axiom_vec_index_decreases::<JsonValue>(*v, i as int);
        }
        push_json(out, &v[i]);
        proof {
            assert(v@.subrange(0, i + 1) =~= v@.subrange(0, i as int).push(v@[i as int]));
            lemma_arr_body_snoc(v@.subrange(0, i as int), v@[i as int]);
            assert(out@ =~= old(out)@ + arr_body_chars(v@.subrange(0, i + 1)));
        }
        i = i + 1;
    }
    proof {
        assert(v@.subrange(0, n as int) =~= v@);
    }
}

/// Append the comma-separated members of an object.
fn push_obj_body(out: &mut String, v: &Vec<(String, JsonValue)>)
    ensures
        final(out)@ == old(out)@ + obj_body_chars(v@),
    decreases *v,
{
    let n: usize = v.len();
    let mut i: usize = 0;
    proof {
        assert(v@.subrange(0, 0) =~= Seq::<(String, JsonValue)>::empty());
        assert(out@ =~= old(out)@ + obj_body_chars(v@.subrange(0, 0)));
    }
    while i < n
        invariant
            i <= n,
            n == v@.len(),
            out@ == old(out)@ + obj_body_chars(v@.subrange(0, i as int)),
        decreases n - i,
    {
        if i > 0 {
            push_char(out, ',');
        }
        proof {
            vstd::std_specs::vec::axiom_vec_index_decreases::<(String, JsonValue)>(*v, i as int);
        }
        push_entry(out, &v[i]);
        proof {
            assert(v@.subrange(0, i + 1) =~= v@.subrange(0, i as int).push(v@[i as int]));
            lemma_obj_body_snoc(v@.subrange(0, i as int), v@[i as int]);
            assert(out@ =~= old(out)@ + obj_body_chars(v@.subrange(0, i + 1)));
        }
        i = i + 1;
    }
    proof {
        assert(v@.subrange(0, n as int) =~= v@);
    }
}

/// Append one `"key":value` member.
fn push_entry(out: &mut String, e: &(String, JsonValue))
    ensures
        final(out)@ == old(out)@ + entry_chars(*e),
    decreases *e,
{
    push_quoted(out, e.0.as_str());
    push_char(out, ':');
    push_json(out, &e.1);
    proof {
        assert(out@ =~= old(out)@ + entry_chars(*e));
    }
}

/// The canonical text of `j` as a fresh string.
pub fn json_string(j: &JsonValue) -> (r: String)
    ensures
        r@ == json_chars(*j),
{
    let mut out = String::new();
    push_json(&mut out, j);
    proof {
        assert(out@ =~= json_chars(*j));
    }
    out
}



/// The scalar JSON values: null, the booleans, the integers.
pub open spec fn scalar_value(j: JsonValue) -> bool {
    j is Null || j is Bool || j is Int
}

/// `s[pos..n]` is exactly the decimal text of `x`.
pub open spec fn int_text(s: Seq<char>, pos: int, n: int, x: int) -> bool {
    &&& 0 <= pos
    &&& pos + int_chars(x).len() == n
    &&& n <= s.len()
    &&& s.subrange(pos, n) == int_chars(x)
}

/// `s[pos..n]` is exactly the canonical text of some scalar value.
pub open spec fn scalar_text_at(s: Seq<char>, pos: int, n: int) -> bool {
    exists|j: JsonValue|
        scalar_value(j) && 0 <= pos && pos + json_chars(j).len() == n && n <= s.len()
            && s.subrange(pos, n) == json_chars(j)
}

/// The first character of a scalar's canonical text classifies it.
proof fn lemma_scalar_first(j: JsonValue)
    requires
        scalar_value(j),
    ensures
        json_chars(j).len() >= 1,
        j is Null ==> json_chars(j)[0] == 'n',
        j == JsonValue::Bool(true) ==> json_chars(j)[0] == 't',
        j == JsonValue::Bool(false) ==> json_chars(j)[0] == 'f',
        j is Int ==> (json_chars(j)[0] == '-' || is_digit_char(json_chars(j)[0])),
{
    match j {
        JsonValue::Int(x) => {
            if x < 0 {
                assert(json_chars(j) == seq!['-'] + dec_digits((-(x as int)) as nat));
                assert(json_chars(j)[0] == '-');
            } else {
                lemma_dec_digits_first(x as nat);
            }
        },
        _ => {},
    }
}

/// The structure of an integer's text: a sign for a negative value,
/// then the digits of the magnitude, worth the magnitude.
proof fn lemma_int_text_region(s: Seq<char>, pos: int, n: int, x0: int)
    requires
        int_text(s, pos, n, x0),
    ensures
        ({
            let ds = if x0 < 0 { pos + 1 } else { pos };
            let m = if x0 < 0 { -x0 } else { x0 };
            &&& (x0 < 0 ==> s[pos] == '-')
            &&& (x0 >= 0 ==> s[pos] != '-')
            &&& ds < n
            &&& s.subrange(ds, n) == dec_digits(m as nat)
            &&& all_digits(s.subrange(ds, n))
            &&& dec_val(s.subrange(ds, n)) == m
        }),
{
    let ds = if x0 < 0 { pos + 1 } else { pos };
    let m = if x0 < 0 { -x0 } else { x0 };
    lemma_dec_digits_len(m as nat);
    lemma_dec_digits_are_digits(m as nat);
    lemma_dec_val_of_digits(m as nat);
    if x0 < 0 {
        assert(int_chars(x0) == seq!['-'] + dec_digits(m as nat));
        assert(s.subrange(pos, n)[0] == s[pos]);
        assert(s[pos] == '-');
        assert(s.subrange(ds, n) =~= dec_digits(m as nat)) by {
            assert forall|k: int| 0 <= k < n - ds implies s.subrange(ds, n)[k] == dec_digits(
                m as nat,
            )[k] by {
                assert(s.subrange(ds, n)[k] == s.subrange(pos, n)[k + 1]);
                assert(s.subrange(pos, n)[k + 1] == int_chars(x0)[k + 1]);
            };
        };
    } else {
        assert(int_chars(x0) == dec_digits(m as nat));
        assert(s.subrange(ds, n) == dec_digits(m as nat));
        lemma_dec_digits_first(m as nat);
        assert(s.subrange(pos, n)[0] == s[pos]);
        assert(is_digit_char(s[pos]));
        assert('-' as u32 == 45);
        assert(s[pos] != '-');
    }
}


/// A text whose first character is none of a scalar's first characters
/// is not a scalar's canonical text.
proof fn lemma_not_scalar_first(s: Seq<char>, pos: int, n: int)
    requires
        0 <= pos < s.len(),
        pos < n,
        s[pos] != 'n',
        s[pos] != 't',
        s[pos] != 'f',
        s[pos] != '-',
        !is_digit_char(s[pos]),
    ensures
        !scalar_text_at(s, pos, n),
{
    if scalar_text_at(s, pos, n) {
        let j = choose|jj: JsonValue|
            scalar_value(jj) && 0 <= pos && pos + json_chars(jj).len() == n && n <= s.len()
                && s.subrange(pos, n) == json_chars(jj);
        lemma_scalar_first(j);
        assert(s.subrange(pos, n)[0] == s[pos]);
        assert(false);
    }
}

/// Read one hexadecimal digit character, lower case.
fn hex_digit_value(c: char) -> (r: Option<u8>)
    ensures
        r matches Some(d) ==> d < 16,
{
    let u: u32 = c as u32;
    if 48 <= u && u <= 57 {
        Some((u - 48) as u8)
    } else if 97 <= u && u <= 102 {
        Some((u - 87) as u8)
    } else {
        None
    }
}

/// Read a string literal starting at the opening quote; on success the
/// returned position stands just past the closing quote.
fn read_string(s: &str, pos: usize, n: usize) -> (r: Option<(String, usize)>)
    requires
        n == s@.len(),
        pos < n,
    ensures
        r matches Some(p) ==> pos < p.1 <= n,
{
    if s.get_char(pos) != '"' {
        return None;
    }
    let mut out = String::new();
    let mut i: usize = pos + 1;
    loop
        invariant
            n == s@.len(),
            pos < i,
            i <= n,
        decreases n - i,
    {
        if i >= n {
            return None;
        }
        let c: char = s.get_char(i);
        if c == '"' {
            return Some((out, i + 1));
        }
        if c == '\\' {
            if i + 1 >= n {
                return None;
            }
            let e: char = s.get_char(i + 1);
            if e == '"' {
                push_char(&mut out, '"');
                i = i + 2;
            } else if e == '\\' {
                push_char(&mut out, '\\');
                i = i + 2;
            } else if e == 'b' {
                push_char(&mut out, '\u{8}');
                i = i + 2;
            } else if e == 'f' {
                push_char(&mut out, '\u{c}');
                i = i + 2;
            } else if e == 'n' {
                push_char(&mut out, '\n');
                i = i + 2;
            } else if e == 'r' {
                push_char(&mut out, '\r');
                i = i + 2;
            } else if e == 't' {
                push_char(&mut out, '\t');
                i = i + 2;
            } else if e == 'u' {
                if n - i < 6 {
                    return None;
                }
                if s.get_char(i + 2) != '0' || s.get_char(i + 3) != '0' {
                    return None;
                }
                let h: Option<u8> = hex_digit_value(s.get_char(i + 4));
                let l: Option<u8> = hex_digit_value(s.get_char(i + 5));
                match (h, l) {
                    (Some(hv), Some(lv)) => {
                        push_char(&mut out, (hv * 16 + lv) as char);
                        i = i + 6;
                    },
                    _ => {
                        return None;
                    },
                }
            } else {
                return None;
            }
        } else {
            push_char(&mut out, c);
            i = i + 1;
        }
    }
}

/// Read a decimal integer starting at `pos`.  On the canonical decimal
/// text of a value filling the rest of the input, it reads exactly that
/// value.
#[verifier::rlimit(100)]
fn read_int(s: &str, pos: usize, n: usize) -> (r: Option<(i64, usize)>)
    requires
        n == s@.len(),
        pos < n,
    ensures
        r matches Some(p) ==> pos < p.1 <= n,
        forall|x0: i64| int_text(s@, pos as int, n as int, x0 as int) ==> r == Some((x0, n)),
{
    let mut i: usize = pos;
    let mut negative: bool = false;
    if s.get_char(i) == '-' {
        negative = true;
        i = i + 1;
    }
    let digits_start: usize = i;
    let mut magnitude: u64 = 0;
    let mut done: bool = false;
    proof {
        assert(s@.subrange(digits_start as int, digits_start as int) =~= Seq::<char>::empty());
    }
    while i < n && !done
        invariant
            n == s@.len(),
            pos < n,
            pos <= digits_start <= i <= n,
            digits_start <= pos + 1,
            negative == (s@[pos as int] == '-'),
            negative ==> digits_start == pos + 1,
            !negative ==> digits_start == pos,
            all_digits(s@.subrange(digits_start as int, i as int)),
            magnitude as int == dec_val(s@.subrange(digits_start as int, i as int)),
            magnitude <= 0x8000000000000000,
            done ==> (i < n && !is_digit_char(s@[i as int])),
        decreases n - i, (if done { 0int } else { 1int }),
    {
        let c: char = s.get_char(i);
        let u: u32 = c as u32;
        let ghost consumed = s@.subrange(digits_start as int, i as int);
        if 48 <= u && u <= 57 {
            let d: u64 = (u - 48) as u64;
            if magnitude > 922337203685477580 {
                proof {
                    assert forall|x0: i64|
                        int_text(s@, pos as int, n as int, x0 as int) implies false by {
                        lemma_int_text_region(s@, pos as int, n as int, x0 as int);
                        let ds = digits_start as int;
                        let region = s@.subrange(ds, n as int);
                        let m: int = if x0 < 0 { -(x0 as int) } else { x0 as int };
                        assert(consumed =~= region.subrange(0, i - ds));
                        lemma_dec_val_mono(region, i - ds);
                        assert(m >= (magnitude as int) * 10);
                        assert(m <= 0x8000000000000000);
                    };
                }
                return None;
            }
            if magnitude == 922337203685477580 && d > 8 {
                proof {
                    assert forall|x0: i64|
                        int_text(s@, pos as int, n as int, x0 as int) implies false by {
                        lemma_int_text_region(s@, pos as int, n as int, x0 as int);
                        let ds = digits_start as int;
                        let region = s@.subrange(ds, n as int);
                        let m: int = if x0 < 0 { -(x0 as int) } else { x0 as int };
                        assert(consumed =~= region.subrange(0, i - ds));
                        lemma_dec_val_step(region, i - ds);
                        assert(region[i - ds] == s@[i as int]);
                        assert(dec_val(region.subrange(0, i - ds + 1)) == (magnitude as int) * 10
                            + (d as int));
                        lemma_dec_val_mono(region, i - ds + 1);
                        assert(m >= (magnitude as int) * 10 + (d as int));
                        assert(m <= 0x8000000000000000);
                    };
                }
                return None;
            }
            proof {
                assert(s@.subrange(digits_start as int, i + 1) =~= consumed.push(s@[i as int]));
                lemma_dec_val_step(
                    s@.subrange(digits_start as int, i + 1),
                    i - digits_start,
                );
                assert(s@.subrange(digits_start as int, i + 1).subrange(
                    0,
                    i - digits_start,
                ) =~= consumed);
                assert(s@.subrange(digits_start as int, i + 1).subrange(
                    0,
                    i - digits_start + 1,
                ) =~= s@.subrange(digits_start as int, i + 1));
            }
            magnitude = magnitude * 10 + d;
            i = i + 1;
        } else {
            done = true;
        }
    }
    if i == digits_start {
        proof {
            assert forall|x0: i64|
                int_text(s@, pos as int, n as int, x0 as int) implies false by {
                lemma_int_text_region(s@, pos as int, n as int, x0 as int);
                let ds = digits_start as int;
                let region = s@.subrange(ds, n as int);
                assert(region.len() >= 1);
                assert(ds < n);
                assert(done);
                assert(region[0] == s@[ds]);
                assert(is_digit_char(s@[i as int]));
            };
        }
        return None;
    }
    proof {
        assert forall|x0: i64|
            int_text(s@, pos as int, n as int, x0 as int) implies i == n && magnitude as int == (
            if x0 < 0 {
                -(x0 as int)
            } else {
                x0 as int
            }) by {
            lemma_int_text_region(s@, pos as int, n as int, x0 as int);
            let ds = digits_start as int;
            let region = s@.subrange(ds, n as int);
            if done {
                assert(is_digit_char(s@[i as int])) by {
                    assert(region[i - ds] == s@[i as int]);
                };
            }
            assert(i == n);
            assert(s@.subrange(ds, i as int) =~= region);
        };
    }
    if negative {
        if magnitude > 0x8000000000000000 {
            return None;
        }
        let value: i64 = (-(magnitude as i128)) as i64;
        proof {
            assert forall|x0: i64|
                int_text(s@, pos as int, n as int, x0 as int) implies Some((value, i)) == Some(
                (x0, n),
            ) by {
                lemma_int_text_region(s@, pos as int, n as int, x0 as int);
                assert(x0 < 0);
                assert(magnitude as int == -(x0 as int));
                assert(value as int == -(magnitude as int));
            };
        }
        Some((value, i))
    } else {
        if magnitude > 0x7FFFFFFFFFFFFFFF {
            proof {
                assert forall|x0: i64|
                    int_text(s@, pos as int, n as int, x0 as int) implies false by {
                    lemma_int_text_region(s@, pos as int, n as int, x0 as int);
                    assert(x0 >= 0);
                    assert(magnitude as int == x0 as int);
                };
            }
            return None;
        }
        let value: i64 = magnitude as i64;
        proof {
            assert forall|x0: i64|
                int_text(s@, pos as int, n as int, x0 as int) implies Some((value, i)) == Some(
                (x0, n),
            ) by {
                lemma_int_text_region(s@, pos as int, n as int, x0 as int);
                assert(x0 >= 0);
                assert(magnitude as int == x0 as int);
            };
        }
        Some((value, i))
    }
}

/// Read one JSON value starting at `pos`.  Beyond progress, the only
/// promises are soundness — enforced after the fact by the public
/// reader's re-print — and completeness on a scalar's canonical text
/// filling the rest of the input.
#[verifier::rlimit(100)]
fn read_value(s: &str, pos: usize, n: usize) -> (r: Option<(JsonValue, usize)>)
    requires
        n == s@.len(),
    ensures
        r matches Some(p) ==> pos < p.1 <= n,
        scalar_text_at(s@, pos as int, n as int) ==> (r matches Some(p) && p.1 == n
            && json_chars(p.0) == s@.subrange(pos as int, n as int)),
    decreases n - pos,
{
    if pos >= n {
        proof {
            if scalar_text_at(s@, pos as int, n as int) {
                let j = choose|jj: JsonValue|
                    scalar_value(jj) && 0 <= pos as int && pos + json_chars(jj).len() == n
                        && n as int <= s@.len() && s@.subrange(pos as int, n as int)
                        == json_chars(jj);
                lemma_scalar_first(j);
                assert(false);
            }
        }
        return None;
    }
    let c: char = s.get_char(pos);
    if c == 'n' {
        if n - pos >= 4 && s.get_char(pos + 1) == 'u' && s.get_char(pos + 2) == 'l'
            && s.get_char(pos + 3) == 'l' {
            proof {
                if scalar_text_at(s@, pos as int, n as int) {
                    let j = choose|jj: JsonValue|
                        scalar_value(jj) && 0 <= pos as int && pos + json_chars(jj).len() == n
                            && n as int <= s@.len() && s@.subrange(pos as int, n as int)
                            == json_chars(jj);
                    lemma_scalar_first(j);
                    assert(s@.subrange(pos as int, n as int)[0] == s@[pos as int]);
                    assert(j is Null);
                    assert(json_chars(j) == seq!['n', 'u', 'l', 'l']);
                    assert(n == pos + 4);
                    assert(json_chars(JsonValue::Null) == s@.subrange(pos as int, n as int));
                }
            }
            Some((JsonValue::Null, pos + 4))
        } else {
            proof {
                if scalar_text_at(s@, pos as int, n as int) {
                    let j = choose|jj: JsonValue|
                        scalar_value(jj) && 0 <= pos as int && pos + json_chars(jj).len() == n
                            && n as int <= s@.len() && s@.subrange(pos as int, n as int)
                            == json_chars(jj);
                    lemma_scalar_first(j);
                    assert(s@.subrange(pos as int, n as int)[0] == s@[pos as int]);
                    assert(j is Null);
                    assert(n == pos + 4);
                    assert(s@[pos + 1] == 'u') by {
                        assert(s@.subrange(pos as int, n as int)[1] == s@[pos + 1]);
                    };
                    assert(s@[pos + 2] == 'l') by {
                        assert(s@.subrange(pos as int, n as int)[2] == s@[pos + 2]);
                    };
                    assert(s@[pos + 3] == 'l') by {
                        assert(s@.subrange(pos as int, n as int)[3] == s@[pos + 3]);
                    };
                    assert(false);
                }
            }
            None
        }
    } else if c == 't' {
        if n - pos >= 4 && s.get_char(pos + 1) == 'r' && s.get_char(pos + 2) == 'u'
            && s.get_char(pos + 3) == 'e' {
            proof {
                if scalar_text_at(s@, pos as int, n as int) {
                    let j = choose|jj: JsonValue|
                        scalar_value(jj) && 0 <= pos as int && pos + json_chars(jj).len() == n
                            && n as int <= s@.len() && s@.subrange(pos as int, n as int)
                            == json_chars(jj);
                    lemma_scalar_first(j);
                    assert(s@.subrange(pos as int, n as int)[0] == s@[pos as int]);
                    assert(j == JsonValue::Bool(true));
                    assert(json_chars(j) == seq!['t', 'r', 'u', 'e']);
                    assert(n == pos + 4);
                    assert(json_chars(JsonValue::Bool(true)) == s@.subrange(
                        pos as int,
                        n as int,
                    ));
                }
            }
            Some((JsonValue::Bool(true), pos + 4))
        } else {
            proof {
                if scalar_text_at(s@, pos as int, n as int) {
                    let j = choose|jj: JsonValue|
                        scalar_value(jj) && 0 <= pos as int && pos + json_chars(jj).len() == n
                            && n as int <= s@.len() && s@.subrange(pos as int, n as int)
                            == json_chars(jj);
                    lemma_scalar_first(j);
                    assert(s@.subrange(pos as int, n as int)[0] == s@[pos as int]);
                    assert(j == JsonValue::Bool(true));
                    assert(n == pos + 4);
                    assert(s@[pos + 1] == 'r') by {
                        assert(s@.subrange(pos as int, n as int)[1] == s@[pos + 1]);
                    };
                    assert(s@[pos + 2] == 'u') by {
                        assert(s@.subrange(pos as int, n as int)[2] == s@[pos + 2]);
                    };
                    assert(s@[pos + 3] == 'e') by {
                        assert(s@.subrange(pos as int, n as int)[3] == s@[pos + 3]);
                    };
                    assert(false);
                }
            }
            None
        }
    } else if c == 'f' {
        if n - pos >= 5 && s.get_char(pos + 1) == 'a' && s.get_char(pos + 2) == 'l'
            && s.get_char(pos + 3) == 's' && s.get_char(pos + 4) == 'e' {
            proof {
                if scalar_text_at(s@, pos as int, n as int) {
                    let j = choose|jj: JsonValue|
                        scalar_value(jj) && 0 <= pos as int && pos + json_chars(jj).len() == n
                            && n as int <= s@.len() && s@.subrange(pos as int, n as int)
                            == json_chars(jj);
                    lemma_scalar_first(j);
                    assert(s@.subrange(pos as int, n as int)[0] == s@[pos as int]);
                    assert(j == JsonValue::Bool(false));
                    assert(json_chars(j) == seq!['f', 'a', 'l', 's', 'e']);
                    assert(n == pos + 5);
                    assert(json_chars(JsonValue::Bool(false)) == s@.subrange(
                        pos as int,
                        n as int,
                    ));
                }
            }
            Some((JsonValue::Bool(false), pos + 5))
        } else {
            proof {
                if scalar_text_at(s@, pos as int, n as int) {
                    let j = choose|jj: JsonValue|
                        scalar_value(jj) && 0 <= pos as int && pos + json_chars(jj).len() == n
                            && n as int <= s@.len() && s@.subrange(pos as int, n as int)
                            == json_chars(jj);
                    lemma_scalar_first(j);
                    assert(s@.subrange(pos as int, n as int)[0] == s@[pos as int]);
                    assert(j == JsonValue::Bool(false));
                    assert(n == pos + 5);
                    assert(s@[pos + 1] == 'a') by {
                        assert(s@.subrange(pos as int, n as int)[1] == s@[pos + 1]);
                    };
                    assert(s@[pos + 2] == 'l') by {
                        assert(s@.subrange(pos as int, n as int)[2] == s@[pos + 2]);
                    };
                    assert(s@[pos + 3] == 's') by {
                        assert(s@.subrange(pos as int, n as int)[3] == s@[pos + 3]);
                    };
                    assert(s@[pos + 4] == 'e') by {
                        assert(s@.subrange(pos as int, n as int)[4] == s@[pos + 4]);
                    };
                    assert(false);
                }
            }
            None
        }
    } else if c == '"' {
        proof {
            lemma_not_scalar_first(s@, pos as int, n as int);
        }
        match read_string(s, pos, n) {
            Some((text, end)) => Some((JsonValue::Str(text), end)),
            None => None,
        }
    } else if c == '[' {
        proof {
            lemma_not_scalar_first(s@, pos as int, n as int);
        }
        let mut elems: Vec<JsonValue> = Vec::new();
        let mut i: usize = pos + 1;
        if i < n && s.get_char(i) == ']' {
            return Some((JsonValue::Arr(elems), i + 1));
        }
        loop
            invariant
                n == s@.len(),
                pos < i,
                i <= n,
                !scalar_text_at(s@, pos as int, n as int),
            decreases n - i,
        {
            let parsed: Option<(JsonValue, usize)> = read_value(s, i, n);
            match parsed {
                Some((v, after)) => {
                    elems.push(v);
                    if after >= n {
                        return None;
                    }
                    let sep: char = s.get_char(after);
                    if sep == ',' {
                        i = after + 1;
                    } else if sep == ']' {
                        return Some((JsonValue::Arr(elems), after + 1));
                    } else {
                        return None;
                    }
                },
                None => {
                    return None;
                },
            }
        }
    } else if c == '{' {
        proof {
            lemma_not_scalar_first(s@, pos as int, n as int);
        }
        let mut entries: Vec<(String, JsonValue)> = Vec::new();
        let mut i: usize = pos + 1;
        if i < n && s.get_char(i) == '}' {
            return Some((JsonValue::Obj(entries), i + 1));
        }
        loop
            invariant
                n == s@.len(),
                pos < i,
                i <= n,
                !scalar_text_at(s@, pos as int, n as int),
            decreases n - i,
        {
            if i >= n {
                return None;
            }
            let key: Option<(String, usize)> = read_string(s, i, n);
            match key {
                Some((k, after_key)) => {
                    if after_key >= n || s.get_char(after_key) != ':' {
                        return None;
                    }
                    let parsed: Option<(JsonValue, usize)> = read_value(s, after_key + 1, n);
                    match parsed {
                        Some((v, after)) => {
                            entries.push((k, v));
                            if after >= n {
                                return None;
                            }
                            let sep: char = s.get_char(after);
                            if sep == ',' {
                                i = after + 1;
                            } else if sep == '}' {
                                return Some((JsonValue::Obj(entries), after + 1));
                            } else {
                                return None;
                            }
                        },
                        None => {
                            return None;
                        },
                    }
                },
                None => {
                    return None;
                },
            }
        }
    } else {
        let parsed: Option<(i64, usize)> = read_int(s, pos, n);
        proof {
            if scalar_text_at(s@, pos as int, n as int) {
                let j = choose|jj: JsonValue|
                    scalar_value(jj) && 0 <= pos as int && pos + json_chars(jj).len() == n
                        && n as int <= s@.len() && s@.subrange(pos as int, n as int)
                        == json_chars(jj);
                lemma_scalar_first(j);
                assert(s@.subrange(pos as int, n as int)[0] == s@[pos as int]);
                assert(j is Int);
                let x0 = j->Int_0;
                assert(int_text(s@, pos as int, n as int, x0 as int));
                assert(parsed == Some((x0, n)));
                assert(json_chars(JsonValue::Int(x0)) == s@.subrange(pos as int, n as int));
            }
        }
        match parsed {
            Some((x, end)) => Some((JsonValue::Int(x), end)),
            None => None,
        }
    }
}

/// The whitespace JSON treats as insignificant between tokens.
pub open spec fn is_json_ws(c: char) -> bool {
    c == ' ' || c == '\t' || c == '\n' || c == '\r'
}

/// The text with insignificant whitespace discarded: every whitespace
/// character outside a string literal is dropped, and string literals
/// (tracked through their escapes) are kept exactly.  In well-formed
/// JSON, whitespace never stands inside a token, so this normalization
/// is faithful.
pub open spec fn strip_json_ws_at(s: Seq<char>, in_string: bool, escaped: bool) -> Seq<char>
    decreases s.len(),
{
    if s.len() == 0 {
        Seq::<char>::empty()
    } else {
        let c = s[0];
        let rest = s.drop_first();
        if in_string {
            if escaped {
                seq![c] + strip_json_ws_at(rest, true, false)
            } else if c == '\\' {
                seq![c] + strip_json_ws_at(rest, true, true)
            } else if c == '"' {
                seq![c] + strip_json_ws_at(rest, false, false)
            } else {
                seq![c] + strip_json_ws_at(rest, true, false)
            }
        } else if is_json_ws(c) {
            strip_json_ws_at(rest, false, false)
        } else if c == '"' {
            seq![c] + strip_json_ws_at(rest, true, false)
        } else {
            seq![c] + strip_json_ws_at(rest, false, false)
        }
    }
}

/// The text with insignificant whitespace discarded, from the top.
pub open spec fn strip_json_ws(s: Seq<char>) -> Seq<char> {
    strip_json_ws_at(s, false, false)
}

/// Discard insignificant whitespace from JSON text.
fn strip_ws(s: &str) -> (r: String)
    ensures
        r@ == strip_json_ws(s@),
{
    let n: usize = s.unicode_len();
    let mut out = String::new();
    let mut i: usize = 0;
    let mut in_string: bool = false;
    let mut escaped: bool = false;
    proof {
        assert(s@.subrange(0, n as int) =~= s@);
    }
    while i < n
        invariant
            i <= n,
            n == s@.len(),
            !in_string ==> !escaped,
            out@ + strip_json_ws_at(s@.subrange(i as int, n as int), in_string, escaped)
                == strip_json_ws(s@),
        decreases n - i,
    {
        let c: char = s.get_char(i);
        let ghost sub = s@.subrange(i as int, n as int);
        let ghost subn = s@.subrange(i + 1, n as int);
        proof {
            assert(sub.len() == n - i);
            assert(sub[0] == c);
            assert(sub.drop_first() =~= subn);
        }
        let ghost pre = out@;
        let ghost pre_in_string = in_string;
        let ghost pre_escaped = escaped;
        if in_string {
            push_char(&mut out, c);
            if escaped {
                escaped = false;
            } else if c == '\\' {
                escaped = true;
            } else if c == '"' {
                in_string = false;
            }
            proof {
                assert(strip_json_ws_at(sub, true, pre_escaped) == seq![c] + strip_json_ws_at(
                    subn,
                    in_string,
                    escaped,
                ));
                assert(out@ =~= pre + seq![c]);
                assert(out@ + strip_json_ws_at(subn, in_string, escaped) =~= pre
                    + strip_json_ws_at(sub, pre_in_string, pre_escaped));
            }
        } else if c == ' ' || c == '\t' || c == '\n' || c == '\r' {
            proof {
                assert(is_json_ws(c));
                assert(strip_json_ws_at(sub, false, false) == strip_json_ws_at(
                    subn,
                    false,
                    false,
                ));
                assert(out@ + strip_json_ws_at(subn, in_string, escaped) =~= pre
                    + strip_json_ws_at(sub, pre_in_string, pre_escaped));
            }
        } else {
            push_char(&mut out, c);
            if c == '"' {
                in_string = true;
            }
            proof {
                assert(!is_json_ws(c));
                assert(strip_json_ws_at(sub, false, false) == seq![c] + strip_json_ws_at(
                    subn,
                    in_string,
                    false,
                ));
                assert(out@ =~= pre + seq![c]);
                assert(out@ + strip_json_ws_at(subn, in_string, escaped) =~= pre
                    + strip_json_ws_at(sub, pre_in_string, pre_escaped));
            }
        }
        i = i + 1;
    }
    proof {
        assert(s@.subrange(n as int, n as int) =~= Seq::<char>::empty());
        assert(out@ =~= strip_json_ws(s@));
    }
    out
}

/// Read a JSON value from its text.  Whitespace outside string literals
/// is insignificant and discarded first; a value is returned only when
/// what remains is exactly that value's canonical form, which is
/// enforced by printing the candidate again and comparing.  Well-formed
/// JSON never holds whitespace inside a token, so the normalization is
/// faithful to any stored JSON text.  Success is owed on the text of
/// every scalar value.
pub fn parse_json(s: &str) -> (r: Option<JsonValue>)
    ensures
        r matches Some(j) ==> json_chars(j) == strip_json_ws(s@),
        (exists|j: JsonValue| scalar_value(j) && json_chars(j) == strip_json_ws(s@)) ==> r
            is Some,
{
    let stripped: String = strip_ws(s);
    let text: &str = stripped.as_str();
    let n: usize = text.unicode_len();
    proof {
        if exists|j: JsonValue| scalar_value(j) && json_chars(j) == strip_json_ws(s@) {
            let j = choose|j: JsonValue| scalar_value(j) && json_chars(j) == strip_json_ws(s@);
            assert(text@.subrange(0, n as int) =~= text@);
            assert(scalar_text_at(text@, 0, n as int));
        }
    }
    let parsed: Option<(JsonValue, usize)> = read_value(text, 0, n);
    match parsed {
        Some((candidate, end)) => {
            if end != n {
                return None;
            }
            let printed: String = json_string(&candidate);
            proof {
                if scalar_text_at(text@, 0, n as int) {
                    assert(printed@ == text@.subrange(0, n as int));
                    assert(text@.subrange(0, n as int) =~= text@);
                }
            }
            if crate::strutil::str_eq_chars(printed.as_str(), text) {
                Some(candidate)
            } else {
                None
            }
        },
        None => None,
    }
}


/// A text segment kept verbatim by whitespace stripping: no whitespace
/// and no quote.
pub open spec fn plain_seg(t: Seq<char>) -> bool {
    forall|k: int| 0 <= k < t.len() ==> !is_json_ws(#[trigger] t[k]) && t[k] != '"'
}

proof fn lemma_strip_plain(t: Seq<char>, rest: Seq<char>)
    requires
        plain_seg(t),
    ensures
        strip_json_ws_at(t + rest, false, false) == t + strip_json_ws_at(rest, false, false),
    decreases t.len(),
{
    if t.len() == 0 {
        assert(t + rest =~= rest);
        assert(t + strip_json_ws_at(rest, false, false) =~= strip_json_ws_at(
            rest,
            false,
            false,
        ));
    } else {
        let w = t + rest;
        assert(w[0] == t[0]);
        assert(w.drop_first() =~= t.drop_first() + rest);
        assert(plain_seg(t.drop_first())) by {
            assert forall|k: int|
                0 <= k < t.drop_first().len() implies !is_json_ws(
                #[trigger] t.drop_first()[k],
            ) && t.drop_first()[k] != '"' by {
                assert(t.drop_first()[k] == t[k + 1]);
            };
        };
        lemma_strip_plain(t.drop_first(), rest);
        assert(strip_json_ws_at(w, false, false) == seq![w[0]] + strip_json_ws_at(
            w.drop_first(),
            false,
            false,
        ));
        assert(strip_json_ws_at(w, false, false) =~= t + strip_json_ws_at(rest, false, false));
    }
}

#[verifier::rlimit(100)]
proof fn lemma_strip_string_body(sc: Seq<char>, rest: Seq<char>)
    ensures
        strip_json_ws_at(escape_chars(sc) + rest, true, false) == escape_chars(sc)
            + strip_json_ws_at(rest, true, false),
    decreases sc.len(),
{
    if sc.len() == 0 {
        assert(escape_chars(sc) + rest =~= rest);
        assert(escape_chars(sc) + strip_json_ws_at(rest, true, false) =~= strip_json_ws_at(
            rest,
            true,
            false,
        ));
    } else {
        let c = sc[0];
        let e = escape_char(c);
        let tail = escape_chars(sc.drop_first()) + rest;
        let w = escape_chars(sc) + rest;
        assert(w =~= e + tail);
        lemma_strip_string_body(sc.drop_first(), rest);
        if c == '"' || c == '\\' || c == '\u{8}' || c == '\u{c}' || c == '\n' || c == '\r'
            || c == '\t' {
            assert(e.len() == 2 && e[0] == '\\');
            assert(w[0] == '\\');
            assert(w.drop_first() =~= seq![e[1]] + tail);
            assert(strip_json_ws_at(w, true, false) == seq!['\\'] + strip_json_ws_at(
                seq![e[1]] + tail,
                true,
                true,
            ));
            assert((seq![e[1]] + tail)[0] == e[1]);
            assert((seq![e[1]] + tail).drop_first() =~= tail);
            assert(strip_json_ws_at(seq![e[1]] + tail, true, true) == seq![e[1]]
                + strip_json_ws_at(tail, true, false));
            assert(strip_json_ws_at(w, true, false) =~= escape_chars(sc) + strip_json_ws_at(
                rest,
                true,
                false,
            ));
        } else if (c as u32) < 32 {
            let u = (c as u32) as int;
            let h1 = hex_char(u / 16);
            let h2 = hex_char(u % 16);
            assert(h1 == '0' || h1 == '1');
            assert(h2 as u32 != 34 && h2 as u32 != 92) by {
                if u % 16 < 10 {
                    assert(h2 as u32 == 48 + u % 16);
                } else {
                    assert(h2 as u32 == 87 + u % 16);
                }
            };
            assert(h2 != '"' && h2 != '\\');
            assert(e =~= seq!['\\', 'u', '0', '0', h1, h2]);
            let w5 = seq![h2] + tail;
            let w4 = seq![h1] + w5;
            let w3 = seq!['0'] + w4;
            let w2 = seq!['0'] + w3;
            let w1 = seq!['u'] + w2;
            assert(w =~= seq!['\\'] + w1);
            assert(w.drop_first() =~= w1);
            assert(strip_json_ws_at(w, true, false) == seq!['\\'] + strip_json_ws_at(
                w1,
                true,
                true,
            ));
            assert(w1.drop_first() =~= w2);
            assert(strip_json_ws_at(w1, true, true) == seq!['u'] + strip_json_ws_at(
                w2,
                true,
                false,
            ));
            assert(w2.drop_first() =~= w3);
            assert(strip_json_ws_at(w2, true, false) == seq!['0'] + strip_json_ws_at(
                w3,
                true,
                false,
            ));
            assert(w3.drop_first() =~= w4);
            assert(strip_json_ws_at(w3, true, false) == seq!['0'] + strip_json_ws_at(
                w4,
                true,
                false,
            ));
            assert(w4.drop_first() =~= w5);
            assert(h1 != '"' && h1 != '\\');
            assert(strip_json_ws_at(w4, true, false) == seq![h1] + strip_json_ws_at(
                w5,
                true,
                false,
            ));
            assert(w5.drop_first() =~= tail);
            assert(strip_json_ws_at(w5, true, false) == seq![h2] + strip_json_ws_at(
                tail,
                true,
                false,
            ));
            assert(strip_json_ws_at(w, true, false) =~= escape_chars(sc) + strip_json_ws_at(
                rest,
                true,
                false,
            ));
        } else {
            assert(e =~= seq![c]);
            assert(w[0] == c);
            assert(w.drop_first() =~= tail);
            assert(strip_json_ws_at(w, true, false) == seq![c] + strip_json_ws_at(
                tail,
                true,
                false,
            ));
            assert(strip_json_ws_at(w, true, false) =~= escape_chars(sc) + strip_json_ws_at(
                rest,
                true,
                false,
            ));
        }
    }
}

proof fn lemma_strip_quoted(sc: Seq<char>, rest: Seq<char>)
    ensures
        strip_json_ws_at(quoted_chars(sc) + rest, false, false) == quoted_chars(sc)
            + strip_json_ws_at(rest, false, false),
{
    let w = quoted_chars(sc) + rest;
    let inner = escape_chars(sc) + (seq!['"'] + rest);
    assert(w[0] == '"');
    assert(w.drop_first() =~= inner);
    assert(strip_json_ws_at(w, false, false) == seq!['"'] + strip_json_ws_at(
        inner,
        true,
        false,
    ));
    lemma_strip_string_body(sc, seq!['"'] + rest);
    assert((seq!['"'] + rest)[0] == '"');
    assert((seq!['"'] + rest).drop_first() =~= rest);
    assert(strip_json_ws_at(seq!['"'] + rest, true, false) == seq!['"'] + strip_json_ws_at(
        rest,
        false,
        false,
    ));
    assert(strip_json_ws_at(w, false, false) =~= quoted_chars(sc) + strip_json_ws_at(
        rest,
        false,
        false,
    ));
}

proof fn lemma_dec_digits_plain(n: nat)
    ensures
        plain_seg(dec_digits(n)),
    decreases n,
{
    if n < 10 {
        assert(dec_digits(n) =~= seq![crate::strutil::digit_char(n as int)]);
        assert(crate::strutil::digit_char(n as int) as u32 == 48 + n);
    } else {
        lemma_dec_digits_plain(n / 10);
        let t = dec_digits(n);
        assert(t == dec_digits(n / 10) + seq![crate::strutil::digit_char((n % 10) as int)]);
        assert(crate::strutil::digit_char((n % 10) as int) as u32 == 48 + n % 10);
        assert forall|k: int| 0 <= k < t.len() implies !is_json_ws(#[trigger] t[k]) && t[k]
            != '"' by {
            if k < dec_digits(n / 10).len() {
                assert(t[k] == dec_digits(n / 10)[k]);
            } else {
                assert(t[k] == crate::strutil::digit_char((n % 10) as int));
            }
        };
    }
}

proof fn lemma_int_chars_plain(x: int)
    ensures
        plain_seg(int_chars(x)),
{
    if x < 0 {
        lemma_dec_digits_plain((-x) as nat);
        let t = int_chars(x);
        assert(t == seq!['-'] + dec_digits((-x) as nat));
        assert forall|k: int| 0 <= k < t.len() implies !is_json_ws(#[trigger] t[k]) && t[k]
            != '"' by {
            if k == 0 {
                assert(t[0] == '-');
            } else {
                assert(t[k] == dec_digits((-x) as nat)[k - 1]);
            }
        };
    } else {
        lemma_dec_digits_plain(x as nat);
    }
}

proof fn lemma_strip_value(j: JsonValue, rest: Seq<char>)
    ensures
        strip_json_ws_at(json_chars(j) + rest, false, false) == json_chars(j)
            + strip_json_ws_at(rest, false, false),
    decreases j,
{
    match j {
        JsonValue::Null => {
            let t = seq!['n', 'u', 'l', 'l'];
            assert(plain_seg(t)) by {
                assert forall|k: int| 0 <= k < t.len() implies !is_json_ws(#[trigger] t[k])
                    && t[k] != '"' by {
                    assert(t[k] == 'n' || t[k] == 'u' || t[k] == 'l');
                };
            };
            lemma_strip_plain(t, rest);
        },
        JsonValue::Bool(b) => {
            let t = json_chars(j);
            assert(plain_seg(t)) by {
                assert forall|k: int| 0 <= k < t.len() implies !is_json_ws(#[trigger] t[k])
                    && t[k] != '"' by {
                    if b {
                        assert(t[k] == 't' || t[k] == 'r' || t[k] == 'u' || t[k] == 'e');
                    } else {
                        assert(t[k] == 'f' || t[k] == 'a' || t[k] == 'l' || t[k] == 's' || t[k]
                            == 'e');
                    }
                };
            };
            lemma_strip_plain(t, rest);
        },
        JsonValue::Int(x) => {
            lemma_int_chars_plain(x as int);
            lemma_strip_plain(int_chars(x as int), rest);
        },
        JsonValue::Str(sc) => {
            lemma_strip_quoted(sc@, rest);
        },
        JsonValue::Arr(v) => {
            let body = arr_body_chars(v@);
            let after = body + (seq![']'] + rest);
            let w = json_chars(j) + rest;
            assert(w =~= seq!['['] + after);
            assert(w[0] == '[');
            assert(w.drop_first() =~= after);
            assert(strip_json_ws_at(w, false, false) == seq!['['] + strip_json_ws_at(
                after,
                false,
                false,
            ));
            lemma_strip_arr_body(v@, seq![']'] + rest);
            assert((seq![']'] + rest)[0] == ']');
            assert((seq![']'] + rest).drop_first() =~= rest);
            assert(strip_json_ws_at(seq![']'] + rest, false, false) == seq![']']
                + strip_json_ws_at(rest, false, false));
            assert(strip_json_ws_at(w, false, false) =~= json_chars(j) + strip_json_ws_at(
                rest,
                false,
                false,
            ));
        },
        JsonValue::Obj(v) => {
            let body = obj_body_chars(v@);
            let after = body + (seq!['}'] + rest);
            let w = json_chars(j) + rest;
            assert(w =~= seq!['{'] + after);
            assert(w[0] == '{');
            assert(w.drop_first() =~= after);
            assert(strip_json_ws_at(w, false, false) == seq!['{'] + strip_json_ws_at(
                after,
                false,
                false,
            ));
            lemma_strip_obj_body(v@, seq!['}'] + rest);
            assert((seq!['}'] + rest)[0] == '}');
            assert((seq!['}'] + rest).drop_first() =~= rest);
            assert(strip_json_ws_at(seq!['}'] + rest, false, false) == seq!['}']
                + strip_json_ws_at(rest, false, false));
            assert(strip_json_ws_at(w, false, false) =~= json_chars(j) + strip_json_ws_at(
                rest,
                false,
                false,
            ));
        },
    }
}

proof fn lemma_strip_arr_body(elems: Seq<JsonValue>, rest: Seq<char>)
    ensures
        strip_json_ws_at(arr_body_chars(elems) + rest, false, false) == arr_body_chars(elems)
            + strip_json_ws_at(rest, false, false),
    decreases elems,
{
    if elems.len() == 0 {
        assert(arr_body_chars(elems) + rest =~= rest);
        assert(arr_body_chars(elems) + strip_json_ws_at(rest, false, false)
            =~= strip_json_ws_at(rest, false, false));
    } else if elems.len() == 1 {
        assert(arr_body_chars(elems) == json_chars(elems[0]));
        lemma_strip_value(elems[0], rest);
    } else {
        let tail_body = arr_body_chars(elems.drop_first());
        let after0 = seq![','] + (tail_body + rest);
        let w = arr_body_chars(elems) + rest;
        assert(w =~= json_chars(elems[0]) + after0);
        lemma_strip_value(elems[0], after0);
        assert(after0[0] == ',');
        assert(after0.drop_first() =~= tail_body + rest);
        assert(strip_json_ws_at(after0, false, false) == seq![','] + strip_json_ws_at(
            tail_body + rest,
            false,
            false,
        ));
        lemma_strip_arr_body(elems.drop_first(), rest);
        assert(strip_json_ws_at(w, false, false) =~= arr_body_chars(elems) + strip_json_ws_at(
            rest,
            false,
            false,
        ));
    }
}

proof fn lemma_strip_obj_body(entries: Seq<(String, JsonValue)>, rest: Seq<char>)
    ensures
        strip_json_ws_at(obj_body_chars(entries) + rest, false, false) == obj_body_chars(
            entries,
        ) + strip_json_ws_at(rest, false, false),
    decreases entries,
{
    if entries.len() == 0 {
        assert(obj_body_chars(entries) + rest =~= rest);
        assert(obj_body_chars(entries) + strip_json_ws_at(rest, false, false)
            =~= strip_json_ws_at(rest, false, false));
    } else if entries.len() == 1 {
        assert(obj_body_chars(entries) == entry_chars(entries[0]));
        lemma_strip_entry(entries[0], rest);
    } else {
        let tail_body = obj_body_chars(entries.drop_first());
        let after0 = seq![','] + (tail_body + rest);
        let w = obj_body_chars(entries) + rest;
        assert(w =~= entry_chars(entries[0]) + after0);
        lemma_strip_entry(entries[0], after0);
        assert(after0[0] == ',');
        assert(after0.drop_first() =~= tail_body + rest);
        assert(strip_json_ws_at(after0, false, false) == seq![','] + strip_json_ws_at(
            tail_body + rest,
            false,
            false,
        ));
        lemma_strip_obj_body(entries.drop_first(), rest);
        assert(strip_json_ws_at(w, false, false) =~= obj_body_chars(entries)
            + strip_json_ws_at(rest, false, false));
    }
}

proof fn lemma_strip_entry(e: (String, JsonValue), rest: Seq<char>)
    ensures
        strip_json_ws_at(entry_chars(e) + rest, false, false) == entry_chars(e)
            + strip_json_ws_at(rest, false, false),
    decreases e,
{
    let after_key = seq![':'] + (json_chars(e.1) + rest);
    let w = entry_chars(e) + rest;
    assert(w =~= quoted_chars(e.0@) + after_key);
    lemma_strip_quoted(e.0@, after_key);
    assert(after_key[0] == ':');
    assert(after_key.drop_first() =~= json_chars(e.1) + rest);
    assert(strip_json_ws_at(after_key, false, false) == seq![':'] + strip_json_ws_at(
        json_chars(e.1) + rest,
        false,
        false,
    ));
    lemma_strip_value(e.1, rest);
    assert(strip_json_ws_at(w, false, false) =~= entry_chars(e) + strip_json_ws_at(
        rest,
        false,
        false,
    ));
}

/// Canonical text is strip-invariant: it holds no insignificant
/// whitespace, so discarding whitespace leaves it untouched.
pub proof fn lemma_strip_canonical(j: JsonValue)
    ensures
        strip_json_ws(json_chars(j)) == json_chars(j),
{
    lemma_strip_value(j, Seq::<char>::empty());
    assert(json_chars(j) + Seq::<char>::empty() =~= json_chars(j));
    assert(strip_json_ws_at(Seq::<char>::empty(), false, false) == Seq::<char>::empty());
    assert(json_chars(j) + strip_json_ws_at(Seq::<char>::empty(), false, false)
        =~= json_chars(j));
}

} // verus!
