//! The library's JSON value model and its two renderers.
//!
//! Numbers are carried as their rendered literal text, so a value can be
//! re-emitted byte-for-byte without floating point.  `encode_json` renders
//! compactly; `encode_json_pretty` renders with two-space indentation, the
//! layout conventional pretty printers produce.

use vstd::prelude::*;

verus! {

use crate::text::push_str_chars;
use crate::text::push_chars;
use crate::text::chars_of;
use crate::text::string_from_chars;

/// A JSON value.  A `Number` holds the literal text it was rendered from.
#[derive(Debug)]
pub enum JsonValue {
    Null,
    Bool(bool),
    Number(String),
    Str(String),
    Array(Vec<JsonValue>),
    Object(Vec<(String, JsonValue)>),
}

/// The low hexadecimal digit of the code of a control character below
/// `0x20`; `'0'` for any other character.
pub open spec fn spec_low_hex(c: char) -> char {
    if c == '\u{0}' { '0' }
    else if c == '\u{1}' { '1' }
    else if c == '\u{2}' { '2' }
    else if c == '\u{3}' { '3' }
    else if c == '\u{4}' { '4' }
    else if c == '\u{5}' { '5' }
    else if c == '\u{6}' { '6' }
    else if c == '\u{7}' { '7' }
    else if c == '\u{8}' { '8' }
    else if c == '\u{9}' { '9' }
    else if c == '\u{a}' { 'a' }
    else if c == '\u{b}' { 'b' }
    else if c == '\u{c}' { 'c' }
    else if c == '\u{d}' { 'd' }
    else if c == '\u{e}' { 'e' }
    else if c == '\u{f}' { 'f' }
    else if c == '\u{10}' { '0' }
    else if c == '\u{11}' { '1' }
    else if c == '\u{12}' { '2' }
    else if c == '\u{13}' { '3' }
    else if c == '\u{14}' { '4' }
    else if c == '\u{15}' { '5' }
    else if c == '\u{16}' { '6' }
    else if c == '\u{17}' { '7' }
    else if c == '\u{18}' { '8' }
    else if c == '\u{19}' { '9' }
    else if c == '\u{1a}' { 'a' }
    else if c == '\u{1b}' { 'b' }
    else if c == '\u{1c}' { 'c' }
    else if c == '\u{1d}' { 'd' }
    else if c == '\u{1e}' { 'e' }
    else if c == '\u{1f}' { 'f' }
    else { '0' }
}

/// How one character is written inside a JSON string literal: quotes and
/// backslashes are escaped, control characters get their short escape or a
/// `\u00..` form, and everything else stands as itself.
pub open spec fn spec_escape_char(c: char) -> Seq<char> {
    if c == '"' { seq!['\\', '"'] }
    else if c == '\\' { seq!['\\', '\\'] }
    else if c == '\u{8}' { seq!['\\', 'b'] }
    else if c == '\t' { seq!['\\', 't'] }
    else if c == '\n' { seq!['\\', 'n'] }
    else if c == '\u{c}' { seq!['\\', 'f'] }
    else if c == '\r' { seq!['\\', 'r'] }
    else if c <= '\u{1f}' {
        seq!['\\', 'u', '0', '0', if c <= '\u{f}' { '0' } else { '1' }, spec_low_hex(c)]
    } else {
        seq![c]
    }
}

/// The escaped form of the first `i` characters of `s`.
pub open spec fn spec_escape_prefix(s: Seq<char>, i: int) -> Seq<char>
    decreases i,
{
    if i <= 0 {
        Seq::empty()
    } else {
        spec_escape_prefix(s, i - 1) + spec_escape_char(s[i - 1])
    }
}

/// The body of a JSON string literal for the text `s`.
pub open spec fn spec_escape(s: Seq<char>) -> Seq<char> {
    spec_escape_prefix(s, s.len() as int)
}

/// Text with no character that needs escaping passes through the string
/// escaper unchanged.
pub proof fn lemma_escape_plain(s: Seq<char>)
    requires
        forall|j: int|
            0 <= j < s.len() ==> (#[trigger] s[j]) != '"' && s[j] != '\\' && !(s[j]
                <= '\u{1f}'),
    ensures
        spec_escape(s) == s,
{
    lemma_escape_plain_prefix(s, s.len() as int);
    assert(spec_escape_prefix(s, s.len() as int) =~= s);
}

proof fn lemma_escape_plain_prefix(s: Seq<char>, i: int)
    requires
        0 <= i <= s.len(),
        forall|j: int|
            0 <= j < s.len() ==> (#[trigger] s[j]) != '"' && s[j] != '\\' && !(s[j]
                <= '\u{1f}'),
    ensures
        spec_escape_prefix(s, i) == s.subrange(0, i),
    decreases i,
{
    if i > 0 {
        lemma_escape_plain_prefix(s, i - 1);
        assert(spec_escape_char(s[i - 1]) =~= seq![s[i - 1]]);
        assert(spec_escape_prefix(s, i) =~= s.subrange(0, i));
    }
}

/// A JSON string literal for the text `s`, quotes included.
pub open spec fn spec_quoted(s: Seq<char>) -> Seq<char> {
    seq!['"'] + spec_escape(s) + seq!['"']
}

/// The compact rendering of `v`: no whitespace, `,` and `:` separators.
pub open spec fn spec_encode(v: JsonValue) -> Seq<char>
    decreases v, 1int, 0int,
{
    match v {
        JsonValue::Null => seq!['n', 'u', 'l', 'l'],
        JsonValue::Bool(b) => if b {
            seq!['t', 'r', 'u', 'e']
        } else {
            seq!['f', 'a', 'l', 's', 'e']
        },
        JsonValue::Number(t) => t@,
        JsonValue::Str(s) => spec_quoted(s@),
        JsonValue::Array(items) => seq!['['] + spec_encode_items(items, 0) + seq![']'],
        JsonValue::Object(entries) => seq!['{'] + spec_encode_entries(entries, 0) + seq!['}'],
    }
}

/// The compact rendering of the items of an array from index `i` on,
/// joined by commas.
pub open spec fn spec_encode_items(items: Vec<JsonValue>, i: int) -> Seq<char>
    decreases items, 0int, items@.len() - i,
{
    if i < 0 || i >= items@.len() {
        Seq::empty()
    } else if i + 1 == items@.len() {
        spec_encode(items@[i])
    } else {
        spec_encode(items@[i]) + seq![','] + spec_encode_items(items, i + 1)
    }
}

/// The compact rendering of the entries of an object from index `i` on:
/// quoted key, colon, value, joined by commas.
pub open spec fn spec_encode_entries(entries: Vec<(String, JsonValue)>, i: int) -> Seq<char>
    decreases entries, 0int, entries@.len() - i,
{
    if i < 0 || i >= entries@.len() {
        Seq::empty()
    } else {
        let head = spec_quoted(entries@[i].0@) + seq![':'] + spec_encode(entries@[i].1);
        if i + 1 == entries@.len() {
            head
        } else {
            head + seq![','] + spec_encode_entries(entries, i + 1)
        }
    }
}

fn low_hex_char(c: char) -> (r: char)
    ensures
        r == spec_low_hex(c),
{
    if c == '\u{0}' { '0' }
    else if c == '\u{1}' { '1' }
    else if c == '\u{2}' { '2' }
    else if c == '\u{3}' { '3' }
    else if c == '\u{4}' { '4' }
    else if c == '\u{5}' { '5' }
    else if c == '\u{6}' { '6' }
    else if c == '\u{7}' { '7' }
    else if c == '\u{8}' { '8' }
    else if c == '\u{9}' { '9' }
    else if c == '\u{a}' { 'a' }
    else if c == '\u{b}' { 'b' }
    else if c == '\u{c}' { 'c' }
    else if c == '\u{d}' { 'd' }
    else if c == '\u{e}' { 'e' }
    else if c == '\u{f}' { 'f' }
    else if c == '\u{10}' { '0' }
    else if c == '\u{11}' { '1' }
    else if c == '\u{12}' { '2' }
    else if c == '\u{13}' { '3' }
    else if c == '\u{14}' { '4' }
    else if c == '\u{15}' { '5' }
    else if c == '\u{16}' { '6' }
    else if c == '\u{17}' { '7' }
    else if c == '\u{18}' { '8' }
    else if c == '\u{19}' { '9' }
    else if c == '\u{1a}' { 'a' }
    else if c == '\u{1b}' { 'b' }
    else if c == '\u{1c}' { 'c' }
    else if c == '\u{1d}' { 'd' }
    else if c == '\u{1e}' { 'e' }
    else if c == '\u{1f}' { 'f' }
    else { '0' }
}

/// Append the escaped form of `s` to `out`.
fn push_escaped(out: &mut Vec<char>, s: &str)
    ensures
        final(out)@ == old(out)@ + spec_escape(s@),
{
    let cs = chars_of(s);
    let mut i: usize = 0;
    while i < cs.len()
        invariant
            i <= cs.len(),
            cs@ == s@,
            out@ == old(out)@ + spec_escape_prefix(s@, i as int),
        decreases cs.len() - i,
    {
        let c = cs[i];
        if c == '"' {
            out.push('\\');
            out.push('"');
        } else if c == '\\' {
            out.push('\\');
            out.push('\\');
        } else if c == '\u{8}' {
            out.push('\\');
            out.push('b');
        } else if c == '\t' {
            out.push('\\');
            out.push('t');
        } else if c == '\n' {
            out.push('\\');
            out.push('n');
        } else if c == '\u{c}' {
            out.push('\\');
            out.push('f');
        } else if c == '\r' {
            out.push('\\');
            out.push('r');
        } else if c <= '\u{1f}' {
            out.push('\\');
            out.push('u');
            out.push('0');
            out.push('0');
            if c <= '\u{f}' {
                out.push('0');
            } else {
                out.push('1');
            }
            out.push(low_hex_char(c));
        } else {
            out.push(c);
        }
        i = i + 1;
        assert(spec_escape_prefix(s@, i as int) =~= spec_escape_prefix(s@, i - 1) + spec_escape_char(
            s@[i - 1],
        ));
        assert(out@ =~= old(out)@ + spec_escape_prefix(s@, i as int));
    }
}

/// Append the quoted, escaped JSON string literal for `s` to `out`.
fn push_quoted(out: &mut Vec<char>, s: &str)
    ensures
        final(out)@ == old(out)@ + spec_quoted(s@),
{
    out.push('"');
    push_escaped(out, s);
    out.push('"');
    assert(out@ =~= old(out)@ + spec_quoted(s@));
}

/// Append the compact rendering of `v` to `out`.
#[verifier::loop_isolation(false)]
pub fn encode_json_into(v: &JsonValue, out: &mut Vec<char>)
    ensures
        final(out)@ == old(out)@ + spec_encode(*v),
    decreases *v,
{
    match v {
        JsonValue::Null => {
            out.push('n');
            out.push('u');
            out.push('l');
            out.push('l');
            assert(out@ =~= old(out)@ + spec_encode(*v));
        }
        JsonValue::Bool(b) => {
            if *b {
                out.push('t');
                out.push('r');
                out.push('u');
                out.push('e');
            } else {
                out.push('f');
                out.push('a');
                out.push('l');
                out.push('s');
                out.push('e');
            }
            assert(out@ =~= old(out)@ + spec_encode(*v));
        }
        JsonValue::Number(t) => {
            push_str_chars(out, t.as_str());
        }
        JsonValue::Str(s) => {
            push_quoted(out, s.as_str());
        }
        JsonValue::Array(items) => {
            out.push('[');
            let mut i: usize = 0;
            while i < items.len()
                invariant
                    i <= items@.len(),
                    out@ + spec_encode_items(*items, i as int) == old(out)@ + spec_encode(
                        JsonValue::Array(*items),
                    ).drop_last(),
                decreases items.len() - i,
            {
                proof {
                    let vv = *v;
                    let vi = vv->Array_0;
                    let vs = vi@;
                    let k = i as int;
                    assert(vi == *items);
                    assert(decreases_to!(vv => vv->Array_0));
                    assert(decreases_to!(vi => vi@));
                    assert(decreases_to!(vs => vs[k]));
                    assert(decreases_to!(*v => items@[i as int]));
                }
                encode_json_into(&items[i], out);
                if i + 1 < items.len() {
                    out.push(',');
                }
                i = i + 1;
                assert(out@ + spec_encode_items(*items, i as int) =~= old(out)@ + spec_encode(
                    JsonValue::Array(*items),
                ).drop_last());
            }
            out.push(']');
            assert(out@ =~= old(out)@ + spec_encode(*v));
        }
        JsonValue::Object(entries) => {
            out.push('{');
            let mut i: usize = 0;
            while i < entries.len()
                invariant
                    i <= entries@.len(),
                    out@ + spec_encode_entries(*entries, i as int) == old(out)@ + spec_encode(
                        JsonValue::Object(*entries),
                    ).drop_last(),
                decreases entries.len() - i,
            {
                proof {
                    let vv = *v;
                    let vi = vv->Object_0;
                    let vs = vi@;
                    let k = i as int;
                    assert(vi == *entries);
                    assert(decreases_to!(vv => vv->Object_0));
                    assert(decreases_to!(vi => vi@));
                    assert(decreases_to!(vs => vs[k]));
                    assert(decreases_to!(vs[k] => vs[k].1));
                    assert(decreases_to!(*v => entries@[i as int].1));
                }
                push_quoted(out, entries[i].0.as_str());
                out.push(':');
                encode_json_into(&entries[i].1, out);
                if i + 1 < entries.len() {
                    out.push(',');
                }
                i = i + 1;
                assert(out@ + spec_encode_entries(*entries, i as int) =~= old(out)@ + spec_encode(
                    JsonValue::Object(*entries),
                ).drop_last());
            }
            out.push('}');
            assert(out@ =~= old(out)@ + spec_encode(*v));
        }
    }
}

/// The compact JSON rendering of `v`.
pub fn encode_json(v: &JsonValue) -> (r: String)
    ensures
        r@ == spec_encode(*v),
{
    let mut out: Vec<char> = Vec::new();
    encode_json_into(v, &mut out);
    string_from_chars(&out)
}


/// The pretty rendering of `v` at indentation `pad`: two more spaces per
/// nesting level, one array item or object entry per line, `": "` after
/// object keys, and `[]`/`{}` for empty containers.
pub open spec fn spec_pretty(v: JsonValue, pad: Seq<char>) -> Seq<char>
    decreases v, 1int, 0int,
{
    match v {
        JsonValue::Array(items) => if items@.len() == 0 {
            seq!['[', ']']
        } else {
            seq!['['] + spec_pretty_items(items, 0, pad) + seq!['\n'] + pad + seq![']']
        },
        JsonValue::Object(entries) => if entries@.len() == 0 {
            seq!['{', '}']
        } else {
            seq!['{'] + spec_pretty_entries(entries, 0, pad) + seq!['\n'] + pad + seq!['}']
        },
        _ => spec_encode(v),
    }
}

/// The pretty rendering of the items of an array from index `i` on, each on
/// its own line, indented one level past `pad`.
pub open spec fn spec_pretty_items(items: Vec<JsonValue>, i: int, pad: Seq<char>) -> Seq<char>
    decreases items, 0int, items@.len() - i,
{
    if i < 0 || i >= items@.len() {
        Seq::empty()
    } else {
        let head = seq!['\n'] + pad + seq![' ', ' '] + spec_pretty(
            items@[i],
            pad + seq![' ', ' '],
        );
        if i + 1 == items@.len() {
            head
        } else {
            head + seq![','] + spec_pretty_items(items, i + 1, pad)
        }
    }
}

/// The pretty rendering of the entries of an object from index `i` on.
pub open spec fn spec_pretty_entries(
    entries: Vec<(String, JsonValue)>,
    i: int,
    pad: Seq<char>,
) -> Seq<char>
    decreases entries, 0int, entries@.len() - i,
{
    if i < 0 || i >= entries@.len() {
        Seq::empty()
    } else {
        let head = seq!['\n'] + pad + seq![' ', ' '] + spec_quoted(entries@[i].0@) + seq![
            ':',
            ' ',
        ] + spec_pretty(entries@[i].1, pad + seq![' ', ' ']);
        if i + 1 == entries@.len() {
            head
        } else {
            head + seq![','] + spec_pretty_entries(entries, i + 1, pad)
        }
    }
}

/// Append the pretty rendering of `v` at indentation `pad` to `out`.
#[verifier::loop_isolation(false)]
#[verifier::rlimit(60)]
pub fn encode_pretty_into(v: &JsonValue, pad: &Vec<char>, out: &mut Vec<char>)
    ensures
        final(out)@ == old(out)@ + spec_pretty(*v, pad@),
    decreases *v,
{
    match v {
        JsonValue::Array(items) => {
            if items.len() == 0 {
                out.push('[');
                out.push(']');
                assert(out@ =~= old(out)@ + spec_pretty(*v, pad@));
                return;
            }
            let mut pad2: Vec<char> = Vec::new();
            push_chars(&mut pad2, pad);
            pad2.push(' ');
            pad2.push(' ');
            out.push('[');
            let mut i: usize = 0;
            while i < items.len()
                invariant
                    i <= items@.len(),
                    pad2@ == pad@ + seq![' ', ' '],
                    out@ + spec_pretty_items(*items, i as int, pad@) == old(out)@ + seq!['['] +
                    spec_pretty_items(*items, 0, pad@),
                decreases items.len() - i,
            {
                proof {
                    let vv = *v;
                    let vi = vv->Array_0;
                    let vs = vi@;
                    let k = i as int;
                    assert(decreases_to!(vv => vv->Array_0));
                    assert(decreases_to!(vi => vi@));
                    assert(decreases_to!(vs => vs[k]));
                }
                out.push('\n');
                push_chars(out, &pad2);
                encode_pretty_into(&items[i], &pad2, out);
                if i + 1 < items.len() {
                    out.push(',');
                }
                i = i + 1;
                assert(out@ + spec_pretty_items(*items, i as int, pad@) =~= old(out)@ + seq!['[']
                    + spec_pretty_items(*items, 0, pad@));
            }
            out.push('\n');
            push_chars(out, pad);
            out.push(']');
            assert(out@ =~= old(out)@ + spec_pretty(*v, pad@));
        }
        JsonValue::Object(entries) => {
            if entries.len() == 0 {
                out.push('{');
                out.push('}');
                assert(out@ =~= old(out)@ + spec_pretty(*v, pad@));
                return;
            }
            let mut pad2: Vec<char> = Vec::new();
            push_chars(&mut pad2, pad);
            pad2.push(' ');
            pad2.push(' ');
            out.push('{');
            let mut i: usize = 0;
            while i < entries.len()
                invariant
                    i <= entries@.len(),
                    pad2@ == pad@ + seq![' ', ' '],
                    out@ + spec_pretty_entries(*entries, i as int, pad@) == old(out)@ + seq!['{']
                    + spec_pretty_entries(*entries, 0, pad@),
                decreases entries.len() - i,
            {
                proof {
                    let vv = *v;
                    let vi = vv->Object_0;
                    let vs = vi@;
                    let k = i as int;
                    assert(decreases_to!(vv => vv->Object_0));
                    assert(decreases_to!(vi => vi@));
                    assert(decreases_to!(vs => vs[k]));
                    assert(decreases_to!(vs[k] => vs[k].1));
                }
                out.push('\n');
                push_chars(out, &pad2);
                push_quoted(out, entries[i].0.as_str());
                out.push(':');
                out.push(' ');
                encode_pretty_into(&entries[i].1, &pad2, out);
                if i + 1 < entries.len() {
                    out.push(',');
                }
                i = i + 1;
                assert(out@ + spec_pretty_entries(*entries, i as int, pad@) =~= old(out)@ + seq![
                    '{',
                ] + spec_pretty_entries(*entries, 0, pad@));
            }
            out.push('\n');
            push_chars(out, pad);
            out.push('}');
            assert(out@ =~= old(out)@ + spec_pretty(*v, pad@));
        }
        _ => {
            encode_json_into(v, out);
        }
    }
}

/// The pretty JSON rendering of `v`, starting at the left margin.
pub fn encode_json_pretty(v: &JsonValue) -> (r: String)
    ensures
        r@ == spec_pretty(*v, Seq::empty()),
{
    let pad: Vec<char> = Vec::new();
    let mut out: Vec<char> = Vec::new();
    encode_pretty_into(v, &pad, &mut out);
    string_from_chars(&out)
}

impl JsonValue {
    /// A copy of a scalar literal.
    pub fn clone_scalar(&self) -> (r: JsonValue)
        requires
            !(self is Array),
            !(self is Object),
        ensures
            r == *self,
    {
        match self {
            JsonValue::Null => JsonValue::Null,
            JsonValue::Bool(b) => JsonValue::Bool(*b),
            JsonValue::Number(t) => JsonValue::Number(t.clone()),
            JsonValue::Str(t) => JsonValue::Str(t.clone()),
            _ => {
                proof {
                    assert(false);
                }
                JsonValue::Null
            },
        }
    }
}

} // verus!
