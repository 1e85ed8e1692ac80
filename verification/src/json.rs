use vstd::prelude::*;

use crate::text::{digit_char, push_char};

verus! {

broadcast use vstd::std_specs::vec::group_vec_axioms;

/// A JSON value held as plain data, so that decoding and rendering are
/// ordinary logic on it. Numbers are kept as their literal text, which keeps
/// non-integer numbers exact.
#[derive(Debug, PartialEq, Eq)]
pub enum JsonValue {
    Null,
    Bool(bool),
    Num(String),
    Str(String),
    Arr(Vec<JsonValue>),
    Obj(Vec<(String, JsonValue)>),
}

pub open spec fn hex_char(d: nat) -> char {
    if d < 10 {
        digit_char(d)
    } else if d == 10 { 'a' }
    else if d == 11 { 'b' }
    else if d == 12 { 'c' }
    else if d == 13 { 'd' }
    else if d == 14 { 'e' }
    else { 'f' }
}

/// How one character appears inside a JSON string literal: the two-character
/// short escapes, `\u00..` for the remaining control characters, and the
/// character itself otherwise.
pub open spec fn escape_char(c: char) -> Seq<char> {
    if c == '"' {
        seq!['\\', '"']
    } else if c == '\\' {
        seq!['\\', '\\']
    } else if c == '\n' {
        seq!['\\', 'n']
    } else if c == '\r' {
        seq!['\\', 'r']
    } else if c == '\t' {
        seq!['\\', 't']
    } else if (c as u32) == 8 {
        seq!['\\', 'b']
    } else if (c as u32) == 12 {
        seq!['\\', 'f']
    } else if (c as u32) < 32 {
        seq!['\\', 'u', '0', '0', hex_char(((c as u32) / 16) as nat), hex_char(
            ((c as u32) % 16) as nat,
        )]
    } else {
        seq![c]
    }
}

pub open spec fn escape_str(s: Seq<char>) -> Seq<char>
    decreases s.len(),
{
    if s.len() == 0 {
        Seq::empty()
    } else {
        escape_str(s.drop_last()) + escape_char(s.last())
    }
}

proof fn lemma_escape_take_step(s: Seq<char>, i: int)
    requires
        0 < i <= s.len(),
    ensures
        escape_str(s.take(i)) == escape_str(s.take(i - 1)) + escape_char(s[i - 1]),
{
    assert(s.take(i).drop_last() =~= s.take(i - 1));
    assert(s.take(i).last() == s[i - 1]);
}

/// The text of a JSON value: `null`, `true`/`false`, the number's own text,
/// strings quoted and escaped, arrays and objects with their members in
/// order, separated by commas.
pub open spec fn render(v: JsonValue) -> Seq<char>
    decreases v,
{
    match v {
        JsonValue::Null => seq!['n', 'u', 'l', 'l'],
        JsonValue::Bool(b) => if b {
            seq!['t', 'r', 'u', 'e']
        } else {
            seq!['f', 'a', 'l', 's', 'e']
        },
        JsonValue::Num(s) => s@,
        JsonValue::Str(s) => seq!['"'] + escape_str(s@) + seq!['"'],
        JsonValue::Arr(items) => seq!['['] + render_items(items@) + seq![']'],
        JsonValue::Obj(fields) => seq!['{'] + render_fields(fields@) + seq!['}'],
    }
}

pub open spec fn render_items(s: Seq<JsonValue>) -> Seq<char>
    decreases s,
{
    if s.len() == 0 {
        Seq::empty()
    } else if s.len() == 1 {
        render(s[0])
    } else {
        render_items(s.drop_last()) + seq![','] + render(s.last())
    }
}

pub open spec fn render_field(f: (String, JsonValue)) -> Seq<char>
    decreases f,
{
    seq!['"'] + escape_str(f.0@) + seq!['"', ':'] + render(f.1)
}

pub open spec fn render_fields(s: Seq<(String, JsonValue)>) -> Seq<char>
    decreases s,
{
    if s.len() == 0 {
        Seq::empty()
    } else if s.len() == 1 {
        render_field(s[0])
    } else {
        render_fields(s.drop_last()) + seq![','] + render_field(s.last())
    }
}

fn hex_to_char(d: u32) -> (c: char)
    requires
        d < 16,
    ensures
        c == hex_char(d as nat),
{
    match d {
        0 => '0',
        1 => '1',
        2 => '2',
        3 => '3',
        4 => '4',
        5 => '5',
        6 => '6',
        7 => '7',
        8 => '8',
        9 => '9',
        10 => 'a',
        11 => 'b',
        12 => 'c',
        13 => 'd',
        14 => 'e',
        _ => 'f',
    }
}

fn append_escaped_char(out: &mut String, c: char)
    ensures
        final(out)@ == old(out)@ + escape_char(c),
{
    let u = c as u32;
    if c == '"' {
        push_char(out, '\\');
        push_char(out, '"');
    } else if c == '\\' {
        push_char(out, '\\');
        push_char(out, '\\');
    } else if c == '\n' {
        push_char(out, '\\');
        push_char(out, 'n');
    } else if c == '\r' {
        push_char(out, '\\');
        push_char(out, 'r');
    } else if c == '\t' {
        push_char(out, '\\');
        push_char(out, 't');
    } else if u == 8 {
        push_char(out, '\\');
        push_char(out, 'b');
    } else if u == 12 {
        push_char(out, '\\');
        push_char(out, 'f');
    } else if u < 32 {
        push_char(out, '\\');
        push_char(out, 'u');
        push_char(out, '0');
        push_char(out, '0');
        push_char(out, hex_to_char(u / 16));
        push_char(out, hex_to_char(u % 16));
    } else {
        push_char(out, c);
    }
    assert(out@ =~= old(out)@ + escape_char(c));
}

/// Quotes and escapes a string as a JSON string literal body.
fn append_escaped(out: &mut String, s: &str)
    ensures
        final(out)@ == old(out)@ + escape_str(s@),
{
    let n = s.unicode_len();
    let mut i: usize = 0;
    while i < n
        invariant
            0 <= i <= n,
            n == s@.len(),
            out@ == old(out)@ + escape_str(s@.take(i as int)),
        decreases n - i,
    {
        let c = s.get_char(i);
        append_escaped_char(out, c);
        proof {
            lemma_escape_take_step(s@, i + 1);
        }
        i = i + 1;
    }
    proof {
        assert(s@.take(n as int) =~= s@);
    }
}

proof fn lemma_render_items_take_step(s: Seq<JsonValue>, i: int)
    requires
        0 < i <= s.len(),
    ensures
        i == 1 ==> render_items(s.take(i)) == render(s[0]),
        i > 1 ==> render_items(s.take(i)) == render_items(s.take(i - 1)) + seq![','] + render(
            s[i - 1],
        ),
{
    assert(s.take(i).drop_last() =~= s.take(i - 1));
    assert(s.take(i).last() == s[i - 1]);
}

proof fn lemma_render_fields_take_step(s: Seq<(String, JsonValue)>, i: int)
    requires
        0 < i <= s.len(),
    ensures
        i == 1 ==> render_fields(s.take(i)) == render_field(s[0]),
        i > 1 ==> render_fields(s.take(i)) == render_fields(s.take(i - 1)) + seq![','] + render_field(
            s[i - 1],
        ),
{
    assert(s.take(i).drop_last() =~= s.take(i - 1));
    assert(s.take(i).last() == s[i - 1]);
}

/// The value of the first field with the given name, if any.
pub open spec fn obj_lookup(fields: Seq<(String, JsonValue)>, key: Seq<char>) -> Option<
    JsonValue,
>
    decreases fields.len(),
{
    if fields.len() == 0 {
        None
    } else if fields[0].0@ == key {
        Some(fields[0].1)
    } else {
        obj_lookup(fields.drop_first(), key)
    }
}

/// Finds the field with the given name in an object's field list.
pub fn lookup_field<'a>(fields: &'a Vec<(String, JsonValue)>, key: &str) -> (r: Option<
    &'a JsonValue,
>)
    ensures
        match r {
            Some(v) => obj_lookup(fields@, key@) == Some(*v),
            None => obj_lookup(fields@, key@) is None,
        },
{
    let n = fields.len();
    let mut i: usize = 0;
    proof {
        assert(fields@.skip(0) =~= fields@);
    }
    while i < n
        invariant
            0 <= i <= n,
            n == fields@.len(),
            obj_lookup(fields@, key@) == obj_lookup(fields@.skip(i as int), key@),
        decreases n - i,
    {
        proof {
            assert(fields@.skip(i as int)[0] == fields@[i as int]);
        }
        if crate::text::str_eq(fields[i].0.as_str(), key) {
            return Some(&fields[i].1);
        }
        proof {
            assert(fields@.skip(i as int).drop_first() =~= fields@.skip(i as int + 1));
        }
        i = i + 1;
    }
    proof {
        assert(fields@.skip(n as int) =~= Seq::<(String, JsonValue)>::empty());
    }
    None
}

impl JsonValue {
    /// The JSON text of this value.
    #[verifier::loop_isolation(false)]
    pub fn to_text(&self) -> (r: String)
        ensures
            r@ == render(*self),
        decreases *self,
    {
        match self {
            JsonValue::Null => {
                let r = String::from_str("null");
                proof {
                    reveal_strlit("null");
                    assert(r@ =~= render(*self));
                }
                r
            },
            JsonValue::Bool(b) => {
                if *b {
                    let r = String::from_str("true");
                    proof {
                        reveal_strlit("true");
                        assert(r@ =~= render(*self));
                    }
                    r
                } else {
                    let r = String::from_str("false");
                    proof {
                        reveal_strlit("false");
                        assert(r@ =~= render(*self));
                    }
                    r
                }
            },
            JsonValue::Num(s) => s.clone(),
            JsonValue::Str(s) => {
                let mut out = String::new();
                push_char(&mut out, '"');
                append_escaped(&mut out, s.as_str());
                push_char(&mut out, '"');
                proof {
                    assert(out@ =~= render(*self));
                }
                out
            },
            JsonValue::Arr(items) => {
                let mut out = String::new();
                push_char(&mut out, '[');
                let mut i: usize = 0;
                while i < items.len()
                    invariant
                        0 <= i <= items@.len(),
                        *self == JsonValue::Arr(*items),
                        out@ == seq!['['] + render_items(items@.take(i as int)),
                    decreases items@.len() - i,
                {
                    if i > 0 {
                        push_char(&mut out, ',');
                    }
                    let piece = items[i].to_text();
                    out.append(piece.as_str());
                    proof {
                        lemma_render_items_take_step(items@, i + 1);
                        assert(out@ =~= seq!['['] + render_items(items@.take(i + 1)));
                    }
                    i = i + 1;
                }
                push_char(&mut out, ']');
                proof {
                    assert(items@.take(items@.len() as int) =~= items@);
                    assert(out@ =~= render(*self));
                }
                out
            },
            JsonValue::Obj(fields) => {
                let mut out = String::new();
                push_char(&mut out, '{');
                let mut i: usize = 0;
                while i < fields.len()
                    invariant
                        0 <= i <= fields@.len(),
                        *self == JsonValue::Obj(*fields),
                        out@ == seq!['{'] + render_fields(fields@.take(i as int)),
                    decreases fields@.len() - i,
                {
                    if i > 0 {
                        push_char(&mut out, ',');
                    }
                    push_char(&mut out, '"');
                    append_escaped(&mut out, fields[i].0.as_str());
                    push_char(&mut out, '"');
                    push_char(&mut out, ':');
                    let piece = fields[i].1.to_text();
                    out.append(piece.as_str());
                    proof {
                        lemma_render_fields_take_step(fields@, i + 1);
                        assert(out@ =~= seq!['{'] + render_fields(fields@.take(i + 1)));
                    }
                    i = i + 1;
                }
                push_char(&mut out, '}');
                proof {
                    assert(fields@.take(fields@.len() as int) =~= fields@);
                    assert(out@ =~= render(*self));
                }
                out
            },
        }
    }
}

} // verus!
