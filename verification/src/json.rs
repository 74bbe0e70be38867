//! The JSON model of the library. Values are modelled with their textual
//! atoms kept verbatim: a number holds its literal text and a string holds
//! its raw (still escaped) content, so that printing and re-parsing are exact
//! inverses. Objects keep their members in order.

use vstd::prelude::*;

use crate::text::{append_chars, str_to_chars};

verus! {

/// An executable JSON value.
#[derive(Debug, PartialEq, Eq)]
pub enum Json {
    Null,
    Bool(bool),
    /// The literal text of a number, e.g. "42" or "-1.5e3".
    Num(Vec<char>),
    /// The raw content of a string, between the quotes, escapes kept.
    Str(Vec<char>),
    Arr(Vec<Json>),
    Obj(Vec<(Vec<char>, Json)>),
}

/// The mathematical JSON value that an executable one stands for.
pub enum JsonV {
    Null,
    Bool(bool),
    Num(Seq<char>),
    Str(Seq<char>),
    Arr(Seq<JsonV>),
    Obj(Seq<(Seq<char>, JsonV)>),
}

/// The view of a sequence of executable JSON values.
pub open spec fn jv_seq(s: Seq<Json>) -> Seq<JsonV>
    decreases s,
{
    Seq::new(
        s.len(),
        |i: int|
            if 0 <= i < s.len() {
                jv(s[i])
            } else {
                JsonV::Null
            },
    )
}

/// The view of a sequence of executable object members.
pub open spec fn jv_mems(s: Seq<(Vec<char>, Json)>) -> Seq<(Seq<char>, JsonV)>
    decreases s,
{
    Seq::new(
        s.len(),
        |i: int|
            if 0 <= i < s.len() {
                (s[i].0@, jv(s[i].1))
            } else {
                (Seq::empty(), JsonV::Null)
            },
    )
}

/// The view of an executable JSON value.
pub open spec fn jv(j: Json) -> JsonV
    decreases j,
{
    match j {
        Json::Null => JsonV::Null,
        Json::Bool(b) => JsonV::Bool(b),
        Json::Num(s) => JsonV::Num(s@),
        Json::Str(s) => JsonV::Str(s@),
        Json::Arr(a) => JsonV::Arr(jv_seq(a@)),
        Json::Obj(o) => JsonV::Obj(jv_mems(o@)),
    }
}

/// A character that may stand in a number literal.
pub open spec fn num_char(c: char) -> bool {
    ('0' <= c && c <= '9') || c == '-' || c == '+' || c == '.' || c == 'e' || c == 'E'
}

/// A character that may begin a number literal.
pub open spec fn num_start(c: char) -> bool {
    ('0' <= c && c <= '9') || c == '-'
}

/// Raw string content that the scanner accepts as a whole: a backslash
/// always escapes the following character, and no unescaped quote occurs.
pub open spec fn str_ok(s: Seq<char>) -> bool
    decreases s.len(),
{
    if s.len() == 0 {
        true
    } else if s[0] == '\\' {
        s.len() >= 2 && str_ok(s.subrange(2, s.len() as int))
    } else {
        s[0] != '"' && str_ok(s.subrange(1, s.len() as int))
    }
}

/// Well-formedness of a JSON value: number literals are non-empty, start
/// like a number and hold number characters only; string contents and object
/// keys pass the scanner.
pub open spec fn wf(v: JsonV) -> bool
    decreases v,
{
    match v {
        JsonV::Null => true,
        JsonV::Bool(_) => true,
        JsonV::Num(s) => s.len() >= 1 && num_start(s[0]) && (forall|i: int|
            0 <= i < s.len() ==> num_char(#[trigger] s[i])),
        JsonV::Str(s) => str_ok(s),
        JsonV::Arr(a) => forall|i: int| 0 <= i < a.len() ==> wf(#[trigger] a[i]),
        JsonV::Obj(o) => forall|i: int|
            0 <= i < o.len() ==> str_ok(#[trigger] o[i].0) && wf(o[i].1),
    }
}

/// Compact rendering, as a mathematical function: no whitespace at all.
pub open spec fn compact(v: JsonV) -> Seq<char>
    decreases v,
{
    match v {
        JsonV::Null => "null"@,
        JsonV::Bool(b) => if b {
            "true"@
        } else {
            "false"@
        },
        JsonV::Num(s) => s,
        JsonV::Str(s) => seq!['"'] + s + seq!['"'],
        JsonV::Arr(a) => if a.len() == 0 {
            "[]"@
        } else {
            seq!['['] + compact_elems(a) + seq![']']
        },
        JsonV::Obj(o) => if o.len() == 0 {
            "{}"@
        } else {
            seq!['{'] + compact_members(o) + seq!['}']
        },
    }
}

/// The elements of a non-empty array, compactly, separated by commas.
pub open spec fn compact_elems(a: Seq<JsonV>) -> Seq<char>
    decreases a,
{
    if a.len() == 0 {
        Seq::empty()
    } else {
        compact(a[0]) + (if a.len() > 1 {
            seq![','] + compact_elems(a.drop_first())
        } else {
            Seq::empty()
        })
    }
}

/// The members of a non-empty object, compactly.
pub open spec fn compact_members(o: Seq<(Seq<char>, JsonV)>) -> Seq<char>
    decreases o,
{
    if o.len() == 0 {
        Seq::empty()
    } else {
        seq!['"'] + o[0].0 + seq!['"'] + seq![':'] + compact(o[0].1) + (if o.len() > 1 {
            seq![','] + compact_members(o.drop_first())
        } else {
            Seq::empty()
        })
    }
}

/// Pretty rendering with two-space indentation. `ind` is the indentation of
/// the surrounding line; nested values indent by two more spaces.
pub open spec fn pretty(v: JsonV, ind: Seq<char>) -> Seq<char>
    decreases v,
{
    match v {
        JsonV::Null => "null"@,
        JsonV::Bool(b) => if b {
            "true"@
        } else {
            "false"@
        },
        JsonV::Num(s) => s,
        JsonV::Str(s) => seq!['"'] + s + seq!['"'],
        JsonV::Arr(a) => if a.len() == 0 {
            "[]"@
        } else {
            seq!['['] + pretty_elems(a, ind + seq![' ', ' ']) + seq!['\n'] + ind + seq![']']
        },
        JsonV::Obj(o) => if o.len() == 0 {
            "{}"@
        } else {
            seq!['{'] + pretty_members(o, ind + seq![' ', ' ']) + seq!['\n'] + ind + seq!['}']
        },
    }
}

/// The elements of a non-empty array, each on its own line at indentation
/// `ind2`, separated by commas.
pub open spec fn pretty_elems(a: Seq<JsonV>, ind2: Seq<char>) -> Seq<char>
    decreases a,
{
    if a.len() == 0 {
        Seq::empty()
    } else {
        seq!['\n'] + ind2 + pretty(a[0], ind2) + (if a.len() > 1 {
            seq![','] + pretty_elems(a.drop_first(), ind2)
        } else {
            Seq::empty()
        })
    }
}

/// The members of a non-empty object, each on its own line.
pub open spec fn pretty_members(o: Seq<(Seq<char>, JsonV)>, ind2: Seq<char>) -> Seq<char>
    decreases o,
{
    if o.len() == 0 {
        Seq::empty()
    } else {
        seq!['\n'] + ind2 + seq!['"'] + o[0].0 + seq!['"'] + seq![':', ' '] + pretty(o[0].1, ind2)
            + (if o.len() > 1 {
            seq![','] + pretty_members(o.drop_first(), ind2)
        } else {
            Seq::empty()
        })
    }
}

/// The character of a hexadecimal digit, lower case.
pub open spec fn hex_digit(d: int) -> char {
    if d < 10 {
        ((48 + d) as u8) as char
    } else {
        ((87 + d) as u8) as char
    }
}

/// How one character of a string is rendered inside quotes: quotes and
/// backslashes get a backslash, control characters become `\u00XX`, and every
/// other character stands for itself.
pub open spec fn escape_char(c: char) -> Seq<char> {
    if c == '"' {
        seq!['\\', '"']
    } else if c == '\\' {
        seq!['\\', '\\']
    } else if (c as u32) < 32 {
        seq!['\\', 'u', '0', '0', hex_digit((c as u32 / 16) as int), hex_digit(
            (c as u32 % 16) as int,
        )]
    } else {
        seq![c]
    }
}

/// The escaped raw content standing for the plain text `s`, from index `i` on.
pub open spec fn escape_from(s: Seq<char>, i: nat) -> Seq<char>
    decreases s.len() - i,
{
    if i < s.len() {
        escape_char(s[i as int]) + escape_from(s, i + 1)
    } else {
        Seq::empty()
    }
}

/// The escaped raw content standing for the plain text `s`.
pub open spec fn escape(s: Seq<char>) -> Seq<char> {
    escape_from(s, 0)
}

/// Executable escaping of plain text into raw string content.
pub fn escape_chars(s: &Vec<char>) -> (r: Vec<char>)
    ensures
        r@ == escape(s@),
{
    let mut out: Vec<char> = Vec::new();
    let mut i: usize = 0;
    while i < s.len()
        invariant
            i <= s@.len(),
            out@ + escape_from(s@, i as nat) == escape_from(s@, 0),
        decreases s@.len() - i,
    {
        let c = s[i];
        let ghost o0 = out@;
        if c == '"' {
            out.push('\\');
            out.push('"');
        } else if c == '\\' {
            out.push('\\');
            out.push('\\');
        } else if (c as u32) < 32 {
            let cu = c as u32;
            out.push('\\');
            out.push('u');
            out.push('0');
            out.push('0');
            let d1 = (cu / 16) as u8;
            let d2 = (cu % 16) as u8;
            out.push((48 + d1) as char);
            if d2 < 10 {
                out.push((48 + d2) as char);
            } else {
                out.push((87 + d2) as char);
            }
        } else {
            out.push(c);
        }
        assert(out@ =~= o0 + escape_char(s@[i as int]));
        assert(out@ + escape_from(s@, i as nat + 1) =~= o0 + escape_from(s@, i as nat));
        i = i + 1;
    }
    assert(out@ =~= escape_from(s@, 0));
    out
}

/// Executable compact rendering, appended to `out`.
pub fn write_compact(v: &Json, out: &mut Vec<char>)
    ensures
        final(out)@ == old(out)@ + compact(jv(*v)),
    decreases *v,
{
    let ghost o0 = out@;
    match v {
        Json::Null => append_chars(out, &str_to_chars("null")),
        Json::Bool(b) => append_chars(out, &str_to_chars(if *b { "true" } else { "false" })),
        Json::Num(s) => append_chars(out, s),
        Json::Str(s) => {
            out.push('"');
            append_chars(out, s);
            out.push('"');
            assert(out@ =~= o0 + (seq!['"'] + s@ + seq!['"']));
        },
        Json::Arr(a) => {
            if a.len() == 0 {
                append_chars(out, &str_to_chars("[]"));
                assert(jv_seq(a@).len() == 0);
            } else {
                out.push('[');
                write_compact_elems(a, 0, out);
                out.push(']');
                assert(out@ =~= o0 + (seq!['['] + compact_elems(jv_seq(a@).skip(0)) + seq![']']));
                assert(jv_seq(a@).skip(0) =~= jv_seq(a@));
            }
        },
        Json::Obj(o) => {
            if o.len() == 0 {
                append_chars(out, &str_to_chars("{}"));
                assert(jv_mems(o@).len() == 0);
            } else {
                out.push('{');
                write_compact_members(o, 0, out);
                out.push('}');
                assert(out@ =~= o0 + (seq!['{'] + compact_members(jv_mems(o@).skip(0)) + seq![
                    '}',
                ]));
                assert(jv_mems(o@).skip(0) =~= jv_mems(o@));
            }
        },
    }
}

/// Compact rendering of the array elements from index `i` on.
fn write_compact_elems(a: &Vec<Json>, i: usize, out: &mut Vec<char>)
    requires
        i < a@.len(),
    ensures
        final(out)@ == old(out)@ + compact_elems(jv_seq(a@).skip(i as int)),
    decreases a@, a@.len() - i,
{
    let n = a.len();
    let ghost o0 = out@;
    let ghost tail = jv_seq(a@).skip(i as int);
    write_compact(&a[i], out);
    assert(tail[0] == jv(a@[i as int]));
    if i + 1 < n {
        out.push(',');
        write_compact_elems(a, i + 1, out);
        assert(tail.drop_first() =~= jv_seq(a@).skip(i as int + 1));
        assert(out@ =~= o0 + (compact(tail[0]) + (seq![','] + compact_elems(tail.drop_first()))));
    } else {
        assert(tail.len() == 1);
        assert(out@ =~= o0 + (compact(tail[0]) + Seq::<char>::empty()));
    }
}

/// Compact rendering of the object members from index `i` on.
fn write_compact_members(o: &Vec<(Vec<char>, Json)>, i: usize, out: &mut Vec<char>)
    requires
        i < o@.len(),
    ensures
        final(out)@ == old(out)@ + compact_members(jv_mems(o@).skip(i as int)),
    decreases o@, o@.len() - i,
{
    let n = o.len();
    let ghost o0 = out@;
    let ghost tail = jv_mems(o@).skip(i as int);
    out.push('"');
    append_chars(out, &o[i].0);
    out.push('"');
    out.push(':');
    write_compact(&o[i].1, out);
    assert(tail[0] == (o@[i as int].0@, jv(o@[i as int].1)));
    if i + 1 < n {
        out.push(',');
        write_compact_members(o, i + 1, out);
        assert(tail.drop_first() =~= jv_mems(o@).skip(i as int + 1));
        assert(out@ =~= o0 + (seq!['"'] + tail[0].0 + seq!['"'] + seq![':'] + compact(tail[0].1)
            + (seq![','] + compact_members(tail.drop_first()))));
    } else {
        assert(tail.len() == 1);
        assert(out@ =~= o0 + (seq!['"'] + tail[0].0 + seq!['"'] + seq![':'] + compact(tail[0].1)
            + Seq::<char>::empty()));
    }
}

/// Executable pretty rendering, appended to `out`, at indentation `ind`.
pub fn write_pretty(v: &Json, ind: &Vec<char>, out: &mut Vec<char>)
    ensures
        final(out)@ == old(out)@ + pretty(jv(*v), ind@),
    decreases *v,
{
    let ghost o0 = out@;
    match v {
        Json::Null => append_chars(out, &str_to_chars("null")),
        Json::Bool(b) => append_chars(out, &str_to_chars(if *b { "true" } else { "false" })),
        Json::Num(s) => append_chars(out, s),
        Json::Str(s) => {
            out.push('"');
            append_chars(out, s);
            out.push('"');
            assert(out@ =~= o0 + (seq!['"'] + s@ + seq!['"']));
        },
        Json::Arr(a) => {
            if a.len() == 0 {
                append_chars(out, &str_to_chars("[]"));
                assert(jv_seq(a@).len() == 0);
            } else {
                out.push('[');
                let mut ind2: Vec<char> = Vec::new();
                append_chars(&mut ind2, ind);
                ind2.push(' ');
                ind2.push(' ');
                assert(ind2@ =~= ind@ + seq![' ', ' ']);
                write_pretty_elems(a, 0, &ind2, out);
                out.push('\n');
                append_chars(out, ind);
                out.push(']');
                assert(out@ =~= o0 + (seq!['['] + pretty_elems(jv_seq(a@).skip(0), ind@ + seq![
                    ' ',
                    ' ',
                ]) + seq!['\n'] + ind@ + seq![']']));
                assert(jv_seq(a@).skip(0) =~= jv_seq(a@));
            }
        },
        Json::Obj(o) => {
            if o.len() == 0 {
                append_chars(out, &str_to_chars("{}"));
                assert(jv_mems(o@).len() == 0);
            } else {
                out.push('{');
                let mut ind2: Vec<char> = Vec::new();
                append_chars(&mut ind2, ind);
                ind2.push(' ');
                ind2.push(' ');
                assert(ind2@ =~= ind@ + seq![' ', ' ']);
                write_pretty_members(o, 0, &ind2, out);
                out.push('\n');
                append_chars(out, ind);
                out.push('}');
                assert(out@ =~= o0 + (seq!['{'] + pretty_members(jv_mems(o@).skip(0), ind@ + seq![
                    ' ',
                    ' ',
                ]) + seq!['\n'] + ind@ + seq!['}']));
                assert(jv_mems(o@).skip(0) =~= jv_mems(o@));
            }
        },
    }
}

/// Pretty rendering of the array elements from index `i` on.
fn write_pretty_elems(a: &Vec<Json>, i: usize, ind2: &Vec<char>, out: &mut Vec<char>)
    requires
        i < a@.len(),
    ensures
        final(out)@ == old(out)@ + pretty_elems(jv_seq(a@).skip(i as int), ind2@),
    decreases a@, a@.len() - i,
{
    let n = a.len();
    let ghost o0 = out@;
    let ghost tail = jv_seq(a@).skip(i as int);
    out.push('\n');
    append_chars(out, ind2);
    write_pretty(&a[i], ind2, out);
    assert(tail[0] == jv(a@[i as int]));
    if i + 1 < n {
        out.push(',');
        write_pretty_elems(a, i + 1, ind2, out);
        assert(tail.drop_first() =~= jv_seq(a@).skip(i as int + 1));
        assert(out@ =~= o0 + (seq!['\n'] + ind2@ + pretty(tail[0], ind2@) + (seq![',']
            + pretty_elems(tail.drop_first(), ind2@))));
    } else {
        assert(tail.len() == 1);
        assert(out@ =~= o0 + (seq!['\n'] + ind2@ + pretty(tail[0], ind2@)
            + Seq::<char>::empty()));
    }
}

/// Pretty rendering of the object members from index `i` on.
fn write_pretty_members(o: &Vec<(Vec<char>, Json)>, i: usize, ind2: &Vec<char>, out: &mut Vec<
    char,
>)
    requires
        i < o@.len(),
    ensures
        final(out)@ == old(out)@ + pretty_members(jv_mems(o@).skip(i as int), ind2@),
    decreases o@, o@.len() - i,
{
    let n = o.len();
    let ghost o0 = out@;
    let ghost tail = jv_mems(o@).skip(i as int);
    out.push('\n');
    append_chars(out, ind2);
    out.push('"');
    append_chars(out, &o[i].0);
    out.push('"');
    out.push(':');
    out.push(' ');
    write_pretty(&o[i].1, ind2, out);
    assert(tail[0] == (o@[i as int].0@, jv(o@[i as int].1)));
    if i + 1 < n {
        out.push(',');
        write_pretty_members(o, i + 1, ind2, out);
        assert(tail.drop_first() =~= jv_mems(o@).skip(i as int + 1));
        assert(out@ =~= o0 + (seq!['\n'] + ind2@ + seq!['"'] + tail[0].0 + seq!['"'] + seq![
            ':',
            ' ',
        ] + pretty(tail[0].1, ind2@) + (seq![','] + pretty_members(tail.drop_first(), ind2@))));
    } else {
        assert(tail.len() == 1);
        assert(out@ =~= o0 + (seq!['\n'] + ind2@ + seq!['"'] + tail[0].0 + seq!['"'] + seq![
            ':',
            ' ',
        ] + pretty(tail[0].1, ind2@) + Seq::<char>::empty()));
    }
}

/// Compact rendering of one value into a fresh vector.
pub fn to_compact(v: &Json) -> (r: Vec<char>)
    ensures
        r@ == compact(jv(*v)),
{
    let mut out: Vec<char> = Vec::new();
    write_compact(v, &mut out);
    out
}

/// Pretty rendering of one value into a fresh vector, starting at the left
/// margin.
pub fn to_pretty(v: &Json) -> (r: Vec<char>)
    ensures
        r@ == pretty(jv(*v), Seq::empty()),
{
    let mut out: Vec<char> = Vec::new();
    let ind: Vec<char> = Vec::new();
    write_pretty(v, &ind, &mut out);
    out
}

} // verus!
