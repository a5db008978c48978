//! The document serializer: compact wire form, object fields in order,
//! strings escaped as the interchange format asks.

use crate::json::{entries_view, json_view, nodes_view, Json, JsonV};
use crate::text::push_char;
use vstd::prelude::*;
use vstd::string::StrSliceExecFns;
use vstd::string::StringExecFns;

verus! {

broadcast use vstd::seq::group_seq_axioms, vstd::std_specs::vec::group_vec_axioms;

/// The hexadecimal digit for a value below sixteen.
pub open spec fn hex_digit(n: int) -> char {
    if n == 0 {
        '0'
    } else if n == 1 {
        '1'
    } else if n == 2 {
        '2'
    } else if n == 3 {
        '3'
    } else if n == 4 {
        '4'
    } else if n == 5 {
        '5'
    } else if n == 6 {
        '6'
    } else if n == 7 {
        '7'
    } else if n == 8 {
        '8'
    } else if n == 9 {
        '9'
    } else if n == 10 {
        'a'
    } else if n == 11 {
        'b'
    } else if n == 12 {
        'c'
    } else if n == 13 {
        'd'
    } else if n == 14 {
        'e'
    } else {
        'f'
    }
}

/// The escaped form of one character inside a string literal: quote and
/// backslash are escaped, control characters get their short escape or a
/// `\u00..` escape, every other character stands as itself.
pub open spec fn esc_char(c: char) -> Seq<char> {
    if c == '"' {
        seq!['\\', '"']
    } else if c == '\\' {
        seq!['\\', '\\']
    } else if c == '\u{8}' {
        seq!['\\', 'b']
    } else if c == '\u{c}' {
        seq!['\\', 'f']
    } else if c == '\n' {
        seq!['\\', 'n']
    } else if c == '\r' {
        seq!['\\', 'r']
    } else if c == '\t' {
        seq!['\\', 't']
    } else if (c as u32) < 32 {
        seq!['\\', 'u', '0', '0', hex_digit((c as int) / 16), hex_digit((c as int) % 16)]
    } else {
        seq![c]
    }
}

/// The escaped form of a whole string, character by character.
pub open spec fn esc_str(s: Seq<char>) -> Seq<char>
    decreases s,
{
    if s.len() == 0 {
        Seq::empty()
    } else {
        esc_str(s.drop_last()) + esc_char(s.last())
    }
}

/// A string literal: quoted and escaped.
pub open spec fn ser_str(s: Seq<char>) -> Seq<char> {
    seq!['"'] + esc_str(s) + seq!['"']
}

/// The serialized form of a document node.
pub open spec fn ser_json(v: JsonV) -> Seq<char>
    decreases v,
{
    match v {
        JsonV::Null => "null"@,
        JsonV::Bool(b) => if b {
            "true"@
        } else {
            "false"@
        },
        JsonV::Num(s) => s,
        JsonV::Str(s) => ser_str(s),
        JsonV::Arr(elems) => seq!['['] + ser_arr(elems) + seq![']'],
        JsonV::Obj(fields) => seq!['{'] + ser_obj(fields) + seq!['}'],
    }
}

/// The comma-separated serialized elements of an array.
pub open spec fn ser_arr(elems: Seq<JsonV>) -> Seq<char>
    decreases elems,
{
    if elems.len() == 0 {
        Seq::empty()
    } else if elems.len() == 1 {
        ser_json(elems.first())
    } else {
        ser_json(elems.first()) + seq![','] + ser_arr(elems.drop_first())
    }
}

/// The comma-separated serialized entries of an object.
pub open spec fn ser_obj(fields: Seq<(Seq<char>, JsonV)>) -> Seq<char>
    decreases fields,
{
    if fields.len() == 0 {
        Seq::empty()
    } else if fields.len() == 1 {
        ser_str(fields.first().0) + seq![':'] + ser_json(fields.first().1)
    } else {
        ser_str(fields.first().0) + seq![':'] + ser_json(fields.first().1) + seq![','] + ser_obj(
            fields.drop_first(),
        )
    }
}

/// Appending an element to an array appends a comma (after a first
/// element) and the element's serialized form.
proof fn lemma_ser_arr_push(elems: Seq<JsonV>, x: JsonV)
    ensures
        elems.len() == 0 ==> ser_arr(elems.push(x)) == ser_json(x),
        elems.len() > 0 ==> ser_arr(elems.push(x)) == ser_arr(elems) + seq![','] + ser_json(x),
    decreases elems,
{
    if elems.len() == 0 {
        assert(elems.push(x).len() == 1);
        assert(elems.push(x).first() == x);
    } else {
        lemma_ser_arr_push(elems.drop_first(), x);
        assert(elems.push(x).drop_first() =~= elems.drop_first().push(x));
        assert(elems.push(x).first() == elems.first());
        if elems.len() == 1 {
            assert(elems.drop_first().len() == 0);
        } else {
            assert(ser_arr(elems.drop_first().push(x)) == ser_arr(elems.drop_first()) + seq![',']
                + ser_json(x));
            assert(ser_arr(elems) == ser_json(elems.first()) + seq![','] + ser_arr(
                elems.drop_first(),
            ));
            assert(ser_json(elems.first()) + seq![','] + (ser_arr(elems.drop_first()) + seq![',']
                + ser_json(x)) =~= (ser_json(elems.first()) + seq![','] + ser_arr(
                elems.drop_first(),
            )) + seq![','] + ser_json(x));
        }
    }
}

/// As `lemma_ser_arr_push`, for object entries.
proof fn lemma_ser_obj_push(fields: Seq<(Seq<char>, JsonV)>, k: Seq<char>, v: JsonV)
    ensures
        fields.len() == 0 ==> ser_obj(fields.push((k, v))) == ser_str(k) + seq![':'] + ser_json(v),
        fields.len() > 0 ==> ser_obj(fields.push((k, v))) == ser_obj(fields) + seq![','] + ser_str(
            k,
        ) + seq![':'] + ser_json(v),
    decreases fields,
{
    if fields.len() == 0 {
        assert(fields.push((k, v)).len() == 1);
        assert(fields.push((k, v)).first() == (k, v));
    } else {
        lemma_ser_obj_push(fields.drop_first(), k, v);
        assert(fields.push((k, v)).drop_first() =~= fields.drop_first().push((k, v)));
        assert(fields.push((k, v)).first() == fields.first());
        let head = ser_str(fields.first().0) + seq![':'] + ser_json(fields.first().1);
        if fields.len() == 1 {
            assert(fields.drop_first().len() == 0);
            assert(head + seq![','] + (ser_str(k) + seq![':'] + ser_json(v)) =~= head + seq![',']
                + ser_str(k) + seq![':'] + ser_json(v));
        } else {
            assert(head + seq![','] + (ser_obj(fields.drop_first()) + seq![','] + ser_str(k)
                + seq![':'] + ser_json(v)) =~= (head + seq![','] + ser_obj(fields.drop_first()))
                + seq![','] + ser_str(k) + seq![':'] + ser_json(v));
        }
    }
}

/// The hexadecimal digit character for a value below sixteen.
fn hex_digit_exec(n: u32) -> (r: char)
    requires
        n < 16,
    ensures
        r == hex_digit(n as int),
{
    if n == 0 {
        '0'
    } else if n == 1 {
        '1'
    } else if n == 2 {
        '2'
    } else if n == 3 {
        '3'
    } else if n == 4 {
        '4'
    } else if n == 5 {
        '5'
    } else if n == 6 {
        '6'
    } else if n == 7 {
        '7'
    } else if n == 8 {
        '8'
    } else if n == 9 {
        '9'
    } else if n == 10 {
        'a'
    } else if n == 11 {
        'b'
    } else if n == 12 {
        'c'
    } else if n == 13 {
        'd'
    } else if n == 14 {
        'e'
    } else {
        'f'
    }
}

/// Appends the escaped form of `s` to `out`.
#[verifier::loop_isolation(false)]
fn write_escaped(out: &mut String, s: &str)
    ensures
        final(out)@ == old(out)@ + esc_str(s@),
{
    let len = s.unicode_len();
    let mut i: usize = 0;
    while i < len
        invariant
            i <= len,
            out@ == old(out)@ + esc_str(s@.subrange(0, i as int)),
        decreases len - i,
    {
        let ghost before = out@;
        let c = s.get_char(i);
        if c == '"' {
            push_char(out, '\\');
            push_char(out, '"');
        } else if c == '\\' {
            push_char(out, '\\');
            push_char(out, '\\');
        } else if c == '\u{8}' {
            push_char(out, '\\');
            push_char(out, 'b');
        } else if c == '\u{c}' {
            push_char(out, '\\');
            push_char(out, 'f');
        } else if c == '\n' {
            push_char(out, '\\');
            push_char(out, 'n');
        } else if c == '\r' {
            push_char(out, '\\');
            push_char(out, 'r');
        } else if c == '\t' {
            push_char(out, '\\');
            push_char(out, 't');
        } else if (c as u32) < 32 {
            let n = c as u32;
            push_char(out, '\\');
            push_char(out, 'u');
            push_char(out, '0');
            push_char(out, '0');
            push_char(out, hex_digit_exec(n / 16));
            push_char(out, hex_digit_exec(n % 16));
        } else {
            push_char(out, c);
        }
        proof {
            assert(out@ =~= before + esc_char(c));
            assert(s@.subrange(0, i + 1).drop_last() =~= s@.subrange(0, i as int));
            assert(s@.subrange(0, i + 1).last() == s@[i as int]);
            assert(before + esc_char(c) =~= old(out)@ + esc_str(s@.subrange(0, i + 1)));
        }
        i += 1;
    }
    proof {
        assert(s@.subrange(0, len as int) =~= s@);
    }
}

/// Appends the serialized form of the node to `out`.
#[verifier::loop_isolation(false)]
#[verifier::rlimit(60)]
fn write_json(out: &mut String, j: &Json)
    ensures
        final(out)@ == old(out)@ + ser_json(j@),
    decreases *j,
{
    match j {
        Json::Null => {
            out.append("null");
        },
        Json::Bool(b) => {
            if *b {
                out.append("true");
            } else {
                out.append("false");
            }
        },
        Json::Num(s) => {
            out.append(s.as_str());
        },
        Json::Str(s) => {
            let ghost before = out@;
            push_char(out, '"');
            write_escaped(out, s.as_str());
            push_char(out, '"');
            proof {
                assert(out@ =~= before + ser_str(s@));
            }
        },
        Json::Arr(elems) => {
            let ghost before = out@;
            let ghost ws_v = nodes_view(elems@);
            proof {
                crate::json::lemma_nodes_view_props(elems@);
            }
            push_char(out, '[');
            let mut i: usize = 0;
            while i < elems.len()
                invariant
                    i <= elems@.len(),
                    out@ == before + seq!['['] + ser_arr(ws_v.take(i as int)),
                decreases elems@.len() - i,
            {
                if i > 0 {
                    push_char(out, ',');
                }
                proof {
                    assert(*j == Json::Arr(*elems));
                    assert(decreases_to!(Json::Arr(*elems) => *elems));
                    assert(decreases_to!(*elems => elems@));
                    assert(decreases_to!(elems@ => elems@[i as int]));
                }
                write_json(out, &elems[i]);
                proof {
                    lemma_ser_arr_push(ws_v.take(i as int), ws_v[i as int]);
                    assert(ws_v.take(i + 1) =~= ws_v.take(i as int).push(ws_v[i as int]));
                    if i > 0 {
                        assert(out@ =~= before + seq!['['] + ser_arr(ws_v.take(i + 1)));
                    } else {
                        assert(out@ =~= before + seq!['['] + ser_arr(ws_v.take(1)));
                    }
                }
                i += 1;
            }
            push_char(out, ']');
            proof {
                assert(ws_v.take(elems@.len() as int) =~= ws_v);
                assert(out@ =~= before + ser_json(j@));
            }
        },
        Json::Obj(entries) => {
            let ghost before = out@;
            let ghost fs_v = entries_view(entries@);
            proof {
                crate::json::lemma_entries_view_props(entries@);
            }
            push_char(out, '{');
            let mut i: usize = 0;
            while i < entries.len()
                invariant
                    i <= entries@.len(),
                    out@ == before + seq!['{'] + ser_obj(fs_v.take(i as int)),
                decreases entries@.len() - i,
            {
                if i > 0 {
                    push_char(out, ',');
                }
                let ghost mid = out@;
                push_char(out, '"');
                write_escaped(out, entries[i].0.as_str());
                push_char(out, '"');
                push_char(out, ':');
                proof {
                    assert(out@ =~= mid + ser_str(entries@[i as int].0@) + seq![':']);
                    assert(*j == Json::Obj(*entries));
                    assert(decreases_to!(Json::Obj(*entries) => *entries));
                    assert(decreases_to!(*entries => entries@));
                    assert(decreases_to!(entries@ => entries@[i as int]));
                    assert(decreases_to!(entries@[i as int] => entries@[i as int].1));
                }
                write_json(out, &entries[i].1);
                proof {
                    lemma_ser_obj_push(fs_v.take(i as int), fs_v[i as int].0, fs_v[i as int].1);
                    assert(fs_v.take(i + 1) =~= fs_v.take(i as int).push(fs_v[i as int]));
                    assert(fs_v[i as int] == (entries@[i as int].0@, json_view(
                        entries@[i as int].1,
                    )));
                    if i > 0 {
                        assert(out@ =~= before + seq!['{'] + ser_obj(fs_v.take(i + 1)));
                    } else {
                        assert(out@ =~= before + seq!['{'] + ser_obj(fs_v.take(1)));
                    }
                }
                i += 1;
            }
            push_char(out, '}');
            proof {
                assert(fs_v.take(entries@.len() as int) =~= fs_v);
                assert(out@ =~= before + ser_json(j@));
            }
        },
    }
}

/// The serialized wire form of a document.
pub fn to_json_string(doc: &Json) -> (r: String)
    ensures
        r@ == ser_json(doc@),
{
    let mut out = String::new();
    write_json(&mut out, doc);
    out
}

} // verus!
