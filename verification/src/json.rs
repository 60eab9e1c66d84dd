//! JSON values: the wire format of every request and response body.
//!
//! `Json` is the executable tree; `JsonV` is its mathematical view. The
//! encoder renders a value as JSON text; the parser lives in a sibling
//! module.

#![verifier::loop_isolation(false)]

use vstd::prelude::*;
use crate::strutil::{
    spec_dec_signed, spec_hex_fixed, fmt_i64, fmt_hex_fixed, str_eq, string_from_chars,
};

verus! {

broadcast use vstd::std_specs::vec::group_vec_axioms;

/// The mathematical form of a JSON value. A number keeps the raw token it was
/// written as, together with its integer value when it has one that fits a
/// 64-bit signed integer. Object members keep their textual order; a later
/// binding of the same key shadows an earlier one.
#[verifier::ext_equal]
pub enum JsonV {
    Null,
    Bool(bool),
    Num { raw: Seq<char>, int_val: Option<i64> },
    Str(Seq<char>),
    Arr(Seq<JsonV>),
    Obj(Seq<(Seq<char>, JsonV)>),
}

/// An executable JSON value.
pub enum Json {
    Null,
    Bool(bool),
    Num { raw: String, int_val: Option<i64> },
    Str(String),
    Arr(Vec<Json>),
    Obj(Vec<(String, Json)>),
}

/// The view of an executable JSON value.
pub open spec fn json_view(j: Json) -> JsonV
    decreases j
    via json_view_decreases
{
    match j {
        Json::Null => JsonV::Null,
        Json::Bool(b) => JsonV::Bool(b),
        Json::Num { raw, int_val } => JsonV::Num { raw: raw@, int_val },
        Json::Str(s) => JsonV::Str(s@),
        Json::Arr(items) => JsonV::Arr(
            Seq::new(
                items@.len(),
                |i: int|
                    if 0 <= i < items@.len() {
                        json_view(items@[i])
                    } else {
                        JsonV::Null
                    },
            ),
        ),
        Json::Obj(fields) => JsonV::Obj(
            Seq::new(
                fields@.len(),
                |i: int|
                    if 0 <= i < fields@.len() {
                        (fields@[i].0@, json_view(fields@[i].1))
                    } else {
                        (Seq::empty(), JsonV::Null)
                    },
            ),
        ),
    }
}

#[via_fn]
proof fn json_view_decreases(j: Json) {
    match j {
        Json::Arr(items) => {
            assert forall|i: int| 0 <= i < items@.len() implies decreases_to!(j => items@[i]) by {
                assert(decreases_to!(j => items));
                assert(decreases_to!(items => items[i]));
            }
        },
        Json::Obj(fields) => {
            assert forall|i: int| 0 <= i < fields@.len() implies decreases_to!(
                j => fields@[i].1,
            ) by {
                assert(decreases_to!(j => fields));
                assert(decreases_to!(fields => fields[i]));
                assert(decreases_to!(fields@[i] => fields@[i].1));
            }
        },
        _ => {},
    }
}

impl View for Json {
    type V = JsonV;

    open spec fn view(&self) -> JsonV {
        json_view(*self)
    }
}

/// The value bound to `key` in an object's members: the last binding wins.
pub open spec fn obj_get(fields: Seq<(Seq<char>, JsonV)>, key: Seq<char>) -> Option<JsonV>
    decreases fields.len(),
{
    if fields.len() == 0 {
        None
    } else if fields.last().0 == key {
        Some(fields.last().1)
    } else {
        obj_get(fields.drop_last(), key)
    }
}

/// Looks up a key among an object's members, later bindings first.
pub fn get_member<'a>(fields: &'a Vec<(String, Json)>, key: &str) -> (r: Option<&'a Json>)
    ensures
        match r {
            Some(j) => obj_get(view_members(fields@), key@) == Some(j@),
            None => obj_get(view_members(fields@), key@) is None,
        },
{
    let mut i: usize = fields.len();
    proof {
        assert(fields@.subrange(0, fields@.len() as int) =~= fields@);
    }
    while i > 0
        invariant
            i <= fields@.len(),
            obj_get(view_members(fields@), key@) == obj_get(
                view_members(fields@.subrange(0, i as int)),
                key@,
            ),
        decreases i,
    {
        i = i - 1;
        proof {
            let whole = view_members(fields@.subrange(0, i + 1));
            assert(whole.drop_last() =~= view_members(fields@.subrange(0, i as int)));
        }
        if str_eq(fields[i].0.as_str(), key) {
            return Some(&fields[i].1);
        }
    }
    proof {
        assert(view_members(fields@.subrange(0, 0)) =~= Seq::<(Seq<char>, JsonV)>::empty());
    }
    None
}

/// The views of an object's executable members.
pub open spec fn view_members(fields: Seq<(String, Json)>) -> Seq<(Seq<char>, JsonV)> {
    Seq::new(fields.len(), |i: int| (fields[i].0@, json_view(fields[i].1)))
}

/// The views of an array's executable items.
pub open spec fn views_of(items: Seq<Json>) -> Seq<JsonV> {
    Seq::new(items.len(), |i: int| json_view(items[i]))
}

/// An array's view is the views of its items.
pub broadcast proof fn lemma_arr_view(items: Vec<Json>)
    ensures
        #[trigger] json_view(Json::Arr(items)) == JsonV::Arr(views_of(items@)),
{
    assert(json_view(Json::Arr(items)) matches JsonV::Arr(s) && s =~= views_of(items@));
}

/// An object's view is the view of its members.
pub broadcast proof fn lemma_obj_view(fields: Vec<(String, Json)>)
    ensures
        #[trigger] json_view(Json::Obj(fields)) == JsonV::Obj(view_members(fields@)),
{
    assert(json_view(Json::Obj(fields)) matches JsonV::Obj(s) && s =~= view_members(fields@));
}

/// How one character is written inside a JSON string: the two-character
/// escapes of the format, `\u00..` for other control characters, and the
/// character itself otherwise.
pub open spec fn spec_escape_one(c: char) -> Seq<char> {
    if c == '"' {
        seq!['\\', '"']
    } else if c == '\\' {
        seq!['\\', '\\']
    } else if c == '\u{8}' {
        seq!['\\', 'b']
    } else if c == '\u{c}' {
        seq!['\\', 'f']
    } else if c == '\n' {
        seq!['\\', 'n']
    } else if c == '\r' {
        seq!['\\', 'r']
    } else if c == '\t' {
        seq!['\\', 't']
    } else if (c as u32) < 0x20 {
        seq!['\\', 'u'] + spec_hex_fixed((c as u32) as int, 4)
    } else {
        seq![c]
    }
}

/// The escaped form of a string's characters.
pub open spec fn spec_escape_string(s: Seq<char>) -> Seq<char>
    decreases s.len(),
{
    if s.len() == 0 {
        Seq::empty()
    } else {
        spec_escape_string(s.drop_last()) + spec_escape_one(s.last())
    }
}

/// The JSON text of a value.
pub open spec fn spec_encode(v: JsonV) -> Seq<char>
    decreases v,
{
    match v {
        JsonV::Null => seq!['n', 'u', 'l', 'l'],
        JsonV::Bool(b) => if b {
            seq!['t', 'r', 'u', 'e']
        } else {
            seq!['f', 'a', 'l', 's', 'e']
        },
        JsonV::Num { raw, int_val } => raw,
        JsonV::Str(s) => seq!['"'] + spec_escape_string(s) + seq!['"'],
        JsonV::Arr(items) => seq!['['] + spec_encode_items(items) + seq![']'],
        JsonV::Obj(fields) => seq!['{'] + spec_encode_members(fields) + seq!['}'],
    }
}

/// The comma-separated encodings of an array's items.
pub open spec fn spec_encode_items(items: Seq<JsonV>) -> Seq<char>
    decreases items,
{
    if items.len() == 0 {
        Seq::empty()
    } else if items.len() == 1 {
        spec_encode(items[0])
    } else {
        spec_encode_items(items.drop_last()) + seq![','] + spec_encode(items.last())
    }
}

/// The comma-separated encodings of an object's members.
pub open spec fn spec_encode_members(fields: Seq<(Seq<char>, JsonV)>) -> Seq<char>
    decreases fields,
{
    if fields.len() == 0 {
        Seq::empty()
    } else if fields.len() == 1 {
        spec_encode_member(fields[0])
    } else {
        spec_encode_members(fields.drop_last()) + seq![','] + spec_encode_member(fields.last())
    }
}

/// The encoding of one object member.
pub open spec fn spec_encode_member(field: (Seq<char>, JsonV)) -> Seq<char>
    decreases field,
{
    seq!['"'] + spec_escape_string(field.0) + seq!['"', ':'] + spec_encode(field.1)
}

/// Appends the escaped form of one character.
fn push_escaped(out: &mut Vec<char>, c: char)
    ensures
        final(out)@ == old(out)@ + spec_escape_one(c),
{
    if c == '"' {
        out.push('\\');
        out.push('"');
    } else if c == '\\' {
        out.push('\\');
        out.push('\\');
    } else if c == '\u{8}' {
        out.push('\\');
        out.push('b');
    } else if c == '\u{c}' {
        out.push('\\');
        out.push('f');
    } else if c == '\n' {
        out.push('\\');
        out.push('n');
    } else if c == '\r' {
        out.push('\\');
        out.push('r');
    } else if c == '\t' {
        out.push('\\');
        out.push('t');
    } else if (c as u32) < 0x20 {
        out.push('\\');
        out.push('u');
        let mut hex = fmt_hex_fixed((c as u32) as u64, 4);
        out.append(&mut hex);
        proof {
            assert(out@ =~= old(out)@ + spec_escape_one(c));
        }
    } else {
        out.push(c);
    }
    proof {
        assert(out@ =~= old(out)@ + spec_escape_one(c));
    }
}

/// Appends the escaped form of a string's characters.
fn push_escaped_str(out: &mut Vec<char>, s: &str)
    ensures
        final(out)@ == old(out)@ + spec_escape_string(s@),
{
    let chars = crate::strutil::chars_of(s);
    let mut i: usize = 0;
    while i < chars.len()
        invariant
            i <= chars@.len(),
            chars@ == s@,
            out@ == old(out)@ + spec_escape_string(s@.subrange(0, i as int)),
        decreases chars@.len() - i,
    {
        push_escaped(out, chars[i]);
        i = i + 1;
        proof {
            let pre = s@.subrange(0, i as int);
            assert(pre.drop_last() =~= s@.subrange(0, i - 1));
            assert(pre.last() == s@[i - 1]);
            assert(out@ =~= old(out)@ + spec_escape_string(pre));
        }
    }
    proof {
        assert(s@.subrange(0, s@.len() as int) =~= s@);
    }
}

/// Appending one more item extends the comma-separated encoding.
proof fn lemma_encode_items_push(items: Seq<JsonV>, x: JsonV)
    requires
        items.len() > 0,
    ensures
        spec_encode_items(items.push(x)) == spec_encode_items(items) + seq![','] + spec_encode(x),
{
    let p = items.push(x);
    assert(p.drop_last() =~= items);
    assert(p.last() == x);
}

/// Appending one more member extends the comma-separated encoding.
proof fn lemma_encode_members_push(fields: Seq<(Seq<char>, JsonV)>, x: (Seq<char>, JsonV))
    requires
        fields.len() > 0,
    ensures
        spec_encode_members(fields.push(x)) == spec_encode_members(fields) + seq![',']
            + spec_encode_member(x),
{
    let p = fields.push(x);
    assert(p.drop_last() =~= fields);
    assert(p.last() == x);
}

/// Appends the JSON text of a value.
#[verifier::rlimit(50)]
fn encode_onto(j: &Json, out: &mut Vec<char>)
    ensures
        final(out)@ == old(out)@ + spec_encode(j@),
    decreases *j,
{
    match j {
        Json::Null => {
            out.push('n');
            out.push('u');
            out.push('l');
            out.push('l');
            proof {
                assert(out@ =~= old(out)@ + spec_encode(j@));
            }
        },
        Json::Bool(b) => {
            if *b {
                out.push('t');
                out.push('r');
                out.push('u');
                out.push('e');
            } else {
                out.push('f');
                out.push('a');
                out.push('l');
                out.push('s');
                out.push('e');
            }
            proof {
                assert(out@ =~= old(out)@ + spec_encode(j@));
            }
        },
        Json::Num { raw, int_val } => {
            let mut chars = crate::strutil::chars_of(raw.as_str());
            out.append(&mut chars);
            proof {
                assert(out@ =~= old(out)@ + spec_encode(j@));
            }
        },
        Json::Str(s) => {
            out.push('"');
            push_escaped_str(out, s.as_str());
            out.push('"');
            proof {
                assert(out@ =~= old(out)@ + spec_encode(j@));
            }
        },
        Json::Arr(items) => {
            out.push('[');
            let ghost views = Seq::new(items@.len(), |i: int| json_view(items@[i]));
            proof {
                assert(j@ matches JsonV::Arr(s) && s =~= views);
                assert(j@ == JsonV::Arr(views));
            }
            let mut i: usize = 0;
            while i < items.len()
                invariant
                    i <= items@.len(),
                    views.len() == items@.len(),
                    forall|k: int| 0 <= k < items@.len() ==> views[k] == json_view(items@[k]),
                    j@ == JsonV::Arr(views),
                    out@ == old(out)@ + seq!['['] + spec_encode_items(
                        views.subrange(0, i as int),
                    ),
                decreases items@.len() - i,
            {
                if i > 0 {
                    out.push(',');
                }
                proof {
                    assert(decreases_to!(*j => *items));
                    assert(decreases_to!(*items => items[i as int]));
                }
                encode_onto(&items[i], out);
                i = i + 1;
                proof {
                    let pre = views.subrange(0, i - 1);
                    let ext = views.subrange(0, i as int);
                    if i > 1 {
                        assert(ext =~= pre.push(views[i - 1]));
                        lemma_encode_items_push(pre, views[i - 1]);
                    } else {
                        assert(ext.len() == 1);
                        assert(ext[0] == views[0]);
                        assert(spec_encode_items(ext) == spec_encode(views[0]));
                    }
                    assert(out@ =~= old(out)@ + seq!['['] + spec_encode_items(ext));
                }
            }
            out.push(']');
            proof {
                assert(views.subrange(0, views.len() as int) =~= views);
                assert(out@ =~= old(out)@ + spec_encode(j@));
            }
        },
        Json::Obj(fields) => {
            out.push('{');
            let ghost views = view_members(fields@);
            proof {
                assert(j@ matches JsonV::Obj(s) && s =~= views);
                assert(j@ == JsonV::Obj(views));
            }
            let mut i: usize = 0;
            while i < fields.len()
                invariant
                    i <= fields@.len(),
                    views.len() == fields@.len(),
                    forall|k: int| 0 <= k < fields@.len() ==> views[k] == (
                        fields@[k].0@,
                        json_view(fields@[k].1),
                    ),
                    j@ == JsonV::Obj(views),
                    out@ == old(out)@ + seq!['{'] + spec_encode_members(
                        views.subrange(0, i as int),
                    ),
                decreases fields@.len() - i,
            {
                if i > 0 {
                    out.push(',');
                }
                out.push('"');
                push_escaped_str(out, fields[i].0.as_str());
                out.push('"');
                out.push(':');
                proof {
                    assert(decreases_to!(*j => *fields));
                    assert(decreases_to!(*fields => fields[i as int]));
                    assert(decreases_to!(fields[i as int] => fields[i as int].1));
                }
                encode_onto(&fields[i].1, out);
                i = i + 1;
                proof {
                    let pre = views.subrange(0, i - 1);
                    let ext = views.subrange(0, i as int);
                    if i > 1 {
                        assert(ext =~= pre.push(views[i - 1]));
                        lemma_encode_members_push(pre, views[i - 1]);
                    } else {
                        assert(ext.len() == 1);
                        assert(ext[0] == views[0]);
                        assert(spec_encode_members(ext) == spec_encode_member(views[0]));
                    }
                    assert(out@ =~= old(out)@ + seq!['{'] + spec_encode_members(ext));
                }
            }
            out.push('}');
            proof {
                assert(views.subrange(0, views.len() as int) =~= views);
                assert(out@ =~= old(out)@ + spec_encode(j@));
            }
        },
    }
}

/// Renders a value as JSON text.
pub fn encode_json(j: &Json) -> (r: String)
    ensures
        r@ == spec_encode(j@),
{
    let mut out: Vec<char> = Vec::new();
    encode_onto(j, &mut out);
    string_from_chars(&out)
}

/// A JSON string value taken from a string slice.
pub fn json_str(s: &str) -> (r: Json)
    ensures
        r@ == JsonV::Str(s@),
{
    Json::Str(s.to_owned())
}

/// A JSON number value carrying an integer.
pub fn json_int(n: i64) -> (r: Json)
    ensures
        r@ == (JsonV::Num { raw: spec_dec_signed(n as int), int_val: Some(n) }),
{
    let digits = fmt_i64(n);
    Json::Num { raw: string_from_chars(&digits), int_val: Some(n) }
}

/// The JSON string values of a list of texts.
pub open spec fn str_items_jv(items: Seq<Seq<char>>) -> Seq<JsonV> {
    Seq::new(items.len(), |i: int| JsonV::Str(items[i]))
}

/// A JSON array of string values.
pub fn json_str_array(items: &Vec<String>) -> (r: Json)
    ensures
        r@ == JsonV::Arr(str_items_jv(crate::strutil::strings_view(items@))),
{
    let mut out: Vec<Json> = Vec::new();
    let mut i: usize = 0;
    while i < items.len()
        invariant
            i <= items@.len(),
            out@.len() == i,
            forall|k: int| 0 <= k < i ==> out@[k]@ == JsonV::Str(items@[k]@),
        decreases items@.len() - i,
    {
        out.push(Json::Str(items[i].clone()));
        i = i + 1;
    }
    let r = Json::Arr(out);
    proof {
        assert(r@ matches JsonV::Arr(vs) && vs =~= str_items_jv(crate::strutil::strings_view(
            items@,
        )));
    }
    r
}

} // verus!
