//! A small JSON document model and its exact textual rendering: field
//! presence is structural (a hidden field is absent, never null), and the
//! output format is pinned down to the character.

use vstd::prelude::*;
use crate::text::{chars_to_string, spec_spaces, make_spaces, to_chars};

verus! {

broadcast use vstd::string::group_string_axioms;

/// A JSON value as the renderers produce it: a string, an integer, or an
/// array of strings.
pub enum JsonValue {
    Text(String),
    Num(i64),
    TextArray(Vec<String>),
}

/// One JSON object: its fields in output order.
pub struct JsonObject {
    pub fields: Vec<(String, JsonValue)>,
}

/// The specification-level view of a JSON value.
pub enum JsonValV {
    Text(Seq<char>),
    Num(int),
    TextArray(Seq<Seq<char>>),
}

impl View for JsonValue {
    type V = JsonValV;

    open spec fn view(&self) -> JsonValV {
        match self {
            JsonValue::Text(s) => JsonValV::Text(s@),
            JsonValue::Num(n) => JsonValV::Num(*n as int),
            JsonValue::TextArray(a) => JsonValV::TextArray(strings_view(a@)),
        }
    }
}

/// The view of an object's fields: key text and value view, in order.
pub open spec fn fields_view(fields: Seq<(String, JsonValue)>) -> Seq<(Seq<char>, JsonValV)> {
    fields.map_values(|p: (String, JsonValue)| (p.0@, p.1@))
}

impl View for JsonObject {
    type V = Seq<(Seq<char>, JsonValV)>;

    open spec fn view(&self) -> Seq<(Seq<char>, JsonValV)> {
        fields_view(self.fields@)
    }
}

/// The views of a document's objects.
pub open spec fn doc_view(objs: Seq<JsonObject>) -> Seq<Seq<(Seq<char>, JsonValV)>> {
    objs.map_values(|o: JsonObject| o@)
}

/// Whether an object carries a field with this key.
pub open spec fn obj_has_key(fields: Seq<(Seq<char>, JsonValV)>, key: Seq<char>) -> bool {
    exists|i: int| 0 <= i < fields.len() && #[trigger] fields[i].0 == key
}

/// Adding a field changes key presence only for that field's key.
pub proof fn lemma_obj_key_push(
    fields: Seq<(Seq<char>, JsonValV)>,
    p: (Seq<char>, JsonValV),
    key: Seq<char>,
)
    ensures
        obj_has_key(fields.push(p), key) == (obj_has_key(fields, key) || p.0 == key),
{
    if obj_has_key(fields.push(p), key) {
        let i = choose|i: int| 0 <= i < fields.push(p).len() && #[trigger] fields.push(p)[i].0
            == key;
        if i < fields.len() {
            assert(fields[i].0 == key);
        } else {
            assert(fields.push(p)[i] == p);
        }
    }
    if obj_has_key(fields, key) {
        let i = choose|i: int| 0 <= i < fields.len() && #[trigger] fields[i].0 == key;
        assert(fields.push(p)[i].0 == key);
    }
    if p.0 == key {
        assert(fields.push(p)[fields.len() as int].0 == key);
    }
}

/// The empty object has no keys at all.
pub proof fn lemma_obj_key_empty(key: Seq<char>)
    ensures
        !obj_has_key(Seq::<(Seq<char>, JsonValV)>::empty(), key),
{
}

/// The decimal digit characters of a non-negative number.
pub open spec fn dec_digits(n: int) -> Seq<char>
    recommends
        n >= 0,
    decreases n,
{
    if n < 10 {
        seq![digit_char_spec(n)]
    } else {
        dec_digits(n / 10) + seq![digit_char_spec(n % 10)]
    }
}

/// The decimal rendering of an integer, sign included.
pub open spec fn dec_of(n: int) -> Seq<char> {
    if n < 0 {
        seq!['-'] + dec_digits(-n)
    } else {
        dec_digits(n)
    }
}

/// One decimal digit as a character.
pub open spec fn digit_char_spec(d: int) -> char {
    if d == 0 {
        '0'
    } else if d == 1 {
        '1'
    } else if d == 2 {
        '2'
    } else if d == 3 {
        '3'
    } else if d == 4 {
        '4'
    } else if d == 5 {
        '5'
    } else if d == 6 {
        '6'
    } else if d == 7 {
        '7'
    } else if d == 8 {
        '8'
    } else {
        '9'
    }
}

/// One hexadecimal digit as a lowercase character.
pub open spec fn hex_char_spec(d: int) -> char {
    if d < 10 {
        digit_char_spec(d)
    } else if d == 10 {
        'a'
    } else if d == 11 {
        'b'
    } else if d == 12 {
        'c'
    } else if d == 13 {
        'd'
    } else if d == 14 {
        'e'
    } else {
        'f'
    }
}

/// The escape sequence one character becomes inside a JSON string.
pub open spec fn json_escape_char(c: char) -> Seq<char> {
    if c == '"' {
        seq!['\\', '"']
    } else if c == '\\' {
        seq!['\\', '\\']
    } else if c == '\u{8}' {
        seq!['\\', 'b']
    } else if c == '\t' {
        seq!['\\', 't']
    } else if c == '\n' {
        seq!['\\', 'n']
    } else if c == '\u{c}' {
        seq!['\\', 'f']
    } else if c == '\r' {
        seq!['\\', 'r']
    } else if (c as int) < 0x20 {
        seq!['\\', 'u', '0', '0', hex_char_spec(c as int / 16), hex_char_spec(c as int % 16)]
    } else {
        seq![c]
    }
}

/// A whole text escaped for JSON.
pub open spec fn json_escape(s: Seq<char>) -> Seq<char>
    decreases s.len(),
{
    if s.len() == 0 {
        Seq::<char>::empty()
    } else {
        json_escape_char(s[0]) + json_escape(s.drop_first())
    }
}

/// A JSON string literal: quoted and escaped.
pub open spec fn json_quote(s: Seq<char>) -> Seq<char> {
    seq!['"'] + json_escape(s) + seq!['"']
}

/// The indentation of one nesting level: two spaces per level.
pub open spec fn indent_of(level: nat) -> Seq<char> {
    spec_spaces(2 * level)
}

/// The lines of a string array, one quoted element per line.
pub open spec fn spec_arr_items(a: Seq<Seq<char>>, level: nat) -> Seq<char>
    decreases a.len(),
{
    if a.len() == 0 {
        Seq::<char>::empty()
    } else if a.len() == 1 {
        indent_of(level) + json_quote(a[0])
    } else {
        indent_of(level) + json_quote(a[0]) + seq![',', '\n'] + spec_arr_items(
            a.drop_first(),
            level,
        )
    }
}

/// The views of an array of strings.
pub open spec fn strings_view(a: Seq<String>) -> Seq<Seq<char>> {
    a.map_values(|s: String| s@)
}

/// A value rendered at a nesting level.
pub open spec fn spec_render_value(v: JsonValV, level: nat) -> Seq<char> {
    match v {
        JsonValV::Text(s) => json_quote(s),
        JsonValV::Num(n) => dec_of(n),
        JsonValV::TextArray(a) => if a.len() == 0 {
            seq!['[', ']']
        } else {
            seq!['[', '\n'] + spec_arr_items(a, level + 1) + seq!['\n'] + indent_of(level)
                + seq![']']
        },
    }
}

/// The lines of an object's fields, one `"key": value` per line.
pub open spec fn spec_obj_items(fields: Seq<(Seq<char>, JsonValV)>, level: nat) -> Seq<char>
    decreases fields.len(),
{
    if fields.len() == 0 {
        Seq::<char>::empty()
    } else if fields.len() == 1 {
        indent_of(level) + json_quote(fields[0].0) + seq![':', ' '] + spec_render_value(
            fields[0].1,
            level,
        )
    } else {
        indent_of(level) + json_quote(fields[0].0) + seq![':', ' '] + spec_render_value(
            fields[0].1,
            level,
        ) + seq![',', '\n'] + spec_obj_items(fields.drop_first(), level)
    }
}

/// An object rendered at a nesting level.
pub open spec fn spec_render_object(fields: Seq<(Seq<char>, JsonValV)>, level: nat) -> Seq<char> {
    if fields.len() == 0 {
        seq!['{', '}']
    } else {
        seq!['{', '\n'] + spec_obj_items(fields, level + 1) + seq!['\n'] + indent_of(level) + seq![
            '}',
        ]
    }
}

/// The lines of the top-level array, one object per entry.
pub open spec fn spec_array_entries(objs: Seq<Seq<(Seq<char>, JsonValV)>>, level: nat) -> Seq<char>
    decreases objs.len(),
{
    if objs.len() == 0 {
        Seq::<char>::empty()
    } else if objs.len() == 1 {
        indent_of(level) + spec_render_object(objs[0], level)
    } else {
        indent_of(level) + spec_render_object(objs[0], level) + seq![',', '\n']
            + spec_array_entries(objs.drop_first(), level)
    }
}

/// The whole JSON document: a pretty-printed top-level array, `[]` when
/// there is nothing to show.
pub open spec fn spec_render_array(objs: Seq<Seq<(Seq<char>, JsonValV)>>) -> Seq<char> {
    if objs.len() == 0 {
        seq!['[', ']']
    } else {
        seq!['[', '\n'] + spec_array_entries(objs, 1) + seq!['\n', ']']
    }
}

/// One decimal digit, executable.
fn digit_char(d: u64) -> (c: char)
    requires
        d < 10,
    ensures
        c == digit_char_spec(d as int),
{
    match d {
        0 => '0',
        1 => '1',
        2 => '2',
        3 => '3',
        4 => '4',
        5 => '5',
        6 => '6',
        7 => '7',
        8 => '8',
        _ => '9',
    }
}

/// One lowercase hexadecimal digit, executable.
fn hex_char(d: u32) -> (c: char)
    requires
        d < 16,
    ensures
        c == hex_char_spec(d as int),
{
    match d {
        0 => '0',
        1 => '1',
        2 => '2',
        3 => '3',
        4 => '4',
        5 => '5',
        6 => '6',
        7 => '7',
        8 => '8',
        9 => '9',
        10 => 'a',
        11 => 'b',
        12 => 'c',
        13 => 'd',
        14 => 'e',
        _ => 'f',
    }
}

/// Append the decimal digits of a non-negative number.
fn push_digits(out: &mut Vec<char>, n: u64)
    ensures
        final(out)@ == old(out)@ + dec_digits(n as int),
    decreases n,
{
    if n < 10 {
        out.push(digit_char(n));
        assert(final(out)@ =~= old(out)@ + dec_digits(n as int));
    } else {
        push_digits(out, n / 10);
        out.push(digit_char(n % 10));
        assert(final(out)@ =~= old(out)@ + (dec_digits(n as int / 10) + seq![digit_char_spec(
            n as int % 10,
        )]));
    }
}

/// The decimal rendering of an integer, executable.
pub fn fmt_i64(n: i64) -> (out: Vec<char>)
    ensures
        out@ == dec_of(n as int),
{
    let mut out: Vec<char> = Vec::new();
    if n < 0 {
        out.push('-');
        let mag: u64 = (-(n as i128)) as u64;
        let ghost pre = out@;
        push_digits(&mut out, mag);
        assert(out@ =~= seq!['-'] + dec_digits(mag as int));
    } else {
        push_digits(&mut out, n as u64);
        assert(out@ =~= Seq::<char>::empty() + dec_digits(n as int));
        assert(Seq::<char>::empty() + dec_digits(n as int) =~= dec_digits(n as int));
    }
    out
}

/// Append one character's JSON escape.
fn push_escaped_char(out: &mut Vec<char>, c: char)
    ensures
        final(out)@ == old(out)@ + json_escape_char(c),
{
    if c == '"' {
        out.push('\\');
        out.push('"');
        assert(final(out)@ =~= old(out)@ + json_escape_char(c));
    } else if c == '\\' {
        out.push('\\');
        out.push('\\');
        assert(final(out)@ =~= old(out)@ + json_escape_char(c));
    } else if c == '\u{8}' {
        out.push('\\');
        out.push('b');
        assert(final(out)@ =~= old(out)@ + json_escape_char(c));
    } else if c == '\t' {
        out.push('\\');
        out.push('t');
        assert(final(out)@ =~= old(out)@ + json_escape_char(c));
    } else if c == '\n' {
        out.push('\\');
        out.push('n');
        assert(final(out)@ =~= old(out)@ + json_escape_char(c));
    } else if c == '\u{c}' {
        out.push('\\');
        out.push('f');
        assert(final(out)@ =~= old(out)@ + json_escape_char(c));
    } else if c == '\r' {
        out.push('\\');
        out.push('r');
        assert(final(out)@ =~= old(out)@ + json_escape_char(c));
    } else if (c as u32) < 0x20 {
        out.push('\\');
        out.push('u');
        out.push('0');
        out.push('0');
        out.push(hex_char((c as u32) / 16));
        out.push(hex_char((c as u32) % 16));
        assert(final(out)@ =~= old(out)@ + json_escape_char(c));
    } else {
        out.push(c);
        assert(final(out)@ =~= old(out)@ + json_escape_char(c));
    }
}

/// Append a quoted, escaped JSON string.
fn push_quoted(out: &mut Vec<char>, s: &String)
    ensures
        final(out)@ == old(out)@ + json_quote(s@),
{
    let v = to_chars(s.as_str());
    out.push('"');
    let n = v.len();
    let ghost base = out@;
    for i in 0..n
        invariant
            n == v@.len(),
            v@ == s@,
            out@ == base + json_escape(v@.take(i as int)),
    {
        proof {
            assert(v@.take(i + 1).drop_last() =~= v@.take(i as int));
            let t = v@.take(i + 1);
            assert(t.len() > 0);
        }
        push_escaped_char(out, v[i]);
        proof {
            lemma_json_escape_snoc(v@.take(i + 1));
            assert(v@.take(i + 1).last() == v@[i as int]);
        }
    }
    proof {
        assert(v@.take(n as int) =~= v@);
    }
    out.push('"');
    proof {
        assert(out@ =~= old(out)@ + json_quote(s@));
    }
}

/// Escaping one more character at the end appends its escape.
proof fn lemma_json_escape_snoc(s: Seq<char>)
    requires
        s.len() > 0,
    ensures
        json_escape(s) == json_escape(s.drop_last()) + json_escape_char(s.last()),
    decreases s.len(),
{
    if s.len() == 1 {
        assert(s.drop_first() =~= Seq::<char>::empty());
        assert(s.drop_last() =~= Seq::<char>::empty());
        assert(s[0] == s.last());
        assert(json_escape(s) =~= json_escape(s.drop_last()) + json_escape_char(s.last()));
    } else {
        lemma_json_escape_snoc(s.drop_first());
        assert(s.drop_first().drop_last() =~= s.drop_last().drop_first());
        assert(s.drop_first().last() == s.last());
        assert(s.drop_last()[0] == s[0]);
        assert(s.drop_last().len() > 0);
        assert(json_escape(s) =~= json_escape_char(s[0]) + (json_escape(s.drop_first().drop_last())
            + json_escape_char(s.last())));
        assert(json_escape(s.drop_last()) =~= json_escape_char(s[0]) + json_escape(
            s.drop_last().drop_first(),
        ));
        assert(json_escape(s) =~= json_escape(s.drop_last()) + json_escape_char(s.last()));
    }
}

/// Append `level` levels of indentation.
fn push_indent(out: &mut Vec<char>, level: usize)
    requires
        level <= 16,
    ensures
        final(out)@ == old(out)@ + indent_of(level as nat),
{
    let mut pad = make_spaces(2 * level);
    let ghost pre = out@;
    out.append(&mut pad);
    assert(out@ =~= pre + spec_spaces((2 * level) as nat));
}

/// Append one rendered value.
fn push_value(out: &mut Vec<char>, v: &JsonValue, level: usize)
    requires
        level <= 15,
    ensures
        final(out)@ == old(out)@ + spec_render_value(v@, level as nat),
{
    match v {
        JsonValue::Text(s) => push_quoted(out, s),
        JsonValue::Num(n) => {
            let mut d = fmt_i64(*n);
            let ghost pre = out@;
            out.append(&mut d);
            assert(out@ =~= pre + dec_of(*n as int));
        },
        JsonValue::TextArray(a) => {
            if a.len() == 0 {
                out.push('[');
                out.push(']');
                assert(out@ =~= old(out)@ + seq!['[', ']']);
            } else {
                out.push('[');
                out.push('\n');
                push_arr_items(out, a, 0, level + 1);
                proof {
                    assert(strings_view(a@).skip(0) =~= strings_view(a@));
                }
                out.push('\n');
                push_indent(out, level);
                out.push(']');
                proof {
                    assert(out@ =~= old(out)@ + spec_render_value(v@, level as nat));
                }
            }
        },
    }
}

/// Append the array lines from `from` on.
fn push_arr_items(out: &mut Vec<char>, a: &Vec<String>, from: usize, level: usize)
    requires
        from < a@.len(),
        level <= 16,
    ensures
        final(out)@ == old(out)@ + spec_arr_items(strings_view(a@).skip(from as int), level as nat),
    decreases a@.len() - from,
{
    let ghost items = strings_view(a@).skip(from as int);
    proof {
        assert(items[0] == a@[from as int]@);
        assert(items.drop_first() =~= strings_view(a@).skip(from + 1));
    }
    push_indent(out, level);
    push_quoted(out, &a[from]);
    let n = a.len();
    if from + 1 < n {
        out.push(',');
        out.push('\n');
        push_arr_items(out, a, from + 1, level);
        proof {
            assert(final(out)@ =~= old(out)@ + spec_arr_items(items, level as nat));
        }
    } else {
        proof {
            assert(items.len() == 1);
            assert(final(out)@ =~= old(out)@ + spec_arr_items(items, level as nat));
        }
    }
}

/// Append the field lines from `from` on.
fn push_obj_items(out: &mut Vec<char>, fields: &Vec<(String, JsonValue)>, from: usize, level: usize)
    requires
        from < fields@.len(),
        level <= 15,
    ensures
        final(out)@ == old(out)@ + spec_obj_items(fields_view(fields@).skip(from as int), level as nat),
    decreases fields@.len() - from,
{
    let ghost items = fields_view(fields@).skip(from as int);
    proof {
        assert(items[0] == (fields@[from as int].0@, fields@[from as int].1@));
        assert(items.drop_first() =~= fields_view(fields@).skip(from + 1));
    }
    push_indent(out, level);
    push_quoted(out, &fields[from].0);
    out.push(':');
    out.push(' ');
    push_value(out, &fields[from].1, level);
    let n = fields.len();
    if from + 1 < n {
        out.push(',');
        out.push('\n');
        push_obj_items(out, fields, from + 1, level);
        proof {
            assert(final(out)@ =~= old(out)@ + spec_obj_items(items, level as nat));
        }
    } else {
        proof {
            assert(items.len() == 1);
            assert(final(out)@ =~= old(out)@ + spec_obj_items(items, level as nat));
        }
    }
}

/// Append one rendered object.
fn push_object(out: &mut Vec<char>, obj: &JsonObject, level: usize)
    requires
        level <= 14,
    ensures
        final(out)@ == old(out)@ + spec_render_object(obj@, level as nat),
{
    if obj.fields.len() == 0 {
        out.push('{');
        out.push('}');
        assert(out@ =~= old(out)@ + seq!['{', '}']);
    } else {
        out.push('{');
        out.push('\n');
        push_obj_items(out, &obj.fields, 0, level + 1);
        proof {
            assert(fields_view(obj.fields@).skip(0) =~= fields_view(obj.fields@));
        }
        out.push('\n');
        push_indent(out, level);
        out.push('}');
        proof {
            assert(out@ =~= old(out)@ + spec_render_object(obj@, level as nat));
        }
    }
}

/// Append the document entries from `from` on.
fn push_array_entries(out: &mut Vec<char>, objs: &Vec<JsonObject>, from: usize, level: usize)
    requires
        from < objs@.len(),
        level <= 14,
    ensures
        final(out)@ == old(out)@ + spec_array_entries(doc_view(objs@).skip(from as int), level as nat),
    decreases objs@.len() - from,
{
    let ghost items = doc_view(objs@).skip(from as int);
    proof {
        assert(items[0] == objs@[from as int]@);
        assert(items.drop_first() =~= doc_view(objs@).skip(from + 1));
    }
    push_indent(out, level);
    push_object(out, &objs[from], level);
    let n = objs.len();
    if from + 1 < n {
        out.push(',');
        out.push('\n');
        push_array_entries(out, objs, from + 1, level);
        proof {
            assert(final(out)@ =~= old(out)@ + spec_array_entries(items, level as nat));
        }
    } else {
        proof {
            assert(items.len() == 1);
            assert(final(out)@ =~= old(out)@ + spec_array_entries(items, level as nat));
        }
    }
}

/// Render the whole document: a pretty-printed array of objects, exactly
/// `[]` when the collection is empty.
pub fn render_json_array(objs: &Vec<JsonObject>) -> (r: String)
    ensures
        r@ == spec_render_array(doc_view(objs@)),
{
    let mut out: Vec<char> = Vec::new();
    if objs.len() == 0 {
        out.push('[');
        out.push(']');
        assert(out@ =~= seq!['[', ']']);
    } else {
        out.push('[');
        out.push('\n');
        push_array_entries(&mut out, objs, 0, 1);
        proof {
            assert(doc_view(objs@).skip(0) =~= doc_view(objs@));
        }
        out.push('\n');
        out.push(']');
        proof {
            assert(out@ =~= seq!['[', '\n'] + spec_array_entries(doc_view(objs@), 1) + seq![
                '\n',
                ']',
            ]);
        }
    }
    chars_to_string(&out)
}

/// The JSON keys the adapters use are pairwise distinct texts: a key one
/// of the omission laws speaks of can never collide with another field's
/// key.
pub proof fn lemma_json_keys_distinct()
    ensures
        "id"@ != "display_name"@,
        "id"@ != "status"@,
        "id"@ != "platform"@,
        "id"@ != "location"@,
        "id"@ != "activity"@,
        "id"@ != "last_activity"@,
        "id"@ != "username"@,
        "id"@ != "bio"@,
        "id"@ != "date_joined"@,
        "id"@ != "name"@,
        "id"@ != "author_name"@,
        "id"@ != "author_id"@,
        "id"@ != "capacity"@,
        "id"@ != "description"@,
        "id"@ != "visits"@,
        "id"@ != "favorites"@,
        "id"@ != "created_at"@,
        "id"@ != "updated_at"@,
        "id"@ != "tags"@,
        "status"@ != "display_name"@,
        "status"@ != "platform"@,
        "status"@ != "location"@,
        "status"@ != "activity"@,
        "status"@ != "last_activity"@,
        "status"@ != "username"@,
        "status"@ != "bio"@,
        "status"@ != "date_joined"@,
        "status"@ != "name"@,
        "status"@ != "author_name"@,
        "status"@ != "author_id"@,
        "status"@ != "capacity"@,
        "status"@ != "description"@,
        "status"@ != "visits"@,
        "status"@ != "favorites"@,
        "status"@ != "created_at"@,
        "status"@ != "updated_at"@,
        "status"@ != "tags"@,
        "platform"@ != "display_name"@,
        "platform"@ != "location"@,
        "platform"@ != "activity"@,
        "platform"@ != "last_activity"@,
        "platform"@ != "username"@,
        "platform"@ != "bio"@,
        "platform"@ != "date_joined"@,
        "platform"@ != "name"@,
        "platform"@ != "author_name"@,
        "platform"@ != "author_id"@,
        "platform"@ != "capacity"@,
        "platform"@ != "description"@,
        "platform"@ != "visits"@,
        "platform"@ != "favorites"@,
        "platform"@ != "created_at"@,
        "platform"@ != "updated_at"@,
        "platform"@ != "tags"@,
        "location"@ != "display_name"@,
        "location"@ != "activity"@,
        "location"@ != "last_activity"@,
        "location"@ != "username"@,
        "location"@ != "bio"@,
        "location"@ != "date_joined"@,
        "location"@ != "name"@,
        "location"@ != "author_name"@,
        "location"@ != "author_id"@,
        "location"@ != "capacity"@,
        "location"@ != "description"@,
        "location"@ != "visits"@,
        "location"@ != "favorites"@,
        "location"@ != "created_at"@,
        "location"@ != "updated_at"@,
        "location"@ != "tags"@,
        "activity"@ != "display_name"@,
        "activity"@ != "last_activity"@,
        "activity"@ != "username"@,
        "activity"@ != "bio"@,
        "activity"@ != "date_joined"@,
        "activity"@ != "name"@,
        "activity"@ != "author_name"@,
        "activity"@ != "author_id"@,
        "activity"@ != "capacity"@,
        "activity"@ != "description"@,
        "activity"@ != "visits"@,
        "activity"@ != "favorites"@,
        "activity"@ != "created_at"@,
        "activity"@ != "updated_at"@,
        "activity"@ != "tags"@,
        "last_activity"@ != "display_name"@,
        "last_activity"@ != "username"@,
        "last_activity"@ != "bio"@,
        "last_activity"@ != "date_joined"@,
        "last_activity"@ != "name"@,
        "last_activity"@ != "author_name"@,
        "last_activity"@ != "author_id"@,
        "last_activity"@ != "capacity"@,
        "last_activity"@ != "description"@,
        "last_activity"@ != "visits"@,
        "last_activity"@ != "favorites"@,
        "last_activity"@ != "created_at"@,
        "last_activity"@ != "updated_at"@,
        "last_activity"@ != "tags"@,
{
    assert("display_name"@ =~= seq!['d', 'i', 's', 'p', 'l', 'a', 'y', '_', 'n', 'a', 'm', 'e']) by {
        reveal_strlit("display_name");
    }
    assert("id"@ =~= seq!['i', 'd']) by {
        reveal_strlit("id");
    }
    assert("status"@ =~= seq!['s', 't', 'a', 't', 'u', 's']) by {
        reveal_strlit("status");
    }
    assert("platform"@ =~= seq!['p', 'l', 'a', 't', 'f', 'o', 'r', 'm']) by {
        reveal_strlit("platform");
    }
    assert("location"@ =~= seq!['l', 'o', 'c', 'a', 't', 'i', 'o', 'n']) by {
        reveal_strlit("location");
    }
    assert("activity"@ =~= seq!['a', 'c', 't', 'i', 'v', 'i', 't', 'y']) by {
        reveal_strlit("activity");
    }
    assert("last_activity"@ =~= seq!['l', 'a', 's', 't', '_', 'a', 'c', 't', 'i', 'v', 'i', 't', 'y']) by {
        reveal_strlit("last_activity");
    }
    assert("username"@ =~= seq!['u', 's', 'e', 'r', 'n', 'a', 'm', 'e']) by {
        reveal_strlit("username");
    }
    assert("bio"@ =~= seq!['b', 'i', 'o']) by {
        reveal_strlit("bio");
    }
    assert("date_joined"@ =~= seq!['d', 'a', 't', 'e', '_', 'j', 'o', 'i', 'n', 'e', 'd']) by {
        reveal_strlit("date_joined");
    }
    assert("name"@ =~= seq!['n', 'a', 'm', 'e']) by {
        reveal_strlit("name");
    }
    assert("author_name"@ =~= seq!['a', 'u', 't', 'h', 'o', 'r', '_', 'n', 'a', 'm', 'e']) by {
        reveal_strlit("author_name");
    }
    assert("author_id"@ =~= seq!['a', 'u', 't', 'h', 'o', 'r', '_', 'i', 'd']) by {
        reveal_strlit("author_id");
    }
    assert("capacity"@ =~= seq!['c', 'a', 'p', 'a', 'c', 'i', 't', 'y']) by {
        reveal_strlit("capacity");
    }
    assert("description"@ =~= seq!['d', 'e', 's', 'c', 'r', 'i', 'p', 't', 'i', 'o', 'n']) by {
        reveal_strlit("description");
    }
    assert("visits"@ =~= seq!['v', 'i', 's', 'i', 't', 's']) by {
        reveal_strlit("visits");
    }
    assert("favorites"@ =~= seq!['f', 'a', 'v', 'o', 'r', 'i', 't', 'e', 's']) by {
        reveal_strlit("favorites");
    }
    assert("created_at"@ =~= seq!['c', 'r', 'e', 'a', 't', 'e', 'd', '_', 'a', 't']) by {
        reveal_strlit("created_at");
    }
    assert("updated_at"@ =~= seq!['u', 'p', 'd', 'a', 't', 'e', 'd', '_', 'a', 't']) by {
        reveal_strlit("updated_at");
    }
    assert("tags"@ =~= seq!['t', 'a', 'g', 's']) by {
        reveal_strlit("tags");
    }
}

} // verus!
