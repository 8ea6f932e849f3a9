//! Reading JSON text: the values at JSON pointers (RFC 6901) of a document, as
//! serde_json parses it, and the readings built on them (strings, flags,
//! integers, an object's members, an array's items).

use vstd::prelude::*;
use serde_json::Value as JsonTree;
use crate::text::{base_digits, chars_of, decimal, push_chars, push_str, string_of};

verus! {

/// A JSON value as the library reads it: scalars as they are, an array as its
/// items' JSON texts, an object as its members' keys with their JSON texts.
pub enum JsonField {
    Str(String),
    Bool(bool),
    /// A number, with its value when it is an `i64`.
    Number(Option<i64>),
    Array(Vec<String>),
    Object(Vec<(String, String)>),
    Null,
    /// Nothing at that pointer.
    Missing,
}

/// The value of a [`JsonField`].
pub enum JsonValue {
    Str(Seq<char>),
    Bool(bool),
    Number(Option<i64>),
    Array(Seq<Seq<char>>),
    Object(Seq<(Seq<char>, Seq<char>)>),
    Null,
    Missing,
}

/// The value of a [`JsonField`].
pub open spec fn field_view(f: JsonField) -> JsonValue {
    match f {
        JsonField::Str(s) => JsonValue::Str(s@),
        JsonField::Bool(b) => JsonValue::Bool(b),
        JsonField::Number(n) => JsonValue::Number(n),
        JsonField::Array(v) => JsonValue::Array(v@.map_values(|s: String| s@)),
        JsonField::Object(v) => JsonValue::Object(v@.map_values(|m: (String, String)| (m.0@, m.1@))),
        JsonField::Null => JsonValue::Null,
        JsonField::Missing => JsonValue::Missing,
    }
}

/// The values of a list of [`JsonField`]s.
pub open spec fn fields_view(v: Seq<JsonField>) -> Seq<JsonValue> {
    v.map_values(|f: JsonField| field_view(f))
}

/// A name for what serde_json reads from a JSON text: `None` when the text is
/// not JSON, else the value at each JSON pointer (`Value::pointer`), the
/// items and members of arrays and objects written back as compact JSON text.
pub uninterp spec fn json_values(text: Seq<char>, pointers: Seq<Seq<char>>) -> Option<Seq<JsonValue>>;

/// serde_json `from_str::<Value>` and `Value::pointer` for each pointer
/// (named [`json_values`]); array items and object members are written back
/// with `to_string`.
#[verifier::external_body]
pub(crate) fn json_read(text: &str, pointers: &Vec<String>) -> (res: Option<Vec<JsonField>>)
    ensures
        match res {
            Some(v) => json_values(text@, pointers@.map_values(|p: String| p@)) == Some(fields_view(v@))
                && v@.len() == pointers@.len(),
            None => json_values(text@, pointers@.map_values(|p: String| p@)) is None,
        },
{
    let v: JsonTree = serde_json::from_str(text).ok()?;
    Some(pointers.iter().map(|p| match v.pointer(p) {
        Some(JsonTree::String(s)) => JsonField::Str(s.clone()),
        Some(JsonTree::Bool(b)) => JsonField::Bool(*b),
        Some(JsonTree::Number(n)) => JsonField::Number(n.as_i64()),
        Some(JsonTree::Array(a)) => JsonField::Array(a.iter().map(JsonTree::to_string).collect()),
        Some(JsonTree::Object(m)) => JsonField::Object(m.iter().map(|(k, x)| (k.clone(), x.to_string())).collect()),
        None => JsonField::Missing,
        _ => JsonField::Null,
    }).collect())
}

/// One reference token of a JSON pointer: `~` written `~0`, `/` written `~1`.
pub open spec fn escaped(s: Seq<char>) -> Seq<char>
    decreases s.len(),
{
    if s.len() == 0 {
        Seq::empty()
    } else {
        (if s[0] == '~' {
            "~0"@
        } else if s[0] == '/' {
            "~1"@
        } else {
            seq![s[0]]
        }) + escaped(s.drop_first())
    }
}

/// The JSON pointer of a path of member keys and item indices (as decimal
/// text): `/` before each escaped token; the empty path is the whole document.
pub open spec fn pointer(path: Seq<Seq<char>>) -> Seq<char>
    decreases path.len(),
{
    if path.len() == 0 {
        Seq::empty()
    } else {
        pointer(path.drop_last()) + "/"@ + escaped(path.last())
    }
}

/// Appends `/` and the escaped token `s` to a pointer.
pub fn push_token(p: &mut Vec<char>, s: &str)
    ensures
        final(p)@ == old(p)@ + "/"@ + escaped(s@),
{
    proof {
        reveal_strlit("/");
        reveal_strlit("~0");
        reveal_strlit("~1");
    }
    let cs = chars_of(s);
    p.push('/');
    let ghost start = p@;
    let mut i: usize = 0;
    while i < cs.len()
        invariant
            i <= cs.len(),
            cs@ == s@,
            p@ == start + escaped(cs@.take(i as int)),
        decreases cs.len() - i,
    {
        proof {
            reveal_strlit("~0");
            reveal_strlit("~1");
            lemma_escaped_push(cs@.take(i as int), cs@[i as int]);
        }
        assert(cs@.take(i + 1) =~= cs@.take(i as int).push(cs@[i as int]));
        let c = cs[i];
        let ghost before = p@;
        if c == '~' {
            p.push('~');
            p.push('0');
            assert(escaped(seq![c]) =~= seq!['~', '0']);
        } else if c == '/' {
            p.push('~');
            p.push('1');
            assert(escaped(seq![c]) =~= seq!['~', '1']);
        } else {
            p.push(c);
            assert(escaped(seq![c]) =~= seq![c]);
        }
        assert(p@ =~= before + escaped(seq![c]));
        assert(p@ =~= start + escaped(cs@.take(i + 1)));
        i += 1;
    }
    assert(cs@.take(cs.len() as int) =~= cs@);
    assert(start =~= old(p)@ + "/"@);
}

proof fn lemma_escaped_push(s: Seq<char>, c: char)
    ensures
        escaped(s.push(c)) == escaped(s) + escaped(seq![c]),
        escaped(seq![c]) == (if c == '~' {
            "~0"@
        } else if c == '/' {
            "~1"@
        } else {
            seq![c]
        }),
    decreases s.len(),
{
    reveal_strlit("~0");
    reveal_strlit("~1");
    assert(seq![c].drop_first() =~= Seq::<char>::empty());
    assert(escaped(Seq::<char>::empty()) == Seq::<char>::empty());
    let head = if c == '~' {
        "~0"@
    } else if c == '/' {
        "~1"@
    } else {
        seq![c]
    };
    assert(escaped(seq![c]) == head + escaped(seq![c].drop_first()));
    assert(escaped(seq![c]) =~= head);
    if s.len() == 0 {
        assert(s.push(c) =~= seq![c]);
        assert(escaped(s) + escaped(seq![c]) =~= escaped(seq![c]));
    } else {
        lemma_escaped_push(s.drop_first(), c);
        assert(s.push(c).drop_first() =~= s.drop_first().push(c));
        assert(s.push(c)[0] == s[0]);
        let h0 = if s[0] == '~' {
            "~0"@
        } else if s[0] == '/' {
            "~1"@
        } else {
            seq![s[0]]
        };
        assert(escaped(s.push(c)) == h0 + escaped(s.drop_first().push(c)));
        assert(escaped(s) == h0 + escaped(s.drop_first()));
        assert(escaped(s.push(c)) =~= escaped(s) + escaped(seq![c]));
    }
}

/// The pointer of a path of keys (see [`pointer`]).
pub fn pointer_of(path: &Vec<&str>) -> (res: String)
    ensures
        res@ == pointer(path@.map_values(|k: &str| k@)),
{
    let ghost pv = path@.map_values(|k: &str| k@);
    let mut p: Vec<char> = Vec::new();
    let mut i: usize = 0;
    while i < path.len()
        invariant
            i <= path.len(),
            pv == path@.map_values(|k: &str| k@),
            p@ == pointer(pv.take(i as int)),
        decreases path.len() - i,
    {
        assert(pv.take(i + 1).drop_last() =~= pv.take(i as int));
        assert(pv.take(i + 1).last() == path@[i as int]@);
        push_token(&mut p, path[i]);
        i += 1;
    }
    assert(pv.take(path.len() as int) =~= pv);
    string_of(&p)
}

/// The values at the pointers, or `Missing` everywhere when the text is not
/// JSON.
pub open spec fn values_at(text: Seq<char>, pointers: Seq<Seq<char>>) -> Seq<JsonValue> {
    match json_values(text, pointers) {
        Some(v) => v,
        None => Seq::new(pointers.len(), |i: int| JsonValue::Missing),
    }
}

/// The values at the pointers (see [`values_at`]).
pub fn read_values(text: &str, pointers: &Vec<String>) -> (res: Vec<JsonField>)
    ensures
        fields_view(res@) == values_at(text@, pointers@.map_values(|p: String| p@)),
        res@.len() == pointers@.len(),
{
    match json_read(text, pointers) {
        Some(v) => v,
        None => {
            let mut v: Vec<JsonField> = Vec::new();
            let mut i: usize = 0;
            while i < pointers.len()
                invariant
                    i <= pointers.len(),
                    v@.len() == i,
                    forall|k: int| 0 <= k < i ==> #[trigger] v@[k] == JsonField::Missing,
                decreases pointers.len() - i,
            {
                v.push(JsonField::Missing);
                i += 1;
            }
            assert(fields_view(v@) =~= Seq::new(pointers@.len(), |i: int| JsonValue::Missing));
            v
        },
    }
}

/// The value at one pointer.
pub open spec fn value_at(text: Seq<char>, pointer: Seq<char>) -> JsonValue {
    values_at(text, seq![pointer])[0]
}

/// The value at one pointer (see [`value_at`]).
pub fn read_value(text: &str, pointer: String) -> (res: JsonField)
    ensures
        field_view(res) == value_at(text@, pointer@),
{
    let ghost pv = pointer@;
    let ps = vec![pointer];
    assert(ps@.map_values(|p: String| p@) =~= seq![pv]);
    let mut v = read_values(text, &ps);
    assert(field_view(v@[0]) == values_at(text@, seq![pv])[0]);
    v.swap_remove(0)
}

/// A string value's text.
pub open spec fn str_of(v: JsonValue) -> Option<Seq<char>> {
    match v {
        JsonValue::Str(s) => Some(s),
        _ => None,
    }
}

/// A string value's text, or empty.
pub open spec fn text_or_empty(v: JsonValue) -> Seq<char> {
    match v {
        JsonValue::Str(s) => s,
        _ => Seq::empty(),
    }
}

/// A boolean value.
pub open spec fn bool_of(v: JsonValue) -> Option<bool> {
    match v {
        JsonValue::Bool(b) => Some(b),
        _ => None,
    }
}

/// An integer value (a number that is an `i64`).
pub open spec fn int_of(v: JsonValue) -> Option<i64> {
    match v {
        JsonValue::Number(n) => n,
        _ => None,
    }
}

/// The view of an optional string.
pub open spec fn ostr(o: Option<String>) -> Option<Seq<char>> {
    match o {
        Some(s) => Some(s@),
        None => None,
    }
}

/// A string value's text (see [`str_of`]).
pub fn text_of(f: &JsonField) -> (res: Option<String>)
    ensures
        ostr(res) == str_of(field_view(*f)),
{
    match f {
        JsonField::Str(s) => Some(string_of(&chars_of(s.as_str()))),
        _ => None,
    }
}

/// A string value's text, or empty (see [`text_or_empty`]).
pub fn text_or_blank(f: &JsonField) -> (res: String)
    ensures
        res@ == text_or_empty(field_view(*f)),
{
    match f {
        JsonField::Str(s) => string_of(&chars_of(s.as_str())),
        _ => String::new(),
    }
}

/// A boolean value (see [`bool_of`]).
pub fn flag_of(f: &JsonField) -> (res: Option<bool>)
    ensures
        res == bool_of(field_view(*f)),
{
    match f {
        JsonField::Bool(b) => Some(*b),
        _ => None,
    }
}

/// An integer value (see [`int_of`]).
pub fn int_value(f: &JsonField) -> (res: Option<i64>)
    ensures
        res == int_of(field_view(*f)),
{
    match f {
        JsonField::Number(n) => *n,
        _ => None,
    }
}

/// The pointer of one key: `/<key>` escaped.
pub open spec fn key_pointer(key: Seq<char>) -> Seq<char> {
    pointer(seq![key])
}

/// The pointer of one key (see [`key_pointer`]).
pub fn key_pointer_of(key: &str) -> (res: String)
    ensures
        res@ == key_pointer(key@),
{
    let mut p: Vec<char> = Vec::new();
    push_token(&mut p, key);
    assert(seq![key@].drop_last() =~= Seq::<Seq<char>>::empty());
    assert(seq![key@].last() == key@);
    assert(pointer(Seq::<Seq<char>>::empty()) == Seq::<char>::empty());
    assert(p@ =~= pointer(Seq::<Seq<char>>::empty()) + "/"@ + escaped(key@));
    string_of(&p)
}

/// The members of the object a JSON text holds (none when it holds no
/// object), each key with its value's JSON text, in serde_json's order.
pub open spec fn members_in(text: Seq<char>) -> Seq<(Seq<char>, Seq<char>)> {
    match value_at(text, Seq::empty()) {
        JsonValue::Object(ms) => ms,
        _ => Seq::empty(),
    }
}

/// The members of the object a JSON text holds (see [`members_in`]).
pub fn object_members(text: &str) -> (res: Vec<(String, String)>)
    ensures
        res@.map_values(|m: (String, String)| (m.0@, m.1@)) == members_in(text@),
{
    proof {
        reveal_strlit("");
    }
    match read_value(text, String::new()) {
        JsonField::Object(ms) => ms,
        _ => Vec::new(),
    }
}

/// The items of the array at `pointer` (none when there is no array there),
/// each as its JSON text.
pub open spec fn items_in(text: Seq<char>, pointer: Seq<char>) -> Seq<Seq<char>> {
    match value_at(text, pointer) {
        JsonValue::Array(items) => items,
        _ => Seq::empty(),
    }
}

/// The items of the array at `pointer` (see [`items_in`]).
pub fn array_items(text: &str, pointer: String) -> (res: Vec<String>)
    ensures
        res@.map_values(|s: String| s@) == items_in(text@, pointer@),
{
    match read_value(text, pointer) {
        JsonField::Array(items) => items,
        _ => Vec::new(),
    }
}

/// A request body's string member `key`, or empty.
pub open spec fn body_text(body: Seq<char>, key: Seq<char>) -> Seq<char> {
    text_or_empty(value_at(body, key_pointer(key)))
}

/// A request body's string member (see [`body_text`]).
pub fn body_str(body: &str, key: &str) -> (res: String)
    ensures
        res@ == body_text(body@, key@),
{
    text_or_blank(&read_value(body, key_pointer_of(key)))
}

/// A request body's integer member `key`, if it has one.
pub open spec fn body_integer(body: Seq<char>, key: Seq<char>) -> Option<i64> {
    int_of(value_at(body, key_pointer(key)))
}

/// A request body's integer member (see [`body_integer`]).
pub fn body_int(body: &str, key: &str) -> (res: Option<i64>)
    ensures
        res == body_integer(body@, key@),
{
    int_value(&read_value(body, key_pointer_of(key)))
}

/// A request body's boolean member `key`, if it has one.
pub open spec fn body_flag(body: Seq<char>, key: Seq<char>) -> Option<bool> {
    bool_of(value_at(body, key_pointer(key)))
}

/// A request body's boolean member (see [`body_flag`]).
pub fn body_bool(body: &str, key: &str) -> (res: Option<bool>)
    ensures
        res == body_flag(body@, key@),
{
    flag_of(&read_value(body, key_pointer_of(key)))
}

} // verus!
