//! Content hashes that key cached renders and art: SHA-256 digests written as
//! lower-case hex, and the canonical text of a card that a render hash covers.

use vstd::prelude::*;
use sha2::Digest;
use crate::frames::{frame_file, frame_file_spec, Card};
use crate::text::{chars_of, digit_char, string_of};

verus! {

/// A name for the SHA-256 digest of a byte string.
pub uninterp spec fn sha256_digest(data: Seq<u8>) -> Seq<u8>;

/// sha2 `Sha256` (new, update, finalize): the digest of `data`, 32 bytes.
#[verifier::external_body]
fn sha256(data: &[u8]) -> (res: Vec<u8>)
    ensures
        res@ == sha256_digest(data@),
        res@.len() == 32,
{
    let mut h = sha2::Sha256::new();
    h.update(data);
    h.finalize().to_vec()
}

/// Bytes as lower-case hex, two digits per byte.
pub open spec fn lower_hex(b: Seq<u8>) -> Seq<char>
    decreases b.len(),
{
    if b.len() == 0 {
        Seq::empty()
    } else {
        lower_hex(b.drop_last()) + seq![
            digit_char((b.last() / 16) as nat),
            digit_char((b.last() % 16) as nat),
        ]
    }
}

fn hex_digit(d: u8) -> (c: char)
    requires
        d < 16,
    ensures
        c == digit_char(d as nat),
{
    if d < 10 {
        (48 + d) as char
    } else {
        (87 + d) as char
    }
}

/// Bytes in lower-case hex, two digits each.
pub fn hex_of(b: &Vec<u8>) -> (res: Vec<char>)
    ensures
        res@ == lower_hex(b@),
        res@.len() == 2 * b@.len(),
{
    let mut res: Vec<char> = Vec::new();
    let mut i: usize = 0;
    while i < b.len()
        invariant
            i <= b.len(),
            res@ == lower_hex(b@.take(i as int)),
            res@.len() == 2 * i,
        decreases b.len() - i,
    {
        assert(b@.take(i + 1).drop_last() == b@.take(i as int));
        assert(b@.take(i + 1).last() == b@[i as int]);
        res.push(hex_digit(b[i] / 16));
        res.push(hex_digit(b[i] % 16));
        i += 1;
        assert(res@ =~= lower_hex(b@.take(i as int)));
    }
    assert(b@.take(b.len() as int) == b@);
    res
}

/// The SHA-256 digest of a string's UTF-8 bytes, in lower-case hex.
pub open spec fn sha256_hex(s: Seq<char>) -> Seq<char> {
    lower_hex(sha256_digest(vstd::utf8::encode_utf8(s)))
}

/// The SHA-256 digest of `s`, in lower-case hex (64 characters).
pub fn sha256_hex_of(s: &str) -> (res: String)
    ensures
        res@ == sha256_hex(s@),
        res@.len() == 64,
{
    let d = sha256(s.as_bytes());
    string_of(&hex_of(&d))
}

/// A short, stable key: the first 16 hex digits of the SHA-256 of `s`.
pub fn short_hash(s: &str) -> (res: String)
    ensures
        res@ == sha256_hex(s@).take(16),
        res@.len() == 16,
{
    let full = chars_of(sha256_hex_of(s).as_str());
    string_of(&crate::text::slice_chars(&full, 0, 16))
}

/// A scalar JSON value.
pub enum JsonScalar {
    Text(String),
    Flag(bool),
    Int(i64),
    /// A value given by its own JSON text.
    Json(String),
}

/// The value of a [`JsonScalar`].
pub enum ScalarView {
    Text(Seq<char>),
    Flag(bool),
    Int(i64),
    Json(Seq<char>),
}

/// The value of a [`JsonScalar`].
pub open spec fn scalar_view(v: JsonScalar) -> ScalarView {
    match v {
        JsonScalar::Text(s) => ScalarView::Text(s@),
        JsonScalar::Flag(b) => ScalarView::Flag(b),
        JsonScalar::Int(n) => ScalarView::Int(n),
        JsonScalar::Json(t) => ScalarView::Json(t@),
    }
}

/// The members of a JSON object, as values.
pub open spec fn members_view(v: Seq<(String, JsonScalar)>) -> Seq<(Seq<char>, ScalarView)> {
    v.map_values(|m: (String, JsonScalar)| (m.0@, scalar_view(m.1)))
}

/// A name for serde_json's compact text of the object with these members
/// (a `serde_json::Map` of them, written with `to_string`; a member given by
/// JSON text holds the value that text parses to, `null` if it is not JSON).
pub uninterp spec fn json_object_text(members: Seq<(Seq<char>, ScalarView)>) -> Seq<char>;

/// serde_json: the object with these members, as compact text (named
/// [`json_object_text`]).
#[verifier::external_body]
pub(crate) fn json_object(members: Vec<(String, JsonScalar)>) -> (res: String)
    ensures
        res@ == json_object_text(members_view(members@)),
{
    let map: serde_json::Map<String, serde_json::Value> = members
        .into_iter()
        .map(|(k, v)| (k, match v {
            JsonScalar::Text(s) => serde_json::Value::from(s),
            JsonScalar::Flag(b) => serde_json::Value::from(b),
            JsonScalar::Int(n) => serde_json::Value::from(n),
            JsonScalar::Json(t) => serde_json::from_str(&t).unwrap_or(serde_json::Value::Null),
        }))
        .collect();
    serde_json::Value::Object(map).to_string()
}

/// The members of the JSON object a classic-frame render is keyed by: every
/// card field that shows on the render, the frame file, the art and its
/// credit, the frame style and the key's version.
pub open spec fn card_members(c: Card, art_ref: Seq<char>, artist: Seq<char>) -> Seq<(Seq<char>, ScalarView)> {
    seq![
        ("name"@, ScalarView::Text(c.name@)),
        ("display_name"@, ScalarView::Text(c.display_name@)),
        ("mana_cost"@, ScalarView::Text(c.mana_cost@)),
        ("type"@, ScalarView::Text(c.type_line@)),
        ("oracle_text"@, ScalarView::Text(c.oracle_text@)),
        ("flavor"@, ScalarView::Text(c.flavor@)),
        ("power"@, ScalarView::Text(c.power@)),
        ("toughness"@, ScalarView::Text(c.toughness@)),
        ("loyalty"@, ScalarView::Text(c.loyalty@)),
        ("frame_file"@, ScalarView::Text(frame_file_spec(c))),
        ("is_creature"@, ScalarView::Flag(c.is_creature)),
        ("set"@, ScalarView::Text(c.set@)),
        ("rarity"@, ScalarView::Text(c.rarity@)),
        ("errata"@, ScalarView::Flag(c.is_errata)),
        ("ci"@, ScalarView::Text(c.color_identity@)),
        ("art_ref"@, ScalarView::Text(art_ref)),
        ("artist"@, ScalarView::Text(artist)),
        ("frame"@, ScalarView::Text("seventh"@)),
        ("v"@, ScalarView::Int(11)),
    ]
}

fn key(s: &str) -> (k: String)
    ensures
        k@ == s@,
{
    string_of(&chars_of(s))
}

fn text(s: &str) -> (v: JsonScalar)
    ensures
        scalar_view(v) == ScalarView::Text(s@),
{
    JsonScalar::Text(string_of(&chars_of(s)))
}

/// The render-cache key of a classic-frame card: the SHA-256 hex of the JSON
/// text of its [`card_members`].
pub fn card_hash(c: &Card, art_ref: &str, artist: &str) -> (res: String)
    ensures
        res@ == lower_hex(sha256_digest(vstd::utf8::encode_utf8(json_object_text(card_members(*c, art_ref@, artist@))))),
{
    let members: Vec<(String, JsonScalar)> = vec![
        (key("name"), text(c.name.as_str())),
        (key("display_name"), text(c.display_name.as_str())),
        (key("mana_cost"), text(c.mana_cost.as_str())),
        (key("type"), text(c.type_line.as_str())),
        (key("oracle_text"), text(c.oracle_text.as_str())),
        (key("flavor"), text(c.flavor.as_str())),
        (key("power"), text(c.power.as_str())),
        (key("toughness"), text(c.toughness.as_str())),
        (key("loyalty"), text(c.loyalty.as_str())),
        (key("frame_file"), text(frame_file(c))),
        (key("is_creature"), JsonScalar::Flag(c.is_creature)),
        (key("set"), text(c.set.as_str())),
        (key("rarity"), text(c.rarity.as_str())),
        (key("errata"), JsonScalar::Flag(c.is_errata)),
        (key("ci"), text(c.color_identity.as_str())),
        (key("art_ref"), text(art_ref)),
        (key("artist"), text(artist)),
        (key("frame"), text("seventh")),
        (key("v"), JsonScalar::Int(11)),
    ];
    assert(members_view(members@) =~= card_members(*c, art_ref@, artist@));
    sha256_hex_of(json_object(members).as_str())
}

} // verus!
