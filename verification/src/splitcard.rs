//! The page a split card (two half faces, 8th-edition frame) is drawn from:
//! which value goes into each slot of its template.

use vstd::prelude::*;
use crate::cardface::{fill_template, filled};
use crate::frames::{frame_for_cost_8th, frame_for_cost_8th_spec};
use crate::html::{esc, esc_spec, mana_from, manaify, rules_box, rules_html};
use crate::names::{join_path, joined};
use crate::text::{base_digits, chars_of, decimal, push_chars, push_str, string_of};

verus! {

/// Canvas width of a rendered card, with bleed.
pub const CARD_W: u32 = 2176;
/// Canvas height of a rendered card, with bleed.
pub const CARD_H: u32 = 2960;
/// Width of the card face inside the bleed.
pub const FACE_W: u32 = 2000;
/// Height of the card face inside the bleed.
pub const FACE_H: u32 = 2800;

/// One half of a split card: name, mana cost, type line and rules text.
pub open spec fn half_view(h: (String, String, String, String)) -> (Seq<char>, Seq<char>, Seq<char>, Seq<char>) {
    (h.0@, h.1@, h.2@, h.3@)
}

/// A `file://` URL of a path.
pub open spec fn file_uri(path: Seq<char>) -> Seq<char> {
    "file://"@ + path
}

/// A font file's URL: `<assets>/fonts/<file>`.
pub open spec fn font_uri(assets: Seq<char>, file: Seq<char>) -> Seq<char> {
    file_uri(joined(joined(assets, "fonts"@), file))
}

/// Where the mana symbol images are: `<assets>/mana`.
pub open spec fn mana_base_of(assets: Seq<char>) -> Seq<char> {
    file_uri(joined(assets, "mana"@))
}

/// The italic face's `@font-face` rule, when the italic font is present.
pub open spec fn italic_face(assets: Seq<char>, has_italic: bool) -> Seq<char> {
    if has_italic {
        "@font-face { font-family:'mplantin'; font-style:italic; src:url('"@
            + font_uri(assets, "mplantin-italic.ttf"@) + "'); }"@
    } else {
        Seq::empty()
    }
}

/// The frame image of a half, chosen by its mana cost.
pub open spec fn frame_uri(assets: Seq<char>, cost: Seq<char>) -> Seq<char> {
    file_uri(joined(assets, frame_for_cost_8th_spec(cost)))
}

/// The slots of the split-card template and their values, in the order they
/// are filled: fonts, canvas and face sizes, the bleed offsets, both arts and
/// frames, and each half's escaped name, mana symbols, type line and rules box.
pub open spec fn split_pairs(
    h1: (Seq<char>, Seq<char>, Seq<char>, Seq<char>),
    h2: (Seq<char>, Seq<char>, Seq<char>, Seq<char>),
    art1: Seq<char>,
    art2: Seq<char>,
    assets: Seq<char>,
    has_italic: bool,
) -> Seq<(Seq<char>, Seq<char>)> {
    let mb = mana_base_of(assets);
    seq![
        ("MANA_CSS"@, font_uri(assets, "mana.css"@)),
        ("MATRIX"@, font_uri(assets, "matrix.ttf"@)),
        ("MPLANTIN"@, font_uri(assets, "mplantin.ttf"@)),
        ("ITALIC_FACE"@, italic_face(assets, has_italic)),
        ("W"@, decimal(CARD_W as nat)),
        ("H"@, decimal(CARD_H as nat)),
        ("FW"@, decimal(FACE_W as nat)),
        ("FH"@, decimal(FACE_H as nat)),
        ("BX"@, decimal(((CARD_W - FACE_W) / 2) as nat)),
        ("BY"@, decimal(((CARD_H - FACE_H) / 2) as nat)),
        ("ART1"@, file_uri(art1)),
        ("ART2"@, file_uri(art2)),
        ("FRAME1"@, frame_uri(assets, h1.1)),
        ("FRAME2"@, frame_uri(assets, h2.1)),
        ("N1"@, esc_spec(h1.0)),
        ("M1"@, mana_from(h1.1, mb)),
        ("T1"@, esc_spec(h1.2)),
        ("R1"@, rules_box(h1.3, Seq::empty(), mb)),
        ("N2"@, esc_spec(h2.0)),
        ("M2"@, mana_from(h2.1, mb)),
        ("T2"@, esc_spec(h2.2)),
        ("R2"@, rules_box(h2.3, Seq::empty(), mb)),
    ]
}

fn prefixed(pre: &str, s: &str) -> (res: String)
    ensures
        res@ == pre@ + s@,
{
    let mut v = chars_of(pre);
    push_str(&mut v, s);
    string_of(&v)
}

fn pair(k: &str, v: String) -> (res: (String, String))
    ensures
        res.0@ == k@,
        res.1@ == v@,
{
    (string_of(&chars_of(k)), v)
}

fn number(n: u32) -> (res: String)
    ensures
        res@ == decimal(n as nat),
{
    string_of(&base_digits(n as u64, 10))
}

fn font(assets: &str, file: &str) -> (res: String)
    ensures
        res@ == font_uri(assets@, file@),
{
    let fonts = join_path(assets, "fonts");
    prefixed("file://", join_path(fonts.as_str(), file).as_str())
}

/// The split card's page: the template with every slot of [`split_pairs`]
/// filled. `halves` are (name, mana cost, type line, rules text); `art1` and
/// `art2` are the two half arts' paths; `has_italic` says whether the italic
/// font is among the assets.
pub fn build_split_html(
    halves: &[(String, String, String, String); 2],
    art1_abs: &str,
    art2_abs: &str,
    assets_dir: &str,
    has_italic: bool,
    template: &str,
) -> (res: String)
    ensures
        res@ == filled(
            template@,
            split_pairs(half_view(halves@[0]), half_view(halves@[1]), art1_abs@, art2_abs@, assets_dir@, has_italic),
        ),
{
    let h1 = &halves[0];
    let h2 = &halves[1];
    let mb = prefixed("file://", join_path(assets_dir, "mana").as_str());
    let italic = if has_italic {
        let mut v = chars_of("@font-face { font-family:'mplantin'; font-style:italic; src:url('");
        push_chars(&mut v, &chars_of(font(assets_dir, "mplantin-italic.ttf").as_str()));
        push_str(&mut v, "'); }");
        string_of(&v)
    } else {
        String::new()
    };
    let f1 = prefixed("file://", join_path(assets_dir, frame_for_cost_8th(h1.1.as_str())).as_str());
    let f2 = prefixed("file://", join_path(assets_dir, frame_for_cost_8th(h2.1.as_str())).as_str());
    let mut pairs: Vec<(String, String)> = Vec::new();
    pairs.push(pair("MANA_CSS", font(assets_dir, "mana.css")));
    pairs.push(pair("MATRIX", font(assets_dir, "matrix.ttf")));
    pairs.push(pair("MPLANTIN", font(assets_dir, "mplantin.ttf")));
    pairs.push(pair("ITALIC_FACE", italic));
    pairs.push(pair("W", number(CARD_W)));
    pairs.push(pair("H", number(CARD_H)));
    pairs.push(pair("FW", number(FACE_W)));
    pairs.push(pair("FH", number(FACE_H)));
    pairs.push(pair("BX", number((CARD_W - FACE_W) / 2)));
    pairs.push(pair("BY", number((CARD_H - FACE_H) / 2)));
    pairs.push(pair("ART1", prefixed("file://", art1_abs)));
    pairs.push(pair("ART2", prefixed("file://", art2_abs)));
    pairs.push(pair("FRAME1", f1));
    pairs.push(pair("FRAME2", f2));
    pairs.push(pair("N1", esc(h1.0.as_str())));
    pairs.push(pair("M1", manaify(h1.1.as_str(), mb.as_str())));
    pairs.push(pair("T1", esc(h1.2.as_str())));
    pairs.push(pair("R1", rules_html(h1.3.as_str(), "", mb.as_str())));
    pairs.push(pair("N2", esc(h2.0.as_str())));
    pairs.push(pair("M2", manaify(h2.1.as_str(), mb.as_str())));
    pairs.push(pair("T2", esc(h2.2.as_str())));
    pairs.push(pair("R2", rules_html(h2.3.as_str(), "", mb.as_str())));
    proof {
        reveal_strlit("");
    }
    assert(pairs@.map_values(|p: (String, String)| (p.0@, p.1@)) =~= split_pairs(
        half_view(halves@[0]),
        half_view(halves@[1]),
        art1_abs@,
        art2_abs@,
        assets_dir@,
        has_italic,
    ));
    fill_template(template, &pairs)
}

} // verus!
