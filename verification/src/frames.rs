//! Which frame art a card is printed on: the Seventh-Edition and
//! Eighth-Edition frame files, P/T boxes, credit ink and set-symbol fill.

use vstd::prelude::*;
use crate::colors::{ci_letters, ci_letters_spec, is_wubrg, symbol_letters, symbol_letters_of, wubrg};
use crate::text::{chars_of, contains_str, ends_with, has_infix, lower_vec, lowercase, same_chars};

verus! {

/// The printed card as the renderer sees it: editor-DB fields with the
/// per-field overrides already applied.
pub struct Card {
    /// Original card name: the key for art, cache and lookups.
    pub name: String,
    /// Printed title (the `name` override, else the original name).
    pub display_name: String,
    pub mana_cost: String,
    pub type_line: String,
    pub oracle_text: String,
    pub flavor: String,
    /// Whether a `flavor` override was set (even to empty).
    pub flavor_overridden: bool,
    pub power: String,
    pub toughness: String,
    pub loyalty: String,
    pub colors: String,
    /// WUBRG colour identity (a manual override or the solved value).
    pub color_identity: String,
    /// Whether `color_identity` came from a manual override.
    pub ci_manual: bool,
    pub is_creature: bool,
    pub set: String,
    pub rarity: String,
    /// Printed "Illus." credit chosen in the editor (empty: the art's own).
    pub illustrator: String,
    /// Whether the errata ribbon is shown.
    pub is_errata: bool,
}

/// `s` with repeated elements dropped, keeping first occurrences in order.
pub open spec fn dedup(s: Seq<char>) -> Seq<char>
    decreases s.len(),
{
    if s.len() == 0 {
        Seq::empty()
    } else {
        let d = dedup(s.drop_last());
        if d.contains(s.last()) {
            d
        } else {
            d.push(s.last())
        }
    }
}

/// Drops repeated characters, keeping first occurrences in order.
pub fn dedup_chars(s: &Vec<char>) -> (res: Vec<char>)
    ensures
        res@ == dedup(s@),
{
    let mut out: Vec<char> = Vec::new();
    let mut i: usize = 0;
    while i < s.len()
        invariant
            i <= s.len(),
            out@ == dedup(s@.take(i as int)),
        decreases s.len() - i,
    {
        assert(s@.take(i + 1).drop_last() == s@.take(i as int));
        if !crate::text::has_char(&out, s[i]) {
            out.push(s[i]);
        }
        i += 1;
    }
    assert(s@.take(s.len() as int) == s@);
    out
}

/// The WUBRG characters of `s`, in order, duplicates kept.
pub open spec fn wubrg_chars(s: Seq<char>) -> Seq<char> {
    s.filter(|c: char| is_wubrg(c))
}

pub fn wubrg_chars_of(s: &Vec<char>) -> (res: Vec<char>)
    ensures
        res@ == wubrg_chars(s@),
{
    let mut out: Vec<char> = Vec::new();
    let mut i: usize = 0;
    while i < s.len()
        invariant
            i <= s.len(),
            out@ == s@.take(i as int).filter(|c: char| is_wubrg(c)),
        decreases s.len() - i,
    {
        assert(s@.take(i + 1).drop_last() == s@.take(i as int));
        reveal(Seq::filter);
        if wubrg(s[i]) {
            out.push(s[i]);
        }
        i += 1;
    }
    assert(s@.take(s.len() as int) == s@);
    out
}

/// The card's colours for frame selection: the colours of its mana cost's
/// symbols in order of first appearance; when the cost has none, the WUBRG
/// letters of its `colors` field.
pub open spec fn card_colors_spec(c: Card) -> Seq<char> {
    let from_cost = dedup(symbol_letters(c.mana_cost@));
    if from_cost.len() > 0 {
        from_cost
    } else {
        wubrg_chars(c.colors@)
    }
}

/// The card's WUBRG colours for frame selection. Derived from the mana cost's
/// coloured pips (authoritative — the DB `colors` field is sometimes wrong).
/// Falls back to `colors` only when the cost has no coloured mana.
pub fn card_colors(c: &Card) -> (res: Vec<char>)
    ensures
        res@ == card_colors_spec(*c),
{
    let set = dedup_chars(&symbol_letters_of(&chars_of(c.mana_cost.as_str())));
    if set.len() > 0 {
        set
    } else {
        wubrg_chars_of(&chars_of(c.colors.as_str()))
    }
}

/// The Seventh-Edition frame of one colour (anything but W, U, B, R is green).
pub open spec fn color_frame_spec(ch: char) -> Seq<char> {
    if ch == 'W' {
        "frames/w.png"@
    } else if ch == 'U' {
        "frames/u.png"@
    } else if ch == 'B' {
        "frames/b.png"@
    } else if ch == 'R' {
        "frames/r.png"@
    } else {
        "frames/g.png"@
    }
}

/// A single WUBRG letter → its 7ED colour frame file.
pub fn color_frame(ch: char) -> (res: &'static str)
    ensures
        res@ == color_frame_spec(ch),
{
    if ch == 'W' {
        "frames/w.png"
    } else if ch == 'U' {
        "frames/u.png"
    } else if ch == 'B' {
        "frames/b.png"
    } else if ch == 'R' {
        "frames/r.png"
    } else {
        "frames/g.png"
    }
}

/// Whether the type line says "land" (in any case).
pub open spec fn is_land(c: Card) -> bool {
    has_infix(lowercase(c.type_line@), "land"@)
}

/// Whether the type line says "artifact" (in any case).
pub open spec fn is_artifact(c: Card) -> bool {
    has_infix(lowercase(c.type_line@), "artifact"@)
}

fn type_has(c: &Card, word: &str) -> (b: bool)
    ensures
        b == has_infix(lowercase(c.type_line@), word@),
{
    contains_str(&lower_vec(&chars_of(c.type_line.as_str())), word)
}

/// The colours a frame shows: a manual identity's letters, else the card's colours.
pub open spec fn frame_colors_spec(c: Card) -> Seq<char> {
    if c.ci_manual {
        ci_letters_spec(c.color_identity@)
    } else {
        card_colors_spec(c)
    }
}

/// The 7ED frame file of a card: lands by their single identity colour (else
/// the plain land frame), artifacts brown, then colourless / one colour / gold
/// by the frame colours.
pub open spec fn frame_file_spec(c: Card) -> Seq<char> {
    if is_land(c) {
        let lc = wubrg_chars(c.color_identity@);
        if lc == seq!['W'] {
            "frames/wl.png"@
        } else if lc == seq!['U'] {
            "frames/ul.png"@
        } else if lc == seq!['B'] {
            "frames/bl.png"@
        } else if lc == seq!['R'] {
            "frames/rl.png"@
        } else if lc == seq!['G'] {
            "frames/gl.png"@
        } else {
            "frames/l.png"@
        }
    } else if is_artifact(c) {
        "frames/a.png"@
    } else {
        let cols = frame_colors_spec(c);
        if cols.len() == 0 {
            "frames/c.png"@
        } else if cols.len() == 1 {
            color_frame_spec(cols[0])
        } else {
            "frames/m.png"@
        }
    }
}

/// The frame colours of a card (see [`frame_colors_spec`]).
pub fn frame_colors(c: &Card) -> (res: Vec<char>)
    ensures
        res@ == frame_colors_spec(*c),
{
    if c.ci_manual {
        ci_letters(c.color_identity.as_str())
    } else {
        card_colors(c)
    }
}

/// The 7ED frame file for a card (see [`frame_file_spec`]).
pub fn frame_file(c: &Card) -> (res: &'static str)
    ensures
        res@ == frame_file_spec(*c),
{
    if type_has(c, "land") {
        let lc = wubrg_chars_of(&chars_of(c.color_identity.as_str()));
        if lc.len() == 1 {
            let x = lc[0];
            assert(lc@ == seq![x]);
            return if x == 'W' {
                "frames/wl.png"
            } else if x == 'U' {
                "frames/ul.png"
            } else if x == 'B' {
                "frames/bl.png"
            } else if x == 'R' {
                "frames/rl.png"
            } else if x == 'G' {
                "frames/gl.png"
            } else {
                "frames/l.png"
            };
        }
        assert(lc@.len() != 1 ==> lc@ != seq!['W'] && lc@ != seq!['U'] && lc@ != seq!['B']
            && lc@ != seq!['R'] && lc@ != seq!['G']);
        return "frames/l.png";
    }
    if type_has(c, "artifact") {
        return "frames/a.png";
    }
    let cols = frame_colors(c);
    if cols.len() == 0 {
        "frames/c.png"
    } else if cols.len() == 1 {
        color_frame(cols[0])
    } else {
        "frames/m.png"
    }
}

/// For a coloured artifact (not a land): the colour frame whose text box is
/// overlaid on the brown base — its one colour, or gold for several; none for
/// colourless artifacts and for everything else.
pub open spec fn frame_overlay_spec(c: Card) -> Option<Seq<char>> {
    if !is_artifact(c) || is_land(c) {
        None
    } else {
        let cols = card_colors_spec(c);
        if cols.len() == 0 {
            None
        } else if cols.len() == 1 {
            Some(color_frame_spec(cols[0]))
        } else {
            Some("frames/m.png"@)
        }
    }
}

/// For a COLOURED ARTIFACT, the colour frame whose TEXT BOX is overlaid onto the
/// brown artifact base (see [`frame_overlay_spec`]).
pub fn frame_overlay(c: &Card) -> (res: Option<&'static str>)
    ensures
        match res {
            Some(s) => frame_overlay_spec(*c) == Some(s@),
            None => frame_overlay_spec(*c) is None,
        },
{
    if !type_has(c, "artifact") || type_has(c, "land") {
        return None;
    }
    let cols = card_colors(c);
    if cols.len() == 0 {
        None
    } else if cols.len() == 1 {
        Some(color_frame(cols[0]))
    } else {
        Some("frames/m.png")
    }
}

/// The Eighth-Edition frame of one colour.
pub open spec fn color_frame_8th_spec(ch: char) -> Seq<char> {
    if ch == 'W' {
        "frames8/w.png"@
    } else if ch == 'U' {
        "frames8/u.png"@
    } else if ch == 'B' {
        "frames8/b.png"@
    } else if ch == 'R' {
        "frames8/r.png"@
    } else {
        "frames8/g.png"@
    }
}

/// A single WUBRG letter → its 8ED colour frame file.
pub fn color_frame_8th(ch: char) -> (res: &'static str)
    ensures
        res@ == color_frame_8th_spec(ch),
{
    if ch == 'W' {
        "frames8/w.png"
    } else if ch == 'U' {
        "frames8/u.png"
    } else if ch == 'B' {
        "frames8/b.png"
    } else if ch == 'R' {
        "frames8/r.png"
    } else {
        "frames8/g.png"
    }
}

/// The 8ED frame file of a card, chosen like the 7ED one.
pub open spec fn frame_file_8th_spec(c: Card) -> Seq<char> {
    if is_land(c) {
        let lc = wubrg_chars(c.color_identity@);
        if lc == seq!['W'] {
            "frames8/wl.png"@
        } else if lc == seq!['U'] {
            "frames8/ul.png"@
        } else if lc == seq!['B'] {
            "frames8/bl.png"@
        } else if lc == seq!['R'] {
            "frames8/rl.png"@
        } else if lc == seq!['G'] {
            "frames8/gl.png"@
        } else {
            "frames8/l.png"@
        }
    } else if is_artifact(c) {
        "frames8/a.png"@
    } else {
        let cols = frame_colors_spec(c);
        if cols.len() == 0 {
            "frames8/c.png"@
        } else if cols.len() == 1 {
            color_frame_8th_spec(cols[0])
        } else {
            "frames8/m.png"@
        }
    }
}

/// The 8ED frame file for a card (see [`frame_file_8th_spec`]).
pub fn frame_file_8th(c: &Card) -> (res: &'static str)
    ensures
        res@ == frame_file_8th_spec(*c),
{
    if type_has(c, "land") {
        let lc = wubrg_chars_of(&chars_of(c.color_identity.as_str()));
        if lc.len() == 1 {
            let x = lc[0];
            assert(lc@ == seq![x]);
            return if x == 'W' {
                "frames8/wl.png"
            } else if x == 'U' {
                "frames8/ul.png"
            } else if x == 'B' {
                "frames8/bl.png"
            } else if x == 'R' {
                "frames8/rl.png"
            } else if x == 'G' {
                "frames8/gl.png"
            } else {
                "frames8/l.png"
            };
        }
        assert(lc@.len() != 1 ==> lc@ != seq!['W'] && lc@ != seq!['U'] && lc@ != seq!['B']
            && lc@ != seq!['R'] && lc@ != seq!['G']);
        return "frames8/l.png";
    }
    if type_has(c, "artifact") {
        return "frames8/a.png";
    }
    let cols = frame_colors(c);
    if cols.len() == 0 {
        "frames8/c.png"
    } else if cols.len() == 1 {
        color_frame_8th(cols[0])
    } else {
        "frames8/m.png"
    }
}

/// The 8ED P/T box: the land box for lands; the metal box for colourless
/// artifacts and colourless cards; else the box of the one colour, or gold.
pub open spec fn pt_box_8th_spec(c: Card) -> Seq<char> {
    let cols = frame_colors_spec(c);
    if is_land(c) {
        "frames8/pt/l.png"@
    } else if cols.len() == 0 {
        "frames8/pt/a.png"@
    } else if cols.len() == 1 {
        let one = cols[0];
        if one == 'W' {
            "frames8/pt/w.png"@
        } else if one == 'U' {
            "frames8/pt/u.png"@
        } else if one == 'B' {
            "frames8/pt/b.png"@
        } else if one == 'R' {
            "frames8/pt/r.png"@
        } else {
            "frames8/pt/g.png"@
        }
    } else {
        "frames8/pt/m.png"@
    }
}

/// The matching 8th P/T box art (see [`pt_box_8th_spec`]).
pub fn pt_box_8th(c: &Card) -> (res: &'static str)
    ensures
        res@ == pt_box_8th_spec(*c),
{
    if type_has(c, "land") {
        return "frames8/pt/l.png";
    }
    let cols = frame_colors(c);
    if cols.len() == 0 {
        "frames8/pt/a.png"
    } else if cols.len() == 1 {
        let one = cols[0];
        if one == 'W' {
            "frames8/pt/w.png"
        } else if one == 'U' {
            "frames8/pt/u.png"
        } else if one == 'B' {
            "frames8/pt/b.png"
        } else if one == 'R' {
            "frames8/pt/r.png"
        } else {
            "frames8/pt/g.png"
        }
    } else {
        "frames8/pt/m.png"
    }
}

/// The last `/`-separated component of a path.
pub open spec fn base_name(p: Seq<char>) -> Seq<char>
    decreases p.len(),
{
    if p.len() == 0 {
        p
    } else if p.last() == '/' {
        Seq::empty()
    } else {
        base_name(p.drop_last()).push(p.last())
    }
}

/// Ink and shadow of the 8ED credit line: light on the frames with a black
/// bottom border (black, colourless, and every land frame), dark otherwise.
pub open spec fn info_ink_8th_spec(frame: Seq<char>) -> (Seq<char>, Seq<char>) {
    let b = base_name(frame);
    let l = "l.png"@;
    if b == "b.png"@ || b == "c.png"@ || (l.len() <= b.len() && b.subrange(b.len() - l.len(), b.len() as int) == l) {
        ("#f4f1e8"@, "1px 1px 0 rgba(0,0,0,0.85)"@)
    } else {
        ("#161310"@, "none"@)
    }
}

/// Ink + shadow for the BOTTOM credit line only (see [`info_ink_8th_spec`]).
pub fn info_ink_8th(frame: &str) -> (res: (&'static str, &'static str))
    ensures
        (res.0@, res.1@) == info_ink_8th_spec(frame@),
{
    let f = chars_of(frame);
    let mut j = f.len();
    assert(f@.subrange(0, f.len() as int) == f@);
    assert(f@ + f@.subrange(f.len() as int, f.len() as int) == f@);
    while j > 0 && f[j - 1] != '/'
        invariant
            j <= f.len(),
            base_name(f@) == base_name(f@.subrange(0, j as int)) + f@.subrange(j as int, f.len() as int),
        decreases j,
    {
        let ghost pre = f@.subrange(0, j as int);
        assert(pre.drop_last() == f@.subrange(0, j - 1));
        assert(base_name(pre) == base_name(pre.drop_last()).push(pre.last()));
        assert(f@.subrange(j - 1, f.len() as int) == seq![pre.last()] + f@.subrange(j as int, f.len() as int));
        j -= 1;
    }
    let b = crate::text::slice_chars(&f, j, f.len());
    proof {
        let pre = f@.subrange(0, j as int);
        assert(base_name(pre).len() == 0);
        assert(f@.subrange(0, f.len() as int) == f@);
        assert(base_name(f@) =~= b@);
    }
    if same_chars(&b, &chars_of("b.png")) || same_chars(&b, &chars_of("c.png")) || ends_with(&b, &chars_of("l.png")) {
        ("#f4f1e8", "1px 1px 0 rgba(0,0,0,0.85)")
    } else {
        ("#161310", "none")
    }
}

/// The 8ED frame of a mana cost: its WUBRG characters (once each, in order of
/// first appearance) give colourless, one colour, or gold.
pub open spec fn frame_for_cost_8th_spec(mana_cost: Seq<char>) -> Seq<char> {
    let cols = dedup(wubrg_chars(mana_cost));
    if cols.len() == 0 {
        "frames8/c.png"@
    } else if cols.len() == 1 {
        color_frame_8th_spec(cols[0])
    } else {
        "frames8/m.png"@
    }
}

/// 8ED colour frame chosen from a mana-cost string's WUBRG pips.
pub fn frame_for_cost_8th(mana_cost: &str) -> (res: &'static str)
    ensures
        res@ == frame_for_cost_8th_spec(mana_cost@),
{
    let cols = dedup_chars(&wubrg_chars_of(&chars_of(mana_cost)));
    if cols.len() == 0 {
        "frames8/c.png"
    } else if cols.len() == 1 {
        color_frame_8th(cols[0])
    } else {
        "frames8/m.png"
    }
}

/// The set-symbol fill of a rarity: silver, gold, mythic orange-red, else black.
pub open spec fn rarity_fill_spec(rarity: Seq<char>) -> Seq<char> {
    if rarity == "uncommon"@ {
        "#b3bbbf"@
    } else if rarity == "rare"@ {
        "#c9a23c"@
    } else if rarity == "mythic"@ {
        "#d4501b"@
    } else {
        "#0c0c0c"@
    }
}

/// Per-rarity fill colour of a set symbol (see [`rarity_fill_spec`]).
pub fn rarity_fill(rarity: &str) -> (res: &'static str)
    ensures
        res@ == rarity_fill_spec(rarity@),
{
    let r = chars_of(rarity);
    if same_chars(&r, &chars_of("uncommon")) {
        "#b3bbbf"
    } else if same_chars(&r, &chars_of("rare")) {
        "#c9a23c"
    } else if same_chars(&r, &chars_of("mythic")) {
        "#d4501b"
    } else {
        "#0c0c0c"
    }
}

} // verus!
