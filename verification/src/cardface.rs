//! The pieces of a rendered card face that follow rules: the P/T box, the
//! illustrator credit, the colour-indicator dot, the template fill, and the
//! art source a crop-editor token names.

use vstd::prelude::*;
use crate::colors::{ci_letters, ci_letters_spec};
use crate::frames::{card_colors, card_colors_spec, color_frame, color_frame_spec, Card};
use crate::html::{esc, esc_spec};
use crate::text::{
    chars_of, has_infix, lowercase, lower_vec, contains_str, push_chars, push_str, replace_all,
    replace_seq, string_of, trim, trim_vec, uppercase, to_upper,
};

verus! {

/// The P/T box: power/toughness when either is printed (creatures and
/// vehicles), else the loyalty when printed, else nothing.
pub open spec fn pt_box(c: Card) -> Seq<char> {
    if c.power@.len() > 0 || c.toughness@.len() > 0 {
        "<div class=\"box pt\"><span>"@ + esc_spec(c.power@) + "/"@ + esc_spec(c.toughness@)
            + "</span></div>"@
    } else if c.loyalty@.len() > 0 {
        "<div class=\"box pt\"><span>"@ + esc_spec(c.loyalty@) + "</span></div>"@
    } else {
        Seq::empty()
    }
}

/// The P/T box of a card (see [`pt_box`]).
pub fn pt_box_html(c: &Card) -> (res: String)
    ensures
        res@ == pt_box(*c),
{
    let mut out: Vec<char> = Vec::new();
    if chars_of(c.power.as_str()).len() > 0 || chars_of(c.toughness.as_str()).len() > 0 {
        push_str(&mut out, "<div class=\"box pt\"><span>");
        push_chars(&mut out, &chars_of(esc(c.power.as_str()).as_str()));
        push_str(&mut out, "/");
        push_chars(&mut out, &chars_of(esc(c.toughness.as_str()).as_str()));
        push_str(&mut out, "</span></div>");
    } else if chars_of(c.loyalty.as_str()).len() > 0 {
        push_str(&mut out, "<div class=\"box pt\"><span>");
        push_chars(&mut out, &chars_of(esc(c.loyalty.as_str()).as_str()));
        push_str(&mut out, "</span></div>");
    }
    assert(out@ =~= pt_box(*c));
    string_of(&out)
}

/// The printed credit: the editor's illustrator when set, else the art's own
/// artist (both trimmed).
pub open spec fn credit_of(illustrator: Seq<char>, art_artist: Seq<char>) -> Seq<char> {
    if trim(illustrator).len() > 0 {
        trim(illustrator)
    } else {
        trim(art_artist)
    }
}

/// The "Illus." line, or nothing when there is no credit.
pub open spec fn illus_line(illustrator: Seq<char>, art_artist: Seq<char>) -> Seq<char> {
    let credit = credit_of(illustrator, art_artist);
    if credit.len() == 0 {
        Seq::empty()
    } else {
        "<div class=\"info illus\"><span>Illus. "@ + esc_spec(credit) + "</span></div>"@
    }
}

/// The illustrator line of a card (see [`illus_line`]).
pub fn illus_html(illustrator: &str, art_artist: &str) -> (res: String)
    ensures
        res@ == illus_line(illustrator@, art_artist@),
{
    let a = trim_vec(&chars_of(illustrator));
    let credit = if a.len() > 0 {
        a
    } else {
        trim_vec(&chars_of(art_artist))
    };
    if credit.len() == 0 {
        return String::new();
    }
    let mut out = chars_of("<div class=\"info illus\"><span>Illus. ");
    push_chars(&mut out, &chars_of(esc(string_of(&credit).as_str()).as_str()));
    push_str(&mut out, "</span></div>");
    string_of(&out)
}

/// The year printed on a card: the art's year, else 2001.
pub fn year_text(year: &str) -> (res: String)
    ensures
        res@ == (if year@.len() == 0 { "2001"@ } else { year@ }),
{
    if chars_of(year).len() == 0 {
        string_of(&chars_of("2001"))
    } else {
        string_of(&chars_of(year))
    }
}

/// The colours the colour-indicator dot shows, those the frame does not
/// already: a hand-set identity (except a mono-colour land, whose tinted frame
/// shows it); nothing on other lands; a coloured artifact's cost colours, else
/// its identity; nothing otherwise.
pub open spec fn indicator_letters_of(c: Card) -> Seq<char> {
    let t = lowercase(c.type_line@);
    let land = has_infix(t, "land"@);
    let artifact = has_infix(t, "artifact"@);
    let ci = ci_letters_spec(c.color_identity@);
    let cost = card_colors_spec(c);
    if c.ci_manual && ci.len() > 0 {
        if land && ci.len() == 1 {
            Seq::empty()
        } else {
            ci
        }
    } else if land {
        Seq::empty()
    } else if artifact && cost.len() > 0 {
        cost
    } else if artifact && ci.len() > 0 {
        ci
    } else {
        Seq::empty()
    }
}

/// The colours of a card's colour-indicator dot (see [`indicator_letters_of`]).
pub fn indicator_letters(c: &Card) -> (res: Vec<char>)
    ensures
        res@ == indicator_letters_of(*c),
{
    let t = lower_vec(&chars_of(c.type_line.as_str()));
    let land = contains_str(&t, "land");
    let artifact = contains_str(&t, "artifact");
    let ci = ci_letters(c.color_identity.as_str());
    let cost = card_colors(c);
    if c.ci_manual && ci.len() > 0 {
        if land && ci.len() == 1 {
            Vec::new()
        } else {
            ci
        }
    } else if land {
        Vec::new()
    } else if artifact && cost.len() > 0 {
        cost
    } else if artifact && ci.len() > 0 {
        ci
    } else {
        Vec::new()
    }
}

/// The frame swatches the dot is painted from: none for no colours, the gold
/// frame for three or more, else each colour's frame.
pub open spec fn indicator_frames_of(letters: Seq<char>) -> Seq<Seq<char>> {
    if letters.len() == 0 {
        Seq::empty()
    } else if letters.len() >= 3 {
        seq!["frames/m.png"@]
    } else {
        letters.map_values(|ch: char| color_frame_spec(ch))
    }
}

/// The frame files (under the assets directory) of the dot's colours.
pub fn indicator_frames(letters: &Vec<char>) -> (res: Vec<&'static str>)
    ensures
        res@.map_values(|s: &'static str| s@) == indicator_frames_of(letters@),
{
    let mut res: Vec<&'static str> = Vec::new();
    if letters.len() >= 3 {
        res.push("frames/m.png");
    } else {
        let mut i: usize = 0;
        while i < letters.len()
            invariant
                i <= letters.len(),
                res@.len() == i,
                forall|k: int| 0 <= k < i ==> #[trigger] res@[k]@ == color_frame_spec(letters@[k]),
            decreases letters.len() - i,
        {
            res.push(color_frame(letters[i]));
            i += 1;
        }
    }
    assert(res@.map_values(|s: &'static str| s@) =~= indicator_frames_of(letters@));
    res
}

/// The placeholder a template marks a slot with: `%%KEY%%`.
pub open spec fn slot(key: Seq<char>) -> Seq<char> {
    "%%"@ + key + "%%"@
}

/// A template with each `(key, value)` pair's slot replaced in turn.
pub open spec fn filled(template: Seq<char>, pairs: Seq<(Seq<char>, Seq<char>)>) -> Seq<char>
    decreases pairs.len(),
{
    if pairs.len() == 0 {
        template
    } else {
        replace_all(filled(template, pairs.drop_last()), slot(pairs.last().0), pairs.last().1)
    }
}

/// Fills a card template: every `%%KEY%%` of each pair, in order, becomes its
/// value.
pub fn fill_template(template: &str, pairs: &Vec<(String, String)>) -> (res: String)
    ensures
        res@ == filled(template@, pairs@.map_values(|p: (String, String)| (p.0@, p.1@))),
{
    let ghost pv = pairs@.map_values(|p: (String, String)| (p.0@, p.1@));
    let mut html = chars_of(template);
    let mut i: usize = 0;
    while i < pairs.len()
        invariant
            i <= pairs.len(),
            pv == pairs@.map_values(|p: (String, String)| (p.0@, p.1@)),
            html@ == filled(template@, pv.take(i as int)),
        decreases pairs.len() - i,
    {
        assert(pv.take(i + 1).drop_last() == pv.take(i as int));
        assert(pv.take(i + 1).last() == pv[i as int]);
        let mut key = chars_of("%%");
        push_chars(&mut key, &chars_of(pairs[i].0.as_str()));
        push_str(&mut key, "%%");
        proof {
            reveal_strlit("%%");
        }
        html = replace_seq(&html, &key, &chars_of(pairs[i].1.as_str()));
        i += 1;
    }
    assert(pv.take(pairs.len() as int) == pv);
    string_of(&html)
}

/// The mana font's stylesheet with its font URLs pointed at the local `mana.ttf`.
pub open spec fn css_fixed(css: Seq<char>) -> Seq<char> {
    replace_all(
        replace_all(replace_all(css, "../fonts/mana.woff2"@, "mana.ttf"@), "../fonts/mana.woff"@, "mana.ttf"@),
        "../fonts/mana.ttf"@,
        "mana.ttf"@,
    )
}

/// Points the mana stylesheet's font URLs at the local font (see [`css_fixed`]).
pub fn fix_mana_css(css: &str) -> (res: String)
    ensures
        res@ == css_fixed(css@),
{
    proof {
        reveal_strlit("../fonts/mana.woff2");
        reveal_strlit("../fonts/mana.woff");
        reveal_strlit("../fonts/mana.ttf");
    }
    let to = chars_of("mana.ttf");
    let a = replace_seq(&chars_of(css), &chars_of("../fonts/mana.woff2"), &to);
    let b = replace_seq(&a, &chars_of("../fonts/mana.woff"), &to);
    let c = replace_seq(&b, &chars_of("../fonts/mana.ttf"), &to);
    string_of(&c)
}

} // verus!
