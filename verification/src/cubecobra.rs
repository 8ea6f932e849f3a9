//! The CubeCobra bulk-import CSV: one line per active cube card with its real
//! name, its colours, its tags and the URL of its self-hosted render.

use vstd::prelude::*;
use crate::colors::{category, color_category};
use crate::frames::{wubrg_chars, wubrg_chars_of};
use crate::names::{sanitize, sanitized};
use crate::overrides::{errata_flag, errata_ribbon, ov, pick, pick_field, Overrides};
use crate::text::{
    char_upper, chars_of, join, join_chars, push_chars, push_str, replace_char, replace_chars,
    split_on, split_trim, split_trimmed, string_of, trim_end, trim_end_vec, upper_char, Class,
};

verus! {

/// The CSV header CubeCobra's "Replace from CSV" expects.
pub open spec fn csv_header() -> Seq<char> {
    "Name,CMC,Type,Color,Set,Collector Number,Rarity,Color Category,Status,Finish,Maybeboard,Image URL,Image Back URL,Tags,Notes,MTGO ID\n"@
}

/// The CSV header line.
pub fn cubecobra_header() -> (res: String)
    ensures
        res@ == csv_header(),
{
    string_of(&chars_of(
        "Name,CMC,Type,Color,Set,Collector Number,Rarity,Color Category,Status,Finish,Maybeboard,Image URL,Image Back URL,Tags,Notes,MTGO ID\n",
    ))
}

/// A field that needs quoting: it holds a comma, a quote or a line break.
pub open spec fn needs_quotes(s: Seq<char>) -> bool {
    s.contains(',') || s.contains('"') || s.contains('\n')
}

/// One CSV field: quoted, inner quotes doubled, when it needs it; else as is.
pub open spec fn csv_quoted(s: Seq<char>) -> Seq<char> {
    if needs_quotes(s) {
        seq!['"'] + replace_char(s, '"', seq!['"', '"']) + seq!['"']
    } else {
        s
    }
}

/// Minimal CSV field quoting (see [`csv_quoted`]).
pub fn csv_field(s: &str) -> (res: String)
    ensures
        res@ == csv_quoted(s@),
{
    let v = chars_of(s);
    if crate::text::has_char(&v, ',') || crate::text::has_char(&v, '"') || crate::text::has_char(
        &v,
        '\n',
    ) {
        let mut out: Vec<char> = Vec::new();
        out.push('"');
        let q: Vec<char> = vec!['"', '"'];
        assert(q@ =~= seq!['"', '"']);
        push_chars(&mut out, &replace_chars(&v, '"', &q));
        out.push('"');
        assert(out@ =~= csv_quoted(s@));
        string_of(&out)
    } else {
        string_of(&v)
    }
}

/// The non-empty pieces of `ps`, in order.
pub open spec fn nonempty(ps: Seq<Seq<char>>) -> Seq<Seq<char>>
    decreases ps.len(),
{
    if ps.len() == 0 {
        Seq::empty()
    } else if ps.last().len() > 0 {
        nonempty(ps.drop_last()).push(ps.last())
    } else {
        nonempty(ps.drop_last())
    }
}

/// A tag title-cased: its first character upper-cased.
pub open spec fn titled(t: Seq<char>) -> Seq<char> {
    if t.len() == 0 {
        t
    } else {
        char_upper(t[0]) + t.drop_first()
    }
}

/// The tags a card shows on CubeCobra: `Errata` when it shows the errata
/// ribbon, then its own comma-separated tags, trimmed, blanks dropped,
/// title-cased; joined by commas.
pub open spec fn card_tags(errata: bool, tags: Seq<char>) -> Seq<char> {
    join(
        (if errata { seq!["Errata"@] } else { Seq::empty() }) + nonempty(split_trimmed(tags, ',')).map_values(
            |t: Seq<char>| titled(t),
        ),
        ","@,
    )
}

fn tags_text(errata: bool, tags: &str) -> (res: Vec<char>)
    ensures
        res@ == card_tags(errata, tags@),
{
    let pieces = split_trim(&chars_of(tags), ',');
    let ghost ps = pieces@.map_values(|p: Vec<char>| p@);
    let mut list: Vec<Vec<char>> = Vec::new();
    if errata {
        list.push(chars_of("Errata"));
    }
    let ghost head = list@.map_values(|p: Vec<char>| p@);
    assert(head =~= (if errata { seq!["Errata"@] } else { Seq::<Seq<char>>::empty() }));
    let mut i: usize = 0;
    while i < pieces.len()
        invariant
            i <= pieces.len(),
            ps == pieces@.map_values(|p: Vec<char>| p@),
            list@.map_values(|p: Vec<char>| p@) == head + nonempty(ps.take(i as int)).map_values(
                |t: Seq<char>| titled(t),
            ),
        decreases pieces.len() - i,
    {
        assert(ps.take(i + 1).drop_last() == ps.take(i as int));
        assert(ps.take(i + 1).last() == pieces@[i as int]@);
        let t = &pieces[i];
        let ghost before = list@.map_values(|p: Vec<char>| p@);
        if t.len() > 0 {
            let mut titled_t = chars_of(upper_char(t[0]).as_str());
            push_chars(&mut titled_t, &crate::text::slice_chars(t, 1, t.len()));
            assert(t@.subrange(1, t@.len() as int) == t@.drop_first());
            list.push(titled_t);
            assert(list@.map_values(|p: Vec<char>| p@) =~= before.push(titled(t@)));
            assert(nonempty(ps.take(i + 1)).map_values(|t: Seq<char>| titled(t)) =~= nonempty(
                ps.take(i as int),
            ).map_values(|t: Seq<char>| titled(t)).push(titled(t@)));
        }
        i += 1;
    }
    assert(ps.take(pieces.len() as int) == ps);
    join_chars(&list, &chars_of(","))
}

/// The URL of a card's self-hosted render: the base without trailing `/`s,
/// then `/<sanitized name>.png`.
pub open spec fn image_url(base: Seq<char>, name: Seq<char>) -> Seq<char> {
    trim_end(base, Class::Is('/')) + "/"@ + sanitized(name) + ".png"@
}

/// One cube card's CSV line: its name, CMC text, effective type line, WUBRG
/// identity letters, colour category, fixed status columns, image URL and
/// tags.
pub open spec fn csv_row(
    name: Seq<char>,
    cmc: Seq<char>,
    type_line: Seq<char>,
    ci: Seq<char>,
    errata: bool,
    tags: Seq<char>,
    base: Seq<char>,
) -> Seq<char> {
    let letters = wubrg_chars(ci);
    csv_quoted(name) + ","@ + cmc + ","@ + csv_quoted(type_line) + ","@ + letters + ",,,,"@
        + category(type_line, letters) + ",Owned,Non-foil,false,"@ + csv_quoted(
        image_url(base, name),
    ) + ",,"@ + csv_quoted(card_tags(errata, tags)) + ",,\n"@
}

/// One card as the export reads it from the editor DB.
pub struct ExportRow {
    pub name: String,
    /// The CMC as CubeCobra shows it (a whole number without decimals).
    pub cmc: String,
    pub type_line: Option<String>,
    pub color_identity: Option<String>,
    pub overrides: Overrides,
    pub errata_text: String,
    pub tags: String,
}

/// The CSV line of one card (see [`csv_row`]): the type line is its override
/// or the stored one, and the tags start with `Errata` when the card shows the
/// errata ribbon.
pub fn cubecobra_row(r: &ExportRow, base: &str) -> (res: String)
    ensures
        res@ == csv_row(
            r.name@,
            r.cmc@,
            pick(r.overrides.entries@, "type"@, ov(r.type_line)),
            match r.color_identity {
                Some(c) => c@,
                None => Seq::empty(),
            },
            errata_flag(r.overrides.entries@, r.errata_text@),
            r.tags@,
            base@,
        ),
{
    let type_line = pick_field(&r.overrides, "type", match &r.type_line {
        Some(t) => Some(t.clone()),
        None => None,
    });
    let ci = match &r.color_identity {
        Some(c) => chars_of(c.as_str()),
        None => Vec::new(),
    };
    let letters = wubrg_chars_of(&ci);
    let cat = color_category(type_line.as_str(), &letters);
    let b = trim_end_vec(&chars_of(base), &Class::Is('/'));
    let mut url = b;
    push_str(&mut url, "/");
    push_chars(&mut url, &chars_of(sanitize(r.name.as_str()).as_str()));
    push_str(&mut url, ".png");
    let errata = errata_ribbon(&r.overrides, r.errata_text.as_str());
    let tags = tags_text(errata, r.tags.as_str());
    let mut out: Vec<char> = Vec::new();
    push_chars(&mut out, &chars_of(csv_field(r.name.as_str()).as_str()));
    push_str(&mut out, ",");
    push_chars(&mut out, &chars_of(r.cmc.as_str()));
    push_str(&mut out, ",");
    push_chars(&mut out, &chars_of(csv_field(type_line.as_str()).as_str()));
    push_str(&mut out, ",");
    push_chars(&mut out, &letters);
    push_str(&mut out, ",,,,");
    push_str(&mut out, cat);
    push_str(&mut out, ",Owned,Non-foil,false,");
    push_chars(&mut out, &chars_of(csv_field(string_of(&url).as_str()).as_str()));
    push_str(&mut out, ",,");
    push_chars(&mut out, &chars_of(csv_field(string_of(&tags).as_str()).as_str()));
    push_str(&mut out, ",,\n");
    assert(out@ =~= csv_row(
        r.name@,
        r.cmc@,
        type_line@,
        ci@,
        errata,
        r.tags@,
        base@,
    ));
    string_of(&out)
}

} // verus!
