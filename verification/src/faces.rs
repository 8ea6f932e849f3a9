//! The card corpus as MTGJSON's `AtomicCards` describes it, and the columns the
//! database stores for each card face.

use vstd::prelude::*;
use crate::colors::{join_opt, sort_colors, sorted_colors};
use crate::text::{chars_of, join, same_chars, trim, trim_vec, views};

verus! {

/// The file's `meta` block.
pub struct Meta {
    pub version: String,
    pub date: String,
}

impl Default for Meta {
    fn default() -> (m: Meta)
        ensures
            m.version@ == Seq::<char>::empty(),
            m.date@ == Seq::<char>::empty(),
    {
        Meta { version: String::new(), date: String::new() }
    }
}

/// Which commander-style formats a card may lead.
pub struct LeadershipSkills {
    pub brawl: Option<bool>,
    pub commander: Option<bool>,
    pub oathbreaker: Option<bool>,
}

impl Default for LeadershipSkills {
    fn default() -> (l: LeadershipSkills)
        ensures
            l.brawl is None && l.commander is None && l.oathbreaker is None,
    {
        LeadershipSkills { brawl: None, commander: None, oathbreaker: None }
    }
}

/// A card's identifiers in other databases.
pub struct Identifiers {
    pub scryfall_oracle_id: Option<String>,
}

impl Default for Identifiers {
    fn default() -> (i: Identifiers)
        ensures
            i.scryfall_oracle_id is None,
    {
        Identifiers { scryfall_oracle_id: None }
    }
}

/// One official ruling.
pub struct Ruling {
    pub date: Option<String>,
    pub text: Option<String>,
}

impl Default for Ruling {
    fn default() -> (r: Ruling)
        ensures
            r.date is None && r.text is None,
    {
        Ruling { date: None, text: None }
    }
}

/// The fields of one card face that its columns are derived from (the
/// numeric ones, kept as they come, are not among them).
pub struct FaceIn {
    pub face_name: Option<String>,
    pub colors: Option<Vec<String>>,
    pub color_identity: Option<Vec<String>>,
    pub type_line: Option<String>,
    pub types: Option<Vec<String>>,
    pub subtypes: Option<Vec<String>>,
    pub supertypes: Option<Vec<String>>,
    pub text: Option<String>,
    pub keywords: Option<Vec<String>>,
    pub produced_mana: Option<Vec<String>>,
    pub printings: Option<Vec<String>>,
    pub is_reserved: Option<bool>,
    pub is_funny: Option<bool>,
    pub is_game_changer: Option<bool>,
    pub leadership_skills: Option<LeadershipSkills>,
    pub identifiers: Option<Identifiers>,
}

/// The derived columns of one card face.
pub struct FaceColumns {
    /// The face's name when it has one, else the card's.
    pub display_name: String,
    /// The colours in WUBRG order, joined by `, `; none when colourless.
    pub colors: Option<String>,
    pub color_count: usize,
    pub color_identity: Option<String>,
    pub color_identity_count: usize,
    pub is_colorless: bool,
    pub is_multicolor: bool,
    pub supertypes: Option<String>,
    pub types: Option<String>,
    pub subtypes: Option<String>,
    pub keywords: Option<String>,
    pub produced_mana: Option<String>,
    pub printings: Option<String>,
    pub num_printings: usize,
    /// The rules text is present and not blank.
    pub has_text: bool,
    pub is_reserved: bool,
    pub is_funny: bool,
    pub is_game_changer: bool,
    pub can_be_commander: bool,
    pub can_be_brawl_commander: bool,
    pub can_be_oathbreaker: bool,
    pub scryfall_oracle_id: Option<String>,
    /// The per-name list of the colour codes in WUBRG order (for the
    /// membership tables).
    pub sorted_colors: Vec<String>,
    pub sorted_color_identity: Vec<String>,
    pub sorted_produced_mana: Vec<String>,
}

/// A list field's items: none when absent.
pub open spec fn items(o: Option<Vec<String>>) -> Seq<Seq<char>> {
    match o {
        Some(v) => views(v@),
        None => Seq::empty(),
    }
}

/// A list shown in one column: none when empty, else joined by `, `.
pub open spec fn joined_opt(s: Seq<Seq<char>>) -> Option<Seq<char>> {
    if s.len() == 0 {
        None
    } else {
        Some(join(s, ", "@))
    }
}

/// An optional string's view.
pub open spec fn opt(o: Option<String>) -> Option<Seq<char>> {
    match o {
        Some(s) => Some(s@),
        None => None,
    }
}

/// An optional flag, false when absent.
pub open spec fn flag(o: Option<bool>) -> bool {
    match o {
        Some(b) => b,
        None => false,
    }
}

/// The columns a face of card `name` is stored with.
pub open spec fn face_columns_ok(c: FaceColumns, name: Seq<char>, f: FaceIn) -> bool {
    let colors = sorted_colors(items(f.colors));
    let ci = sorted_colors(items(f.color_identity));
    let produced = sorted_colors(items(f.produced_mana));
    let lead = f.leadership_skills;
    &&& c.display_name@ == (match f.face_name {
        Some(n) => n@,
        None => name,
    })
    &&& views(c.sorted_colors@) == colors
    &&& views(c.sorted_color_identity@) == ci
    &&& views(c.sorted_produced_mana@) == produced
    &&& opt(c.colors) == joined_opt(colors)
    &&& c.color_count == colors.len()
    &&& opt(c.color_identity) == joined_opt(ci)
    &&& c.color_identity_count == ci.len()
    &&& c.is_colorless == (colors.len() == 0)
    &&& c.is_multicolor == (colors.len() >= 2)
    &&& opt(c.supertypes) == joined_opt(items(f.supertypes))
    &&& opt(c.types) == joined_opt(items(f.types))
    &&& opt(c.subtypes) == joined_opt(items(f.subtypes))
    &&& opt(c.keywords) == joined_opt(items(f.keywords))
    &&& opt(c.produced_mana) == joined_opt(produced)
    &&& opt(c.printings) == joined_opt(items(f.printings))
    &&& c.num_printings == items(f.printings).len()
    &&& c.has_text == (match f.text {
        Some(t) => trim(t@).len() > 0,
        None => false,
    })
    &&& c.is_reserved == flag(f.is_reserved)
    &&& c.is_funny == flag(f.is_funny)
    &&& c.is_game_changer == flag(f.is_game_changer)
    &&& c.can_be_commander == (match lead {
        Some(l) => flag(l.commander),
        None => false,
    })
    &&& c.can_be_brawl_commander == (match lead {
        Some(l) => flag(l.brawl),
        None => false,
    })
    &&& c.can_be_oathbreaker == (match lead {
        Some(l) => flag(l.oathbreaker),
        None => false,
    })
    &&& opt(c.scryfall_oracle_id) == (match f.identifiers {
        Some(i) => opt(i.scryfall_oracle_id),
        None => None,
    })
}

fn list_of(o: &Option<Vec<String>>) -> (res: Vec<String>)
    ensures
        views(res@) == items(*o),
{
    let mut res: Vec<String> = Vec::new();
    match o {
        Some(v) => {
            let mut i: usize = 0;
            while i < v.len()
                invariant
                    i <= v.len(),
                    res@.len() == i,
                    forall|k: int| 0 <= k < i ==> #[trigger] res@[k]@ == v@[k]@,
                decreases v.len() - i,
            {
                res.push(v[i].clone());
                i += 1;
            }
            assert(views(res@) =~= views(v@));
        },
        None => {
            assert(views(res@) =~= Seq::<Seq<char>>::empty());
        },
    }
    res
}

fn joined_list(v: &Vec<String>) -> (res: Option<String>)
    ensures
        opt(res) == joined_opt(views(v@)),
{
    join_opt(v)
}

fn clone_opt(o: &Option<String>) -> (res: Option<String>)
    ensures
        opt(res) == opt(*o),
{
    match o {
        Some(s) => Some(s.clone()),
        None => None,
    }
}

fn flag_of(o: Option<bool>) -> (b: bool)
    ensures
        b == flag(o),
{
    match o {
        Some(b) => b,
        None => false,
    }
}

/// The derived columns of one face of the card `name` (see [`face_columns_ok`]).
pub fn face_columns(name: &str, f: &FaceIn) -> (c: FaceColumns)
    ensures
        face_columns_ok(c, name@, *f),
{
    let colors = sort_colors(&list_of(&f.colors));
    let ci = sort_colors(&list_of(&f.color_identity));
    let produced = sort_colors(&list_of(&f.produced_mana));
    let printings = list_of(&f.printings);
    let display_name = match &f.face_name {
        Some(n) => n.clone(),
        None => crate::text::string_of(&chars_of(name)),
    };
    let has_text = match &f.text {
        Some(t) => trim_vec(&chars_of(t.as_str())).len() > 0,
        None => false,
    };
    let (cmd, brawl, oath) = match &f.leadership_skills {
        Some(l) => (flag_of(l.commander), flag_of(l.brawl), flag_of(l.oathbreaker)),
        None => (false, false, false),
    };
    let oracle = match &f.identifiers {
        Some(i) => clone_opt(&i.scryfall_oracle_id),
        None => None,
    };
    FaceColumns {
        display_name,
        colors: joined_list(&colors),
        color_count: colors.len(),
        color_identity: joined_list(&ci),
        color_identity_count: ci.len(),
        is_colorless: colors.len() == 0,
        is_multicolor: colors.len() >= 2,
        supertypes: joined_list(&list_of(&f.supertypes)),
        types: joined_list(&list_of(&f.types)),
        subtypes: joined_list(&list_of(&f.subtypes)),
        keywords: joined_list(&list_of(&f.keywords)),
        produced_mana: joined_list(&produced),
        printings: joined_list(&printings),
        num_printings: printings.len(),
        has_text,
        is_reserved: flag_of(f.is_reserved),
        is_funny: flag_of(f.is_funny),
        is_game_changer: flag_of(f.is_game_changer),
        can_be_commander: cmd,
        can_be_brawl_commander: brawl,
        can_be_oathbreaker: oath,
        scryfall_oracle_id: oracle,
        sorted_colors: colors,
        sorted_color_identity: ci,
        sorted_produced_mana: produced,
    }
}

/// The positions of `keys` that hold a key not seen before them, in order.
pub open spec fn first_seen(keys: Seq<(Seq<char>, Seq<char>)>) -> Seq<int>
    decreases keys.len(),
{
    if keys.len() == 0 {
        Seq::empty()
    } else {
        let prev = first_seen(keys.drop_last());
        if keys.drop_last().contains(keys.last()) {
            prev
        } else {
            prev.push(keys.len() - 1)
        }
    }
}

/// The view of a list of `(date, text)` keys.
pub open spec fn key_views(v: Seq<(String, String)>) -> Seq<(Seq<char>, Seq<char>)> {
    v.map_values(|k: (String, String)| (k.0@, k.1@))
}

/// Which of a card's rulings (gathered over all its faces, as `(date, text)`
/// with absent parts empty) are stored: each distinct one once, the first time
/// it appears.
pub fn new_rulings(keys: &Vec<(String, String)>) -> (res: Vec<usize>)
    ensures
        res@.map_values(|i: usize| i as int) == first_seen(key_views(keys@)),
{
    let ghost kv = key_views(keys@);
    let mut res: Vec<usize> = Vec::new();
    let mut i: usize = 0;
    while i < keys.len()
        invariant
            i <= keys.len(),
            kv == key_views(keys@),
            res@.map_values(|i: usize| i as int) == first_seen(kv.take(i as int)),
        decreases keys.len() - i,
    {
        assert(kv.take(i + 1).drop_last() == kv.take(i as int));
        assert(kv.take(i + 1).last() == kv[i as int]);
        let a = chars_of(keys[i].0.as_str());
        let b = chars_of(keys[i].1.as_str());
        let mut seen = false;
        let mut j: usize = 0;
        while j < i
            invariant
                j <= i < keys.len(),
                kv == key_views(keys@),
                a@ == kv[i as int].0,
                b@ == kv[i as int].1,
                seen == exists|q: int| 0 <= q < j && #[trigger] kv[q] == kv[i as int],
            decreases i - j,
        {
            if same_chars(&chars_of(keys[j].0.as_str()), &a) && same_chars(
                &chars_of(keys[j].1.as_str()),
                &b,
            ) {
                assert(kv[j as int] == kv[i as int]);
                seen = true;
            }
            j += 1;
        }
        proof {
            let t = kv.take(i as int);
            if seen {
                let q = choose|q: int| 0 <= q < i && #[trigger] kv[q] == kv[i as int];
                assert(t[q] == kv[i as int]);
            } else {
                assert forall|q: int| 0 <= q < t.len() implies t[q] != kv[i as int] by {
                    assert(t[q] == kv[q]);
                }
            }
        }
        let ghost before = res@.map_values(|i: usize| i as int);
        if !seen {
            res.push(i);
            assert(res@.map_values(|i: usize| i as int) =~= before.push(i as int));
        }
        i += 1;
    }
    assert(kv.take(keys.len() as int) == kv);
    res
}

/// A stored face is colourless exactly when it has no colours, multicoloured
/// exactly when it has two or more, and its colour count is the number of its
/// colours: a mono-coloured face (e.g. colours `["R"]`) is neither colourless
/// nor multicoloured.
pub proof fn law_face_colour_flags(name: Seq<char>, f: FaceIn, c: FaceColumns)
    requires
        face_columns_ok(c, name, f),
    ensures
        c.is_colorless == (match f.colors {
            Some(v) => v@.len() == 0,
            None => true,
        }),
        c.is_multicolor == (match f.colors {
            Some(v) => v@.len() >= 2,
            None => false,
        }),
        c.color_count == (match f.colors {
            Some(v) => v@.len(),
            None => 0,
        }),
{
    crate::colors::lemma_sorted_colors_len(items(f.colors));
}

} // verus!
