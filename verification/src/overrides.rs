//! Per-card errata overrides: the JSON object of field values an editor sets
//! on a cube card, and what the card shows once they are applied.

use vstd::prelude::*;
use crate::jsonread::{members_in, object_members, read_value, value_at, JsonField, JsonValue};
use crate::colors::{
    color_identity, color_identity_of, ci_letters, ci_letters_spec, effective_color_identity,
    effective_identity, letter_list, letter_list_of,
};
use crate::frames::Card;
use crate::text::{chars_of, lowercase, lower_vec, same_chars, string_of, trim, trim_vec};

verus! {

/// One override value, as far as the rules read it: a string, a boolean, or
/// anything else JSON can hold.
pub enum OvValue {
    Str(String),
    Bool(bool),
    Other,
}

impl OvValue {
    /// An identical copy.
    pub fn copy(&self) -> (r: OvValue)
        ensures
            r == *self,
    {
        match self {
            OvValue::Str(s) => OvValue::Str(s.clone()),
            OvValue::Bool(b) => OvValue::Bool(*b),
            OvValue::Other => OvValue::Other,
        }
    }
}

/// The overrides object: its keys with their values (an empty list for a
/// value that is not a JSON object).
pub struct Overrides {
    pub entries: Vec<(String, OvValue)>,
}

/// The value of `key` (the first entry with that key).
pub open spec fn ov_get(o: Seq<(String, OvValue)>, key: Seq<char>) -> Option<OvValue>
    decreases o.len(),
{
    if o.len() == 0 {
        None
    } else if o[0].0@ == key {
        Some(o[0].1)
    } else {
        ov_get(o.drop_first(), key)
    }
}

/// The string value of `key`, if it has one.
pub open spec fn ov_str(o: Seq<(String, OvValue)>, key: Seq<char>) -> Option<Seq<char>> {
    match ov_get(o, key) {
        Some(OvValue::Str(s)) => Some(s@),
        _ => None,
    }
}

/// The effective text of a field: its string override, else the base value,
/// else empty.
pub open spec fn pick(o: Seq<(String, OvValue)>, key: Seq<char>, base: Option<Seq<char>>) -> Seq<char> {
    match ov_str(o, key) {
        Some(s) => s,
        None => match base {
            Some(b) => b,
            None => Seq::empty(),
        },
    }
}

/// The value of `key`.
pub fn get<'a>(o: &'a Overrides, key: &str) -> (res: Option<&'a OvValue>)
    ensures
        match res {
            Some(v) => ov_get(o.entries@, key@) == Some(*v),
            None => ov_get(o.entries@, key@) is None,
        },
{
    let k = chars_of(key);
    let mut i: usize = 0;
    assert(o.entries@.subrange(0, o.entries@.len() as int) == o.entries@);
    while i < o.entries.len()
        invariant
            i <= o.entries.len(),
            k@ == key@,
            ov_get(o.entries@, key@) == ov_get(o.entries@.subrange(i as int, o.entries@.len() as int), key@),
        decreases o.entries.len() - i,
    {
        let ghost rest = o.entries@.subrange(i as int, o.entries@.len() as int);
        assert(rest.drop_first() == o.entries@.subrange(i + 1, o.entries@.len() as int));
        if same_chars(&chars_of(o.entries[i].0.as_str()), &k) {
            return Some(&o.entries[i].1);
        }
        i += 1;
    }
    None
}

/// The string value of `key`, if it has one.
pub fn get_str(o: &Overrides, key: &str) -> (res: Option<String>)
    ensures
        match res {
            Some(s) => ov_str(o.entries@, key@) == Some(s@),
            None => ov_str(o.entries@, key@) is None,
        },
{
    match get(o, key) {
        Some(OvValue::Str(s)) => Some(s.clone()),
        _ => None,
    }
}

/// The effective text of a field (see [`pick`]).
pub fn pick_field(o: &Overrides, key: &str, base: Option<String>) -> (res: String)
    ensures
        res@ == pick(
            o.entries@,
            key@,
            match base {
                Some(b) => Some(b@),
                None => None,
            },
        ),
{
    match get_str(o, key) {
        Some(s) => s,
        None => match base {
            Some(b) => b,
            None => String::new(),
        },
    }
}

/// The fields whose override is a functional change (cosmetic ones such as
/// `name` or `flavor` are not).
pub open spec fn is_functional(k: Seq<char>) -> bool {
    k == "mana_cost"@ || k == "type"@ || k == "oracle_text"@ || k == "power"@ || k == "toughness"@
        || k == "loyalty"@ || k == "colors"@
}

fn functional(k: &Vec<char>) -> (b: bool)
    ensures
        b == is_functional(k@),
{
    same_chars(k, &chars_of("mana_cost")) || same_chars(k, &chars_of("type")) || same_chars(
        k,
        &chars_of("oracle_text"),
    ) || same_chars(k, &chars_of("power")) || same_chars(k, &chars_of("toughness"))
        || same_chars(k, &chars_of("loyalty")) || same_chars(k, &chars_of("colors"))
}

/// A manual `errata_scroll` setting: a boolean, or a string that (trimmed,
/// lower-cased) reads on/true/1/yes or off/false/0/no; anything else sets nothing.
pub open spec fn scroll_setting(v: Option<OvValue>) -> Option<bool> {
    match v {
        Some(OvValue::Bool(b)) => Some(b),
        Some(OvValue::Str(s)) => {
            let l = lowercase(trim(s@));
            if l == "on"@ || l == "true"@ || l == "1"@ || l == "yes"@ {
                Some(true)
            } else if l == "off"@ || l == "false"@ || l == "0"@ || l == "no"@ {
                Some(false)
            } else {
                None
            }
        },
        _ => None,
    }
}

/// Whether a card shows the errata ribbon: a manual `errata_scroll` setting
/// decides; otherwise any functional field override or a non-blank errata
/// note turns it on.
pub open spec fn errata_flag(o: Seq<(String, OvValue)>, errata_text: Seq<char>) -> bool {
    match scroll_setting(ov_get(o, "errata_scroll"@)) {
        Some(b) => b,
        None => (exists|i: int| 0 <= i < o.len() && is_functional(#[trigger] o[i].0@)) || trim(
            errata_text,
        ).len() > 0,
    }
}

/// Whether a card shows the errata ribbon (see [`errata_flag`]); the printed
/// card and the CubeCobra export use this one rule.
pub fn errata_ribbon(overrides: &Overrides, errata_text: &str) -> (b: bool)
    ensures
        b == errata_flag(overrides.entries@, errata_text@),
{
    let setting: Option<bool> = match get(overrides, "errata_scroll") {
        Some(OvValue::Bool(b)) => Some(*b),
        Some(OvValue::Str(s)) => {
            let t = trim_vec(&chars_of(s.as_str()));
            let l = lower_vec(&t);
            if same_chars(&l, &chars_of("on")) || same_chars(&l, &chars_of("true")) || same_chars(&l, &chars_of("1"))
                || same_chars(&l, &chars_of("yes")) {
                Some(true)
            } else if same_chars(&l, &chars_of("off")) || same_chars(&l, &chars_of("false")) || same_chars(
                &l,
                &chars_of("0"),
            ) || same_chars(&l, &chars_of("no")) {
                Some(false)
            } else {
                None
            }
        },
        _ => None,
    };
    if let Some(b) = setting {
        return b;
    }
    let mut any = false;
    let mut i: usize = 0;
    while i < overrides.entries.len()
        invariant
            i <= overrides.entries.len(),
            any == (exists|j: int| 0 <= j < i && is_functional(#[trigger] overrides.entries@[j].0@)),
        decreases overrides.entries.len() - i,
    {
        if functional(&chars_of(overrides.entries[i].0.as_str())) {
            any = true;
        }
        i += 1;
    }
    any || trim_vec(&chars_of(errata_text)).len() > 0
}

/// A cube card's row in the editor DB, as the renderer reads it.
pub struct CardRow {
    pub name: String,
    pub mana_cost: Option<String>,
    pub type_line: Option<String>,
    pub oracle_text: Option<String>,
    pub power: Option<String>,
    pub toughness: Option<String>,
    pub loyalty: Option<String>,
    pub colors: Option<String>,
    pub is_creature: i64,
    /// Printed credit (`illustrator` column, empty when unset).
    pub illustrator: String,
    /// Errata note (empty when unset).
    pub errata_text: String,
    /// Solved colour identity (empty when unset).
    pub color_identity: String,
}

pub open spec fn ov(o: Option<String>) -> Option<Seq<char>> {
    match o {
        Some(s) => Some(s@),
        None => None,
    }
}

/// The card a row prints as: each field its override or the row's value; the
/// title the `name` override (addressing keeps the original name); flavor,
/// set and rarity only from overrides; a non-blank `color_identity` override
/// is authoritative (read as WUBRG letters), else the row's identity.
pub open spec fn card_fields_ok(c: Card, r: CardRow, o: Seq<(String, OvValue)>) -> bool {
    let ci_ov = ov_str(o, "color_identity"@);
    &&& c.name == r.name
    &&& c.display_name@ == pick(o, "name"@, Some(r.name@))
    &&& c.mana_cost@ == pick(o, "mana_cost"@, ov(r.mana_cost))
    &&& c.type_line@ == pick(o, "type"@, ov(r.type_line))
    &&& c.oracle_text@ == pick(o, "oracle_text"@, ov(r.oracle_text))
    &&& c.flavor@ == pick(o, "flavor"@, None)
    &&& c.flavor_overridden == (ov_get(o, "flavor"@) is Some)
    &&& c.power@ == pick(o, "power"@, ov(r.power))
    &&& c.toughness@ == pick(o, "toughness"@, ov(r.toughness))
    &&& c.loyalty@ == pick(o, "loyalty"@, ov(r.loyalty))
    &&& c.colors@ == pick(o, "colors"@, ov(r.colors))
    &&& c.color_identity@ == (match ci_ov {
        Some(s) if trim(s).len() > 0 => letter_list(ci_letters_spec(trim(s))),
        _ => r.color_identity@,
    })
    &&& c.ci_manual == (match ci_ov {
        Some(s) => trim(s).len() > 0,
        None => false,
    })
    &&& c.is_creature == (r.is_creature != 0)
    &&& c.set@ == pick(o, "set"@, None)
    &&& c.rarity@ == pick(o, "rarity"@, None)
    &&& c.illustrator == r.illustrator
    &&& c.is_errata == errata_flag(o, r.errata_text@)
}

fn opt_clone(o: &Option<String>) -> (r: Option<String>)
    ensures
        ov(r) == ov(*o),
{
    match o {
        Some(s) => Some(s.clone()),
        None => None,
    }
}

/// Applies the overrides to a row: the card as it prints (see [`card_fields_ok`]).
pub fn load_card(r: &CardRow, o: &Overrides) -> (c: Card)
    ensures
        card_fields_ok(c, *r, o.entries@),
{
    let ci_ov = get_str(o, "color_identity");
    let (color_identity, ci_manual) = match &ci_ov {
        Some(s) => {
            let t = trim_vec(&chars_of(s.as_str()));
            if t.len() > 0 {
                let ts = string_of(&t);
                (letter_list_of(&ci_letters(ts.as_str())), true)
            } else {
                (r.color_identity.clone(), false)
            }
        },
        None => (r.color_identity.clone(), false),
    };
    let is_errata = errata_ribbon(o, r.errata_text.as_str());
    Card {
        name: r.name.clone(),
        display_name: pick_field(o, "name", Some(r.name.clone())),
        mana_cost: pick_field(o, "mana_cost", opt_clone(&r.mana_cost)),
        type_line: pick_field(o, "type", opt_clone(&r.type_line)),
        oracle_text: pick_field(o, "oracle_text", opt_clone(&r.oracle_text)),
        flavor: pick_field(o, "flavor", None),
        flavor_overridden: get(o, "flavor").is_some(),
        power: pick_field(o, "power", opt_clone(&r.power)),
        toughness: pick_field(o, "toughness", opt_clone(&r.toughness)),
        loyalty: pick_field(o, "loyalty", opt_clone(&r.loyalty)),
        colors: pick_field(o, "colors", opt_clone(&r.colors)),
        color_identity,
        ci_manual,
        is_creature: r.is_creature != 0,
        set: pick_field(o, "set", None),
        rarity: pick_field(o, "rarity", None),
        illustrator: r.illustrator.clone(),
        is_errata,
    }
}

/// How a member's JSON text reads as an override value: a string, a boolean,
/// or anything else.
pub open spec fn ov_reads(t: Seq<char>, v: OvValue) -> bool {
    match value_at(t, Seq::empty()) {
        JsonValue::Str(s) => v matches OvValue::Str(x) && x@ == s,
        JsonValue::Bool(b) => v == OvValue::Bool(b),
        _ => v is Other,
    }
}

/// Overrides entries read from an object's members, key by key in order.
pub open spec fn entries_of(es: Seq<(String, OvValue)>, ms: Seq<(Seq<char>, Seq<char>)>) -> bool {
    &&& es.len() == ms.len()
    &&& forall|i: int| 0 <= i < es.len() ==> #[trigger] es[i].0@ == ms[i].0 && ov_reads(ms[i].1, es[i].1)
}

/// The override value a member's JSON text reads as (see [`ov_reads`]).
pub fn ov_of_text(t: &str) -> (v: OvValue)
    ensures
        ov_reads(t@, v),
{
    proof {
        reveal_strlit("");
    }
    match read_value(t, String::new()) {
        JsonField::Str(s) => OvValue::Str(s),
        JsonField::Bool(b) => OvValue::Bool(b),
        _ => OvValue::Other,
    }
}

/// The overrides of an object's members (see [`entries_of`]).
pub fn overrides_of_members(ms: &Vec<(String, String)>) -> (res: Overrides)
    ensures
        entries_of(res.entries@, ms@.map_values(|m: (String, String)| (m.0@, m.1@))),
{
    let ghost mv = ms@.map_values(|m: (String, String)| (m.0@, m.1@));
    let mut entries: Vec<(String, OvValue)> = Vec::new();
    let mut i: usize = 0;
    while i < ms.len()
        invariant
            i <= ms.len(),
            mv == ms@.map_values(|m: (String, String)| (m.0@, m.1@)),
            entries@.len() == i,
            forall|k: int| 0 <= k < i ==> #[trigger] entries@[k].0@ == mv[k].0 && ov_reads(mv[k].1, entries@[k].1),
        decreases ms.len() - i,
    {
        assert(mv[i as int] == (ms@[i as int].0@, ms@[i as int].1@));
        let v = ov_of_text(ms[i].1.as_str());
        entries.push((string_of(&chars_of(ms[i].0.as_str())), v));
        i += 1;
    }
    Overrides { entries }
}

/// The overrides stored as JSON text: the members of the object it holds
/// (none when it is not a JSON object).
pub fn overrides_from_text(text: &str) -> (res: Overrides)
    ensures
        entries_of(res.entries@, members_in(text@)),
{
    overrides_of_members(&object_members(text))
}

} // verus!
