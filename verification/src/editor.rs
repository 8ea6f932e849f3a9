//! The cube editor's rules: which decisions a card can get, what saving an
//! edit keeps and recomputes, what the card list shows of each card once its
//! errata apply, and the checks before a card is added.

use vstd::prelude::*;
use crate::artpick::{key_pointers, key_pointers_of};
use crate::digest::{json_object, json_object_text, members_view, JsonScalar, ScalarView};
use crate::jsonread::{
    body_int, body_integer, bool_of, field_view, fields_view, flag_of, json_read, json_values, members_in,
    object_members, ostr, read_value, str_of, text_of, value_at, JsonField, JsonValue,
};
use crate::colors::{color_identity, color_identity_of, effective_color_identity, effective_identity};
use crate::overrides::{get, get_str, ov, ov_get, ov_str, pick, pick_field, OvValue, Overrides};
use crate::text::{
    chars_of, contains_str, has_infix, lower_vec, lowercase, push_chars, same_chars, string_of,
    trim, trim_vec,
};

verus! {

/// The review decisions an edit may set.
pub open spec fn is_decision(d: Seq<char>) -> bool {
    d == "pending"@ || d == "accepted"@ || d == "errata"@
}

/// Why saving an edit was refused.
pub enum SaveError {
    /// A decision other than pending, accepted or errata (the value given).
    InvalidDecision(String),
    /// An `overrides` value that is not a JSON object.
    OverridesNotObject,
    /// A request body that is not JSON.
    NotJson,
}

impl SaveError {
    /// The message the editor answers with.
    pub fn message(&self) -> (s: String)
        ensures
            s@ == match self {
                SaveError::InvalidDecision(d) => "invalid decision: "@ + d@,
                SaveError::OverridesNotObject => "overrides must be a JSON object"@,
                SaveError::NotJson => "parsing request body"@,
            },
    {
        match self {
            SaveError::InvalidDecision(d) => {
                let mut v = chars_of("invalid decision: ");
                push_chars(&mut v, &chars_of(d.as_str()));
                string_of(&v)
            },
            SaveError::OverridesNotObject => string_of(&chars_of("overrides must be a JSON object")),
            SaveError::NotJson => string_of(&chars_of("parsing request body")),
        }
    }
}

/// Checks a decision an edit sets: pending, accepted or errata.
pub fn check_decision(d: &str) -> (res: Result<(), SaveError>)
    ensures
        res is Ok <==> is_decision(d@),
        res matches Err(e) ==> e matches SaveError::InvalidDecision(s) && s@ == d@,
{
    let v = chars_of(d);
    if same_chars(&v, &chars_of("pending")) || same_chars(&v, &chars_of("accepted")) || same_chars(
        &v,
        &chars_of("errata"),
    ) {
        Ok(())
    } else {
        Err(SaveError::InvalidDecision(string_of(&v)))
    }
}

/// `[key]` when an edit leaves `key` unset and the saved overrides set it.
pub open spec fn carry(
    incoming: Seq<(String, OvValue)>,
    existing: Seq<(String, OvValue)>,
    key: Seq<char>,
) -> Seq<Seq<char>> {
    if ov_get(incoming, key) is None && ov_get(existing, key) is Some {
        seq![key]
    } else {
        Seq::empty()
    }
}

/// The keys the editor does not show that a saved edit keeps from the saved
/// overrides: `flavor` and `errata_scroll`, each when the edit leaves it unset
/// and the saved overrides set it.
pub open spec fn carried(incoming: Seq<(String, OvValue)>, existing: Seq<(String, OvValue)>) -> Seq<
    Seq<char>,
> {
    carry(incoming, existing, "flavor"@) + carry(incoming, existing, "errata_scroll"@)
}

/// The keys to copy from the saved overrides into an edit (see [`carried`]).
pub fn carried_keys(incoming: &Overrides, existing: &Overrides) -> (res: Vec<String>)
    ensures
        res@.map_values(|s: String| s@) == carried(incoming.entries@, existing.entries@),
{
    let mut res: Vec<String> = Vec::new();
    if get(incoming, "flavor").is_none() && get(existing, "flavor").is_some() {
        res.push(string_of(&chars_of("flavor")));
    }
    if get(incoming, "errata_scroll").is_none() && get(existing, "errata_scroll").is_some() {
        res.push(string_of(&chars_of("errata_scroll")));
    }
    assert(res@.map_values(|s: String| s@) =~= carried(incoming.entries@, existing.entries@));
    res
}

/// The colour identity saved with an edit: re-solved from the edit's
/// effective mana cost and rules text, a manual `color_identity` winning.
pub open spec fn saved_identity_of(
    incoming: Seq<(String, OvValue)>,
    base_mana_cost: Option<Seq<char>>,
    base_oracle_text: Option<Seq<char>>,
) -> Seq<char> {
    effective_identity(
        pick(incoming, "mana_cost"@, base_mana_cost),
        pick(incoming, "oracle_text"@, base_oracle_text),
        ov_str(incoming, "color_identity"@),
    )
}

/// The colour identity to store with an edit (see [`saved_identity_of`]).
pub fn saved_identity(
    incoming: &Overrides,
    base_mana_cost: Option<String>,
    base_oracle_text: Option<String>,
) -> (res: String)
    ensures
        res@ == saved_identity_of(incoming.entries@, ov(base_mana_cost), ov(base_oracle_text)),
{
    let mc = pick_field(incoming, "mana_cost", base_mana_cost);
    let ot = pick_field(incoming, "oracle_text", base_oracle_text);
    let ci = get_str(incoming, "color_identity");
    match ci {
        Some(s) => effective_color_identity(mc.as_str(), ot.as_str(), Some(s.as_str())),
        None => effective_color_identity(mc.as_str(), ot.as_str(), None),
    }
}

/// The decision a card gets when it is removed (`removed`) or restored
/// (`pending`: a restored card is reviewed again from scratch).
pub fn removal_decision(removed: bool) -> (res: &'static str)
    ensures
        res@ == (if removed { "removed"@ } else { "pending"@ }),
{
    if removed {
        "removed"
    } else {
        "pending"
    }
}

/// The print quantity an edit sets: the number given (1 when none), never
/// below 0.
pub fn clamp_qty(q: Option<i64>) -> (res: i64)
    ensures
        res == match q {
            Some(n) => if n < 0 { 0 } else { n },
            None => 1,
        },
{
    match q {
        Some(n) => if n < 0 { 0 } else { n },
        None => 1,
    }
}

/// Why a card could not be added to the cube.
pub enum AddError {
    /// The name is blank.
    EmptyName,
    /// A card of that name is already in the cube.
    AlreadyInCube(String),
    /// The card database has no card of that name.
    NotFound(String),
}

impl AddError {
    /// The message the editor answers with.
    pub fn message(&self) -> (s: String)
        ensures
            s@ == match self {
                AddError::EmptyName => "empty card name"@,
                AddError::AlreadyInCube(n) => "'"@ + n@ + "' is already in the cube"@,
                AddError::NotFound(n) => "'"@ + n@ + "' not found in the card DB — check exact spelling"@,
            },
    {
        match self {
            AddError::EmptyName => string_of(&chars_of("empty card name")),
            AddError::AlreadyInCube(n) => {
                let mut v = chars_of("'");
                push_chars(&mut v, &chars_of(n.as_str()));
                push_chars(&mut v, &chars_of("' is already in the cube"));
                string_of(&v)
            },
            AddError::NotFound(n) => {
                let mut v = chars_of("'");
                push_chars(&mut v, &chars_of(n.as_str()));
                push_chars(&mut v, &chars_of("' not found in the card DB — check exact spelling"));
                string_of(&v)
            },
        }
    }
}

/// The name a card is added under: trimmed; refused when blank.
pub fn add_name(name: &str) -> (res: Result<String, AddError>)
    ensures
        match res {
            Ok(n) => n@ == trim(name@) && trim(name@).len() > 0,
            Err(e) => e is EmptyName && trim(name@).len() == 0,
        },
{
    let t = trim_vec(&chars_of(name));
    if t.len() == 0 {
        Err(AddError::EmptyName)
    } else {
        Ok(string_of(&t))
    }
}

/// The tags a card is added with: trimmed, none when blank.
pub fn add_tags(tags: &str) -> (res: Option<String>)
    ensures
        match res {
            Some(t) => t@ == trim(tags@) && trim(tags@).len() > 0,
            None => trim(tags@).len() == 0,
        },
{
    let t = trim_vec(&chars_of(tags));
    if t.len() == 0 {
        None
    } else {
        Some(string_of(&t))
    }
}

/// A cube card's stored fields, as the card list reads them.
pub struct BaseRow {
    pub name: Option<String>,
    pub type_line: Option<String>,
    pub mana_cost: Option<String>,
    pub power: Option<String>,
    pub toughness: Option<String>,
    pub loyalty: Option<String>,
    pub oracle_text: Option<String>,
    pub keywords: Option<String>,
    pub produced_mana: Option<String>,
    pub tags: String,
}

/// A cube card as the card list and its search show it: every erratable
/// field its override or the stored value, the colours re-solved.
pub struct ListRow {
    pub name: Option<String>,
    pub type_line: Option<String>,
    pub mana_cost: Option<String>,
    pub power: Option<String>,
    pub toughness: Option<String>,
    pub loyalty: Option<String>,
    pub oracle_text: Option<String>,
    pub keywords: Option<String>,
    pub produced_mana: Option<String>,
    pub colors: String,
    pub color_identity: String,
    /// The mana cost was overridden, so the mana value is recomputed from it.
    pub recompute_mana_value: bool,
    /// The tags, in any case, mention `banger`.
    pub banger: bool,
}

/// The effective value of an erratable field: a string override wins, else
/// the stored value.
pub open spec fn eff(o: Seq<(String, OvValue)>, key: Seq<char>, base: Option<Seq<char>>) -> Option<Seq<char>> {
    match ov_str(o, key) {
        Some(s) => Some(s),
        None => base,
    }
}

/// `Some(s)`'s text, or empty.
pub open spec fn or_empty(s: Option<Seq<char>>) -> Seq<char> {
    match s {
        Some(t) => t,
        None => Seq::empty(),
    }
}

/// What the card list shows of a card: each field per [`eff`]; the colour
/// identity re-solved from the effective cost and text (a manual override
/// winning); the colours an explicit `colors` override read as letters, else
/// the identity when it was set by hand, else the colours of the cost's pips.
pub open spec fn list_row_ok(r: ListRow, o: Seq<(String, OvValue)>, b: BaseRow) -> bool {
    let mc = eff(o, "mana_cost"@, ov(b.mana_cost));
    let ot = eff(o, "oracle_text"@, ov(b.oracle_text));
    let ci_ov = ov_str(o, "color_identity"@);
    let ci = effective_identity(or_empty(mc), or_empty(ot), ci_ov);
    &&& ov(r.name) == eff(o, "name"@, ov(b.name))
    &&& ov(r.type_line) == eff(o, "type"@, ov(b.type_line))
    &&& ov(r.mana_cost) == mc
    &&& ov(r.power) == eff(o, "power"@, ov(b.power))
    &&& ov(r.toughness) == eff(o, "toughness"@, ov(b.toughness))
    &&& ov(r.loyalty) == eff(o, "loyalty"@, ov(b.loyalty))
    &&& ov(r.oracle_text) == ot
    &&& ov(r.keywords) == eff(o, "keywords"@, ov(b.keywords))
    &&& ov(r.produced_mana) == eff(o, "produced_mana"@, ov(b.produced_mana))
    &&& r.color_identity@ == ci
    &&& r.colors@ == (match ov_str(o, "colors"@) {
        Some(s) => effective_identity(Seq::empty(), Seq::empty(), Some(s)),
        None => if (match ci_ov {
            Some(s) => trim(s).len() > 0,
            None => false,
        }) {
            ci
        } else {
            color_identity(or_empty(mc), Seq::empty())
        },
    })
    &&& r.recompute_mana_value == (ov_get(o, "mana_cost"@) is Some)
    &&& r.banger == has_infix(lowercase(b.tags@), "banger"@)
}

fn eff_field(o: &Overrides, key: &str, base: &Option<String>) -> (res: Option<String>)
    ensures
        ov(res) == eff(o.entries@, key@, ov(*base)),
{
    match get_str(o, key) {
        Some(s) => Some(s),
        None => match base {
            Some(b) => Some(b.clone()),
            None => None,
        },
    }
}

fn text_or_empty(s: &Option<String>) -> (res: String)
    ensures
        res@ == or_empty(ov(*s)),
{
    match s {
        Some(t) => t.clone(),
        None => String::new(),
    }
}

/// A card as the card list shows it (see [`list_row_ok`]).
pub fn list_row(o: &Overrides, b: &BaseRow) -> (r: ListRow)
    ensures
        list_row_ok(r, o.entries@, *b),
{
    let mc = eff_field(o, "mana_cost", &b.mana_cost);
    let ot = eff_field(o, "oracle_text", &b.oracle_text);
    let mc_s = text_or_empty(&mc);
    let ot_s = text_or_empty(&ot);
    let ci_ov = get_str(o, "color_identity");
    let ci = match &ci_ov {
        Some(s) => effective_color_identity(mc_s.as_str(), ot_s.as_str(), Some(s.as_str())),
        None => effective_color_identity(mc_s.as_str(), ot_s.as_str(), None),
    };
    let manual = match &ci_ov {
        Some(s) => trim_vec(&chars_of(s.as_str())).len() > 0,
        None => false,
    };
    let colors = match get_str(o, "colors") {
        Some(s) => effective_color_identity("", "", Some(s.as_str())),
        None => if manual {
            ci.clone()
        } else {
            color_identity_of(mc_s.as_str(), "")
        },
    };
    proof {
        reveal_strlit("");
    }
    ListRow {
        name: eff_field(o, "name", &b.name),
        type_line: eff_field(o, "type", &b.type_line),
        mana_cost: mc,
        power: eff_field(o, "power", &b.power),
        toughness: eff_field(o, "toughness", &b.toughness),
        loyalty: eff_field(o, "loyalty", &b.loyalty),
        oracle_text: ot,
        keywords: eff_field(o, "keywords", &b.keywords),
        produced_mana: eff_field(o, "produced_mana", &b.produced_mana),
        colors,
        color_identity: ci,
        recompute_mana_value: get(o, "mana_cost").is_some(),
        banger: contains_str(&lower_vec(&chars_of(b.tags.as_str())), "banger"),
    }
}

/// The colour identity `recolor` stores for a card: re-solved from its
/// effective mana cost and rules text, a manual override winning.
pub fn recolor_identity(o: &Overrides, mana_cost: Option<String>, oracle_text: Option<String>) -> (res: String)
    ensures
        res@ == saved_identity_of(o.entries@, ov(mana_cost), ov(oracle_text)),
{
    saved_identity(o, mana_cost, oracle_text)
}

/// How `recolor` prints an identity: the identity, or `—` when empty.
pub fn shown_identity(s: &str) -> (res: String)
    ensures
        res@ == (if s@.len() == 0 { "—"@ } else { s@ }),
{
    let v = chars_of(s);
    if v.len() == 0 {
        string_of(&chars_of("—"))
    } else {
        string_of(&v)
    }
}

// ---------------------------------------------------------------------------
// Saving an edit
// ---------------------------------------------------------------------------

/// The JSON text of the first member named `key`, if there is one.
pub open spec fn member_text(ms: Seq<(Seq<char>, Seq<char>)>, key: Seq<char>) -> Option<Seq<char>>
    decreases ms.len(),
{
    if ms.len() == 0 {
        None
    } else if ms[0].0 == key {
        Some(ms[0].1)
    } else {
        member_text(ms.drop_first(), key)
    }
}

/// The string value of the member `key`, if it is a string.
pub open spec fn member_str(ms: Seq<(Seq<char>, Seq<char>)>, key: Seq<char>) -> Option<Seq<char>> {
    match member_text(ms, key) {
        Some(t) => str_of(value_at(t, Seq::empty())),
        None => None,
    }
}

/// `[(key, value)]` when an edit's members leave `key` unset and the saved
/// members set it (the saved value carried over).
pub open spec fn carry_member(
    incoming: Seq<(Seq<char>, Seq<char>)>,
    existing: Seq<(Seq<char>, Seq<char>)>,
    key: Seq<char>,
) -> Seq<(Seq<char>, ScalarView)> {
    match (member_text(incoming, key), member_text(existing, key)) {
        (None, Some(t)) => seq![(key, ScalarView::Json(t))],
        _ => Seq::empty(),
    }
}

/// The overrides saved with an edit: the edit's own members, plus `flavor`
/// and `errata_scroll` carried from the saved overrides when the edit leaves
/// them unset (the editor does not show those two).
pub open spec fn merged_members(
    incoming: Seq<(Seq<char>, Seq<char>)>,
    existing: Seq<(Seq<char>, Seq<char>)>,
) -> Seq<(Seq<char>, ScalarView)> {
    incoming.map_values(|m: (Seq<char>, Seq<char>)| (m.0, ScalarView::Json(m.1))) + carry_member(
        incoming,
        existing,
        "flavor"@,
    ) + carry_member(incoming, existing, "errata_scroll"@)
}

/// The colour identity saved with an edit whose overrides have these members
/// (see [`saved_identity_of`]).
pub open spec fn members_identity(
    ms: Seq<(Seq<char>, Seq<char>)>,
    base_mana_cost: Option<Seq<char>>,
    base_oracle_text: Option<Seq<char>>,
) -> Seq<char> {
    let pick_m = |k: Seq<char>, b: Option<Seq<char>>|
        match member_str(ms, k) {
            Some(s) => s,
            None => match b {
                Some(x) => x,
                None => Seq::empty(),
            },
        };
    effective_identity(
        pick_m("mana_cost"@, base_mana_cost),
        pick_m("oracle_text"@, base_oracle_text),
        member_str(ms, "color_identity"@),
    )
}

/// The overrides to store: their JSON text and the colour identity re-solved
/// from them.
pub struct SavedOverrides {
    pub text: String,
    pub identity: String,
}

/// What saving an edit writes, member by member of the request body.
pub struct SavePlan {
    pub decision: Option<String>,
    pub genai_art: Option<bool>,
    pub errata_text: Option<String>,
    pub notes: Option<String>,
    /// The credit, trimmed.
    pub illustrator: Option<String>,
    /// The overrides, or why they are refused.
    pub overrides: Option<Result<SavedOverrides, SaveError>>,
}

/// The members of a save request's body.
pub open spec fn save_keys() -> Seq<Seq<char>> {
    seq!["decision"@, "genai_art"@, "errata_text"@, "notes"@, "illustrator"@, "overrides"@]
}

/// Saving an edit: a body that is not JSON is refused; a string `decision`
/// that is not a decision is refused; otherwise each member the body sets as
/// the right kind of value is written (the credit trimmed), and `overrides`,
/// when present, must be an object: it is stored merged with the saved
/// overrides (see [`merged_members`]) as serde_json writes it, with the colour
/// identity re-solved.
pub open spec fn save_plan_ok(
    r: Result<SavePlan, SaveError>,
    body: Seq<char>,
    existing: Seq<char>,
    base_mana_cost: Option<Seq<char>>,
    base_oracle_text: Option<Seq<char>>,
) -> bool {
    match json_values(body, key_pointers(save_keys())) {
        None => r matches Err(SaveError::NotJson),
        Some(vs) => if str_of(vs[0]) is Some && !is_decision(str_of(vs[0]).unwrap()) {
            r matches Err(SaveError::InvalidDecision(d)) && d@ == str_of(vs[0]).unwrap()
        } else {
            r matches Ok(p) && {
                &&& ostr(p.decision) == str_of(vs[0])
                &&& p.genai_art == bool_of(vs[1])
                &&& ostr(p.errata_text) == str_of(vs[2])
                &&& ostr(p.notes) == str_of(vs[3])
                &&& ostr(p.illustrator) == match str_of(vs[4]) {
                    Some(a) => Some(trim(a)),
                    None => None,
                }
                &&& match vs[5] {
                    JsonValue::Missing => p.overrides is None,
                    JsonValue::Object(ms) => p.overrides matches Some(Ok(o)) && o.text@ == json_object_text(
                        merged_members(ms, members_in(existing)),
                    ) && o.identity@ == members_identity(ms, base_mana_cost, base_oracle_text),
                    _ => p.overrides matches Some(Err(SaveError::OverridesNotObject)),
                }
            }
        },
    }
}

/// The JSON text of the first member named `key` (see [`member_text`]).
pub fn find_member(ms: &Vec<(String, String)>, key: &str) -> (res: Option<String>)
    ensures
        ostr(res) == member_text(ms@.map_values(|m: (String, String)| (m.0@, m.1@)), key@),
{
    let ghost mv = ms@.map_values(|m: (String, String)| (m.0@, m.1@));
    let k = chars_of(key);
    let mut i: usize = 0;
    assert(mv.skip(0) =~= mv);
    while i < ms.len()
        invariant
            i <= ms.len(),
            k@ == key@,
            mv == ms@.map_values(|m: (String, String)| (m.0@, m.1@)),
            member_text(mv, key@) == member_text(mv.skip(i as int), key@),
        decreases ms.len() - i,
    {
        assert(mv.skip(i as int).drop_first() =~= mv.skip(i + 1));
        assert(mv.skip(i as int)[0] == (ms@[i as int].0@, ms@[i as int].1@));
        if same_chars(&chars_of(ms[i].0.as_str()), &k) {
            return Some(string_of(&chars_of(ms[i].1.as_str())));
        }
        i += 1;
    }
    None
}

fn member_string(ms: &Vec<(String, String)>, key: &str) -> (res: Option<String>)
    ensures
        ostr(res) == member_str(ms@.map_values(|m: (String, String)| (m.0@, m.1@)), key@),
{
    proof {
        reveal_strlit("");
    }
    match find_member(ms, key) {
        Some(t) => text_of(&read_value(t.as_str(), String::new())),
        None => None,
    }
}

fn picked(ms: &Vec<(String, String)>, key: &str, base: Option<String>) -> (res: String)
    ensures
        res@ == match member_str(ms@.map_values(|m: (String, String)| (m.0@, m.1@)), key@) {
            Some(s) => s,
            None => match base {
                Some(x) => x@,
                None => Seq::empty(),
            },
        },
{
    match member_string(ms, key) {
        Some(s) => s,
        None => match base {
            Some(b) => b,
            None => String::new(),
        },
    }
}

fn carry_of(incoming: &Vec<(String, String)>, existing: &Vec<(String, String)>, key: &str, out: &mut Vec<(String, JsonScalar)>)
    ensures
        members_view(final(out)@) == members_view(old(out)@) + carry_member(
            incoming@.map_values(|m: (String, String)| (m.0@, m.1@)),
            existing@.map_values(|m: (String, String)| (m.0@, m.1@)),
            key@,
        ),
{
    let ghost before = members_view(out@);
    match (find_member(incoming, key), find_member(existing, key)) {
        (None, Some(t)) => {
            out.push((string_of(&chars_of(key)), JsonScalar::Json(t)));
            assert(members_view(out@) =~= before + seq![(key@, ScalarView::Json(t@))]);
        },
        _ => {
            assert(members_view(out@) =~= before + Seq::empty());
        },
    }
}

/// What saving an edit writes (see [`save_plan_ok`]): `body` is the request
/// body, `existing` the stored overrides text, and the base mana cost and
/// rules text those of the card.
pub fn save_plan(
    body: &str,
    existing: &str,
    base_mana_cost: Option<String>,
    base_oracle_text: Option<String>,
) -> (res: Result<SavePlan, SaveError>)
    ensures
        save_plan_ok(res, body@, existing@, ostr(base_mana_cost), ostr(base_oracle_text)),
{
    let keys: Vec<&str> = vec!["decision", "genai_art", "errata_text", "notes", "illustrator", "overrides"];
    proof {
        reveal_strlit("decision");
        reveal_strlit("genai_art");
        reveal_strlit("errata_text");
        reveal_strlit("notes");
        reveal_strlit("illustrator");
        reveal_strlit("overrides");
        reveal_strlit("flavor");
        reveal_strlit("errata_scroll");
        reveal_strlit("mana_cost");
        reveal_strlit("oracle_text");
        reveal_strlit("color_identity");
    }
    assert(keys@.map_values(|k: &str| k@) =~= save_keys());
    let fs = match json_read(body, &key_pointers_of(&keys)) {
        Some(fs) => fs,
        None => return Err(SaveError::NotJson),
    };
    let ghost vs = fields_view(fs@);
    assert(forall|i: int| 0 <= i < 6 ==> vs[i] == field_view(#[trigger] fs@[i]));
    let decision = text_of(&fs[0]);
    if let Some(d) = &decision {
        if check_decision(d.as_str()).is_err() {
            return Err(SaveError::InvalidDecision(string_of(&chars_of(d.as_str()))));
        }
    }
    let illustrator = match text_of(&fs[4]) {
        Some(a) => Some(string_of(&trim_vec(&chars_of(a.as_str())))),
        None => None,
    };
    let overrides = match &fs[5] {
        JsonField::Missing => None,
        JsonField::Object(ms) => {
            let ex = object_members(existing);
            let ghost mv = ms@.map_values(|m: (String, String)| (m.0@, m.1@));
            let ghost ev = ex@.map_values(|m: (String, String)| (m.0@, m.1@));
            let mut out: Vec<(String, JsonScalar)> = Vec::new();
            let mut i: usize = 0;
            while i < ms.len()
                invariant
                    i <= ms.len(),
                    mv == ms@.map_values(|m: (String, String)| (m.0@, m.1@)),
                    members_view(out@) == mv.take(i as int).map_values(
                        |m: (Seq<char>, Seq<char>)| (m.0, ScalarView::Json(m.1)),
                    ),
                decreases ms.len() - i,
            {
                let ghost before = members_view(out@);
                out.push((string_of(&chars_of(ms[i].0.as_str())), JsonScalar::Json(string_of(&chars_of(ms[i].1.as_str())))));
                assert(mv[i as int] == (ms@[i as int].0@, ms@[i as int].1@));
                assert(mv.take(i + 1).map_values(|m: (Seq<char>, Seq<char>)| (m.0, ScalarView::Json(m.1)))
                    =~= mv.take(i as int).map_values(|m: (Seq<char>, Seq<char>)| (m.0, ScalarView::Json(m.1))).push(
                    (mv[i as int].0, ScalarView::Json(mv[i as int].1)),
                ));
                assert(members_view(out@) =~= before.push((mv[i as int].0, ScalarView::Json(mv[i as int].1))));
                i += 1;
            }
            assert(mv.take(ms.len() as int) =~= mv);
            carry_of(ms, &ex, "flavor", &mut out);
            carry_of(ms, &ex, "errata_scroll", &mut out);
            let ghost want = merged_members(mv, ev);
            assert(members_view(out@) =~= want);
            let text = json_object(out);
            let mc = picked(ms, "mana_cost", base_mana_cost);
            let ot = picked(ms, "oracle_text", base_oracle_text);
            let identity = match member_string(ms, "color_identity") {
                Some(c) => effective_color_identity(mc.as_str(), ot.as_str(), Some(c.as_str())),
                None => effective_color_identity(mc.as_str(), ot.as_str(), None),
            };
            Some(Ok(SavedOverrides { text, identity }))
        },
        _ => Some(Err(SaveError::OverridesNotObject)),
    };
    Ok(SavePlan {
        decision,
        genai_art: flag_of(&fs[1]),
        errata_text: text_of(&fs[2]),
        notes: text_of(&fs[3]),
        illustrator,
        overrides,
    })
}

/// The print quantity a request body asks for: its integer `qty` member,
/// clamped (see [`clamp_qty`]).
pub fn qty_of_body(body: &str) -> (q: i64)
    ensures
        q == match body_integer(body@, "qty"@) {
            Some(n) => if n < 0 { 0 } else { n },
            None => 1,
        },
{
    proof {
        reveal_strlit("qty");
    }
    clamp_qty(body_int(body, "qty"))
}

} // verus!
