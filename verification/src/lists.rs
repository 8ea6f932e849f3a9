//! The cube list and seeding rules: the card-name list file, which cards are
//! pre-approved or pre-flagged for new art, and the CubeCobra export lines.

use vstd::prelude::*;
use crate::text::{
    chars_of, has_infix, join, join_chars, lowercase, lower_vec, contains_str, push_chars,
    push_str, same_chars, split_chars, split_on, string_of, trim, trim_vec, views,
};

verus! {

/// Odyssey-block set codes: Odyssey, Torment, Judgment.
pub open spec fn odyssey_block() -> Seq<Seq<char>> {
    seq!["ODY"@, "TOR"@, "JUD"@]
}

/// Old-frame set codes: every set released before 8th Edition (the modern card
/// frame, mid-2003): core editions through 7th, pre-2003 reprints and boxed
/// sets, expansions through Scourge, Portal / Starter / Unglued, and the
/// pre-2003 championship, arena and gateway promos.
pub open spec fn old_frame_sets() -> Seq<Seq<char>> {
    seq![
        "LEA"@, "LEB"@, "2ED"@, "3ED"@, "4ED"@, "5ED"@, "6ED"@, "7ED"@,
        "CED"@, "CEI"@, "SUM"@, "FBB"@, "4BB"@, "BCHR"@, "CHR"@, "REN"@,
        "RIN"@, "ITP"@, "MGB"@, "ATH"@, "BRB"@, "DKM"@, "BTD"@, "ARN"@,
        "ATQ"@, "LEG"@, "DRK"@, "FEM"@, "ICE"@, "HML"@, "ALL"@, "MIR"@,
        "VIS"@, "WTH"@, "TMP"@, "STH"@, "EXO"@, "USG"@, "ULG"@, "UDS"@,
        "MMQ"@, "NEM"@, "PCY"@, "INV"@, "PLS"@, "APC"@, "ODY"@, "TOR"@,
        "JUD"@, "ONS"@, "LGN"@, "SCG"@, "POR"@, "P02"@, "PTK"@, "S99"@,
        "UGL"@, "WC97"@, "WC98"@, "WC99"@, "WC00"@, "WC01"@, "WC02"@, "PAL99"@,
        "PAL00"@, "PAL01"@, "PAL02"@, "PARL"@, "PSUS"@, "PRED"@, "G00"@, "G01"@,
        "G02"@, "G03"@,
    ]
}

fn odyssey_block_codes() -> (v: Vec<&'static str>)
    ensures
        v@.map_values(|s: &str| s@) == odyssey_block(),
{
    let v: Vec<&'static str> = vec!["ODY", "TOR", "JUD"];
    assert(v@.map_values(|s: &str| s@) =~= odyssey_block());
    v
}

fn old_frame_codes() -> (v: Vec<&'static str>)
    ensures
        v@.map_values(|s: &str| s@) == old_frame_sets(),
{
    let v: Vec<&'static str> = vec![
        "LEA", "LEB", "2ED", "3ED", "4ED", "5ED", "6ED", "7ED", "CED", "CEI",
        "SUM", "FBB", "4BB", "BCHR", "CHR", "REN", "RIN", "ITP", "MGB", "ATH",
        "BRB", "DKM", "BTD", "ARN", "ATQ", "LEG", "DRK", "FEM", "ICE", "HML",
        "ALL", "MIR", "VIS", "WTH", "TMP", "STH", "EXO", "USG", "ULG", "UDS",
        "MMQ", "NEM", "PCY", "INV", "PLS", "APC", "ODY", "TOR", "JUD", "ONS",
        "LGN", "SCG", "POR", "P02", "PTK", "S99", "UGL", "WC97", "WC98", "WC99",
        "WC00", "WC01", "WC02", "PAL99", "PAL00", "PAL01", "PAL02", "PARL", "PSUS", "PRED",
        "G00", "G01", "G02", "G03",
    ];
    assert(v@.map_values(|s: &str| s@) =~= old_frame_sets());
    v
}

/// Whether `code` is one of `codes`.
fn code_in(code: &Vec<char>, codes: &Vec<&'static str>) -> (b: bool)
    ensures
        b == codes@.map_values(|s: &str| s@).contains(code@),
{
    let ghost cs = codes@.map_values(|s: &str| s@);
    let mut i: usize = 0;
    while i < codes.len()
        invariant
            i <= codes.len(),
            cs == codes@.map_values(|s: &str| s@),
            forall|k: int| 0 <= k < i ==> cs[k] != code@,
        decreases codes.len() - i,
    {
        if same_chars(&chars_of(codes[i]), code) {
            assert(cs[i as int] == code@);
            return true;
        }
        i += 1;
    }
    false
}

/// std `str::split(", ")`: the pieces of `s` between occurrences of `, `
/// (leftmost first, never overlapping).
pub open spec fn split_list(s: Seq<char>) -> Seq<Seq<char>>
    decreases s.len(),
{
    if s.len() == 0 {
        seq![Seq::empty()]
    } else if s.len() >= 2 && s[0] == ',' && s[1] == ' ' {
        seq![Seq::<char>::empty()] + split_list(s.subrange(2, s.len() as int))
    } else {
        let rest = split_list(s.drop_first());
        rest.update(0, seq![s[0]] + rest[0])
    }
}

proof fn lemma_split_list_nonempty(s: Seq<char>)
    ensures
        split_list(s).len() >= 1,
    decreases s.len(),
{
    if s.len() >= 2 && s[0] == ',' && s[1] == ' ' {
        lemma_split_list_nonempty(s.subrange(2, s.len() as int));
    } else if s.len() > 0 {
        lemma_split_list_nonempty(s.drop_first());
    }
}

/// Splits a `, `-joined list.
pub fn split_list_of(s: &Vec<char>) -> (res: Vec<Vec<char>>)
    ensures
        res@.map_values(|p: Vec<char>| p@) == split_list(s@),
    decreases s.len(),
{
    let mut done: Vec<Vec<char>> = Vec::new();
    let mut cur: Vec<char> = Vec::new();
    let mut i: usize = 0;
    proof {
        lemma_split_list_nonempty(s@);
        assert(s@.subrange(0, s.len() as int) == s@);
        let r = split_list(s@);
        assert(r.update(0, Seq::<char>::empty() + r[0]) == r);
    }
    while i < s.len()
        invariant
            i <= s.len(),
            split_list(s@) == done@.map_values(|p: Vec<char>| p@) + split_list(
                s@.subrange(i as int, s.len() as int),
            ).update(0, cur@ + split_list(s@.subrange(i as int, s.len() as int))[0]),
        decreases s.len() - i,
    {
        let ghost rest = s@.subrange(i as int, s.len() as int);
        let ghost old_done = done@.map_values(|p: Vec<char>| p@);
        let ghost old_cur = cur@;
        if i + 1 < s.len() && s[i] == ',' && s[i + 1] == ' ' {
            let ghost rest2 = s@.subrange(i + 2, s.len() as int);
            assert(rest.subrange(2, rest.len() as int) == rest2);
            proof {
                lemma_split_list_nonempty(rest2);
            }
            let ghost r2 = split_list(rest2);
            let finished = cur;
            done.push(finished);
            cur = Vec::new();
            assert(done@.map_values(|p: Vec<char>| p@) == old_done.push(old_cur));
            assert(split_list(rest) == seq![Seq::<char>::empty()] + r2);
            assert((seq![Seq::<char>::empty()] + r2).update(0, old_cur + Seq::<char>::empty())
                =~= seq![old_cur] + r2);
            assert(r2.update(0, Seq::<char>::empty() + r2[0]) =~= r2);
            assert(old_done + (seq![old_cur] + r2) =~= old_done.push(old_cur) + r2);
            i += 2;
        } else {
            let ghost rest2 = s@.subrange(i + 1, s.len() as int);
            assert(rest.drop_first() == rest2);
            proof {
                lemma_split_list_nonempty(rest2);
            }
            let ghost r2 = split_list(rest2);
            cur.push(s[i]);
            assert(split_list(rest) == r2.update(0, seq![s@[i as int]] + r2[0]));
            assert(old_cur + (seq![s@[i as int]] + r2[0]) =~= old_cur.push(s@[i as int]) + r2[0]);
            assert(r2.update(0, seq![s@[i as int]] + r2[0]).update(0, old_cur + (seq![s@[i as int]] + r2[0]))
                =~= r2.update(0, cur@ + r2[0]));
            i += 1;
        }
    }
    let ghost old_done = done@.map_values(|p: Vec<char>| p@);
    let ghost last = cur@;
    done.push(cur);
    proof {
        let e = s@.subrange(s.len() as int, s.len() as int);
        assert(e.len() == 0);
        assert(split_list(e) == seq![Seq::<char>::empty()]);
        assert(seq![Seq::<char>::empty()].update(0, last + Seq::<char>::empty()) =~= seq![last]);
        assert(done@.map_values(|p: Vec<char>| p@) =~= old_done.push(last));
    }
    done
}

/// Whether some printing in a `, `-joined printings list is one of `codes`.
pub open spec fn any_printing_in(printings: Seq<char>, codes: Seq<Seq<char>>) -> bool {
    exists|i: int| 0 <= i < split_list(printings).len() && codes.contains(#[trigger] split_list(printings)[i])
}

fn any_in(printings: &Vec<char>, codes: &Vec<&'static str>) -> (b: bool)
    ensures
        b == any_printing_in(printings@, codes@.map_values(|s: &str| s@)),
{
    let ps = split_list_of(printings);
    let ghost sp = split_list(printings@);
    let mut i: usize = 0;
    while i < ps.len()
        invariant
            i <= ps.len(),
            ps@.map_values(|p: Vec<char>| p@) == sp,
            sp == split_list(printings@),
            forall|k: int| 0 <= k < i ==> !codes@.map_values(|s: &str| s@).contains(#[trigger] sp[k]),
        decreases ps.len() - i,
    {
        let found = code_in(&ps[i], codes);
        assert(ps@.map_values(|p: Vec<char>| p@).len() == ps@.len());
        assert(ps@.map_values(|p: Vec<char>| p@)[i as int] == ps@[i as int]@);
        if found {
            assert(sp[i as int] == ps@[i as int]@);
            assert(0 <= i < sp.len());
            assert(codes@.map_values(|s: &str| s@).contains(split_list(printings@)[i as int]));
            return true;
        }
        i += 1;
    }
    false
}

/// A card counts as old-frame when any printing predates 8th Edition (mid-2003).
pub fn is_oldframe(printings: &str) -> (b: bool)
    ensures
        b == any_printing_in(printings@, old_frame_sets()),
{
    any_in(&chars_of(printings), &old_frame_codes())
}

/// "Body-like" card: its rules text (in any case) mentions a creature token.
pub fn is_token_gen(oracle_text: &str) -> (b: bool)
    ensures
        b == has_infix(lowercase(oracle_text@), "creature token"@),
{
    contains_str(&lower_vec(&chars_of(oracle_text)), "creature token")
}

/// The seeding pre-sets of one card.
pub struct Presets {
    /// The type line says `Creature`.
    pub is_creature: bool,
    /// A creature with a printing in the Odyssey block: pre-approved.
    pub odyssey_creature: bool,
    /// Pre-flagged for new art: no old-frame printing (and art is wanted).
    pub genai_art: bool,
    /// The starting decision: `accepted` for Odyssey-block creatures, else `pending`.
    pub decision: &'static str,
}

/// The pre-sets for a card of this type line and printings list: Odyssey-block
/// creatures are pre-approved; every modern-frame card (no old-frame printing)
/// gets the new-art flag unless `no_genai`.
pub open spec fn presets_ok(p: Presets, type_line: Seq<char>, printings: Seq<char>, no_genai: bool) -> bool {
    let creature = has_infix(type_line, "Creature"@);
    let ody = creature && any_printing_in(printings, odyssey_block());
    &&& p.is_creature == creature
    &&& p.odyssey_creature == ody
    &&& p.genai_art == (!any_printing_in(printings, old_frame_sets()) && !no_genai)
    &&& p.decision@ == (if ody { "accepted"@ } else { "pending"@ })
}

/// The seeding pre-sets (see [`presets_ok`]).
pub fn presets(type_line: &str, printings: &str, no_genai: bool) -> (p: Presets)
    ensures
        presets_ok(p, type_line@, printings@, no_genai),
{
    let is_creature = contains_str(&chars_of(type_line), "Creature");
    let pr = chars_of(printings);
    let odyssey_creature = is_creature && any_in(&pr, &odyssey_block_codes());
    let modern_frame = !any_in(&pr, &old_frame_codes());
    Presets {
        is_creature,
        odyssey_creature,
        genai_art: modern_frame && !no_genai,
        decision: if odyssey_creature { "accepted" } else { "pending" },
    }
}

} // verus!
