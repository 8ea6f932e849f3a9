//! Colour rules: the WUBRG order of colour lists, colour identity from mana
//! symbols, and which card frame a card's colours select.

use vstd::prelude::*;
use crate::text::{
    ascii_upper, chars_of, has_infix, join, join_chars, lowercase, lower_vec, contains_str,
    string_of, to_ascii_upper, trim, trim_vec, views,
};

verus! {

/// The five colours in WUBRG order.
pub open spec fn is_wubrg(c: char) -> bool {
    c == 'W' || c == 'U' || c == 'B' || c == 'R' || c == 'G'
}

pub fn wubrg(c: char) -> (b: bool)
    ensures
        b == is_wubrg(c),
{
    c == 'W' || c == 'U' || c == 'B' || c == 'R' || c == 'G'
}

/// Sort key of a colour code: its place in W, U, B, R, G, C; 99 for anything else.
pub open spec fn color_rank(c: Seq<char>) -> nat {
    if c == "W"@ {
        0
    } else if c == "U"@ {
        1
    } else if c == "B"@ {
        2
    } else if c == "R"@ {
        3
    } else if c == "G"@ {
        4
    } else if c == "C"@ {
        5
    } else {
        99
    }
}

/// The sort key of a colour code (see [`color_rank`]).
pub fn color_key(c: &str) -> (k: usize)
    ensures
        k as nat == color_rank(c@),
{
    let v = chars_of(c);
    if crate::text::same_chars(&v, &chars_of("W")) {
        0
    } else if crate::text::same_chars(&v, &chars_of("U")) {
        1
    } else if crate::text::same_chars(&v, &chars_of("B")) {
        2
    } else if crate::text::same_chars(&v, &chars_of("R")) {
        3
    } else if crate::text::same_chars(&v, &chars_of("G")) {
        4
    } else if crate::text::same_chars(&v, &chars_of("C")) {
        5
    } else {
        99
    }
}

/// The codes of rank `k`, in their original order.
pub open spec fn of_rank(arr: Seq<Seq<char>>, k: nat) -> Seq<Seq<char>> {
    arr.filter(|c: Seq<char>| color_rank(c) == k)
}

/// `arr` stably sorted by WUBRGC rank: every code of rank 0, then rank 1, ...,
/// then the unknown codes, each group in its original order.
pub open spec fn sorted_colors(arr: Seq<Seq<char>>) -> Seq<Seq<char>> {
    of_rank(arr, 0) + of_rank(arr, 1) + of_rank(arr, 2) + of_rank(arr, 3) + of_rank(arr, 4)
        + of_rank(arr, 5) + of_rank(arr, 99)
}

/// Appends to `out` the codes of `arr` with rank `k`.
fn push_rank(out: &mut Vec<String>, arr: &Vec<String>, k: usize)
    ensures
        views(final(out)@) == views(old(out)@) + of_rank(views(arr@), k as nat),
{
    let ghost start = views(out@);
    let ghost va = views(arr@);
    let mut i: usize = 0;
    while i < arr.len()
        invariant
            i <= arr.len(),
            va == views(arr@),
            views(out@) == start + of_rank(va.take(i as int), k as nat),
        decreases arr.len() - i,
    {
        let ghost before = views(out@);
        assert(va.take(i + 1).drop_last() == va.take(i as int));
        reveal(Seq::filter);
        if color_key(arr[i].as_str()) == k {
            out.push(arr[i].clone());
            assert(views(out@) =~= before.push(arr@[i as int]@));
        }
        i += 1;
    }
    assert(va.take(arr.len() as int) == va);
}

/// Colour codes sorted into W, U, B, R, G, C order (unknown codes last),
/// keeping the original order among equal codes.
pub fn sort_colors(arr: &Vec<String>) -> (res: Vec<String>)
    ensures
        views(res@) == sorted_colors(views(arr@)),
{
    let mut out: Vec<String> = Vec::new();
    push_rank(&mut out, arr, 0);
    push_rank(&mut out, arr, 1);
    push_rank(&mut out, arr, 2);
    push_rank(&mut out, arr, 3);
    push_rank(&mut out, arr, 4);
    push_rank(&mut out, arr, 5);
    push_rank(&mut out, arr, 99);
    out
}

/// A list shown in one column: `None` when empty, else the items joined by `, `.
pub fn join_opt(arr: &Vec<String>) -> (res: Option<String>)
    ensures
        arr@.len() == 0 ==> res is None,
        arr@.len() > 0 ==> (res matches Some(s) && s@ == join(views(arr@), ", "@)),
{
    if arr.len() == 0 {
        return None;
    }
    let mut parts: Vec<Vec<char>> = Vec::new();
    let mut i: usize = 0;
    while i < arr.len()
        invariant
            i <= arr.len(),
            parts@.len() == i,
            forall|k: int| 0 <= k < i ==> #[trigger] parts@[k]@ == arr@[k]@,
        decreases arr.len() - i,
    {
        parts.push(chars_of(arr[i].as_str()));
        i += 1;
    }
    assert(parts@.map_values(|p: Vec<char>| p@) =~= views(arr@));
    Some(string_of(&join_chars(&parts, &chars_of(", "))))
}

/// The WUBRG letters written inside `{..}` mana symbols of `s[i..]`, in order
/// (duplicates kept), when the scan at `i` is inside a symbol iff `inside`. A
/// symbol runs from `{` to the next `}` (or the end of the text).
pub open spec fn symbol_scan(s: Seq<char>, i: int, inside: bool) -> Seq<char>
    decreases s.len() - i,
{
    if i < 0 || i >= s.len() {
        Seq::empty()
    } else if !inside {
        symbol_scan(s, i + 1, s[i] == '{')
    } else if s[i] == '}' {
        symbol_scan(s, i + 1, false)
    } else if is_wubrg(s[i]) {
        seq![s[i]] + symbol_scan(s, i + 1, true)
    } else {
        symbol_scan(s, i + 1, true)
    }
}

/// The WUBRG letters of every mana symbol in `s`, in order of appearance.
pub open spec fn symbol_letters(s: Seq<char>) -> Seq<char> {
    symbol_scan(s, 0, false)
}

/// The WUBRG letters of the mana symbols in `s`.
pub fn symbol_letters_of(s: &Vec<char>) -> (res: Vec<char>)
    ensures
        res@ == symbol_letters(s@),
{
    let mut out: Vec<char> = Vec::new();
    let mut inside = false;
    let mut i: usize = 0;
    while i < s.len()
        invariant
            i <= s.len(),
            out@ + symbol_scan(s@, i as int, inside) == symbol_letters(s@),
        decreases s.len() - i,
    {
        let c = s[i];
        let ghost before = out@;
        if !inside {
            inside = c == '{';
        } else if c == '}' {
            inside = false;
        } else if wubrg(c) {
            out.push(c);
            assert(before + (seq![c] + symbol_scan(s@, i + 1, true)) =~= out@ + symbol_scan(s@, i + 1, true));
        }
        i += 1;
    }
    out
}

/// The colours in `letters`, listed once each in WUBRG order.
pub open spec fn wubrg_of(letters: Seq<char>) -> Seq<char> {
    seq!['W', 'U', 'B', 'R', 'G'].filter(|c: char| letters.contains(c))
}

/// Letters shown as a colour list: `W, U`.
pub open spec fn letter_list(letters: Seq<char>) -> Seq<char> {
    join(letters.map_values(|c: char| seq![c]), ", "@)
}

/// The distinct colours of `letters` in WUBRG order.
pub fn wubrg_order(letters: &Vec<char>) -> (res: Vec<char>)
    ensures
        res@ == wubrg_of(letters@),
{
    let order: Vec<char> = vec!['W', 'U', 'B', 'R', 'G'];
    let ghost ord = seq!['W', 'U', 'B', 'R', 'G'];
    assert(order@ == ord);
    let mut out: Vec<char> = Vec::new();
    let mut i: usize = 0;
    while i < order.len()
        invariant
            i <= order.len(),
            order@ == ord,
            out@ == ord.take(i as int).filter(|c: char| letters@.contains(c)),
        decreases order.len() - i,
    {
        assert(ord.take(i + 1).drop_last() == ord.take(i as int));
        reveal(Seq::filter);
        if crate::text::has_char(letters, order[i]) {
            out.push(order[i]);
        }
        i += 1;
    }
    assert(ord.take(5) == ord);
    out
}

/// Shows letters as a colour list (`W, U`).
pub fn letter_list_of(letters: &Vec<char>) -> (res: String)
    ensures
        res@ == letter_list(letters@),
{
    let mut parts: Vec<Vec<char>> = Vec::new();
    let mut i: usize = 0;
    while i < letters.len()
        invariant
            i <= letters.len(),
            parts@.len() == i,
            forall|k: int| 0 <= k < i ==> #[trigger] parts@[k]@ == seq![letters@[k]],
        decreases letters.len() - i,
    {
        let mut p: Vec<char> = Vec::new();
        p.push(letters[i]);
        parts.push(p);
        i += 1;
    }
    assert(parts@.map_values(|p: Vec<char>| p@) =~= letters@.map_values(|c: char| seq![c]));
    string_of(&join_chars(&parts, &chars_of(", ")))
}

/// A card's colour identity: every WUBRG letter inside a mana symbol of its
/// mana cost or its rules text, once each, in WUBRG order, as `W, U`.
pub open spec fn color_identity(mana_cost: Seq<char>, oracle_text: Seq<char>) -> Seq<char> {
    letter_list(wubrg_of(symbol_letters(mana_cost) + symbol_letters(oracle_text)))
}

/// A card's color identity = every WUBRG letter appearing in any `{..}` mana
/// symbol of its mana cost OR its rules text (hybrid/Phyrexian symbols count each
/// colour; `{C}`/generic/`{T}` contribute nothing), sorted WUBRG and joined as
/// `"W, U"`. Colour *words* in rules text never count — only mana symbols.
pub fn color_identity_of(mana_cost: &str, oracle_text: &str) -> (res: String)
    ensures
        res@ == color_identity(mana_cost@, oracle_text@),
{
    let mc = chars_of(mana_cost);
    let ot = chars_of(oracle_text);
    let mut all = symbol_letters_of(&mc);
    let more = symbol_letters_of(&ot);
    crate::text::push_chars(&mut all, &more);
    assert(all@ == symbol_letters(mana_cost@) + symbol_letters(oracle_text@));
    let w = wubrg_order(&all);
    letter_list_of(&w)
}

/// The WUBRG letters of a colour-identity string written any way (`U, B`,
/// `UB`, `ub`), once each, in WUBRG order.
pub open spec fn ci_letters_spec(ci: Seq<char>) -> Seq<char> {
    wubrg_of(ci.map_values(|c: char| ascii_upper(c)))
}

/// The WUBRG letters of a colour-identity string (see [`ci_letters_spec`]).
pub fn ci_letters(ci: &str) -> (res: Vec<char>)
    ensures
        res@ == ci_letters_spec(ci@),
{
    let v = chars_of(ci);
    let mut up: Vec<char> = Vec::new();
    let mut i: usize = 0;
    while i < v.len()
        invariant
            i <= v.len(),
            up@ == v@.take(i as int).map_values(|c: char| ascii_upper(c)),
        decreases v.len() - i,
    {
        up.push(to_ascii_upper(v[i]));
        i += 1;
        assert(up@ =~= v@.take(i as int).map_values(|c: char| ascii_upper(c)));
    }
    assert(v@.take(v.len() as int) == v@);
    wubrg_order(&up)
}

/// The identity a card gets: a non-empty manual override (after trimming) wins
/// outright, read as WUBRG letters; otherwise it is solved from the mana cost
/// and rules text.
pub open spec fn effective_identity(
    mana_cost: Seq<char>,
    oracle_text: Seq<char>,
    ci_override: Option<Seq<char>>,
) -> Seq<char> {
    match ci_override {
        Some(s) if trim(s).len() > 0 => letter_list(ci_letters_spec(trim(s))),
        _ => color_identity(mana_cost, oracle_text),
    }
}

/// `color_identity_of`, but a non-empty MANUAL override (e.g. "UB", "U, B") wins outright,
/// letting a cost-removed card still declare its identity for the solver/frame/dot.
pub fn effective_color_identity(mana_cost: &str, oracle_text: &str, ci_override: Option<&str>) -> (res: String)
    ensures
        res@ == effective_identity(
            mana_cost@,
            oracle_text@,
            match ci_override {
                Some(s) => Some(s@),
                None => None,
            },
        ),
{
    if let Some(s) = ci_override {
        let t = trim_vec(&chars_of(s));
        if t.len() > 0 {
            let ts = string_of(&t);
            return letter_list_of(&ci_letters(ts.as_str()));
        }
    }
    color_identity_of(mana_cost, oracle_text)
}

/// CubeCobra's colour category of a card: `Lands` for anything whose type
/// line has "land" in any case, else by its identity letters.
pub open spec fn category(type_line: Seq<char>, letters: Seq<char>) -> Seq<char> {
    if has_infix(lowercase(type_line), "land"@) {
        "Lands"@
    } else if letters.len() == 0 {
        "Colorless"@
    } else if letters == seq!['W'] {
        "White"@
    } else if letters == seq!['U'] {
        "Blue"@
    } else if letters == seq!['B'] {
        "Black"@
    } else if letters == seq!['R'] {
        "Red"@
    } else if letters == seq!['G'] {
        "Green"@
    } else {
        "Multicolored"@
    }
}

/// CubeCobra's "Color Category" bucket for a card, from its type + color identity.
pub fn color_category(type_line: &str, ci_letters: &Vec<char>) -> (res: &'static str)
    ensures
        res@ == category(type_line@, ci_letters@),
{
    if contains_str(&lower_vec(&chars_of(type_line)), "land") {
        return "Lands";
    }
    if ci_letters.len() == 0 {
        "Colorless"
    } else if ci_letters.len() == 1 {
        let c = ci_letters[0];
        proof {
            assert(ci_letters@ == seq![c]);
        }
        if c == 'W' {
            "White"
        } else if c == 'U' {
            "Blue"
        } else if c == 'B' {
            "Black"
        } else if c == 'R' {
            "Red"
        } else if c == 'G' {
            "Green"
        } else {
            "Multicolored"
        }
    } else {
        "Multicolored"
    }
}

/// Sorting colour codes keeps every code: the sorted list is as long as the
/// list given.
pub proof fn lemma_sorted_colors_len(s: Seq<Seq<char>>)
    ensures
        sorted_colors(s).len() == s.len(),
    decreases s.len(),
{
    reveal(Seq::filter);
    if s.len() > 0 {
        lemma_sorted_colors_len(s.drop_last());
        let r = color_rank(s.last());
        assert(r == 0 || r == 1 || r == 2 || r == 3 || r == 4 || r == 5 || r == 99);
        assert forall|k: nat| #[trigger] of_rank(s, k).len() == of_rank(s.drop_last(), k).len() + (if r == k {
            1int
        } else {
            0int
        }) by {
            reveal(Seq::filter);
        }
        assert(of_rank(s, 0).len() == of_rank(s.drop_last(), 0).len() + (if r == 0 { 1int } else { 0int }));
        assert(of_rank(s, 1).len() == of_rank(s.drop_last(), 1).len() + (if r == 1 { 1int } else { 0int }));
        assert(of_rank(s, 2).len() == of_rank(s.drop_last(), 2).len() + (if r == 2 { 1int } else { 0int }));
        assert(of_rank(s, 3).len() == of_rank(s.drop_last(), 3).len() + (if r == 3 { 1int } else { 0int }));
        assert(of_rank(s, 4).len() == of_rank(s.drop_last(), 4).len() + (if r == 4 { 1int } else { 0int }));
        assert(of_rank(s, 5).len() == of_rank(s.drop_last(), 5).len() + (if r == 5 { 1int } else { 0int }));
        assert(of_rank(s, 99).len() == of_rank(s.drop_last(), 99).len() + (if r == 99 { 1int } else { 0int }));
    }
}

/// CubeCobra's colour category of a card that is not a land and has one
/// identity letter is that colour's name (W White, U Blue, B Black, R Red,
/// G Green), so two different single colours never share a category.
pub proof fn law_single_colour_category(type_line: Seq<char>, a: char, b: char)
    requires
        !has_infix(lowercase(type_line), "land"@),
        is_wubrg(a),
        is_wubrg(b),
        a != b,
    ensures
        category(type_line, seq!['W']) == "White"@,
        category(type_line, seq!['U']) == "Blue"@,
        category(type_line, seq!['B']) == "Black"@,
        category(type_line, seq!['R']) == "Red"@,
        category(type_line, seq!['G']) == "Green"@,
        category(type_line, seq![a]) != category(type_line, seq![b]),
{
    reveal_strlit("White");
    reveal_strlit("Blue");
    reveal_strlit("Black");
    reveal_strlit("Red");
    reveal_strlit("Green");
    assert(seq!['W'] != seq!['U'] && seq!['W'] != seq!['B'] && seq!['W'] != seq!['R'] && seq!['W'] != seq!['G']) by {
        assert(seq!['W'][0] != seq!['U'][0]);
        assert(seq!['W'][0] != seq!['B'][0]);
        assert(seq!['W'][0] != seq!['R'][0]);
        assert(seq!['W'][0] != seq!['G'][0]);
    }
    assert(seq!['U'] != seq!['B'] && seq!['U'] != seq!['R'] && seq!['U'] != seq!['G']) by {
        assert(seq!['U'][0] != seq!['B'][0]);
        assert(seq!['U'][0] != seq!['R'][0]);
        assert(seq!['U'][0] != seq!['G'][0]);
    }
    assert(seq!['B'] != seq!['R'] && seq!['B'] != seq!['G']) by {
        assert(seq!['B'][0] != seq!['R'][0]);
        assert(seq!['B'][0] != seq!['G'][0]);
    }
    assert(seq!['R'] != seq!['G']) by {
        assert(seq!['R'][0] != seq!['G'][0]);
    }
    assert("White"@ != "Blue"@ && "White"@ != "Black"@ && "White"@ != "Red"@ && "White"@ != "Green"@) by {
        assert("White"@[0] != "Blue"@[0]);
        assert("White"@[0] != "Black"@[0]);
        assert("White"@[0] != "Red"@[0]);
        assert("White"@[0] != "Green"@[0]);
    }
    assert("Blue"@ != "Black"@ && "Blue"@ != "Red"@ && "Blue"@ != "Green"@) by {
        assert("Blue"@.len() != "Black"@.len());
        assert("Blue"@[0] != "Red"@[0]);
        assert("Blue"@[0] != "Green"@[0]);
    }
    assert("Black"@ != "Red"@ && "Black"@ != "Green"@) by {
        assert("Black"@[0] != "Red"@[0]);
        assert("Black"@[0] != "Green"@[0]);
    }
    assert("Red"@ != "Green"@) by {
        assert("Red"@[0] != "Green"@[0]);
    }
}

} // verus!
