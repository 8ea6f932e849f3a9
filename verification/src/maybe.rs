//! Maybeboard modules: research batches of candidate cards. The card pool the
//! query engine filters (faces collapsed to one entry per card), which names a
//! module snapshots, the review verdicts, and the tag promoted cards carry.

use vstd::prelude::*;
use crate::colors::{is_wubrg, wubrg};
use crate::editor::AddError;
use crate::text::{
    chars_of, has_char, has_infix, contains_seq, push_chars, push_str, replace_char, replace_chars,
    same_chars, string_of, trim, trim_vec,
};

verus! {

/// One face row of the card database, in (name, face) order.
pub struct PoolFace {
    pub name: String,
    pub type_line: String,
    pub colors: String,
    pub text: String,
}

/// One card of the pool: its faces merged. `first` is the position of its
/// first face among the rows (where its other columns are read).
pub struct PoolCard {
    pub first: usize,
    pub name: String,
    pub type_line: String,
    pub colors: String,
    pub text: String,
}

/// A pool card's view: first row, name, type line, colours, text.
pub type PoolView = (int, Seq<char>, Seq<char>, Seq<char>, Seq<char>);

/// The view of a pool card.
pub open spec fn pool_view(c: PoolCard) -> PoolView {
    (c.first as int, c.name@, c.type_line@, c.colors@, c.text@)
}

/// `acc` with each character of `add` appended unless already in it.
pub open spec fn add_colors(acc: Seq<char>, add: Seq<char>) -> Seq<char>
    decreases add.len(),
{
    if add.len() == 0 {
        acc
    } else {
        let next = if acc.contains(add[0]) {
            acc
        } else {
            acc.push(add[0])
        };
        add_colors(next, add.drop_first())
    }
}

/// The WUBRG letters of `s`, in order.
pub open spec fn wubrg_letters(s: Seq<char>) -> Seq<char> {
    s.filter(|c: char| is_wubrg(c))
}

/// A card starting at row `i` with face `f`.
pub open spec fn start_card(i: int, f: PoolFace) -> PoolView {
    (i, f.name@, f.type_line@, wubrg_letters(f.colors@), f.text@)
}

/// Another face merged into a card: a new type line joins with ` // ` unless
/// already part of it; the rules texts join with a `//` line; new colours are
/// added once each.
pub open spec fn merge_face(c: PoolView, f: PoolFace) -> PoolView {
    let t = f.type_line@;
    let x = f.text@;
    (
        c.0,
        c.1,
        if t.len() > 0 && !has_infix(c.2, t) {
            c.2 + " // "@ + t
        } else {
            c.2
        },
        add_colors(c.3, wubrg_letters(f.colors@)),
        if x.len() > 0 {
            (if c.4.len() > 0 {
                c.4 + "\n//\n"@
            } else {
                c.4
            }) + x
        } else {
            c.4
        },
    )
}

/// The pool of the face rows: consecutive rows of one name are one card.
pub open spec fn pool_of(faces: Seq<PoolFace>) -> Seq<PoolView>
    decreases faces.len(),
{
    if faces.len() == 0 {
        Seq::empty()
    } else {
        let g = pool_of(faces.drop_last());
        let f = faces.last();
        if g.len() > 0 && g.last().1 == f.name@ {
            g.update(g.len() - 1, merge_face(g.last(), f))
        } else {
            g.push(start_card(faces.len() - 1, f))
        }
    }
}

fn letters_of(s: &String) -> (res: Vec<char>)
    ensures
        res@ == wubrg_letters(s@),
{
    crate::frames::wubrg_chars_of(&chars_of(s.as_str()))
}

fn add_colors_to(acc: &mut Vec<char>, add: &Vec<char>)
    ensures
        final(acc)@ == add_colors(old(acc)@, add@),
{
    let mut i: usize = 0;
    assert(add@.subrange(0, add@.len() as int) == add@);
    while i < add.len()
        invariant
            i <= add.len(),
            add_colors(acc@, add@.subrange(i as int, add@.len() as int)) == add_colors(old(acc)@, add@),
        decreases add.len() - i,
    {
        let ghost rest = add@.subrange(i as int, add@.len() as int);
        assert(rest.drop_first() =~= add@.subrange(i + 1, add@.len() as int));
        assert(rest[0] == add@[i as int]);
        if !has_char(acc, add[i]) {
            acc.push(add[i]);
        }
        i += 1;
    }
    assert(add@.subrange(add@.len() as int, add@.len() as int) =~= Seq::<char>::empty());
}

fn copy(s: &String) -> (r: String)
    ensures
        r@ == s@,
{
    string_of(&chars_of(s.as_str()))
}

/// The card pool of the face rows (see [`pool_of`]).
pub fn pool_cards(faces: &Vec<PoolFace>) -> (res: Vec<PoolCard>)
    ensures
        res@.map_values(|c: PoolCard| pool_view(c)) == pool_of(faces@),
{
    let mut res: Vec<PoolCard> = Vec::new();
    let mut i: usize = 0;
    while i < faces.len()
        invariant
            i <= faces.len(),
            res@.map_values(|c: PoolCard| pool_view(c)) == pool_of(faces@.take(i as int)),
        decreases faces.len() - i,
    {
        assert(faces@.take(i + 1).drop_last() == faces@.take(i as int));
        assert(faces@.take(i + 1).last() == faces@[i as int]);
        let f = &faces[i];
        let ghost g = res@.map_values(|c: PoolCard| pool_view(c));
        let n = res.len();
        let same = n > 0 && same_chars(&chars_of(res[n - 1].name.as_str()), &chars_of(f.name.as_str()));
        if same {
            let last = res.pop().unwrap();
            assert(pool_view(last) == g.last());
            let lt = chars_of(last.type_line.as_str());
            let ft = chars_of(f.type_line.as_str());
            let type_line = if ft.len() > 0 && !contains_seq(&lt, &ft) {
                let mut v = lt;
                push_str(&mut v, " // ");
                push_chars(&mut v, &ft);
                string_of(&v)
            } else {
                string_of(&lt)
            };
            let mut colors = chars_of(last.colors.as_str());
            add_colors_to(&mut colors, &letters_of(&f.colors));
            let lx = chars_of(last.text.as_str());
            let fx = chars_of(f.text.as_str());
            let text = if fx.len() > 0 {
                let mut v = lx;
                if v.len() > 0 {
                    push_str(&mut v, "\n//\n");
                }
                push_chars(&mut v, &fx);
                string_of(&v)
            } else {
                string_of(&lx)
            };
            res.push(PoolCard {
                first: last.first,
                name: last.name,
                type_line,
                colors: string_of(&colors),
                text,
            });
            assert(res@.map_values(|c: PoolCard| pool_view(c)) =~= g.update(
                g.len() - 1,
                merge_face(g.last(), *f),
            ));
        } else {
            res.push(PoolCard {
                first: i,
                name: copy(&f.name),
                type_line: copy(&f.type_line),
                colors: string_of(&letters_of(&f.colors)),
                text: copy(&f.text),
            });
            assert(res@.map_values(|c: PoolCard| pool_view(c)) =~= g.push(start_card(i as int, *f)));
        }
        i += 1;
    }
    assert(faces@.take(faces.len() as int) == faces@);
    res
}

/// Why a module could not be launched.
pub enum LaunchError {
    /// The module name is blank.
    EmptyName,
    /// No candidate names were given.
    NoNames,
}

impl LaunchError {
    /// The message the editor answers with.
    pub fn message(&self) -> (s: String)
        ensures
            s@ == match self {
                LaunchError::EmptyName => "module name is empty"@,
                LaunchError::NoNames => "no candidate card names given"@,
            },
    {
        match self {
            LaunchError::EmptyName => string_of(&chars_of("module name is empty")),
            LaunchError::NoNames => string_of(&chars_of("no candidate card names given")),
        }
    }
}

/// The names a launch snapshots, and how many it skipped for being in the cube.
pub struct LaunchPlan {
    /// The module name, trimmed.
    pub module_name: String,
    /// The distinct candidate names (trimmed, blanks dropped, first-seen
    /// order) that are not in the active cube.
    pub candidates: Vec<String>,
    /// How many distinct names were skipped because the cube has them.
    pub skipped_in_cube: usize,
}

/// The distinct non-blank trimmed names of `names`, in first-seen order.
pub open spec fn distinct_names(names: Seq<Seq<char>>) -> Seq<Seq<char>>
    decreases names.len(),
{
    if names.len() == 0 {
        Seq::empty()
    } else {
        let prev = distinct_names(names.drop_last());
        let n = trim(names.last());
        if n.len() == 0 || prev.contains(n) {
            prev
        } else {
            prev.push(n)
        }
    }
}

/// The names of `ns` not in `cube`, in order.
pub open spec fn not_in(ns: Seq<Seq<char>>, cube: Seq<Seq<char>>) -> Seq<Seq<char>>
    decreases ns.len(),
{
    if ns.len() == 0 {
        Seq::empty()
    } else if cube.contains(ns.last()) {
        not_in(ns.drop_last(), cube)
    } else {
        not_in(ns.drop_last(), cube).push(ns.last())
    }
}

/// How many names of `ns` are in `cube`.
pub open spec fn count_in(ns: Seq<Seq<char>>, cube: Seq<Seq<char>>) -> nat
    decreases ns.len(),
{
    if ns.len() == 0 {
        0
    } else {
        count_in(ns.drop_last(), cube) + if cube.contains(ns.last()) { 1nat } else { 0nat }
    }
}

fn member(xs: &Vec<Vec<char>>, x: &Vec<char>) -> (b: bool)
    ensures
        b == xs@.map_values(|p: Vec<char>| p@).contains(x@),
{
    let ghost xv = xs@.map_values(|p: Vec<char>| p@);
    let mut i: usize = 0;
    while i < xs.len()
        invariant
            i <= xs.len(),
            xv == xs@.map_values(|p: Vec<char>| p@),
            forall|k: int| 0 <= k < i ==> xv[k] != x@,
        decreases xs.len() - i,
    {
        assert(xv[i as int] == xs@[i as int]@);
        if same_chars(&xs[i], x) {
            return true;
        }
        i += 1;
    }
    false
}

fn chars_list(v: &Vec<String>) -> (res: Vec<Vec<char>>)
    ensures
        res@.map_values(|p: Vec<char>| p@) == crate::text::views(v@),
{
    let mut res: Vec<Vec<char>> = Vec::new();
    let mut i: usize = 0;
    while i < v.len()
        invariant
            i <= v.len(),
            res@.len() == i,
            forall|k: int| 0 <= k < i ==> #[trigger] res@[k]@ == v@[k]@,
        decreases v.len() - i,
    {
        res.push(chars_of(v[i].as_str()));
        i += 1;
    }
    assert(res@.map_values(|p: Vec<char>| p@) =~= crate::text::views(v@));
    res
}

/// What launching a module snapshots: the module name trimmed (refused when
/// blank), at least one name given (else refused), and the distinct trimmed
/// names split into those not in the active cube and a count of those in it.
pub fn launch_plan(module_name: &str, names: &Vec<String>, cube: &Vec<String>) -> (res: Result<
    LaunchPlan,
    LaunchError,
>)
    ensures
        match res {
            Ok(p) => {
                &&& trim(module_name@).len() > 0
                &&& names@.len() > 0
                &&& p.module_name@ == trim(module_name@)
                &&& crate::text::views(p.candidates@) == not_in(
                    distinct_names(crate::text::views(names@)),
                    crate::text::views(cube@),
                )
                &&& p.skipped_in_cube == count_in(
                    distinct_names(crate::text::views(names@)),
                    crate::text::views(cube@),
                )
            },
            Err(e) => match e {
                LaunchError::EmptyName => trim(module_name@).len() == 0,
                LaunchError::NoNames => trim(module_name@).len() > 0 && names@.len() == 0,
            },
        },
{
    let m = trim_vec(&chars_of(module_name));
    if m.len() == 0 {
        return Err(LaunchError::EmptyName);
    }
    if names.len() == 0 {
        return Err(LaunchError::NoNames);
    }
    let cube_v = chars_list(cube);
    let ghost nv = crate::text::views(names@);
    let ghost cv = crate::text::views(cube@);
    let mut seen: Vec<Vec<char>> = Vec::new();
    let mut candidates: Vec<String> = Vec::new();
    let mut skipped: usize = 0;
    let mut i: usize = 0;
    while i < names.len()
        invariant
            i <= names.len(),
            nv == crate::text::views(names@),
            cv == crate::text::views(cube@),
            cube_v@.map_values(|p: Vec<char>| p@) == cv,
            seen@.map_values(|p: Vec<char>| p@) == distinct_names(nv.take(i as int)),
            crate::text::views(candidates@) == not_in(distinct_names(nv.take(i as int)), cv),
            skipped == count_in(distinct_names(nv.take(i as int)), cv),
            skipped <= seen@.len(),
        decreases names.len() - i,
    {
        assert(nv.take(i + 1).drop_last() == nv.take(i as int));
        assert(nv.take(i + 1).last() == names@[i as int]@);
        let n = trim_vec(&chars_of(names[i].as_str()));
        let ghost d = distinct_names(nv.take(i as int));
        if n.len() > 0 && !member(&seen, &n) {
            let ghost s0 = seen@.map_values(|p: Vec<char>| p@);
            let ghost c0 = crate::text::views(candidates@);
            let in_cube = member(&cube_v, &n);
            seen.push(slice_all(&n));
            assert(seen@.map_values(|p: Vec<char>| p@) =~= s0.push(n@));
            assert(d.push(n@).drop_last() =~= d);
            if in_cube {
                assert(skipped < seen.len());
                skipped += 1;
            } else {
                candidates.push(string_of(&n));
                assert(crate::text::views(candidates@) =~= c0.push(n@));
            }
        }
        i += 1;
    }
    assert(nv.take(names.len() as int) == nv);
    Ok(LaunchPlan { module_name: string_of(&m), candidates, skipped_in_cube: skipped })
}

fn slice_all(v: &Vec<char>) -> (r: Vec<char>)
    ensures
        r@ == v@,
{
    let r = crate::text::slice_chars(v, 0, v.len());
    assert(v@.subrange(0, v@.len() as int) =~= v@);
    r
}

/// The review verdicts a card can be given from the grid.
pub open spec fn is_verdict(v: Seq<char>) -> bool {
    v == "pending"@ || v == "want"@ || v == "rejected"@
}

/// Whether a verdict can be set: pending, want or rejected.
pub fn valid_verdict(v: &str) -> (b: bool)
    ensures
        b == is_verdict(v@),
{
    let c = chars_of(v);
    same_chars(&c, &chars_of("pending")) || same_chars(&c, &chars_of("want")) || same_chars(
        &c,
        &chars_of("rejected"),
    )
}

/// Whether a card's verdict may change from `current`: a card already
/// promoted (`added`) keeps its verdict.
pub fn verdict_changeable(current: &str) -> (b: bool)
    ensures
        b == (current@ != "added"@),
{
    !same_chars(&chars_of(current), &chars_of("added"))
}

/// The tag promoted cards carry: `maybe:` then the module name with commas as
/// blanks, trimmed, blanks as dashes.
pub open spec fn promote_tag_of(module_name: Seq<char>) -> Seq<char> {
    "maybe:"@ + replace_char(trim(replace_char(module_name, ',', seq![' '])), ' ', seq!['-'])
}

/// The tag of the cards promoted from a module (see [`promote_tag_of`]).
pub fn promote_tag(module_name: &str) -> (res: String)
    ensures
        res@ == promote_tag_of(module_name@),
{
    let sp: Vec<char> = vec![' '];
    let dash: Vec<char> = vec!['-'];
    assert(sp@ =~= seq![' ']);
    assert(dash@ =~= seq!['-']);
    let a = replace_chars(&chars_of(module_name), ',', &sp);
    let b = trim_vec(&a);
    let c = replace_chars(&b, ' ', &dash);
    let mut out = chars_of("maybe:");
    push_chars(&mut out, &c);
    string_of(&out)
}

/// What became of one promoted card.
#[derive(PartialEq, Eq, Structural, Clone, Copy, Debug)]
pub enum Promoted {
    /// Added to the cube.
    Added,
    /// Already in the cube (it raced in meanwhile); counts as promoted.
    Skipped,
    /// Not added; stays `want` for a retry.
    Failed,
}

/// The outcome of promoting one card, from how adding it went.
pub fn promote_outcome(add: &Result<(), AddError>) -> (res: Promoted)
    ensures
        res == match add {
            Ok(_) => Promoted::Added,
            Err(AddError::AlreadyInCube(_)) => Promoted::Skipped,
            Err(_) => Promoted::Failed,
        },
{
    match add {
        Ok(_) => Promoted::Added,
        Err(AddError::AlreadyInCube(_)) => Promoted::Skipped,
        Err(_) => Promoted::Failed,
    }
}

} // verus!
