//! Artists: the printed pseudonyms of the GenAI art styles, the illustrator
//! blocklist, art-direction checks, and the content hashes that key cached art.

use vstd::prelude::*;
use crate::names::alphanumeric;
use crate::text::{
    base_digits, chars_of, digit_char, in_base, join, join_chars, lowercase, same_chars, slice_chars,
    split_chars, split_on, string_of, to_lower, trim, trim_vec,
};

verus! {

/// The GenAI art styles as `(real_name artist, printed pseudonym)`.
pub open spec fn artist_pairs() -> Seq<(Seq<char>, Seq<char>)> {
    seq![
        ("John Avon"@, "John Thames"@),
        ("Christopher Rush"@, "Chris Pace"@),
        ("Brom"@, "Brian Ohm"@),
        ("Rob Alexander"@, "Rob Macedon"@),
        ("Greg Staples"@, "Greg Mainstay"@),
        ("Donato Giancola"@, "Renato Colonna"@),
        ("Wayne Reynolds"@, "Wane Danger"@),
        ("Rebecca Guay"@, "Reverie Quay"@),
    ]
}

/// The GenAI art styles as `(real artist, printed pseudonym)` (see [`artist_pairs`]).
pub fn artist_styles() -> (v: Vec<(&'static str, &'static str)>)
    ensures
        v@.map_values(|p: (&'static str, &'static str)| (p.0@, p.1@)) == artist_pairs(),
{
    let v: Vec<(&'static str, &'static str)> = vec![
        ("John Avon", "John Thames"),
        ("Christopher Rush", "Chris Pace"),
        ("Brom", "Brian Ohm"),
        ("Rob Alexander", "Rob Macedon"),
        ("Greg Staples", "Greg Mainstay"),
        ("Donato Giancola", "Renato Colonna"),
        ("Wayne Reynolds", "Wane Danger"),
        ("Rebecca Guay", "Reverie Quay"),
    ];
    assert(v@.map_values(|p: (&'static str, &'static str)| (p.0@, p.1@)) =~= artist_pairs());
    v
}

/// The pseudonym printed for a real_name artist: the first table entry for that
/// artist, or the real_name name itself when the artist is not in the table.
pub open spec fn pseudonym_in(t: Seq<(Seq<char>, Seq<char>)>, real_name: Seq<char>) -> Seq<char>
    decreases t.len(),
{
    if t.len() == 0 {
        real_name
    } else if t[0].0 == real_name {
        t[0].1
    } else {
        pseudonym_in(t.drop_first(), real_name)
    }
}

/// The printed "Illus." credit for art painted in a real_name artist's style.
pub fn pseudonym(real_name: &str) -> (res: String)
    ensures
        res@ == pseudonym_in(artist_pairs(), real_name@),
{
    let t = artist_styles();
    let ghost tv = t@.map_values(|p: (&'static str, &'static str)| (p.0@, p.1@));
    let r = chars_of(real_name);
    let mut i: usize = 0;
    assert(tv.subrange(0, tv.len() as int) == tv);
    while i < t.len()
        invariant
            i <= t.len(),
            tv == artist_pairs(),
            tv == t@.map_values(|p: (&'static str, &'static str)| (p.0@, p.1@)),
            r@ == real_name@,
            pseudonym_in(tv.subrange(i as int, tv.len() as int), real_name@) == pseudonym_in(tv, real_name@),
        decreases t.len() - i,
    {
        let ghost rest = tv.subrange(i as int, tv.len() as int);
        assert(rest[0] == tv[i as int]);
        assert(rest.drop_first() =~= tv.subrange(i + 1, tv.len() as int));
        if same_chars(&chars_of(t[i].0), &r) {
            return string_of(&chars_of(t[i].1));
        }
        i += 1;
    }
    string_of(&r)
}

/// Illustrators whose art is never put on a cube card.
pub open spec fn blocked_artists() -> Seq<Seq<char>> {
    seq!["Harold McNeill"@, "Harold McNeil"@]
}

/// An illustrator credit is blocked when, trimmed and lower-cased, it is not
/// empty and equals a blocked name trimmed and lower-cased.
pub open spec fn is_blocked(artist: Seq<char>) -> bool {
    let a = lowercase(trim(artist));
    a.len() > 0 && exists|i: int|
        0 <= i < blocked_artists().len() && lowercase(trim(#[trigger] blocked_artists()[i])) == a
}

fn folded(s: &str) -> (res: Vec<char>)
    ensures
        res@ == lowercase(trim(s@)),
{
    let t = trim_vec(&chars_of(s));
    let low = to_lower(string_of(&t).as_str());
    chars_of(low.as_str())
}

/// Whether an illustrator credit is on the blocklist.
pub fn artist_blocked(artist: &str) -> (b: bool)
    ensures
        b == is_blocked(artist@),
{
    let a = folded(artist);
    if a.len() == 0 {
        return false;
    }
    let blocked: Vec<&'static str> = vec!["Harold McNeill", "Harold McNeil"];
    assert(blocked@.map_values(|s: &'static str| s@) =~= blocked_artists());
    let mut i: usize = 0;
    while i < blocked.len()
        invariant
            i <= blocked.len(),
            blocked@.map_values(|s: &'static str| s@) == blocked_artists(),
            a@ == lowercase(trim(artist@)),
            a@.len() > 0,
            forall|j: int| 0 <= j < i ==> lowercase(trim(#[trigger] blocked_artists()[j])) != a@,
        decreases blocked.len() - i,
    {
        let f = folded(blocked[i]);
        assert(blocked_artists()[i as int] == blocked@[i as int]@);
        if same_chars(&f, &a) {
            assert(lowercase(trim(blocked_artists()[i as int])) == a@);
            assert(blocked@.map_values(|s: &'static str| s@).len() == blocked@.len());
            assert(0 <= i < blocked_artists().len());
            assert(a@.len() > 0);
            return true;
        }
        i += 1;
    }
    false
}

/// The words of `s`: its pieces between characters that are not alphanumeric
/// (std `split(|c| !c.is_alphanumeric())`, empty pieces included).
pub open spec fn words(s: Seq<char>) -> Seq<Seq<char>>
    decreases s.len(),
{
    if s.len() == 0 {
        seq![Seq::empty()]
    } else {
        let rest = words(s.drop_first());
        if !alphanumeric(s[0]) {
            seq![Seq::<char>::empty()] + rest
        } else {
            rest.update(0, seq![s[0]] + rest[0])
        }
    }
}

proof fn lemma_words_nonempty(s: Seq<char>)
    ensures
        words(s).len() >= 1,
    decreases s.len(),
{
    if s.len() > 0 {
        lemma_words_nonempty(s.drop_first());
    }
}

/// The words that name the card game's own mechanics.
pub open spec fn mechanic_words() -> Seq<Seq<char>> {
    seq!["card"@, "cards"@, "rummage"@, "rummaging"@, "rummaged"@]
}

/// An art direction names the card game itself when one of its lower-cased
/// words is a mechanic word (whole words only: "cardinal" does not count).
pub open spec fn names_mechanic(d: Seq<char>) -> bool {
    exists|i: int|
        0 <= i < words(lowercase(d)).len() && mechanic_words().contains(
            #[trigger] words(lowercase(d))[i],
        )
}

fn is_mechanic_word(w: &Vec<char>) -> (b: bool)
    ensures
        b == mechanic_words().contains(w@),
{
    let ms: Vec<&'static str> = vec!["card", "cards", "rummage", "rummaging", "rummaged"];
    assert(ms@.map_values(|s: &'static str| s@) =~= mechanic_words());
    let mut i: usize = 0;
    while i < ms.len()
        invariant
            i <= ms.len(),
            ms@.map_values(|s: &'static str| s@) == mechanic_words(),
            forall|j: int| 0 <= j < i ==> mechanic_words()[j] != w@,
        decreases ms.len() - i,
    {
        assert(mechanic_words()[i as int] == ms@[i as int]@);
        if same_chars(&chars_of(ms[i]), w) {
            return true;
        }
        i += 1;
    }
    false
}

/// Splits `s` into its words (see [`words`]).
fn split_words(s: &Vec<char>) -> (res: Vec<Vec<char>>)
    ensures
        res@.map_values(|p: Vec<char>| p@) == words(s@),
{
    let mut done: Vec<Vec<char>> = Vec::new();
    let mut cur: Vec<char> = Vec::new();
    let mut i: usize = 0;
    proof {
        lemma_words_nonempty(s@);
        assert(s@.subrange(0, s.len() as int) == s@);
        let r = words(s@);
        assert(r.update(0, Seq::<char>::empty() + r[0]) == r);
    }
    while i < s.len()
        invariant
            i <= s.len(),
            words(s@) == done@.map_values(|p: Vec<char>| p@) + words(
                s@.subrange(i as int, s.len() as int),
            ).update(0, cur@ + words(s@.subrange(i as int, s.len() as int))[0]),
        decreases s.len() - i,
    {
        let ghost rest = s@.subrange(i as int, s.len() as int);
        let ghost rest2 = s@.subrange(i + 1, s.len() as int);
        assert(rest.drop_first() == rest2);
        proof {
            lemma_words_nonempty(rest2);
        }
        let ghost old_done = done@.map_values(|p: Vec<char>| p@);
        let ghost old_cur = cur@;
        let ghost r2 = words(rest2);
        if !crate::names::is_alphanumeric(s[i]) {
            let finished = cur;
            done.push(finished);
            cur = Vec::new();
            assert(done@.map_values(|p: Vec<char>| p@) == old_done.push(old_cur));
            assert(words(rest) == seq![Seq::<char>::empty()] + r2);
            assert((seq![Seq::<char>::empty()] + r2).update(0, old_cur + Seq::<char>::empty())
                =~= seq![old_cur] + r2);
            assert(r2.update(0, Seq::<char>::empty() + r2[0]) =~= r2);
            assert(old_done + (seq![old_cur] + r2) =~= old_done.push(old_cur) + r2);
        } else {
            cur.push(s[i]);
            assert(words(rest) == r2.update(0, seq![s@[i as int]] + r2[0]));
            assert(old_cur + (seq![s@[i as int]] + r2[0]) =~= old_cur.push(s@[i as int]) + r2[0]);
            assert(r2.update(0, seq![s@[i as int]] + r2[0]).update(0, old_cur + (seq![s@[i as int]] + r2[0]))
                =~= r2.update(0, cur@ + r2[0]));
        }
        i += 1;
    }
    let ghost old_done = done@.map_values(|p: Vec<char>| p@);
    let ghost last = cur@;
    done.push(cur);
    proof {
        let e = s@.subrange(s.len() as int, s.len() as int);
        assert(e.len() == 0);
        assert(words(e) == seq![Seq::<char>::empty()]);
        assert(seq![Seq::<char>::empty()].update(0, last + Seq::<char>::empty()) =~= seq![last]);
        assert(done@.map_values(|p: Vec<char>| p@) =~= old_done.push(last));
    }
    done
}

/// Whether an art direction wrongly refers to the card game's own mechanics.
pub fn mentions_card_mechanic(d: &str) -> (b: bool)
    ensures
        b == names_mechanic(d@),
{
    has_mechanic_word(&chars_of(to_lower(d).as_str()))
}

/// Whether one of the words of an already lower-cased text is a mechanic word.
pub fn has_mechanic_word(low: &Vec<char>) -> (b: bool)
    ensures
        b == exists|i: int| 0 <= i < words(low@).len() && mechanic_words().contains(#[trigger] words(low@)[i]),
{
    let ws = split_words(low);
    let ghost wv = ws@.map_values(|p: Vec<char>| p@);
    let mut i: usize = 0;
    while i < ws.len()
        invariant
            i <= ws.len(),
            wv == ws@.map_values(|p: Vec<char>| p@),
            wv == words(low@),
            forall|j: int| 0 <= j < i ==> !mechanic_words().contains(#[trigger] wv[j]),
        decreases ws.len() - i,
    {
        assert(wv[i as int] == ws@[i as int]@);
        if is_mechanic_word(&ws[i]) {
            assert(mechanic_words().contains(words(low@)[i as int]));
            return true;
        }
        i += 1;
    }
    false
}

/// A name for std's `Path::file_stem` of a path given as text (read as a Unix
/// path, `/` the only separator): its file name
/// without the last extension, if it has a file name.
pub uninterp spec fn path_stem(p: Seq<char>) -> Option<Seq<char>>;

/// std `Path::file_stem` (as UTF-8 text; a `&str` path's stem always is).
#[verifier::external_body]
fn stem_of(path: &str) -> (res: Option<String>)
    ensures
        match path_stem(path@) {
            Some(s) => res matches Some(r) && r@ == s,
            None => res is None,
        },
{
    match std::path::Path::new(path).file_stem() {
        Some(s) => s.to_str().map(String::from),
        None => None,
    }
}

/// `s` with every `-` read as `_`.
pub open spec fn dashes_as_underscores(s: Seq<char>) -> Seq<char> {
    s.map_values(|c: char| if c == '-' { '_' } else { c })
}

/// The non-empty pieces, in order.
pub open spec fn non_empty(ps: Seq<Seq<char>>) -> Seq<Seq<char>>
    decreases ps.len(),
{
    if ps.len() == 0 {
        Seq::empty()
    } else if ps.last().len() > 0 {
        non_empty(ps.drop_last()).push(ps.last())
    } else {
        non_empty(ps.drop_last())
    }
}

/// The artist an uploaded file's stem names: its words, separated in the stem
/// by `_` or `-`, joined by single spaces (empty without a stem).
pub open spec fn artist_from_stem(stem: Option<Seq<char>>) -> Seq<char> {
    match stem {
        Some(s) => join(non_empty(split_on(dashes_as_underscores(s), '_')), " "@),
        None => Seq::empty(),
    }
}

/// The artist a file stem names (see [`artist_from_stem`]).
pub fn artist_of_stem(stem: Option<String>) -> (res: String)
    ensures
        res@ == artist_from_stem(
            match stem {
                Some(s) => Some(s@),
                None => None,
            },
        ),
{
    match stem {
        None => String::new(),
        Some(s) => {
            let cs = chars_of(s.as_str());
            let mut m: Vec<char> = Vec::new();
            let mut i: usize = 0;
            while i < cs.len()
                invariant
                    i <= cs.len(),
                    m@ =~= dashes_as_underscores(cs@.take(i as int)),
                decreases cs.len() - i,
            {
                m.push(if cs[i] == '-' { '_' } else { cs[i] });
                i += 1;
                assert(m@ =~= dashes_as_underscores(cs@.take(i as int)));
            }
            assert(cs@.take(cs.len() as int) == cs@);
            let pieces = split_chars(&m, '_');
            let ghost pv = pieces@.map_values(|p: Vec<char>| p@);
            let mut kept: Vec<Vec<char>> = Vec::new();
            let mut j: usize = 0;
            while j < pieces.len()
                invariant
                    j <= pieces.len(),
                    pv == pieces@.map_values(|p: Vec<char>| p@),
                    kept@.map_values(|p: Vec<char>| p@) == non_empty(pv.take(j as int)),
                decreases pieces.len() - j,
            {
                assert(pv.take(j + 1).drop_last() == pv.take(j as int));
                assert(pv.take(j + 1).last() == pieces@[j as int]@);
                if pieces[j].len() > 0 {
                    let ghost before = kept@.map_values(|p: Vec<char>| p@);
                    kept.push(slice_chars(&pieces[j], 0, pieces[j].len()));
                    assert(pieces@[j as int]@.subrange(0, pieces@[j as int]@.len() as int) == pieces@[j as int]@);
                    assert(kept@.map_values(|p: Vec<char>| p@) =~= before.push(pv[j as int]));
                }
                j += 1;
            }
            assert(pv.take(pieces.len() as int) == pv);
            proof {
                reveal_strlit(" ");
            }
            string_of(&join_chars(&kept, &chars_of(" ")))
        },
    }
}

/// The artist an uploaded image's file name suggests (see [`artist_from_stem`]).
pub fn infer_artist(src: &str) -> (res: String)
    ensures
        res@ == artist_from_stem(path_stem(src@)),
{
    artist_of_stem(stem_of(src))
}

} // verus!
