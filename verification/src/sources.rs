//! Where a card's art and the renderer's assets come from: the source tokens
//! of the crop editor, the alternative printings offered, and the asset files
//! to download.

use vstd::prelude::*;
use crate::text::{
    base_digits, chars_of, decimal, has_infix, contains_str, push_chars, push_str, same_chars,
    slice_chars, string_of, to_upper, uppercase,
};

verus! {

/// The art source a crop-editor token names.
pub enum Source {
    /// `@scryfall`: the oldest paper printing's art.
    Scryfall,
    /// `@latest`: the newest printing's art.
    Latest,
    /// `@current`: the currently cropped source.
    Current,
    /// `@set:<CODE>`: one printing's art (the code given).
    Printing(String),
    /// `mpcfill/<bucket>/<file>`: a cached proxy (the token itself).
    Mpcfill(String),
    /// `@upload`: an uploaded image.
    Upload,
    /// An `mpcfill/` token with `..` in it.
    Invalid,
    /// Anything else.
    Unknown,
}

/// `p` begins with `pre`.
pub open spec fn starts(p: Seq<char>, pre: Seq<char>) -> bool {
    p.len() >= pre.len() && p.take(pre.len() as int) == pre
}

/// `s` with every leading copy of `pre` removed (std `trim_start_matches`).
pub open spec fn strip_all(s: Seq<char>, pre: Seq<char>) -> Seq<char>
    decreases s.len(),
{
    if pre.len() > 0 && starts(s, pre) {
        strip_all(s.skip(pre.len() as int), pre)
    } else {
        s
    }
}

fn begins(p: &Vec<char>, pre: &Vec<char>) -> (b: bool)
    ensures
        b == starts(p@, pre@),
{
    pre.len() <= p.len() && same_chars(&slice_chars(p, 0, pre.len()), pre)
}

fn strip_all_of(s: &Vec<char>, pre: &Vec<char>) -> (res: Vec<char>)
    requires
        pre@.len() > 0,
    ensures
        res@ == strip_all(s@, pre@),
{
    let mut i: usize = 0;
    let n = s.len();
    let m = pre.len();
    assert(s@.subrange(0, n as int) == s@);
    while m <= n - i && same_chars(&slice_chars(s, i, i + m), pre)
        invariant
            i <= n == s.len(),
            m == pre.len() > 0,
            strip_all(s@.subrange(i as int, n as int), pre@) == strip_all(s@, pre@),
        decreases n - i,
    {
        let ghost rest = s@.subrange(i as int, n as int);
        assert(rest.take(m as int) =~= s@.subrange(i as int, i + m));
        assert(rest.skip(m as int) =~= s@.subrange(i + m, n as int));
        i += m;
    }
    let ghost rest = s@.subrange(i as int, n as int);
    assert(m <= n - i ==> rest.take(m as int) =~= s@.subrange(i as int, i + m));
    slice_chars(s, i, n)
}

/// What a crop-editor token names: the fixed tokens, `@set:` with its code
/// (every leading `@set:` dropped), a proxy path under `mpcfill/` unless it
/// holds `..`, and nothing else.
pub fn source_token(rel: &str) -> (res: Source)
    ensures
        res is Scryfall <==> rel@ == "@scryfall"@,
        res is Latest <==> rel@ == "@latest"@,
        res is Current <==> rel@ == "@current"@,
        res is Upload <==> rel@ == "@upload"@,
        (res is Printing) <==> starts(rel@, "@set:"@),
        res matches Source::Printing(c) ==> c@ == strip_all(rel@, "@set:"@),
        (res is Mpcfill) <==> starts(rel@, "mpcfill/"@) && !has_infix(rel@, ".."@),
        res matches Source::Mpcfill(p) ==> p@ == rel@,
        res is Invalid <==> starts(rel@, "mpcfill/"@) && has_infix(rel@, ".."@),
        res is Unknown <==> !(rel@ == "@scryfall"@ || rel@ == "@latest"@ || rel@ == "@current"@
            || rel@ == "@upload"@ || starts(rel@, "@set:"@) || starts(rel@, "mpcfill/"@)),
{
    proof {
        reveal_strlit("@scryfall");
        reveal_strlit("@latest");
        reveal_strlit("@current");
        reveal_strlit("@upload");
        reveal_strlit("@set:");
        reveal_strlit("mpcfill/");
        assert("@scryfall"@.len() == 9 && "@latest"@.len() == 7 && "@current"@.len() == 8
            && "@upload"@.len() == 7);
        assert("@latest"@[1] != "@upload"@[1]);
        assert("@scryfall"@.take(5)[2] != "@set:"@[2]);
        assert("@latest"@.take(5)[1] != "@set:"@[1]);
        assert("@current"@.take(5)[1] != "@set:"@[1]);
        assert("@upload"@.take(5)[1] != "@set:"@[1]);
        assert("mpcfill/"@.len() == 8);
        assert("@scryfall"@.take(8)[0] != "mpcfill/"@[0]);
        assert("@current"@.take(8)[0] != "mpcfill/"@[0]);
        assert("@scryfall"@[0] != 'm' && "@latest"@[0] != 'm' && "@current"@[0] != 'm'
            && "@upload"@[0] != 'm');
    }
    let r = chars_of(rel);
    if same_chars(&r, &chars_of("@scryfall")) {
        return Source::Scryfall;
    }
    if same_chars(&r, &chars_of("@latest")) {
        return Source::Latest;
    }
    if same_chars(&r, &chars_of("@current")) {
        return Source::Current;
    }
    let set = chars_of("@set:");
    if begins(&r, &set) {
        return Source::Printing(string_of(&strip_all_of(&r, &set)));
    }
    if begins(&r, &chars_of("mpcfill/")) {
        if contains_str(&r, "..") {
            return Source::Invalid;
        }
        return Source::Mpcfill(string_of(&r));
    }
    if same_chars(&r, &chars_of("@upload")) {
        return Source::Upload;
    }
    Source::Unknown
}

/// One paper printing as the cached prints search lists it.
pub struct PrintingIn {
    pub set: String,
    pub artist: String,
    pub released_at: String,
}

/// What a printing contributes: its upper-cased set code, artist and year
/// (the first four characters of its release date).
pub open spec fn printing_row(p: (Seq<char>, Seq<char>, Seq<char>)) -> (Seq<char>, Seq<char>, Seq<char>) {
    (uppercase(p.0), p.1, p.2.take(if p.2.len() < 4 { p.2.len() as int } else { 4 }))
}

/// The key a printing is told apart by: `SET|artist`.
pub open spec fn printing_key(r: (Seq<char>, Seq<char>, Seq<char>)) -> Seq<char> {
    r.0 + "|"@ + r.1
}

/// Whether the text `a` sorts before `b`, character by character (a proper
/// prefix sorts first). On `YYYY-MM-DD` dates this is "older than".
pub open spec fn text_before(a: Seq<char>, b: Seq<char>) -> bool
    decreases a.len(),
{
    if a.len() == 0 {
        b.len() > 0
    } else if b.len() == 0 {
        false
    } else if a[0] != b[0] {
        a[0] < b[0]
    } else {
        text_before(a.drop_first(), b.drop_first())
    }
}

/// `r` placed into the newest-first list `s`: before the first printing
/// released earlier than it, after all the others.
pub open spec fn insert_newest(
    s: Seq<(Seq<char>, Seq<char>, Seq<char>)>,
    r: (Seq<char>, Seq<char>, Seq<char>),
) -> Seq<(Seq<char>, Seq<char>, Seq<char>)>
    decreases s.len(),
{
    if s.len() == 0 {
        seq![r]
    } else if text_before(s[0].2, r.2) {
        seq![r] + s
    } else {
        seq![s[0]] + insert_newest(s.drop_first(), r)
    }
}

/// The printings ordered by release date, newest first; printings released
/// the same day keep the search's order.
pub open spec fn by_newest(ps: Seq<(Seq<char>, Seq<char>, Seq<char>)>) -> Seq<
    (Seq<char>, Seq<char>, Seq<char>),
>
    decreases ps.len(),
{
    if ps.len() == 0 {
        Seq::empty()
    } else {
        insert_newest(by_newest(ps.drop_last()), ps.last())
    }
}

/// Each printing with a set code, the first one of each `SET|artist` key, in
/// the order given.
pub open spec fn distinct_printings(ps: Seq<(Seq<char>, Seq<char>, Seq<char>)>) -> Seq<
    (Seq<char>, Seq<char>, Seq<char>),
>
    decreases ps.len(),
{
    if ps.len() == 0 {
        Seq::empty()
    } else {
        let prev = distinct_printings(ps.drop_last());
        let r = printing_row(ps.last());
        if r.0.len() == 0 || exists|i: int|
            0 <= i < prev.len() && #[trigger] printing_key(prev[i]) == printing_key(r) {
            prev
        } else {
            prev.push(r)
        }
    }
}

/// The alternative printings offered: newest set first (see [`by_newest`]),
/// deduplicated by `SET|artist` (see [`distinct_printings`]).
pub open spec fn printings_of(ps: Seq<(Seq<char>, Seq<char>, Seq<char>)>) -> Seq<
    (Seq<char>, Seq<char>, Seq<char>),
> {
    distinct_printings(by_newest(ps))
}

/// The view of the printings read.
pub open spec fn printings_view(v: Seq<PrintingIn>) -> Seq<(Seq<char>, Seq<char>, Seq<char>)> {
    v.map_values(|p: PrintingIn| (p.set@, p.artist@, p.released_at@))
}

/// The view of the printings offered.
pub open spec fn rows_view(v: Seq<(String, String, String)>) -> Seq<(Seq<char>, Seq<char>, Seq<char>)> {
    v.map_values(|r: (String, String, String)| (r.0@, r.1@, r.2@))
}

/// The view of printings held as characters.
pub open spec fn chars_view(v: Seq<(Vec<char>, Vec<char>, Vec<char>)>) -> Seq<(Seq<char>, Seq<char>, Seq<char>)> {
    v.map_values(|r: (Vec<char>, Vec<char>, Vec<char>)| (r.0@, r.1@, r.2@))
}

/// Whether the text `a` sorts before `b` (see [`text_before`]).
pub fn date_before(a: &Vec<char>, b: &Vec<char>) -> (res: bool)
    ensures
        res == text_before(a@, b@),
{
    let mut i: usize = 0;
    assert(a@.skip(0) =~= a@ && b@.skip(0) =~= b@);
    while i < a.len() && i < b.len()
        invariant
            i <= a.len(),
            i <= b.len(),
            text_before(a@, b@) == text_before(a@.skip(i as int), b@.skip(i as int)),
        decreases a.len() - i,
    {
        assert(a@.skip(i as int).drop_first() =~= a@.skip(i + 1));
        assert(b@.skip(i as int).drop_first() =~= b@.skip(i + 1));
        if a[i] != b[i] {
            return a[i] < b[i];
        }
        i += 1;
    }
    assert(a@.skip(i as int).len() == 0 || b@.skip(i as int).len() == 0);
    i < b.len()
}

proof fn lemma_insert_at(
    s: Seq<(Seq<char>, Seq<char>, Seq<char>)>,
    r: (Seq<char>, Seq<char>, Seq<char>),
    p: int,
)
    requires
        0 <= p <= s.len(),
        forall|q: int| 0 <= q < p ==> !text_before(#[trigger] s[q].2, r.2),
        p < s.len() ==> text_before(s[p].2, r.2),
    ensures
        insert_newest(s, r) == s.insert(p, r),
    decreases p,
{
    if p == 0 {
        if s.len() == 0 {
            assert(s.insert(0, r) =~= seq![r]);
        } else {
            assert(s.insert(0, r) =~= seq![r] + s);
        }
    } else {
        let t = s.drop_first();
        assert forall|q: int| 0 <= q < p - 1 implies !text_before(#[trigger] t[q].2, r.2) by {
            assert(t[q] == s[q + 1]);
        }
        if p < s.len() {
            assert(t[p - 1] == s[p]);
        }
        lemma_insert_at(t, r, p - 1);
        assert(!text_before(s[0].2, r.2));
        assert(seq![s[0]] + t.insert(p - 1, r) =~= s.insert(p, r));
    }
}

/// The printings in newest-first order (see [`by_newest`]), as characters.
pub fn newest_first(ps: &Vec<PrintingIn>) -> (res: Vec<(Vec<char>, Vec<char>, Vec<char>)>)
    ensures
        chars_view(res@) == by_newest(printings_view(ps@)),
{
    let ghost pv = printings_view(ps@);
    let mut out: Vec<(Vec<char>, Vec<char>, Vec<char>)> = Vec::new();
    let mut i: usize = 0;
    while i < ps.len()
        invariant
            i <= ps.len(),
            pv == printings_view(ps@),
            chars_view(out@) == by_newest(pv.take(i as int)),
        decreases ps.len() - i,
    {
        assert(pv.take(i + 1).drop_last() == pv.take(i as int));
        assert(pv.take(i + 1).last() == pv[i as int]);
        let r = (chars_of(ps[i].set.as_str()), chars_of(ps[i].artist.as_str()), chars_of(ps[i].released_at.as_str()));
        let ghost s = chars_view(out@);
        let ghost rv = (r.0@, r.1@, r.2@);
        assert(rv == pv[i as int]);
        let mut p: usize = 0;
        while p < out.len() && !date_before(&out[p].2, &r.2)
            invariant
                p <= out.len(),
                s == chars_view(out@),
                rv == (r.0@, r.1@, r.2@),
                forall|q: int| 0 <= q < p ==> !text_before(#[trigger] s[q].2, rv.2),
            decreases out.len() - p,
        {
            assert(s[p as int].2 == out@[p as int].2@);
            p += 1;
        }
        proof {
            if p < out.len() {
                assert(s[p as int].2 == out@[p as int].2@);
            }
            lemma_insert_at(s, rv, p as int);
        }
        out.insert(p, r);
        assert(chars_view(out@) =~= s.insert(p as int, rv));
        i += 1;
    }
    assert(pv.take(ps.len() as int) == pv);
    out
}

/// The alternative printings to offer (see [`printings_of`]).
pub fn printings_list(ps: &Vec<PrintingIn>) -> (res: Vec<(String, String, String)>)
    ensures
        rows_view(res@) == printings_of(printings_view(ps@)),
{
    let sorted = newest_first(ps);
    let ghost pv = chars_view(sorted@);
    let mut out: Vec<(String, String, String)> = Vec::new();
    let mut keys: Vec<Vec<char>> = Vec::new();
    let mut i: usize = 0;
    while i < sorted.len()
        invariant
            i <= sorted.len(),
            pv == chars_view(sorted@),
            rows_view(out@) == distinct_printings(pv.take(i as int)),
            keys@.len() == out@.len(),
            forall|k: int| 0 <= k < keys@.len() ==> #[trigger] keys@[k]@ == printing_key(rows_view(out@)[k]),
        decreases sorted.len() - i,
    {
        assert(pv.take(i + 1).drop_last() == pv.take(i as int));
        assert(pv.take(i + 1).last() == pv[i as int]);
        let set = chars_of(to_upper(string_of(&sorted[i].0).as_str()).as_str());
        let date = &sorted[i].2;
        let year = slice_chars(date, 0, if date.len() < 4 { date.len() } else { 4 });
        let artist = slice_chars(&sorted[i].1, 0, sorted[i].1.len());
        assert(sorted@[i as int].1@.subrange(0, sorted@[i as int].1@.len() as int) =~= sorted@[i as int].1@);
        let mut key = set.clone();
        assert(key@ == set@);
        push_str(&mut key, "|");
        push_chars(&mut key, &artist);
        let ghost r = printing_row(pv[i as int]);
        let ghost prev = distinct_printings(pv.take(i as int));
        assert(set@ == r.0 && artist@ == r.1 && year@ == r.2);
        assert(key@ == printing_key(r));
        let mut dup = false;
        let mut j: usize = 0;
        while j < keys.len()
            invariant
                j <= keys.len() == out@.len(),
                prev == rows_view(out@),
                forall|k: int| 0 <= k < keys@.len() ==> #[trigger] keys@[k]@ == printing_key(prev[k]),
                dup == exists|q: int| 0 <= q < j && #[trigger] printing_key(prev[q]) == key@,
            decreases keys.len() - j,
        {
            if same_chars(&keys[j], &key) {
                assert(printing_key(prev[j as int]) == key@);
                dup = true;
            }
            j += 1;
        }
        if set.len() > 0 && !dup {
            let ghost before = rows_view(out@);
            out.push((string_of(&set), string_of(&artist), string_of(&year)));
            keys.push(key);
            assert(rows_view(out@) =~= before.push(r));
        }
        i += 1;
    }
    assert(pv.take(sorted.len() as int) == pv);
    out
}

} // verus!

verus! {

/// The cardconjurer repository the frames, fonts and mana symbols come from.
pub open spec fn cc() -> Seq<char> {
    "https://raw.githubusercontent.com/Investigamer/cardconjurer/master"@
}

/// The mana-font repository.
pub open spec fn mana_repo() -> Seq<char> {
    "https://raw.githubusercontent.com/andrewgioia/mana/master"@
}

/// One `(url, file)` pair per name: `url_pre name url_post` saved as
/// `file_pre name file_post`.
pub open spec fn named(
    names: Seq<Seq<char>>,
    url_pre: Seq<char>,
    url_post: Seq<char>,
    file_pre: Seq<char>,
    file_post: Seq<char>,
) -> Seq<(Seq<char>, Seq<char>)> {
    names.map_values(|n: Seq<char>| (url_pre + n + url_post, file_pre + n + file_post))
}

/// The Seventh Edition frame letters.
pub open spec fn seventh_letters() -> Seq<Seq<char>> {
    seq!["w"@, "u"@, "b"@, "r"@, "g"@, "m"@, "a"@, "c"@, "l"@, "wl"@, "ul"@, "bl"@, "rl"@, "gl"@]
}

/// The Eighth Edition frame letters.
pub open spec fn eighth_letters() -> Seq<Seq<char>> {
    seventh_letters().push("ml"@)
}

/// The Eighth Edition region masks.
pub open spec fn mask_names() -> Seq<Seq<char>> {
    seq!["frame"@, "pinline"@, "type"@, "rules"@, "title"@]
}

/// The Eighth Edition P/T box letters.
pub open spec fn pt_letters() -> Seq<Seq<char>> {
    seq!["w"@, "u"@, "b"@, "r"@, "g"@, "m"@, "a"@, "l"@]
}

/// The named mana symbols (after the numbers 0 to 20).
pub open spec fn symbol_names() -> Seq<Seq<char>> {
    seq![
        "w"@, "u"@, "b"@, "r"@, "g"@, "c"@, "x"@, "s"@, "t"@, "untap"@, "e"@, "p"@, "wu"@, "wb"@,
        "ub"@, "ur"@, "br"@, "bg"@, "rg"@, "rw"@, "gw"@, "gu"@, "2w"@, "2u"@, "2b"@, "2r"@, "2g"@,
        "wp"@, "up"@, "bp"@, "rp"@, "gp"@, "hw"@, "hr"@,
    ]
}

/// Every mana symbol: the numbers 0 to 20, then the named ones.
pub open spec fn all_symbols() -> Seq<Seq<char>> {
    Seq::new(21, |n: int| decimal(n as nat)) + symbol_names()
}

/// Every asset the renderer downloads, as `(url, file under the assets
/// directory)`: the Seventh Edition frames and foil star, the Eighth Edition
/// frames, masks and P/T boxes, the fonts, the mana font and stylesheet, and
/// every mana symbol.
pub open spec fn assets_spec() -> Seq<(Seq<char>, Seq<char>)> {
    named(seventh_letters(), cc() + "/img/frames/seventh/regular/"@, ".png"@, "frames/"@, ".png"@)
        + seq![(cc() + "/img/frames/seventh/foilStar.svg"@, "foil/star.svg"@)]
        + named(eighth_letters(), cc() + "/img/frames/8th/"@, ".png"@, "frames8/"@, ".png"@)
        + named(mask_names(), cc() + "/img/frames/8th/"@, ".png"@, "frames8/mask_"@, ".png"@)
        + named(pt_letters(), cc() + "/img/frames/8th/pt/"@, ".png"@, "frames8/pt/"@, ".png"@)
        + seq![
        (cc() + "/fonts/goudy-medieval.ttf"@, "fonts/goudy-medieval.ttf"@),
        (cc() + "/fonts/mplantin.ttf"@, "fonts/mplantin.ttf"@),
        (cc() + "/fonts/mplantin-i.ttf"@, "fonts/mplantin-italic.ttf"@),
        (cc() + "/fonts/matrix.ttf"@, "fonts/matrix.ttf"@),
        (mana_repo() + "/fonts/mana.ttf"@, "fonts/mana.ttf"@),
        (mana_repo() + "/css/mana.css"@, "fonts/mana.css"@),
    ] + named(all_symbols(), cc() + "/img/manaSymbols/"@, ".svg"@, "mana/"@, ".svg"@)
}

/// The view of a list of asset pairs.
pub open spec fn pairs_view(v: Seq<(String, String)>) -> Seq<(Seq<char>, Seq<char>)> {
    v.map_values(|p: (String, String)| (p.0@, p.1@))
}

fn push_named(
    out: &mut Vec<(String, String)>,
    names: &Vec<Vec<char>>,
    url_pre: &Vec<char>,
    url_post: &str,
    file_pre: &str,
    file_post: &str,
)
    ensures
        pairs_view(final(out)@) == pairs_view(old(out)@) + named(
            names@.map_values(|n: Vec<char>| n@),
            url_pre@,
            url_post@,
            file_pre@,
            file_post@,
        ),
{
    let ghost start = pairs_view(out@);
    let ghost nv = names@.map_values(|n: Vec<char>| n@);
    let ghost all = named(nv, url_pre@, url_post@, file_pre@, file_post@);
    let mut i: usize = 0;
    while i < names.len()
        invariant
            i <= names.len(),
            nv == names@.map_values(|n: Vec<char>| n@),
            all == named(nv, url_pre@, url_post@, file_pre@, file_post@),
            pairs_view(out@) == start + all.take(i as int),
        decreases names.len() - i,
    {
        let mut url = url_pre.clone();
        assert(url@ == url_pre@);
        push_chars(&mut url, &names[i]);
        push_str(&mut url, url_post);
        let mut file = chars_of(file_pre);
        push_chars(&mut file, &names[i]);
        push_str(&mut file, file_post);
        let ghost pre = pairs_view(out@);
        out.push((string_of(&url), string_of(&file)));
        assert(nv[i as int] == names@[i as int]@);
        assert(pairs_view(out@) =~= pre.push(all[i as int]));
        assert(all.take(i + 1) =~= all.take(i as int).push(all[i as int]));
        i += 1;
    }
    assert(all.take(names.len() as int) =~= all);
}

fn words_of(ws: Vec<&'static str>) -> (res: Vec<Vec<char>>)
    ensures
        res@.map_values(|n: Vec<char>| n@) == ws@.map_values(|w: &'static str| w@),
{
    let mut res: Vec<Vec<char>> = Vec::new();
    let mut i: usize = 0;
    while i < ws.len()
        invariant
            i <= ws.len(),
            res@.len() == i,
            forall|k: int| 0 <= k < i ==> #[trigger] res@[k]@ == ws@[k]@,
        decreases ws.len() - i,
    {
        res.push(chars_of(ws[i]));
        i += 1;
    }
    assert(res@.map_values(|n: Vec<char>| n@) =~= ws@.map_values(|w: &'static str| w@));
    res
}

fn push_pair(out: &mut Vec<(String, String)>, url: &Vec<char>, file: &str)
    ensures
        pairs_view(final(out)@) == pairs_view(old(out)@).push((url@, file@)),
{
    let ghost pre = pairs_view(out@);
    out.push((string_of(url), string_of(&chars_of(file))));
    assert(pairs_view(out@) =~= pre.push((url@, file@)));
}

fn with(base: &Vec<char>, tail: &str) -> (res: Vec<char>)
    ensures
        res@ == base@ + tail@,
{
    let mut v = base.clone();
    assert(v@ == base@);
    push_str(&mut v, tail);
    v
}

/// Every asset the renderer downloads (see [`assets_spec`]).
pub fn asset_list() -> (res: Vec<(String, String)>)
    ensures
        pairs_view(res@) == assets_spec(),
{
    let cc_v = chars_of("https://raw.githubusercontent.com/Investigamer/cardconjurer/master");
    let mana_v = chars_of("https://raw.githubusercontent.com/andrewgioia/mana/master");
    let seventh = words_of(vec!["w", "u", "b", "r", "g", "m", "a", "c", "l", "wl", "ul", "bl", "rl", "gl"]);
    let eighth = words_of(vec!["w", "u", "b", "r", "g", "m", "a", "c", "l", "wl", "ul", "bl", "rl", "gl", "ml"]);
    let masks = words_of(vec!["frame", "pinline", "type", "rules", "title"]);
    let pts = words_of(vec!["w", "u", "b", "r", "g", "m", "a", "l"]);
    let named_syms = vec![
        "w", "u", "b", "r", "g", "c", "x", "s", "t", "untap", "e", "p", "wu", "wb", "ub", "ur",
        "br", "bg", "rg", "rw", "gw", "gu", "2w", "2u", "2b", "2r", "2g", "wp", "up", "bp", "rp",
        "gp", "hw", "hr",
    ];
    assert(named_syms@.map_values(|w: &'static str| w@) =~= symbol_names());
    let mut syms: Vec<Vec<char>> = Vec::new();
    let mut n: u64 = 0;
    while n <= 20
        invariant
            n <= 21,
            syms@.len() == n,
            forall|k: int| 0 <= k < n ==> #[trigger] syms@[k]@ == decimal(k as nat),
        decreases 21 - n,
    {
        syms.push(base_digits(n, 10));
        n += 1;
    }
    let more = words_of(named_syms);
    let ghost s0 = syms@.map_values(|v: Vec<char>| v@);
    assert(s0 =~= Seq::new(21, |k: int| decimal(k as nat)));
    let mut k: usize = 0;
    while k < more.len()
        invariant
            k <= more.len(),
            syms@.map_values(|v: Vec<char>| v@) == s0 + more@.map_values(|v: Vec<char>| v@).take(k as int),
        decreases more.len() - k,
    {
        let ghost pre = syms@.map_values(|v: Vec<char>| v@);
        syms.push(more[k].clone());
        assert(syms@.map_values(|v: Vec<char>| v@) =~= pre.push(more@[k as int]@));
        assert(more@.map_values(|v: Vec<char>| v@).take(k + 1) =~= more@.map_values(|v: Vec<char>| v@).take(
            k as int,
        ).push(more@[k as int]@));
        k += 1;
    }
    assert(more@.map_values(|v: Vec<char>| v@).take(more.len() as int) =~= more@.map_values(
        |v: Vec<char>| v@,
    ));
    proof {
        assert(seventh@.map_values(|n: Vec<char>| n@) =~= seventh_letters());
        assert(eighth@.map_values(|n: Vec<char>| n@) =~= eighth_letters());
        assert(masks@.map_values(|n: Vec<char>| n@) =~= mask_names());
        assert(pts@.map_values(|n: Vec<char>| n@) =~= pt_letters());
    }
    let mut v: Vec<(String, String)> = Vec::new();
    push_named(&mut v, &seventh, &with(&cc_v, "/img/frames/seventh/regular/"), ".png", "frames/", ".png");
    push_pair(&mut v, &with(&cc_v, "/img/frames/seventh/foilStar.svg"), "foil/star.svg");
    push_named(&mut v, &eighth, &with(&cc_v, "/img/frames/8th/"), ".png", "frames8/", ".png");
    push_named(&mut v, &masks, &with(&cc_v, "/img/frames/8th/"), ".png", "frames8/mask_", ".png");
    push_named(&mut v, &pts, &with(&cc_v, "/img/frames/8th/pt/"), ".png", "frames8/pt/", ".png");
    push_pair(&mut v, &with(&cc_v, "/fonts/goudy-medieval.ttf"), "fonts/goudy-medieval.ttf");
    push_pair(&mut v, &with(&cc_v, "/fonts/mplantin.ttf"), "fonts/mplantin.ttf");
    push_pair(&mut v, &with(&cc_v, "/fonts/mplantin-i.ttf"), "fonts/mplantin-italic.ttf");
    push_pair(&mut v, &with(&cc_v, "/fonts/matrix.ttf"), "fonts/matrix.ttf");
    push_pair(&mut v, &with(&mana_v, "/fonts/mana.ttf"), "fonts/mana.ttf");
    push_pair(&mut v, &with(&mana_v, "/css/mana.css"), "fonts/mana.css");
    push_named(&mut v, &syms, &with(&cc_v, "/img/manaSymbols/"), ".svg", "mana/", ".svg");
    assert(pairs_view(v@) =~= assets_spec());
    v
}

} // verus!

verus! {

/// Label words of proxies that are not plain prints.
pub open spec fn fancy_words() -> Seq<Seq<char>> {
    seq!["extended"@, "full art"@, "fullart"@, "textless"@, "showcase"@, "borderless"@, "alt"@]
}

/// A proxy label naming a non-plain print: its lower-cased text holds one of
/// the [`fancy_words`].
pub open spec fn fancy_label(label: Seq<char>) -> bool {
    exists|i: int| 0 <= i < fancy_words().len() && has_infix(crate::text::lowercase(label), #[trigger] fancy_words()[i])
}

/// Whether a proxy label names a non-plain print (see [`fancy_label`]).
pub fn is_fancy_label(label: &str) -> (b: bool)
    ensures
        b == fancy_label(label@),
{
    has_fancy_word(&crate::text::lower_vec(&chars_of(label)))
}

/// Whether an already lower-cased label holds one of the [`fancy_words`].
pub fn has_fancy_word(low: &Vec<char>) -> (b: bool)
    ensures
        b == exists|i: int| 0 <= i < fancy_words().len() && has_infix(low@, #[trigger] fancy_words()[i]),
{
    let words: Vec<&'static str> = vec!["extended", "full art", "fullart", "textless", "showcase", "borderless", "alt"];
    assert(words@.map_values(|w: &'static str| w@) =~= fancy_words());
    let mut i: usize = 0;
    while i < words.len()
        invariant
            i <= words.len(),
            words@.map_values(|w: &'static str| w@) == fancy_words(),
            forall|k: int| 0 <= k < i ==> !has_infix(low@, #[trigger] fancy_words()[k]),
        decreases words.len() - i,
    {
        assert(fancy_words()[i as int] == words@[i as int]@);
        if contains_str(&low, words[i]) {
            return true;
        }
        i += 1;
    }
    false
}

/// Whether candidate `a` is tried before candidate `b`: plain prints before
/// the others, then higher DPI first, then the search's own order.
pub open spec fn tried_before(fancy: Seq<bool>, dpi: Seq<i64>, a: int, b: int) -> bool {
    (!fancy[a] && fancy[b]) || (fancy[a] == fancy[b] && (dpi[a] > dpi[b] || (dpi[a] == dpi[b] && a < b)))
}

/// Position `i` occurs in `s`.
pub open spec fn placed(s: Seq<usize>, i: int) -> bool {
    exists|k: int| 0 <= k < s.len() && s[k] == i
}

/// The order proxies are tried in (positions of the candidates): every
/// candidate once, each before the ones it ranks ahead of (see [`tried_before`]).
pub fn candidate_order(fancy: &Vec<bool>, dpi: &Vec<i64>) -> (res: Vec<usize>)
    requires
        fancy@.len() == dpi@.len(),
    ensures
        res@.len() == fancy@.len(),
        forall|k: int| 0 <= k < res@.len() ==> res@[k] < fancy@.len(),
        forall|a: int, b: int|
            0 <= a < b < res@.len() ==> tried_before(fancy@, dpi@, #[trigger] res@[a] as int, #[trigger] res@[b] as int),
        forall|i: int| 0 <= i < fancy@.len() ==> #[trigger] placed(res@, i),
{
    let n = fancy.len();
    let mut res: Vec<usize> = Vec::new();
    let mut i: usize = 0;
    while i < n
        invariant
            i <= n == fancy@.len() == dpi@.len(),
            res@.len() == i,
            forall|k: int| 0 <= k < res@.len() ==> res@[k] < i,
            forall|a: int, b: int|
                0 <= a < b < res@.len() ==> tried_before(fancy@, dpi@, #[trigger] res@[a] as int, #[trigger] res@[b] as int),
            forall|j: int| 0 <= j < i ==> #[trigger] placed(res@, j),
        decreases n - i,
    {
        let mut p: usize = 0;
        while p < res.len() && !((!fancy[i] && fancy[res[p]]) || (fancy[i] == fancy[res[p]] && dpi[i] > dpi[res[p]]))
            invariant
                p <= res@.len() == i,
                i < n == fancy@.len() == dpi@.len(),
                forall|k: int| 0 <= k < res@.len() ==> res@[k] < i,
                forall|q: int| 0 <= q < p ==> tried_before(fancy@, dpi@, #[trigger] res@[q] as int, i as int),
            decreases res@.len() - p,
        {
            p += 1;
        }
        let ghost old_res = res@;
        proof {
            if p < old_res.len() {
                assert(tried_before(fancy@, dpi@, i as int, old_res[p as int] as int));
                assert forall|q: int| p <= q < old_res.len() implies tried_before(
                    fancy@,
                    dpi@,
                    i as int,
                    old_res[q] as int,
                ) by {
                    if q > p {
                        assert(tried_before(fancy@, dpi@, old_res[p as int] as int, old_res[q] as int));
                    }
                }
            }
        }
        res.insert(p, i);
        assert forall|a: int, b: int| 0 <= a < b < res@.len() implies tried_before(
            fancy@,
            dpi@,
            #[trigger] res@[a] as int,
            #[trigger] res@[b] as int,
        ) by {
            if b < p {
                assert(res@[a] == old_res[a] && res@[b] == old_res[b]);
            } else if b == p {
                assert(res@[a] == old_res[a]);
            } else if a == p {
                assert(res@[b] == old_res[b - 1]);
            } else if a < p {
                assert(res@[a] == old_res[a] && res@[b] == old_res[b - 1]);
            } else {
                assert(res@[a] == old_res[a - 1] && res@[b] == old_res[b - 1]);
            }
        }
        assert forall|j: int| 0 <= j < i + 1 implies #[trigger] placed(res@, j) by {
            if j == i {
                assert(res@[p as int] == j);
            } else {
                assert(placed(old_res, j));
                let k = choose|k: int| 0 <= k < old_res.len() && #[trigger] old_res[k] == j;
                if k < p {
                    assert(res@[k] == j);
                } else {
                    assert(res@[k + 1] == j);
                }
            }
        }
        i += 1;
    }
    res
}

} // verus!
