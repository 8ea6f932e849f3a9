//! The text view of one card: each distinct face with its cost, type, stats,
//! rules text and popularity, then its rulings.

use vstd::prelude::*;
use crate::text::{
    chars_of, i64_digits, join, join_chars, push_chars, push_str, same_chars, signed_decimal,
    split_chars, split_on, string_of,
};

verus! {

/// One face as the card view reads it. `mv_text` is the mana value as shown
/// (`  (MV 3)`), empty when the face has none.
pub struct FaceInfo {
    pub display_name: String,
    pub cost: Option<String>,
    pub mv_text: String,
    pub type_line: Option<String>,
    pub power: Option<String>,
    pub toughness: Option<String>,
    pub loyalty: Option<String>,
    pub defense: Option<String>,
    pub text: Option<String>,
    pub rank: Option<i64>,
    pub keywords: Option<String>,
    pub makes: Option<String>,
}

/// An optional string's view.
pub open spec fn o(s: Option<String>) -> Option<Seq<char>> {
    match s {
        Some(t) => Some(t@),
        None => None,
    }
}

/// `[x]` when present, else nothing.
pub open spec fn one(x: Option<Seq<char>>) -> Seq<Seq<char>> {
    match x {
        Some(v) => seq![v],
        None => Seq::empty(),
    }
}

/// The stats of a face: `P/T` when it has both, `Loyalty L`, `Defense D`.
pub open spec fn stats(f: FaceInfo) -> Seq<Seq<char>> {
    (match (f.power, f.toughness) {
        (Some(p), Some(t)) => seq![p@ + "/"@ + t@],
        _ => Seq::empty(),
    }) + one(
        match f.loyalty {
            Some(l) => Some("Loyalty "@ + l@),
            None => None,
        },
    ) + one(
        match f.defense {
            Some(d) => Some("Defense "@ + d@),
            None => None,
        },
    )
}

/// The extras of a face: its EDHREC rank, keywords and the mana it makes.
pub open spec fn extras(f: FaceInfo) -> Seq<Seq<char>> {
    one(
        match f.rank {
            Some(r) => Some("EDHREC #"@ + signed_decimal(r as int)),
            None => None,
        },
    ) + one(
        match f.keywords {
            Some(k) => Some("keywords: "@ + k@),
            None => None,
        },
    ) + one(
        match f.makes {
            Some(m) => Some("makes: "@ + m@),
            None => None,
        },
    )
}

/// The lines of one face: a blank line; the name with its cost and mana
/// value; the type line; the stats; each rules-text line indented; the
/// extras in brackets.
pub open spec fn face_lines(f: FaceInfo) -> Seq<Seq<char>> {
    seq![
        Seq::empty(),
        f.display_name@ + (match f.cost {
            Some(c) => "  "@ + c@,
            None => Seq::empty(),
        }) + f.mv_text@,
    ] + one(
        match f.type_line {
            Some(t) => Some("  "@ + t@),
            None => None,
        },
    ) + (if stats(f).len() > 0 {
        seq!["  "@ + join(stats(f), "  "@)]
    } else {
        Seq::empty()
    }) + (match f.text {
        Some(t) => split_on(t@, '\n').map_values(|l: Seq<char>| "    "@ + l),
        None => Seq::empty(),
    }) + (if extras(f).len() > 0 {
        seq!["  ["@ + join(extras(f), " | "@) + "]"@]
    } else {
        Seq::empty()
    })
}

fn opt_line(prefix: &str, x: &Option<String>) -> (res: Vec<Vec<char>>)
    ensures
        res@.map_values(|p: Vec<char>| p@) == one(
            match x {
                Some(v) => Some(prefix@ + v@),
                None => None,
            },
        ),
{
    let mut res: Vec<Vec<char>> = Vec::new();
    if let Some(v) = x {
        let mut l = chars_of(prefix);
        push_chars(&mut l, &chars_of(v.as_str()));
        res.push(l);
    }
    assert(res@.map_values(|p: Vec<char>| p@) =~= one(
        match x {
            Some(v) => Some(prefix@ + v@),
            None => None,
        },
    ));
    res
}

fn append_lines(a: &mut Vec<Vec<char>>, b: Vec<Vec<char>>)
    ensures
        final(a)@.map_values(|p: Vec<char>| p@) == old(a)@.map_values(|p: Vec<char>| p@) + b@.map_values(
            |p: Vec<char>| p@,
        ),
{
    let ghost a0 = a@.map_values(|p: Vec<char>| p@);
    let ghost bv = b@.map_values(|p: Vec<char>| p@);
    let mut i: usize = 0;
    let n = b.len();
    while i < n
        invariant
            i <= n == b.len(),
            bv == b@.map_values(|p: Vec<char>| p@),
            a@.map_values(|p: Vec<char>| p@) == a0 + bv.take(i as int),
        decreases n - i,
    {
        let x = slice_all(&b[i]);
        assert(bv[i as int] == b@[i as int]@);
        let ghost pre = a@.map_values(|p: Vec<char>| p@);
        a.push(x);
        assert(a@.map_values(|p: Vec<char>| p@) =~= pre.push(bv[i as int]));
        assert(bv.take(i + 1) =~= bv.take(i as int).push(bv[i as int]));
        assert(a@.map_values(|p: Vec<char>| p@) =~= a0 + bv.take(i + 1));
        i += 1;
    }
    assert(bv.take(n as int) =~= bv);
}

fn slice_all(v: &Vec<char>) -> (r: Vec<char>)
    ensures
        r@ == v@,
{
    let r = crate::text::slice_chars(v, 0, v.len());
    assert(v@.subrange(0, v@.len() as int) =~= v@);
    r
}

/// The lines of one face (see [`face_lines`]).
pub fn face_block(f: &FaceInfo) -> (res: Vec<String>)
    ensures
        crate::text::views(res@) == face_lines(*f),
{
    let mut head = chars_of(f.display_name.as_str());
    if let Some(c) = &f.cost {
        push_str(&mut head, "  ");
        push_chars(&mut head, &chars_of(c.as_str()));
    }
    assert(head@ == f.display_name@ + (match f.cost {
        Some(c) => "  "@ + c@,
        None => Seq::empty(),
    }));
    push_chars(&mut head, &chars_of(f.mv_text.as_str()));
    let empty: Vec<char> = Vec::new();
    assert(empty@ =~= Seq::<char>::empty());
    let mut lines: Vec<Vec<char>> = Vec::new();
    lines.push(empty);
    lines.push(head);
    assert(lines@.map_values(|p: Vec<char>| p@) =~= seq![
        Seq::<char>::empty(),
        f.display_name@ + (match f.cost {
            Some(c) => "  "@ + c@,
            None => Seq::empty(),
        }) + f.mv_text@,
    ]);
    append_lines(&mut lines, opt_line("  ", &f.type_line));
    let mut stat: Vec<Vec<char>> = Vec::new();
    if let (Some(p), Some(t)) = (&f.power, &f.toughness) {
        let mut s = chars_of(p.as_str());
        push_str(&mut s, "/");
        push_chars(&mut s, &chars_of(t.as_str()));
        stat.push(s);
    }
    append_lines(&mut stat, opt_line("Loyalty ", &f.loyalty));
    append_lines(&mut stat, opt_line("Defense ", &f.defense));
    assert(stat@.map_values(|p: Vec<char>| p@) =~= stats(*f));
    if stat.len() > 0 {
        let mut l = chars_of("  ");
        push_chars(&mut l, &join_chars(&stat, &chars_of("  ")));
        let ghost before = lines@.map_values(|p: Vec<char>| p@);
        lines.push(l);
        assert(lines@.map_values(|p: Vec<char>| p@) =~= before + seq!["  "@ + join(stats(*f), "  "@)]);
    }
    let ghost before_text = lines@.map_values(|p: Vec<char>| p@);
    if let Some(t) = &f.text {
        let parts = split_chars(&chars_of(t.as_str()), '\n');
        let mut tl: Vec<Vec<char>> = Vec::new();
        let mut k: usize = 0;
        while k < parts.len()
            invariant
                k <= parts.len(),
                tl@.len() == k,
                forall|j: int| 0 <= j < k ==> #[trigger] tl@[j]@ == "    "@ + parts@[j]@,
            decreases parts.len() - k,
        {
            let mut l = chars_of("    ");
            push_chars(&mut l, &parts[k]);
            tl.push(l);
            k += 1;
        }
        assert(tl@.map_values(|p: Vec<char>| p@) =~= split_on(t@, '\n').map_values(
            |l: Seq<char>| "    "@ + l,
        ));
        append_lines(&mut lines, tl);
    }
    let mut extra: Vec<Vec<char>> = Vec::new();
    if let Some(r) = f.rank {
        let mut s = chars_of("EDHREC #");
        push_chars(&mut s, &i64_digits(r));
        extra.push(s);
    }
    assert(extra@.map_values(|p: Vec<char>| p@) =~= one(
        match f.rank {
            Some(r) => Some("EDHREC #"@ + signed_decimal(r as int)),
            None => None,
        },
    ));
    append_lines(&mut extra, opt_line("keywords: ", &f.keywords));
    append_lines(&mut extra, opt_line("makes: ", &f.makes));
    assert(extra@.map_values(|p: Vec<char>| p@) =~= extras(*f));
    if extra.len() > 0 {
        let mut l = chars_of("  [");
        push_chars(&mut l, &join_chars(&extra, &chars_of(" | ")));
        push_str(&mut l, "]");
        let ghost before = lines@.map_values(|p: Vec<char>| p@);
        lines.push(l);
        assert(lines@.map_values(|p: Vec<char>| p@) =~= before + seq![
            "  ["@ + join(extras(*f), " | "@) + "]"@,
        ]);
    }
    assert(lines@.map_values(|p: Vec<char>| p@) =~= face_lines(*f));
    let mut out: Vec<String> = Vec::new();
    let mut i: usize = 0;
    while i < lines.len()
        invariant
            i <= lines.len(),
            out@.len() == i,
            forall|j: int| 0 <= j < i ==> #[trigger] out@[j]@ == lines@[j]@,
        decreases lines.len() - i,
    {
        out.push(string_of(&lines[i]));
        i += 1;
    }
    assert(crate::text::views(out@) =~= lines@.map_values(|p: Vec<char>| p@));
    out
}

/// The faces to show: each display name once, at its first face.
pub open spec fn distinct_faces(faces: Seq<FaceInfo>) -> Seq<FaceInfo>
    decreases faces.len(),
{
    if faces.len() == 0 {
        Seq::empty()
    } else {
        let prev = distinct_faces(faces.drop_last());
        if exists|i: int| 0 <= i < prev.len() && #[trigger] prev[i].display_name@ == faces.last().display_name@ {
            prev
        } else {
            prev.push(faces.last())
        }
    }
}

/// The lines of the faces, one block after another.
pub open spec fn blocks(faces: Seq<FaceInfo>) -> Seq<Seq<char>>
    decreases faces.len(),
{
    if faces.len() == 0 {
        Seq::empty()
    } else {
        blocks(faces.drop_last()) + face_lines(faces.last())
    }
}

/// A ruling's line: `    [date] text`.
pub open spec fn ruling_line(r: (Seq<char>, Seq<char>)) -> Seq<char> {
    "    ["@ + r.0 + "] "@ + r.1
}

/// The card view: the distinct faces' blocks, then (when there are any) a
/// rulings heading and one line per ruling; `(no card found)` alone when no
/// face matched.
pub open spec fn card_view_lines(faces: Seq<FaceInfo>, rulings: Seq<(Seq<char>, Seq<char>)>) -> Seq<Seq<char>> {
    if faces.len() == 0 {
        seq!["(no card found)"@]
    } else {
        blocks(distinct_faces(faces)) + (if rulings.len() > 0 {
            seq![Seq::empty(), "  Rulings:"@] + rulings.map_values(|r: (Seq<char>, Seq<char>)| ruling_line(r))
        } else {
            Seq::empty()
        })
    }
}

fn push_strings(out: &mut Vec<String>, more: &Vec<String>)
    ensures
        crate::text::views(final(out)@) == crate::text::views(old(out)@) + crate::text::views(more@),
{
    let ghost o0 = crate::text::views(out@);
    let mut i: usize = 0;
    while i < more.len()
        invariant
            i <= more.len(),
            crate::text::views(out@) == o0 + crate::text::views(more@).take(i as int),
        decreases more.len() - i,
    {
        let ghost pre = crate::text::views(out@);
        out.push(string_of(&chars_of(more[i].as_str())));
        assert(crate::text::views(out@) =~= pre.push(more@[i as int]@));
        assert(crate::text::views(more@).take(i + 1) =~= crate::text::views(more@).take(i as int).push(
            more@[i as int]@,
        ));
        i += 1;
    }
    assert(crate::text::views(more@).take(more.len() as int) =~= crate::text::views(more@));
}

/// The text view of a card from its matching faces (in name and face order)
/// and its rulings as `(date, text)` (see [`card_view_lines`]).
pub fn card_view(faces: &Vec<FaceInfo>, rulings: &Vec<(String, String)>) -> (res: Vec<String>)
    ensures
        crate::text::views(res@) == card_view_lines(
            faces@,
            rulings@.map_values(|r: (String, String)| (r.0@, r.1@)),
        ),
{
    let mut out: Vec<String> = Vec::new();
    if faces.len() == 0 {
        out.push(string_of(&chars_of("(no card found)")));
        assert(crate::text::views(out@) =~= seq!["(no card found)"@]);
        return out;
    }
    let mut seen: Vec<Vec<char>> = Vec::new();
    let mut shown: Vec<usize> = Vec::new();
    let ghost mut kept: Seq<FaceInfo> = Seq::empty();
    let mut i: usize = 0;
    while i < faces.len()
        invariant
            i <= faces.len(),
            kept == distinct_faces(faces@.take(i as int)),
            seen@.len() == kept.len(),
            forall|k: int| 0 <= k < kept.len() ==> #[trigger] seen@[k]@ == kept[k].display_name@,
            crate::text::views(out@) == blocks(kept),
        decreases faces.len() - i,
    {
        assert(faces@.take(i + 1).drop_last() == faces@.take(i as int));
        assert(faces@.take(i + 1).last() == faces@[i as int]);
        let f = &faces[i];
        let dn = chars_of(f.display_name.as_str());
        let mut dup = false;
        let mut j: usize = 0;
        while j < seen.len()
            invariant
                j <= seen.len() == kept.len(),
                forall|k: int| 0 <= k < kept.len() ==> #[trigger] seen@[k]@ == kept[k].display_name@,
                dn@ == f.display_name@,
                dup == exists|q: int| 0 <= q < j && #[trigger] kept[q].display_name@ == f.display_name@,
            decreases seen.len() - j,
        {
            if same_chars(&seen[j], &dn) {
                assert(kept[j as int].display_name@ == f.display_name@);
                dup = true;
            }
            j += 1;
        }
        if !dup {
            let block = face_block(f);
            push_strings(&mut out, &block);
            seen.push(dn);
            proof {
                assert(kept.push(*f).drop_last() == kept);
                assert(kept.push(*f).last() == *f);
                kept = kept.push(*f);
            }
        }
        i += 1;
    }
    assert(faces@.take(faces.len() as int) == faces@);
    if rulings.len() > 0 {
        let ghost before = crate::text::views(out@);
        out.push(String::new());
        out.push(string_of(&chars_of("  Rulings:")));
        let ghost rv = rulings@.map_values(|r: (String, String)| (r.0@, r.1@));
        let ghost mid = crate::text::views(out@);
        assert(mid =~= before + seq![Seq::<char>::empty(), "  Rulings:"@]);
        let mut k: usize = 0;
        while k < rulings.len()
            invariant
                k <= rulings.len(),
                rv == rulings@.map_values(|r: (String, String)| (r.0@, r.1@)),
                crate::text::views(out@) == mid + rv.take(k as int).map_values(
                    |r: (Seq<char>, Seq<char>)| ruling_line(r),
                ),
            decreases rulings.len() - k,
        {
            let mut l = chars_of("    [");
            push_chars(&mut l, &chars_of(rulings[k].0.as_str()));
            push_str(&mut l, "] ");
            push_chars(&mut l, &chars_of(rulings[k].1.as_str()));
            let ghost pre = crate::text::views(out@);
            out.push(string_of(&l));
            assert(rv[k as int] == (rulings@[k as int].0@, rulings@[k as int].1@));
            assert(l@ == ruling_line(rv[k as int]));
            assert(crate::text::views(out@) =~= pre.push(l@));
            assert(rv.take(k + 1).map_values(|r: (Seq<char>, Seq<char>)| ruling_line(r)) =~= rv.take(
                k as int,
            ).map_values(|r: (Seq<char>, Seq<char>)| ruling_line(r)).push(ruling_line(rv[k as int])));
            assert(crate::text::views(out@) =~= mid + rv.take(k + 1).map_values(
                |r: (Seq<char>, Seq<char>)| ruling_line(r),
            ));
            k += 1;
        }
        assert(rv.take(rulings.len() as int) =~= rv);
    }
    out
}

} // verus!
