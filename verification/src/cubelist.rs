//! The plain-text card list a cube is seeded from: one card name per line,
//! blank lines and `#` comments ignored, a name listed N times printed N times.

use vstd::prelude::*;
use crate::text::{
    chars_of, lemma_split_concat, lemma_split_join, lemma_split_nonempty, lemma_split_pieces,
    lemma_split_whole, lemma_trim_drop_blank, lemma_trimmed_last, slice_chars, split_chars,
    split_on, string_of, trim, trim_vec,
};

verus! {

/// `s` without one trailing carriage return.
pub open spec fn strip_cr(s: Seq<char>) -> Seq<char> {
    if s.len() > 0 && s.last() == '\r' {
        s.drop_last()
    } else {
        s
    }
}

/// std `str::lines`: the pieces between `\n`s, each without the `\r` of a
/// `\r\n` ending; a final empty piece (text ending in `\n`, or empty text) is
/// not a line.
pub open spec fn text_lines(s: Seq<char>) -> Seq<Seq<char>> {
    let parts = split_on(s, '\n');
    let body = parts.drop_last().map_values(|p: Seq<char>| strip_cr(p));
    if parts.last().len() == 0 {
        body
    } else {
        body.push(parts.last())
    }
}

/// The lines of `s` (std `str::lines`).
pub fn lines_of(s: &Vec<char>) -> (res: Vec<Vec<char>>)
    ensures
        res@.map_values(|p: Vec<char>| p@) == text_lines(s@),
{
    let parts = split_chars(s, '\n');
    proof {
        lemma_split_nonempty(s@, '\n');
    }
    let ghost ps = parts@.map_values(|p: Vec<char>| p@);
    let n = parts.len();
    let mut res: Vec<Vec<char>> = Vec::new();
    let mut k: usize = 0;
    while k + 1 < n
        invariant
            n == parts.len() >= 1,
            ps == parts@.map_values(|p: Vec<char>| p@),
            k + 1 <= n,
            res@.len() == k,
            forall|j: int| 0 <= j < k ==> #[trigger] res@[j]@ == strip_cr(ps[j]),
        decreases n - k,
    {
        let p = &parts[k];
        let piece = if p.len() > 0 && p[p.len() - 1] == '\r' {
            slice_chars(p, 0, p.len() - 1)
        } else {
            slice_chars(p, 0, p.len())
        };
        assert(p@.subrange(0, p.len() as int) == p@);
        assert(p@.subrange(0, p.len() - 1) == p@.drop_last());
        res.push(piece);
        k += 1;
    }
    let last = &parts[n - 1];
    let ghost body = ps.drop_last().map_values(|p: Seq<char>| strip_cr(p));
    assert(res@.map_values(|p: Vec<char>| p@) =~= body);
    if last.len() > 0 {
        res.push(slice_chars(last, 0, last.len()));
        assert(last@.subrange(0, last.len() as int) == last@);
        assert(res@.map_values(|p: Vec<char>| p@) =~= body.push(ps.last()));
    }
    res
}

/// A trimmed line that names a card: not blank and not a `#` comment.
pub open spec fn is_entry(n: Seq<char>) -> bool {
    n.len() > 0 && n[0] != '#'
}

/// The trimmed card names of `lines`, in order, comments and blanks skipped.
pub open spec fn entries(lines: Seq<Seq<char>>) -> Seq<Seq<char>>
    decreases lines.len(),
{
    if lines.len() == 0 {
        Seq::empty()
    } else {
        let rest = entries(lines.drop_last());
        let n = trim(lines.last());
        if is_entry(n) {
            rest.push(n)
        } else {
            rest
        }
    }
}

/// The card names of a list file's text, one per listed line.
pub open spec fn list_names(text: Seq<char>) -> Seq<Seq<char>> {
    entries(text_lines(text))
}

/// The position of the last entry of `t` named `n`, or -1.
pub open spec fn slot(t: Seq<(Seq<char>, int)>, n: Seq<char>) -> int
    decreases t.len(),
{
    if t.len() == 0 {
        -1
    } else if t.last().0 == n {
        t.len() - 1
    } else {
        slot(t.drop_last(), n)
    }
}

/// Counts one more `n`: its entry's quantity goes up, or a new entry
/// `(n, 1)` is appended.
pub open spec fn bump(t: Seq<(Seq<char>, int)>, n: Seq<char>) -> Seq<(Seq<char>, int)> {
    let k = slot(t, n);
    if k >= 0 {
        t.update(k, (n, t[k].1 + 1))
    } else {
        t.push((n, 1int))
    }
}

/// One entry per distinct name of `ns`, in first-seen order, with how many
/// times it occurs.
pub open spec fn tally(ns: Seq<Seq<char>>) -> Seq<(Seq<char>, int)>
    decreases ns.len(),
{
    if ns.len() == 0 {
        Seq::empty()
    } else {
        bump(tally(ns.drop_last()), ns.last())
    }
}

/// How many times `n` occurs in `ns`.
pub open spec fn occurrences(ns: Seq<Seq<char>>, n: Seq<char>) -> int
    decreases ns.len(),
{
    if ns.len() == 0 {
        0
    } else {
        occurrences(ns.drop_last(), n) + if ns.last() == n { 1int } else { 0int }
    }
}

/// The view of a `(name, quantity)` list.
pub open spec fn counted(v: Seq<(String, i64)>) -> Seq<(Seq<char>, int)> {
    v.map_values(|e: (String, i64)| (e.0@, e.1 as int))
}

proof fn lemma_slot(t: Seq<(Seq<char>, int)>, n: Seq<char>)
    ensures
        -1 <= slot(t, n) < t.len(),
        slot(t, n) >= 0 ==> t[slot(t, n)].0 == n,
        slot(t, n) < 0 ==> forall|i: int| 0 <= i < t.len() ==> t[i].0 != n,
        forall|i: int| slot(t, n) < i < t.len() ==> t[i].0 != n,
    decreases t.len(),
{
    if t.len() > 0 {
        lemma_slot(t.drop_last(), n);
        assert forall|i: int| 0 <= i < t.len() - 1 implies t[i] == t.drop_last()[i] by {}
    }
}

/// The entries of the list whose lines are `lines`: the trimmed names of the
/// non-blank, non-comment lines.
fn entries_of(lines: &Vec<Vec<char>>) -> (res: Vec<Vec<char>>)
    ensures
        res@.map_values(|p: Vec<char>| p@) == entries(lines@.map_values(|p: Vec<char>| p@)),
{
    let ghost ls = lines@.map_values(|p: Vec<char>| p@);
    let mut res: Vec<Vec<char>> = Vec::new();
    let mut i: usize = 0;
    while i < lines.len()
        invariant
            i <= lines.len(),
            ls == lines@.map_values(|p: Vec<char>| p@),
            res@.map_values(|p: Vec<char>| p@) == entries(ls.take(i as int)),
        decreases lines.len() - i,
    {
        assert(ls.take(i + 1).drop_last() == ls.take(i as int));
        assert(ls.take(i + 1).last() == lines@[i as int]@);
        let n = trim_vec(&lines[i]);
        let ghost before = res@.map_values(|p: Vec<char>| p@);
        if n.len() > 0 && n[0] != '#' {
            res.push(n);
            assert(res@.map_values(|p: Vec<char>| p@) =~= before.push(trim(ls[i as int])));
        }
        i += 1;
    }
    assert(ls.take(lines.len() as int) == ls);
    res
}

/// The card list of a list file's text: one `(name, quantity)` per distinct
/// trimmed name, in first-seen order, its quantity the number of lines naming
/// it (so sixteen `Evolving Wilds` lines give one entry of quantity 16).
/// Blank lines and lines starting with `#` are skipped.
pub fn read_list(text: &str) -> (res: Vec<(String, i64)>)
    requires
        text_lines(text@).len() < i64::MAX,
    ensures
        counted(res@) == tally(list_names(text@)),
{
    let lines = lines_of(&chars_of(text));
    let names = entries_of(&lines);
    let ghost ns = names@.map_values(|p: Vec<char>| p@);
    proof {
        lemma_entries_len(lines@.map_values(|p: Vec<char>| p@));
    }
    let mut out: Vec<(String, i64)> = Vec::new();
    let mut i: usize = 0;
    while i < names.len()
        invariant
            i <= names.len() < i64::MAX,
            ns == names@.map_values(|p: Vec<char>| p@),
            counted(out@) == tally(ns.take(i as int)),
            forall|k: int| 0 <= k < out@.len() ==> 0 < #[trigger] out@[k].1 <= i,
        decreases names.len() - i,
    {
        let ghost t = counted(out@);
        let n = &names[i];
        assert(ns.take(i + 1).drop_last() == ns.take(i as int));
        assert(ns.take(i + 1).last() == n@);
        proof {
            lemma_slot(t, n@);
        }
        let mut j: usize = out.len();
        let mut found = false;
        while j > 0
            invariant_except_break
                !found,
                forall|q: int| j <= q < out@.len() ==> #[trigger] t[q].0 != n@,
            invariant
                j <= out.len(),
                t == counted(out@),
            ensures
                found ==> (j < out.len() && t[j as int].0 == n@ && forall|q: int|
                    j < q < out@.len() ==> #[trigger] t[q].0 != n@),
                !found ==> forall|q: int| 0 <= q < out@.len() ==> #[trigger] t[q].0 != n@,
            decreases j,
        {
            let nm = chars_of(out[j - 1].0.as_str());
            j = j - 1;
            if crate::text::same_chars(&nm, n) {
                found = true;
                break;
            }
        }
        if found {
            proof {
                if slot(t, n@) != j as int {
                    assert(t[slot(t, n@)].0 == n@);
                }
            }
            let name = string_of(n);
            let q = out[j].1 + 1;
            out.set(j, (name, q));
            assert(counted(out@) =~= t.update(j as int, (n@, t[j as int].1 + 1)));
        } else {
            out.push((string_of(n), 1));
            assert(counted(out@) =~= t.push((n@, 1int)));
        }
        i += 1;
    }
    assert(ns.take(names.len() as int) == ns);
    out
}

proof fn lemma_entries_len(lines: Seq<Seq<char>>)
    ensures
        entries(lines).len() <= lines.len(),
    decreases lines.len(),
{
    if lines.len() > 0 {
        lemma_entries_len(lines.drop_last());
    }
}

/// Whether some line of `text`, trimmed, is `name`.
pub open spec fn listed(text: Seq<char>, name: Seq<char>) -> bool {
    exists|i: int| 0 <= i < text_lines(text).len() && trim(#[trigger] text_lines(text)[i]) == name
}

/// What adding `name` appends to a list file's text: a line break first when
/// the text is not empty and does not end in one, then the name and a line break.
pub open spec fn append_text(text: Seq<char>, name: Seq<char>) -> Seq<char> {
    (if text.len() > 0 && text.last() != '\n' {
        seq!['\n']
    } else {
        Seq::empty()
    }) + name + seq!['\n']
}

/// Whether `name` is one of `lines`, trimmed.
fn names_line(lines: &Vec<Vec<char>>, name: &Vec<char>) -> (b: bool)
    ensures
        b == exists|i: int| 0 <= i < lines@.len() && trim(#[trigger] lines@[i]@) == name@,
{
    let mut i: usize = 0;
    while i < lines.len()
        invariant
            i <= lines.len(),
            forall|k: int| 0 <= k < i ==> trim(#[trigger] lines@[k]@) != name@,
        decreases lines.len() - i,
    {
        if crate::text::same_chars(&trim_vec(&lines[i]), name) {
            return true;
        }
        i += 1;
    }
    false
}

/// What to append to a list file's text to add `name` to it, or `None` when a
/// line of it already names the card (the file is then left alone).
pub fn list_append(existing: &str, name: &str) -> (res: Option<String>)
    ensures
        res is None <==> listed(existing@, name@),
        res matches Some(t) ==> t@ == append_text(existing@, name@),
{
    let text = chars_of(existing);
    let lines = lines_of(&text);
    let nm = chars_of(name);
    let ghost ls = lines@.map_values(|p: Vec<char>| p@);
    if names_line(&lines, &nm) {
        proof {
            let i = choose|i: int| 0 <= i < lines@.len() && trim(#[trigger] lines@[i]@) == name@;
            assert(ls[i] == lines@[i]@);
        }
        return None;
    }
    proof {
        assert forall|i: int| 0 <= i < text_lines(existing@).len() implies trim(
            #[trigger] text_lines(existing@)[i],
        ) != name@ by {
            assert(ls[i] == lines@[i]@);
        }
    }
    let mut out: Vec<char> = Vec::new();
    if text.len() > 0 && text[text.len() - 1] != '\n' {
        out.push('\n');
    }
    crate::text::push_chars(&mut out, &nm);
    out.push('\n');
    assert(out@ =~= append_text(existing@, name@));
    Some(string_of(&out))
}

/// `lines` without those that, trimmed, are `name`.
pub open spec fn lines_without(lines: Seq<Seq<char>>, name: Seq<char>) -> Seq<Seq<char>>
    decreases lines.len(),
{
    if lines.len() == 0 {
        Seq::empty()
    } else {
        let rest = lines_without(lines.drop_last(), name);
        if trim(lines.last()) == name {
            rest
        } else {
            rest.push(lines.last())
        }
    }
}

/// A list file's text with every line naming `name` taken out, the remaining
/// lines joined by line breaks and ended by one.
pub open spec fn without_text(text: Seq<char>, name: Seq<char>) -> Seq<char> {
    crate::text::join(lines_without(text_lines(text), name), seq!['\n']) + seq!['\n']
}

/// The text of a list file once `name` is taken out of it.
pub fn list_without(existing: &str, name: &str) -> (res: String)
    ensures
        res@ == without_text(existing@, name@),
{
    let lines = lines_of(&chars_of(existing));
    let nm = chars_of(name);
    let ghost ls = lines@.map_values(|p: Vec<char>| p@);
    let mut kept: Vec<Vec<char>> = Vec::new();
    let mut i: usize = 0;
    while i < lines.len()
        invariant
            i <= lines.len(),
            ls == lines@.map_values(|p: Vec<char>| p@),
            nm@ == name@,
            kept@.map_values(|p: Vec<char>| p@) == lines_without(ls.take(i as int), name@),
        decreases lines.len() - i,
    {
        assert(ls.take(i + 1).drop_last() == ls.take(i as int));
        assert(ls.take(i + 1).last() == lines@[i as int]@);
        let ghost before = kept@.map_values(|p: Vec<char>| p@);
        if !crate::text::same_chars(&trim_vec(&lines[i]), &nm) {
            kept.push(slice_chars(&lines[i], 0, lines[i].len()));
            assert(lines@[i as int]@.subrange(0, lines@[i as int]@.len() as int) == lines@[i as int]@);
            assert(kept@.map_values(|p: Vec<char>| p@) =~= before.push(ls[i as int]));
        }
        i += 1;
    }
    assert(ls.take(lines.len() as int) == ls);
    let sep: Vec<char> = vec!['\n'];
    assert(sep@ =~= seq!['\n']);
    let mut out = crate::text::join_chars(&kept, &sep);
    out.push('\n');
    string_of(&out)
}

proof fn lemma_occurrences_absent(ns: Seq<Seq<char>>, x: Seq<char>)
    requires
        forall|k: int| 0 <= k < ns.len() ==> ns[k] != x,
    ensures
        occurrences(ns, x) == 0,
    decreases ns.len(),
{
    if ns.len() > 0 {
        assert forall|k: int| 0 <= k < ns.len() - 1 implies ns.drop_last()[k] != x by {
            assert(ns.drop_last()[k] == ns[k]);
        }
        lemma_occurrences_absent(ns.drop_last(), x);
    }
}

proof fn lemma_tally(ns: Seq<Seq<char>>)
    ensures
        forall|i: int, j: int|
            0 <= i < j < tally(ns).len() ==> #[trigger] tally(ns)[i].0 != #[trigger] tally(ns)[j].0,
        forall|i: int|
            0 <= i < tally(ns).len() ==> #[trigger] tally(ns)[i].1 == occurrences(ns, tally(ns)[i].0),
        forall|k: int|
            0 <= k < ns.len() ==> exists|i: int|
                0 <= i < tally(ns).len() && #[trigger] tally(ns)[i].0 == #[trigger] ns[k],
    decreases ns.len(),
{
    if ns.len() > 0 {
        let prev = ns.drop_last();
        let x = ns.last();
        let t = tally(prev);
        lemma_tally(prev);
        lemma_slot(t, x);
        let r = tally(ns);
        assert(r == bump(t, x));
        let k = slot(t, x);
        assert forall|y: Seq<char>| y != x implies occurrences(ns, y) == occurrences(prev, y) by {}
        assert(occurrences(ns, x) == occurrences(prev, x) + 1);
        if k >= 0 {
            assert(r == t.update(k, (x, t[k].1 + 1)));
            assert forall|i: int| 0 <= i < r.len() implies #[trigger] r[i].0 == t[i].0 by {}
            assert forall|i: int| 0 <= i < r.len() implies #[trigger] r[i].1 == occurrences(ns, r[i].0) by {
                if i != k {
                    assert(t[i].0 != t[k].0 || i == k);
                    assert(r[i] == t[i]);
                }
            }
            assert forall|q: int| 0 <= q < ns.len() implies exists|i: int|
                0 <= i < r.len() && #[trigger] r[i].0 == #[trigger] ns[q] by {
                if q < ns.len() - 1 {
                    assert(ns[q] == prev[q]);
                    let i = choose|i: int| 0 <= i < t.len() && #[trigger] t[i].0 == #[trigger] prev[q];
                    assert(r[i].0 == t[i].0);
                } else {
                    assert(r[k].0 == ns[q]);
                }
            }
        } else {
            assert(r == t.push((x, 1int)));
            assert forall|q: int| 0 <= q < prev.len() implies prev[q] != x by {
                let i = choose|i: int| 0 <= i < t.len() && #[trigger] t[i].0 == #[trigger] prev[q];
                assert(t[i].0 != x);
            }
            lemma_occurrences_absent(prev, x);
            assert forall|i: int| 0 <= i < r.len() implies #[trigger] r[i].1 == occurrences(ns, r[i].0) by {
                if i < t.len() {
                    assert(r[i] == t[i]);
                    assert(t[i].0 != x);
                }
            }
            assert forall|q: int| 0 <= q < ns.len() implies exists|i: int|
                0 <= i < r.len() && #[trigger] r[i].0 == #[trigger] ns[q] by {
                if q < ns.len() - 1 {
                    assert(ns[q] == prev[q]);
                    let i = choose|i: int| 0 <= i < t.len() && #[trigger] t[i].0 == #[trigger] prev[q];
                    assert(r[i].0 == t[i].0);
                } else {
                    assert(r[t.len() as int].0 == ns[q]);
                }
            }
            assert forall|i: int, j: int| 0 <= i < j < r.len() implies #[trigger] r[i].0 != #[trigger] r[j].0 by {
                if j == t.len() {
                    assert(r[i] == t[i]);
                } else {
                    assert(r[i] == t[i] && r[j] == t[j]);
                }
            }
        }
    }
}

/// The card list read from a list file holds each listed name exactly once,
/// every listed name is in it, and each quantity is the number of lines that
/// name the card.
pub proof fn law_list_counts(text: Seq<char>)
    ensures
        forall|i: int, j: int|
            0 <= i < j < tally(list_names(text)).len() ==> #[trigger] tally(list_names(text))[i].0
                != #[trigger] tally(list_names(text))[j].0,
        forall|i: int|
            0 <= i < tally(list_names(text)).len() ==> #[trigger] tally(list_names(text))[i].1
                == occurrences(list_names(text), tally(list_names(text))[i].0),
        forall|k: int|
            0 <= k < list_names(text).len() ==> exists|i: int|
                0 <= i < tally(list_names(text)).len() && #[trigger] tally(list_names(text))[i].0
                    == #[trigger] list_names(text)[k],
{
    lemma_tally(list_names(text));
}

proof fn lemma_lines_clean(text: Seq<char>)
    ensures
        forall|i: int|
            0 <= i < text_lines(text).len() ==> !(#[trigger] text_lines(text)[i]).contains('\n'),
{
    let parts = split_on(text, '\n');
    lemma_split_nonempty(text, '\n');
    lemma_split_pieces(text, '\n');
    let tl = text_lines(text);
    assert forall|i: int| 0 <= i < tl.len() implies !(#[trigger] tl[i]).contains('\n') by {
        let p = parts[i];
        assert(!p.contains('\n'));
        if i < parts.len() - 1 {
            assert(tl[i] == strip_cr(p));
            if p.len() > 0 && p.last() == '\r' {
                if p.drop_last().contains('\n') {
                    let k = choose|k: int| 0 <= k < p.drop_last().len() && p.drop_last()[k] == '\n';
                    assert(p[k] == '\n');
                }
            }
        } else {
            assert(tl[i] == parts.last());
        }
    }
}

proof fn lemma_without_props(lines: Seq<Seq<char>>, name: Seq<char>)
    requires
        forall|i: int| 0 <= i < lines.len() ==> !(#[trigger] lines[i]).contains('\n'),
    ensures
        forall|i: int|
            0 <= i < lines_without(lines, name).len() ==> trim(
                #[trigger] lines_without(lines, name)[i],
            ) != name && !lines_without(lines, name)[i].contains('\n'),
    decreases lines.len(),
{
    if lines.len() > 0 {
        let d = lines.drop_last();
        assert forall|i: int| 0 <= i < d.len() implies !(#[trigger] d[i]).contains('\n') by {
            assert(d[i] == lines[i]);
        }
        lemma_without_props(d, name);
        assert(lines.last() == lines[lines.len() - 1]);
        let r = lines_without(d, name);
        let w = lines_without(lines, name);
        assert forall|i: int| 0 <= i < w.len() implies trim(#[trigger] w[i]) != name
            && !w[i].contains('\n') by {
            if i < r.len() {
                assert(w[i] == r[i]);
            }
        }
    }
}

/// A taken-out name is no longer listed: no line of the rewritten list file,
/// trimmed, is the name.
pub proof fn law_removed_not_listed(text: Seq<char>, name: Seq<char>)
    requires
        name.len() > 0,
    ensures
        !listed(without_text(text, name), name),
{
    let l = lines_without(text_lines(text), name);
    lemma_lines_clean(text);
    lemma_without_props(text_lines(text), name);
    let w = without_text(text, name);
    if l.len() == 0 {
        let e = Seq::<char>::empty();
        assert(w =~= seq!['\n']);
        assert(w.drop_first() =~= e);
        assert(w[0] == '\n');
        assert(split_on(w.drop_first(), '\n') =~= seq![e]);
        assert(split_on(w, '\n') =~= seq![e, e]);
        assert(text_lines(w) =~= seq![e]);
        assert(trim(e) =~= e);
    } else {
        let e = Seq::<char>::empty();
        lemma_split_join(l, '\n');
        assert(w =~= crate::text::join(l, seq!['\n']) + seq!['\n'] + e);
        lemma_split_concat(crate::text::join(l, seq!['\n']), e, '\n');
        assert(split_on(e, '\n') =~= seq![e]);
        assert(split_on(w, '\n') =~= l + seq![e]);
        assert(split_on(w, '\n').drop_last() =~= l);
        let tl = text_lines(w);
        assert forall|i: int| 0 <= i < tl.len() implies trim(#[trigger] tl[i]) != name by {
            assert(tl[i] == strip_cr(l[i]));
            if l[i].len() > 0 && l[i].last() == '\r' {
                lemma_trim_drop_blank(l[i]);
            }
        }
    }
}

/// An added name is listed: the list file with the appended text has a line
/// that, trimmed, is the name (for a trimmed name without line breaks).
pub proof fn law_added_listed(text: Seq<char>, name: Seq<char>)
    requires
        trim(name) == name,
        !name.contains('\n'),
    ensures
        listed(text + append_text(text, name), name),
{
    let e = Seq::<char>::empty();
    let f = text + append_text(text, name);
    lemma_split_whole(name, '\n');
    assert(split_on(e, '\n') =~= seq![e]);
    lemma_split_concat(name, e, '\n');
    assert(name + seq!['\n'] + e =~= name + seq!['\n']);
    assert(split_on(name + seq!['\n'], '\n') =~= seq![name, e]);
    if name.len() > 0 {
        lemma_trimmed_last(name);
    }
    assert(strip_cr(name) == name);
    if text.len() == 0 {
        assert(f =~= name + seq!['\n']);
        assert(text_lines(f) =~= seq![name]);
        assert(trim(text_lines(f)[0]) == name);
    } else {
        let x = if text.last() == '\n' { text.drop_last() } else { text };
        assert(f =~= x + seq!['\n'] + (name + seq!['\n']));
        lemma_split_concat(x, name + seq!['\n'], '\n');
        let a = split_on(x, '\n');
        assert(split_on(f, '\n') =~= a + seq![name, e]);
        assert(split_on(f, '\n').drop_last() =~= a.push(name));
        let tl = text_lines(f);
        assert(tl[a.len() as int] == strip_cr(name));
        assert(trim(tl[a.len() as int]) == name);
    }
}

} // verus!
