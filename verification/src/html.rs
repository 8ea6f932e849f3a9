//! Card text as HTML: escaping, mana symbols as icons, reminder text in
//! italics, flavor emphasis, and the rules box's paragraphs.

use vstd::prelude::*;
use crate::text::{chars_of, lowercase, push_chars, push_str, string_of, to_lower, to_upper, uppercase};

verus! {

/// One character, HTML-escaped: `&`, `<`, `>` and `"` become entities.
pub open spec fn esc_char_spec(c: char) -> Seq<char> {
    if c == '&' {
        "&amp;"@
    } else if c == '<' {
        "&lt;"@
    } else if c == '>' {
        "&gt;"@
    } else if c == '"' {
        "&quot;"@
    } else {
        seq![c]
    }
}

/// Every character of `s`, HTML-escaped.
pub open spec fn esc_spec(s: Seq<char>) -> Seq<char>
    decreases s.len(),
{
    if s.len() == 0 {
        Seq::empty()
    } else {
        esc_spec(s.drop_last()) + esc_char_spec(s.last())
    }
}

fn push_esc(out: &mut Vec<char>, c: char)
    ensures
        final(out)@ == old(out)@ + esc_char_spec(c),
{
    if c == '&' {
        push_str(out, "&amp;");
    } else if c == '<' {
        push_str(out, "&lt;");
    } else if c == '>' {
        push_str(out, "&gt;");
    } else if c == '"' {
        push_str(out, "&quot;");
    } else {
        out.push(c);
        assert(final(out)@ =~= old(out)@ + seq![c]);
    }
}

/// One character, HTML-escaped.
pub fn esc_char(c: char) -> (res: String)
    ensures
        res@ == esc_char_spec(c),
{
    let mut out: Vec<char> = Vec::new();
    push_esc(&mut out, c);
    assert(out@ =~= esc_char_spec(c));
    string_of(&out)
}

/// `s`, HTML-escaped.
pub fn esc(s: &str) -> (res: String)
    ensures
        res@ == esc_spec(s@),
{
    let cs = chars_of(s);
    let mut out: Vec<char> = Vec::new();
    let mut i: usize = 0;
    while i < cs.len()
        invariant
            i <= cs.len(),
            cs@ == s@,
            out@ == esc_spec(cs@.take(i as int)),
        decreases cs.len() - i,
    {
        assert(cs@.take(i + 1).drop_last() == cs@.take(i as int));
        push_esc(&mut out, cs[i]);
        i += 1;
    }
    assert(cs@.take(cs.len() as int) == cs@);
    string_of(&out)
}

/// Escaped text holds no raw markup character: no `<`, `>` or `"`.
pub proof fn law_escaped_has_no_markup(s: Seq<char>)
    ensures
        forall|i: int|
            0 <= i < esc_spec(s).len() ==> #[trigger] esc_spec(s)[i] != '<' && esc_spec(s)[i] != '>'
                && esc_spec(s)[i] != '"',
    decreases s.len(),
{
    if s.len() > 0 {
        law_escaped_has_no_markup(s.drop_last());
        let a = esc_spec(s.drop_last());
        let b = esc_char_spec(s.last());
        reveal_strlit("&amp;");
        reveal_strlit("&lt;");
        reveal_strlit("&gt;");
        reveal_strlit("&quot;");
        assert forall|i: int| 0 <= i < b.len() implies #[trigger] b[i] != '<' && b[i] != '>' && b[i]
            != '"' by {}
        assert forall|i: int| 0 <= i < esc_spec(s).len() implies #[trigger] esc_spec(s)[i] != '<'
            && esc_spec(s)[i] != '>' && esc_spec(s)[i] != '"' by {
            if i < a.len() {
                assert(esc_spec(s)[i] == a[i]);
            } else {
                assert(esc_spec(s)[i] == b[i - a.len()]);
            }
        }
    }
}

/// Flavor emphasis from a position where emphasis is `emph`: each `*` or `**`
/// toggles an upright span (flavor is italic, so emphasis is set roman), the
/// rest is escaped, and an open span is closed at the end.
pub open spec fn flav_from(s: Seq<char>, emph: bool) -> Seq<char>
    decreases s.len(),
{
    if s.len() == 0 {
        if emph {
            "</span>"@
        } else {
            Seq::empty()
        }
    } else if s[0] == '*' {
        let rest = if s.len() > 1 && s[1] == '*' {
            s.subrange(2, s.len() as int)
        } else {
            s.drop_first()
        };
        (if emph {
            "</span>"@
        } else {
            "<span class=\"up\">"@
        }) + flav_from(rest, !emph)
    } else {
        esc_char_spec(s[0]) + flav_from(s.drop_first(), emph)
    }
}

/// A flavor-text line as HTML, `*word*` / `**word**` set upright.
pub fn flav_emph(line: &str) -> (res: String)
    ensures
        res@ == flav_from(line@, false),
{
    let s = chars_of(line);
    let n = s.len();
    let mut out: Vec<char> = Vec::new();
    let mut emph = false;
    let mut i: usize = 0;
    assert(s@.subrange(0, n as int) == s@);
    while i < n
        invariant
            i <= n == s.len(),
            s@ == line@,
            out@ + flav_from(s@.subrange(i as int, n as int), emph) == flav_from(line@, false),
        decreases n - i,
    {
        let ghost rest = s@.subrange(i as int, n as int);
        let ghost before = out@;
        if s[i] == '*' {
            let tag = if emph { "</span>" } else { "<span class=\"up\">" };
            if i + 1 < n && s[i + 1] == '*' {
                assert(rest.subrange(2, rest.len() as int) =~= s@.subrange(i + 2, n as int));
                i += 2;
            } else {
                assert(rest.drop_first() =~= s@.subrange(i + 1, n as int));
                i += 1;
            }
            push_str(&mut out, tag);
            emph = !emph;
            assert(before + (tag@ + flav_from(s@.subrange(i as int, n as int), emph)) =~= out@
                + flav_from(s@.subrange(i as int, n as int), emph));
        } else {
            assert(rest.drop_first() =~= s@.subrange(i + 1, n as int));
            push_esc(&mut out, s[i]);
            i += 1;
            assert(before + (esc_char_spec(rest[0]) + flav_from(s@.subrange(i as int, n as int), emph))
                =~= out@ + flav_from(s@.subrange(i as int, n as int), emph));
        }
    }
    let ghost before = out@;
    if emph {
        push_str(&mut out, "</span>");
    }
    assert(out@ =~= before + flav_from(s@.subrange(n as int, n as int), emph));
    string_of(&out)
}

/// Reminder text from a position at parenthesis depth `depth`: an opening
/// parenthesis at depth 0 starts `<i>`, a closing one back at depth 0 ends it,
/// a stray `)` at depth 0 is copied as it is, and an italic still open at the
/// end is closed.
pub open spec fn reminder_from(s: Seq<char>, depth: nat) -> Seq<char>
    decreases s.len(),
{
    if s.len() == 0 {
        if depth > 0 {
            "</i>"@
        } else {
            Seq::empty()
        }
    } else if s[0] == '(' {
        (if depth == 0 {
            "<i>("@
        } else {
            seq!['(']
        }) + reminder_from(s.drop_first(), depth + 1)
    } else if s[0] == ')' {
        if depth == 0 {
            seq![')'] + reminder_from(s.drop_first(), 0)
        } else {
            (if depth == 1 {
                ")</i>"@
            } else {
                seq![')']
            }) + reminder_from(s.drop_first(), (depth - 1) as nat)
        }
    } else {
        seq![s[0]] + reminder_from(s.drop_first(), depth)
    }
}

/// Already-escaped rules HTML with its parenthetical reminder text in italics.
pub fn reminder_italic(html: &str) -> (res: String)
    ensures
        res@ == reminder_from(html@, 0),
{
    let s = chars_of(html);
    let n = s.len();
    let mut out: Vec<char> = Vec::new();
    let mut depth: usize = 0;
    let mut i: usize = 0;
    assert(s@.subrange(0, n as int) == s@);
    while i < n
        invariant
            i <= n == s.len(),
            s@ == html@,
            depth <= i,
            out@ + reminder_from(s@.subrange(i as int, n as int), depth as nat) == reminder_from(
                html@,
                0,
            ),
        decreases n - i,
    {
        let ghost rest = s@.subrange(i as int, n as int);
        let ghost before = out@;
        assert(rest.drop_first() =~= s@.subrange(i + 1, n as int));
        let c = s[i];
        let ghost d0 = depth as nat;
        assert(rest[0] == c);
        if c == '(' {
            if depth == 0 {
                push_str(&mut out, "<i>(");
            } else {
                out.push('(');
                assert(out@ =~= before + seq!['(']);
            }
            depth += 1;
        } else if c == ')' {
            if depth == 1 {
                push_str(&mut out, ")</i>");
            } else {
                out.push(')');
                assert(out@ =~= before + seq![')']);
            }
            if depth > 0 {
                depth -= 1;
            }
        } else {
            out.push(c);
            assert(out@ =~= before + seq![c]);
        }
        i += 1;
        assert(out@ + reminder_from(s@.subrange(i as int, n as int), depth as nat) =~= before
            + reminder_from(rest, d0));
    }
    let ghost before = out@;
    if depth > 0 {
        push_str(&mut out, "</i>");
    }
    assert(out@ =~= before + reminder_from(s@.subrange(n as int, n as int), depth as nat));
    string_of(&out)
}

} // verus!

verus! {

/// The icon file of a mana symbol: `T` is the tap icon `t`, `Q` the untap icon
/// `untap`, any other symbol its upper-cased code with `/` dropped, lower-cased
/// (`W/U` gives `wu`, `2/U` gives `2u`).
pub open spec fn mana_key(sym: Seq<char>) -> Seq<char> {
    let u = uppercase(sym);
    if u == "T"@ {
        "t"@
    } else if u == "Q"@ {
        "untap"@
    } else {
        lowercase(crate::text::replace_char(u, '/', Seq::empty()))
    }
}

/// The `<img>` of one mana symbol.
pub open spec fn mana_icon_spec(sym: Seq<char>, mana_base: Seq<char>) -> Seq<char> {
    "<img class=\"ms-img\" src=\""@ + mana_base + "/"@ + mana_key(sym) + ".svg\">"@
}

/// One mana symbol (the text between `{` and `}`) as its icon.
pub fn mana_icon(sym: &str, mana_base: &str) -> (res: String)
    ensures
        res@ == mana_icon_spec(sym@, mana_base@),
{
    let u = to_upper(sym);
    let uc = chars_of(u.as_str());
    let key: Vec<char> = if crate::text::same_chars(&uc, &chars_of("T")) {
        chars_of("t")
    } else if crate::text::same_chars(&uc, &chars_of("Q")) {
        chars_of("untap")
    } else {
        let stripped = crate::text::replace_chars(&uc, '/', &Vec::new());
        let low = to_lower(string_of(&stripped).as_str());
        chars_of(low.as_str())
    };
    let mut out: Vec<char> = Vec::new();
    push_str(&mut out, "<img class=\"ms-img\" src=\"");
    push_str(&mut out, mana_base);
    push_str(&mut out, "/");
    push_chars(&mut out, &key);
    push_str(&mut out, ".svg\">");
    assert(out@ =~= mana_icon_spec(sym@, mana_base@));
    string_of(&out)
}

/// The length of the leading run of `s` before its first `}` (all of `s`
/// when it has none).
pub open spec fn close_brace(s: Seq<char>) -> nat
    decreases s.len(),
{
    if s.len() == 0 || s[0] == '}' {
        0
    } else {
        1 + close_brace(s.drop_first())
    }
}

proof fn lemma_close_brace(s: Seq<char>, m: int)
    requires
        0 <= m <= s.len(),
        forall|k: int| 0 <= k < m ==> s[k] != '}',
        m == s.len() || s[m] == '}',
    ensures
        close_brace(s) == m,
    decreases m,
{
    if m > 0 {
        assert forall|k: int| 0 <= k < m - 1 implies s.drop_first()[k] != '}' by {
            assert(s.drop_first()[k] == s[k + 1]);
        }
        lemma_close_brace(s.drop_first(), m - 1);
    }
}

/// Rules text with each `{..}` symbol as its icon and everything else escaped
/// (a `{` without a closing `}` takes the rest of the text as its symbol).
pub open spec fn mana_from(s: Seq<char>, mana_base: Seq<char>) -> Seq<char>
    decreases s.len(),
{
    if s.len() == 0 {
        Seq::empty()
    } else if s[0] == '{' {
        let body = s.drop_first();
        let e = close_brace(body);
        let rest = if e < body.len() {
            body.subrange(e + 1int, body.len() as int)
        } else {
            Seq::empty()
        };
        mana_icon_spec(body.subrange(0, e as int), mana_base) + mana_from(rest, mana_base)
    } else {
        esc_char_spec(s[0]) + mana_from(s.drop_first(), mana_base)
    }
}

/// A rules-text line as HTML, mana symbols as icons.
pub fn manaify(text: &str, mana_base: &str) -> (res: String)
    ensures
        res@ == mana_from(text@, mana_base@),
{
    let s = chars_of(text);
    let n = s.len();
    let mut out: Vec<char> = Vec::new();
    let mut i: usize = 0;
    assert(s@.subrange(0, n as int) == s@);
    while i < n
        invariant
            i <= n == s.len(),
            s@ == text@,
            out@ + mana_from(s@.subrange(i as int, n as int), mana_base@) == mana_from(
                text@,
                mana_base@,
            ),
        decreases n - i,
    {
        let ghost rest = s@.subrange(i as int, n as int);
        let ghost before = out@;
        if s[i] == '{' {
            let mut j = i + 1;
            let mut sym: Vec<char> = Vec::new();
            while j < n && s[j] != '}'
                invariant
                    i + 1 <= j <= n == s.len(),
                    sym@ == s@.subrange(i + 1, j as int),
                    forall|k: int| i + 1 <= k < j ==> s@[k] != '}',
                decreases n - j,
            {
                sym.push(s[j]);
                j += 1;
                assert(sym@ =~= s@.subrange(i + 1, j as int));
            }
            let ghost body = rest.drop_first();
            assert(body =~= s@.subrange(i + 1, n as int));
            proof {
                lemma_close_brace(body, j - (i + 1));
            }
            assert(body.subrange(0, j - (i + 1)) =~= sym@);
            let icon = mana_icon(string_of(&sym).as_str(), mana_base);
            push_chars(&mut out, &chars_of(icon.as_str()));
            if j < n {
                assert(body.subrange(j - i, body.len() as int) =~= s@.subrange(j + 1, n as int));
                i = j + 1;
            } else {
                assert(s@.subrange(n as int, n as int) =~= Seq::<char>::empty());
                i = n;
            }
        } else {
            assert(rest.drop_first() =~= s@.subrange(i + 1, n as int));
            push_esc(&mut out, s[i]);
            i += 1;
        }
        assert(out@ + mana_from(s@.subrange(i as int, n as int), mana_base@) =~= before + mana_from(
            rest,
            mana_base@,
        ));
    }
    assert(out@ =~= out@ + mana_from(s@.subrange(n as int, n as int), mana_base@));
    string_of(&out)
}

} // verus!

verus! {

/// A raw line ending in two blanks: a Markdown hard break.
pub open spec fn ends_hard(raw: Seq<char>) -> bool {
    raw.len() >= 2 && raw[raw.len() - 1] == ' ' && raw[raw.len() - 2] == ' '
}

/// Paragraphs so far and the lines of the paragraph still open.
pub type ParaState = (Seq<Seq<Seq<char>>>, Seq<Seq<char>>);

/// One `\n`-separated piece, its trailing `\r`s dropped: a blank line closes
/// the open paragraph; any other line joins it, trimmed, and closes it unless
/// it ends in a hard break.
pub open spec fn para_step(st: ParaState, piece: Seq<char>) -> ParaState {
    let raw = crate::text::trim_end(piece, crate::text::Class::Is('\r'));
    let line = crate::text::trim(raw);
    if line.len() == 0 {
        if st.1.len() > 0 {
            (st.0.push(st.1), Seq::empty())
        } else {
            st
        }
    } else if ends_hard(raw) {
        (st.0, st.1.push(line))
    } else {
        (st.0.push(st.1.push(line)), Seq::empty())
    }
}

pub open spec fn para_fold(pieces: Seq<Seq<char>>) -> ParaState
    decreases pieces.len(),
{
    if pieces.len() == 0 {
        (Seq::empty(), Seq::empty())
    } else {
        para_step(para_fold(pieces.drop_last()), pieces.last())
    }
}

/// The paragraphs of a text, each a list of trimmed lines: blank lines are
/// dropped, and only a line ending in a hard break continues its paragraph.
pub open spec fn paragraphs_of(text: Seq<char>) -> Seq<Seq<Seq<char>>> {
    let st = para_fold(crate::text::split_on(text, '\n'));
    if st.1.len() > 0 {
        st.0.push(st.1)
    } else {
        st.0
    }
}

/// The view of a list of lines.
pub open spec fn lines_view(v: Seq<String>) -> Seq<Seq<char>> {
    v.map_values(|l: String| l@)
}

/// The view of a list of paragraphs.
pub open spec fn paras_view(v: Seq<Vec<String>>) -> Seq<Seq<Seq<char>>> {
    v.map_values(|p: Vec<String>| lines_view(p@))
}

/// Groups `\n`-separated lines into paragraphs (see [`paragraphs_of`]).
pub fn paragraphs(text: &str) -> (res: Vec<Vec<String>>)
    ensures
        paras_view(res@) == paragraphs_of(text@),
{
    let pieces = crate::text::split_chars(&chars_of(text), '\n');
    let ghost ps = pieces@.map_values(|p: Vec<char>| p@);
    let mut paras: Vec<Vec<String>> = Vec::new();
    let mut cur: Vec<String> = Vec::new();
    let mut i: usize = 0;
    while i < pieces.len()
        invariant
            i <= pieces.len(),
            ps == pieces@.map_values(|p: Vec<char>| p@),
            ps == crate::text::split_on(text@, '\n'),
            (paras_view(paras@), lines_view(cur@)) == para_fold(ps.take(i as int)),
        decreases pieces.len() - i,
    {
        assert(ps.take(i + 1).drop_last() == ps.take(i as int));
        assert(ps.take(i + 1).last() == pieces@[i as int]@);
        let raw = crate::text::trim_end_vec(&pieces[i], &crate::text::Class::Is('\r'));
        let hard = raw.len() >= 2 && raw[raw.len() - 1] == ' ' && raw[raw.len() - 2] == ' ';
        let line = crate::text::trim_vec(&raw);
        let ghost pv = paras_view(paras@);
        let ghost cv = lines_view(cur@);
        if line.len() == 0 {
            if cur.len() > 0 {
                let done = cur;
                paras.push(done);
                cur = Vec::new();
                assert(paras_view(paras@) =~= pv.push(cv));
                assert(lines_view(cur@) =~= Seq::<Seq<char>>::empty());
            }
        } else {
            cur.push(string_of(&line));
            assert(lines_view(cur@) =~= cv.push(line@));
            if !hard {
                let done = cur;
                paras.push(done);
                cur = Vec::new();
                assert(paras_view(paras@) =~= pv.push(cv.push(line@)));
                assert(lines_view(cur@) =~= Seq::<Seq<char>>::empty());
            }
        }
        i += 1;
    }
    assert(ps.take(pieces.len() as int) == ps);
    if cur.len() > 0 {
        let ghost pv = paras_view(paras@);
        let ghost cv = lines_view(cur@);
        paras.push(cur);
        assert(paras_view(paras@) =~= pv.push(cv));
    }
    paras
}

/// A rules line: mana symbols as icons, then reminder text in italics.
pub open spec fn rules_line(l: Seq<char>, mana_base: Seq<char>) -> Seq<char> {
    reminder_from(mana_from(l, mana_base), 0)
}

/// Rules paragraphs, each a `<p>` of its lines joined by `<br>`.
pub open spec fn rules_paras(ps: Seq<Seq<Seq<char>>>, mana_base: Seq<char>) -> Seq<char>
    decreases ps.len(),
{
    if ps.len() == 0 {
        Seq::empty()
    } else {
        rules_paras(ps.drop_last(), mana_base) + "<p>"@ + crate::text::join(
            ps.last().map_values(|l: Seq<char>| rules_line(l, mana_base)),
            "<br>"@,
        ) + "</p>"@
    }
}

/// Flavor paragraphs, each a `<p class="flav">` of its emphasised lines.
pub open spec fn flavor_paras(ps: Seq<Seq<Seq<char>>>) -> Seq<char>
    decreases ps.len(),
{
    if ps.len() == 0 {
        Seq::empty()
    } else {
        flavor_paras(ps.drop_last()) + "<p class=\"flav\">"@ + crate::text::join(
            ps.last().map_values(|l: Seq<char>| flav_from(l, false)),
            "<br>"@,
        ) + "</p>"@
    }
}

/// The rules box: the rules paragraphs, then (when there is flavor text) a
/// divider and the flavor paragraphs.
pub open spec fn rules_box(text: Seq<char>, flavor: Seq<char>, mana_base: Seq<char>) -> Seq<char> {
    rules_paras(paragraphs_of(text), mana_base) + (if paragraphs_of(flavor).len() > 0 {
        "<div class=\"flavbar\"></div>"@
    } else {
        Seq::empty()
    }) + flavor_paras(paragraphs_of(flavor))
}

fn rules_para(para: &Vec<String>, mana_base: &str) -> (res: Vec<char>)
    ensures
        res@ == crate::text::join(
            lines_view(para@).map_values(|l: Seq<char>| rules_line(l, mana_base@)),
            "<br>"@,
        ),
{
    let mut parts: Vec<Vec<char>> = Vec::new();
    let mut k: usize = 0;
    while k < para.len()
        invariant
            k <= para.len(),
            parts@.len() == k,
            forall|j: int| 0 <= j < k ==> #[trigger] parts@[j]@ == rules_line(para@[j]@, mana_base@),
        decreases para.len() - k,
    {
        let m = manaify(para[k].as_str(), mana_base);
        let r = reminder_italic(m.as_str());
        parts.push(chars_of(r.as_str()));
        k += 1;
    }
    assert(parts@.map_values(|p: Vec<char>| p@) =~= lines_view(para@).map_values(
        |l: Seq<char>| rules_line(l, mana_base@),
    ));
    crate::text::join_chars(&parts, &chars_of("<br>"))
}

fn flavor_para(para: &Vec<String>) -> (res: Vec<char>)
    ensures
        res@ == crate::text::join(
            lines_view(para@).map_values(|l: Seq<char>| flav_from(l, false)),
            "<br>"@,
        ),
{
    let mut parts: Vec<Vec<char>> = Vec::new();
    let mut k: usize = 0;
    while k < para.len()
        invariant
            k <= para.len(),
            parts@.len() == k,
            forall|j: int| 0 <= j < k ==> #[trigger] parts@[j]@ == flav_from(para@[j]@, false),
        decreases para.len() - k,
    {
        let f = flav_emph(para[k].as_str());
        parts.push(chars_of(f.as_str()));
        k += 1;
    }
    assert(parts@.map_values(|p: Vec<char>| p@) =~= lines_view(para@).map_values(
        |l: Seq<char>| flav_from(l, false),
    ));
    crate::text::join_chars(&parts, &chars_of("<br>"))
}

/// The rules box's HTML for a card's rules text and flavor text.
pub fn rules_html(text: &str, flavor: &str, mana_base: &str) -> (res: String)
    ensures
        res@ == rules_box(text@, flavor@, mana_base@),
{
    let rules = paragraphs(text);
    let ghost rv = paras_view(rules@);
    let mut out: Vec<char> = Vec::new();
    let mut i: usize = 0;
    while i < rules.len()
        invariant
            i <= rules.len(),
            rv == paras_view(rules@),
            out@ == rules_paras(rv.take(i as int), mana_base@),
        decreases rules.len() - i,
    {
        assert(rv.take(i + 1).drop_last() == rv.take(i as int));
        assert(rv.take(i + 1).last() == lines_view(rules@[i as int]@));
        push_str(&mut out, "<p>");
        let p = rules_para(&rules[i], mana_base);
        push_chars(&mut out, &p);
        push_str(&mut out, "</p>");
        i += 1;
    }
    assert(rv.take(rules.len() as int) == rv);
    let ghost head = out@;
    let flav = paragraphs(flavor);
    let ghost fv = paras_view(flav@);
    if flav.len() > 0 {
        push_str(&mut out, "<div class=\"flavbar\"></div>");
    }
    let ghost mid = out@;
    let mut j: usize = 0;
    while j < flav.len()
        invariant
            j <= flav.len(),
            fv == paras_view(flav@),
            out@ == mid + flavor_paras(fv.take(j as int)),
        decreases flav.len() - j,
    {
        assert(fv.take(j + 1).drop_last() == fv.take(j as int));
        assert(fv.take(j + 1).last() == lines_view(flav@[j as int]@));
        push_str(&mut out, "<p class=\"flav\">");
        let p = flavor_para(&flav[j]);
        push_chars(&mut out, &p);
        push_str(&mut out, "</p>");
        j += 1;
    }
    assert(fv.take(flav.len() as int) == fv);
    assert(out@ =~= rules_box(text@, flavor@, mana_base@));
    string_of(&out)
}

} // verus!
