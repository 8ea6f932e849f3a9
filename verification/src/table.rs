//! Result listings: one cell's text, column re-selection, and the table,
//! Markdown and CSV layouts of a result set.

use vstd::prelude::*;
use crate::text::{
    chars_of, decimal, i64_digits, join, join_chars, push_chars, push_str, replace_char, replace_chars,
    signed_decimal, split_trim, split_trimmed, string_of, views,
};
use crate::query::{effective_format, Format, OutputArgs};

verus! {

/// One value of a result row. A real number is carried as the text the
/// listing shows for it (whole values without decimals, others to two places).
pub enum Cell {
    Null,
    Int(i64),
    Real(String),
    Text(String),
}

impl Cell {
    /// An identical copy of the cell.
    pub fn copy(&self) -> (c: Cell)
        ensures
            c == *self,
    {
        match self {
            Cell::Null => Cell::Null,
            Cell::Int(i) => Cell::Int(*i),
            Cell::Real(s) => Cell::Real(s.clone()),
            Cell::Text(s) => Cell::Text(s.clone()),
        }
    }
}

/// A cell's full text: nothing for NULL, the decimal integer, the real's text,
/// or the string with each newline shown as ` / `.
pub open spec fn cell_raw(v: Cell) -> Seq<char> {
    match v {
        Cell::Null => Seq::empty(),
        Cell::Int(i) => signed_decimal(i as int),
        Cell::Real(t) => t@,
        Cell::Text(s) => replace_char(s@, '\n', " / "@),
    }
}

/// `s` cut to `width` characters with a trailing `…` when it is longer (unless
/// `full`, or `width` is 0).
pub open spec fn truncate_to(s: Seq<char>, width: nat, full: bool) -> Seq<char> {
    if !full && width > 0 && s.len() > width {
        s.take(width - 1).push('…')
    } else {
        s
    }
}

/// The text a cell shows in a listing.
pub open spec fn cell_shown(v: Cell, width: nat, full: bool) -> Seq<char> {
    truncate_to(cell_raw(v), width, full)
}

/// The text of one cell, truncated to `width` characters unless `full`.
pub fn cell(v: &Cell, width: usize, full: bool) -> (res: Vec<char>)
    ensures
        res@ == cell_shown(*v, width as nat, full),
{
    let s: Vec<char> = match v {
        Cell::Null => Vec::new(),
        Cell::Int(i) => i64_digits(*i),
        Cell::Real(t) => chars_of(t.as_str()),
        Cell::Text(t) => replace_chars(&chars_of(t.as_str()), '\n', &chars_of(" / ")),
    };
    if !full && width > 0 && s.len() > width {
        let mut t: Vec<char> = Vec::new();
        let mut i: usize = 0;
        while i < width - 1
            invariant
                i <= width - 1,
                width - 1 < s.len(),
                t@ == s@.take(i as int),
            decreases width - 1 - i,
        {
            t.push(s[i]);
            i += 1;
            assert(t@ == s@.take(i as int));
        }
        t.push('…');
        t
    } else {
        s
    }
}

/// Position of the first column named `w`, if any.
pub open spec fn first_pos(cols: Seq<Seq<char>>, w: Seq<char>) -> Option<int> {
    if exists|i: int| 0 <= i < cols.len() && cols[i] == w {
        Some(choose|i: int| 0 <= i < cols.len() && cols[i] == w && forall|j: int| 0 <= j < i ==> cols[j] != w)
    } else {
        None
    }
}

/// For each wanted column, the position of the first column of that name.
pub fn column_positions(cols: &Vec<String>, want: &Vec<String>) -> (res: Vec<Option<usize>>)
    ensures
        res@.len() == want@.len(),
        forall|k: int| 0 <= k < want@.len() ==> match #[trigger] res@[k] {
            Some(i) => i < cols@.len() && cols@[i as int]@ == want@[k]@
                && forall|j: int| 0 <= j < i ==> cols@[j]@ != want@[k]@,
            None => forall|j: int| 0 <= j < cols@.len() ==> cols@[j]@ != want@[k]@,
        },
{
    let mut res: Vec<Option<usize>> = Vec::new();
    let mut k: usize = 0;
    while k < want.len()
        invariant
            k <= want.len(),
            res@.len() == k,
            forall|q: int| 0 <= q < k ==> match #[trigger] res@[q] {
                Some(i) => i < cols@.len() && cols@[i as int]@ == want@[q]@
                    && forall|j: int| 0 <= j < i ==> cols@[j]@ != want@[q]@,
                None => forall|j: int| 0 <= j < cols@.len() ==> cols@[j]@ != want@[q]@,
            },
        decreases want.len() - k,
    {
        let mut found: Option<usize> = None;
        let mut i: usize = 0;
        while i < cols.len()
            invariant
                i <= cols.len(),
                k < want.len(),
                found matches Some(f) ==> f < i && cols@[f as int]@ == want@[k as int]@
                    && forall|j: int| 0 <= j < f ==> cols@[j]@ != want@[k as int]@,
                found is None ==> forall|j: int| 0 <= j < i ==> cols@[j]@ != want@[k as int]@,
            decreases cols.len() - i,
        {
            if found.is_none() && cols[i] == want[k] {
                found = Some(i);
            }
            i += 1;
        }
        res.push(found);
        k += 1;
    }
    res
}

/// The rows cut down to the wanted columns, in the wanted order; a name that
/// is no column gives NULL cells.
pub open spec fn projected(cols: Seq<Seq<char>>, rows: Seq<Seq<Cell>>, want: Seq<Seq<char>>) -> Seq<Seq<Cell>> {
    rows.map_values(|r: Seq<Cell>| want.map_values(|w: Seq<char>|
        match first_pos(cols, w) {
            Some(i) => r[i],
            None => Cell::Null,
        }))
}

} // verus!

verus! {

proof fn lemma_first_pos(cols: Seq<Seq<char>>, w: Seq<char>, i: int)
    requires
        0 <= i < cols.len(),
        cols[i] == w,
        forall|j: int| 0 <= j < i ==> cols[j] != w,
    ensures
        first_pos(cols, w) == Some(i),
{
    let c = choose|c: int| 0 <= c < cols.len() && cols[c] == w && forall|j: int| 0 <= j < c ==> cols[j] != w;
    assert(0 <= c < cols.len() && cols[c] == w && forall|j: int| 0 <= j < c ==> cols[j] != w);
    if c < i {
        assert(cols[c] != w);
    }
    if i < c {
        assert(cols[i] != w);
    }
}

/// Project rows down to the named columns (reordering / dropping as needed); a
/// name that is no column gives NULL cells.
pub fn project(cols: &Vec<String>, rows: &Vec<Vec<Cell>>, want: &Vec<String>) -> (res: (
    Vec<String>,
    Vec<Vec<Cell>>,
))
    requires
        forall|k: int| 0 <= k < rows@.len() ==> #[trigger] rows@[k]@.len() >= cols@.len(),
    ensures
        views(res.0@) == views(want@),
        res.1@.len() == rows@.len(),
        forall|k: int| 0 <= k < rows@.len() ==> #[trigger] res.1@[k]@ == projected(
            views(cols@),
            rows@.map_values(|r: Vec<Cell>| r@),
            views(want@),
        )[k],
{
    let pos = column_positions(cols, want);
    let mut out_rows: Vec<Vec<Cell>> = Vec::new();
    let ghost vc = views(cols@);
    let ghost vw = views(want@);
    let ghost vr = rows@.map_values(|r: Vec<Cell>| r@);
    let mut k: usize = 0;
    while k < rows.len()
        invariant
            k <= rows.len(),
            pos@.len() == want@.len(),
            vc == views(cols@),
            vw == views(want@),
            vr == rows@.map_values(|r: Vec<Cell>| r@),
            forall|q: int| 0 <= q < want@.len() ==> match #[trigger] pos@[q] {
                Some(i) => i < cols@.len() && cols@[i as int]@ == want@[q]@
                    && forall|j: int| 0 <= j < i ==> cols@[j]@ != want@[q]@,
                None => forall|j: int| 0 <= j < cols@.len() ==> cols@[j]@ != want@[q]@,
            },
            forall|q: int| 0 <= q < rows@.len() ==> #[trigger] rows@[q]@.len() >= cols@.len(),
            out_rows@.len() == k,
            forall|q: int| 0 <= q < k ==> #[trigger] out_rows@[q]@ == projected(vc, vr, vw)[q],
        decreases rows.len() - k,
    {
        let row = &rows[k];
        let mut r: Vec<Cell> = Vec::new();
        let mut q: usize = 0;
        while q < pos.len()
            invariant
                q <= pos.len() == want@.len(),
                k < rows@.len(),
                row == rows@[k as int],
                row@.len() >= cols@.len(),
                vc == views(cols@),
                vw == views(want@),
                forall|q: int| 0 <= q < want@.len() ==> match #[trigger] pos@[q] {
                    Some(i) => i < cols@.len() && cols@[i as int]@ == want@[q]@
                        && forall|j: int| 0 <= j < i ==> cols@[j]@ != want@[q]@,
                    None => forall|j: int| 0 <= j < cols@.len() ==> cols@[j]@ != want@[q]@,
                },
                r@.len() == q,
                forall|p: int| 0 <= p < q ==> #[trigger] r@[p] == match first_pos(vc, vw[p]) {
                    Some(i) => row@[i],
                    None => Cell::Null,
                },
            decreases pos.len() - q,
        {
            match pos[q] {
                Some(i) => {
                    proof {
                        lemma_first_pos(vc, vw[q as int], i as int);
                    }
                    r.push(row[i].copy());
                },
                None => {
                    assert(!(exists|i: int| 0 <= i < vc.len() && vc[i] == vw[q as int]));
                    r.push(Cell::Null);
                },
            }
            q += 1;
        }
        assert(r@ =~= projected(vc, vr, vw)[k as int]);
        out_rows.push(r);
        k += 1;
    }
    let mut names: Vec<String> = Vec::new();
    let mut q: usize = 0;
    while q < want.len()
        invariant
            q <= want.len(),
            names@.len() == q,
            forall|p: int| 0 <= p < q ==> #[trigger] names@[p]@ == want@[p]@,
        decreases want.len() - q,
    {
        names.push(want[q].clone());
        q += 1;
    }
    assert(views(names@) =~= views(want@));
    (names, out_rows)
}

/// A CSV field: the full cell text (newlines as spaces), quoted with doubled
/// inner quotes when it holds a comma or a quote.
pub open spec fn csv_cell(v: Cell) -> Seq<char> {
    let s = replace_char(cell_shown(v, 0, true), '\n', " "@);
    if s.contains(',') || s.contains('"') {
        "\""@ + replace_char(s, '"', "\"\""@) + "\""@
    } else {
        s
    }
}

/// The CSV listing: a header of column names, then one line per row.
pub open spec fn render_csv(cols: Seq<Seq<char>>, rows: Seq<Seq<Cell>>) -> Seq<char> {
    join(
        seq![join(cols, ","@)] + rows.map_values(|r: Seq<Cell>| join(r.map_values(|v: Cell| csv_cell(v)), ","@)),
        "\n"@,
    )
}

/// A Markdown cell: the cell text with `|` escaped.
pub open spec fn md_cell(v: Cell, width: nat, full: bool) -> Seq<char> {
    replace_char(cell_shown(v, width, full), '|', "\\|"@)
}

/// A Markdown table line of the given cells.
pub open spec fn md_line(cells: Seq<Seq<char>>) -> Seq<char> {
    "| "@ + join(cells, " | "@) + " |"@
}

/// The Markdown listing: header, `---` rule, one line per row.
pub open spec fn render_md(cols: Seq<Seq<char>>, rows: Seq<Seq<Cell>>, width: nat, full: bool) -> Seq<char> {
    join(
        seq![md_line(cols), md_line(Seq::new(cols.len(), |i: int| "---"@))] + rows.map_values(
            |r: Seq<Cell>| md_line(r.map_values(|v: Cell| md_cell(v, width, full))),
        ),
        "\n"@,
    )
}

} // verus!

verus! {

/// The widest shown cell in column `i` among the first `k` rows.
pub open spec fn rows_width(rows: Seq<Seq<Cell>>, i: int, width: nat, full: bool, k: int) -> nat
    decreases k,
{
    if k <= 0 {
        0
    } else {
        let m = rows_width(rows, i, width, full, k - 1);
        let c = if i < rows[k - 1].len() {
            cell_shown(rows[k - 1][i], width, full).len()
        } else {
            0
        };
        if c > m {
            c
        } else {
            m
        }
    }
}

/// Width of column `i` in the table layout: its name or its widest cell.
pub open spec fn col_width(cols: Seq<Seq<char>>, rows: Seq<Seq<Cell>>, i: int, width: nat, full: bool) -> nat {
    let r = rows_width(rows, i, width, full, rows.len() as int);
    if cols[i].len() > r {
        cols[i].len()
    } else {
        r
    }
}

/// `s` padded with spaces on the right to `n` characters.
pub open spec fn pad(s: Seq<char>, n: nat) -> Seq<char> {
    if s.len() < n {
        s + Seq::new((n - s.len()) as nat, |j: int| ' ')
    } else {
        s
    }
}

/// One table line: each cell padded to its column's width, two spaces apart.
pub open spec fn table_line(cells: Seq<Seq<char>>, widths: Seq<nat>) -> Seq<char> {
    join(Seq::new(cells.len(), |i: int| pad(cells[i], widths[i])), "  "@)
}

/// The column widths of the table layout.
pub open spec fn table_widths(cols: Seq<Seq<char>>, rows: Seq<Seq<Cell>>, width: nat, full: bool) -> Seq<nat> {
    Seq::new(cols.len(), |i: int| col_width(cols, rows, i, width, full))
}

/// The aligned table listing: padded header, a rule of dashes per column, one
/// padded line per row.
pub open spec fn render_table(cols: Seq<Seq<char>>, rows: Seq<Seq<Cell>>, width: nat, full: bool) -> Seq<char> {
    let ws = table_widths(cols, rows, width, full);
    join(
        seq![
            table_line(cols, ws),
            join(Seq::new(cols.len(), |i: int| Seq::new(ws[i], |j: int| '-')), "  "@),
        ] + rows.map_values(|r: Seq<Cell>| table_line(r.map_values(|v: Cell| cell_shown(v, width, full)), ws)),
        "\n"@,
    )
}

/// The listing text in the given (non-JSON) format.
pub open spec fn render_spec(f: Format, cols: Seq<Seq<char>>, rows: Seq<Seq<Cell>>, width: nat, full: bool) -> Seq<char> {
    match f {
        Format::Csv => render_csv(cols, rows),
        Format::Md => render_md(cols, rows, width, full),
        _ => render_table(cols, rows, width, full),
    }
}

/// The CSV text of one cell.
fn csv_field_of(v: &Cell) -> (res: Vec<char>)
    ensures
        res@ == csv_cell(*v),
{
    let c = cell(v, 0, true);
    let s = replace_chars(&c, '\n', &chars_of(" "));
    if crate::text::has_char(&s, ',') || crate::text::has_char(&s, '"') {
        let mut out = chars_of("\"");
        push_chars(&mut out, &replace_chars(&s, '"', &chars_of("\"\"")));
        push_str(&mut out, "\"");
        out
    } else {
        s
    }
}

/// The character vectors of a list of strings.
fn string_chars(v: &Vec<String>) -> (res: Vec<Vec<char>>)
    ensures
        res@.map_values(|p: Vec<char>| p@) == views(v@),
{
    let mut res: Vec<Vec<char>> = Vec::new();
    let mut i: usize = 0;
    while i < v.len()
        invariant
            i <= v.len(),
            res@.len() == i,
            forall|k: int| 0 <= k < i ==> #[trigger] res@[k]@ == v@[k]@,
        decreases v.len() - i,
    {
        res.push(chars_of(v[i].as_str()));
        i += 1;
    }
    assert(res@.map_values(|p: Vec<char>| p@) =~= views(v@));
    res
}

/// Joins lines with newlines into a string.
fn join_lines(lines: &Vec<Vec<char>>) -> (res: String)
    ensures
        res@ == join(lines@.map_values(|p: Vec<char>| p@), "\n"@),
{
    string_of(&join_chars(lines, &chars_of("\n")))
}

/// The CSV listing of `rows` under `cols`.
pub fn csv_listing(cols: &Vec<String>, rows: &Vec<Vec<Cell>>) -> (res: String)
    ensures
        res@ == render_csv(views(cols@), rows@.map_values(|r: Vec<Cell>| r@)),
{
    let ghost vr = rows@.map_values(|r: Vec<Cell>| r@);
    let mut lines: Vec<Vec<char>> = Vec::new();
    lines.push(join_chars(&string_chars(cols), &chars_of(",")));
    let mut k: usize = 0;
    while k < rows.len()
        invariant
            k <= rows.len(),
            vr == rows@.map_values(|r: Vec<Cell>| r@),
            lines@.len() == k + 1,
            lines@[0]@ == join(views(cols@), ","@),
            forall|q: int| 0 <= q < k ==> #[trigger] lines@[q + 1]@ == join(
                vr[q].map_values(|v: Cell| csv_cell(v)),
                ","@,
            ),
        decreases rows.len() - k,
    {
        let row = &rows[k];
        let mut fields: Vec<Vec<char>> = Vec::new();
        let mut i: usize = 0;
        while i < row.len()
            invariant
                i <= row.len(),
                fields@.len() == i,
                forall|p: int| 0 <= p < i ==> #[trigger] fields@[p]@ == csv_cell(row@[p]),
            decreases row.len() - i,
        {
            fields.push(csv_field_of(&row[i]));
            i += 1;
        }
        assert(fields@.map_values(|p: Vec<char>| p@) =~= vr[k as int].map_values(|v: Cell| csv_cell(v)));
        lines.push(join_chars(&fields, &chars_of(",")));
        k += 1;
    }
    let ghost rhs = seq![join(views(cols@), ","@)] + vr.map_values(
        |r: Seq<Cell>| join(r.map_values(|v: Cell| csv_cell(v)), ","@),
    );
    assert forall|q: int| 0 <= q < lines@.len() implies #[trigger] lines@[q]@ == rhs[q] by {
        if q > 0 {
            let j = q - 1;
            assert(lines@[j + 1]@ == join(vr[j].map_values(|v: Cell| csv_cell(v)), ","@));
        }
    }
    assert(lines@.map_values(|p: Vec<char>| p@) =~= seq![join(views(cols@), ","@)] + vr.map_values(
        |r: Seq<Cell>| join(r.map_values(|v: Cell| csv_cell(v)), ","@),
    ));
    join_lines(&lines)
}

/// A Markdown line of the given cells.
fn md_line_of(cells: &Vec<Vec<char>>) -> (res: Vec<char>)
    ensures
        res@ == md_line(cells@.map_values(|p: Vec<char>| p@)),
{
    let mut out = chars_of("| ");
    push_chars(&mut out, &join_chars(cells, &chars_of(" | ")));
    push_str(&mut out, " |");
    out
}

/// The Markdown listing of `rows` under `cols`.
pub fn md_listing(cols: &Vec<String>, rows: &Vec<Vec<Cell>>, width: usize, full: bool) -> (res: String)
    ensures
        res@ == render_md(views(cols@), rows@.map_values(|r: Vec<Cell>| r@), width as nat, full),
{
    let ghost vr = rows@.map_values(|r: Vec<Cell>| r@);
    let ghost vc = views(cols@);
    let mut lines: Vec<Vec<char>> = Vec::new();
    lines.push(md_line_of(&string_chars(cols)));
    let mut rule: Vec<Vec<char>> = Vec::new();
    let mut i: usize = 0;
    while i < cols.len()
        invariant
            i <= cols.len(),
            rule@.len() == i,
            forall|p: int| 0 <= p < i ==> #[trigger] rule@[p]@ == "---"@,
        decreases cols.len() - i,
    {
        rule.push(chars_of("---"));
        i += 1;
    }
    assert(rule@.map_values(|p: Vec<char>| p@) =~= Seq::new(vc.len(), |i: int| "---"@));
    lines.push(md_line_of(&rule));
    let mut k: usize = 0;
    while k < rows.len()
        invariant
            k <= rows.len(),
            vr == rows@.map_values(|r: Vec<Cell>| r@),
            vc == views(cols@),
            lines@.len() == k + 2,
            lines@[0]@ == md_line(vc),
            lines@[1]@ == md_line(Seq::new(vc.len(), |i: int| "---"@)),
            forall|q: int| 0 <= q < k ==> #[trigger] lines@[q + 2]@ == md_line(
                vr[q].map_values(|v: Cell| md_cell(v, width as nat, full)),
            ),
        decreases rows.len() - k,
    {
        let row = &rows[k];
        let mut fields: Vec<Vec<char>> = Vec::new();
        let mut i: usize = 0;
        while i < row.len()
            invariant
                i <= row.len(),
                fields@.len() == i,
                forall|p: int| 0 <= p < i ==> #[trigger] fields@[p]@ == md_cell(row@[p], width as nat, full),
            decreases row.len() - i,
        {
            let c = cell(&row[i], width, full);
            fields.push(replace_chars(&c, '|', &chars_of("\\|")));
            i += 1;
        }
        assert(fields@.map_values(|p: Vec<char>| p@) =~= vr[k as int].map_values(
            |v: Cell| md_cell(v, width as nat, full),
        ));
        lines.push(md_line_of(&fields));
        k += 1;
    }
    let ghost rhs = seq![
        md_line(vc),
        md_line(Seq::new(vc.len(), |i: int| "---"@)),
    ] + vr.map_values(|r: Seq<Cell>| md_line(r.map_values(|v: Cell| md_cell(v, width as nat, full))));
    assert forall|q: int| 0 <= q < lines@.len() implies #[trigger] lines@[q]@ == rhs[q] by {
        if q > 1 {
            let j = q - 2;
            assert(lines@[j + 2]@ == md_line(vr[j].map_values(|v: Cell| md_cell(v, width as nat, full))));
        }
    }
    assert(lines@.map_values(|p: Vec<char>| p@) =~= seq![
        md_line(vc),
        md_line(Seq::new(vc.len(), |i: int| "---"@)),
    ] + vr.map_values(|r: Seq<Cell>| md_line(r.map_values(|v: Cell| md_cell(v, width as nat, full)))));
    join_lines(&lines)
}

} // verus!

verus! {

/// `s` padded with spaces to `n` characters.
fn pad_to(s: &Vec<char>, n: usize) -> (res: Vec<char>)
    ensures
        res@ == pad(s@, n as nat),
{
    let mut out: Vec<char> = Vec::new();
    push_chars(&mut out, s);
    if s.len() < n {
        let mut k: usize = 0;
        let ghost pre = out@;
        while k < n - s.len()
            invariant
                s.len() < n,
                k <= n - s.len(),
                pre == s@,
                out@ == pre + Seq::new(k as nat, |j: int| ' '),
            decreases n - s.len() - k,
        {
            out.push(' ');
            k += 1;
            assert(out@ =~= pre + Seq::new(k as nat, |j: int| ' '));
        }
    }
    out
}

/// `n` dashes.
fn dashes(n: usize) -> (res: Vec<char>)
    ensures
        res@ == Seq::new(n as nat, |j: int| '-'),
{
    let mut out: Vec<char> = Vec::new();
    let mut k: usize = 0;
    while k < n
        invariant
            k <= n,
            out@ == Seq::new(k as nat, |j: int| '-'),
        decreases n - k,
    {
        out.push('-');
        k += 1;
        assert(out@ =~= Seq::new(k as nat, |j: int| '-'));
    }
    out
}

/// A table line of cells padded to the given widths.
fn table_line_of(cells: &Vec<Vec<char>>, widths: &Vec<usize>) -> (res: Vec<char>)
    requires
        cells@.len() <= widths@.len(),
    ensures
        res@ == table_line(
            cells@.map_values(|p: Vec<char>| p@),
            widths@.map_values(|w: usize| w as nat),
        ),
{
    let ghost ws = widths@.map_values(|w: usize| w as nat);
    let ghost cs = cells@.map_values(|p: Vec<char>| p@);
    let mut padded: Vec<Vec<char>> = Vec::new();
    let mut i: usize = 0;
    while i < cells.len()
        invariant
            i <= cells.len() <= widths.len(),
            padded@.len() == i,
            forall|p: int| 0 <= p < i ==> #[trigger] padded@[p]@ == pad(cells@[p]@, widths@[p] as nat),
        decreases cells.len() - i,
    {
        padded.push(pad_to(&cells[i], widths[i]));
        i += 1;
    }
    assert(padded@.map_values(|p: Vec<char>| p@) =~= Seq::new(cs.len(), |i: int| pad(cs[i], ws[i])));
    join_chars(&padded, &chars_of("  "))
}

/// The aligned table listing of `rows` under `cols`.
pub fn table_listing(cols: &Vec<String>, rows: &Vec<Vec<Cell>>, width: usize, full: bool) -> (res: String)
    requires
        forall|k: int| 0 <= k < rows@.len() ==> #[trigger] rows@[k]@.len() <= cols@.len(),
    ensures
        res@ == render_table(views(cols@), rows@.map_values(|r: Vec<Cell>| r@), width as nat, full),
{
    let ghost vr = rows@.map_values(|r: Vec<Cell>| r@);
    let ghost vc = views(cols@);
    let names = string_chars(cols);
    // The shown text of every cell.
    let mut body: Vec<Vec<Vec<char>>> = Vec::new();
    let mut k: usize = 0;
    while k < rows.len()
        invariant
            k <= rows.len(),
            vr == rows@.map_values(|r: Vec<Cell>| r@),
            body@.len() == k,
            forall|q: int| 0 <= q < k ==> #[trigger] body@[q]@.len() == vr[q].len(),
            forall|q: int, p: int| 0 <= q < k && 0 <= p < vr[q].len() ==> #[trigger] body@[q]@[p]@
                == cell_shown(vr[q][p], width as nat, full),
        decreases rows.len() - k,
    {
        let row = &rows[k];
        let mut shown: Vec<Vec<char>> = Vec::new();
        let mut i: usize = 0;
        while i < row.len()
            invariant
                i <= row.len(),
                shown@.len() == i,
                forall|p: int| 0 <= p < i ==> #[trigger] shown@[p]@ == cell_shown(row@[p], width as nat, full),
            decreases row.len() - i,
        {
            shown.push(cell(&row[i], width, full));
            i += 1;
        }
        body.push(shown);
        k += 1;
    }
    // Column widths: the name, widened by every shown cell.
    let mut widths: Vec<usize> = Vec::new();
    let mut i: usize = 0;
    while i < cols.len()
        invariant
            i <= cols.len(),
            vc == views(cols@),
            names@.map_values(|p: Vec<char>| p@) == vc,
            widths@.len() == i,
            forall|p: int| 0 <= p < i ==> #[trigger] widths@[p] as nat == col_width(vc, vr, p, width as nat, full),
            vr == rows@.map_values(|r: Vec<Cell>| r@),
            body@.len() == rows@.len(),
            forall|q: int| 0 <= q < body@.len() ==> #[trigger] body@[q]@.len() == vr[q].len(),
            forall|q: int, p: int| 0 <= q < body@.len() && 0 <= p < vr[q].len() ==> #[trigger] body@[q]@[p]@
                == cell_shown(vr[q][p], width as nat, full),
        decreases cols.len() - i,
    {
        let mut m: usize = 0;
        let mut q: usize = 0;
        while q < body.len()
            invariant
                q <= body.len() == vr.len(),
                i < vc.len(),
                m as nat == rows_width(vr, i as int, width as nat, full, q as int),
                forall|q: int| 0 <= q < body@.len() ==> #[trigger] body@[q]@.len() == vr[q].len(),
                forall|q: int, p: int| 0 <= q < body@.len() && 0 <= p < vr[q].len() ==> #[trigger] body@[q]@[p]@
                    == cell_shown(vr[q][p], width as nat, full),
            decreases body.len() - q,
        {
            if i < body[q].len() {
                let c = body[q][i].len();
                assert(c == cell_shown(vr[q as int][i as int], width as nat, full).len());
                if c > m {
                    m = c;
                }
            }
            q += 1;
        }
        let own = names[i].len();
        widths.push(if own > m { own } else { m });
        i += 1;
    }
    let ghost ws = widths@.map_values(|w: usize| w as nat);
    assert(ws =~= table_widths(vc, vr, width as nat, full));
    let mut lines: Vec<Vec<char>> = Vec::new();
    lines.push(table_line_of(&names, &widths));
    let mut rule: Vec<Vec<char>> = Vec::new();
    let mut i: usize = 0;
    while i < widths.len()
        invariant
            i <= widths.len(),
            rule@.len() == i,
            forall|p: int| 0 <= p < i ==> #[trigger] rule@[p]@ == Seq::new(widths@[p] as nat, |j: int| '-'),
        decreases widths.len() - i,
    {
        rule.push(dashes(widths[i]));
        i += 1;
    }
    assert(rule@.map_values(|p: Vec<char>| p@) =~= Seq::new(vc.len(), |i: int| Seq::new(ws[i], |j: int| '-')));
    lines.push(join_chars(&rule, &chars_of("  ")));
    let mut k: usize = 0;
    while k < body.len()
        invariant
            k <= body.len() == vr.len(),
            widths@.len() == vc.len(),
            ws == widths@.map_values(|w: usize| w as nat),
            forall|q: int| 0 <= q < vr.len() ==> #[trigger] vr[q].len() <= vc.len(),
            forall|q: int| 0 <= q < body@.len() ==> #[trigger] body@[q]@.len() == vr[q].len(),
            forall|q: int, p: int| 0 <= q < body@.len() && 0 <= p < vr[q].len() ==> #[trigger] body@[q]@[p]@
                == cell_shown(vr[q][p], width as nat, full),
            lines@.len() == k + 2,
            lines@[0]@ == table_line(vc, ws),
            lines@[1]@ == join(Seq::new(vc.len(), |i: int| Seq::new(ws[i], |j: int| '-')), "  "@),
            forall|q: int| 0 <= q < k ==> #[trigger] lines@[q + 2]@ == table_line(
                vr[q].map_values(|v: Cell| cell_shown(v, width as nat, full)),
                ws,
            ),
        decreases body.len() - k,
    {
        assert(body@[k as int]@.map_values(|p: Vec<char>| p@) =~= vr[k as int].map_values(
            |v: Cell| cell_shown(v, width as nat, full),
        ));
        lines.push(table_line_of(&body[k], &widths));
        k += 1;
    }
    let ghost rhs = seq![
        table_line(vc, ws),
        join(Seq::new(vc.len(), |i: int| Seq::new(ws[i], |j: int| '-')), "  "@),
    ] + vr.map_values(|r: Seq<Cell>| table_line(r.map_values(|v: Cell| cell_shown(v, width as nat, full)), ws));
    assert forall|q: int| 0 <= q < lines@.len() implies #[trigger] lines@[q]@ == rhs[q] by {
        if q > 1 {
            let j = q - 2;
            assert(lines@[j + 2]@ == table_line(
                vr[j].map_values(|v: Cell| cell_shown(v, width as nat, full)),
                ws,
            ));
        }
    }
    assert(lines@.map_values(|p: Vec<char>| p@) =~= rhs);
    join_lines(&lines)
}

} // verus!

verus! {

/// The listing of `rows` under `cols` in the effective (non-JSON) format.
pub fn render(cols: &Vec<String>, rows: &Vec<Vec<Cell>>, out: &OutputArgs) -> (res: String)
    requires
        effective_format(*out) != Format::Json,
        effective_format(*out) == Format::Table ==> forall|k: int|
            0 <= k < rows@.len() ==> #[trigger] rows@[k]@.len() <= cols@.len(),
    ensures
        res@ == render_spec(
            effective_format(*out),
            views(cols@),
            rows@.map_values(|r: Vec<Cell>| r@),
            out.width as nat,
            out.full,
        ),
{
    match out.fmt() {
        Format::Csv => csv_listing(cols, rows),
        Format::Md => md_listing(cols, rows, out.width, out.full),
        _ => table_listing(cols, rows, out.width, out.full),
    }
}

/// What an empty result prints.
pub open spec fn no_rows_text() -> Seq<char> {
    "(no rows)"@
}

/// The note printed under a listing cut off at `limit` rows.
pub open spec fn more_note(limit: nat) -> Seq<char> {
    "\n... showing first "@ + decimal(limit) + " rows; tighten the WHERE or raise --limit for more."@
}

/// The note printed under a listing cut off at `limit` rows.
pub fn more_note_text(limit: usize) -> (res: String)
    ensures
        res@ == more_note(limit as nat),
{
    let mut v = chars_of("\n... showing first ");
    push_chars(&mut v, &crate::text::base_digits(limit as u64, 10));
    push_str(&mut v, " rows; tighten the WHERE or raise --limit for more.");
    string_of(&v)
}

/// What a listing prints, line by line: `(no rows)` for an empty result, else
/// the rendered listing and, when rows were cut off, the note about the limit.
pub open spec fn emitted(
    cols: Seq<Seq<char>>,
    rows: Seq<Seq<Cell>>,
    more: bool,
    f: Format,
    limit: nat,
    width: nat,
    full: bool,
) -> Seq<Seq<char>> {
    if rows.len() == 0 {
        seq![no_rows_text()]
    } else if more {
        seq![render_spec(f, cols, rows, width, full), more_note(limit)]
    } else {
        seq![render_spec(f, cols, rows, width, full)]
    }
}

/// The columns named in `--cols`, or all of them.
pub open spec fn shown_cols(cols: Seq<Seq<char>>, sel: Option<Seq<char>>) -> Seq<Seq<char>> {
    match sel {
        Some(c) => split_trimmed(c, ','),
        None => cols,
    }
}

/// The rows cut down to the `--cols` selection, or as they are.
pub open spec fn shown_rows(cols: Seq<Seq<char>>, rows: Seq<Seq<Cell>>, sel: Option<Seq<char>>) -> Seq<Seq<Cell>> {
    match sel {
        Some(c) => projected(cols, rows, split_trimmed(c, ',')),
        None => rows,
    }
}

/// The lines that printing a result set shows (non-JSON formats): the rows are
/// first cut to the `--cols` selection, then laid out (see [`emitted`]).
pub fn emit(cols: &Vec<String>, rows: &Vec<Vec<Cell>>, more: bool, out: &OutputArgs) -> (res: Vec<String>)
    requires
        effective_format(*out) != Format::Json,
        forall|k: int| 0 <= k < rows@.len() ==> #[trigger] rows@[k]@.len() == cols@.len(),
    ensures
        views(res@) == emitted(
            shown_cols(views(cols@), crate::query::opt_view(out.cols)),
            shown_rows(views(cols@), rows@.map_values(|r: Vec<Cell>| r@), crate::query::opt_view(out.cols)),
            more,
            effective_format(*out),
            out.limit as nat,
            out.width as nat,
            out.full,
        ),
{
    let ghost vr = rows@.map_values(|r: Vec<Cell>| r@);
    let mut lines: Vec<String> = Vec::new();
    let (c2, r2) = match &out.cols {
        Some(c) => {
            let want_chars = split_trim(&chars_of(c.as_str()), ',');
            let mut want: Vec<String> = Vec::new();
            let mut i: usize = 0;
            while i < want_chars.len()
                invariant
                    i <= want_chars.len(),
                    want@.len() == i,
                    forall|p: int| 0 <= p < i ==> #[trigger] want@[p]@ == want_chars@[p]@,
                decreases want_chars.len() - i,
            {
                want.push(string_of(&want_chars[i]));
                i += 1;
            }
            assert(views(want@) =~= split_trimmed(c@, ','));
            let (names, prj) = project(cols, rows, &want);
            assert(prj@.map_values(|r: Vec<Cell>| r@) =~= projected(views(cols@), vr, views(want@)));
            (names, prj)
        },
        None => {
            let mut names: Vec<String> = Vec::new();
            let mut k: usize = 0;
            while k < cols.len()
                invariant
                    k <= cols.len(),
                    names@.len() == k,
                    forall|p: int| 0 <= p < k ==> #[trigger] names@[p]@ == cols@[p]@,
                decreases cols.len() - k,
            {
                names.push(cols[k].clone());
                k += 1;
            }
            let mut copy: Vec<Vec<Cell>> = Vec::new();
            let mut k: usize = 0;
            while k < rows.len()
                invariant
                    k <= rows.len(),
                    copy@.len() == k,
                    forall|p: int| 0 <= p < k ==> #[trigger] copy@[p]@ == rows@[p]@,
                decreases rows.len() - k,
            {
                let mut r: Vec<Cell> = Vec::new();
                let mut i: usize = 0;
                while i < rows[k].len()
                    invariant
                        k < rows.len(),
                        i <= rows@[k as int]@.len(),
                        r@ == rows@[k as int]@.take(i as int),
                    decreases rows@[k as int]@.len() - i,
                {
                    r.push(rows[k][i].copy());
                    i += 1;
                    assert(r@ =~= rows@[k as int]@.take(i as int));
                }
                assert(r@ =~= rows@[k as int]@);
                copy.push(r);
                k += 1;
            }
            assert(views(names@) =~= views(cols@));
            assert(copy@.map_values(|r: Vec<Cell>| r@) =~= vr);
            (names, copy)
        },
    };
    proof {
        let rv = r2@.map_values(|r: Vec<Cell>| r@);
        assert forall|k: int| 0 <= k < r2@.len() implies #[trigger] r2@[k]@.len() <= c2@.len() by {
            assert(rv[k] == r2@[k]@);
        }
    }
    if r2.len() == 0 {
        lines.push("(no rows)".to_owned());
    } else {
        lines.push(render(&c2, &r2, out));
        if more {
            lines.push(more_note_text(out.limit));
        }
    }
    proof {
        assert(r2@.map_values(|r: Vec<Cell>| r@).len() == r2@.len());
    }
    assert(views(lines@) =~= emitted(
        views(c2@),
        r2@.map_values(|r: Vec<Cell>| r@),
        more,
        effective_format(*out),
        out.limit as nat,
        out.width as nat,
        out.full,
    ));
    lines
}

} // verus!

verus! {

proof fn lemma_join_same_lens(a: Seq<Seq<char>>, b: Seq<Seq<char>>, sep: Seq<char>)
    requires
        a.len() == b.len(),
        forall|i: int| 0 <= i < a.len() ==> #[trigger] a[i].len() == b[i].len(),
    ensures
        join(a, sep).len() == join(b, sep).len(),
    decreases a.len(),
{
    if a.len() > 1 {
        lemma_join_same_lens(a.drop_last(), b.drop_last(), sep);
    }
}

proof fn lemma_rows_width_ge(rows: Seq<Seq<Cell>>, i: int, width: nat, full: bool, k: int, q: int)
    requires
        0 <= q < k,
        i < rows[q].len(),
    ensures
        cell_shown(rows[q][i], width, full).len() <= rows_width(rows, i, width, full, k),
    decreases k,
{
    if q < k - 1 {
        lemma_rows_width_ge(rows, i, width, full, k - 1, q);
    }
}

/// In the table layout every line has the same length: the header, the rule
/// and each row line are as wide as the columns' widths plus two spaces
/// between columns, when every row has a cell for every column.
pub proof fn law_table_lines_aligned(cols: Seq<Seq<char>>, rows: Seq<Seq<Cell>>, width: nat, full: bool)
    requires
        forall|k: int| 0 <= k < rows.len() ==> #[trigger] rows[k].len() == cols.len(),
    ensures
        ({
            let ws = table_widths(cols, rows, width, full);
            let header = table_line(cols, ws);
            &&& join(Seq::new(cols.len(), |i: int| Seq::new(ws[i], |j: int| '-')), "  "@).len()
                == header.len()
            &&& forall|k: int| 0 <= k < rows.len() ==> table_line(
                (#[trigger] rows[k]).map_values(|v: Cell| cell_shown(v, width, full)),
                ws,
            ).len() == header.len()
        }),
{
    let ws = table_widths(cols, rows, width, full);
    let hp = Seq::new(cols.len(), |i: int| pad(cols[i], ws[i]));
    let rule = Seq::new(cols.len(), |i: int| Seq::new(ws[i], |j: int| '-'));
    assert forall|i: int| 0 <= i < cols.len() implies #[trigger] hp[i].len() == ws[i] by {}
    lemma_join_same_lens(rule, hp, "  "@);
    assert forall|k: int| 0 <= k < rows.len() implies table_line(
        (#[trigger] rows[k]).map_values(|v: Cell| cell_shown(v, width, full)),
        ws,
    ).len() == table_line(cols, ws).len() by {
        let cells = rows[k].map_values(|v: Cell| cell_shown(v, width, full));
        let rp = Seq::new(cells.len(), |i: int| pad(cells[i], ws[i]));
        assert forall|i: int| 0 <= i < rp.len() implies #[trigger] rp[i].len() == hp[i].len() by {
            lemma_rows_width_ge(rows, i, width, full, rows.len() as int, k);
        }
        lemma_join_same_lens(rp, hp, "  "@);
    }
}

/// A CSV field's inside with each `""` read as one `"`.
pub open spec fn undoubled(s: Seq<char>) -> Seq<char>
    decreases s.len(),
{
    if s.len() == 0 {
        Seq::empty()
    } else if s.len() >= 2 && s[0] == '"' && s[1] == '"' {
        seq!['"'] + undoubled(s.skip(2))
    } else {
        seq![s[0]] + undoubled(s.drop_first())
    }
}

/// The text a CSV reader gets from a field: a quoted field's inside with
/// doubled quotes undone, an unquoted field as it stands.
pub open spec fn csv_text(f: Seq<char>) -> Seq<char> {
    if f.len() >= 2 && f[0] == '"' && f.last() == '"' {
        undoubled(f.subrange(1, f.len() - 1))
    } else {
        f
    }
}

proof fn lemma_undouble_quotes(x: Seq<char>)
    ensures
        undoubled(replace_char(x, '"', "\"\""@)) == x,
    decreases x.len(),
{
    reveal_strlit("\"\"");
    if x.len() > 0 {
        lemma_undouble_quotes(x.drop_first());
        let r = replace_char(x.drop_first(), '"', "\"\""@);
        let d = replace_char(x, '"', "\"\""@);
        if x[0] == '"' {
            assert(d =~= seq!['"', '"'] + r);
            assert(d.skip(2) =~= r);
            assert(undoubled(d) == seq!['"'] + undoubled(r));
        } else {
            assert(d =~= seq![x[0]] + r);
            assert(d.drop_first() =~= r);
            assert(undoubled(d) == seq![x[0]] + undoubled(r));
        }
        assert(x =~= seq![x[0]] + x.drop_first());
    }
}

/// A CSV field never loses text: whatever the cell's length, a CSV reader
/// gets back the cell's full, untruncated text (newlines as blanks); a text
/// holding a comma or a quote is quoted, any other stands as it is.
pub proof fn law_csv_field_full_text(v: Cell)
    ensures
        csv_text(csv_cell(v)) == replace_char(cell_raw(v), '\n', " "@),
        ({
            let t = replace_char(cell_raw(v), '\n', " "@);
            &&& (t.contains(',') || t.contains('"')) ==> csv_cell(v)[0] == '"' && csv_cell(v).last() == '"'
            &&& !(t.contains(',') || t.contains('"')) ==> csv_cell(v) == t
        }),
{
    reveal_strlit("\"");
    let t = replace_char(cell_raw(v), '\n', " "@);
    let f = csv_cell(v);
    if t.contains(',') || t.contains('"') {
        let d = replace_char(t, '"', "\"\""@);
        assert(f =~= seq!['"'] + d + seq!['"']);
        assert(f.subrange(1, f.len() - 1) =~= d);
        lemma_undouble_quotes(t);
    } else {
        assert(f == t);
        if t.len() >= 2 && t[0] == '"' {
            assert(t.contains('"'));
        }
    }
}

} // verus!
