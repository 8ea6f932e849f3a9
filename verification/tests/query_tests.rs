use mtgbrain::query::{run_sql, search, Format, OutputArgs, QueryError};
use mtgbrain::sql::{has_statement_separator, is_query_keyword, is_read_only, strip_sql_comments};
use mtgbrain::table::{
    cell, csv_listing, emit, md_listing, more_note_text, project, render, table_listing, Cell,
};

fn out(format: Format) -> OutputArgs {
    OutputArgs {
        format,
        json: false,
        md: false,
        csv: false,
        limit: 40,
        full: false,
        width: 70,
        cols: None,
    }
}

fn s(v: &[&str]) -> Vec<String> {
    v.iter().map(|x| x.to_string()).collect()
}

fn text(x: &str) -> Cell {
    Cell::Text(x.to_string())
}

#[test]
fn strips_line_and_block_comments() {
    assert_eq!(strip_sql_comments("SELECT 1 -- note\nFROM t"), "SELECT 1 \nFROM t");
    assert_eq!(strip_sql_comments("SELECT /* x; y */ 2"), "SELECT   2");
    assert_eq!(strip_sql_comments("SELECT '--not; a comment'"), "SELECT '--not; a comment'");
    assert_eq!(strip_sql_comments("SELECT 'it''s'"), "SELECT 'it''s'");
    assert_eq!(strip_sql_comments("SELECT * FROM cards WHERE name = 'Æther Vial'"), "SELECT * FROM cards WHERE name = 'Æther Vial'");
    assert_eq!(strip_sql_comments("SELECT 'é' /* ü */ -- ñ"), "SELECT 'é'   ");
}

#[test]
fn read_only_gate() {
    assert!(is_read_only("SELECT * FROM cards"));
    assert!(is_read_only("  with x as (select 1) select * from x;  "));
    assert!(is_read_only("(SELECT 1)"));
    assert!(is_read_only("SELECT ';' FROM cards"));
    assert!(is_read_only("SELECT ';' AS sep"));
    assert!(is_read_only("SELECT 'it''s; fine' AS x"));
    assert!(!is_read_only("SELECT 'a'; DELETE FROM cards"));
    assert!(!is_read_only("DELETE FROM cards"));
    assert!(is_read_only("SELECT 1; -- trailing; comment"));
    assert!(!is_read_only("DROP TABLE cards"));
    assert!(!is_read_only("SELECT 1; DELETE FROM cards"));
    assert!(!is_read_only("/* SELECT */ UPDATE cards SET name = 'x'"));
    assert!(!is_read_only(""));
}

#[test]
fn run_sql_plans_or_refuses() {
    let o = out(Format::Table);
    let plan = run_sql("SELECT name FROM cards", &o).ok().unwrap();
    assert_eq!(plan.sql, "SELECT name FROM cards");
    assert_eq!(plan.bind, None);
    assert_eq!(plan.limit, 40);
    let err = run_sql("DELETE FROM cards", &o).err().unwrap();
    assert_eq!(err, QueryError::NotReadOnly);
    assert_eq!(err.message(), "only a single read-only SELECT/WITH statement is allowed");
}

#[test]
fn format_shorthands() {
    let mut o = out(Format::Table);
    assert_eq!(o.fmt(), Format::Table);
    o.csv = true;
    assert_eq!(o.fmt(), Format::Csv);
    o.md = true;
    assert_eq!(o.fmt(), Format::Md);
    o.json = true;
    assert_eq!(o.fmt(), Format::Json);
}

#[test]
fn search_plan_default_columns() {
    let o = out(Format::Table);
    let (plan, shown) = search("flip a coin", Some("is_funny = 0"), "rank", true, &o);
    assert_eq!(
        plan.sql,
        "SELECT c.display_name, c.mana_cost, c.type, c.edhrec_rank, c.text FROM cards c JOIN cards_fts f ON f.rowid = c.id WHERE cards_fts MATCH ?1 AND (is_funny = 0) ORDER BY rank LIMIT 40"
    );
    assert_eq!(plan.bind, Some("\"flip a coin\"".to_string()));
    assert_eq!(plan.limit, 0);
    assert!(shown.cols.is_none());
    assert_eq!(shown.limit, 40);
}

#[test]
fn search_plan_custom_columns_unlimited() {
    let mut o = out(Format::Table);
    o.cols = Some("name , text".to_string());
    o.limit = 0;
    let (plan, _) = search("counter", None, "edhrec_rank", false, &o);
    assert_eq!(
        plan.sql,
        "SELECT c.name, c.text FROM cards c JOIN cards_fts f ON f.rowid = c.id WHERE cards_fts MATCH ?1 ORDER BY edhrec_rank"
    );
    assert_eq!(plan.bind, Some("counter".to_string()));
}

#[test]
fn cells_truncate_and_flatten() {
    assert_eq!(cell(&Cell::Null, 10, false).iter().collect::<String>(), "");
    assert_eq!(cell(&Cell::Int(-42), 10, false).iter().collect::<String>(), "-42");
    assert_eq!(cell(&Cell::Real("2.50".to_string()), 10, false).iter().collect::<String>(), "2.50");
    assert_eq!(cell(&text("a\nb"), 10, false).iter().collect::<String>(), "a / b");
    assert_eq!(cell(&text("abcdefghij"), 5, false).iter().collect::<String>(), "abcd…");
    assert_eq!(cell(&text("abcdefghij"), 5, true).iter().collect::<String>(), "abcdefghij");
    assert_eq!(cell(&text("abcdefghij"), 0, false).iter().collect::<String>(), "abcdefghij");
}

#[test]
fn projection_reorders_and_fills() {
    let cols = s(&["a", "b"]);
    let rows = vec![vec![Cell::Int(1), text("x")]];
    let (c2, r2) = project(&cols, &rows, &s(&["b", "zz", "a"]));
    assert_eq!(c2, s(&["b", "zz", "a"]));
    assert!(matches!(&r2[0][0], Cell::Text(t) if t == "x"));
    assert!(matches!(&r2[0][1], Cell::Null));
    assert!(matches!(&r2[0][2], Cell::Int(1)));
}

#[test]
fn csv_layout_quotes() {
    let cols = s(&["name", "text"]);
    let rows = vec![vec![text("Fire, Ice"), text("say \"hi\"\nnow")]];
    assert_eq!(csv_listing(&cols, &rows), "name,text\n\"Fire, Ice\",\"say \"\"hi\"\" / now\"");
}

#[test]
fn md_layout_escapes_pipes() {
    let cols = s(&["a", "b"]);
    let rows = vec![vec![text("x|y"), Cell::Int(3)]];
    assert_eq!(md_listing(&cols, &rows, 70, false), "| a | b |\n| --- | --- |\n| x\\|y | 3 |");
}

#[test]
fn table_layout_aligns() {
    let cols = s(&["name", "mv"]);
    let rows = vec![vec![text("Opt"), Cell::Int(1)], vec![text("Counterspell"), Cell::Int(2)]];
    assert_eq!(
        table_listing(&cols, &rows, 70, false),
        "name          mv\n------------  --\nOpt           1 \nCounterspell  2 "
    );
}

#[test]
fn render_picks_format() {
    let cols = s(&["a"]);
    let rows = vec![vec![Cell::Int(7)]];
    assert_eq!(render(&cols, &rows, &out(Format::Csv)), "a\n7");
    assert_eq!(render(&cols, &rows, &out(Format::Md)), "| a |\n| --- |\n| 7 |");
}

#[test]
fn emit_lines_and_more_note() {
    let cols = s(&["a", "b"]);
    let rows = vec![vec![Cell::Int(1), Cell::Int(2)]];
    let mut o = out(Format::Csv);
    o.limit = 1;
    assert_eq!(
        emit(&cols, &rows, true, &o),
        vec![
            "a,b\n1,2".to_string(),
            "\n... showing first 1 rows; tighten the WHERE or raise --limit for more.".to_string()
        ]
    );
    o.cols = Some("b".to_string());
    assert_eq!(emit(&cols, &rows, false, &o), vec!["b\n2".to_string()]);
    let none: Vec<Vec<Cell>> = Vec::new();
    assert_eq!(emit(&cols, &none, false, &o), vec!["(no rows)".to_string()]);
    assert_eq!(
        more_note_text(40),
        "\n... showing first 40 rows; tighten the WHERE or raise --limit for more."
    );
}

#[test]
fn keyword_and_separator_checks() {
    assert!(is_query_keyword("select"));
    assert!(is_query_keyword("with"));
    assert!(!is_query_keyword("SELECT"));
    assert!(!is_query_keyword("delete"));
    let v = |s: &str| s.chars().collect::<Vec<char>>();
    assert!(has_statement_separator(&v("a; b")));
    assert!(!has_statement_separator(&v("'a; b'")));
    assert!(!has_statement_separator(&v("'it''s;'")));
}
