//! The query side of the card DB: which SQL runs for `sql` and `search`, and how
//! result rows are laid out as a table, Markdown or CSV.

use vstd::prelude::*;
use vstd::string::StringSliceAdditionalSpecFns;
use crate::sql::{is_read_only, read_only_sql};
use crate::text::{
    chars_of, decimal, join, join_chars, push_chars, push_str, split_trim, split_trimmed,
    string_of, base_digits,
};

verus! {

/// Output format of a result listing.
#[derive(Clone, Copy, PartialEq, Eq, Debug)]
pub enum Format {
    Table,
    Json,
    Md,
    Csv,
}

/// How results are printed: format (with `--json`/`--md`/`--csv` shorthands),
/// row limit (0 = unlimited), truncation and column selection.
pub struct OutputArgs {
    pub format: Format,
    pub json: bool,
    pub md: bool,
    pub csv: bool,
    pub limit: usize,
    pub full: bool,
    pub width: usize,
    pub cols: Option<String>,
}

/// The effective format: a shorthand flag wins, `--json` first, then `--md`,
/// then `--csv`; otherwise the `--format` value.
pub open spec fn effective_format(o: OutputArgs) -> Format {
    if o.json {
        Format::Json
    } else if o.md {
        Format::Md
    } else if o.csv {
        Format::Csv
    } else {
        o.format
    }
}

/// The view of an optional string.
pub open spec fn opt_view(o: Option<String>) -> Option<Seq<char>> {
    match o {
        Some(s) => Some(s@),
        None => None,
    }
}

impl OutputArgs {
    /// Resolve the effective format, honoring the --json/--md/--csv shorthands.
    pub fn fmt(&self) -> (f: Format)
        ensures
            f == effective_format(*self),
    {
        if self.json {
            Format::Json
        } else if self.md {
            Format::Md
        } else if self.csv {
            Format::Csv
        } else {
            self.format
        }
    }
}

/// A query to run against the card DB: the SQL, the value bound to `?1` if
/// any, and how many rows to collect (0 = all).
pub struct FetchPlan {
    pub sql: String,
    pub bind: Option<String>,
    pub limit: usize,
}

/// Why a query is refused before it reaches the DB.
#[derive(Clone, Copy, PartialEq, Eq, Debug)]
pub enum QueryError {
    /// Anything but a single `SELECT`/`WITH` statement.
    NotReadOnly,
}

impl QueryError {
    /// The message shown for the refusal.
    pub fn message(&self) -> (s: String)
        ensures
            s@ == "only a single read-only SELECT/WITH statement is allowed"@,
    {
        "only a single read-only SELECT/WITH statement is allowed".to_owned()
    }
}

/// Plan `mtgbrain sql`: the statement runs as given, collecting up to
/// `out.limit` rows, when it is a single read-only statement; else it is refused.
pub fn run_sql(sql: &str, out: &OutputArgs) -> (res: Result<FetchPlan, QueryError>)
    ensures
        res is Err <==> !read_only_sql(sql@),
        res matches Err(e) ==> e == QueryError::NotReadOnly,
        res matches Ok(p) ==> p.sql@ == sql@ && p.bind is None && p.limit == out.limit,
{
    if !is_read_only(sql) {
        return Err(QueryError::NotReadOnly);
    }
    Ok(FetchPlan { sql: sql.to_owned(), bind: None, limit: out.limit })
}

/// The default columns of a search listing.
pub open spec fn default_search_cols() -> Seq<Seq<char>> {
    seq!["display_name"@, "mana_cost"@, "type"@, "edhrec_rank"@, "text"@]
}

/// The columns a search selects: the `--cols` list (comma-separated, trimmed)
/// or the defaults.
pub open spec fn search_cols(cols: Option<Seq<char>>) -> Seq<Seq<char>> {
    match cols {
        Some(c) => split_trimmed(c, ','),
        None => default_search_cols(),
    }
}

/// The full-text search statement: the columns (each as `c.<col>`) from
/// `cards` joined to its FTS index, matched against `?1`, narrowed by the extra
/// WHERE clause, ordered, and limited unless the limit is 0.
pub open spec fn search_sql(
    cols: Seq<Seq<char>>,
    where_clause: Option<Seq<char>>,
    order: Seq<char>,
    limit: nat,
) -> Seq<char> {
    let select = join(cols.map_values(|c: Seq<char>| "c."@ + c), ", "@);
    let base = "SELECT "@ + select
        + " FROM cards c JOIN cards_fts f ON f.rowid = c.id WHERE cards_fts MATCH ?1"@;
    let filtered = match where_clause {
        Some(w) => base + " AND ("@ + w + ")"@,
        None => base,
    };
    let ordered = filtered + " ORDER BY "@ + order;
    if limit > 0 {
        ordered + " LIMIT "@ + decimal(limit)
    } else {
        ordered
    }
}

/// The FTS query bound to `?1`: the text as given, or quoted as one phrase.
pub open spec fn fts_query(query: Seq<char>, phrase: bool) -> Seq<char> {
    if phrase {
        "\""@ + query + "\""@
    } else {
        query
    }
}

/// Output settings for a search listing: those given, with no column
/// re-selection (the SQL already selected the columns).
pub open spec fn search_output(o: OutputArgs, r: OutputArgs) -> bool {
    &&& r.format == o.format
    &&& r.json == o.json
    &&& r.md == o.md
    &&& r.csv == o.csv
    &&& r.limit == o.limit
    &&& r.full == o.full
    &&& r.width == o.width
    &&& r.cols is None
}

/// Plan `mtgbrain search`: the FTS statement (see [`search_sql`]) with the
/// query (or phrase) bound, collecting every row the SQL `LIMIT` lets through,
/// and the output settings for printing them.
pub fn search(
    query: &str,
    where_clause: Option<&str>,
    order: &str,
    phrase: bool,
    out: &OutputArgs,
) -> (res: (FetchPlan, OutputArgs))
    ensures
        res.0.sql@ == search_sql(
            search_cols(opt_view(out.cols)),
            match where_clause {
                Some(w) => Some(w@),
                None => None,
            },
            order@,
            out.limit as nat,
        ),
        res.0.bind matches Some(q) && q@ == fts_query(query@, phrase),
        res.0.limit == 0,
        search_output(*out, res.1),
{
    let cols: Vec<Vec<char>> = match &out.cols {
        Some(c) => split_trim(&chars_of(c.as_str()), ','),
        None => {
            let mut v: Vec<Vec<char>> = Vec::new();
            v.push(chars_of("display_name"));
            v.push(chars_of("mana_cost"));
            v.push(chars_of("type"));
            v.push(chars_of("edhrec_rank"));
            v.push(chars_of("text"));
            assert(v@.map_values(|p: Vec<char>| p@) =~= default_search_cols());
            v
        },
    };
    let ghost cs = cols@.map_values(|p: Vec<char>| p@);
    assert(cs == search_cols(opt_view(out.cols)));
    let mut prefixed: Vec<Vec<char>> = Vec::new();
    let mut i: usize = 0;
    while i < cols.len()
        invariant
            i <= cols.len(),
            cs == cols@.map_values(|p: Vec<char>| p@),
            prefixed@.len() == i,
            forall|k: int| 0 <= k < i ==> #[trigger] prefixed@[k]@ == "c."@ + cs[k],
        decreases cols.len() - i,
    {
        let mut p = chars_of("c.");
        push_chars(&mut p, &cols[i]);
        prefixed.push(p);
        i += 1;
    }
    assert(prefixed@.map_values(|p: Vec<char>| p@) =~= cs.map_values(|c: Seq<char>| "c."@ + c));
    let select = join_chars(&prefixed, &chars_of(", "));
    let mut sql = chars_of("SELECT ");
    push_chars(&mut sql, &select);
    push_str(&mut sql, " FROM cards c JOIN cards_fts f ON f.rowid = c.id WHERE cards_fts MATCH ?1");
    if let Some(w) = where_clause {
        push_str(&mut sql, " AND (");
        push_str(&mut sql, w);
        push_str(&mut sql, ")");
    }
    push_str(&mut sql, " ORDER BY ");
    push_str(&mut sql, order);
    if out.limit > 0 {
        push_str(&mut sql, " LIMIT ");
        let d = base_digits(out.limit as u64, 10);
        push_chars(&mut sql, &d);
    }
    let q = if phrase {
        let mut v = chars_of("\"");
        push_str(&mut v, query);
        push_str(&mut v, "\"");
        string_of(&v)
    } else {
        query.to_owned()
    };
    let plan = FetchPlan { sql: string_of(&sql), bind: Some(q), limit: 0 };
    let shown = OutputArgs {
        format: out.format,
        json: out.json,
        md: out.md,
        csv: out.csv,
        limit: out.limit,
        full: out.full,
        width: out.width,
        cols: None,
    };
    (plan, shown)
}

} // verus!
