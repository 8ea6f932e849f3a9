//! The SQL gate in front of the card DB: comments are stripped (respecting
//! quoted literals) and only a single `SELECT`/`WITH` statement gets through.

use vstd::prelude::*;
use crate::text::{
    chars_of, first_word, first_word_vec, in_class, is_ws, lowercase, same_chars, string_of,
    to_lower, trim, trim_end, trim_end_vec, trim_start, trim_start_vec, trim_vec, Class,
};

verus! {

/// Where the comment scanner stands.
#[derive(Clone, Copy, PartialEq, Eq)]
pub enum Scan {
    /// Ordinary SQL text.
    Plain,
    /// Inside a single-quoted literal (`''` is an escaped quote).
    Quoted,
    /// Inside a `-- ...` comment, up to the end of the line.
    LineComment,
    /// Inside a `/* ... */` comment.
    BlockComment,
}

/// The output of the comment stripper on the characters `s[i..]`, starting in
/// state `m`. Text outside comments is kept as it is; a block comment becomes
/// one space; a line comment disappears up to (not including) its newline; an
/// unterminated block comment swallows the rest.
pub open spec fn strip_from(s: Seq<char>, i: int, m: Scan) -> Seq<char>
    decreases s.len() - i,
{
    if i < 0 || i >= s.len() {
        Seq::empty()
    } else {
        match m {
            Scan::Quoted => {
                if s[i] == '\'' {
                    if i + 1 < s.len() && s[i + 1] == '\'' {
                        seq!['\'', '\''] + strip_from(s, i + 2, Scan::Quoted)
                    } else {
                        seq!['\''] + strip_from(s, i + 1, Scan::Plain)
                    }
                } else {
                    seq![s[i]] + strip_from(s, i + 1, Scan::Quoted)
                }
            },
            Scan::Plain => {
                if s[i] == '\'' {
                    seq!['\''] + strip_from(s, i + 1, Scan::Quoted)
                } else if s[i] == '-' && i + 1 < s.len() && s[i + 1] == '-' {
                    strip_from(s, i + 2, Scan::LineComment)
                } else if s[i] == '/' && i + 1 < s.len() && s[i + 1] == '*' {
                    seq![' '] + strip_from(s, i + 2, Scan::BlockComment)
                } else {
                    seq![s[i]] + strip_from(s, i + 1, Scan::Plain)
                }
            },
            Scan::LineComment => {
                if s[i] == '\n' {
                    seq!['\n'] + strip_from(s, i + 1, Scan::Plain)
                } else {
                    strip_from(s, i + 1, Scan::LineComment)
                }
            },
            Scan::BlockComment => {
                if i + 1 < s.len() {
                    if s[i] == '*' && s[i + 1] == '/' {
                        strip_from(s, i + 2, Scan::Plain)
                    } else {
                        strip_from(s, i + 1, Scan::BlockComment)
                    }
                } else {
                    Seq::empty()
                }
            },
        }
    }
}

/// The comment-free text of the SQL `s`.
pub open spec fn strip_comments(s: Seq<char>) -> Seq<char> {
    strip_from(s, 0, Scan::Plain)
}

/// Strip `-- line` and `/* block */` comments, respecting single-quoted string
/// literals (including `''` escapes); all other text is returned unchanged.
pub fn strip_sql_comments(sql: &str) -> (res: String)
    ensures
        res@ == strip_comments(sql@),
{
    let b = chars_of(sql);
    let n = b.len();
    let mut out: Vec<char> = Vec::new();
    let mut i: usize = 0;
    let mut m = Scan::Plain;
    while i < n
        invariant
            n == b@.len(),
            b@ == sql@,
            i <= n,
            out@ + strip_from(b@, i as int, m) == strip_comments(b@),
        decreases n - i,
    {
        let ghost before = out@;
        let c = b[i];
        match m {
            Scan::Quoted => {
                if c == '\'' {
                    if i + 1 < n && b[i + 1] == '\'' {
                        out.push('\'');
                        out.push('\'');
                        assert(out@ == before + seq!['\'', '\'']);
                        i += 2;
                    } else {
                        out.push('\'');
                        m = Scan::Plain;
                        i += 1;
                    }
                } else {
                    out.push(c);
                    i += 1;
                }
            },
            Scan::Plain => {
                if c == '\'' {
                    out.push('\'');
                    m = Scan::Quoted;
                    i += 1;
                } else if c == '-' && i + 1 < n && b[i + 1] == '-' {
                    m = Scan::LineComment;
                    i += 2;
                } else if c == '/' && i + 1 < n && b[i + 1] == '*' {
                    out.push(' ');
                    m = Scan::BlockComment;
                    i += 2;
                } else {
                    out.push(c);
                    i += 1;
                }
            },
            Scan::LineComment => {
                if c == '\n' {
                    out.push('\n');
                    m = Scan::Plain;
                }
                i += 1;
            },
            Scan::BlockComment => {
                if i + 1 < n {
                    if c == '*' && b[i + 1] == '/' {
                        m = Scan::Plain;
                        i += 2;
                    } else {
                        i += 1;
                    }
                } else {
                    i = n;
                }
            },
        }
        assert forall|x: Seq<char>, y: Seq<char>, z: Seq<char>| #![auto] (x + y) + z == x + (y + z) by {
            assert((x + y) + z =~= x + (y + z));
        }
    }
    string_of(&out)
}

/// Whether `s[i..]` holds a `;` outside single-quoted literals, starting inside
/// a literal when `quoted` (a doubled `''` closes and reopens the literal, so it
/// stays inside).
pub open spec fn separator_from(s: Seq<char>, i: int, quoted: bool) -> bool
    decreases s.len() - i,
{
    if i < 0 || i >= s.len() {
        false
    } else if s[i] == '\'' {
        separator_from(s, i + 1, !quoted)
    } else if !quoted && s[i] == ';' {
        true
    } else {
        separator_from(s, i + 1, quoted)
    }
}

/// Whether `s` holds a statement separator: a `;` outside string literals.
pub open spec fn has_separator(s: Seq<char>) -> bool {
    separator_from(s, 0, false)
}

/// Whether the text holds a `;` outside single-quoted literals.
pub fn has_statement_separator(s: &Vec<char>) -> (b: bool)
    ensures
        b == has_separator(s@),
{
    let mut quoted = false;
    let mut i: usize = 0;
    while i < s.len()
        invariant
            i <= s.len(),
            has_separator(s@) == separator_from(s@, i as int, quoted),
        decreases s.len() - i,
    {
        if s[i] == '\'' {
            quoted = !quoted;
        } else if !quoted && s[i] == ';' {
            return true;
        }
        i += 1;
    }
    false
}

/// The statement text that the read-only gate inspects: comments stripped,
/// blanks trimmed, trailing `;`s dropped, blanks trimmed again.
pub open spec fn statement_core(stripped: Seq<char>) -> Seq<char> {
    trim(trim_end(trim(stripped), Class::Is(';')))
}

/// The statement's leading keyword: its first word once opening parentheses
/// (and the blanks after them) are skipped.
pub open spec fn leading_keyword(core: Seq<char>) -> Seq<char> {
    first_word(trim_start(core, Class::Is('(')))
}

/// A single read-only statement: no statement separator left in the core,
/// and the leading keyword is `select` or `with` in any case.
pub open spec fn read_only_sql(sql: Seq<char>) -> bool {
    let core = statement_core(strip_comments(sql));
    &&& !has_separator(core)
    &&& query_keyword(lowercase(leading_keyword(core)))
}

/// The keywords a read-only statement may begin with.
pub open spec fn query_keyword(word: Seq<char>) -> bool {
    word == "select"@ || word == "with"@
}

/// Whether an already lower-cased word begins a read-only statement.
pub fn is_query_keyword(lower: &str) -> (b: bool)
    ensures
        b == query_keyword(lower@),
{
    let lv = chars_of(lower);
    same_chars(&lv, &chars_of("select")) || same_chars(&lv, &chars_of("with"))
}

/// Whether `sql` is a single read-only `SELECT`/`WITH` statement.
pub fn is_read_only(sql: &str) -> (b: bool)
    ensures
        b == read_only_sql(sql@),
{
    let stripped = strip_sql_comments(sql);
    let v = chars_of(stripped.as_str());
    let t1 = trim_vec(&v);
    let t2 = trim_end_vec(&t1, &Class::Is(';'));
    let core = trim_vec(&t2);
    if has_statement_separator(&core) {
        return false;
    }
    let head = trim_start_vec(&core, &Class::Is('('));
    let word = first_word_vec(&head);
    let word_s = string_of(&word);
    let lower = to_lower(word_s.as_str());
    is_query_keyword(lower.as_str())
}

/// An ASCII letter.
pub open spec fn is_letter(c: char) -> bool {
    ('a' <= c <= 'z') || ('A' <= c <= 'Z')
}

proof fn lemma_strip_plain(x: Seq<char>, i: int, n: int)
    requires
        0 <= i <= n <= x.len(),
        forall|j: int| i <= j < n ==> #[trigger] x[j] != '\'' && x[j] != '-' && x[j] != '/',
    ensures
        strip_from(x, i, Scan::Plain) == x.subrange(i, n) + strip_from(x, n, Scan::Plain),
    decreases n - i,
{
    if i < n {
        lemma_strip_plain(x, i + 1, n);
        assert(strip_from(x, i, Scan::Plain) == seq![x[i]] + strip_from(x, i + 1, Scan::Plain));
        assert(x.subrange(i, n) =~= seq![x[i]] + x.subrange(i + 1, n));
    } else {
        assert(x.subrange(i, n) =~= Seq::<char>::empty());
    }
}

proof fn lemma_no_semi_concat(a: Seq<char>, b: Seq<char>)
    requires
        !a.contains(';'),
        !b.contains(';'),
    ensures
        !(a + b).contains(';'),
{
    assert forall|k: int| 0 <= k < (a + b).len() implies (a + b)[k] != ';' by {
        if k < a.len() {
            assert((a + b)[k] == a[k]);
        } else {
            assert((a + b)[k] == b[k - a.len()]);
        }
    }
}

proof fn lemma_strip_no_semi(x: Seq<char>, i: int, m: Scan)
    requires
        !x.contains(';'),
    ensures
        !strip_from(x, i, m).contains(';'),
    decreases x.len() - i,
{
    if 0 <= i < x.len() {
        assert(x[i] != ';');
        let q2 = seq!['\'', '\''];
        let q1 = seq!['\''];
        let sp = seq![' '];
        let nl = seq!['\n'];
        let c = seq![x[i]];
        assert(!q2.contains(';') && !q1.contains(';') && !sp.contains(';') && !nl.contains(';') && !c.contains(';')) by {
            assert(q2[0] != ';' && q2[1] != ';');
        }
        lemma_strip_no_semi(x, i + 1, Scan::Plain);
        lemma_strip_no_semi(x, i + 1, Scan::Quoted);
        lemma_strip_no_semi(x, i + 1, Scan::LineComment);
        lemma_strip_no_semi(x, i + 1, Scan::BlockComment);
        if i + 2 <= x.len() {
            lemma_strip_no_semi(x, i + 2, Scan::Plain);
            lemma_strip_no_semi(x, i + 2, Scan::Quoted);
            lemma_strip_no_semi(x, i + 2, Scan::LineComment);
            lemma_strip_no_semi(x, i + 2, Scan::BlockComment);
        } else {
            assert(strip_from(x, i + 2, Scan::Plain) =~= Seq::<char>::empty());
            assert(strip_from(x, i + 2, Scan::Quoted) =~= Seq::<char>::empty());
            assert(strip_from(x, i + 2, Scan::LineComment) =~= Seq::<char>::empty());
            assert(strip_from(x, i + 2, Scan::BlockComment) =~= Seq::<char>::empty());
        }
        lemma_no_semi_concat(q2, strip_from(x, i + 2, Scan::Quoted));
        lemma_no_semi_concat(q1, strip_from(x, i + 1, Scan::Plain));
        lemma_no_semi_concat(q1, strip_from(x, i + 1, Scan::Quoted));
        lemma_no_semi_concat(c, strip_from(x, i + 1, Scan::Quoted));
        lemma_no_semi_concat(c, strip_from(x, i + 1, Scan::Plain));
        lemma_no_semi_concat(sp, strip_from(x, i + 2, Scan::BlockComment));
        lemma_no_semi_concat(nl, strip_from(x, i + 1, Scan::Plain));
    }
}

proof fn lemma_no_semi_no_separator(s: Seq<char>, i: int, q: bool)
    requires
        !s.contains(';'),
    ensures
        !separator_from(s, i, q),
    decreases s.len() - i,
{
    if 0 <= i < s.len() {
        assert(s[i] != ';');
        lemma_no_semi_no_separator(s, i + 1, !q);
        lemma_no_semi_no_separator(s, i + 1, q);
    }
}

/// Statement text free of comments and of `;` whose leading letters end at a
/// whitespace character or at the end: the keyword the read-only test reads is those letters,
/// and it sees no separator.
proof fn lemma_gate_reads_word(t: Seq<char>, k: Seq<char>)
    requires
        k.len() > 0,
        k.len() <= t.len(),
        t.take(k.len() as int) == k,
        forall|i: int| 0 <= i < k.len() ==> is_letter(#[trigger] k[i]),
        t.len() == k.len() || is_ws(t[k.len() as int]),
        !t.contains(';'),
    ensures
        leading_keyword(statement_core(t)) == k,
        !has_separator(statement_core(t)),
{
    let n = k.len() as int;
    assert forall|i: int| 0 <= i < n implies !is_ws(#[trigger] t[i]) && t[i] != '(' by {
        assert(t[i] == k[i]);
        assert(is_letter(k[i]));
    }
    assert(trim_start(t, Class::Space) == t);
    let e = crate::text::lemma_trim_end_at(t, Class::Space);
    assert(e >= n) by {
        if e < n {
            assert(in_class(Class::Space, t[n - 1]));
        }
    }
    let a = t.take(e);
    assert(trim(t) == a);
    assert(a[e - 1] == t[e - 1]);
    assert(!a.contains(';')) by {
        assert forall|j: int| 0 <= j < a.len() implies a[j] != ';' by {
            assert(a[j] == t[j]);
        }
    }
    assert(a.last() != ';');
    assert(trim_end(a, Class::Is(';')) == a);
    assert(a[0] == t[0]);
    assert(trim_start(a, Class::Space) == a);
    assert(trim_end(a, Class::Space) == a);
    assert(statement_core(t) == a);
    assert(trim_start(a, Class::Is('(')) == a);
    assert forall|i: int| 0 <= i < n implies !is_ws(#[trigger] a[i]) by {
        assert(a[i] == t[i]);
    }
    if n < a.len() {
        assert(a[n] == t[n]);
    }
    crate::text::lemma_take_word_prefix(a, n);
    assert(a.take(n) =~= k) by {
        assert forall|i: int| 0 <= i < n implies a.take(n)[i] == k[i] by {
            assert(a[i] == t[i]);
            assert(t.take(n)[i] == t[i]);
        }
    }
    lemma_no_semi_no_separator(a, 0, false);
}

/// Any whitespace character ends the keyword the read-only test reads, not only a space: when a
/// statement opens with ASCII letters (such as `SELECT`), then a newline, tab
/// or other whitespace character, and holds no `;` anywhere, the read-only test judges
/// it exactly as it judges those letters alone, so a multi-line `SELECT` is
/// accepted just as `SELECT` is.
pub proof fn law_keyword_ends_at_any_blank(word: Seq<char>, blank: char, rest: Seq<char>)
    requires
        word.len() > 0,
        forall|i: int| 0 <= i < word.len() ==> is_letter(#[trigger] word[i]),
        is_ws(blank),
        !rest.contains(';'),
    ensures
        read_only_sql(word + seq![blank] + rest) == read_only_sql(word),
{
    let n = word.len() as int;
    let x = word + seq![blank] + rest;
    assert forall|j: int| 0 <= j < n + 1 implies #[trigger] x[j] != '\'' && x[j] != '-' && x[j] != '/' by {
        if j < n {
            assert(x[j] == word[j]);
            assert(is_letter(word[j]));
        } else {
            assert(x[j] == blank);
        }
    }
    lemma_strip_plain(x, 0, n + 1);
    assert(!x.contains(';')) by {
        assert forall|j: int| 0 <= j < x.len() implies x[j] != ';' by {
            if j < n {
                assert(x[j] == word[j]);
                assert(is_letter(word[j]));
            } else if j == n {
                assert(x[j] == blank);
            } else {
                assert(x[j] == rest[j - n - 1]);
            }
        }
    }
    lemma_strip_no_semi(x, n + 1, Scan::Plain);
    let head = x.subrange(0, n + 1);
    assert(!head.contains(';')) by {
        assert forall|j: int| 0 <= j < head.len() implies head[j] != ';' by {
            assert(head[j] == x[j]);
        }
    }
    lemma_no_semi_concat(head, strip_from(x, n + 1, Scan::Plain));
    let t = strip_comments(x);
    assert(t == head + strip_from(x, n + 1, Scan::Plain));
    assert(t.take(n) =~= word) by {
        assert forall|i: int| 0 <= i < n implies t.take(n)[i] == word[i] by {
            assert(t[i] == head[i]);
            assert(head[i] == x[i]);
            assert(x[i] == word[i]);
        }
    }
    assert(t[n] == blank) by {
        assert(t[n] == head[n]);
    }
    lemma_gate_reads_word(t, word);

    assert forall|j: int| 0 <= j < n implies #[trigger] word[j] != '\'' && word[j] != '-' && word[j] != '/' by {
        assert(is_letter(word[j]));
    }
    lemma_strip_plain(word, 0, n);
    assert(strip_from(word, n, Scan::Plain) == Seq::<char>::empty());
    assert(word.subrange(0, n) =~= word);
    assert(strip_comments(word) =~= word);
    assert(!word.contains(';')) by {
        assert forall|j: int| 0 <= j < n implies word[j] != ';' by {
            assert(is_letter(word[j]));
        }
    }
    assert(word.take(n) =~= word);
    lemma_gate_reads_word(word, word);
}

} // verus!
