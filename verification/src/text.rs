//! Character-level building blocks shared by every module: turning a string into
//! its characters and back, and the std calls that the logic needs.

use vstd::prelude::*;

verus! {

/// Appends one character to a string (std `String::push`).
#[verifier::external_body]
pub(crate) fn push_char(s: &mut String, c: char)
    ensures
        final(s)@ == old(s)@.push(c),
{
    s.push(c);
}

/// The characters of `s`, in order.
pub fn chars_of(s: &str) -> (res: Vec<char>)
    ensures
        res@ == s@,
{
    let mut res: Vec<char> = Vec::new();
    for c in it: s.chars()
        invariant
            res@ == it.seq().take(it.index() as int),
    {
        res.push(c);
    }
    res
}

/// The string made of the characters `cs`.
pub fn string_of(cs: &Vec<char>) -> (res: String)
    ensures
        res@ == cs@,
{
    let mut res = String::new();
    let mut i: usize = 0;
    while i < cs.len()
        invariant
            i <= cs.len(),
            res@ == cs@.take(i as int),
        decreases cs.len() - i,
    {
        push_char(&mut res, cs[i]);
        i += 1;
        assert(cs@.take(i as int) == cs@.take(i - 1).push(cs@[i - 1]));
    }
    assert(cs@.take(cs.len() as int) == cs@);
    res
}

} // verus!

verus! {

/// Unicode `White_Space`: the characters that std's `char::is_whitespace`,
/// `str::trim` and `str::split_whitespace` treat as blank.
pub open spec fn is_ws(c: char) -> bool {
    let u = c as u32;
    ||| 9 <= u <= 13
    ||| u == 32
    ||| u == 0x85
    ||| u == 0xA0
    ||| u == 0x1680
    ||| 0x2000 <= u <= 0x200A
    ||| u == 0x2028
    ||| u == 0x2029
    ||| u == 0x202F
    ||| u == 0x205F
    ||| u == 0x3000
}

/// Whether `c` is blank (see [`is_ws`]).
pub fn is_whitespace(c: char) -> (b: bool)
    ensures
        b == is_ws(c),
{
    let u = c as u32;
    (9 <= u && u <= 13) || u == 32 || u == 0x85 || u == 0xA0 || u == 0x1680 || (0x2000 <= u
        && u <= 0x200A) || u == 0x2028 || u == 0x2029 || u == 0x202F || u == 0x205F || u == 0x3000
}

/// A set of characters that a trim removes: blanks, or one given character.
pub enum Class {
    Space,
    Is(char),
}

pub open spec fn in_class(k: Class, c: char) -> bool {
    match k {
        Class::Space => is_ws(c),
        Class::Is(x) => c == x,
    }
}

pub fn class_has(k: &Class, c: char) -> (b: bool)
    ensures
        b == in_class(*k, c),
{
    match k {
        Class::Space => is_whitespace(c),
        Class::Is(x) => c == *x,
    }
}

/// `s` without its leading characters of class `k` (std `trim_start_matches`).
pub open spec fn trim_start(s: Seq<char>, k: Class) -> Seq<char>
    decreases s.len(),
{
    if s.len() > 0 && in_class(k, s[0]) {
        trim_start(s.drop_first(), k)
    } else {
        s
    }
}

/// `s` without its trailing characters of class `k` (std `trim_end_matches`).
pub open spec fn trim_end(s: Seq<char>, k: Class) -> Seq<char>
    decreases s.len(),
{
    if s.len() > 0 && in_class(k, s.last()) {
        trim_end(s.drop_last(), k)
    } else {
        s
    }
}

/// std `str::trim`: blanks removed at both ends.
pub open spec fn trim(s: Seq<char>) -> Seq<char> {
    trim_end(trim_start(s, Class::Space), Class::Space)
}

/// The leading run of non-blank characters of `s`.
pub open spec fn take_word(s: Seq<char>) -> Seq<char>
    decreases s.len(),
{
    if s.len() == 0 || is_ws(s[0]) {
        Seq::empty()
    } else {
        seq![s[0]] + take_word(s.drop_first())
    }
}

/// The first blank-separated word of `s` (std `split_whitespace().next()`), or
/// the empty sequence when `s` is all blank.
pub open spec fn first_word(s: Seq<char>) -> Seq<char> {
    take_word(trim_start(s, Class::Space))
}

/// The characters `v[lo..hi]`.
pub fn slice_chars(v: &Vec<char>, lo: usize, hi: usize) -> (res: Vec<char>)
    requires
        lo <= hi <= v.len(),
    ensures
        res@ == v@.subrange(lo as int, hi as int),
{
    let mut res: Vec<char> = Vec::new();
    let mut i = lo;
    while i < hi
        invariant
            lo <= i <= hi <= v.len(),
            res@ == v@.subrange(lo as int, i as int),
        decreases hi - i,
    {
        res.push(v[i]);
        i += 1;
        assert(res@ == v@.subrange(lo as int, i as int));
    }
    res
}

/// Index of the first character of `v` outside class `k` (so `v[i..]` is the
/// trimmed start).
pub fn skip_start(v: &Vec<char>, k: &Class) -> (i: usize)
    ensures
        i <= v.len(),
        v@.subrange(i as int, v.len() as int) == trim_start(v@, *k),
{
    let mut i: usize = 0;
    assert(v@.subrange(0, v.len() as int) == v@);
    while i < v.len() && class_has(k, v[i])
        invariant
            i <= v.len(),
            trim_start(v@.subrange(i as int, v.len() as int), *k) == trim_start(v@, *k),
        decreases v.len() - i,
    {
        assert(v@.subrange(i as int, v.len() as int).drop_first() == v@.subrange(
            i + 1,
            v.len() as int,
        ));
        i += 1;
    }
    i
}

/// Index just past the last character of `v[..hi]` outside class `k`.
pub fn skip_end(v: &Vec<char>, hi: usize, k: &Class) -> (j: usize)
    requires
        hi <= v.len(),
    ensures
        j <= hi,
        v@.subrange(0, j as int) == trim_end(v@.subrange(0, hi as int), *k),
{
    let mut j: usize = hi;
    while j > 0 && class_has(k, v[j - 1])
        invariant
            j <= hi <= v.len(),
            trim_end(v@.subrange(0, j as int), *k) == trim_end(v@.subrange(0, hi as int), *k),
        decreases j,
    {
        assert(v@.subrange(0, j as int).drop_last() == v@.subrange(0, j - 1));
        j -= 1;
    }
    j
}

/// `v` with class-`k` characters removed at the start.
pub fn trim_start_vec(v: &Vec<char>, k: &Class) -> (res: Vec<char>)
    ensures
        res@ == trim_start(v@, *k),
{
    let i = skip_start(v, k);
    slice_chars(v, i, v.len())
}

/// `v` with class-`k` characters removed at the end.
pub fn trim_end_vec(v: &Vec<char>, k: &Class) -> (res: Vec<char>)
    ensures
        res@ == trim_end(v@, *k),
{
    let j = skip_end(v, v.len(), k);
    assert(v@.subrange(0, v.len() as int) == v@);
    slice_chars(v, 0, j)
}

/// std `str::trim` on characters.
pub fn trim_vec(v: &Vec<char>) -> (res: Vec<char>)
    ensures
        res@ == trim(v@),
{
    let a = trim_start_vec(v, &Class::Space);
    trim_end_vec(&a, &Class::Space)
}

/// The first blank-separated word of `v` (empty when there is none).
pub fn first_word_vec(v: &Vec<char>) -> (res: Vec<char>)
    ensures
        res@ == first_word(v@),
{
    let t = trim_start_vec(v, &Class::Space);
    let mut i: usize = 0;
    assert(t@.subrange(0, t.len() as int) == t@);
    assert(t@.subrange(0, 0) + t@ == t@);
    while i < t.len() && !is_whitespace(t[i])
        invariant
            i <= t.len(),
            take_word(t@) == t@.subrange(0, i as int) + take_word(t@.subrange(i as int, t.len() as int)),
        decreases t.len() - i,
    {
        let ghost rest = t@.subrange(i as int, t.len() as int);
        assert(rest.drop_first() == t@.subrange(i + 1, t.len() as int));
        assert(t@.subrange(0, i + 1) == t@.subrange(0, i as int) + seq![t@[i as int]]);
        i += 1;
    }
    assert(take_word(t@.subrange(i as int, t.len() as int)) == Seq::<char>::empty());
    assert(t@.subrange(0, i as int) + Seq::<char>::empty() == t@.subrange(0, i as int));
    slice_chars(&t, 0, i)
}

/// Whether `c` occurs in `v`.
pub fn has_char(v: &Vec<char>, c: char) -> (b: bool)
    ensures
        b == v@.contains(c),
{
    let mut i: usize = 0;
    while i < v.len()
        invariant
            i <= v.len(),
            forall|k: int| 0 <= k < i ==> v@[k] != c,
        decreases v.len() - i,
    {
        if v[i] == c {
            return true;
        }
        i += 1;
    }
    false
}

/// Whether `a` and `b` hold the same characters.
pub fn same_chars(a: &Vec<char>, b: &Vec<char>) -> (r: bool)
    ensures
        r == (a@ == b@),
{
    if a.len() != b.len() {
        return false;
    }
    let mut i: usize = 0;
    while i < a.len()
        invariant
            i <= a.len() == b.len(),
            forall|k: int| 0 <= k < i ==> a@[k] == b@[k],
        decreases a.len() - i,
    {
        if a[i] != b[i] {
            return false;
        }
        i += 1;
    }
    assert(a@ =~= b@);
    true
}

/// The characters of a string, as a name for std's `str::to_lowercase` (full
/// Unicode case mapping, which may change a string's length).
pub uninterp spec fn lowercase(s: Seq<char>) -> Seq<char>;

/// All characters of `s` are ASCII.
pub open spec fn is_ascii_text(s: Seq<char>) -> bool {
    forall|i: int| 0 <= i < s.len() ==> (#[trigger] s[i] as u32) < 128
}

/// std `str::to_lowercase`: its result is named [`lowercase`] of the input; on
/// ASCII text it maps `A`-`Z` to `a`-`z` and keeps every other character (as
/// std documents for ASCII).
#[verifier::external_body]
pub(crate) fn to_lower(s: &str) -> (res: String)
    ensures
        res@ == lowercase(s@),
        is_ascii_text(s@) ==> res@ == s@.map_values(|c: char| crate::urls::ascii_lower(c)),
{
    s.to_lowercase()
}


/// The characters of a string, as a name for std's `str::to_uppercase` (full
/// Unicode case mapping, which may change a string's length).
pub uninterp spec fn uppercase(s: Seq<char>) -> Seq<char>;

/// A name for std's `char::to_uppercase` of one character (one to three
/// characters).
pub uninterp spec fn char_upper(c: char) -> Seq<char>;

/// std `char::to_uppercase`, collected: named [`char_upper`].
#[verifier::external_body]
pub(crate) fn upper_char(c: char) -> (res: String)
    ensures
        res@ == char_upper(c),
        (c as u32) < 128 ==> res@ == seq![ascii_upper(c)],
{
    c.to_uppercase().collect()
}

/// std `str::to_uppercase`: its result is named [`uppercase`] of the input; on
/// ASCII text it maps `a`-`z` to `A`-`Z` and keeps every other character.
#[verifier::external_body]
pub(crate) fn to_upper(s: &str) -> (res: String)
    ensures
        res@ == uppercase(s@),
        is_ascii_text(s@) ==> res@ == s@.map_values(|c: char| ascii_upper(c)),
{
    s.to_uppercase()
}

} // verus!

verus! {

/// std `str::split(c)`: the pieces of `s` between occurrences of `c` (always at
/// least one piece; separators are dropped).
pub open spec fn split_on(s: Seq<char>, c: char) -> Seq<Seq<char>>
    decreases s.len(),
{
    if s.len() == 0 {
        seq![Seq::empty()]
    } else {
        let rest = split_on(s.drop_first(), c);
        if s[0] == c {
            seq![Seq::<char>::empty()] + rest
        } else {
            rest.update(0, seq![s[0]] + rest[0])
        }
    }
}

pub proof fn lemma_split_nonempty(s: Seq<char>, c: char)
    ensures
        split_on(s, c).len() >= 1,
    decreases s.len(),
{
    if s.len() > 0 {
        lemma_split_nonempty(s.drop_first(), c);
    }
}

/// Splitting at a separator splits each side on its own.
pub proof fn lemma_split_concat(x: Seq<char>, y: Seq<char>, c: char)
    ensures
        split_on(x + seq![c] + y, c) == split_on(x, c) + split_on(y, c),
    decreases x.len(),
{
    let s = x + seq![c] + y;
    if x.len() == 0 {
        assert(s =~= seq![c] + y);
        assert(s.drop_first() =~= y);
    } else {
        assert(s.drop_first() =~= x.drop_first() + seq![c] + y);
        lemma_split_concat(x.drop_first(), y, c);
        lemma_split_nonempty(x.drop_first(), c);
        let a = split_on(x.drop_first(), c);
        let b = split_on(y, c);
        if x[0] != c {
            assert((a + b).update(0, seq![x[0]] + (a + b)[0]) =~= a.update(0, seq![x[0]] + a[0]) + b);
        } else {
            assert(seq![Seq::<char>::empty()] + (a + b) =~= (seq![Seq::<char>::empty()] + a) + b);
        }
    }
}

/// A piece without the separator is not split.
pub proof fn lemma_split_whole(y: Seq<char>, c: char)
    requires
        !y.contains(c),
    ensures
        split_on(y, c) == seq![y],
    decreases y.len(),
{
    if y.len() > 0 {
        assert(!y.drop_first().contains(c)) by {
            if y.drop_first().contains(c) {
                let k = choose|k: int| 0 <= k < y.drop_first().len() && y.drop_first()[k] == c;
                assert(y[k + 1] == c);
            }
        }
        lemma_split_whole(y.drop_first(), c);
        assert(y[0] != c);
        assert(seq![y[0]] + y.drop_first() =~= y);
        assert(seq![y.drop_first()].update(0, seq![y[0]] + y.drop_first()) =~= seq![y]);
    } else {
        assert(y =~= Seq::<char>::empty());
    }
}

/// Joining pieces that hold no separator, then splitting, gives the pieces back.
pub proof fn lemma_split_join(ls: Seq<Seq<char>>, c: char)
    requires
        ls.len() >= 1,
        forall|i: int| 0 <= i < ls.len() ==> !(#[trigger] ls[i]).contains(c),
    ensures
        split_on(join(ls, seq![c]), c) == ls,
    decreases ls.len(),
{
    if ls.len() == 1 {
        lemma_split_whole(ls[0], c);
        assert(seq![ls[0]] =~= ls);
    } else {
        let l2 = ls.drop_last();
        assert forall|i: int| 0 <= i < l2.len() implies !(#[trigger] l2[i]).contains(c) by {
            assert(l2[i] == ls[i]);
        }
        lemma_split_join(l2, c);
        lemma_split_whole(ls.last(), c);
        lemma_split_concat(join(l2, seq![c]), ls.last(), c);
        assert(l2 + seq![ls.last()] =~= ls);
    }
}

/// No piece of a split holds the separator.
pub proof fn lemma_split_pieces(s: Seq<char>, c: char)
    ensures
        forall|i: int| 0 <= i < split_on(s, c).len() ==> !(#[trigger] split_on(s, c)[i]).contains(c),
    decreases s.len(),
{
    if s.len() > 0 {
        lemma_split_pieces(s.drop_first(), c);
        lemma_split_nonempty(s.drop_first(), c);
        let rest = split_on(s.drop_first(), c);
        if s[0] != c {
            let p = seq![s[0]] + rest[0];
            assert(!p.contains(c)) by {
                if p.contains(c) {
                    let k = choose|k: int| 0 <= k < p.len() && p[k] == c;
                    if k > 0 {
                        assert(rest[0][k - 1] == c);
                        assert(rest[0].contains(c));
                    }
                }
            }
            assert forall|i: int| 0 <= i < split_on(s, c).len() implies !(
            #[trigger] split_on(s, c)[i]).contains(c) by {
                if i > 0 {
                    assert(split_on(s, c)[i] == rest[i]);
                }
            }
        } else {
            assert forall|i: int| 0 <= i < split_on(s, c).len() implies !(
            #[trigger] split_on(s, c)[i]).contains(c) by {
                if i > 0 {
                    assert(split_on(s, c)[i] == rest[i - 1]);
                } else {
                    assert(split_on(s, c)[i] =~= Seq::<char>::empty());
                }
            }
        }
    }
}

/// Where the leading run of class `k` ends.
pub proof fn lemma_trim_start_at(s: Seq<char>, k: Class) -> (j: int)
    ensures
        0 <= j <= s.len(),
        trim_start(s, k) == s.subrange(j, s.len() as int),
        forall|i: int| 0 <= i < j ==> in_class(k, #[trigger] s[i]),
        j < s.len() ==> !in_class(k, s[j]),
    decreases s.len(),
{
    if s.len() > 0 && in_class(k, s[0]) {
        let j0 = lemma_trim_start_at(s.drop_first(), k);
        assert(s.drop_first().subrange(j0, s.len() - 1) =~= s.subrange(j0 + 1, s.len() as int));
        assert forall|i: int| 0 <= i < j0 + 1 implies in_class(k, #[trigger] s[i]) by {
            if i > 0 {
                assert(s[i] == s.drop_first()[i - 1]);
            }
        }
        j0 + 1
    } else {
        assert(s.subrange(0, s.len() as int) =~= s);
        0
    }
}

/// What `trim_end` keeps does not end in the class it trims.
pub proof fn lemma_trim_end_last(s: Seq<char>, k: Class)
    ensures
        trim_end(s, k).len() > 0 ==> !in_class(k, trim_end(s, k).last()),
        trim_end(s, k).len() <= s.len(),
    decreases s.len(),
{
    if s.len() > 0 && in_class(k, s.last()) {
        lemma_trim_end_last(s.drop_last(), k);
    }
}

/// A trimmed string does not end in a blank.
pub proof fn lemma_trimmed_last(s: Seq<char>)
    requires
        trim(s) == s,
        s.len() > 0,
    ensures
        !is_ws(s.last()),
{
    lemma_trim_end_last(trim_start(s, Class::Space), Class::Space);
}

/// Dropping a trailing blank does not change what `trim` gives.
pub proof fn lemma_trim_drop_blank(s: Seq<char>)
    requires
        s.len() > 0,
        is_ws(s.last()),
    ensures
        trim(s.drop_last()) == trim(s),
{
    let n = s.len() as int;
    let d = s.drop_last();
    let j = lemma_trim_start_at(s, Class::Space);
    let j2 = lemma_trim_start_at(d, Class::Space);
    assert forall|i: int| 0 <= i < n - 1 implies d[i] == s[i] by {}
    if j == n {
        assert(j2 == n - 1) by {
            if j2 < n - 1 {
                assert(!in_class(Class::Space, d[j2]));
                assert(in_class(Class::Space, s[j2]));
            }
        }
        assert(trim_start(s, Class::Space) =~= Seq::<char>::empty());
        assert(trim_start(d, Class::Space) =~= Seq::<char>::empty());
    } else {
        assert(j < n - 1);
        assert(j2 == j) by {
            if j2 < j {
                assert(in_class(Class::Space, s[j2]));
            } else if j2 > j {
                assert(in_class(Class::Space, d[j]));
            }
        }
        let t = s.subrange(j, n);
        assert(t.drop_last() =~= d.subrange(j, n - 1));
        assert(in_class(Class::Space, t.last()));
    }
}

/// `parts` joined with `sep` between consecutive parts (std `join`).
pub open spec fn join(parts: Seq<Seq<char>>, sep: Seq<char>) -> Seq<char>
    decreases parts.len(),
{
    if parts.len() == 0 {
        Seq::empty()
    } else if parts.len() == 1 {
        parts[0]
    } else {
        join(parts.drop_last(), sep) + sep + parts.last()
    }
}

/// Each piece of `s` split on `c`, blanks trimmed (`s.split(c).map(str::trim)`).
pub open spec fn split_trimmed(s: Seq<char>, c: char) -> Seq<Seq<char>> {
    split_on(s, c).map_values(|p: Seq<char>| trim(p))
}

/// The views of a vector of strings.
pub open spec fn views(v: Seq<String>) -> Seq<Seq<char>> {
    v.map_values(|s: String| s@)
}

/// Splits `s` on `c` (std `str::split`).
pub fn split_chars(s: &Vec<char>, c: char) -> (res: Vec<Vec<char>>)
    ensures
        res@.map_values(|p: Vec<char>| p@) == split_on(s@, c),
{
    let mut done: Vec<Vec<char>> = Vec::new();
    let mut cur: Vec<char> = Vec::new();
    let mut i: usize = 0;
    proof {
        lemma_split_nonempty(s@, c);
        assert(s@.subrange(0, s.len() as int) == s@);
        let r = split_on(s@, c);
        assert(r.update(0, Seq::<char>::empty() + r[0]) == r);
    }
    while i < s.len()
        invariant
            i <= s.len(),
            split_on(s@, c) == done@.map_values(|p: Vec<char>| p@) + split_on(
                s@.subrange(i as int, s.len() as int),
                c,
            ).update(0, cur@ + split_on(s@.subrange(i as int, s.len() as int), c)[0]),
        decreases s.len() - i,
    {
        let ghost rest = s@.subrange(i as int, s.len() as int);
        let ghost rest2 = s@.subrange(i + 1, s.len() as int);
        assert(rest.drop_first() == rest2);
        proof {
            lemma_split_nonempty(rest2, c);
        }
        let ghost old_done = done@.map_values(|p: Vec<char>| p@);
        let ghost old_cur = cur@;
        if s[i] == c {
            let finished = cur;
            done.push(finished);
            cur = Vec::new();
            assert(done@.map_values(|p: Vec<char>| p@) == old_done.push(old_cur));
            let ghost r2 = split_on(rest2, c);
            assert(split_on(rest, c) == seq![Seq::<char>::empty()] + r2);
            assert((seq![Seq::<char>::empty()] + r2).update(0, old_cur + Seq::<char>::empty())
                =~= seq![old_cur] + r2);
            assert(r2.update(0, Seq::<char>::empty() + r2[0]) =~= r2);
            assert(old_done + (seq![old_cur] + r2) =~= old_done.push(old_cur) + r2);
        } else {
            cur.push(s[i]);
            let ghost r2 = split_on(rest2, c);
            assert(split_on(rest, c) == r2.update(0, seq![s@[i as int]] + r2[0]));
            assert(old_cur + (seq![s@[i as int]] + r2[0]) =~= old_cur.push(s@[i as int]) + r2[0]);
            assert(r2.update(0, seq![s@[i as int]] + r2[0]).update(0, old_cur + (seq![s@[i as int]] + r2[0]))
                =~= r2.update(0, cur@ + r2[0]));
        }
        i += 1;
    }
    let ghost old_done = done@.map_values(|p: Vec<char>| p@);
    let ghost last = cur@;
    done.push(cur);
    proof {
        let e = s@.subrange(s.len() as int, s.len() as int);
        assert(e.len() == 0);
        assert(split_on(e, c) == seq![Seq::<char>::empty()]);
        assert(seq![Seq::<char>::empty()].update(0, last + Seq::<char>::empty()) =~= seq![last]);
        assert(done@.map_values(|p: Vec<char>| p@) =~= old_done.push(last));
    }
    done
}

/// Joins `parts` with `sep` (std `join`).
pub fn join_chars(parts: &Vec<Vec<char>>, sep: &Vec<char>) -> (res: Vec<char>)
    ensures
        res@ == join(parts@.map_values(|p: Vec<char>| p@), sep@),
{
    let ghost ps = parts@.map_values(|p: Vec<char>| p@);
    let mut res: Vec<char> = Vec::new();
    let mut i: usize = 0;
    while i < parts.len()
        invariant
            i <= parts.len(),
            ps == parts@.map_values(|p: Vec<char>| p@),
            res@ == join(ps.take(i as int), sep@),
        decreases parts.len() - i,
    {
        if i > 0 {
            res.extend_from_slice(sep.as_slice());
        }
        res.extend_from_slice(parts[i].as_slice());
        assert(ps.take(i + 1).drop_last() == ps.take(i as int));
        assert(ps.take(i + 1).last() == parts@[i as int]@);
        i += 1;
    }
    assert(ps.take(parts.len() as int) == ps);
    res
}

/// Splits `s` on `c` and trims blanks off each piece.
pub fn split_trim(s: &Vec<char>, c: char) -> (res: Vec<Vec<char>>)
    ensures
        res@.map_values(|p: Vec<char>| p@) == split_trimmed(s@, c),
{
    let pieces = split_chars(s, c);
    let mut res: Vec<Vec<char>> = Vec::new();
    let mut i: usize = 0;
    while i < pieces.len()
        invariant
            i <= pieces.len(),
            pieces@.map_values(|p: Vec<char>| p@) == split_on(s@, c),
            res@.len() == i,
            forall|k: int| 0 <= k < i ==> #[trigger] res@[k]@ == trim(pieces@[k]@),
        decreases pieces.len() - i,
    {
        res.push(trim_vec(&pieces[i]));
        i += 1;
    }
    assert(res@.map_values(|p: Vec<char>| p@) =~= split_trimmed(s@, c));
    res
}

/// The digit character for `d < 16` (lower-case hex letters).
pub open spec fn digit_char(d: nat) -> char {
    if d < 10 {
        (48 + d) as char
    } else {
        (87 + d) as char
    }
}

/// `n` written in base `b` without leading zeros (std `Display` / `{:x}`).
pub open spec fn in_base(n: nat, b: nat) -> Seq<char>
    decreases n,
{
    if b < 2 || n < b {
        seq![digit_char(n)]
    } else {
        proof {
            assert(n / b < n) by (nonlinear_arith)
                requires
                    b >= 2,
                    n >= b,
            ;
        }
        in_base(n / b, b).push(digit_char(n % b))
    }
}

/// `n` in decimal.
pub open spec fn decimal(n: nat) -> Seq<char> {
    in_base(n, 10)
}

/// Writes `n` in base `b` (10 or 16), most significant digit first.
pub fn base_digits(n: u64, b: u64) -> (res: Vec<char>)
    requires
        b == 10 || b == 16,
    ensures
        res@ == in_base(n as nat, b as nat),
    decreases n,
{
    if n < b {
        let d = if n < 10 { (48 + n) as u8 as char } else { (87 + n) as u8 as char };
        assert(d == digit_char(n as nat));
        let mut v: Vec<char> = Vec::new();
        v.push(d);
        v
    } else {
        let mut v = base_digits(n / b, b);
        let r = n % b;
        let d = if r < 10 { (48 + r) as u8 as char } else { (87 + r) as u8 as char };
        assert(d == digit_char((n % b) as nat));
        v.push(d);
        v
    }
}

/// std `Display` of an `i64`: optional `-`, then the decimal digits.
pub open spec fn signed_decimal(n: int) -> Seq<char> {
    if n < 0 {
        seq!['-'] + decimal((-n) as nat)
    } else {
        decimal(n as nat)
    }
}

/// Writes `n` in decimal.
pub fn i64_digits(n: i64) -> (res: Vec<char>)
    ensures
        res@ == signed_decimal(n as int),
{
    if n < 0 {
        let m: u64 = if n == i64::MIN { 9223372036854775808u64 } else { (-n) as u64 };
        let d = base_digits(m, 10);
        let mut v: Vec<char> = Vec::new();
        v.push('-');
        v.extend_from_slice(d.as_slice());
        v
    } else {
        base_digits(n as u64, 10)
    }
}

/// `s` with every `from` replaced by `to` (std `str::replace` with a
/// one-character pattern).
pub open spec fn replace_char(s: Seq<char>, from: char, to: Seq<char>) -> Seq<char>
    decreases s.len(),
{
    if s.len() == 0 {
        Seq::empty()
    } else {
        (if s[0] == from { to } else { seq![s[0]] }) + replace_char(s.drop_first(), from, to)
    }
}

/// Replaces every `from` in `s` by `to`.
pub fn replace_chars(s: &Vec<char>, from: char, to: &Vec<char>) -> (res: Vec<char>)
    ensures
        res@ == replace_char(s@, from, to@),
{
    let mut res: Vec<char> = Vec::new();
    let mut i = s.len();
    // Built back to front so that each step prepends one piece.
    let mut acc: Vec<char> = Vec::new();
    assert(s@.subrange(s.len() as int, s.len() as int).len() == 0);
    while i > 0
        invariant
            i <= s.len(),
            acc@ == replace_char(s@.subrange(i as int, s.len() as int), from, to@),
        decreases i,
    {
        let c = s[i - 1];
        let mut piece: Vec<char> = Vec::new();
        if c == from {
            piece.extend_from_slice(to.as_slice());
        } else {
            piece.push(c);
        }
        let ghost sub = s@.subrange(i - 1, s.len() as int);
        assert(sub.drop_first() == s@.subrange(i as int, s.len() as int));
        piece.extend_from_slice(acc.as_slice());
        acc = piece;
        i -= 1;
    }
    assert(s@.subrange(0, s.len() as int) == s@);
    res.extend_from_slice(acc.as_slice());
    res
}

} // verus!

verus! {

/// Appends the characters of `s` to `v`.
pub fn push_str(v: &mut Vec<char>, s: &str)
    ensures
        final(v)@ == old(v)@ + s@,
{
    let cs = chars_of(s);
    v.extend_from_slice(cs.as_slice());
}

/// Appends the characters `s` to `v`.
pub fn push_chars(v: &mut Vec<char>, s: &Vec<char>)
    ensures
        final(v)@ == old(v)@ + s@,
{
    v.extend_from_slice(s.as_slice());
}

} // verus!

verus! {

/// Whether `pat` occurs in `s` as a contiguous run (std `str::contains`).
pub open spec fn has_infix(s: Seq<char>, pat: Seq<char>) -> bool {
    exists|i: int| 0 <= i && i + pat.len() <= s.len() && #[trigger] s.subrange(i, i + pat.len()) == pat
}

/// Whether `pat` occurs in `s`.
pub fn contains_seq(s: &Vec<char>, pat: &Vec<char>) -> (b: bool)
    ensures
        b == has_infix(s@, pat@),
{
    if pat.len() > s.len() {
        return false;
    }
    let mut i: usize = 0;
    while i <= s.len() - pat.len()
        invariant
            pat.len() <= s.len(),
            i <= s.len() - pat.len() + 1,
            forall|k: int| 0 <= k < i ==> #[trigger] s@.subrange(k, k + pat@.len()) != pat@,
        decreases s.len() - pat.len() + 1 - i,
    {
        let mut j: usize = 0;
        let mut same = true;
        while j < pat.len()
            invariant
                j <= pat.len(),
                i + pat.len() <= s.len(),
                same == (forall|q: int| 0 <= q < j ==> s@[i + q] == pat@[q]),
            decreases pat.len() - j,
        {
            if s[i + j] != pat[j] {
                same = false;
            }
            j += 1;
        }
        if same {
            assert(s@.subrange(i as int, i + pat@.len()) =~= pat@);
            return true;
        }
        assert(s@.subrange(i as int, i + pat@.len())[0] == s@[i as int]);
        assert(!(s@.subrange(i as int, i + pat@.len()) =~= pat@));
        i += 1;
    }
    assert forall|k: int| 0 <= k && k + pat@.len() <= s@.len() implies #[trigger] s@.subrange(k, k + pat@.len()) != pat@ by {
        assert(k < i);
    }
    false
}

/// Whether `s` contains `pat` (a literal).
pub fn contains_str(s: &Vec<char>, pat: &str) -> (b: bool)
    ensures
        b == has_infix(s@, pat@),
{
    contains_seq(s, &chars_of(pat))
}

/// Whether `s` begins with `p`.
pub fn starts_with(s: &Vec<char>, p: &Vec<char>) -> (b: bool)
    ensures
        b == (p@.len() <= s@.len() && s@.subrange(0, p@.len() as int) == p@),
{
    if p.len() > s.len() {
        return false;
    }
    let mut j: usize = 0;
    while j < p.len()
        invariant
            j <= p.len() <= s.len(),
            forall|q: int| 0 <= q < j ==> s@[q] == p@[q],
        decreases p.len() - j,
    {
        if s[j] != p[j] {
            assert(s@.subrange(0, p@.len() as int)[j as int] != p@[j as int]);
            return false;
        }
        j += 1;
    }
    assert(s@.subrange(0, p@.len() as int) =~= p@);
    true
}

/// Whether `s` ends with `p`.
pub fn ends_with(s: &Vec<char>, p: &Vec<char>) -> (b: bool)
    ensures
        b == (p@.len() <= s@.len() && s@.subrange(s@.len() - p@.len(), s@.len() as int) == p@),
{
    if p.len() > s.len() {
        return false;
    }
    let off = s.len() - p.len();
    let mut j: usize = 0;
    while j < p.len()
        invariant
            j <= p.len() <= s.len(),
            off == s.len() - p.len(),
            forall|q: int| 0 <= q < j ==> s@[off + q] == p@[q],
        decreases p.len() - j,
    {
        if s[off + j] != p[j] {
            assert(s@.subrange(off as int, s@.len() as int)[j as int] != p@[j as int]);
            return false;
        }
        j += 1;
    }
    assert(s@.subrange(off as int, s@.len() as int) =~= p@);
    true
}

/// The lower-cased characters of `v` (std `to_lowercase`, see [`lowercase`]).
pub fn lower_vec(v: &Vec<char>) -> (res: Vec<char>)
    ensures
        res@ == lowercase(v@),
{
    let s = string_of(v);
    let l = to_lower(s.as_str());
    chars_of(l.as_str())
}

/// ASCII upper-casing of one character (std `char::to_ascii_uppercase`).
pub open spec fn ascii_upper(c: char) -> char {
    if 'a' <= c <= 'z' {
        ((c as u32) - 32) as char
    } else {
        c
    }
}

/// Upper-cases an ASCII letter; other characters are unchanged.
pub fn to_ascii_upper(c: char) -> (r: char)
    ensures
        r == ascii_upper(c),
{
    if 'a' <= c && c <= 'z' {
        ((c as u32) - 32) as u8 as char
    } else {
        c
    }
}

} // verus!

verus! {

/// `s` with every occurrence of `p` (scanning left to right, never
/// overlapping) replaced by `w` (std `str::replace`, for a non-empty `p`).
pub open spec fn replace_all(s: Seq<char>, p: Seq<char>, w: Seq<char>) -> Seq<char>
    decreases s.len(),
{
    if p.len() == 0 || s.len() == 0 {
        s
    } else if s.len() >= p.len() && s.take(p.len() as int) == p {
        w + replace_all(s.skip(p.len() as int), p, w)
    } else {
        seq![s[0]] + replace_all(s.drop_first(), p, w)
    }
}

/// Replaces every occurrence of `p` in `s` by `w` (see [`replace_all`]).
pub fn replace_seq(s: &Vec<char>, p: &Vec<char>, w: &Vec<char>) -> (res: Vec<char>)
    requires
        p.len() > 0,
    ensures
        res@ == replace_all(s@, p@, w@),
{
    let n = s.len();
    let m = p.len();
    let mut out: Vec<char> = Vec::new();
    let mut i: usize = 0;
    assert(s@.subrange(0, n as int) == s@);
    while i < n
        invariant
            i <= n == s.len(),
            m == p.len() > 0,
            out@ + replace_all(s@.subrange(i as int, n as int), p@, w@) == replace_all(s@, p@, w@),
        decreases n - i,
    {
        let ghost rest = s@.subrange(i as int, n as int);
        let ghost before = out@;
        let hit = m <= n - i && same_chars(&slice_chars(s, i, i + m), p);
        if hit {
            assert(rest.take(m as int) =~= s@.subrange(i as int, i + m));
            assert(rest.skip(m as int) =~= s@.subrange(i + m, n as int));
            push_chars(&mut out, w);
            i += m;
        } else {
            assert(m <= n - i ==> rest.take(m as int) =~= s@.subrange(i as int, i + m));
            assert(rest.drop_first() =~= s@.subrange(i + 1, n as int));
            out.push(s[i]);
            i += 1;
        }
        assert(out@ + replace_all(s@.subrange(i as int, n as int), p@, w@) =~= before + replace_all(
            rest,
            p@,
            w@,
        ));
    }
    assert(out@ =~= out@ + replace_all(s@.subrange(n as int, n as int), p@, w@));
    out
}

/// The word read from `s` is its first `n` characters when those are not
/// blank and the next one is (or `s` ends there).
pub proof fn lemma_take_word_prefix(s: Seq<char>, n: int)
    requires
        0 <= n <= s.len(),
        forall|i: int| 0 <= i < n ==> !is_ws(#[trigger] s[i]),
        n == s.len() || is_ws(s[n]),
    ensures
        take_word(s) == s.take(n),
    decreases n,
{
    if n == 0 {
        assert(s.take(0) =~= Seq::<char>::empty());
    } else {
        let t = s.drop_first();
        assert forall|i: int| 0 <= i < n - 1 implies !is_ws(#[trigger] t[i]) by {
            assert(t[i] == s[i + 1]);
        }
        if n - 1 < t.len() {
            assert(t[n - 1] == s[n]);
        }
        lemma_take_word_prefix(t, n - 1);
        assert(s.take(n) =~= seq![s[0]] + t.take(n - 1));
    }
}

/// Where the trailing run of class `k` begins.
pub proof fn lemma_trim_end_at(s: Seq<char>, k: Class) -> (e: int)
    ensures
        0 <= e <= s.len(),
        trim_end(s, k) == s.take(e),
        forall|i: int| e <= i < s.len() ==> in_class(k, #[trigger] s[i]),
        e > 0 ==> !in_class(k, s[e - 1]),
    decreases s.len(),
{
    if s.len() > 0 && in_class(k, s.last()) {
        let d = s.drop_last();
        let e0 = lemma_trim_end_at(d, k);
        assert(d.take(e0) =~= s.take(e0));
        assert forall|i: int| e0 <= i < s.len() implies in_class(k, #[trigger] s[i]) by {
            if i < s.len() - 1 {
                assert(s[i] == d[i]);
            }
        }
        if e0 > 0 {
            assert(s[e0 - 1] == d[e0 - 1]);
        }
        e0
    } else {
        assert(s.take(s.len() as int) =~= s);
        s.len() as int
    }
}

/// The first word of a text is ended by any blank character, not only a
/// space: a run of non-blank characters followed by a blank (a newline, a
/// tab, ...) is read as the word.
pub proof fn law_first_word_ends_at_blank(word: Seq<char>, blank: char, rest: Seq<char>)
    requires
        word.len() > 0,
        forall|i: int| 0 <= i < word.len() ==> !is_ws(#[trigger] word[i]),
        is_ws(blank),
    ensures
        first_word(word + seq![blank] + rest) == word,
{
    let s = word + seq![blank] + rest;
    assert(s[0] == word[0]);
    assert(trim_start(s, Class::Space) == s);
    assert forall|i: int| 0 <= i < word.len() implies !is_ws(#[trigger] s[i]) by {
        assert(s[i] == word[i]);
    }
    assert(s[word.len() as int] == blank);
    lemma_take_word_prefix(s, word.len() as int);
    assert(s.take(word.len() as int) =~= word);
}

} // verus!
