//! URLs and the editor's HTTP details: percent-encoding and decoding, query
//! parameters, numeric ids in paths, content types and cache validators.

use vstd::prelude::*;
use vstd::utf8::{decode_utf8, encode_utf8, is_ascii_chars, valid_utf8};
use vstd::string::StringSliceAdditionalSpecFns;
use crate::text::{chars_of, push_chars, split_chars, split_on, string_of};

verus! {

/// Bytes that URL encoding keeps as they are: ASCII letters, digits, `-`,
/// `_`, `.` and `~`.
pub open spec fn unreserved(b: u8) -> bool {
    ||| 65 <= b <= 90
    ||| 97 <= b <= 122
    ||| 48 <= b <= 57
    ||| b == 45
    ||| b == 95
    ||| b == 46
    ||| b == 126
}

/// An upper-case hex digit.
pub open spec fn upper_hex_digit(d: nat) -> char {
    if d < 10 {
        (48 + d) as char
    } else {
        (55 + d) as char
    }
}

/// One byte, URL-encoded: kept when unreserved, else `%` and two upper-case
/// hex digits.
pub open spec fn pct_piece(b: u8) -> Seq<char> {
    if unreserved(b) {
        seq![b as char]
    } else {
        seq!['%', upper_hex_digit((b / 16) as nat), upper_hex_digit((b % 16) as nat)]
    }
}

/// Bytes, URL-encoded.
pub open spec fn pct(bs: Seq<u8>) -> Seq<char>
    decreases bs.len(),
{
    if bs.len() == 0 {
        Seq::empty()
    } else {
        pct_piece(bs[0]) + pct(bs.drop_first())
    }
}

fn upper_hex(d: u8) -> (c: char)
    requires
        d < 16,
    ensures
        c == upper_hex_digit(d as nat),
{
    if d < 10 {
        (48 + d) as char
    } else {
        (55 + d) as char
    }
}

/// `s` URL-encoded, byte by byte of its UTF-8 form.
pub fn percent(s: &str) -> (res: String)
    ensures
        res@ == pct(s.spec_bytes()),
{
    let b = s.as_bytes();
    let n = b.len();
    let mut out: Vec<char> = Vec::new();
    let mut i: usize = 0;
    assert(b@.subrange(0, n as int) == b@);
    while i < n
        invariant
            n == b@.len(),
            b@ == s.spec_bytes(),
            i <= n,
            out@ + pct(b@.subrange(i as int, n as int)) == pct(s.spec_bytes()),
        decreases n - i,
    {
        let ghost before = out@;
        let ghost rest = b@.subrange(i as int, n as int);
        assert(rest.drop_first() =~= b@.subrange(i + 1, n as int));
        let c = b[i];
        if (65 <= c && c <= 90) || (97 <= c && c <= 122) || (48 <= c && c <= 57) || c == 45 || c
            == 95 || c == 46 || c == 126 {
            out.push(c as char);
        } else {
            out.push('%');
            out.push(upper_hex(c / 16));
            out.push(upper_hex(c % 16));
        }
        i += 1;
        assert(out@ + pct(b@.subrange(i as int, n as int)) =~= before + pct(rest));
    }
    assert(out@ =~= out@ + pct(b@.subrange(n as int, n as int)));
    string_of(&out)
}

/// The value of a hex digit byte (either case).
pub open spec fn hex_val(b: u8) -> Option<nat> {
    if 48 <= b <= 57 {
        Some((b - 48) as nat)
    } else if 97 <= b <= 102 {
        Some((b - 87) as nat)
    } else if 65 <= b <= 70 {
        Some((b - 55) as nat)
    } else {
        None
    }
}

/// `application/x-www-form-urlencoded` decoding of bytes: `%XX` with two hex
/// digits is that byte, `+` is a blank, anything else (a `%` not followed by
/// two hex digits included) stays.
pub open spec fn pct_decode_bytes(b: Seq<u8>) -> Seq<u8>
    decreases b.len(),
{
    if b.len() == 0 {
        Seq::empty()
    } else if b[0] == 37 && b.len() > 2 && hex_val(b[1]) is Some && hex_val(b[2]) is Some {
        seq![(hex_val(b[1]).unwrap() * 16 + hex_val(b[2]).unwrap()) as u8] + pct_decode_bytes(
            b.subrange(3, b.len() as int),
        )
    } else if b[0] == 43 {
        seq![32u8] + pct_decode_bytes(b.drop_first())
    } else {
        seq![b[0]] + pct_decode_bytes(b.drop_first())
    }
}

/// A name for std's `String::from_utf8_lossy`: the text of bytes, each invalid
/// UTF-8 sequence replaced by U+FFFD.
pub uninterp spec fn utf8_lossy(b: Seq<u8>) -> Seq<char>;

/// std `String::from_utf8_lossy`: named [`utf8_lossy`]; on valid UTF-8 it is
/// the decoded text.
#[verifier::external_body]
fn from_utf8_lossy(b: &[u8]) -> (res: String)
    ensures
        res@ == utf8_lossy(b@),
        valid_utf8(b@) ==> res@ == decode_utf8(b@),
{
    String::from_utf8_lossy(b).into_owned()
}

fn hex_value(c: u8) -> (r: Option<u8>)
    ensures
        match r {
            Some(v) => hex_val(c) == Some(v as nat),
            None => hex_val(c) is None,
        },
{
    if 48 <= c && c <= 57 {
        Some(c - 48)
    } else if 97 <= c && c <= 102 {
        Some(c - 87)
    } else if 65 <= c && c <= 70 {
        Some(c - 55)
    } else {
        None
    }
}

/// The text a URL-encoded string decodes to.
pub open spec fn decoded(s: Seq<char>) -> Seq<char> {
    utf8_lossy(pct_decode_bytes(encode_utf8(s)))
}

/// Minimal `application/x-www-form-urlencoded` decoding (`%XX` escapes, `+`
/// for a blank), the decoded bytes read as UTF-8 with invalid sequences
/// replaced.
pub fn percent_decode(s: &str) -> (res: String)
    ensures
        res@ == decoded(s@),
        valid_utf8(pct_decode_bytes(s.spec_bytes())) ==> res@ == decode_utf8(
            pct_decode_bytes(s.spec_bytes()),
        ),
{
    let out = percent_decode_bytes(s);
    from_utf8_lossy(out.as_slice())
}

/// The bytes a URL-encoded string decodes to (see [`pct_decode_bytes`]).
pub fn percent_decode_bytes(s: &str) -> (res: Vec<u8>)
    ensures
        res@ == pct_decode_bytes(s.spec_bytes()),
{
    let b = s.as_bytes();
    let n = b.len();
    let mut out: Vec<u8> = Vec::new();
    let mut i: usize = 0;
    assert(b@.subrange(0, n as int) == b@);
    while i < n
        invariant
            n == b@.len(),
            b@ == s.spec_bytes(),
            i <= n,
            out@ + pct_decode_bytes(b@.subrange(i as int, n as int)) == pct_decode_bytes(
                s.spec_bytes(),
            ),
        decreases n - i,
    {
        let ghost before = out@;
        let ghost rest = b@.subrange(i as int, n as int);
        assert(rest.drop_first() =~= b@.subrange(i + 1, n as int));
        let c = b[i];
        let mut step: usize = 1;
        if c == 37 && 2 < n - i {
            let hi = hex_value(b[i + 1]);
            let lo = hex_value(b[i + 2]);
            match (hi, lo) {
                (Some(h), Some(l)) => {
                    out.push(h * 16 + l);
                    step = 3;
                    assert(rest.subrange(3, rest.len() as int) =~= b@.subrange(i + 3, n as int));
                },
                _ => {
                    out.push(37);
                },
            }
        } else if c == 43 {
            out.push(32);
        } else {
            out.push(c);
        }
        i += step;
        assert(out@ + pct_decode_bytes(b@.subrange(i as int, n as int)) =~= before
            + pct_decode_bytes(rest));
    }
    assert(out@ =~= out@ + pct_decode_bytes(b@.subrange(n as int, n as int)));
    out
}

/// The bytes of ASCII characters.
pub open spec fn ascii_bytes(cs: Seq<char>) -> Seq<u8> {
    cs.map_values(|c: char| c as u8)
}

proof fn lemma_pct_ascii(bs: Seq<u8>)
    ensures
        is_ascii_chars(pct(bs)),
    decreases bs.len(),
{
    if bs.len() > 0 {
        lemma_pct_ascii(bs.drop_first());
        let p = pct_piece(bs[0]);
        let r = pct(bs.drop_first());
        assert forall|i: int| 0 <= i < (p + r).len() implies '\0' <= #[trigger] (p + r)[i]
            <= '\u{7f}' by {
            if i >= p.len() {
                assert((p + r)[i] == r[i - p.len()]);
            }
        }
    }
}

proof fn lemma_decode_piece(x: u8, rest: Seq<u8>)
    ensures
        pct_decode_bytes(ascii_bytes(pct_piece(x)) + rest) == seq![x] + pct_decode_bytes(rest),
{
    let bytes = ascii_bytes(pct_piece(x)) + rest;
    if unreserved(x) {
        assert(bytes[0] == x);
        assert(bytes.drop_first() =~= rest);
    } else {
        let h = upper_hex_digit((x / 16) as nat);
        let l = upper_hex_digit((x % 16) as nat);
        assert(bytes[0] == 37);
        assert(bytes[1] == h as u8);
        assert(bytes[2] == l as u8);
        assert(hex_val(h as u8) == Some((x / 16) as nat));
        assert(hex_val(l as u8) == Some((x % 16) as nat));
        assert(bytes.subrange(3, bytes.len() as int) =~= rest);
        assert((x / 16) * 16 + x % 16 == x);
    }
}

proof fn lemma_decode_pct(bs: Seq<u8>)
    ensures
        pct_decode_bytes(ascii_bytes(pct(bs))) == bs,
    decreases bs.len(),
{
    if bs.len() > 0 {
        let p = pct_piece(bs[0]);
        let r = pct(bs.drop_first());
        assert(ascii_bytes(p + r) =~= ascii_bytes(p) + ascii_bytes(r));
        lemma_decode_piece(bs[0], ascii_bytes(r));
        lemma_decode_pct(bs.drop_first());
        assert(seq![bs[0]] + bs.drop_first() =~= bs);
    } else {
        assert(ascii_bytes(pct(bs)) =~= Seq::<u8>::empty());
    }
}

/// Decoding a URL-encoded string gives the string back: the decoded bytes are
/// the string's own UTF-8, so their text is the string.
pub proof fn law_percent_roundtrip(s: Seq<char>)
    ensures
        pct_decode_bytes(encode_utf8(pct(encode_utf8(s)))) == encode_utf8(s),
        valid_utf8(pct_decode_bytes(encode_utf8(pct(encode_utf8(s))))),
        decode_utf8(pct_decode_bytes(encode_utf8(pct(encode_utf8(s))))) == s,
{
    let p = pct(encode_utf8(s));
    lemma_pct_ascii(encode_utf8(s));
    vstd::utf8::is_ascii_chars_encode_utf8(p);
    assert(encode_utf8(p) =~= ascii_bytes(p));
    lemma_decode_pct(encode_utf8(s));
    vstd::utf8::encode_utf8_valid_utf8(s);
    vstd::utf8::encode_utf8_decode_utf8(s);
}

} // verus!

verus! {

/// The length of the leading run of `s` before its first `c` (all of `s`
/// when it has none).
pub open spec fn upto(s: Seq<char>, c: char) -> nat
    decreases s.len(),
{
    if s.len() == 0 || s[0] == c {
        0
    } else {
        1 + upto(s.drop_first(), c)
    }
}

proof fn lemma_upto(s: Seq<char>, c: char, m: int)
    requires
        0 <= m <= s.len(),
        forall|k: int| 0 <= k < m ==> s[k] != c,
        m == s.len() || s[m] == c,
    ensures
        upto(s, c) == m,
    decreases m,
{
    if m > 0 {
        assert forall|k: int| 0 <= k < m - 1 implies s.drop_first()[k] != c by {
            assert(s.drop_first()[k] == s[k + 1]);
        }
        lemma_upto(s.drop_first(), c, m - 1);
    }
}

/// The key of a `key=value` pair (all of it when there is no `=`).
pub open spec fn kv_key(kv: Seq<char>) -> Seq<char> {
    kv.take(upto(kv, '=') as int)
}

/// The value of a `key=value` pair (empty when there is no `=`).
pub open spec fn kv_value(kv: Seq<char>) -> Seq<char> {
    if upto(kv, '=') < kv.len() {
        kv.subrange(upto(kv, '=') + 1int, kv.len() as int)
    } else {
        Seq::empty()
    }
}

/// The raw value of the first pair whose key is `key`.
pub open spec fn find_param(kvs: Seq<Seq<char>>, key: Seq<char>) -> Option<Seq<char>>
    decreases kvs.len(),
{
    if kvs.len() == 0 {
        None
    } else if kv_key(kvs[0]) == key {
        Some(kv_value(kvs[0]))
    } else {
        find_param(kvs.drop_first(), key)
    }
}

/// The raw value of query parameter `key` of a URL: the first `&`-separated
/// pair of the text after the first `?` whose key is `key`.
pub open spec fn query_value(url: Seq<char>, key: Seq<char>) -> Option<Seq<char>> {
    let parts = split_on(url, '?');
    if parts.len() < 2 {
        None
    } else {
        find_param(split_on(parts[1], '&'), key)
    }
}

/// One query-string parameter of a request URL, percent-decoded.
pub fn query_param(url: &str, key: &str) -> (res: Option<String>)
    ensures
        match query_value(url@, key@) {
            Some(v) => res matches Some(r) && r@ == decoded(v),
            None => res is None,
        },
{
    let parts = split_chars(&chars_of(url), '?');
    if parts.len() < 2 {
        return None;
    }
    let kvs = split_chars(&parts[1], '&');
    let ghost kv = kvs@.map_values(|p: Vec<char>| p@);
    let k = chars_of(key);
    let mut i: usize = 0;
    assert(kv.subrange(0, kv.len() as int) == kv);
    while i < kvs.len()
        invariant
            i <= kvs.len(),
            kv == kvs@.map_values(|p: Vec<char>| p@),
            kv == split_on(split_on(url@, '?')[1], '&'),
            k@ == key@,
            find_param(kv.subrange(i as int, kv.len() as int), key@) == query_value(url@, key@),
        decreases kvs.len() - i,
    {
        let ghost rest = kv.subrange(i as int, kv.len() as int);
        assert(rest[0] == kvs@[i as int]@);
        assert(rest.drop_first() =~= kv.subrange(i + 1, kv.len() as int));
        let p = &kvs[i];
        let mut j: usize = 0;
        while j < p.len() && p[j] != '='
            invariant
                j <= p.len(),
                forall|q: int| 0 <= q < j ==> p@[q] != '=',
            decreases p.len() - j,
        {
            j += 1;
        }
        proof {
            lemma_upto(p@, '=', j as int);
        }
        let pk = crate::text::slice_chars(p, 0, j);
        assert(pk@ == kv_key(p@));
        if crate::text::same_chars(&pk, &k) {
            let v = if j < p.len() {
                crate::text::slice_chars(p, j + 1, p.len())
            } else {
                Vec::new()
            };
            assert(v@ =~= kv_value(p@));
            return Some(percent_decode(string_of(&v).as_str()));
        }
        i += 1;
    }
    None
}

/// A decimal digit.
pub open spec fn is_digit(c: char) -> bool {
    '0' <= c <= '9'
}

/// The value of a string of decimal digits.
pub open spec fn digits_value(s: Seq<char>) -> nat
    decreases s.len(),
{
    if s.len() == 0 {
        0
    } else {
        digits_value(s.drop_last()) * 10 + ((s.last() as int) - 48) as nat
    }
}

/// Every character of `ds` is a decimal digit.
pub open spec fn all_digits(ds: Seq<char>) -> bool {
    forall|i: int| 0 <= i < ds.len() ==> is_digit(#[trigger] ds[i])
}

/// `s` without a leading `+` or `-`.
pub open spec fn unsigned_part(s: Seq<char>) -> Seq<char> {
    if s.len() > 0 && (s[0] == '-' || s[0] == '+') {
        s.drop_first()
    } else {
        s
    }
}

/// std `str::parse::<i64>`: an optional `+` or `-`, then one or more decimal
/// digits, the value in `i64`'s range.
pub open spec fn parse_i64(s: Seq<char>) -> Option<int> {
    let ds = unsigned_part(s);
    if ds.len() == 0 || !all_digits(ds) {
        None
    } else {
        let v = if s.len() > 0 && s[0] == '-' {
            -digits_value(ds)
        } else {
            digits_value(ds) as int
        };
        if i64::MIN <= v <= i64::MAX {
            Some(v)
        } else {
            None
        }
    }
}

proof fn lemma_digits_mono(s: Seq<char>, k: int)
    requires
        0 <= k <= s.len(),
        forall|i: int| 0 <= i < s.len() ==> is_digit(#[trigger] s[i]),
    ensures
        digits_value(s.take(k)) <= digits_value(s),
    decreases s.len(),
{
    if k < s.len() {
        let d = s.drop_last();
        assert forall|i: int| 0 <= i < d.len() implies is_digit(#[trigger] d[i]) by {
            assert(d[i] == s[i]);
        }
        lemma_digits_mono(d, k);
        assert(d.take(k) =~= s.take(k));
    } else {
        assert(s.take(k) =~= s);
    }
}

/// Parses a whole string as an `i64` (see [`parse_i64`]).
pub fn parse_int(s: &Vec<char>) -> (res: Option<i64>)
    ensures
        match parse_i64(s@) {
            Some(v) => res == Some(v as i64),
            None => res is None,
        },
{
    let n = s.len();
    let neg = n > 0 && s[0] == '-';
    let start: usize = if n > 0 && (s[0] == '-' || s[0] == '+') { 1 } else { 0 };
    let ghost ds = s@.subrange(start as int, n as int);
    assert(ds == unsigned_part(s@));
    if start == n {
        return None;
    }
    let lim: u64 = if neg { 9223372036854775808 } else { 9223372036854775807 };
    let mut acc: u64 = 0;
    let mut i: usize = start;
    while i < n
        invariant
            start <= i <= n == s.len(),
            ds == s@.subrange(start as int, n as int),
            forall|q: int| 0 <= q < i - start ==> is_digit(#[trigger] ds[q]),
            acc == digits_value(ds.take(i - start)),
            acc <= lim,
            lim == (if neg { 9223372036854775808u64 } else { 9223372036854775807u64 }),
            ds == unsigned_part(s@),
            neg == (s@.len() > 0 && s@[0] == '-'),
        decreases n - i,
    {
        let c = s[i];
        assert(ds[i - start] == c);
        if !('0' <= c && c <= '9') {
            assert(!is_digit(ds[i - start]));
            assert(0 <= i - start < ds.len());
            return None;
        }
        let d = (c as u32 - 48) as u64;
        assert(ds.take(i - start + 1).drop_last() =~= ds.take(i - start));
        assert(ds.take(i - start + 1).last() == c);
        if acc > (lim - d) / 10 {
            proof {
                assert(acc * 10 + d > lim) by (nonlinear_arith)
                    requires
                        acc > (lim - d) / 10,
                        d <= 9,
                        lim >= 9,
                ;
                assert(digits_value(ds.take(i - start + 1)) == acc * 10 + d);
                if all_digits(ds) {
                    lemma_digits_mono(ds, i - start + 1);
                    assert(digits_value(ds) > lim);
                }
            }
            return None;
        }
        assert(acc * 10 + d <= lim) by (nonlinear_arith)
            requires
                acc <= (lim - d) / 10,
                d <= 9,
                lim >= 9,
        ;
        acc = acc * 10 + d;
        i += 1;
    }
    assert(ds.take(n - start) =~= ds);
    if neg {
        if acc == 9223372036854775808 {
            Some(i64::MIN)
        } else {
            Some(-(acc as i64))
        }
    } else {
        Some(acc as i64)
    }
}

/// A numeric id at the end of a request path: the rest of `path` after
/// `prefix`, parsed as an `i64`.
pub fn id_from(path: &str, prefix: &str) -> (res: Option<i64>)
    ensures
        match (if path@.len() >= prefix@.len() && path@.take(prefix@.len() as int) == prefix@ {
            parse_i64(path@.skip(prefix@.len() as int))
        } else {
            None
        }) {
            Some(v) => res == Some(v as i64),
            None => res is None,
        },
{
    let p = chars_of(path);
    let pre = chars_of(prefix);
    if p.len() < pre.len() {
        return None;
    }
    let head = crate::text::slice_chars(&p, 0, pre.len());
    if !crate::text::same_chars(&head, &pre) {
        return None;
    }
    let rest = crate::text::slice_chars(&p, pre.len(), p.len());
    assert(rest@ =~= path@.skip(prefix@.len() as int));
    parse_int(&rest)
}

/// A name for std's `Path::extension` of a path given as text (read as a Unix
/// path, `/` the only separator): the part of its
/// file name after the last `.`, if any.
pub uninterp spec fn path_extension(p: Seq<char>) -> Option<Seq<char>>;

/// std `Path::extension` (as UTF-8 text; a `&str` path's extension always is).
#[verifier::external_body]
fn extension_of(path: &str) -> (res: Option<String>)
    ensures
        match path_extension(path@) {
            Some(e) => res matches Some(r) && r@ == e,
            None => res is None,
        },
{
    match std::path::Path::new(path).extension() {
        Some(e) => e.to_str().map(String::from),
        None => None,
    }
}

/// ASCII lower-casing of one character.
pub open spec fn ascii_lower(c: char) -> char {
    if 'A' <= c <= 'Z' {
        ((c as u32) + 32) as char
    } else {
        c
    }
}

/// The content type of a served image, by its lower-cased extension.
pub open spec fn mime_for(ext: Option<Seq<char>>) -> Seq<char> {
    match ext {
        Some(e) => {
            let l = e.map_values(|c: char| ascii_lower(c));
            if l == "png"@ {
                "image/png"@
            } else if l == "jpg"@ || l == "jpeg"@ {
                "image/jpeg"@
            } else if l == "webp"@ {
                "image/webp"@
            } else if l == "gif"@ {
                "image/gif"@
            } else {
                "application/octet-stream"@
            }
        },
        None => "application/octet-stream"@,
    }
}

/// The content type for a file extension (see [`mime_for`]).
pub fn mime_for_extension(ext: Option<String>) -> (res: &'static str)
    ensures
        res@ == mime_for(
            match ext {
                Some(e) => Some(e@),
                None => None,
            },
        ),
{
    match ext {
        Some(e) => {
            let cs = chars_of(e.as_str());
            let mut l: Vec<char> = Vec::new();
            let mut i: usize = 0;
            while i < cs.len()
                invariant
                    i <= cs.len(),
                    l@.len() == i,
                    forall|k: int| 0 <= k < i ==> #[trigger] l@[k] == ascii_lower(cs@[k]),
                decreases cs.len() - i,
            {
                let c = cs[i];
                l.push(if 'A' <= c && c <= 'Z' { ((c as u32) + 32) as u8 as char } else { c });
                i += 1;
            }
            assert(l@ =~= e@.map_values(|c: char| ascii_lower(c)));
            let same = |w: &str| -> (b: bool)
                ensures
                    b == (l@ == w@),
                { crate::text::same_chars(&l, &chars_of(w)) };
            if same("png") {
                "image/png"
            } else if same("jpg") || same("jpeg") {
                "image/jpeg"
            } else if same("webp") {
                "image/webp"
            } else if same("gif") {
                "image/gif"
            } else {
                "application/octet-stream"
            }
        },
        None => "application/octet-stream",
    }
}

/// The content type of a served image, by extension (octet-stream when unknown).
pub fn mime_of(path: &str) -> (res: &'static str)
    ensures
        res@ == mime_for(path_extension(path@)),
{
    mime_for_extension(extension_of(path))
}

/// A cache validator for a file: `"<length>-<mtime>"`, both in lower-case hex.
pub open spec fn etag_for(len: nat, secs: nat) -> Seq<char> {
    seq!['"'] + crate::text::in_base(len, 16) + seq!['-'] + crate::text::in_base(secs, 16) + seq!['"']
}

/// The ETag of a file of `len` bytes last modified `secs` after the epoch.
pub fn etag_text(len: u64, secs: u64) -> (res: String)
    ensures
        res@ == etag_for(len as nat, secs as nat),
{
    let mut out: Vec<char> = Vec::new();
    out.push('"');
    push_chars(&mut out, &crate::text::base_digits(len, 16));
    out.push('-');
    push_chars(&mut out, &crate::text::base_digits(secs, 16));
    out.push('"');
    assert(out@ =~= etag_for(len as nat, secs as nat));
    string_of(&out)
}

} // verus!
