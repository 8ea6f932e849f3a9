//! Names and paths of the render cache: file-safe card names, artist buckets,
//! the GenAI artists' printed pseudonyms, and where each cached file lives.

use vstd::prelude::*;
use crate::jsonread::{ostr, pointer, pointer_of, read_value, str_of, text_of, value_at};
use crate::text::{
    chars_of, in_class, lemma_trim_end_last, lemma_trim_start_at, lowercase, push_str, string_of,
    to_lower, trim, trim_end, trim_start, Class,
};

verus! {

/// A name for std's `char::is_alphanumeric` (Unicode `Alphabetic` or
/// `Numeric`).
pub uninterp spec fn alphanumeric(c: char) -> bool;

/// std `char::is_alphanumeric`: named [`alphanumeric`]; among ASCII characters
/// exactly the letters and digits are alphanumeric.
#[verifier::external_body]
pub(crate) fn is_alphanumeric(c: char) -> (b: bool)
    ensures
        b == alphanumeric(c),
        (c as u32) < 128 ==> (b <==> ('a' <= c <= 'z' || 'A' <= c <= 'Z' || '0' <= c <= '9')),
{
    c.is_alphanumeric()
}

/// One character of a file-safe name: letters, digits and `-` stay, anything
/// else becomes `_`.
pub open spec fn safe_char(c: char) -> char {
    if alphanumeric(c) || c == '-' {
        c
    } else {
        '_'
    }
}

/// `s` with every character made file-safe.
pub open spec fn safe_chars(s: Seq<char>) -> Seq<char> {
    s.map_values(|c: char| safe_char(c))
}

/// A card name as a file / key name: file-safe characters, `_`s trimmed off
/// both ends.
pub open spec fn sanitized(name: Seq<char>) -> Seq<char> {
    trim_end(trim_start(safe_chars(name), Class::Is('_')), Class::Is('_'))
}

fn safe_vec(s: &str) -> (res: Vec<char>)
    ensures
        res@ == safe_chars(s@),
{
    let cs = chars_of(s);
    let mut res: Vec<char> = Vec::new();
    let mut i: usize = 0;
    while i < cs.len()
        invariant
            i <= cs.len(),
            cs@ == s@,
            res@.len() == i,
            forall|k: int| 0 <= k < i ==> #[trigger] res@[k] == safe_char(cs@[k]),
        decreases cs.len() - i,
    {
        let c = cs[i];
        let keep = is_alphanumeric(c) || c == '-';
        res.push(if keep { c } else { '_' });
        i += 1;
    }
    assert(res@ =~= safe_chars(s@));
    res
}

/// An artist (or any label) as a directory name: file-safe characters.
pub fn sanitize_bucket(b: &str) -> (res: String)
    ensures
        res@ == safe_chars(b@),
{
    string_of(&safe_vec(b))
}

/// A card name as the file name the render cache, the self-hosted images and
/// the export URLs all use.
pub fn sanitize(name: &str) -> (res: String)
    ensures
        res@ == sanitized(name@),
{
    let v = safe_vec(name);
    let a = crate::text::trim_start_vec(&v, &Class::Is('_'));
    string_of(&crate::text::trim_end_vec(&a, &Class::Is('_')))
}

proof fn lemma_safe_fixed(s: Seq<char>)
    requires
        forall|i: int| 0 <= i < s.len() ==> safe_char(#[trigger] s[i]) == s[i],
    ensures
        safe_chars(s) == s,
{
    assert(safe_chars(s) =~= s);
}

/// Sanitizing a sanitized name changes nothing, so a name's cache file, its
/// self-hosted image and its export URL always agree.
pub proof fn law_sanitize_idempotent(name: Seq<char>)
    ensures
        sanitized(sanitized(name)) == sanitized(name),
{
    let m = safe_chars(name);
    let u = trim_start(m, Class::Is('_'));
    let t = trim_end(u, Class::Is('_'));
    let j = lemma_trim_start_at(m, Class::Is('_'));
    lemma_trim_end_last(u, Class::Is('_'));
    let k = lemma_trim_end_at(u, Class::Is('_'));
    assert forall|i: int| 0 <= i < t.len() implies safe_char(#[trigger] t[i]) == t[i] by {
        assert(t[i] == m[i + j]);
    }
    lemma_safe_fixed(t);
    if t.len() > 0 {
        assert(t[0] == u[0]);
        assert(!in_class(Class::Is('_'), t[0]));
        assert(!in_class(Class::Is('_'), t.last()));
    } else {
        assert(t =~= Seq::<char>::empty());
    }
    assert(trim_start(t, Class::Is('_')) == t);
    assert(trim_end(t, Class::Is('_')) == t);
}

/// Where the trailing run of class `k` starts.
proof fn lemma_trim_end_at(s: Seq<char>, k: Class) -> (j: int)
    ensures
        0 <= j <= s.len(),
        trim_end(s, k) == s.subrange(0, j),
    decreases s.len(),
{
    if s.len() > 0 && in_class(k, s.last()) {
        let j0 = lemma_trim_end_at(s.drop_last(), k);
        assert(s.drop_last().subrange(0, j0) =~= s.subrange(0, j0));
        j0
    } else {
        assert(s.subrange(0, s.len() as int) =~= s);
        s.len() as int
    }
}

/// `comp` appended to the path `base` (std `PathBuf::push` on Unix): an
/// absolute `comp` replaces `base`; otherwise a `/` goes between them unless
/// `base` is empty or already ends in one.
pub open spec fn joined(base: Seq<char>, comp: Seq<char>) -> Seq<char> {
    if comp.len() > 0 && comp[0] == '/' {
        comp
    } else if base.len() == 0 || base.last() == '/' {
        base + comp
    } else {
        base + seq!['/'] + comp
    }
}

/// `base` joined with `comp` (see [`joined`]).
pub fn join_path(base: &str, comp: &str) -> (res: String)
    ensures
        res@ == joined(base@, comp@),
{
    let b = chars_of(base);
    let c = chars_of(comp);
    if c.len() > 0 && c[0] == '/' {
        return string_of(&c);
    }
    let mut out = b;
    if out.len() > 0 && out[out.len() - 1] != '/' {
        out.push('/');
    }
    crate::text::push_chars(&mut out, &c);
    string_of(&out)
}

/// The editor database's default path, in the data directory.
pub fn default_editor_db(data_dir: &str) -> (res: String)
    ensures
        res@ == joined(data_dir@, "cube_editor.sqlite"@),
{
    join_path(data_dir, "cube_editor.sqlite")
}

/// The cache directory of one card for the active frame: `cards8/<name>` for
/// the modern frame, `cards/<name>` for the classic one.
pub fn frame_card_dir(cache_dir: &str, name: &str, eighth: bool) -> (res: String)
    ensures
        res@ == joined(joined(cache_dir@, if eighth { "cards8"@ } else { "cards"@ }), sanitized(name@)),
{
    let sub = join_path(cache_dir, if eighth { "cards8" } else { "cards" });
    let nm = sanitize(name);
    join_path(sub.as_str(), nm.as_str())
}

/// The rendered GenAI option of a card by one artist:
/// `cards/<name>/genai/<artist>/card.png` under the cache directory.
pub fn genai_card_path(cache_dir: &str, card_name: &str, artist: &str) -> (res: String)
    ensures
        res@ == joined(joined(joined(joined(joined(cache_dir@, "cards"@), sanitized(card_name@)),
            "genai"@), safe_chars(artist@)), "card.png"@),
{
    let a = join_path(cache_dir, "cards");
    let nm = sanitize(card_name);
    let b = join_path(a.as_str(), nm.as_str());
    let c = join_path(b.as_str(), "genai");
    let bucket = sanitize_bucket(artist);
    let d = join_path(c.as_str(), bucket.as_str());
    join_path(d.as_str(), "card.png")
}

/// The cached Scryfall prints metadata of a card: `art/<name>.json`.
pub fn prints_meta_path(cache_dir: &str, name: &str) -> (res: String)
    ensures
        res@ == joined(joined(cache_dir@, "art"@), sanitized(name@) + ".json"@),
{
    let a = join_path(cache_dir, "art");
    let mut f = chars_of(sanitize(name).as_str());
    push_str(&mut f, ".json");
    join_path(a.as_str(), string_of(&f).as_str())
}

/// What the cached prints metadata says of a card's oldest printing.
pub struct PrintMeta {
    /// The printing's flavor text.
    pub flavor_text: Option<String>,
    /// The flavor text of the printing's first face (multi-face cards).
    pub face_flavor_text: Option<String>,
}

/// The original flavor of a card: its oldest printing's flavor text, else its
/// first face's, else empty.
pub open spec fn flavor_of(m: PrintMeta) -> Seq<char> {
    match m.flavor_text {
        Some(f) => f@,
        None => match m.face_flavor_text {
            Some(f) => f@,
            None => Seq::empty(),
        },
    }
}

/// The original flavor text the editor's flavor field starts from.
pub fn base_flavor(meta: &PrintMeta) -> (res: String)
    ensures
        res@ == flavor_of(*meta),
{
    match &meta.flavor_text {
        Some(f) => string_of(&chars_of(f.as_str())),
        None => match &meta.face_flavor_text {
            Some(f) => string_of(&chars_of(f.as_str())),
            None => String::new(),
        },
    }
}

/// What the cached prints metadata says of the oldest printing's flavor: its
/// `data[0].flavor_text` and `data[0].card_faces[0].flavor_text`, as text.
pub open spec fn print_meta_in(text: Seq<char>) -> (Option<Seq<char>>, Option<Seq<char>>) {
    (
        str_of(value_at(text, pointer(seq!["data"@, "0"@, "flavor_text"@]))),
        str_of(value_at(text, pointer(seq!["data"@, "0"@, "card_faces"@, "0"@, "flavor_text"@]))),
    )
}

/// Reads the flavor members of the cached prints metadata (see
/// [`print_meta_in`]); text that is not JSON gives neither.
pub fn print_meta_of(meta_text: &str) -> (res: PrintMeta)
    ensures
        (ostr(res.flavor_text), ostr(res.face_flavor_text)) == print_meta_in(meta_text@),
{
    proof {
        reveal_strlit("data");
        reveal_strlit("0");
        reveal_strlit("flavor_text");
        reveal_strlit("card_faces");
    }
    let a: Vec<&str> = vec!["data", "0", "flavor_text"];
    let b: Vec<&str> = vec!["data", "0", "card_faces", "0", "flavor_text"];
    assert(a@.map_values(|k: &str| k@) =~= seq!["data"@, "0"@, "flavor_text"@]);
    assert(b@.map_values(|k: &str| k@) =~= seq!["data"@, "0"@, "card_faces"@, "0"@, "flavor_text"@]);
    let fa = read_value(meta_text, pointer_of(&a));
    let fb = read_value(meta_text, pointer_of(&b));
    PrintMeta { flavor_text: text_of(&fa), face_flavor_text: text_of(&fb) }
}

} // verus!
