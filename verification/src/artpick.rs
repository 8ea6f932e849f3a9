//! Where a card's art comes from: what its `art.json` sidecar and the editor's
//! durable art override say, which step gets the art for a render, and what
//! the crop editor is shown (the selectable sources and the current one).

use vstd::prelude::*;
use crate::artists::{artist_blocked, is_blocked};
use crate::jsonread::{
    array_items, bool_of, field_view, fields_view, flag_of, int_of, int_value, items_in, json_read,
    json_values, key_pointer, key_pointer_of, ostr, pointer, pointer_of, push_token, read_value,
    read_values, str_of, text_of, text_or_blank, text_or_empty, value_at, values_at, JsonField, JsonValue,
};
use crate::names::{frame_card_dir, join_path, joined, safe_chars, sanitize_bucket, sanitized};
use crate::routes::{after, starts};
use crate::sources::{printings_list, printings_of, printings_view, rows_view, PrintingIn};
use crate::text::{
    chars_of, has_infix, contains_str, push_chars, push_str, replace_char, replace_chars, same_chars,
    slice_chars, string_of,
};

verus! {

/// The members of a card's `art.json` sidecar the art code reads.
pub struct Sidecar {
    /// Where the art came from (`mpcfill:…`, `genai:<artist>:<hash>`, …).
    pub art_ref: Option<String>,
    pub artist: Option<String>,
    pub year: Option<String>,
    /// The operator placed the crop by hand.
    pub manual: Option<bool>,
    /// A crop box of four numbers is stored.
    pub has_box: bool,
    /// The art window's aspect is stored.
    pub has_aspect: bool,
    /// The proxy image the crop is cut from.
    pub proxy: Option<String>,
}

/// The keys of the sidecar's members, in the order [`Sidecar`] reads them.
pub open spec fn sidecar_keys() -> Seq<Seq<char>> {
    seq!["art_ref"@, "artist"@, "year"@, "manual"@, "box"@, "art_aspect"@, "proxy"@]
}

/// The pointers of some members.
pub open spec fn key_pointers(keys: Seq<Seq<char>>) -> Seq<Seq<char>> {
    keys.map_values(|k: Seq<char>| key_pointer(k))
}

/// The pointers of some members (see [`key_pointers`]).
pub fn key_pointers_of(keys: &Vec<&str>) -> (res: Vec<String>)
    ensures
        res@.map_values(|p: String| p@) == key_pointers(keys@.map_values(|k: &str| k@)),
        res@.len() == keys@.len(),
{
    let mut res: Vec<String> = Vec::new();
    let mut i: usize = 0;
    while i < keys.len()
        invariant
            i <= keys.len(),
            res@.len() == i,
            forall|k: int| 0 <= k < i ==> #[trigger] res@[k]@ == key_pointer(keys@[k]@),
        decreases keys.len() - i,
    {
        res.push(key_pointer_of(keys[i]));
        i += 1;
    }
    assert(res@.map_values(|p: String| p@) =~= key_pointers(keys@.map_values(|k: &str| k@)));
    res
}

/// The sidecar read from its members' values.
pub open spec fn sidecar_ok(s: Sidecar, vs: Seq<JsonValue>) -> bool {
    &&& ostr(s.art_ref) == str_of(vs[0])
    &&& ostr(s.artist) == str_of(vs[1])
    &&& ostr(s.year) == str_of(vs[2])
    &&& s.manual == bool_of(vs[3])
    &&& s.has_box == (vs[4] matches JsonValue::Array(items) && items.len() == 4)
    &&& s.has_aspect == (vs[5] is Number)
    &&& ostr(s.proxy) == str_of(vs[6])
}

/// Reads a sidecar's text: `None` when it is not JSON (see [`sidecar_ok`]).
pub fn read_sidecar(text: &str) -> (res: Option<Sidecar>)
    ensures
        match json_values(text@, key_pointers(sidecar_keys())) {
            Some(vs) => res matches Some(s) && sidecar_ok(s, vs),
            None => res is None,
        },
{
    let keys: Vec<&str> = vec!["art_ref", "artist", "year", "manual", "box", "art_aspect", "proxy"];
    proof {
        reveal_strlit("art_ref");
        reveal_strlit("artist");
        reveal_strlit("year");
        reveal_strlit("manual");
        reveal_strlit("box");
        reveal_strlit("art_aspect");
        reveal_strlit("proxy");
    }
    assert(keys@.map_values(|k: &str| k@) =~= sidecar_keys());
    match json_read(text, &key_pointers_of(&keys)) {
        None => None,
        Some(fs) => {
            let ghost vs = fields_view(fs@);
            assert(vs[4] == field_view(fs@[4]) && vs[5] == field_view(fs@[5]));
            let has_box = match &fs[4] {
                JsonField::Array(items) => items.len() == 4,
                _ => false,
            };
            let has_aspect = match &fs[5] {
                JsonField::Number(_) => true,
                _ => false,
            };
            Some(Sidecar {
                art_ref: text_of(&fs[0]),
                artist: text_of(&fs[1]),
                year: text_of(&fs[2]),
                manual: flag_of(&fs[3]),
                has_box,
                has_aspect,
                proxy: text_of(&fs[6]),
            })
        },
    }
}

/// The members of the editor's durable art override the crop editor reads.
pub struct ArtOverride {
    /// The chosen source token.
    pub rel: Option<String>,
    /// The credited artist.
    pub artist: Option<String>,
}

/// Reads the durable override's text: blank or non-JSON text is an empty
/// override.
pub fn read_override(text: &str) -> (res: ArtOverride)
    ensures
        match json_values(text@, key_pointers(seq!["rel"@, "artist"@])) {
            Some(vs) => !(crate::text::trim(text@).len() == 0) ==> ostr(res.rel) == str_of(vs[0])
                && ostr(res.artist) == str_of(vs[1]),
            None => res.rel is None && res.artist is None,
        },
        crate::text::trim(text@).len() == 0 ==> res.rel is None && res.artist is None,
{
    if crate::text::trim_vec(&chars_of(text)).len() == 0 {
        return ArtOverride { rel: None, artist: None };
    }
    let keys: Vec<&str> = vec!["rel", "artist"];
    proof {
        reveal_strlit("rel");
        reveal_strlit("artist");
    }
    assert(keys@.map_values(|k: &str| k@) =~= seq!["rel"@, "artist"@]);
    match json_read(text, &key_pointers_of(&keys)) {
        None => ArtOverride { rel: None, artist: None },
        Some(fs) => ArtOverride { rel: text_of(&fs[0]), artist: text_of(&fs[1]) },
    }
}

// ---------------------------------------------------------------------------
// Getting the art for a render
// ---------------------------------------------------------------------------

/// The step that gets a card's art for a render.
#[derive(PartialEq, Eq, Structural, Clone, Copy, Debug)]
pub enum ArtAction {
    /// Use the GenAI art already cropped.
    UseGenai,
    /// Copy the chosen GenAI image into place, then use it.
    CopyGenaiThenUse,
    /// Cut the hand-placed box out of the proxy exactly.
    CropExact,
    /// Re-crop the stored box out of the proxy in place.
    ReCrop,
    /// Reuse the crop already made.
    ReuseCrop,
    /// Pick the art afresh.
    Repick,
}

/// What decides how a card's art is got: its sidecar (if it has one that
/// reads as JSON) and which files exist.
pub struct ArtState {
    pub sidecar: Option<Sidecar>,
    /// The cropped art (`art.png`) exists.
    pub crop_exists: bool,
    /// The chosen GenAI image (see [`genai_source`]) exists.
    pub genai_src_exists: bool,
    /// The sidecar's proxy image exists.
    pub proxy_exists: bool,
    /// A proxy backend and an API key are at hand, so the art can be re-picked.
    pub can_repick: bool,
}

/// The art reference a sidecar gives, `mpcfill:cached` when it gives none.
pub open spec fn art_ref_or_cached(s: Sidecar) -> Seq<char> {
    match s.art_ref {
        Some(r) => r@,
        None => "mpcfill:cached"@,
    }
}

/// The art step: a GenAI choice is never re-picked (used if cropped, copied
/// into place if its image is there); a manual crop is cut exactly; a stored
/// box, proxy and aspect mean an in-place re-crop; a settled crop is reused
/// unless it is the old `mpcfill:cached` one and a re-pick is possible;
/// otherwise the art is re-picked (so too without a readable sidecar).
pub open spec fn art_step_spec(s: ArtState) -> ArtAction {
    match s.sidecar {
        None => ArtAction::Repick,
        Some(f) => {
            let art_ref = art_ref_or_cached(f);
            let genai = starts(art_ref, "genai:"@);
            let cut = f.has_box && f.proxy is Some && s.proxy_exists;
            if genai && s.crop_exists {
                ArtAction::UseGenai
            } else if genai && s.genai_src_exists {
                ArtAction::CopyGenaiThenUse
            } else if f.manual == Some(true) && cut {
                ArtAction::CropExact
            } else if cut && f.has_aspect {
                ArtAction::ReCrop
            } else if s.crop_exists && !(s.can_repick && art_ref == "mpcfill:cached"@) {
                ArtAction::ReuseCrop
            } else {
                ArtAction::Repick
            }
        },
    }
}

fn begins(p: &Vec<char>, pre: &str) -> (b: bool)
    ensures
        b == starts(p@, pre@),
{
    let q = chars_of(pre);
    q.len() <= p.len() && same_chars(&slice_chars(p, 0, q.len()), &q)
}

/// The step that gets a card's art (see [`art_step_spec`]).
pub fn art_step(s: &ArtState) -> (a: ArtAction)
    ensures
        a == art_step_spec(*s),
{
    match &s.sidecar {
        None => ArtAction::Repick,
        Some(f) => {
            let art_ref = match &f.art_ref {
                Some(r) => chars_of(r.as_str()),
                None => chars_of("mpcfill:cached"),
            };
            let genai = begins(&art_ref, "genai:");
            let cut = f.has_box && f.proxy.is_some() && s.proxy_exists;
            if genai && s.crop_exists {
                ArtAction::UseGenai
            } else if genai && s.genai_src_exists {
                ArtAction::CopyGenaiThenUse
            } else if f.manual == Some(true) && cut {
                ArtAction::CropExact
            } else if cut && f.has_aspect {
                ArtAction::ReCrop
            } else if s.crop_exists && !(s.can_repick && same_chars(&art_ref, &chars_of("mpcfill:cached"))) {
                ArtAction::ReuseCrop
            } else {
                ArtAction::Repick
            }
        },
    }
}

/// The position of the last `c` in `s`, if any.
pub open spec fn last_index(s: Seq<char>, c: char) -> Option<int>
    decreases s.len(),
{
    if s.len() == 0 {
        None
    } else if s.last() == c {
        Some(s.len() - 1)
    } else {
        last_index(s.drop_last(), c)
    }
}

/// The image a GenAI art reference `genai:<artist>:<hash>` was chosen from:
/// `<card dir>/genai/<artist, file-safe>/<hash>.png` (split at the last `:`).
pub open spec fn genai_source_of(card_dir: Seq<char>, art_ref: Seq<char>) -> Option<Seq<char>> {
    if !starts(art_ref, "genai:"@) {
        None
    } else {
        let rest = after(art_ref, "genai:"@);
        match last_index(rest, ':') {
            None => None,
            Some(k) => Some(
                joined(
                    joined(joined(card_dir, "genai"@), safe_chars(rest.take(k))),
                    rest.skip(k + 1) + ".png"@,
                ),
            ),
        }
    }
}

/// The image a GenAI art reference was chosen from (see [`genai_source_of`]).
pub fn genai_source(card_dir: &str, art_ref: &str) -> (res: Option<String>)
    ensures
        ostr(res) == genai_source_of(card_dir@, art_ref@),
{
    let r = chars_of(art_ref);
    if !begins(&r, "genai:") {
        return None;
    }
    proof {
        reveal_strlit("genai:");
    }
    let rest = slice_chars(&r, 6, r.len());
    assert(rest@ == after(art_ref@, "genai:"@));
    let mut k: usize = rest.len();
    assert(rest@.take(k as int) =~= rest@);
    while k > 0 && rest[k - 1] != ':'
        invariant
            k <= rest.len(),
            last_index(rest@, ':') == last_index(rest@.take(k as int), ':'),
        decreases k,
    {
        assert(rest@.take(k as int).drop_last() =~= rest@.take(k - 1));
        k -= 1;
    }
    if k == 0 {
        assert(rest@.take(0).len() == 0);
        return None;
    }
    assert(rest@.take(k as int).last() == ':');
    let artist = slice_chars(&rest, 0, k - 1);
    let hash = slice_chars(&rest, k, rest.len());
    assert(artist@ =~= rest@.take(k - 1));
    assert(hash@ =~= rest@.skip(k as int));
    let a = join_path(card_dir, "genai");
    let b = join_path(a.as_str(), sanitize_bucket(string_of(&artist).as_str()).as_str());
    let mut file = hash;
    push_str(&mut file, ".png");
    Some(join_path(b.as_str(), string_of(&file).as_str()))
}

// ---------------------------------------------------------------------------
// What the crop editor is shown
// ---------------------------------------------------------------------------

/// A name for std's `Path::strip_prefix` on paths given as text (read as Unix
/// paths): the part of `p` after the directory `base`, compared component by
/// component, when `p` lies under `base`.
pub uninterp spec fn path_rel(p: Seq<char>, base: Seq<char>) -> Option<Seq<char>>;

/// std `Path::strip_prefix`, the rest as text: named [`path_rel`].
#[verifier::external_body]
fn strip_dir(p: &str, base: &str) -> (res: Option<String>)
    ensures
        ostr(res) == path_rel(p@, base@),
{
    std::path::Path::new(p).strip_prefix(base).ok().map(|r| r.to_string_lossy().into_owned())
}

/// A cached proxy image of a card, as found under its `mpcfill` folder.
pub struct ProxyFile {
    /// The file's path.
    pub path: String,
    /// The proxy bucket (the folder it is in).
    pub bucket: String,
    /// Its DPI, as the fetch index records it or as measured.
    pub dpi: Option<i64>,
}

/// What the crop editor's view of a card is made from.
pub struct ArtInputs {
    pub name: String,
    pub cache_dir: String,
    /// The modern (8th) frame is active.
    pub eighth: bool,
    /// The cached card metadata says the card's layout is split.
    pub split_layout: bool,
    pub sidecar: Option<Sidecar>,
    pub art_override: ArtOverride,
    /// Artist and year of the oldest printing (empty when unknown).
    pub oldest_artist: String,
    pub oldest_year: String,
    /// The printings the cached prints search lists.
    pub printings: Vec<PrintingIn>,
    /// The cached proxies, in path order.
    pub proxies: Vec<ProxyFile>,
}

/// One source the crop editor offers.
pub enum ArtSource {
    /// A Scryfall art crop: the original printing, or for a split card the
    /// combined newest art.
    Scryfall { rel: String, label: String, artist: String, year: String, blocked: bool },
    /// One printing's art.
    Printing { rel: String, label: String, set: String, artist: String, year: String, blocked: bool },
    /// A cached proxy.
    Mpcfill { rel: String, label: String, dpi: Option<i64>, low_dpi: Option<bool> },
}

/// The value of an [`ArtSource`].
pub enum SourceView {
    Scryfall { rel: Seq<char>, label: Seq<char>, artist: Seq<char>, year: Seq<char>, blocked: bool },
    Printing {
        rel: Seq<char>,
        label: Seq<char>,
        set: Seq<char>,
        artist: Seq<char>,
        year: Seq<char>,
        blocked: bool,
    },
    Mpcfill { rel: Seq<char>, label: Seq<char>, dpi: Option<i64>, low_dpi: Option<bool> },
}

/// The value of an [`ArtSource`].
pub open spec fn source_view(s: ArtSource) -> SourceView {
    match s {
        ArtSource::Scryfall { rel, label, artist, year, blocked } => SourceView::Scryfall {
            rel: rel@,
            label: label@,
            artist: artist@,
            year: year@,
            blocked,
        },
        ArtSource::Printing { rel, label, set, artist, year, blocked } => SourceView::Printing {
            rel: rel@,
            label: label@,
            set: set@,
            artist: artist@,
            year: year@,
            blocked,
        },
        ArtSource::Mpcfill { rel, label, dpi, low_dpi } => SourceView::Mpcfill { rel: rel@, label: label@, dpi, low_dpi },
    }
}

/// The values of a list of sources.
pub open spec fn sources_view(v: Seq<ArtSource>) -> Seq<SourceView> {
    v.map_values(|s: ArtSource| source_view(s))
}

/// What the crop editor shows of a card's art.
pub struct ArtMeta {
    /// The selectable sources, in pick order.
    pub sources: Vec<ArtSource>,
    /// The source the current crop is cut from, when known.
    pub current_rel: Option<String>,
    /// The crop is hand-placed or set by the durable override.
    pub manual: bool,
    /// A durable override is set.
    pub has_override: bool,
    /// The art is a GenAI choice (not replaced by a manual crop).
    pub genai: bool,
    /// The credited artist, and whether that credit is blocked.
    pub artist: String,
    pub artist_blocked: bool,
    /// The card is a split card (two crop rectangles).
    pub split: bool,
    /// The card has a readable sidecar.
    pub has_sidecar: bool,
}

/// The card's cache directory for the active frame.
pub open spec fn card_dir_of(m: ArtInputs) -> Seq<char> {
    joined(joined(m.cache_dir@, if m.eighth { "cards8"@ } else { "cards"@ }), sanitized(m.name@))
}

/// A split card: its name joins two halves with ` // ` and its layout is split.
pub open spec fn split_of(m: ArtInputs) -> bool {
    has_infix(m.name@, " // "@) && m.split_layout
}

/// The first source: the combined newest art of a split card, else the
/// original printing's art with its artist and year.
pub open spec fn first_source(m: ArtInputs) -> SourceView {
    if split_of(m) {
        SourceView::Scryfall {
            rel: "@latest"@,
            label: "Combined split art (newest printing)"@,
            artist: Seq::empty(),
            year: Seq::empty(),
            blocked: false,
        }
    } else {
        SourceView::Scryfall {
            rel: "@scryfall"@,
            label: "Scryfall — original printing"@,
            artist: m.oldest_artist@,
            year: m.oldest_year@,
            blocked: is_blocked(m.oldest_artist@),
        }
    }
}

/// A printing offered as a source: `@set:<SET>`, labelled `SET — artist`.
pub open spec fn printing_source(r: (Seq<char>, Seq<char>, Seq<char>)) -> SourceView {
    SourceView::Printing {
        rel: "@set:"@ + r.0,
        label: r.0 + " — "@ + r.1,
        set: r.0,
        artist: r.1,
        year: r.2,
        blocked: is_blocked(r.1),
    }
}

/// A path under the card directory as a source token (`\` read as `/`).
pub open spec fn rel_under(p: Seq<char>, card_dir: Seq<char>) -> Option<Seq<char>> {
    match path_rel(p, card_dir) {
        Some(r) => Some(replace_char(r, '\\', seq!['/'])),
        None => None,
    }
}

/// The proxies offered as sources: each one under the card directory, by its
/// token, labelled with its bucket, low-DPI when under 600 DPI.
pub open spec fn proxy_sources(ps: Seq<ProxyFile>, card_dir: Seq<char>) -> Seq<SourceView>
    decreases ps.len(),
{
    if ps.len() == 0 {
        Seq::empty()
    } else {
        let prev = proxy_sources(ps.drop_last(), card_dir);
        let f = ps.last();
        match rel_under(f.path@, card_dir) {
            Some(rel) => prev.push(
                SourceView::Mpcfill {
                    rel,
                    label: f.bucket@,
                    dpi: f.dpi,
                    low_dpi: match f.dpi {
                        Some(d) => Some(d < 600),
                        None => None,
                    },
                },
            ),
            None => prev,
        }
    }
}

/// The crop editor's sources, in pick order: the first source, then every
/// alternative printing (see [`printings_of`]), then every cached proxy.
pub open spec fn sources_spec(m: ArtInputs) -> Seq<SourceView> {
    seq![first_source(m)] + printings_of(printings_view(m.printings@)).map_values(
        |r: (Seq<char>, Seq<char>, Seq<char>)| printing_source(r),
    ) + proxy_sources(m.proxies@, card_dir_of(m))
}

/// The source the current crop is cut from: the durable override's, else
/// `@latest` for a split card, else by where the sidecar's proxy lies (under
/// the `mpcfill` folder: its own token; under the art folder: `@scryfall`;
/// elsewhere: `@current`); unknown without a proxy.
pub open spec fn current_rel_spec(m: ArtInputs) -> Option<Seq<char>> {
    match m.art_override.rel {
        Some(r) => Some(r@),
        None => if split_of(m) {
            Some("@latest"@)
        } else {
            match m.sidecar {
                Some(f) => match f.proxy {
                    Some(p) => if path_rel(p@, joined(card_dir_of(m), "mpcfill"@)) is Some {
                        rel_under(p@, card_dir_of(m))
                    } else if path_rel(p@, joined(m.cache_dir@, "art"@)) is Some {
                        Some("@scryfall"@)
                    } else {
                        Some("@current"@)
                    },
                    None => None,
                },
                None => None,
            }
        },
    }
}

/// The art is a GenAI choice: the sidecar's reference starts with `genai:`
/// and the crop is not manual.
pub open spec fn genai_spec(m: ArtInputs) -> bool {
    match m.sidecar {
        Some(f) => match f.art_ref {
            Some(r) => starts(r@, "genai:"@) && f.manual != Some(true),
            None => false,
        },
        None => false,
    }
}

/// The credited artist: the override's, else the sidecar's, else none.
pub open spec fn artist_spec(m: ArtInputs) -> Seq<char> {
    match m.art_override.artist {
        Some(a) => a@,
        None => match m.sidecar {
            Some(f) => match f.artist {
                Some(a) => a@,
                None => Seq::empty(),
            },
            None => Seq::empty(),
        },
    }
}

/// What the crop editor shows (see the spec functions above).
pub open spec fn art_meta_ok(r: ArtMeta, m: ArtInputs) -> bool {
    &&& sources_view(r.sources@) == sources_spec(m)
    &&& ostr(r.current_rel) == current_rel_spec(m)
    &&& r.manual == ((m.sidecar matches Some(f) && f.manual == Some(true)) || m.art_override.rel is Some)
    &&& r.has_override == m.art_override.rel is Some
    &&& r.genai == genai_spec(m)
    &&& r.artist@ == artist_spec(m)
    &&& r.artist_blocked == is_blocked(artist_spec(m))
    &&& r.split == split_of(m)
    &&& r.has_sidecar == m.sidecar is Some
}

fn copy_str(s: &String) -> (r: String)
    ensures
        r@ == s@,
{
    string_of(&chars_of(s.as_str()))
}

fn glue(a: &str, b: &str) -> (r: String)
    ensures
        r@ == a@ + b@,
{
    let mut v = chars_of(a);
    push_str(&mut v, b);
    string_of(&v)
}

fn rel_of(p: &str, card_dir: &str) -> (r: Option<String>)
    ensures
        ostr(r) == rel_under(p@, card_dir@),
{
    proof {
        reveal_strlit("/");
    }
    let slash = chars_of("/");
    assert(slash@ =~= seq!['/']);
    match strip_dir(p, card_dir) {
        Some(r) => {
            let out = replace_chars(&chars_of(r.as_str()), '\\', &slash);
            assert(path_rel(p@, card_dir@) == Some(r@));
            Some(string_of(&out))
        },
        None => None,
    }
}

/// What the crop editor shows of a card's art (see [`art_meta_ok`]).
pub fn art_meta_of(m: &ArtInputs) -> (res: ArtMeta)
    ensures
        art_meta_ok(res, *m),
{
    let card_dir = frame_card_dir(m.cache_dir.as_str(), m.name.as_str(), m.eighth);
    let split = contains_str(&chars_of(m.name.as_str()), " // ") && m.split_layout;
    let mut sources: Vec<ArtSource> = Vec::new();
    proof {
        reveal_strlit("");
    }
    if split {
        sources.push(ArtSource::Scryfall {
            rel: glue("@latest", ""),
            label: glue("Combined split art (newest printing)", ""),
            artist: String::new(),
            year: String::new(),
            blocked: false,
        });
    } else {
        sources.push(ArtSource::Scryfall {
            rel: glue("@scryfall", ""),
            label: glue("Scryfall — original printing", ""),
            artist: copy_str(&m.oldest_artist),
            year: copy_str(&m.oldest_year),
            blocked: artist_blocked(m.oldest_artist.as_str()),
        });
    }
    assert(sources_view(sources@) =~= seq![first_source(*m)]);
    let rows = printings_list(&m.printings);
    let ghost rv = rows_view(rows@);
    let mut i: usize = 0;
    while i < rows.len()
        invariant
            i <= rows.len(),
            rv == rows_view(rows@),
            sources_view(sources@) == seq![first_source(*m)] + rv.take(i as int).map_values(
                |r: (Seq<char>, Seq<char>, Seq<char>)| printing_source(r),
            ),
        decreases rows.len() - i,
    {
        let ghost before = sources_view(sources@);
        let r = &rows[i];
        let mut label = chars_of(r.0.as_str());
        push_str(&mut label, " — ");
        push_chars(&mut label, &chars_of(r.1.as_str()));
        sources.push(ArtSource::Printing {
            rel: glue("@set:", r.0.as_str()),
            label: string_of(&label),
            set: copy_str(&r.0),
            artist: copy_str(&r.1),
            year: copy_str(&r.2),
            blocked: artist_blocked(r.1.as_str()),
        });
        assert(rv[i as int] == (r.0@, r.1@, r.2@));
        assert(rv.take(i + 1).map_values(|r: (Seq<char>, Seq<char>, Seq<char>)| printing_source(r))
            =~= rv.take(i as int).map_values(|r: (Seq<char>, Seq<char>, Seq<char>)| printing_source(r)).push(
            printing_source(rv[i as int]),
        ));
        assert(sources_view(sources@) =~= before.push(printing_source(rv[i as int])));
        i += 1;
    }
    assert(rv.take(rows.len() as int) == rv);
    let ghost head = sources_view(sources@);
    let mut j: usize = 0;
    while j < m.proxies.len()
        invariant
            j <= m.proxies.len(),
            card_dir@ == card_dir_of(*m),
            sources_view(sources@) == head + proxy_sources(m.proxies@.take(j as int), card_dir@),
        decreases m.proxies.len() - j,
    {
        let f = &m.proxies[j];
        assert(m.proxies@.take(j + 1).drop_last() =~= m.proxies@.take(j as int));
        assert(m.proxies@.take(j + 1).last() == *f);
        let ghost before = sources_view(sources@);
        match rel_of(f.path.as_str(), card_dir.as_str()) {
            Some(rel) => {
                sources.push(ArtSource::Mpcfill {
                    rel,
                    label: copy_str(&f.bucket),
                    dpi: f.dpi,
                    low_dpi: match f.dpi {
                        Some(d) => Some(d < 600),
                        None => None,
                    },
                });
                assert(sources_view(sources@) =~= before.push(source_view(sources@.last())));
            },
            None => {},
        }
        j += 1;
    }
    assert(m.proxies@.take(m.proxies.len() as int) == m.proxies@);
    let current_rel = match &m.art_override.rel {
        Some(r) => Some(copy_str(r)),
        None => if split {
            Some(glue("@latest", ""))
        } else {
            match &m.sidecar {
                Some(f) => match &f.proxy {
                    Some(p) => {
                        let mpc = join_path(card_dir.as_str(), "mpcfill");
                        let art = join_path(m.cache_dir.as_str(), "art");
                        if strip_dir(p.as_str(), mpc.as_str()).is_some() {
                            rel_of(p.as_str(), card_dir.as_str())
                        } else if strip_dir(p.as_str(), art.as_str()).is_some() {
                            Some(glue("@scryfall", ""))
                        } else {
                            Some(glue("@current", ""))
                        }
                    },
                    None => None,
                },
                None => None,
            }
        },
    };
    let genai = match &m.sidecar {
        Some(f) => match &f.art_ref {
            Some(r) => begins(&chars_of(r.as_str()), "genai:") && f.manual != Some(true),
            None => false,
        },
        None => false,
    };
    let artist = match &m.art_override.artist {
        Some(a) => copy_str(a),
        None => match &m.sidecar {
            Some(f) => match &f.artist {
                Some(a) => copy_str(a),
                None => String::new(),
            },
            None => String::new(),
        },
    };
    let manual = match &m.sidecar {
        Some(f) => f.manual == Some(true),
        None => false,
    } || m.art_override.rel.is_some();
    let artist_blocked = artist_blocked(artist.as_str());
    ArtMeta {
        sources,
        current_rel,
        manual,
        has_override: m.art_override.rel.is_some(),
        genai,
        artist,
        artist_blocked,
        split,
        has_sidecar: m.sidecar.is_some(),
    }
}

// ---------------------------------------------------------------------------
// The cached Scryfall metadata of a card
// ---------------------------------------------------------------------------

/// The members of one printing in the prints search: artist, release date, set.
pub open spec fn printing_fields(item: Seq<char>) -> Seq<JsonValue> {
    values_at(item, key_pointers(seq!["artist"@, "released_at"@, "set"@]))
}

/// One printing of the prints search as `(set, artist, released_at)`, each
/// empty when not given as text.
pub open spec fn printing_in(item: Seq<char>) -> (Seq<char>, Seq<char>, Seq<char>) {
    let f = printing_fields(item);
    (text_or_empty(f[2]), text_or_empty(f[0]), text_or_empty(f[1]))
}

/// The year of a release date: its first four characters.
pub open spec fn year_of(date: Seq<char>) -> Seq<char> {
    date.take(if date.len() < 4 { date.len() as int } else { 4 })
}

/// The printings the cached prints search lists (its `data` array).
pub open spec fn printings_in(text: Seq<char>) -> Seq<(Seq<char>, Seq<char>, Seq<char>)> {
    items_in(text, key_pointer("data"@)).map_values(|i: Seq<char>| printing_in(i))
}

/// The artist and year of the oldest printing (the search's first, as it is
/// sorted oldest first), empty when it lists none.
pub open spec fn oldest_in(text: Seq<char>) -> (Seq<char>, Seq<char>) {
    let ps = printings_in(text);
    if ps.len() == 0 {
        (Seq::empty(), Seq::empty())
    } else {
        (ps[0].1, year_of(ps[0].2))
    }
}

fn printing_of(item: &str) -> (res: PrintingIn)
    ensures
        (res.set@, res.artist@, res.released_at@) == printing_in(item@),
{
    let keys: Vec<&str> = vec!["artist", "released_at", "set"];
    proof {
        reveal_strlit("artist");
        reveal_strlit("released_at");
        reveal_strlit("set");
    }
    assert(keys@.map_values(|k: &str| k@) =~= seq!["artist"@, "released_at"@, "set"@]);
    let f = read_values(item, &key_pointers_of(&keys));
    PrintingIn { set: text_or_blank(&f[2]), artist: text_or_blank(&f[0]), released_at: text_or_blank(&f[1]) }
}

/// The oldest printing's artist and year, and every printing, from the text
/// of the cached prints search (see [`oldest_in`], [`printings_in`]).
pub fn oldest_printing_of(prints_text: &str) -> (res: (String, String, Vec<PrintingIn>))
    ensures
        (res.0@, res.1@) == oldest_in(prints_text@),
        printings_view(res.2@) == printings_in(prints_text@),
{
    proof {
        reveal_strlit("data");
    }
    let items = array_items(prints_text, key_pointer_of("data"));
    let ghost iv = items@.map_values(|s: String| s@);
    let mut ps: Vec<PrintingIn> = Vec::new();
    let mut i: usize = 0;
    while i < items.len()
        invariant
            i <= items.len(),
            iv == items@.map_values(|s: String| s@),
            printings_view(ps@) == iv.take(i as int).map_values(|x: Seq<char>| printing_in(x)),
        decreases items.len() - i,
    {
        let p = printing_of(items[i].as_str());
        let ghost before = printings_view(ps@);
        ps.push(p);
        assert(iv[i as int] == items@[i as int]@);
        assert(iv.take(i + 1).map_values(|x: Seq<char>| printing_in(x)) =~= iv.take(i as int).map_values(
            |x: Seq<char>| printing_in(x),
        ).push(printing_in(iv[i as int])));
        assert(printings_view(ps@) =~= before.push(printing_in(iv[i as int])));
        i += 1;
    }
    assert(iv.take(items.len() as int) =~= iv);
    if ps.len() == 0 {
        (String::new(), String::new(), ps)
    } else {
        let artist = string_of(&chars_of(ps[0].artist.as_str()));
        let date = chars_of(ps[0].released_at.as_str());
        let year = slice_chars(&date, 0, if date.len() < 4 { date.len() } else { 4 });
        (artist, string_of(&year), ps)
    }
}

/// The two faces of a split card, from the text of its newest printing's
/// metadata: when the first printing's layout is `split` and it has at least
/// two faces, their names (each empty when not given as text).
pub open spec fn split_faces_in(text: Seq<char>) -> Option<(Seq<char>, Seq<char>)> {
    let vs = values_at(text, seq![pointer(seq!["data"@, "0"@, "layout"@]), pointer(seq!["data"@, "0"@, "card_faces"@])]);
    match vs[1] {
        JsonValue::Array(faces) => if vs[0] == JsonValue::Str("split"@) && faces.len() >= 2 {
            Some((
                text_or_empty(value_at(faces[0], key_pointer("name"@))),
                text_or_empty(value_at(faces[1], key_pointer("name"@))),
            ))
        } else {
            None
        },
        _ => None,
    }
}

/// The two face names of a split card (see [`split_faces_in`]).
pub fn split_faces_of(latest_text: &str) -> (res: Option<(String, String)>)
    ensures
        match split_faces_in(latest_text@) {
            Some((a, b)) => res matches Some(r) && r.0@ == a && r.1@ == b,
            None => res is None,
        },
{
    proof {
        reveal_strlit("data");
        reveal_strlit("0");
        reveal_strlit("layout");
        reveal_strlit("card_faces");
        reveal_strlit("name");
        reveal_strlit("split");
    }
    let a: Vec<&str> = vec!["data", "0", "layout"];
    let b: Vec<&str> = vec!["data", "0", "card_faces"];
    assert(a@.map_values(|k: &str| k@) =~= seq!["data"@, "0"@, "layout"@]);
    assert(b@.map_values(|k: &str| k@) =~= seq!["data"@, "0"@, "card_faces"@]);
    let ptrs = vec![pointer_of(&a), pointer_of(&b)];
    let ghost pv = seq![pointer(seq!["data"@, "0"@, "layout"@]), pointer(seq!["data"@, "0"@, "card_faces"@])];
    assert(ptrs@.map_values(|p: String| p@) =~= pv);
    let vs = read_values(latest_text, &ptrs);
    assert(field_view(vs@[0]) == values_at(latest_text@, pv)[0]);
    assert(field_view(vs@[1]) == values_at(latest_text@, pv)[1]);
    let is_split = match &vs[0] {
        JsonField::Str(l) => same_chars(&chars_of(l.as_str()), &chars_of("split")),
        _ => false,
    };
    match &vs[1] {
        JsonField::Array(faces) => {
            assert(faces@.map_values(|s: String| s@).len() == faces@.len());
            if is_split && faces.len() >= 2 {
                assert(faces@.map_values(|s: String| s@)[0] == faces@[0]@);
                assert(faces@.map_values(|s: String| s@)[1] == faces@[1]@);
                let n0 = text_or_blank(&read_value(faces[0].as_str(), key_pointer_of("name")));
                let n1 = text_or_blank(&read_value(faces[1].as_str(), key_pointer_of("name")));
                Some((n0, n1))
            } else {
                None
            }
        },
        _ => None,
    }
}

/// A proxy's DPI as the fetch index (`mpcfill/index.json`) records it: the
/// integer `dpi` of the member named by the proxy's token under the card
/// directory.
pub open spec fn index_dpi(index_text: Seq<char>, path: Seq<char>, card_dir: Seq<char>) -> Option<i64> {
    match rel_under(path, card_dir) {
        Some(rel) => int_of(value_at(index_text, pointer(seq![rel, "dpi"@]))),
        None => int_of(value_at(index_text, pointer(seq![Seq::empty(), "dpi"@]))),
    }
}

/// A proxy's DPI from the fetch index (see [`index_dpi`]).
pub fn proxy_index_dpi(index_text: &str, path: &str, card_dir: &str) -> (res: Option<i64>)
    ensures
        res == index_dpi(index_text@, path@, card_dir@),
{
    let rel = match rel_of(path, card_dir) {
        Some(r) => r,
        None => String::new(),
    };
    proof {
        reveal_strlit("");
        reveal_strlit("dpi");
    }
    let path2: Vec<&str> = vec![rel.as_str(), "dpi"];
    assert(path2@.map_values(|k: &str| k@) =~= seq![rel@, "dpi"@]);
    let p = pointer_of(&path2);
    int_value(&read_value(index_text, p))
}

/// The year a chosen GenAI art is credited with: the oldest printing's, or
/// `2001` when no prints search is cached or it lists no printing.
pub open spec fn credit_year_of(prints_text: Option<Seq<char>>) -> Seq<char> {
    match prints_text {
        Some(t) => if printings_in(t).len() > 0 {
            oldest_in(t).1
        } else {
            "2001"@
        },
        None => "2001"@,
    }
}

/// The year a chosen GenAI art is credited with (see [`credit_year_of`]).
pub fn credit_year(prints_text: Option<String>) -> (res: String)
    ensures
        res@ == credit_year_of(ostr(prints_text)),
{
    match prints_text {
        Some(t) => {
            let (_, year, ps) = oldest_printing_of(t.as_str());
            if ps.len() > 0 {
                year
            } else {
                string_of(&chars_of("2001"))
            }
        },
        None => string_of(&chars_of("2001")),
    }
}

} // verus!
