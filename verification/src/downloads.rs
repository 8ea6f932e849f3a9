//! What the downloads fetch: the MTGJSON files, and the paged CubeCobra Elo
//! listing with when to stop paging and which records to keep.

use vstd::prelude::*;
use crate::artpick::{key_pointers_of};
use crate::digest::{json_object, json_object_text, members_view, scalar_view, JsonScalar, ScalarView};
use crate::editor::{find_member, member_text};
use crate::jsonread::{
    bool_of, field_view, fields_view, flag_of, int_of, int_value, json_read, json_values, key_pointer,
    key_pointer_of, members_in, object_members, ostr, pointer, pointer_of, read_value, str_of, text_of,
    value_at, JsonField, JsonValue,
};
use crate::text::{base_digits, chars_of, decimal, push_chars, push_str, string_of};

verus! {

/// The MTGJSON API base.
pub open spec fn mtgjson_base() -> Seq<char> {
    "https://mtgjson.com/api/v5"@
}

/// The compressed download of an MTGJSON file.
pub fn mtgjson_gz_url(name: &str) -> (res: String)
    ensures
        res@ == mtgjson_base() + "/"@ + name@ + ".json.gz"@,
{
    let mut v = chars_of("https://mtgjson.com/api/v5/");
    push_str(&mut v, name);
    push_str(&mut v, ".json.gz");
    proof {
        reveal_strlit("https://mtgjson.com/api/v5/");
        reveal_strlit("https://mtgjson.com/api/v5");
        reveal_strlit("/");
    }
    assert(v@ =~= mtgjson_base() + "/"@ + name@ + ".json.gz"@);
    string_of(&v)
}

/// The file name an MTGJSON file is stored under, and its download's.
pub fn mtgjson_file(name: &str, gz: bool) -> (res: String)
    ensures
        res@ == name@ + (if gz { ".json.gz"@ } else { ".json"@ }),
{
    let mut v = chars_of(name);
    push_str(&mut v, if gz { ".json.gz" } else { ".json" });
    string_of(&v)
}

/// One page of CubeCobra's top-cards listing, sorted by Elo, every non-token
/// card (`cmc>=0`).
pub open spec fn cube_page_url_of(page: nat) -> Seq<char> {
    "https://cubecobra.com/tool/api/topcards?f=cmc%3E%3D0&s=Elo&d=descending&p="@ + decimal(page)
}

/// The URL of one page of the CubeCobra listing.
pub fn cube_page_url(page: u64) -> (res: String)
    ensures
        res@ == cube_page_url_of(page as nat),
{
    let mut v = chars_of("https://cubecobra.com/tool/api/topcards?f=cmc%3E%3D0&s=Elo&d=descending&p=");
    push_chars(&mut v, &base_digits(page, 10));
    string_of(&v)
}

/// How many cards a listing page holds.
pub open spec fn cube_page_size() -> nat {
    96
}

/// How many pages a listing of `total` cards takes.
pub fn cube_pages(total: u64) -> (res: u64)
    ensures
        res as int == (total as int + 95) / 96,
{
    total / 96 + if total % 96 == 0 { 0 } else { 1 }
}

/// Whether a listed card is kept: not a token and not an extra.
pub fn keep_cube_card(is_token: Option<bool>, is_extra: Option<bool>) -> (b: bool)
    ensures
        b == !(is_token == Some(true) || is_extra == Some(true)),
{
    !(matches!(is_token, Some(true)) || matches!(is_extra, Some(true)))
}

/// Whether to fetch page `page` (0-based): not past a page cap, and not past
/// the listing's known size.
pub open spec fn fetch_page(page: nat, max_pages: Option<nat>, total: Option<nat>) -> bool {
    &&& match max_pages {
        Some(m) => page < m,
        None => true,
    }
    &&& match total {
        Some(t) => page == 0 || page * cube_page_size() < t,
        None => true,
    }
}

/// Whether the download goes on to page `page` (see [`fetch_page`]).
pub fn next_page(page: u64, max_pages: Option<u64>, total: Option<u64>) -> (b: bool)
    ensures
        b == fetch_page(
            page as nat,
            match max_pages {
                Some(m) => Some(m as nat),
                None => None,
            },
            match total {
                Some(t) => Some(t as nat),
                None => None,
            },
        ),
{
    let under_cap = match max_pages {
        Some(m) => page < m,
        None => true,
    };
    let within = match total {
        Some(t) => page == 0 || page < t / 96 + if t % 96 == 0 { 0 } else { 1 },
        None => true,
    };
    proof {
        if let Some(t) = total {
            if page > 0 {
                let q = t / 96;
                let r = t % 96;
                assert(t == q * 96 + r);
                assert((page < q + if r == 0 { 0u64 } else { 1u64 }) == (page * 96 < t)) by (nonlinear_arith)
                    requires
                        t == q * 96 + r,
                        r < 96,
                ;
            }
        }
    }
    under_cap && within
}

/// Whether the `page` (1-based count of pages done) is one the progress line
/// is printed after: every 25th.
pub fn progress_page(pages_done: u64) -> (b: bool)
    ensures
        b == (pages_done % 25 == 0),
{
    pages_done % 25 == 0
}

/// The MTGJSON build a `Meta.json` text names: its `data.version` text.
pub open spec fn meta_version(meta: Seq<char>) -> Option<Seq<char>> {
    str_of(value_at(meta, pointer(seq!["data"@, "version"@])))
}

/// The MTGJSON build of a `Meta.json` text (see [`meta_version`]).
pub fn mtgjson_version(meta: &str) -> (res: Option<String>)
    ensures
        ostr(res) == meta_version(meta@),
{
    let p: Vec<&str> = vec!["data", "version"];
    proof {
        reveal_strlit("data");
        reveal_strlit("version");
    }
    assert(p@.map_values(|k: &str| k@) =~= seq!["data"@, "version"@]);
    text_of(&read_value(meta, pointer_of(&p)))
}

/// A member's JSON text, `null` when the object has no such member.
pub open spec fn member_or_null(ms: Seq<(Seq<char>, Seq<char>)>, key: Seq<char>) -> Seq<char> {
    match member_text(ms, key) {
        Some(t) => t,
        None => "null"@,
    }
}

/// The Elo record kept of one listed card: its name, oracle id, Elo, cube and
/// pick counts and popularity, as the listing gives them.
pub open spec fn cube_record(item: Seq<char>) -> Seq<(Seq<char>, ScalarView)> {
    let ms = members_in(item);
    seq![
        ("name_lower"@, ScalarView::Json(member_or_null(ms, "name_lower"@))),
        ("oracle_id"@, ScalarView::Json(member_or_null(ms, "oracle_id"@))),
        ("elo"@, ScalarView::Json(member_or_null(ms, "elo"@))),
        ("cube_count"@, ScalarView::Json(member_or_null(ms, "cubeCount"@))),
        ("pick_count"@, ScalarView::Json(member_or_null(ms, "pickCount"@))),
        ("popularity"@, ScalarView::Json(member_or_null(ms, "popularity"@))),
    ]
}

/// A listed card is kept unless it is flagged a token or an extra.
pub open spec fn item_kept(item: Seq<char>) -> bool {
    !(bool_of(value_at(item, key_pointer("isToken"@))) == Some(true) || bool_of(
        value_at(item, key_pointer("isExtra"@)),
    ) == Some(true))
}

/// The records written for the listed cards kept, each as serde_json writes
/// the record object.
pub open spec fn page_records(items: Seq<Seq<char>>) -> Seq<Seq<char>>
    decreases items.len(),
{
    if items.len() == 0 {
        Seq::empty()
    } else if item_kept(items.last()) {
        page_records(items.drop_last()).push(json_object_text(cube_record(items.last())))
    } else {
        page_records(items.drop_last())
    }
}

/// One page of the CubeCobra listing as read: the listing's size when given
/// (`numResults` as a non-negative integer), the number of items in its
/// `data` array when it has one, and the records of the items kept.
pub struct CubePage {
    pub total: Option<u64>,
    pub items: Option<usize>,
    pub records: Vec<String>,
}

/// Reading a page: `None` when it is not JSON (see [`page_records`]).
pub open spec fn cube_page_ok(r: Option<CubePage>, text: Seq<char>) -> bool {
    match json_values(text, seq![key_pointer("numResults"@), key_pointer("data"@)]) {
        None => r is None,
        Some(vs) => r matches Some(p) && {
            &&& p.total == match int_of(vs[0]) {
                Some(n) => if n >= 0 { Some(n as u64) } else { None },
                None => None,
            }
            &&& match vs[1] {
                JsonValue::Array(items) => p.items == Some(items.len() as usize) && p.records@.map_values(
                    |r: String| r@,
                ) == page_records(items),
                _ => p.items is None && p.records@.len() == 0,
            }
        },
    }
}

fn record_field(ms: &Vec<(String, String)>, out: &str, key: &str) -> (r: (String, JsonScalar))
    ensures
        r.0@ == out@,
        scalar_view(r.1) == ScalarView::Json(member_or_null(ms@.map_values(|m: (String, String)| (m.0@, m.1@)), key@)),
{
    proof {
        reveal_strlit("null");
    }
    let t = match find_member(ms, key) {
        Some(t) => t,
        None => string_of(&chars_of("null")),
    };
    (string_of(&chars_of(out)), JsonScalar::Json(t))
}

fn record_of(item: &str) -> (res: String)
    ensures
        res@ == json_object_text(cube_record(item@)),
{
    let ms = object_members(item);
    let members: Vec<(String, JsonScalar)> = vec![
        record_field(&ms, "name_lower", "name_lower"),
        record_field(&ms, "oracle_id", "oracle_id"),
        record_field(&ms, "elo", "elo"),
        record_field(&ms, "cube_count", "cubeCount"),
        record_field(&ms, "pick_count", "pickCount"),
        record_field(&ms, "popularity", "popularity"),
    ];
    assert(members_view(members@) =~= cube_record(item@));
    json_object(members)
}

/// Reads one page of the CubeCobra listing (see [`cube_page_ok`]).
pub fn read_cube_page(text: &str) -> (res: Option<CubePage>)
    ensures
        cube_page_ok(res, text@),
{
    let keys: Vec<&str> = vec!["numResults", "data"];
    proof {
        reveal_strlit("numResults");
        reveal_strlit("data");
        reveal_strlit("isToken");
        reveal_strlit("isExtra");
    }
    assert(keys@.map_values(|k: &str| k@) =~= seq!["numResults"@, "data"@]);
    let ptrs = key_pointers_of(&keys);
    assert(ptrs@.map_values(|p: String| p@) =~= seq![key_pointer("numResults"@), key_pointer("data"@)]);
    let fs = match json_read(text, &ptrs) {
        Some(fs) => fs,
        None => return None,
    };
    assert(field_view(fs@[0]) == fields_view(fs@)[0] && field_view(fs@[1]) == fields_view(fs@)[1]);
    let total = match int_value(&fs[0]) {
        Some(n) => if n >= 0 { Some(n as u64) } else { None },
        None => None,
    };
    match &fs[1] {
        JsonField::Array(items) => {
            let ghost iv = items@.map_values(|s: String| s@);
            let mut records: Vec<String> = Vec::new();
            let mut i: usize = 0;
            while i < items.len()
                invariant
                    i <= items.len(),
                    iv == items@.map_values(|s: String| s@),
                    records@.map_values(|r: String| r@) == page_records(iv.take(i as int)),
                decreases items.len() - i,
            {
                assert(iv.take(i + 1).drop_last() =~= iv.take(i as int));
                assert(iv.take(i + 1).last() == items@[i as int]@);
                let item = items[i].as_str();
                let token = flag_of(&read_value(item, key_pointer_of("isToken")));
                let extra = flag_of(&read_value(item, key_pointer_of("isExtra")));
                if keep_cube_card(token, extra) {
                    let ghost before = records@.map_values(|r: String| r@);
                    records.push(record_of(item));
                    assert(records@.map_values(|r: String| r@) =~= before.push(json_object_text(cube_record(iv[i as int]))));
                }
                i += 1;
            }
            assert(iv.take(items.len() as int) =~= iv);
            Some(CubePage { total, items: Some(items.len()), records })
        },
        _ => Some(CubePage { total, items: None, records: Vec::new() }),
    }
}

} // verus!
