//! The cube editor's HTTP routes: which handler a request goes to, decided
//! from its method and path alone.

use vstd::prelude::*;
use crate::text::{chars_of, same_chars, slice_chars, split_chars, split_on, string_of};
use crate::urls::{parse_i64, parse_int};

verus! {

/// The request methods the editor tells apart.
#[derive(PartialEq, Eq, Structural, Clone, Copy, Debug)]
pub enum Method {
    Get,
    Post,
    Other,
}

/// What a request asks for. Ids are the editor database's card ids.
#[derive(PartialEq, Eq, Structural, Clone, Copy, Debug)]
pub enum Route {
    /// The single-page UI.
    Index,
    /// Every card with its effective fields, and the counts.
    Cards,
    GetCard(i64),
    SaveCard(i64),
    AddCard,
    SetQty(i64),
    Remove(i64),
    Restore(i64),
    GenaiDashboard,
    GenaiOptions(i64),
    GenaiHistory(i64),
    GenaiReprompt(i64),
    GenaiUnchoose(i64),
    GenaiOriginal(i64),
    GenaiDirection(i64),
    GenaiGenerate(i64),
    /// A rendered option; the artist bucket is the path's third segment.
    GenaiCard(i64),
    GenaiBaseCard(i64),
    GenaiChoose(i64),
    ArtMeta(i64),
    ArtImage(i64),
    ArtFetch(i64),
    ArtUpload(i64),
    ArtSave(i64),
    ArtReset(i64),
    Render(i64),
    NotFound,
}

/// `p` begins with `pre`.
pub open spec fn starts(p: Seq<char>, pre: Seq<char>) -> bool {
    p.len() >= pre.len() && p.take(pre.len() as int) == pre
}

/// `p` after its prefix `pre`.
pub open spec fn after(p: Seq<char>, pre: Seq<char>) -> Seq<char> {
    p.skip(pre.len() as int)
}

/// An id route: the id after the prefix, or not found when it does not parse.
pub open spec fn with_id(p: Seq<char>, pre: Seq<char>, f: spec_fn(i64) -> Route) -> Route {
    match parse_i64(after(p, pre)) {
        Some(id) => f(id as i64),
        None => Route::NotFound,
    }
}

/// The GenAI gallery's routes, by the segments after `/api/genai/`.
pub open spec fn genai_route(m: Method, segs: Seq<Seq<char>>) -> Route {
    if m == Method::Get && segs.len() == 1 && segs[0] == "dashboard"@ {
        Route::GenaiDashboard
    } else {
        match parse_i64(segs[0]) {
            None => Route::NotFound,
            Some(g) => {
                let id = g as i64;
                if segs.len() == 2 {
                    let s = segs[1];
                    if m == Method::Get && s == "options"@ {
                        Route::GenaiOptions(id)
                    } else if m == Method::Get && s == "history"@ {
                        Route::GenaiHistory(id)
                    } else if m == Method::Post && s == "reprompt"@ {
                        Route::GenaiReprompt(id)
                    } else if m == Method::Post && s == "unchoose"@ {
                        Route::GenaiUnchoose(id)
                    } else if m == Method::Post && s == "original"@ {
                        Route::GenaiOriginal(id)
                    } else if m == Method::Post && s == "direction"@ {
                        Route::GenaiDirection(id)
                    } else if m == Method::Post && s == "generate"@ {
                        Route::GenaiGenerate(id)
                    } else if m == Method::Get && s == "base-card"@ {
                        Route::GenaiBaseCard(id)
                    } else if m == Method::Post && s == "choose"@ {
                        Route::GenaiChoose(id)
                    } else {
                        Route::NotFound
                    }
                } else if segs.len() == 3 && m == Method::Get && segs[1] == "card"@ {
                    Route::GenaiCard(id)
                } else {
                    Route::NotFound
                }
            },
        }
    }
}

/// The crop editor's routes, by the segments after `/api/art/`.
pub open spec fn art_route(m: Method, segs: Seq<Seq<char>>) -> Route {
    match parse_i64(segs[0]) {
        None => Route::NotFound,
        Some(g) => {
            let id = g as i64;
            if segs.len() == 1 {
                if m == Method::Get {
                    Route::ArtMeta(id)
                } else if m == Method::Post {
                    Route::ArtSave(id)
                } else {
                    Route::NotFound
                }
            } else if segs.len() == 2 {
                let s = segs[1];
                if m == Method::Get && s == "img"@ {
                    Route::ArtImage(id)
                } else if m == Method::Post && s == "fetch"@ {
                    Route::ArtFetch(id)
                } else if m == Method::Post && s == "upload"@ {
                    Route::ArtUpload(id)
                } else if m == Method::Post && s == "reset"@ {
                    Route::ArtReset(id)
                } else {
                    Route::NotFound
                }
            } else {
                Route::NotFound
            }
        },
    }
}

/// The route of a request with method `m` and path `p` (its URL before any `?`).
pub open spec fn route_of(m: Method, p: Seq<char>) -> Route {
    if m == Method::Get && p == "/"@ {
        Route::Index
    } else if m == Method::Get && p == "/api/cards"@ {
        Route::Cards
    } else if m == Method::Get && starts(p, "/api/card/"@) {
        with_id(p, "/api/card/"@, |id: i64| Route::GetCard(id))
    } else if m == Method::Post && starts(p, "/api/card/"@) {
        with_id(p, "/api/card/"@, |id: i64| Route::SaveCard(id))
    } else if m == Method::Post && p == "/api/add"@ {
        Route::AddCard
    } else if m == Method::Post && starts(p, "/api/qty/"@) {
        with_id(p, "/api/qty/"@, |id: i64| Route::SetQty(id))
    } else if m == Method::Post && starts(p, "/api/remove/"@) {
        with_id(p, "/api/remove/"@, |id: i64| Route::Remove(id))
    } else if m == Method::Post && starts(p, "/api/restore/"@) {
        with_id(p, "/api/restore/"@, |id: i64| Route::Restore(id))
    } else if starts(p, "/api/genai/"@) {
        genai_route(m, split_on(after(p, "/api/genai/"@), '/'))
    } else if starts(p, "/api/art/"@) {
        art_route(m, split_on(after(p, "/api/art/"@), '/'))
    } else if m == Method::Get && starts(p, "/api/render/"@) {
        with_id(p, "/api/render/"@, |id: i64| Route::Render(id))
    } else {
        Route::NotFound
    }
}

fn is(a: &Vec<char>, w: &str) -> (b: bool)
    ensures
        b == (a@ == w@),
{
    same_chars(a, &chars_of(w))
}

/// Whether `p` begins with `pre`; when it does, also what follows.
fn strip(p: &Vec<char>, pre: &str) -> (res: Option<Vec<char>>)
    ensures
        match res {
            Some(r) => starts(p@, pre@) && r@ == after(p@, pre@),
            None => !starts(p@, pre@),
        },
{
    let q = chars_of(pre);
    if p.len() < q.len() {
        return None;
    }
    if !same_chars(&slice_chars(p, 0, q.len()), &q) {
        return None;
    }
    let r = slice_chars(p, q.len(), p.len());
    assert(r@ =~= after(p@, pre@));
    Some(r)
}

fn genai_route_of(m: Method, segs: &Vec<Vec<char>>) -> (r: Route)
    requires
        segs@.len() >= 1,
    ensures
        r == genai_route(m, segs@.map_values(|s: Vec<char>| s@)),
{
    let ghost sv = segs@.map_values(|s: Vec<char>| s@);
    assert(sv[0] == segs@[0]@);
    if m == Method::Get && segs.len() == 1 && is(&segs[0], "dashboard") {
        return Route::GenaiDashboard;
    }
    let id = match parse_int(&segs[0]) {
        None => {
            return Route::NotFound;
        },
        Some(id) => id,
    };
    if segs.len() == 2 {
        let s = &segs[1];
        assert(sv[1] == s@);
        if m == Method::Get && is(s, "options") {
            Route::GenaiOptions(id)
        } else if m == Method::Get && is(s, "history") {
            Route::GenaiHistory(id)
        } else if m == Method::Post && is(s, "reprompt") {
            Route::GenaiReprompt(id)
        } else if m == Method::Post && is(s, "unchoose") {
            Route::GenaiUnchoose(id)
        } else if m == Method::Post && is(s, "original") {
            Route::GenaiOriginal(id)
        } else if m == Method::Post && is(s, "direction") {
            Route::GenaiDirection(id)
        } else if m == Method::Post && is(s, "generate") {
            Route::GenaiGenerate(id)
        } else if m == Method::Get && is(s, "base-card") {
            Route::GenaiBaseCard(id)
        } else if m == Method::Post && is(s, "choose") {
            Route::GenaiChoose(id)
        } else {
            Route::NotFound
        }
    } else if segs.len() == 3 && m == Method::Get && is(&segs[1], "card") {
        assert(sv[1] == segs@[1]@);
        Route::GenaiCard(id)
    } else {
        assert(segs.len() == 3 && m == Method::Get ==> sv[1] == segs@[1]@);
        Route::NotFound
    }
}

fn art_route_of(m: Method, segs: &Vec<Vec<char>>) -> (r: Route)
    requires
        segs@.len() >= 1,
    ensures
        r == art_route(m, segs@.map_values(|s: Vec<char>| s@)),
{
    let ghost sv = segs@.map_values(|s: Vec<char>| s@);
    assert(sv[0] == segs@[0]@);
    let id = match parse_int(&segs[0]) {
        None => {
            return Route::NotFound;
        },
        Some(id) => id,
    };
    if segs.len() == 1 {
        if m == Method::Get {
            Route::ArtMeta(id)
        } else if m == Method::Post {
            Route::ArtSave(id)
        } else {
            Route::NotFound
        }
    } else if segs.len() == 2 {
        let s = &segs[1];
        assert(sv[1] == s@);
        if m == Method::Get && is(s, "img") {
            Route::ArtImage(id)
        } else if m == Method::Post && is(s, "fetch") {
            Route::ArtFetch(id)
        } else if m == Method::Post && is(s, "upload") {
            Route::ArtUpload(id)
        } else if m == Method::Post && is(s, "reset") {
            Route::ArtReset(id)
        } else {
            Route::NotFound
        }
    } else {
        Route::NotFound
    }
}

/// The route of a request (see [`route_of`]).
pub fn route(m: Method, path: &str) -> (r: Route)
    ensures
        r == route_of(m, path@),
{
    let p = chars_of(path);
    if m == Method::Get && is(&p, "/") {
        return Route::Index;
    }
    if m == Method::Get && is(&p, "/api/cards") {
        return Route::Cards;
    }
    let card = strip(&p, "/api/card/");
    if m == Method::Get || m == Method::Post {
        if let Some(rest) = &card {
            return match parse_int(rest) {
                Some(id) => if m == Method::Get { Route::GetCard(id) } else { Route::SaveCard(id) },
                None => Route::NotFound,
            };
        }
    }
    if m == Method::Post {
        if is(&p, "/api/add") {
            return Route::AddCard;
        }
        if let Some(rest) = strip(&p, "/api/qty/") {
            return match parse_int(&rest) {
                Some(id) => Route::SetQty(id),
                None => Route::NotFound,
            };
        }
        if let Some(rest) = strip(&p, "/api/remove/") {
            return match parse_int(&rest) {
                Some(id) => Route::Remove(id),
                None => Route::NotFound,
            };
        }
        if let Some(rest) = strip(&p, "/api/restore/") {
            return match parse_int(&rest) {
                Some(id) => Route::Restore(id),
                None => Route::NotFound,
            };
        }
    }
    if let Some(rest) = strip(&p, "/api/genai/") {
        let segs = split_chars(&rest, '/');
        proof {
            crate::text::lemma_split_nonempty(rest@, '/');
        }
        return genai_route_of(m, &segs);
    }
    if let Some(rest) = strip(&p, "/api/art/") {
        let segs = split_chars(&rest, '/');
        proof {
            crate::text::lemma_split_nonempty(rest@, '/');
        }
        return art_route_of(m, &segs);
    }
    if m == Method::Get {
        if let Some(rest) = strip(&p, "/api/render/") {
            return match parse_int(&rest) {
                Some(id) => Route::Render(id),
                None => Route::NotFound,
            };
        }
    }
    Route::NotFound
}

/// The path of a request URL: its text before the first `?`.
pub fn request_path(url: &str) -> (res: String)
    ensures
        res@ == split_on(url@, '?')[0],
{
    let parts = split_chars(&chars_of(url), '?');
    proof {
        crate::text::lemma_split_nonempty(url@, '?');
    }
    assert(parts@.map_values(|p: Vec<char>| p@)[0] == parts@[0]@);
    string_of(&parts[0])
}

/// The artist bucket of a GenAI option path (`/api/genai/<id>/card/<bucket>`):
/// the third segment after `/api/genai/`, or empty.
pub fn genai_bucket(path: &str) -> (res: String)
    ensures
        starts(path@, "/api/genai/"@) && split_on(after(path@, "/api/genai/"@), '/').len() >= 3
            ==> res@ == split_on(after(path@, "/api/genai/"@), '/')[2],
{
    match strip(&chars_of(path), "/api/genai/") {
        Some(rest) => {
            let segs = split_chars(&rest, '/');
            if segs.len() >= 3 {
                assert(segs@.map_values(|p: Vec<char>| p@)[2] == segs@[2]@);
                string_of(&segs[2])
            } else {
                String::new()
            }
        },
        None => String::new(),
    }
}

} // verus!
