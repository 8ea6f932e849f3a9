use mtgbrain::cubelist::{lines_of, list_append, list_without, read_list};
use mtgbrain::routes::{genai_bucket, request_path, route, Method, Route};
use mtgbrain::urls::{etag_text, id_from, mime_of, parse_int, percent, percent_decode, query_param};

fn chars(s: &str) -> Vec<char> {
    s.chars().collect()
}

fn lines(s: &str) -> Vec<String> {
    lines_of(&chars(s)).into_iter().map(|l| l.into_iter().collect()).collect()
}

#[test]
fn lines_like_std() {
    for t in ["a\nb", "a\r\nb\r\n", "", "\n", "x\n\ny\r", "a\rb\n"] {
        let want: Vec<String> = t.lines().map(|l| l.to_string()).collect();
        assert_eq!(lines(t), want, "{t:?}");
    }
}

#[test]
fn list_counts_duplicates() {
    let text = "# cube\nEvolving Wilds\n  Opt  \n\nEvolving Wilds\r\n#Opt\nEvolving Wilds\nOpt";
    assert_eq!(
        read_list(text),
        vec![("Evolving Wilds".to_string(), 3), ("Opt".to_string(), 2)]
    );
    assert!(read_list("\n# only comments\n   \n").is_empty());
}

#[test]
fn sixteen_wilds_one_entry() {
    let text = "Evolving Wilds\n".repeat(16);
    assert_eq!(read_list(&text), vec![("Evolving Wilds".to_string(), 16)]);
}

#[test]
fn appending_names() {
    assert_eq!(list_append("Opt\n", "Shock"), Some("Shock\n".to_string()));
    assert_eq!(list_append("Opt", "Shock"), Some("\nShock\n".to_string()));
    assert_eq!(list_append("", "Shock"), Some("Shock\n".to_string()));
    assert_eq!(list_append("Opt\n  Shock \n", "Shock"), None);
}

#[test]
fn added_name_is_listed() {
    let text = "Opt\nBrainstorm";
    let added = format!("{text}{}", list_append(text, "Shock").unwrap());
    assert!(read_list(&added).iter().any(|(n, _)| n == "Shock"));
    assert_eq!(list_append(&added, "Shock"), None);
}

#[test]
fn removing_names() {
    assert_eq!(list_without("Opt\nShock\n  Shock\nBrainstorm\r\n", "Shock"), "Opt\nBrainstorm\n");
    assert_eq!(list_without("", "Shock"), "\n");
    let out = list_without("Shock\nOpt\rShock", "Shock");
    assert!(!read_list(&out).iter().any(|(n, _)| n == "Shock"));
    assert!(list_append(&out, "Shock").is_some());
}

#[test]
fn url_encoding() {
    assert_eq!(percent("Fire // Ice"), "Fire%20%2F%2F%20Ice");
    assert_eq!(percent("a-b_c.d~"), "a-b_c.d~");
    assert_eq!(percent("Æ"), "%C3%86");
    assert_eq!(percent_decode("a+b%20c%2f%zz%4"), "a b c/%zz%4");
    assert_eq!(percent_decode("%C3%86ther"), "Æther");
    assert_eq!(percent_decode("%FF"), "\u{FFFD}");
}

#[test]
fn percent_roundtrip() {
    for s in ["Fire // Ice", "Jötun Grunt", "100% + ~tilde~", "", "a&b=c?d"] {
        assert_eq!(percent_decode(&percent(s)), s);
    }
}

#[test]
fn query_parameters() {
    assert_eq!(query_param("/api/art/3/img?rel=mpcfill%2Fb%2Fx.png&thumb=1", "rel"), Some("mpcfill/b/x.png".to_string()));
    assert_eq!(query_param("/x?thumb=1&rel", "rel"), Some(String::new()));
    assert_eq!(query_param("/x?a=1&a=2", "a"), Some("1".to_string()));
    assert_eq!(query_param("/x?a=1", "b"), None);
    assert_eq!(query_param("/x", "a"), None);
    assert_eq!(query_param("/x?a=b=c", "a"), Some("b=c".to_string()));
}

#[test]
fn integers_and_ids() {
    assert_eq!(parse_int(&chars("42")), Some(42));
    assert_eq!(parse_int(&chars("+7")), Some(7));
    assert_eq!(parse_int(&chars("-9223372036854775808")), Some(i64::MIN));
    assert_eq!(parse_int(&chars("9223372036854775807")), Some(i64::MAX));
    assert_eq!(parse_int(&chars("9223372036854775808")), None);
    assert_eq!(parse_int(&chars("-")), None);
    assert_eq!(parse_int(&chars("")), None);
    assert_eq!(parse_int(&chars("1a")), None);
    assert_eq!(parse_int(&chars(" 1")), None);
    assert_eq!(id_from("/api/card/17", "/api/card/"), Some(17));
    assert_eq!(id_from("/api/card/x", "/api/card/"), None);
    assert_eq!(id_from("/api/qty/3", "/api/card/"), None);
}

#[test]
fn content_types_and_etags() {
    assert_eq!(mime_of("cache/a/b.PNG"), "image/png");
    assert_eq!(mime_of("x.jpeg"), "image/jpeg");
    assert_eq!(mime_of("x.jpg"), "image/jpeg");
    assert_eq!(mime_of("x.webp"), "image/webp");
    assert_eq!(mime_of("x.gif"), "image/gif");
    assert_eq!(mime_of("x.svg"), "application/octet-stream");
    assert_eq!(mime_of(".png"), "application/octet-stream");
    assert_eq!(mime_of("noext"), "application/octet-stream");
    assert_eq!(etag_text(255, 16), "\"ff-10\"");
    assert_eq!(etag_text(0, 0), "\"0-0\"");
}

#[test]
fn routing() {
    assert_eq!(route(Method::Get, "/"), Route::Index);
    assert_eq!(route(Method::Post, "/"), Route::NotFound);
    assert_eq!(route(Method::Get, "/api/cards"), Route::Cards);
    assert_eq!(route(Method::Get, "/api/card/5"), Route::GetCard(5));
    assert_eq!(route(Method::Post, "/api/card/5"), Route::SaveCard(5));
    assert_eq!(route(Method::Get, "/api/card/five"), Route::NotFound);
    assert_eq!(route(Method::Post, "/api/add"), Route::AddCard);
    assert_eq!(route(Method::Post, "/api/qty/2"), Route::SetQty(2));
    assert_eq!(route(Method::Get, "/api/qty/2"), Route::NotFound);
    assert_eq!(route(Method::Post, "/api/remove/2"), Route::Remove(2));
    assert_eq!(route(Method::Post, "/api/restore/2"), Route::Restore(2));
    assert_eq!(route(Method::Get, "/api/genai/dashboard"), Route::GenaiDashboard);
    assert_eq!(route(Method::Get, "/api/genai/4/options"), Route::GenaiOptions(4));
    assert_eq!(route(Method::Post, "/api/genai/4/choose"), Route::GenaiChoose(4));
    assert_eq!(route(Method::Get, "/api/genai/4/card/John_Avon"), Route::GenaiCard(4));
    assert_eq!(route(Method::Get, "/api/genai/4/base-card"), Route::GenaiBaseCard(4));
    assert_eq!(route(Method::Post, "/api/genai/4/options"), Route::NotFound);
    assert_eq!(route(Method::Get, "/api/art/9"), Route::ArtMeta(9));
    assert_eq!(route(Method::Post, "/api/art/9"), Route::ArtSave(9));
    assert_eq!(route(Method::Get, "/api/art/9/img"), Route::ArtImage(9));
    assert_eq!(route(Method::Post, "/api/art/9/reset"), Route::ArtReset(9));
    assert_eq!(route(Method::Other, "/api/art/9"), Route::NotFound);
    assert_eq!(route(Method::Get, "/api/render/3"), Route::Render(3));
    assert_eq!(route(Method::Post, "/api/render/3"), Route::NotFound);
    assert_eq!(route(Method::Get, "/nothing"), Route::NotFound);
    assert_eq!(request_path("/api/render/3?foil=1"), "/api/render/3");
    assert_eq!(request_path("/plain"), "/plain");
    assert_eq!(genai_bucket("/api/genai/4/card/John_Avon"), "John_Avon");
}
