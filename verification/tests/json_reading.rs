use mtgbrain::artpick::{credit_year, oldest_printing_of, proxy_index_dpi, split_faces_of};
use mtgbrain::downloads::{mtgjson_version, read_cube_page};
use mtgbrain::editor::{qty_of_body, save_plan, SaveError};
use mtgbrain::jsonread::{array_items, body_bool, body_int, body_str, object_members, pointer_of};
use mtgbrain::names::{base_flavor, print_meta_of};
use mtgbrain::overrides::{overrides_from_text, OvValue};

#[test]
fn pointers_escape_tokens() {
    assert_eq!(pointer_of(&vec!["data", "0", "name"]), "/data/0/name");
    assert_eq!(pointer_of(&vec!["mpcfill/b/x.png", "dpi"]), "/mpcfill~1b~1x.png/dpi");
    assert_eq!(pointer_of(&vec!["a~b"]), "/a~0b");
    assert_eq!(pointer_of(&vec![]), "");
}

#[test]
fn body_members() {
    let b = r#"{"name":" Bolt ","tags":7,"qty":3,"flag":true}"#;
    assert_eq!(body_str(b, "name"), " Bolt ");
    assert_eq!(body_str(b, "tags"), "");
    assert_eq!(body_str(b, "missing"), "");
    assert_eq!(body_int(b, "qty"), Some(3));
    assert_eq!(body_int(b, "name"), None);
    assert_eq!(body_bool(b, "flag"), Some(true));
    assert_eq!(body_str("not json", "name"), "");
}

#[test]
fn body_quantities() {
    assert_eq!(qty_of_body(r#"{"qty":4}"#), 4);
    assert_eq!(qty_of_body(r#"{"qty":-2}"#), 0);
    assert_eq!(qty_of_body(r#"{"qty":"4"}"#), 1);
    assert_eq!(qty_of_body("nope"), 1);
}

#[test]
fn members_and_items() {
    let ms = object_members(r#"{"b":[1,2],"a":{"x":null}}"#);
    assert_eq!(ms, vec![("a".to_string(), "{\"x\":null}".to_string()), ("b".to_string(), "[1,2]".to_string())]);
    assert!(object_members("[1]").is_empty());
    assert_eq!(array_items(r#"{"data":[{"a":1},"s"]}"#, "/data".to_string()), vec!["{\"a\":1}".to_string(), "\"s\"".to_string()]);
}

#[test]
fn prints_metadata() {
    let t = r#"{"data":[{"set":"usg","artist":"Mark Tedin","released_at":"1998-10-12"},{"set":"7ed","artist":"B","released_at":"2001-04-11"},{"artist":"C"}]}"#;
    let (a, y, ps) = oldest_printing_of(t);
    assert_eq!((a.as_str(), y.as_str()), ("Mark Tedin", "1998"));
    assert_eq!(ps.len(), 3);
    assert_eq!((ps[1].set.as_str(), ps[1].artist.as_str(), ps[1].released_at.as_str()), ("7ed", "B", "2001-04-11"));
    assert_eq!((ps[2].set.as_str(), ps[2].released_at.as_str()), ("", ""));
    let (a, y, ps) = oldest_printing_of(r#"{"data":[]}"#);
    assert!(a.is_empty() && y.is_empty() && ps.is_empty());
    assert_eq!(credit_year(Some(t.to_string())), "1998");
    assert_eq!(credit_year(Some("{}".to_string())), "2001");
    assert_eq!(credit_year(None), "2001");
}

#[test]
fn split_layout() {
    let t = r#"{"data":[{"layout":"split","card_faces":[{"name":"Fire"},{"name":"Ice"}]}]}"#;
    assert_eq!(split_faces_of(t), Some(("Fire".to_string(), "Ice".to_string())));
    assert_eq!(split_faces_of(r#"{"data":[{"layout":"adventure","card_faces":[{"name":"A"},{"name":"B"}]}]}"#), None);
    assert_eq!(split_faces_of(r#"{"data":[{"layout":"split","card_faces":[{"name":"A"}]}]}"#), None);
    assert_eq!(split_faces_of("garbage"), None);
}

#[test]
fn proxy_dpi_from_index() {
    let idx = r#"{"mpcfill/b1/x.png":{"dpi":800},"mpcfill/b1/y.png":{"dpi":"hi"}}"#;
    assert_eq!(proxy_index_dpi(idx, "/c/cards/G/mpcfill/b1/x.png", "/c/cards/G"), Some(800));
    assert_eq!(proxy_index_dpi(idx, "/c/cards/G/mpcfill/b1/y.png", "/c/cards/G"), None);
    assert_eq!(proxy_index_dpi("{}", "/c/cards/G/mpcfill/b1/x.png", "/c/cards/G"), None);
}

#[test]
fn flavor_from_metadata() {
    let m = print_meta_of(r#"{"data":[{"flavor_text":"Old words."}]}"#);
    assert_eq!(base_flavor(&m), "Old words.");
    let f = print_meta_of(r#"{"data":[{"card_faces":[{"flavor_text":"Face words."}]}]}"#);
    assert_eq!(base_flavor(&f), "Face words.");
    assert_eq!(base_flavor(&print_meta_of("x")), "");
}

#[test]
fn overrides_text() {
    let o = overrides_from_text(r#"{"name":"X","errata_scroll":true,"mana_value":3}"#);
    assert_eq!(o.entries.len(), 3);
    assert_eq!(o.entries[0].0, "errata_scroll");
    assert!(matches!(o.entries[0].1, OvValue::Bool(true)));
    assert!(matches!(o.entries[1].1, OvValue::Other));
    assert!(matches!(&o.entries[2].1, OvValue::Str(s) if s == "X"));
    assert!(overrides_from_text("").entries.is_empty());
    assert!(overrides_from_text("[1,2]").entries.is_empty());
}

#[test]
fn saving_an_edit() {
    let existing = r#"{"flavor":"old","errata_scroll":true,"name":"X"}"#;
    let p = save_plan(
        r#"{"decision":"errata","illustrator":"  Jo  ","overrides":{"name":"Y","mana_cost":"{R}"}}"#,
        existing,
        Some("{G}".to_string()),
        Some("".to_string()),
    )
    .ok()
    .unwrap();
    assert_eq!(p.decision.as_deref(), Some("errata"));
    assert_eq!(p.illustrator.as_deref(), Some("Jo"));
    assert_eq!(p.genai_art, None);
    let o = p.overrides.unwrap().ok().unwrap();
    assert_eq!(o.text, r#"{"errata_scroll":true,"flavor":"old","mana_cost":"{R}","name":"Y"}"#);
    assert_eq!(o.identity, "R");

    let kept = save_plan(r#"{"overrides":{"flavor":"new"}}"#, existing, None, None).ok().unwrap();
    assert_eq!(kept.overrides.unwrap().ok().unwrap().text, r#"{"errata_scroll":true,"flavor":"new"}"#);

    let none = save_plan(r#"{"notes":"n","genai_art":false}"#, existing, None, None).ok().unwrap();
    assert!(none.overrides.is_none());
    assert_eq!(none.notes.as_deref(), Some("n"));
    assert_eq!(none.genai_art, Some(false));

    assert!(matches!(save_plan("{", existing, None, None), Err(SaveError::NotJson)));
    assert!(matches!(save_plan(r#"{"decision":"maybe"}"#, existing, None, None), Err(SaveError::InvalidDecision(d)) if d == "maybe"));
    let bad = save_plan(r#"{"overrides":null}"#, existing, None, None).ok().unwrap();
    assert!(matches!(bad.overrides, Some(Err(SaveError::OverridesNotObject))));
}

#[test]
fn meta_and_cube_pages() {
    assert_eq!(mtgjson_version(r#"{"data":{"version":"5.2.2"}}"#).as_deref(), Some("5.2.2"));
    assert_eq!(mtgjson_version("{}"), None);
    let page = read_cube_page(
        r#"{"numResults":200,"data":[{"name_lower":"bolt","elo":1500.5,"cubeCount":3,"isToken":false},{"name_lower":"tok","isToken":true}]}"#,
    )
    .unwrap();
    assert_eq!(page.total, Some(200));
    assert_eq!(page.items, Some(2));
    assert_eq!(
        page.records,
        vec![r#"{"cube_count":3,"elo":1500.5,"name_lower":"bolt","oracle_id":null,"pick_count":null,"popularity":null}"#.to_string()]
    );
    let empty = read_cube_page(r#"{"data":{}}"#).unwrap();
    assert_eq!(empty.items, None);
    assert!(read_cube_page("x").is_none());
}
