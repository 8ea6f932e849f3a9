use mtgbrain::cubecobra::{csv_field, cubecobra_header, cubecobra_row, ExportRow};
use mtgbrain::editor::{
    add_name, add_tags, carried_keys, check_decision, clamp_qty, list_row, recolor_identity,
    removal_decision, saved_identity, shown_identity, AddError, BaseRow, SaveError,
};
use mtgbrain::overrides::{OvValue, Overrides};

fn ov(pairs: Vec<(&str, OvValue)>) -> Overrides {
    Overrides { entries: pairs.into_iter().map(|(k, v)| (k.to_string(), v)).collect() }
}

fn st(s: &str) -> OvValue {
    OvValue::Str(s.to_string())
}

#[test]
fn decisions() {
    assert!(check_decision("accepted").is_ok());
    assert!(check_decision("pending").is_ok());
    assert!(check_decision("errata").is_ok());
    match check_decision("removed") {
        Err(e) => assert_eq!(e.message(), "invalid decision: removed"),
        Ok(_) => panic!("accepted a bad decision"),
    }
    assert_eq!(SaveError::OverridesNotObject.message(), "overrides must be a JSON object");
    assert_eq!(removal_decision(true), "removed");
    assert_eq!(removal_decision(false), "pending");
}

#[test]
fn quantities() {
    assert_eq!(clamp_qty(Some(4)), 4);
    assert_eq!(clamp_qty(Some(-3)), 0);
    assert_eq!(clamp_qty(None), 1);
}

#[test]
fn saving_keeps_hidden_keys() {
    let incoming = ov(vec![("oracle_text", st("x")), ("flavor", st("new"))]);
    let existing = ov(vec![("flavor", st("old")), ("errata_scroll", OvValue::Bool(true))]);
    assert_eq!(carried_keys(&incoming, &existing), vec!["errata_scroll".to_string()]);
    let none = ov(vec![]);
    assert_eq!(carried_keys(&none, &existing), vec!["flavor".to_string(), "errata_scroll".to_string()]);
    assert!(carried_keys(&existing, &none).is_empty());
}

#[test]
fn saving_resolves_identity() {
    let o = ov(vec![("mana_cost", st("{1}{B}"))]);
    assert_eq!(saved_identity(&o, Some("{U}".to_string()), Some("{T}: Add {G}.".to_string())), "B, G");
    let m = ov(vec![("color_identity", st("wu"))]);
    assert_eq!(saved_identity(&m, Some("{R}".to_string()), None), "W, U");
    assert_eq!(recolor_identity(&ov(vec![]), Some("{R}{W}".to_string()), None), "W, R");
    assert_eq!(shown_identity(""), "—");
    assert_eq!(shown_identity("W"), "W");
}

#[test]
fn adding_checks() {
    assert_eq!(add_name("  Opt ").ok(), Some("Opt".to_string()));
    match add_name("   ") {
        Err(e) => assert_eq!(e.message(), "empty card name"),
        Ok(_) => panic!("blank name accepted"),
    }
    assert_eq!(AddError::AlreadyInCube("Opt".into()).message(), "'Opt' is already in the cube");
    assert_eq!(
        AddError::NotFound("Opz".into()).message(),
        "'Opz' not found in the card DB — check exact spelling"
    );
    assert_eq!(add_tags(" banger "), Some("banger".to_string()));
    assert_eq!(add_tags("  "), None);
}

fn base() -> BaseRow {
    BaseRow {
        name: Some("Opt".to_string()),
        type_line: Some("Instant".to_string()),
        mana_cost: Some("{U}".to_string()),
        power: None,
        toughness: None,
        loyalty: None,
        oracle_text: Some("Scry 1. Draw a card.".to_string()),
        keywords: Some("Scry".to_string()),
        produced_mana: None,
        tags: "Banger, staple".to_string(),
    }
}

#[test]
fn list_rows_apply_errata() {
    let r = list_row(&ov(vec![]), &base());
    assert_eq!(r.name.as_deref(), Some("Opt"));
    assert_eq!(r.colors, "U");
    assert_eq!(r.color_identity, "U");
    assert!(!r.recompute_mana_value);
    assert!(r.banger);

    let shifted = list_row(&ov(vec![("mana_cost", st("{R}")), ("name", st("Shock Opt"))]), &base());
    assert_eq!(shifted.name.as_deref(), Some("Shock Opt"));
    assert_eq!(shifted.mana_cost.as_deref(), Some("{R}"));
    assert_eq!(shifted.colors, "R");
    assert_eq!(shifted.color_identity, "R");
    assert!(shifted.recompute_mana_value);

    let manual = list_row(&ov(vec![("color_identity", st("ub"))]), &base());
    assert_eq!(manual.color_identity, "U, B");
    assert_eq!(manual.colors, "U, B");

    let colors = list_row(&ov(vec![("colors", st("g")), ("mana_cost", OvValue::Other)]), &base());
    assert_eq!(colors.colors, "G");
    assert_eq!(colors.color_identity, "U");
    assert!(colors.recompute_mana_value);
}

#[test]
fn csv_quoting() {
    assert_eq!(csv_field("plain"), "plain");
    assert_eq!(csv_field("a,b"), "\"a,b\"");
    assert_eq!(csv_field("say \"hi\""), "\"say \"\"hi\"\"\"");
    assert_eq!(csv_field("two\nlines"), "\"two\nlines\"");
}

#[test]
fn cubecobra_lines() {
    assert!(cubecobra_header().starts_with("Name,CMC,Type,Color,"));
    assert!(cubecobra_header().ends_with("Tags,Notes,MTGO ID\n"));
    let r = ExportRow {
        name: "Fire // Ice".to_string(),
        cmc: "4".to_string(),
        type_line: Some("Instant // Instant".to_string()),
        color_identity: Some("U, R".to_string()),
        overrides: ov(vec![("oracle_text", st("new"))]),
        errata_text: String::new(),
        tags: "banger, ,ürgent".to_string(),
    };
    assert_eq!(
        cubecobra_row(&r, "https://x.test/cards///"),
        "Fire // Ice,4,Instant // Instant,UR,,,,Multicolored,Owned,Non-foil,false,https://x.test/cards/Fire____Ice.png,,\"Errata,Banger,Ürgent\",,\n"
    );
    let land = ExportRow {
        name: "Forest".to_string(),
        cmc: "0".to_string(),
        type_line: None,
        color_identity: None,
        overrides: ov(vec![("type", st("Basic Land — Forest"))]),
        errata_text: String::new(),
        tags: String::new(),
    };
    assert_eq!(
        cubecobra_row(&land, "b"),
        "Forest,0,Basic Land — Forest,,,,,Lands,Owned,Non-foil,false,b/Forest.png,,Errata,,\n"
    );
}
