use mtgbrain::cardview::{card_view, face_block, FaceInfo};
use mtgbrain::config::{card_db_path, RenderCfg, RenderCommon};
use mtgbrain::editor::AddError;
use mtgbrain::events::{action_name, card_status, current_choice, current_direction, Event};
use mtgbrain::faces::{face_columns, new_rulings, FaceIn, Identifiers, LeadershipSkills, Meta, Ruling};
use mtgbrain::maybe::{
    launch_plan, pool_cards, promote_outcome, promote_tag, valid_verdict, verdict_changeable,
    LaunchError, PoolFace, Promoted,
};
use mtgbrain::sources::{asset_list, printings_list, source_token, PrintingIn, Source};

fn ev(card: i64, action: &str, artist: Option<&str>, hash: Option<&str>, prompt: Option<&str>) -> Event {
    Event {
        card_id: card,
        action: action.to_string(),
        artist: artist.map(String::from),
        art_hash: hash.map(String::from),
        prompt: prompt.map(String::from),
    }
}

#[test]
fn event_kinds() {
    assert_eq!(action_name(0), "direction_set");
    assert_eq!(action_name(1), "art_generated");
    assert_eq!(action_name(2), "art_failed");
    assert_eq!(action_name(3), "chosen");
    assert_eq!(action_name(4), "unchosen");
}

#[test]
fn latest_choice_wins() {
    let mut log = vec![
        ev(1, "direction_set", None, None, Some("a dragon")),
        ev(1, "art_generated", Some("Brom"), Some("h1"), None),
        ev(1, "chosen", Some("Brom"), Some("h1"), None),
        ev(2, "chosen", Some("John Avon"), Some("h9"), None),
        ev(1, "art_generated", Some("Rob Alexander"), Some("h2"), None),
    ];
    assert_eq!(current_choice(&log, 1), Some(("Brom".to_string(), "h1".to_string())));
    assert_eq!(current_direction(&log, 1), Some("a dragon".to_string()));
    log.push(ev(1, "unchosen", None, None, None));
    assert_eq!(current_choice(&log, 1), None);
    assert_eq!(current_choice(&log, 2), Some(("John Avon".to_string(), "h9".to_string())));
    log.push(ev(1, "chosen", Some("Rob Alexander"), Some("h2"), None));
    assert_eq!(current_choice(&log, 1), Some(("Rob Alexander".to_string(), "h2".to_string())));
    log.push(ev(1, "direction_set", None, None, Some("a wyrm")));
    assert_eq!(current_direction(&log, 1), Some("a wyrm".to_string()));
    assert_eq!(current_direction(&log, 3), None);
    log.push(ev(1, "chosen", Some("Brom"), None, None));
    assert_eq!(current_choice(&log, 1), None);
}

#[test]
fn dashboard_rollup() {
    let log = vec![
        ev(1, "direction_set", None, None, Some("p")),
        ev(1, "art_generated", Some("Brom"), Some("h1"), None),
        ev(1, "art_generated", Some("John Avon"), Some("h2"), None),
        ev(1, "art_failed", Some("Brom"), None, None),
        ev(2, "art_generated", Some("Brom"), Some("h3"), None),
        ev(1, "chosen", Some("John Avon"), Some("h2"), None),
    ];
    let s = card_status(&log, 1);
    assert_eq!(s.generated, 2);
    assert!(s.has_direction);
    assert_eq!(s.events, 5);
    assert_eq!(s.chosen_artist, Some("John Avon".to_string()));
    let t = card_status(&log, 2);
    assert_eq!((t.generated, t.has_direction, t.events, t.chosen_artist), (1, false, 1, None));
}

fn face(name: &str, ty: &str, colors: &str, text: &str) -> PoolFace {
    PoolFace { name: name.into(), type_line: ty.into(), colors: colors.into(), text: text.into() }
}

#[test]
fn pool_merges_faces() {
    let rows = vec![
        face("Fire // Ice", "Instant", "R", "Fire deals 2."),
        face("Fire // Ice", "Instant", "U", "Tap target."),
        face("Opt", "Instant", "U, X", "Scry 1."),
        face("Delver", "Creature", "U", ""),
        face("Delver", "Creature — Human", "U", "Flying"),
    ];
    let p = pool_cards(&rows);
    assert_eq!(p.len(), 3);
    assert_eq!((p[0].first, p[0].type_line.as_str(), p[0].colors.as_str()), (0, "Instant", "RU"));
    assert_eq!(p[0].text, "Fire deals 2.\n//\nTap target.");
    assert_eq!((p[1].first, p[1].colors.as_str()), (2, "U"));
    assert_eq!(p[2].first, 3);
    assert_eq!(p[2].type_line, "Creature // Creature — Human");
    assert_eq!(p[2].text, "Flying");
}

fn strs(v: &[&str]) -> Vec<String> {
    v.iter().map(|s| s.to_string()).collect()
}

#[test]
fn launching_modules() {
    let plan = launch_plan(" Threshold ", &strs(&["Opt", " Opt", "Brainstorm", "", "Nimble Mongoose"]), &strs(&["Brainstorm"]))
        .ok()
        .unwrap();
    assert_eq!(plan.module_name, "Threshold");
    assert_eq!(plan.candidates, strs(&["Opt", "Nimble Mongoose"]));
    assert_eq!(plan.skipped_in_cube, 1);
    match launch_plan("  ", &strs(&["Opt"]), &vec![]) {
        Err(e) => assert_eq!(e.message(), "module name is empty"),
        Ok(_) => panic!(),
    }
    match launch_plan("m", &vec![], &vec![]) {
        Err(e) => assert!(matches!(e, LaunchError::NoNames)),
        Ok(_) => panic!(),
    }
}

#[test]
fn verdicts_and_promotion() {
    assert!(valid_verdict("want") && valid_verdict("rejected") && valid_verdict("pending"));
    assert!(!valid_verdict("added"));
    assert!(verdict_changeable("want"));
    assert!(!verdict_changeable("added"));
    assert_eq!(promote_tag(" Threshold, graveyard matters "), "maybe:Threshold--graveyard-matters");
    assert_eq!(promote_outcome(&Ok(())), Promoted::Added);
    assert_eq!(promote_outcome(&Err(AddError::AlreadyInCube("x".into()))), Promoted::Skipped);
    assert_eq!(promote_outcome(&Err(AddError::NotFound("x".into()))), Promoted::Failed);
}

#[test]
fn face_columns_derived() {
    let f = FaceIn {
        face_name: Some("Fire".to_string()),
        colors: Some(strs(&["R", "U"])),
        color_identity: Some(strs(&["U", "R"])),
        type_line: Some("Instant".to_string()),
        types: Some(strs(&["Instant"])),
        subtypes: None,
        supertypes: Some(vec![]),
        text: Some("  ".to_string()),
        keywords: None,
        produced_mana: Some(strs(&["G", "C", "W"])),
        printings: Some(strs(&["APC", "MH2"])),
        is_reserved: None,
        is_funny: Some(true),
        is_game_changer: None,
        leadership_skills: Some(LeadershipSkills { brawl: Some(true), commander: None, oathbreaker: Some(false) }),
        identifiers: Some(Identifiers { scryfall_oracle_id: Some("oid".to_string()) }),
    };
    let c = face_columns("Fire // Ice", &f);
    assert_eq!(c.display_name, "Fire");
    assert_eq!(c.colors.as_deref(), Some("U, R"));
    assert_eq!(c.color_count, 2);
    assert_eq!(c.color_identity.as_deref(), Some("U, R"));
    assert!(!c.is_colorless && c.is_multicolor);
    assert_eq!(c.supertypes, None);
    assert_eq!(c.types.as_deref(), Some("Instant"));
    assert_eq!(c.produced_mana.as_deref(), Some("W, G, C"));
    assert_eq!(c.printings.as_deref(), Some("APC, MH2"));
    assert_eq!(c.num_printings, 2);
    assert!(!c.has_text);
    assert!(c.is_funny && !c.is_reserved);
    assert!(c.can_be_brawl_commander && !c.can_be_commander && !c.can_be_oathbreaker);
    assert_eq!(c.scryfall_oracle_id.as_deref(), Some("oid"));
}

#[test]
fn model_defaults() {
    let m = Meta::default();
    assert!(m.version.is_empty() && m.date.is_empty());
    assert!(LeadershipSkills::default().commander.is_none());
    assert!(Identifiers::default().scryfall_oracle_id.is_none());
    let r = Ruling::default();
    assert!(r.date.is_none() && r.text.is_none());
}

#[test]
fn rulings_once_each() {
    let keys = vec![
        ("2020-01-01".to_string(), "A".to_string()),
        ("2020-01-01".to_string(), "B".to_string()),
        ("2020-01-01".to_string(), "A".to_string()),
        ("".to_string(), "A".to_string()),
        ("2020-01-01".to_string(), "B".to_string()),
    ];
    assert_eq!(new_rulings(&keys), vec![0, 1, 3]);
}

#[test]
fn card_view_lines() {
    let f = FaceInfo {
        display_name: "Delver of Secrets".to_string(),
        cost: Some("{U}".to_string()),
        mv_text: "  (MV 1)".to_string(),
        type_line: Some("Creature — Human Wizard".to_string()),
        power: Some("1".to_string()),
        toughness: Some("1".to_string()),
        loyalty: None,
        defense: None,
        text: Some("Look.\nFlip.".to_string()),
        rank: Some(1234),
        keywords: Some("Transform".to_string()),
        makes: None,
    };
    assert_eq!(
        face_block(&f),
        strs(&[
            "",
            "Delver of Secrets  {U}  (MV 1)",
            "  Creature — Human Wizard",
            "  1/1",
            "    Look.",
            "    Flip.",
            "  [EDHREC #1234 | keywords: Transform]",
        ])
    );
    let dup = FaceInfo { cost: None, text: None, rank: None, keywords: None, ..f };
    let lines = card_view(&vec![dup], &vec![("2021-01-01".to_string(), "Ruling.".to_string())]);
    assert_eq!(
        lines,
        strs(&["", "Delver of Secrets  (MV 1)", "  Creature — Human Wizard", "  1/1", "", "  Rulings:", "    [2021-01-01] Ruling."])
    );
    assert_eq!(card_view(&vec![], &vec![]), strs(&["(no card found)"]));
}

#[test]
fn duplicate_faces_shown_once() {
    let mk = |n: &str| FaceInfo {
        display_name: n.to_string(),
        cost: None,
        mv_text: String::new(),
        type_line: None,
        power: None,
        toughness: None,
        loyalty: Some("3".to_string()),
        defense: Some("4".to_string()),
        text: None,
        rank: None,
        keywords: None,
        makes: Some("G".to_string()),
    };
    let lines = card_view(&vec![mk("A"), mk("A"), mk("B")], &vec![]);
    assert_eq!(lines, strs(&["", "A", "  Loyalty 3  Defense 4", "  [makes: G]", "", "B", "  Loyalty 3  Defense 4", "  [makes: G]"]));
}

#[test]
fn config_paths() {
    let rc = RenderCfg {
        assets: "assets".into(),
        cache: "cache".into(),
        chrome: "chrome".into(),
        backend: None,
        source_db: "data/mtg.sqlite".into(),
        frame: "8ED".into(),
    };
    assert!(rc.is_eighth());
    let rc2 = RenderCfg { frame: "seventh".into(), ..rc };
    assert!(!rc2.is_eighth());
    let common = RenderCommon {
        editor_db: None,
        assets: "assets".into(),
        cache: "render-cache".into(),
        chrome: "c".into(),
        art_backend: None,
        foil: false,
        force: false,
    };
    assert_eq!(common.editor_db_path("data"), "data/cube_editor.sqlite");
    let given = RenderCommon { editor_db: Some("x.sqlite".into()), ..common };
    assert_eq!(given.editor_db_path("data"), "x.sqlite");
    assert_eq!(card_db_path(&None, "data"), "data/mtg.sqlite");
    assert_eq!(card_db_path(&Some("db".into()), "data"), "db");
}

#[test]
fn source_tokens() {
    assert!(matches!(source_token("@scryfall"), Source::Scryfall));
    assert!(matches!(source_token("@latest"), Source::Latest));
    assert!(matches!(source_token("@current"), Source::Current));
    assert!(matches!(source_token("@upload"), Source::Upload));
    assert!(matches!(source_token("@set:7ED"), Source::Printing(c) if c == "7ED"));
    assert!(matches!(source_token("@set:@set:USG"), Source::Printing(c) if c == "USG"));
    assert!(matches!(source_token("mpcfill/b/1.png"), Source::Mpcfill(p) if p == "mpcfill/b/1.png"));
    assert!(matches!(source_token("mpcfill/../x"), Source::Invalid));
    assert!(matches!(source_token("/etc/passwd"), Source::Unknown));
}

#[test]
fn printings_deduped() {
    let p = |s: &str, a: &str, d: &str| PrintingIn { set: s.into(), artist: a.into(), released_at: d.into() };
    let rows = printings_list(&vec![
        p("usg", "Mark Tedin", "1998-10-12"),
        p("7ed", "Peter Bollinger", "2001-04-11"),
        p("7ED", "Peter Bollinger", "2001-04-11"),
        p("", "X", "2005-01-01"),
    ]);
    assert_eq!(
        rows,
        vec![
            ("7ED".to_string(), "Peter Bollinger".to_string(), "2001".to_string()),
            ("USG".to_string(), "Mark Tedin".to_string(), "1998".to_string())
        ]
    );
    let rows = printings_list(&vec![
        p("lea", "A", "1993-08-05"),
        p("7ed", "B", "2001-04-11"),
        p("7ed", "B", "2001-04-11"),
        p("", "C", ""),
    ]);
    assert_eq!(
        rows,
        vec![
            ("7ED".to_string(), "B".to_string(), "2001".to_string()),
            ("LEA".to_string(), "A".to_string(), "1993".to_string())
        ]
    );
    // Same day: the search's order is kept; a duplicate keeps its newest year.
    let rows = printings_list(&vec![
        p("m10", "A", "2009-07-17"),
        p("m11", "B", "2009-07-17"),
        p("m10", "A", "2010-01-01"),
    ]);
    assert_eq!(
        rows,
        vec![
            ("M10".to_string(), "A".to_string(), "2010".to_string()),
            ("M11".to_string(), "B".to_string(), "2009".to_string())
        ]
    );
}

#[test]
fn asset_catalogue() {
    let a = asset_list();
    assert_eq!(a.len(), 14 + 1 + 15 + 5 + 8 + 6 + 21 + 34);
    assert_eq!(
        a[0],
        (
            "https://raw.githubusercontent.com/Investigamer/cardconjurer/master/img/frames/seventh/regular/w.png".to_string(),
            "frames/w.png".to_string()
        )
    );
    assert!(a.contains(&(
        "https://raw.githubusercontent.com/Investigamer/cardconjurer/master/fonts/mplantin-i.ttf".to_string(),
        "fonts/mplantin-italic.ttf".to_string()
    )));
    assert!(a.contains(&(
        "https://raw.githubusercontent.com/Investigamer/cardconjurer/master/img/manaSymbols/20.svg".to_string(),
        "mana/20.svg".to_string()
    )));
    assert_eq!(a[a.len() - 1].1, "mana/hr.svg");
}
