use mtgbrain::cardface::{
    fill_template, fix_mana_css, illus_html, indicator_frames, indicator_letters, pt_box_html,
    year_text,
};
use mtgbrain::colors::{
    ci_letters, color_category, color_identity_of, color_key, effective_color_identity, join_opt,
    sort_colors,
};
use mtgbrain::frames::{
    card_colors, color_frame, color_frame_8th, frame_file, frame_file_8th, frame_for_cost_8th,
    frame_overlay, info_ink_8th, pt_box_8th, rarity_fill, Card,
};
use mtgbrain::lists::{is_oldframe, is_token_gen, presets};
use mtgbrain::overrides::{errata_ribbon, load_card, CardRow, OvValue, Overrides};

fn card(type_line: &str, mana_cost: &str) -> Card {
    Card {
        name: "X".to_string(),
        display_name: "X".to_string(),
        mana_cost: mana_cost.to_string(),
        type_line: type_line.to_string(),
        oracle_text: String::new(),
        flavor: String::new(),
        flavor_overridden: false,
        power: String::new(),
        toughness: String::new(),
        loyalty: String::new(),
        colors: String::new(),
        color_identity: String::new(),
        ci_manual: false,
        is_creature: false,
        set: String::new(),
        rarity: String::new(),
        illustrator: String::new(),
        is_errata: false,
    }
}

fn ov(pairs: &[(&str, OvValue)]) -> Overrides {
    Overrides {
        entries: pairs
            .iter()
            .map(|(k, v)| {
                let v2 = match v {
                    OvValue::Str(s) => OvValue::Str(s.clone()),
                    OvValue::Bool(b) => OvValue::Bool(*b),
                    OvValue::Other => OvValue::Other,
                };
                (k.to_string(), v2)
            })
            .collect(),
    }
}

fn strs(v: &[&str]) -> Vec<String> {
    v.iter().map(|x| x.to_string()).collect()
}

#[test]
fn color_order_and_join() {
    assert_eq!(color_key("W"), 0);
    assert_eq!(color_key("G"), 4);
    assert_eq!(color_key("C"), 5);
    assert_eq!(color_key("Z"), 99);
    assert_eq!(sort_colors(&strs(&["G", "Q", "W", "U"])), strs(&["W", "U", "G", "Q"]));
    assert_eq!(join_opt(&strs(&["W", "U"])), Some("W, U".to_string()));
    assert_eq!(join_opt(&Vec::new()), None);
}

#[test]
fn identity_from_symbols_only() {
    assert_eq!(color_identity_of("{2}{G}{W/U}", "{T}: Add {B}. Red is a colour."), "W, U, B, G");
    assert_eq!(color_identity_of("{3}", "Flying"), "");
    assert_eq!(ci_letters("u, b, u"), vec!['U', 'B']);
}

#[test]
fn manual_identity_wins() {
    assert_eq!(effective_color_identity("{R}", "", Some(" gw ")), "W, G");
    assert_eq!(effective_color_identity("{R}", "", Some("  ")), "R");
    assert_eq!(effective_color_identity("{R}", "", None), "R");
}

#[test]
fn cubecobra_categories() {
    assert_eq!(color_category("Basic Land — Forest", &vec!['G']), "Lands");
    assert_eq!(color_category("Creature", &vec![]), "Colorless");
    assert_eq!(color_category("Creature", &vec!['U']), "Blue");
    assert_eq!(color_category("Instant", &vec!['U', 'R']), "Multicolored");
}

#[test]
fn frames_by_colour_and_type() {
    assert_eq!(frame_file(&card("Creature — Elf", "{1}{G}")), "frames/g.png");
    assert_eq!(frame_file(&card("Instant", "{U}{R}")), "frames/m.png");
    assert_eq!(frame_file(&card("Artifact", "{3}")), "frames/a.png");
    let mut land = card("Land", "");
    land.color_identity = "U".to_string();
    assert_eq!(frame_file(&land), "frames/ul.png");
    land.color_identity = "U, B".to_string();
    assert_eq!(frame_file(&land), "frames/l.png");
    assert_eq!(frame_file(&card("Sorcery", "{2}")), "frames/c.png");
    assert_eq!(frame_file_8th(&card("Creature", "{W}")), "frames8/w.png");
    assert_eq!(color_frame('R'), "frames/r.png");
    assert_eq!(color_frame('X'), "frames/g.png");
    assert_eq!(color_frame_8th('B'), "frames8/b.png");
}

#[test]
fn card_colors_fall_back_to_colors_field() {
    let mut c = card("Artifact Creature", "{2}");
    c.colors = "G, W".to_string();
    assert_eq!(card_colors(&c), vec!['G', 'W']);
    assert_eq!(card_colors(&card("Creature", "{G}{W}{G}")), vec!['G', 'W']);
}

#[test]
fn overlays_and_8th_details() {
    assert_eq!(frame_overlay(&card("Artifact Creature", "{2}{U}")), Some("frames/u.png"));
    assert_eq!(frame_overlay(&card("Creature", "{2}{U}")), None);
    assert_eq!(pt_box_8th(&card("Creature", "{R}{G}")), "frames8/pt/m.png");
    assert_eq!(pt_box_8th(&card("Artifact Creature", "{4}")), "frames8/pt/a.png");
    assert_eq!(info_ink_8th("assets/frames8/b.png"), ("#f4f1e8", "1px 1px 0 rgba(0,0,0,0.85)"));
    assert_eq!(info_ink_8th("assets/frames8/gl.png"), ("#f4f1e8", "1px 1px 0 rgba(0,0,0,0.85)"));
    assert_eq!(info_ink_8th("assets/frames8/w.png"), ("#161310", "none"));
    assert_eq!(frame_for_cost_8th("{W}{U}"), "frames8/m.png");
    assert_eq!(frame_for_cost_8th("{1}"), "frames8/c.png");
    assert_eq!(rarity_fill("rare"), "#c9a23c");
    assert_eq!(rarity_fill("common"), "#0c0c0c");
}

#[test]
fn seeding_presets() {
    let p = presets("Creature — Human", "ODY, 7ED", false);
    assert!(p.is_creature && p.odyssey_creature && !p.genai_art);
    assert_eq!(p.decision, "accepted");
    let q = presets("Instant", "M19, DOM", false);
    assert!(!q.odyssey_creature && q.genai_art);
    assert_eq!(q.decision, "pending");
    assert!(!presets("Instant", "M19", true).genai_art);
    assert!(is_oldframe("M19, LEA"));
    assert!(!is_oldframe("M19, LEAX"));
    assert!(is_token_gen("Create a 1/1 white Soldier CREATURE TOKEN."));
    assert!(!is_token_gen("Create a Treasure token."));
}

#[test]
fn errata_ribbon_rule() {
    assert!(errata_ribbon(&ov(&[("oracle_text", OvValue::Str("x".into()))]), ""));
    assert!(!errata_ribbon(&ov(&[("name", OvValue::Str("x".into()))]), ""));
    assert!(errata_ribbon(&ov(&[]), "  changed  "));
    assert!(!errata_ribbon(&ov(&[("power", OvValue::Other), ("errata_scroll", OvValue::Str(" OFF ".into()))]), ""));
    assert!(errata_ribbon(&ov(&[("errata_scroll", OvValue::Bool(true))]), ""));
    assert!(errata_ribbon(&ov(&[("errata_scroll", OvValue::Str("maybe".into())), ("type", OvValue::Other)]), ""));
}

#[test]
fn load_card_applies_overrides() {
    let row = CardRow {
        name: "Opt".to_string(),
        mana_cost: Some("{U}".to_string()),
        type_line: Some("Instant".to_string()),
        oracle_text: Some("Scry 1.".to_string()),
        power: None,
        toughness: None,
        loyalty: None,
        colors: Some("U".to_string()),
        is_creature: 0,
        illustrator: "Someone".to_string(),
        errata_text: String::new(),
        color_identity: "U".to_string(),
    };
    let o = ov(&[
        ("name", OvValue::Str("Option".into())),
        ("mana_cost", OvValue::Str("{1}{U}".into())),
        ("color_identity", OvValue::Str("ub".into())),
        ("flavor", OvValue::Str(String::new())),
    ]);
    let c = load_card(&row, &o);
    assert_eq!(c.name, "Opt");
    assert_eq!(c.display_name, "Option");
    assert_eq!(c.mana_cost, "{1}{U}");
    assert_eq!(c.type_line, "Instant");
    assert_eq!(c.color_identity, "U, B");
    assert!(c.ci_manual);
    assert!(c.flavor_overridden);
    assert_eq!(c.flavor, "");
    assert!(c.is_errata);
    assert_eq!(c.illustrator, "Someone");
}

#[test]
fn pt_box_and_credit() {
    let mut c = card("Creature", "{G}");
    c.power = "2".to_string();
    c.toughness = "<3>".to_string();
    assert_eq!(pt_box_html(&c), "<div class=\"box pt\"><span>2/&lt;3&gt;</span></div>");
    let mut pw = card("Planeswalker", "{U}");
    pw.loyalty = "4".to_string();
    assert_eq!(pt_box_html(&pw), "<div class=\"box pt\"><span>4</span></div>");
    assert_eq!(pt_box_html(&card("Instant", "{U}")), "");
    assert_eq!(illus_html("  Reverie Quay ", "Rebecca Guay"), "<div class=\"info illus\"><span>Illus. Reverie Quay</span></div>");
    assert_eq!(illus_html("", " Mark Tedin "), "<div class=\"info illus\"><span>Illus. Mark Tedin</span></div>");
    assert_eq!(illus_html(" ", ""), "");
    assert_eq!(year_text(""), "2001");
    assert_eq!(year_text("1997"), "1997");
}

#[test]
fn colour_indicator_dot() {
    let mut art = card("Artifact Creature", "{2}{U}");
    assert_eq!(indicator_letters(&art), vec!['U']);
    art.mana_cost = "{3}".to_string();
    art.color_identity = "B".to_string();
    assert_eq!(indicator_letters(&art), vec!['B']);
    let mut land = card("Land", "");
    land.ci_manual = true;
    land.color_identity = "U".to_string();
    assert_eq!(indicator_letters(&land), Vec::<char>::new());
    land.color_identity = "W, U".to_string();
    assert_eq!(indicator_letters(&land), vec!['W', 'U']);
    assert_eq!(indicator_letters(&card("Creature", "{G}")), Vec::<char>::new());
    assert_eq!(indicator_frames(&vec!['W', 'U']), vec!["frames/w.png", "frames/u.png"]);
    assert_eq!(indicator_frames(&vec!['W', 'U', 'B']), vec!["frames/m.png"]);
    assert!(indicator_frames(&vec![]).is_empty());
}

#[test]
fn template_fill_in_order() {
    let pairs = vec![
        ("NAME".to_string(), "Opt".to_string()),
        ("A".to_string(), "%%NAME%%".to_string()),
    ];
    assert_eq!(fill_template("<b>%%NAME%%</b>%%A%%%%NAME%%", &pairs), "<b>Opt</b>%%NAME%%Opt");
    assert_eq!(
        fix_mana_css("url(../fonts/mana.woff2) url(../fonts/mana.woff) url(../fonts/mana.ttf)"),
        "url(mana.ttf) url(mana.ttf) url(mana.ttf)"
    );
}
