use mtgbrain::artists::{artist_blocked, mentions_card_mechanic, pseudonym};
use mtgbrain::digest::{card_hash, sha256_hex_of, short_hash};
use mtgbrain::frames::Card;
use mtgbrain::html::{
    esc, esc_char, flav_emph, mana_icon, manaify, paragraphs, reminder_italic, rules_html,
};
use mtgbrain::names::{
    base_flavor, default_editor_db, frame_card_dir, genai_card_path, join_path, prints_meta_path,
    sanitize, sanitize_bucket, PrintMeta,
};
use mtgbrain::text::{chars_of, lower_vec};
use mtgbrain::sources::{printings_list, PrintingIn};

#[test]
fn escaping() {
    assert_eq!(esc_char('&'), "&amp;");
    assert_eq!(esc_char('"'), "&quot;");
    assert_eq!(esc_char('a'), "a");
    assert_eq!(esc("<b>\"Fire\" & Ice</b>"), "&lt;b&gt;&quot;Fire&quot; &amp; Ice&lt;/b&gt;");
}

#[test]
fn escaped_text_has_no_markup() {
    let e = esc("<script>alert(\"x\")</script>");
    assert!(!e.contains('<') && !e.contains('>') && !e.contains('"'));
}

#[test]
fn flavor_emphasis_inverts() {
    assert_eq!(flav_emph("the *Principia* says"), "the <span class=\"up\">Principia</span> says");
    assert_eq!(flav_emph("**bold** & more"), "<span class=\"up\">bold</span> &amp; more");
    assert_eq!(flav_emph("open *end"), "open <span class=\"up\">end</span>");
}

#[test]
fn reminder_text_italic() {
    assert_eq!(reminder_italic("Flying (It can't be blocked.)"), "Flying <i>(It can't be blocked.)</i>");
    assert_eq!(reminder_italic("a (b (c) d) e"), "a <i>(b (c) d)</i> e");
    assert_eq!(reminder_italic("open (x"), "open <i>(x</i>");
    assert_eq!(reminder_italic("stray) here"), "stray) here");
    assert_eq!(reminder_italic("a) (b) c)"), "a) <i>(b)</i> c)");
}

#[test]
fn mana_symbols_as_icons() {
    assert_eq!(mana_icon("T", "m"), "<img class=\"ms-img\" src=\"m/t.svg\">");
    assert_eq!(mana_icon("q", "m"), "<img class=\"ms-img\" src=\"m/untap.svg\">");
    assert_eq!(mana_icon("W/U", "m"), "<img class=\"ms-img\" src=\"m/wu.svg\">");
    assert_eq!(mana_icon("2/u", "m"), "<img class=\"ms-img\" src=\"m/2u.svg\">");
    assert_eq!(
        manaify("{T}: Add {G} & more", "m"),
        "<img class=\"ms-img\" src=\"m/t.svg\">: Add <img class=\"ms-img\" src=\"m/g.svg\"> &amp; more"
    );
    assert_eq!(manaify("cost {X", "m"), "cost <img class=\"ms-img\" src=\"m/x.svg\">");
}

#[test]
fn paragraphs_with_hard_breaks() {
    let p = paragraphs("one\r\n\ntwo  \nthree\nfour");
    assert_eq!(
        p,
        vec![
            vec!["one".to_string()],
            vec!["two".to_string(), "three".to_string()],
            vec!["four".to_string()]
        ]
    );
    assert!(paragraphs("  \n\n").is_empty());
    assert_eq!(paragraphs("verse  \nend  "), vec![vec!["verse".to_string(), "end".to_string()]]);
}

#[test]
fn rules_box_html() {
    assert_eq!(
        rules_html("Draw a card. (Reminder.)\nScry {1}.", "A *wise* line.", "m"),
        "<p>Draw a card. <i>(Reminder.)</i></p><p>Scry <img class=\"ms-img\" src=\"m/1.svg\">.</p><div class=\"flavbar\"></div><p class=\"flav\">A <span class=\"up\">wise</span> line.</p>"
    );
    assert_eq!(rules_html("a  \nb", "", "m"), "<p>a<br>b</p>");
}

#[test]
fn case_mapping() {
    assert_eq!(lower_vec(&chars_of("ÀB")), vec!['à', 'b']);
    let rows = printings_list(&vec![PrintingIn {
        set: "straße".into(),
        artist: "A".into(),
        released_at: "2001-10-01".into(),
    }]);
    assert_eq!(rows[0].0, "STRASSE");
    assert_eq!(chars_of("ab"), vec!['a', 'b']);
}

#[test]
fn file_safe_names() {
    assert_eq!(sanitize("Fire // Ice"), "Fire____Ice");
    assert_eq!(sanitize("_Æther Vial!_"), "Æther_Vial");
    assert_eq!(sanitize_bucket("Rob Alexander"), "Rob_Alexander");
    assert_eq!(sanitize("Jötun Grunt-2"), "Jötun_Grunt-2");
}

#[test]
fn sanitize_twice_is_once() {
    for n in ["Fire // Ice", "__x__", "a!b", "", "Borrowing 100,000 Arrows"] {
        let once = sanitize(n);
        assert_eq!(sanitize(&once), once);
    }
}

#[test]
fn cache_paths() {
    assert_eq!(join_path("a", "b"), "a/b");
    assert_eq!(join_path("a/", "b"), "a/b");
    assert_eq!(join_path("", "b"), "b");
    assert_eq!(join_path("a", "/abs"), "/abs");
    assert_eq!(default_editor_db("data"), "data/cube_editor.sqlite");
    assert_eq!(frame_card_dir("cache", "Fire // Ice", true), "cache/cards8/Fire____Ice");
    assert_eq!(frame_card_dir("cache", "Opt", false), "cache/cards/Opt");
    assert_eq!(
        genai_card_path("cache", "Opt", "John Avon"),
        "cache/cards/Opt/genai/John_Avon/card.png"
    );
    assert_eq!(prints_meta_path("cache", "Opt"), "cache/art/Opt.json");
}

#[test]
fn original_flavor_choice() {
    let m = PrintMeta { flavor_text: None, face_flavor_text: Some("face".to_string()) };
    assert_eq!(base_flavor(&m), "face");
    let m2 = PrintMeta { flavor_text: Some("top".to_string()), face_flavor_text: Some("face".to_string()) };
    assert_eq!(base_flavor(&m2), "top");
    let m3 = PrintMeta { flavor_text: None, face_flavor_text: None };
    assert_eq!(base_flavor(&m3), "");
}

#[test]
fn pseudonyms_and_blocklist() {
    assert_eq!(pseudonym("John Avon"), "John Thames");
    assert_eq!(pseudonym("Rebecca Guay"), "Reverie Quay");
    assert_eq!(pseudonym("Unknown Painter"), "Unknown Painter");
    assert!(artist_blocked("  harold mcneill "));
    assert!(artist_blocked("HAROLD MCNEIL"));
    assert!(!artist_blocked("Harold"));
    assert!(!artist_blocked("   "));
}

#[test]
fn card_mechanic_words() {
    assert!(mentions_card_mechanic("A wizard holds a Card aloft"));
    assert!(mentions_card_mechanic("goblins rummaging through junk"));
    assert!(!mentions_card_mechanic("a cardinal on a placard"));
    assert!(!mentions_card_mechanic("loot from the deck of a ship"));
}

#[test]
fn hashes() {
    assert_eq!(
        sha256_hex_of("abc"),
        "ba7816bf8f01cfea414140de5dae2223b00361a396177a9cb410ff61f20015ad"
    );
    assert_eq!(short_hash("abc"), "ba7816bf8f01cfea");
    assert_eq!(short_hash(""), "e3b0c44298fc1c14");
}

#[test]
fn render_hash_tracks_fields() {
    let c = Card {
        name: "Opt".to_string(),
        display_name: "Opt".to_string(),
        mana_cost: "{U}".to_string(),
        type_line: "Instant".to_string(),
        oracle_text: "Scry 1.".to_string(),
        flavor: String::new(),
        flavor_overridden: false,
        power: String::new(),
        toughness: String::new(),
        loyalty: String::new(),
        colors: "U".to_string(),
        color_identity: "U".to_string(),
        ci_manual: false,
        is_creature: false,
        set: String::new(),
        rarity: String::new(),
        illustrator: String::new(),
        is_errata: false,
    };
    let canon = "{\"art_ref\":\"r\",\"artist\":\"a\",\"ci\":\"U\",\"display_name\":\"Opt\",\"errata\":false,\"flavor\":\"\",\"frame\":\"seventh\",\"frame_file\":\"frames/u.png\",\"is_creature\":false,\"loyalty\":\"\",\"mana_cost\":\"{U}\",\"name\":\"Opt\",\"oracle_text\":\"Scry 1.\",\"power\":\"\",\"rarity\":\"\",\"set\":\"\",\"toughness\":\"\",\"type\":\"Instant\",\"v\":11}";
    assert_eq!(card_hash(&c, "r", "a"), sha256_hex_of(canon));
    let mut d = Card { is_errata: true, ..c };
    let h1 = card_hash(&d, "r", "a");
    d.is_errata = false;
    assert_ne!(h1, card_hash(&d, "r", "a"));
}
