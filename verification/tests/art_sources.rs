use mtgbrain::artpick::{
    art_meta_of, art_step, genai_source, read_override, read_sidecar, ArtAction, ArtInputs, ArtOverride,
    ArtSource, ArtState, ProxyFile, Sidecar,
};
use mtgbrain::sources::PrintingIn;

fn side(art_ref: Option<&str>, manual: Option<bool>, has_box: bool, has_aspect: bool, proxy: Option<&str>) -> Sidecar {
    Sidecar {
        art_ref: art_ref.map(String::from),
        artist: Some("A".into()),
        year: Some("2001".into()),
        manual,
        has_box,
        has_aspect,
        proxy: proxy.map(String::from),
    }
}

fn state(s: Option<Sidecar>, crop: bool, genai_src: bool, proxy: bool, repick: bool) -> ArtState {
    ArtState { sidecar: s, crop_exists: crop, genai_src_exists: genai_src, proxy_exists: proxy, can_repick: repick }
}

#[test]
fn sidecar_members() {
    let s = read_sidecar(r#"{"art_ref":"mpcfill:x","artist":"Jo","manual":true,"box":[1,2,3,4],"art_aspect":1.3,"proxy":"/p.png"}"#)
        .unwrap();
    assert_eq!(s.art_ref.as_deref(), Some("mpcfill:x"));
    assert_eq!(s.artist.as_deref(), Some("Jo"));
    assert_eq!(s.year, None);
    assert_eq!(s.manual, Some(true));
    assert!(s.has_box && s.has_aspect);
    assert_eq!(s.proxy.as_deref(), Some("/p.png"));
    let t = read_sidecar(r#"{"box":[1,2,3],"art_aspect":"wide","manual":"yes"}"#).unwrap();
    assert!(!t.has_box && !t.has_aspect);
    assert_eq!(t.manual, None);
    assert!(read_sidecar("not json").is_none());
}

#[test]
fn override_members() {
    let o = read_override(r#"{"rel":"@set:7ED","artist":"B"}"#);
    assert_eq!(o.rel.as_deref(), Some("@set:7ED"));
    assert_eq!(o.artist.as_deref(), Some("B"));
    let e = read_override("   ");
    assert!(e.rel.is_none() && e.artist.is_none());
    let bad = read_override("{");
    assert!(bad.rel.is_none() && bad.artist.is_none());
}

#[test]
fn art_cascade() {
    let g = || side(Some("genai:John Avon:abc"), None, true, true, Some("/p"));
    assert_eq!(art_step(&state(Some(g()), true, false, true, true)), ArtAction::UseGenai);
    assert_eq!(art_step(&state(Some(g()), false, true, true, true)), ArtAction::CopyGenaiThenUse);
    // A GenAI sidecar whose images are gone falls through to the box.
    assert_eq!(art_step(&state(Some(g()), false, false, true, true)), ArtAction::ReCrop);
    let manual = side(Some("mpcfill:b/x"), Some(true), true, false, Some("/p"));
    assert_eq!(art_step(&state(Some(manual), true, false, true, true)), ArtAction::CropExact);
    let boxed = side(Some("mpcfill:b/x"), None, true, true, Some("/p"));
    assert_eq!(art_step(&state(Some(boxed), true, false, false, true)), ArtAction::ReuseCrop);
    let legacy = side(None, None, false, false, None);
    assert_eq!(art_step(&state(Some(legacy), true, false, false, true)), ArtAction::Repick);
    let legacy = side(None, None, false, false, None);
    assert_eq!(art_step(&state(Some(legacy), true, false, false, false)), ArtAction::ReuseCrop);
    let settled = side(Some("scryfall:7ed:2001:art_crop"), None, false, false, None);
    assert_eq!(art_step(&state(Some(settled), true, false, false, true)), ArtAction::ReuseCrop);
    assert_eq!(art_step(&state(None, true, true, true, true)), ArtAction::Repick);
}

#[test]
fn genai_source_paths() {
    assert_eq!(
        genai_source("/c/cards/Bolt", "genai:John Avon:ab:12").as_deref(),
        Some("/c/cards/Bolt/genai/John_Avon_ab/12.png")
    );
    assert_eq!(genai_source("/c", "genai:nohash"), None);
    assert_eq!(genai_source("/c", "mpcfill:x:y"), None);
}

fn inputs(name: &str, split_layout: bool, sidecar: Option<Sidecar>, ov: ArtOverride) -> ArtInputs {
    ArtInputs {
        name: name.into(),
        cache_dir: "/c".into(),
        eighth: false,
        split_layout,
        sidecar,
        art_override: ov,
        oldest_artist: "Harold McNeill".into(),
        oldest_year: "1999".into(),
        printings: vec![
            PrintingIn { set: "usg".into(), artist: "Mark Tedin".into(), released_at: "1998-10-12".into() },
            PrintingIn { set: "7ed".into(), artist: "Peter Bollinger".into(), released_at: "2001-04-11".into() },
        ],
        proxies: vec![
            ProxyFile { path: "/c/cards/Greed/mpcfill/b1/x.png".into(), bucket: "b1".into(), dpi: Some(800) },
            ProxyFile { path: "/elsewhere/y.png".into(), bucket: "b2".into(), dpi: Some(300) },
            ProxyFile { path: "/c/cards/Greed/mpcfill/b2/z.jpg".into(), bucket: "b2".into(), dpi: None },
        ],
    }
}

#[test]
fn crop_editor_view() {
    let none = || ArtOverride { rel: None, artist: None };
    let m = art_meta_of(&inputs("Greed", false, Some(side(Some("genai:A:h"), None, true, true, Some("/c/cards/Greed/mpcfill/b1/x.png"))), none()));
    assert_eq!(m.sources.len(), 5);
    match &m.sources[0] {
        ArtSource::Scryfall { rel, label, artist, year, blocked } => {
            assert_eq!((rel.as_str(), label.as_str(), artist.as_str(), year.as_str(), *blocked),
                ("@scryfall", "Scryfall — original printing", "Harold McNeill", "1999", true));
        }
        _ => panic!("first source"),
    }
    match &m.sources[1] {
        ArtSource::Printing { rel, label, set, blocked, .. } => {
            assert_eq!((rel.as_str(), label.as_str(), set.as_str(), *blocked), ("@set:7ED", "7ED — Peter Bollinger", "7ED", false));
        }
        _ => panic!("printing"),
    }
    match &m.sources[3] {
        ArtSource::Mpcfill { rel, label, dpi, low_dpi } => {
            assert_eq!((rel.as_str(), label.as_str(), *dpi, *low_dpi), ("mpcfill/b1/x.png", "b1", Some(800), Some(false)));
        }
        _ => panic!("proxy"),
    }
    match &m.sources[4] {
        ArtSource::Mpcfill { rel, dpi, low_dpi, .. } => {
            assert_eq!((rel.as_str(), *dpi, *low_dpi), ("mpcfill/b2/z.jpg", None, None));
        }
        _ => panic!("proxy"),
    }
    assert_eq!(m.current_rel.as_deref(), Some("mpcfill/b1/x.png"));
    assert!(m.genai && !m.manual && !m.has_override && m.has_sidecar && !m.split);
    assert_eq!(m.artist, "A");

    let art = art_meta_of(&inputs("Greed", false, Some(side(None, Some(true), true, true, Some("/c/art/Greed.jpg"))), none()));
    assert_eq!(art.current_rel.as_deref(), Some("@scryfall"));
    assert!(art.manual && !art.genai);
    let other = art_meta_of(&inputs("Greed", false, Some(side(None, None, false, false, Some("/tmp/q.png"))), none()));
    assert_eq!(other.current_rel.as_deref(), Some("@current"));
    let bare = art_meta_of(&inputs("Greed", false, None, none()));
    assert_eq!(bare.current_rel, None);
    assert_eq!(bare.artist, "");

    let ov = art_meta_of(&inputs("Greed", false, None, ArtOverride { rel: Some("@set:USG".into()), artist: Some("Mark Tedin".into()) }));
    assert_eq!(ov.current_rel.as_deref(), Some("@set:USG"));
    assert!(ov.manual && ov.has_override);
    assert_eq!(ov.artist, "Mark Tedin");

    let split = art_meta_of(&inputs("Fire // Ice", true, None, none()));
    assert!(split.split);
    assert_eq!(split.current_rel.as_deref(), Some("@latest"));
    match &split.sources[0] {
        ArtSource::Scryfall { rel, .. } => assert_eq!(rel, "@latest"),
        _ => panic!("split source"),
    }
    let not_split = art_meta_of(&inputs("Fire // Ice", false, None, none()));
    assert!(!not_split.split);
}
