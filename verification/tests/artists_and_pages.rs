use mtgbrain::artists::{artist_of_stem, has_mechanic_word, infer_artist, mentions_card_mechanic};
use mtgbrain::digest::hex_of;
use mtgbrain::splitcard::build_split_html;
use mtgbrain::urls::{mime_for_extension, mime_of, percent_decode, percent_decode_bytes};

#[test]
fn artist_from_file_name() {
    assert_eq!(infer_artist("/tmp/art/John_Avon-forest.png"), "John Avon forest");
    assert_eq!(infer_artist("Rebecca__Guay--.jpg"), "Rebecca Guay");
    assert_eq!(infer_artist("plain"), "plain");
    assert_eq!(infer_artist("archive.tar.gz"), "archive.tar");
    assert_eq!(infer_artist("/"), "");
}

#[test]
fn artist_from_stem_words() {
    assert_eq!(artist_of_stem(Some("a_b-c".to_string())), "a b c");
    assert_eq!(artist_of_stem(Some("-_-".to_string())), "");
    assert_eq!(artist_of_stem(None), "");
}

#[test]
fn mechanic_words_whole_only() {
    let low: Vec<char> = "a knight draws cards".chars().collect();
    assert!(has_mechanic_word(&low));
    let none: Vec<char> = "a cardinal at dusk".chars().collect();
    assert!(!has_mechanic_word(&none));
    assert!(mentions_card_mechanic("Goblins RUMMAGING through junk"));
    assert!(!mentions_card_mechanic("A placard on the wall"));
}

#[test]
fn mime_by_extension() {
    assert_eq!(mime_for_extension(Some("PNG".to_string())), "image/png");
    assert_eq!(mime_for_extension(Some("jpeg".to_string())), "image/jpeg");
    assert_eq!(mime_for_extension(Some("tiff".to_string())), "application/octet-stream");
    assert_eq!(mime_for_extension(None), "application/octet-stream");
    assert_eq!(mime_of("/cache/x/art.WebP"), "image/webp");
    assert_eq!(mime_of("/cache/x/art"), "application/octet-stream");
}

#[test]
fn decoded_bytes() {
    assert_eq!(percent_decode_bytes("a%20b+c"), b"a b c".to_vec());
    assert_eq!(percent_decode_bytes("%zz%4"), b"%zz%4".to_vec());
    assert_eq!(percent_decode_bytes("%C3%A9"), vec![0xc3, 0xa9]);
    assert_eq!(percent_decode("%C3%A9t%C3%A9"), "été");
    assert_eq!(percent_decode("%FF"), "\u{FFFD}");
}

#[test]
fn lower_hex_bytes() {
    let h: String = hex_of(&vec![0x00, 0x0f, 0xa5, 0xff]).into_iter().collect();
    assert_eq!(h, "000fa5ff");
}

fn half(name: &str, cost: &str, ty: &str, rules: &str) -> (String, String, String, String) {
    (name.to_string(), cost.to_string(), ty.to_string(), rules.to_string())
}

#[test]
fn split_card_page_slots() {
    let halves = [half("Fire", "{1}{R}", "Instant", "Deal 2."), half("Ice & Snow", "{1}{U}", "Instant", "Tap.")];
    let template = "%%W%%x%%H%%|%%BX%%,%%BY%%|%%FW%%x%%FH%%|%%ART1%%|%%ART2%%|%%FRAME1%%|%%FRAME2%%|%%N2%%|%%T1%%|%%MANA_CSS%%|%%ITALIC_FACE%%";
    let page = build_split_html(&halves, "/abs/l.png", "/abs/r.png", "/assets", false, template);
    assert_eq!(
        page,
        "2176x2960|88,80|2000x2800|file:///abs/l.png|file:///abs/r.png|file:///assets/frames8/r.png|file:///assets/frames8/u.png|Ice &amp; Snow|Instant|file:///assets/fonts/mana.css|"
    );
    let with_italic = build_split_html(&halves, "/l", "/r", "/assets/", true, "%%ITALIC_FACE%%");
    assert_eq!(
        with_italic,
        "@font-face { font-family:'mplantin'; font-style:italic; src:url('file:///assets/fonts/mplantin-italic.ttf'); }"
    );
}
