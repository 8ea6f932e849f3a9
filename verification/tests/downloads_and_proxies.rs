use mtgbrain::downloads::{
    cube_page_url, cube_pages, keep_cube_card, mtgjson_file, mtgjson_gz_url, next_page, progress_page,
};
use mtgbrain::sources::{candidate_order, is_fancy_label};

#[test]
fn mtgjson_urls_and_files() {
    assert_eq!(mtgjson_gz_url("AtomicCards"), "https://mtgjson.com/api/v5/AtomicCards.json.gz");
    assert_eq!(mtgjson_file("AtomicCards", true), "AtomicCards.json.gz");
    assert_eq!(mtgjson_file("Meta", false), "Meta.json");
}

#[test]
fn cube_page_urls() {
    assert_eq!(
        cube_page_url(0),
        "https://cubecobra.com/tool/api/topcards?f=cmc%3E%3D0&s=Elo&d=descending&p=0"
    );
    assert_eq!(
        cube_page_url(123),
        "https://cubecobra.com/tool/api/topcards?f=cmc%3E%3D0&s=Elo&d=descending&p=123"
    );
}

#[test]
fn page_counts_round_up() {
    assert_eq!(cube_pages(0), 0);
    assert_eq!(cube_pages(1), 1);
    assert_eq!(cube_pages(96), 1);
    assert_eq!(cube_pages(97), 2);
    assert_eq!(cube_pages(960), 10);
}

#[test]
fn paging_stops_at_cap_and_size() {
    // No cap, size unknown: keep going.
    assert!(next_page(5, None, None));
    // A cap of 2 pages: pages 0 and 1 only.
    assert!(next_page(1, Some(2), None));
    assert!(!next_page(2, Some(2), None));
    // 200 cards: pages 0, 1, 2.
    assert!(next_page(2, None, Some(200)));
    assert!(!next_page(3, None, Some(200)));
    // The first page is always fetched when only the size limits.
    assert!(next_page(0, None, Some(0)));
    assert!(!next_page(0, Some(0), Some(500)));
}

#[test]
fn tokens_and_extras_are_dropped() {
    assert!(keep_cube_card(None, None));
    assert!(keep_cube_card(Some(false), Some(false)));
    assert!(!keep_cube_card(Some(true), None));
    assert!(!keep_cube_card(None, Some(true)));
}

#[test]
fn progress_every_25_pages() {
    assert!(progress_page(25));
    assert!(progress_page(50));
    assert!(!progress_page(26));
}

#[test]
fn fancy_proxy_labels() {
    assert!(is_fancy_label("Lightning Bolt (Extended Art)"));
    assert!(is_fancy_label("Borderless"));
    assert!(is_fancy_label("FULL ART version"));
    assert!(is_fancy_label("alternate"));
    assert!(!is_fancy_label("Lightning Bolt"));
    assert!(!is_fancy_label(""));
}

#[test]
fn plain_prints_first_then_dpi() {
    let fancy = vec![true, false, false, true, false];
    let dpi = vec![1200, 600, 800, 1200, 800];
    // Plain ones (1, 2, 4) by DPI, ties in search order; then fancy (0, 3).
    assert_eq!(candidate_order(&fancy, &dpi), vec![2, 4, 1, 0, 3]);
    assert_eq!(candidate_order(&vec![], &vec![]), Vec::<usize>::new());
}

#[test]
fn lowered_label_words() {
    let low: Vec<char> = "a showcase print".chars().collect();
    assert!(mtgbrain::sources::has_fancy_word(&low));
    let plain: Vec<char> = "plain print".chars().collect();
    assert!(!mtgbrain::sources::has_fancy_word(&plain));
}
