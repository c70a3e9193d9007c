use epub_webify::epub::layout::{
    build_layout, candidate_path, destination_parts, is_document, is_stylesheet, map_manifest,
    pick_destination, resolve_spine,
};
use epub_webify::epub::model::{ItemRef, ManifestItem};
use epub_webify::epub::path_map::PathMap;
use epub_webify::error::AppError;

fn item(id: &str, href: &str, media_type: &str) -> ManifestItem {
    ManifestItem { id: id.to_string(), href: href.to_string(), media_type: media_type.to_string() }
}

fn refs(ids: &[&str]) -> Vec<ItemRef> {
    ids.iter().map(|id| ItemRef { idref: id.to_string() }).collect()
}

const XHTML: &str = "application/xhtml+xml";

#[test]
fn media_types_are_classified() {
    assert!(is_document("application/xhtml+xml"));
    assert!(is_document("text/html"));
    assert!(!is_document("text/css"));
    assert!(!is_document("image/jpeg"));
    assert!(!is_document("TEXT/HTML"));
    assert!(is_stylesheet("text/css"));
    assert!(!is_stylesheet("text/html"));
}

#[test]
fn documents_and_assets_go_to_their_folders() {
    let items = vec![
        item("ch1", "text/ch1.xhtml", XHTML),
        item("cover", "images/cover.jpg", "image/jpeg"),
        item("css", "styles/main.css", "text/css"),
        item("old", "legacy/page.htm", "text/html"),
    ];
    let (map, fresh) = map_manifest(&items);
    assert_eq!(map.get("text/ch1.xhtml"), Some("documents/ch1.html".to_string()));
    assert_eq!(map.get("images/cover.jpg"), Some("assets/cover.jpg".to_string()));
    assert_eq!(map.get("styles/main.css"), Some("assets/main.css".to_string()));
    assert_eq!(map.get("legacy/page.htm"), Some("documents/page.html".to_string()));
    assert_eq!(map.len(), 4);
    assert_eq!(fresh, vec![true, true, true, true]);
}

#[test]
fn keys_are_normalized() {
    let items = vec![item("c", "Images/My%20Cover.JPG", "image/jpeg")];
    let (map, _) = map_manifest(&items);
    assert_eq!(map.get("images/my cover.jpg"), Some("assets/my cover.jpg".to_string()));
    assert_eq!(map.get("Images/My%20Cover.JPG"), None);
}

#[test]
fn colliding_basenames_get_numbered_destinations() {
    let items = vec![
        item("a", "a/cover.jpg", "image/jpeg"),
        item("b", "b/cover.jpg", "image/jpeg"),
        item("c", "c/cover.jpg", "image/jpeg"),
        item("d1", "x/ch.xhtml", XHTML),
        item("d2", "y/ch.html", "text/html"),
    ];
    let (map, fresh) = map_manifest(&items);
    assert_eq!(map.get("a/cover.jpg"), Some("assets/cover.jpg".to_string()));
    assert_eq!(map.get("b/cover.jpg"), Some("assets/cover-2.jpg".to_string()));
    assert_eq!(map.get("c/cover.jpg"), Some("assets/cover-3.jpg".to_string()));
    assert_eq!(map.get("x/ch.xhtml"), Some("documents/ch.html".to_string()));
    assert_eq!(map.get("y/ch.html"), Some("documents/ch-2.html".to_string()));
    assert_eq!(fresh, vec![true, true, true, true, true]);
}

#[test]
fn a_numbered_name_that_is_taken_is_passed_over() {
    let items = vec![
        item("a", "a/cover.jpg", "image/jpeg"),
        item("n", "n/cover-2.jpg", "image/jpeg"),
        item("b", "b/cover.jpg", "image/jpeg"),
        item("m", "m/cover-2.jpg", "image/jpeg"),
    ];
    let (map, _) = map_manifest(&items);
    assert_eq!(map.get("a/cover.jpg"), Some("assets/cover.jpg".to_string()));
    assert_eq!(map.get("n/cover-2.jpg"), Some("assets/cover-2.jpg".to_string()));
    assert_eq!(map.get("b/cover.jpg"), Some("assets/cover-3.jpg".to_string()));
    assert_eq!(map.get("m/cover-2.jpg"), Some("assets/cover-2-2.jpg".to_string()));
}

#[test]
fn the_shared_stylesheet_keeps_its_place() {
    let items = vec![item("s", "css/styles.css", "text/css")];
    let (map, _) = map_manifest(&items);
    assert_eq!(map.get("css/styles.css"), Some("assets/styles-2.css".to_string()));
    assert!(map.is_taken("assets/styles.css"));
}

#[test]
fn destinations_are_pairwise_distinct() {
    let mut items = Vec::new();
    for i in 0..40 {
        items.push(item(&format!("i{}", i), &format!("d{}/same.png", i), "image/png"));
    }
    let (map, _) = map_manifest(&items);
    let mut seen = std::collections::HashSet::new();
    for i in 0..40 {
        let dest = map.get(&format!("d{}/same.png", i)).unwrap();
        assert!(seen.insert(dest));
    }
    assert_eq!(map.get("d11/same.png"), Some("assets/same-12.png".to_string()));
}

#[test]
fn a_repeated_key_keeps_its_first_destination() {
    let items = vec![
        item("a", "img/Cover.jpg", "image/jpeg"),
        item("b", "IMG/cover.JPG", "image/jpeg"),
        item("c", "img/cover.jpg", XHTML),
    ];
    let (map, fresh) = map_manifest(&items);
    assert_eq!(map.len(), 1);
    assert_eq!(map.get("img/cover.jpg"), Some("assets/cover.jpg".to_string()));
    assert_eq!(fresh, vec![true, false, false]);
}

#[test]
fn references_without_file_name_land_at_unknown() {
    let items = vec![
        item("a", "", "image/png"),
        item("b", "/", XHTML),
        item("c", "..", "image/png"),
        item("d", "x/..", "text/css"),
        item("e", ".", "image/png"),
    ];
    let (map, _) = map_manifest(&items);
    assert_eq!(map.get(""), Some("assets/unknown".to_string()));
    assert_eq!(map.get("/"), Some("documents/unknown.html".to_string()));
    assert_eq!(map.get(".."), Some("assets/unknown-2".to_string()));
    assert_eq!(map.get("x/.."), Some("assets/unknown-3".to_string()));
    assert_eq!(map.get("."), Some("assets/unknown-4".to_string()));
}

#[test]
fn passed_over_segments_do_not_hide_the_file_name() {
    let items = vec![
        item("a", "dir/", XHTML),
        item("b", "x/cover.png/.", "image/png"),
        item("c", "y//logo.svg//", "image/svg+xml"),
    ];
    let (map, _) = map_manifest(&items);
    assert_eq!(map.get("dir/"), Some("documents/dir.html".to_string()));
    assert_eq!(map.get("x/cover.png/."), Some("assets/cover.png".to_string()));
    assert_eq!(map.get("y//logo.svg//"), Some("assets/logo.svg".to_string()));
}

#[test]
fn destination_parts_split_around_the_number() {
    assert_eq!(destination_parts("images/cover.jpg", false), ("assets/cover".to_string(), ".jpg".to_string()));
    assert_eq!(destination_parts("text/ch1.xhtml", true), ("documents/ch1".to_string(), ".html".to_string()));
    assert_eq!(destination_parts("fonts/LICENSE", false), ("assets/LICENSE".to_string(), String::new()));
    assert_eq!(destination_parts("a/.hidden", false), ("assets/.hidden".to_string(), String::new()));
    assert_eq!(destination_parts("a.tar.gz", false), ("assets/a.tar".to_string(), ".gz".to_string()));
    assert_eq!(destination_parts("noext", true), ("documents/noext".to_string(), ".html".to_string()));
}

#[test]
fn candidate_path_numbers_from_two() {
    assert_eq!(candidate_path("assets/cover", ".jpg", 0), "assets/cover.jpg");
    assert_eq!(candidate_path("assets/cover", ".jpg", 1), "assets/cover.jpg");
    assert_eq!(candidate_path("assets/cover", ".jpg", 2), "assets/cover-2.jpg");
    assert_eq!(candidate_path("assets/cover", ".jpg", 10), "assets/cover-10.jpg");
    assert_eq!(candidate_path("assets/x", "", 3), "assets/x-3");
}

#[test]
fn pick_destination_skips_what_is_taken() {
    let mut map = PathMap::new();
    assert_eq!(pick_destination(&map, "assets/a", ".png"), "assets/a.png");
    assert!(map.insert("k1".to_string(), "assets/a.png".to_string()));
    assert_eq!(pick_destination(&map, "assets/a", ".png"), "assets/a-2.png");
    map.reserve("assets/a-2.png".to_string());
    assert_eq!(pick_destination(&map, "assets/a", ".png"), "assets/a-3.png");
    assert_eq!(pick_destination(&map, "assets/b", ".png"), "assets/b.png");
}

#[test]
fn path_map_refuses_a_second_entry_for_a_key_or_a_destination() {
    let mut map = PathMap::new();
    assert!(map.insert("a".to_string(), "assets/a".to_string()));
    assert!(!map.insert("a".to_string(), "assets/other".to_string()));
    assert!(!map.insert("b".to_string(), "assets/a".to_string()));
    assert_eq!(map.get("a"), Some("assets/a".to_string()));
    assert_eq!(map.get("b"), None);
    assert!(map.contains_key("a"));
    assert!(!map.contains_key("b"));
    assert!(map.is_taken("assets/a"));
    assert!(!map.is_taken("assets/other"));
    assert_eq!(map.len(), 1);
    assert_eq!(map.taken_count(), 1);
}

#[test]
fn spine_follows_the_reading_order() {
    let items = vec![
        item("ch1", "text/ch1.xhtml", XHTML),
        item("ch2", "text/ch2.xhtml", XHTML),
        item("cover", "images/cover.jpg", "image/jpeg"),
    ];
    let (spine, missing) = resolve_spine(&items, &refs(&["ch2", "ch1", "ch2"]));
    let hrefs: Vec<&str> = spine.iter().map(|i| i.href.as_str()).collect();
    assert_eq!(hrefs, vec!["text/ch2.xhtml", "text/ch1.xhtml", "text/ch2.xhtml"]);
    assert!(missing.is_empty());
}

#[test]
fn spine_skips_and_reports_unknown_identifiers() {
    let items = vec![item("ch1", "text/ch1.xhtml", XHTML), item("ch2", "text/ch2.xhtml", XHTML)];
    let (spine, missing) = resolve_spine(&items, &refs(&["ch1", "ghost", "ch2", "phantom"]));
    let ids: Vec<&str> = spine.iter().map(|i| i.id.as_str()).collect();
    assert_eq!(ids, vec!["ch1", "ch2"]);
    assert_eq!(missing, vec!["ghost".to_string(), "phantom".to_string()]);
}

#[test]
fn spine_identifiers_are_matched_by_normalized_key() {
    let items = vec![item("Chapter%201", "text/ch1.xhtml", XHTML), item("CH2", "text/ch2.xhtml", XHTML)];
    let (spine, missing) = resolve_spine(&items, &refs(&["chapter 1", "ch2"]));
    let hrefs: Vec<&str> = spine.iter().map(|i| i.href.as_str()).collect();
    assert_eq!(hrefs, vec!["text/ch1.xhtml", "text/ch2.xhtml"]);
    assert!(missing.is_empty());
}

#[test]
fn the_last_item_with_an_identifier_wins() {
    let items = vec![item("dup", "a.xhtml", XHTML), item("DUP", "b.xhtml", XHTML)];
    let (spine, _) = resolve_spine(&items, &refs(&["dup"]));
    assert_eq!(spine.len(), 1);
    assert_eq!(spine[0].href, "b.xhtml");
}

#[test]
fn an_empty_manifest_is_a_format_error() {
    match build_layout(&Vec::new(), &refs(&["a"])) {
        Err(AppError::InvalidEpubFormat(what)) => assert_eq!(what, "The manifest declares no resources"),
        _ => panic!("an empty manifest must be refused"),
    }
}

#[test]
fn an_empty_spine_is_a_format_error() {
    let items = vec![item("ch1", "text/ch1.xhtml", XHTML)];
    match build_layout(&items, &Vec::new()) {
        Err(AppError::InvalidEpubFormat(what)) => assert_eq!(what, "The spine lists no documents"),
        _ => panic!("an empty spine must be refused"),
    }
}

#[test]
fn build_layout_maps_and_orders() {
    let items = vec![
        item("ch1", "text/ch1.xhtml", XHTML),
        item("ch2", "text/ch2.xhtml", XHTML),
        item("cover", "images/cover.jpg", "image/jpeg"),
    ];
    let layout = match build_layout(&items, &refs(&["ch1", "nope", "ch2"])) {
        Ok(layout) => layout,
        Err(_) => panic!("a package with resources and reading order must be accepted"),
    };
    assert_eq!(layout.path_map.len(), 3);
    assert_eq!(layout.spine_items.len(), 2);
    assert_eq!(layout.missing, vec!["nope".to_string()]);
    assert_eq!(layout.fresh, vec![true, true, true]);
    for entry in &layout.spine_items {
        let key = epub_webify::epub::rewriter::normalize_path_key(&entry.href);
        assert!(layout.path_map.contains_key(&key));
    }
}
