use epub_webify::epub::model::{
    Container, Creator, Identifier, ItemRef, Manifest, ManifestItem, Metadata, Package, Rootfile,
    Rootfiles, Spine,
};
use epub_webify::epub::site_generator::{SiteGenerator, Step, StepKind};
use epub_webify::epub::Epub;
use epub_webify::error::AppError;

fn item(id: &str, href: &str, media_type: &str) -> ManifestItem {
    ManifestItem { id: id.to_string(), href: href.to_string(), media_type: media_type.to_string() }
}

fn package(items: Vec<ManifestItem>, spine: &[&str], titles: &[&str]) -> Package {
    Package {
        metadata: Metadata {
            creator: vec![Creator { _id: None, name: "An Author".to_string() }],
            title: titles.iter().map(|t| t.to_string()).collect(),
            language: vec!["en".to_string()],
            identifier: vec![Identifier { _id: Some("uid".to_string()), value: "urn:x".to_string() }],
        },
        manifest: Manifest { items },
        spine: Spine { item_refs: spine.iter().map(|id| ItemRef { idref: id.to_string() }).collect() },
    }
}

const XHTML: &str = "application/xhtml+xml";

fn two_documents() -> Epub {
    Epub::new(
        "book.epub".to_string(),
        "OEBPS/content.opf".to_string(),
        package(
            vec![item("a", "text/a.xhtml", XHTML), item("b", "text/b.xhtml", XHTML)],
            &["a", "b"],
            &["Two Documents"],
        ),
    )
}

fn shape(step: &Step) -> (String, usize, String, String) {
    (format!("{:?}", step.kind), step.index, step.entry.clone(), step.destination.clone())
}

fn plain(kind: &str, destination: &str) -> (String, usize, String, String) {
    (kind.to_string(), 0, String::new(), destination.to_string())
}

#[test]
fn end_to_end_two_documents() {
    let epub = two_documents();
    let mut site = SiteGenerator::new(&epub, "out", false);
    let plan = match site.run() {
        Ok(plan) => plan,
        Err(_) => panic!("the book must be accepted"),
    };
    let steps = plan.steps;
    let shapes: Vec<_> = steps.iter().map(shape).collect();
    assert_eq!(
        shapes,
        vec![
            plain("ResetDirectory", "out"),
            plain("CreateDirectory", "out/assets"),
            plain("CreateDirectory", "out/documents"),
            plain("WriteSharedStyles", "out/assets/styles.css"),
            ("WriteDocument".to_string(), 0, "OEBPS/text/a.xhtml".to_string(), "out/documents/a.html".to_string()),
            ("WriteDocument".to_string(), 1, "OEBPS/text/b.xhtml".to_string(), "out/documents/b.html".to_string()),
            plain("WriteIndex", "out/index.html"),
        ]
    );
    let a = "<html><head><title>A</title></head><body><p>See <a href=\"b.xhtml#note1\">the note</a>.</p></body></html>";
    let b = "<html><head><title>B</title></head><body><p id=\"note1\">No links here.</p></body></html>";
    let items = site.spine_items().clone();
    let page_a = match site.transform_html_file(&items[0], 0, a.as_bytes()) {
        Ok(page) => page,
        Err(_) => panic!("the first document must have a page"),
    };
    assert!(page_a.diagnostics.is_empty());
    assert!(page_a.text.contains("<p>See <a href=\"b.html#note1\">the note</a>.</p>"));
    assert_eq!(page_a.text.matches("<a href=\"b.html#note1\">").count(), 1);
    assert!(!page_a.text.contains("b.xhtml"));
    assert!(page_a.text.contains("<title>a</title>"));
    assert!(page_a.text.contains("<link rel=\"stylesheet\" href=\"../assets/styles.css\">"));
    assert!(page_a.text.contains(
        "<nav class=\"site-nav\"><span></span>\n<a href=\"../index.html\" class=\"nav-toc\">📚 目录</a>\n<a href=\"b.html\" class=\"nav-next\">下一章 »</a></nav>"
    ));
    let page_b = match site.transform_html_file(&items[1], 1, b.as_bytes()) {
        Ok(page) => page,
        Err(_) => panic!("the second document must have a page"),
    };
    assert!(page_b.text.contains("<p id=\"note1\">No links here.</p>"));
    assert!(page_b.text.contains(
        "<nav class=\"site-nav\"><a href=\"a.html\" class=\"nav-prev\">« 上一章</a>\n<a href=\"../index.html\" class=\"nav-toc\">📚 目录</a>\n<span></span></nav>"
    ));
    assert_eq!(page_b.text.matches("class=\"nav-next\"").count(), 0);
    let index = site.generate_toc();
    assert!(index.contains("<li><a href=\"documents/a.html\">a</a></li>\n<li><a href=\"documents/b.html\">b</a></li>\n"));
    assert!(index.contains("<title>Two Documents</title>"));
}

#[test]
fn the_single_hyperlink_of_the_first_page_points_to_the_note() {
    let epub = two_documents();
    let mut site = SiteGenerator::new(&epub, "out", true);
    assert!(site.run().is_ok());
    let a = "<html><body><a href=\"b.xhtml#note1\">n</a></body></html>";
    let items = site.spine_items().clone();
    let page = match site.transform_html_file(&items[0], 0, a.as_bytes()) {
        Ok(page) => page,
        Err(_) => panic!("the first document must have a page"),
    };
    assert_eq!(page.text.matches("<a ").count(), 1);
    assert!(page.text.contains("<a href=\"b.html#note1\">n</a>"));
    assert!(page.text.contains("<nav class=\"site-nav\"></nav>"));
}

#[test]
fn plan_orders_assets_before_pages() {
    let epub = Epub::new(
        "book.epub".to_string(),
        "content.opf".to_string(),
        package(
            vec![
                item("css", "Styles/Main.css", "text/css"),
                item("ch1", "Text/ch1.xhtml", XHTML),
                item("cover", "Images/cover%20art.jpg", "image/jpeg"),
                item("cover2", "images/Cover Art.jpg", "image/jpeg"),
                item("shared", "styles.css", "text/css"),
                item("ch2", "Text/ch2.xhtml", XHTML),
            ],
            &["ch2", "missing", "ch1", "ch2"],
            &[],
        ),
    );
    let mut site = SiteGenerator::new(&epub, "/srv/site/", false);
    let plan = match site.run() {
        Ok(plan) => plan,
        Err(_) => panic!("the book must be accepted"),
    };
    let steps = plan.steps;
    let shapes: Vec<_> = steps.iter().map(shape).collect();
    assert_eq!(
        shapes,
        vec![
            plain("ResetDirectory", "/srv/site/"),
            plain("CreateDirectory", "/srv/site/assets"),
            plain("CreateDirectory", "/srv/site/documents"),
            ("WriteStylesheet".to_string(), 0, "Styles/Main.css".to_string(), "/srv/site/assets/main.css".to_string()),
            ("CopyAsset".to_string(), 2, "Images/cover%20art.jpg".to_string(), "/srv/site/assets/cover art.jpg".to_string()),
            ("WriteStylesheet".to_string(), 4, "styles.css".to_string(), "/srv/site/assets/styles-2.css".to_string()),
            plain("WriteSharedStyles", "/srv/site/assets/styles.css"),
            ("WriteDocument".to_string(), 0, "Text/ch2.xhtml".to_string(), "/srv/site/documents/ch2.html".to_string()),
            ("WriteDocument".to_string(), 1, "Text/ch1.xhtml".to_string(), "/srv/site/documents/ch1.html".to_string()),
            ("WriteDocument".to_string(), 2, "Text/ch2.xhtml".to_string(), "/srv/site/documents/ch2.html".to_string()),
            plain("WriteIndex", "/srv/site/index.html"),
        ]
    );
    assert!(matches!(steps[0].kind, StepKind::ResetDirectory));
    assert_eq!(plan.missing, vec!["missing".to_string()]);
    assert_eq!(plan.fresh, vec![true, true, true, false, true, true]);
    assert_eq!(site.path_map().len(), 5);
    assert_eq!(site.spine_items().len(), 3);
}

#[test]
fn missing_spine_identifiers_are_reported() {
    let epub = Epub::new(
        "book.epub".to_string(),
        "content.opf".to_string(),
        package(vec![item("ch1", "ch1.xhtml", XHTML)], &["nope", "ch1", "gone"], &[]),
    );
    let mut site = SiteGenerator::new(&epub, "out", false);
    match site.build_path_map_and_spine() {
        Ok(missing) => assert_eq!(missing, vec!["nope".to_string(), "gone".to_string()]),
        Err(_) => panic!("the book must be accepted"),
    }
    assert_eq!(site.spine_items().len(), 1);
}

#[test]
fn a_book_without_resources_is_refused() {
    let epub = Epub::new("b.epub".to_string(), "c.opf".to_string(), package(Vec::new(), &["a"], &[]));
    let mut site = SiteGenerator::new(&epub, "out", false);
    match site.run() {
        Err(e) => assert_eq!(e.message(), "Invalid EPUB format: The manifest declares no resources"),
        Ok(_) => panic!("an empty manifest must be refused"),
    }
    assert_eq!(site.path_map().len(), 0);
    assert!(matches!(site.build_path_map_and_spine(), Err(AppError::InvalidEpubFormat(_))));
}

#[test]
fn a_book_without_reading_order_is_refused() {
    let epub = Epub::new(
        "b.epub".to_string(),
        "c.opf".to_string(),
        package(vec![item("a", "a.xhtml", XHTML)], &[], &[]),
    );
    let mut site = SiteGenerator::new(&epub, "out", false);
    match site.run() {
        Err(e) => assert_eq!(e.message(), "Invalid EPUB format: The spine lists no documents"),
        Ok(_) => panic!("an empty spine must be refused"),
    }
}

#[test]
fn stylesheet_of_an_item_is_rewritten_from_its_place() {
    let epub = Epub::new(
        "book.epub".to_string(),
        "OPS/package.opf".to_string(),
        package(
            vec![
                item("css", "Styles/main.css", "text/css"),
                item("bg", "Images/bg.png", "image/png"),
                item("ch", "ch.xhtml", XHTML),
            ],
            &["ch"],
            &[],
        ),
    );
    let mut site = SiteGenerator::new(&epub, "out", false);
    assert!(site.run().is_ok());
    let css = item("css", "Styles/main.css", "text/css");
    let out = match site.transform_and_copy_css(&css, "body{background:url(\"../Images/bg.png\")}@font-face{src:url(x.woff)}i{b:url(gone.gif)}") {
        Ok(out) => out,
        Err(_) => panic!("the stylesheet is mapped"),
    };
    assert_eq!(out.text, "body{background:url('bg.png')}@font-face{src:url('x.woff')}i{b:url('gone.gif')}");
    assert_eq!(out.diagnostics.len(), 1);
    assert_eq!(out.diagnostics[0].key, "styles/gone.gif");
    assert_eq!(out.diagnostics[0].source_dir, "styles");
}

#[test]
fn unmapped_items_are_errors() {
    let epub = two_documents();
    let mut site = SiteGenerator::new(&epub, "out", false);
    assert!(site.run().is_ok());
    let stray = item("x", "Other/Stray.css", "text/css");
    match site.transform_and_copy_css(&stray, "a{}") {
        Err(e) => assert_eq!(e.message(), "Invalid EPUB format: Path not found in map for CSS href: other/stray.css"),
        Ok(_) => panic!("an unmapped stylesheet must be refused"),
    }
    match site.transform_html_file(&stray, 0, b"<p/>") {
        Err(e) => assert_eq!(e.message(), "Invalid EPUB format: Path not found in map for href: other/stray.css"),
        Ok(_) => panic!("an unmapped document must be refused"),
    }
}

#[test]
fn bytes_that_are_not_utf8_are_repaired() {
    let epub = two_documents();
    let mut site = SiteGenerator::new(&epub, "out", true);
    assert!(site.run().is_ok());
    let items = site.spine_items().clone();
    let page = match site.transform_html_file(&items[0], 0, b"<body><p>caf\xe9 \xc3\xa9</p></body>") {
        Ok(page) => page,
        Err(_) => panic!("the document is mapped"),
    };
    assert!(page.text.contains("<p>caf\u{fffd} é</p>"));
}

#[test]
fn pages_fall_back_to_chapter_labels() {
    let epub = Epub::new(
        "book.epub".to_string(),
        "c.opf".to_string(),
        package(vec![item("a", "x/unknown.xhtml", XHTML)], &["a"], &[]),
    );
    let mut site = SiteGenerator::new(&epub, "out", true);
    assert!(site.run().is_ok());
    let items = site.spine_items().clone();
    let page = match site.transform_html_file(&items[0], 0, b"<p>x</p>") {
        Ok(page) => page,
        Err(_) => panic!("the document is mapped"),
    };
    assert!(page.text.contains("<title>第 1 章</title>"));
    assert!(page.text.contains("<main class=\"content\">\n<p>x</p>\n</main>"));
}

#[test]
fn generator_offers_its_parts() {
    let epub = two_documents();
    let mut site = SiteGenerator::new(&epub, "out", false);
    assert!(site.run().is_ok());
    assert_eq!(site.copy_static_assets(), epub_webify::epub::page::STYLES_CSS);
    assert_eq!(site.prepare_directory().len(), 3);
    assert_eq!(site.transform_content_documents().len(), 2);
    assert_eq!(site.process_and_copy_assets().len(), 0);
    assert_eq!(
        site.create_nav_html(1, "documents/b.html"),
        "<a href=\"a.html\" class=\"nav-prev\">« 上一章</a>\n<a href=\"../index.html\" class=\"nav-toc\">📚 目录</a>\n<span></span>"
    );
    let page = site.page_for("<p>x</p>", "text/a.xhtml", "documents/a.html", 0);
    assert!(page.text.contains("<p>x</p>"));
}

#[test]
fn epub_resolves_entry_names_against_the_package_document() {
    let epub = two_documents();
    assert_eq!(epub.path(), "book.epub");
    assert_eq!(epub.opf_path(), "OEBPS/content.opf");
    assert_eq!(epub.entry_name(&item("x", "text/Ch 1.xhtml", XHTML)), "OEBPS/text/Ch 1.xhtml");
    assert_eq!(epub.entry_name(&item("x", "../up.png", "image/png")), "OEBPS/../up.png");
    assert_eq!(epub.manifest().items.len(), 2);
    assert_eq!(epub.spine().item_refs.len(), 2);
    assert_eq!(epub.metadata().title, vec!["Two Documents".to_string()]);
    let top = Epub::new("b.epub".to_string(), "content.opf".to_string(), package(Vec::new(), &[], &[]));
    assert_eq!(top.entry_name(&item("x", "a.png", "image/png")), "a.png");
}

#[test]
fn the_package_document_is_the_first_rootfile() {
    let container = Container {
        rootfiles: Rootfiles {
            rootfile: vec![
                Rootfile { full_path: "OEBPS/content.opf".to_string(), _media_type: "application/oebps-package+xml".to_string() },
                Rootfile { full_path: "alt.opf".to_string(), _media_type: "application/oebps-package+xml".to_string() },
            ],
        },
    };
    match Epub::find_opf_path(&container) {
        Ok(path) => assert_eq!(path, "OEBPS/content.opf"),
        Err(_) => panic!("the container has a rootfile"),
    }
    let empty = Container { rootfiles: Rootfiles { rootfile: Vec::new() } };
    match Epub::find_opf_path(&empty) {
        Err(AppError::InvalidEpubFormat(what)) => assert_eq!(what, "No rootfile found in container.xml"),
        _ => panic!("a container without rootfile must be refused"),
    }
}
