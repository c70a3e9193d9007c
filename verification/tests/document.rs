use epub_webify::epub::document::{find_body, reference_of_tag, transform_markup};
use epub_webify::epub::markup::{
    scan_attr, scan_attr_value, scan_comment_end, scan_piece, scan_tag_close, scan_until,
    scan_while, tag_is_named, CharClass, Piece,
};
use epub_webify::epub::path_map::PathMap;
use epub_webify::epub::rewriter::rewrite_link;
use epub_webify::text::chars_of;
use lol_html::html_content::Element;
use lol_html::{rewrite_str, ElementContentHandlers, LocalHandlerTypes, RewriteStrSettings, Selector};
use std::borrow::Cow;

fn sample_map() -> PathMap {
    let mut map = PathMap::new();
    assert!(map.insert("text/ch1.xhtml".to_string(), "documents/ch1.html".to_string()));
    assert!(map.insert("text/ch2.xhtml".to_string(), "documents/ch2.html".to_string()));
    assert!(map.insert("text/a\"b.xhtml".to_string(), "documents/a\"b.html".to_string()));
    assert!(map.insert("images/cover.jpg".to_string(), "assets/cover.jpg".to_string()));
    assert!(map.insert("styles/main.css".to_string(), "assets/main.css".to_string()));
    assert!(map.insert("media/clip.mp4".to_string(), "assets/clip.mp4".to_string()));
    map
}

fn page(html: &str) -> String {
    transform_markup(html, "text", "documents/ch1.html", &sample_map()).text
}

#[test]
fn body_is_unwrapped_and_references_are_rewritten() {
    let html = "<?xml version=\"1.0\"?>\n<!DOCTYPE html>\n<html xmlns=\"http://www.w3.org/1999/xhtml\"><head><title>T</title><link rel=\"stylesheet\" href=\"../styles/main.css\"/></head><body class=\"x\"><h1>Hi</h1><p><a href=\"ch2.xhtml#n1\">next</a> <img src='../images/cover.jpg' alt=\"c\"/></p></body></html>";
    assert_eq!(
        page(html),
        "<h1>Hi</h1><p><a href=\"ch2.html#n1\">next</a> <img src=\"../assets/cover.jpg\" alt=\"c\"/></p>"
    );
}

#[test]
fn document_without_body_is_taken_whole() {
    assert_eq!(
        page("<p><a href=\"ch2.xhtml\">x</a></p><title>gone</title><p>kept</p>"),
        "<p><a href=\"ch2.html\">x</a></p><p>kept</p>"
    );
}

#[test]
fn title_is_removed_with_its_content() {
    assert_eq!(page("<body><title>Chapter <b>1</b></title><p>y</p></body>"), "<p>y</p>");
    assert_eq!(page("<body><TITLE>x</TITLE><p>y</p></body>"), "<p>y</p>");
    assert_eq!(page("<body><title/><p>y</p></body>"), "<p>y</p>");
    assert_eq!(page("<body><p>y</p><title>never closed <p>z</p>"), "<p>y</p>");
}

#[test]
fn body_without_end_tag_runs_to_the_end() {
    assert_eq!(page("<html><body><p>x</p>"), "<p>x</p>");
    assert_eq!(page("<html><BODY id='b'><p>x</p></BODY>tail</html>"), "<p>x</p>");
}

#[test]
fn link_and_media_tags_are_rewritten() {
    assert_eq!(page("<link href=\"../styles/main.css\" rel=\"stylesheet\">"), "<link href=\"../assets/main.css\" rel=\"stylesheet\">");
    assert_eq!(page("<video src=\"../media/clip.mp4\" controls></video>"), "<video src=\"../assets/clip.mp4\" controls></video>");
    assert_eq!(page("<audio src=\"../media/clip.mp4\"></audio>"), "<audio src=\"../assets/clip.mp4\"></audio>");
    assert_eq!(page("<video><source src=\"../media/clip.mp4\"></video>"), "<video><source src=\"../assets/clip.mp4\"></video>");
    assert_eq!(page("<img src=\"../images/cover.jpg\">"), "<img src=\"../assets/cover.jpg\">");
}

#[test]
fn other_tags_and_attributes_are_left_alone() {
    let html = "<div href=\"ch2.xhtml\"><a name=\"x\" data-href=\"ch2.xhtml\">t</a><img alt=\"ch2.xhtml\"><script src=\"ch2.xhtml\"></script><a src=\"ch2.xhtml\">u</a></div>";
    assert_eq!(page(html), html);
}

#[test]
fn unquoted_and_single_quoted_values_are_rewritten() {
    assert_eq!(page("<a href=ch2.xhtml>x</a>"), "<a href=\"ch2.html\">x</a>");
    assert_eq!(page("<a href = 'ch2.xhtml' class=c>x</a>"), "<a href = \"ch2.html\" class=c>x</a>");
    assert_eq!(page("<a\n  href=\"ch2.xhtml\"\n  id=\"i\">x</a>"), "<a\n  href=\"ch2.html\"\n  id=\"i\">x</a>");
}

#[test]
fn tag_and_attribute_names_ignore_case() {
    assert_eq!(page("<A HREF=\"ch2.xhtml\">x</A>"), "<A HREF=\"ch2.html\">x</A>");
    assert_eq!(page("<Img SRC=\"../images/cover.jpg\"/>"), "<Img SRC=\"../assets/cover.jpg\"/>");
}

#[test]
fn the_first_attribute_of_a_name_counts() {
    assert_eq!(
        page("<a href=\"ch2.xhtml\" href=\"ch1.xhtml\">x</a>"),
        "<a href=\"ch2.html\" href=\"ch1.xhtml\">x</a>"
    );
}

#[test]
fn external_and_unresolved_references_stay() {
    let html = "<a href=\"https://example.com/ch2.xhtml\">a</a><a href=\"#n\">b</a><a href=\"/root\">c</a><a href=\"nowhere.xhtml\">d</a>";
    let out = transform_markup(html, "text", "documents/ch1.html", &sample_map());
    assert_eq!(out.text, html);
    assert_eq!(out.diagnostics.len(), 1);
    assert_eq!(out.diagnostics[0].link, "nowhere.xhtml");
    assert_eq!(out.diagnostics[0].key, "text/nowhere.xhtml");
}

#[test]
fn unresolved_font_is_silent_in_documents() {
    let out = transform_markup("<link href=\"f.woff2\"><img src=\"f.jpg\">", "text", "documents/ch1.html", &sample_map());
    assert_eq!(out.diagnostics.len(), 1);
    assert_eq!(out.diagnostics[0].link, "f.jpg");
}

#[test]
fn comments_and_declarations_pass_through() {
    let html = "<!-- <a href=\"ch2.xhtml\">x</a> --><![CDATA[x]]><?pi y?>";
    assert_eq!(page(html), html);
    assert_eq!(page("<!-- open <a href=\"ch2.xhtml\">"), "<!-- open <a href=\"ch2.xhtml\">");
}

#[test]
fn angle_bracket_inside_a_quoted_value_does_not_end_the_tag() {
    assert_eq!(
        page("<a title=\"a>b\" href=\"ch2.xhtml\">x</a>"),
        "<a title=\"a>b\" href=\"ch2.html\">x</a>"
    );
}

#[test]
fn lone_angle_brackets_are_text() {
    let html = "<p>1 < 2 and 3 > 2, a<1, <> </ >, <2></p><";
    assert_eq!(page(html), html);
}

#[test]
fn quotation_marks_in_a_new_value_are_escaped() {
    assert_eq!(page("<a href='a%22b.xhtml'>x</a>"), "<a href=\"a&quot;b.html\">x</a>");
}

#[test]
fn attribute_without_value_is_left_alone() {
    let out = transform_markup("<a href>x</a><a href=>y</a>", "text", "documents/ch1.html", &sample_map());
    assert_eq!(out.text, "<a href>x</a><a href=>y</a>");
    assert_eq!(out.diagnostics.len(), 1);
    assert_eq!(out.diagnostics[0].link, "");
}

#[test]
fn unfinished_tags_pass_through() {
    assert_eq!(page("<p>x</p><a href=\"ch2.xhtml"), "<p>x</p><a href=\"ch2.xhtml");
    assert_eq!(page("<p>x</p><a href"), "<p>x</p><a href");
    assert_eq!(page("<p>x</p></a"), "<p>x</p></a");
}

#[test]
fn text_beyond_ascii_is_kept() {
    assert_eq!(
        page("<body><p>第一章 – «été» 📚</p><a href=\"ch2.xhtml\">下一章</a></body>"),
        "<p>第一章 – «été» 📚</p><a href=\"ch2.html\">下一章</a>"
    );
}

#[test]
fn script_and_style_content_is_kept_as_it_is() {
    assert_eq!(
        page("<body><script>document.write(\"<a href='ch2.xhtml'>x</a>\");</script><a href='ch2.xhtml'>y</a></body>"),
        "<script>document.write(\"<a href='ch2.xhtml'>x</a>\");</script><a href=\"ch2.html\">y</a>"
    );
    assert_eq!(
        page("<STYLE>a > img { background: url(<img src='../images/cover.jpg'>) }</style ><img src='../images/cover.jpg'>"),
        "<STYLE>a > img { background: url(<img src='../images/cover.jpg'>) }</style ><img src=\"../assets/cover.jpg\">"
    );
    assert_eq!(
        page("<script><title>t</title></script><title>gone</title>"),
        "<script><title>t</title></script>"
    );
    assert_eq!(
        page("<title><script>x</title><a href='ch2.xhtml'>y</a>"),
        "<a href=\"ch2.html\">y</a>"
    );
}

#[test]
fn body_tags_inside_scripts_do_not_count() {
    assert_eq!(
        page("<html><head><script>var a = \"<body>\";</script><title>a </body> b</title></head><body><script>var s = \"</body>\";</script><p>x</p></body><p>after</p></html>"),
        "<script>var s = \"</body>\";</script><p>x</p>"
    );
}

#[test]
fn script_that_closes_itself_opens_nothing() {
    assert_eq!(
        page("<script src=\"app.js\"/><a href='ch2.xhtml'>y</a>"),
        "<script src=\"app.js\"/><a href=\"ch2.html\">y</a>"
    );
}

#[test]
fn script_without_end_runs_to_the_end() {
    let out = transform_markup("<script>1<a href='nowhere.xhtml'>", "text", "documents/ch1.html", &sample_map());
    assert_eq!(out.text, "<script>1<a href='nowhere.xhtml'>");
    assert!(out.diagnostics.is_empty());
}

#[test]
fn empty_document_gives_an_empty_page() {
    assert_eq!(page(""), "");
    assert_eq!(page("<html><head></head><body></body></html>"), "");
}

#[test]
fn find_body_gives_the_bounds_of_the_content() {
    let v = chars_of("<html><body a='>'>in</body></html>");
    assert_eq!(find_body(&v), (18, 20));
    let none = chars_of("<p>in</p>");
    assert_eq!(find_body(&none), (0, 9));
    let open = chars_of("<body>in");
    assert_eq!(find_body(&open), (6, 8));
    let commented = chars_of("<!-- <body> --><body>x</body>");
    assert_eq!(find_body(&commented), (21, 22));
}

#[test]
fn pieces_are_told_apart() {
    let v = chars_of("a<b c>d</b><!--e--><!f><?g?>< h</1<i");
    assert!(matches!(scan_piece(&v, 0), (Piece::Text, 1)));
    assert!(matches!(scan_piece(&v, 1), (Piece::StartTag, 6)));
    assert!(matches!(scan_piece(&v, 7), (Piece::EndTag, 11)));
    assert!(matches!(scan_piece(&v, 11), (Piece::Comment, 19)));
    assert!(matches!(scan_piece(&v, 19), (Piece::Declaration, 23)));
    assert!(matches!(scan_piece(&v, 23), (Piece::Declaration, 28)));
    assert!(matches!(scan_piece(&v, 28), (Piece::Text, 29)));
    assert!(matches!(scan_piece(&v, 31), (Piece::Text, 32)));
    assert!(matches!(scan_piece(&v, 34), (Piece::Text, 35)));
}

#[test]
fn tags_that_never_end_are_text() {
    let open = chars_of("<a href=\"x <b>y</b>");
    assert!(matches!(scan_piece(&open, 0), (Piece::Text, 1)));
    let end = chars_of("</a <b>");
    assert!(matches!(scan_piece(&end, 0), (Piece::EndTag, 7)));
    let cut = chars_of("</a ");
    assert!(matches!(scan_piece(&cut, 0), (Piece::Text, 1)));
    let comment = chars_of("<!-- never");
    assert!(matches!(scan_piece(&comment, 0), (Piece::Comment, 10)));
}

#[test]
fn scans_stop_where_they_should() {
    let v = chars_of("ab \t\n/c=d>e");
    assert_eq!(scan_until(&v, 0, CharClass::Space), 2);
    assert_eq!(scan_while(&v, 2, CharClass::Space), 5);
    assert_eq!(scan_while(&v, 2, CharClass::Gap), 6);
    assert_eq!(scan_until(&v, 0, CharClass::NameEnd), 2);
    assert_eq!(scan_until(&v, 6, CharClass::NameEnd), 9);
    assert_eq!(scan_until(&v, 6, CharClass::AttrNameEnd), 7);
    assert_eq!(scan_until(&v, 8, CharClass::ValueEnd), 9);
    assert_eq!(scan_until(&v, 10, CharClass::ValueEnd), 11);
    assert_eq!(scan_while(&v, 11, CharClass::Space), 11);
    let c = chars_of("x-->y--");
    assert_eq!(scan_comment_end(&c, 0), 4);
    assert_eq!(scan_comment_end(&c, 2), 7);
}

#[test]
fn attributes_are_found_with_their_bounds() {
    let v = chars_of("<a id=x HREF = \"u v\" k='w'>");
    let href = scan_attr(&v, 2, "href").unwrap();
    assert_eq!((href.outer_start, href.outer_end, href.inner_start, href.inner_end), (15, 20, 16, 19));
    let id = scan_attr(&v, 2, "id").unwrap();
    assert_eq!((id.outer_start, id.outer_end, id.inner_start, id.inner_end), (6, 7, 6, 7));
    let k = scan_attr(&v, 2, "k").unwrap();
    assert_eq!((k.outer_start, k.outer_end, k.inner_start, k.inner_end), (23, 26, 24, 25));
    assert!(scan_attr(&v, 2, "src").is_none());
    assert_eq!(scan_tag_close(&v, 2), Some(27));
    assert!(scan_attr_value(&v, 26).is_none());
    let open = chars_of("<a href=\"u");
    let cut = scan_attr(&open, 2, "href").unwrap();
    assert_eq!((cut.outer_start, cut.outer_end, cut.inner_start, cut.inner_end), (8, 10, 9, 10));
    assert_eq!(scan_tag_close(&open, 2), None);
}

#[test]
fn tags_are_named_without_regard_to_case() {
    let v = chars_of("<BoDy x></bODY >");
    assert!(tag_is_named(&v, 0, Piece::StartTag, "body"));
    assert!(!tag_is_named(&v, 0, Piece::StartTag, "bod"));
    assert!(tag_is_named(&v, 8, Piece::EndTag, "body"));
    assert!(!tag_is_named(&v, 8, Piece::EndTag, "title"));
}

#[test]
fn reference_of_tag_follows_the_rules() {
    let a = chars_of("<a src=x href=y>");
    let r = reference_of_tag(&a, 0).unwrap();
    assert_eq!((r.inner_start, r.inner_end), (14, 15));
    let img = chars_of("<img href=x src=y>");
    let r = reference_of_tag(&img, 0).unwrap();
    assert_eq!((r.inner_start, r.inner_end), (16, 17));
    let div = chars_of("<div href=x src=y>");
    assert!(reference_of_tag(&div, 0).is_none());
    let bare = chars_of("<a>");
    assert!(reference_of_tag(&bare, 0).is_none());
}

fn selector(s: &str) -> Cow<'static, Selector> {
    Cow::Owned(s.parse::<Selector>().unwrap())
}

fn by_rewriter(html: &str, map: &PathMap) -> String {
    let settings = RewriteStrSettings::new()
        .append_element_content_handler((
            selector("title"),
            ElementContentHandlers::default().element(|el: &mut Element<'_, '_, LocalHandlerTypes>| {
                el.remove();
                Ok(())
            }),
        ))
        .append_element_content_handler((
            selector("a[href], link[href]"),
            ElementContentHandlers::default().element(|el: &mut Element<'_, '_, LocalHandlerTypes>| {
                if let Some(href) = el.get_attribute("href") {
                    if let Some(new_link) = rewrite_link(&href, "text", "documents/ch1.html", map) {
                        el.set_attribute("href", &new_link)?;
                    }
                }
                Ok(())
            }),
        ))
        .append_element_content_handler((
            selector("img[src], audio[src], video[src], source[src]"),
            ElementContentHandlers::default().element(|el: &mut Element<'_, '_, LocalHandlerTypes>| {
                if let Some(src) = el.get_attribute("src") {
                    if let Some(new_link) = rewrite_link(&src, "text", "documents/ch1.html", map) {
                        el.set_attribute("src", &new_link)?;
                    }
                }
                Ok(())
            }),
        ))
        .append_element_content_handler((
            selector("body"),
            ElementContentHandlers::default().element(|el: &mut Element<'_, '_, LocalHandlerTypes>| {
                el.remove_and_keep_content();
                Ok(())
            }),
        ));
    rewrite_str(html, settings).unwrap()
}

#[test]
fn agrees_with_a_streaming_rewriter_on_plain_markup() {
    let map = sample_map();
    let samples = [
        "",
        "plain text, 1 < 2 > 0",
        "<p>See <a href=\"ch2.xhtml#n1\">the note</a>.</p>",
        "<p><a id='x' href='ch2.xhtml'>a</a><a href=ch2.xhtml>b</a></p>",
        "<body><h1>T</h1><img src=\"../images/cover.jpg\" alt=\"c\" /><br /></body>",
        "<body class=\"b\"><title>gone</title><p>kept</p></body>",
        "<title>gone <b>too</b></title><p>kept</p>",
        "<a href=\"https://example.com/\">e</a><a href=\"#f\">f</a><a href=\"/r\">r</a><a href=\"none.xhtml\">n</a>",
        "<link rel=\"stylesheet\" href=\"../styles/main.css\"><video src=\"../media/clip.mp4\" controls></video>",
        "<audio src=\"../media/clip.mp4\"></audio><video><source src=\"../media/clip.mp4\"></video>",
        "<!-- <a href=\"ch2.xhtml\">c</a> --><a href=\"ch2.xhtml\">d</a>",
        "<a title=\"a>b\" href=\"ch2.xhtml\">x</a>",
        "<a href='a%22b.xhtml'>q</a>",
        "<div href=\"ch2.xhtml\"><img alt=\"ch2.xhtml\"><a name=\"n\">x</a></div>",
        "<script>document.write(\"<a href='ch2.xhtml'>x</a>\");</script><a href=\"ch2.xhtml\">y</a>",
        "<style>a > b { color: red }</style><a href=\"ch2.xhtml\">y</a>",
        "<p>第一章 «été» 📚</p><a href=\"ch2.xhtml\">下一章</a>",
        "<a href=\"ch2.xhtml\" href=\"ch1.xhtml\">first</a>",
    ];
    for html in samples {
        let ours = transform_markup(html, "text", "documents/ch1.html", &map).text;
        assert_eq!(ours, by_rewriter(html, &map), "markup: {:?}", html);
    }
}

#[test]
fn long_documents_are_handled() {
    let mut html = String::from("<html><head><title>Long</title></head><body>");
    let mut expected = String::new();
    for i in 0..5000 {
        html.push_str(&format!("<p id=\"p{}\">Paragraph {} &amp; <a href=\"ch2.xhtml#n{}\">note</a> 1 < 2</p>\n", i, i, i));
        expected.push_str(&format!("<p id=\"p{}\">Paragraph {} &amp; <a href=\"ch2.html#n{}\">note</a> 1 < 2</p>\n", i, i, i));
    }
    html.push_str("</body></html>");
    let out = transform_markup(&html, "text", "documents/ch1.html", &sample_map());
    assert_eq!(out.text, expected);
    assert!(out.diagnostics.is_empty());
}
