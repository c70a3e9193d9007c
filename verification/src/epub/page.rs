//! The page template, the site's own stylesheet, and page titles.
use crate::paths::{file_stem, file_stem_of};
use crate::text::{append_range, append_str, chars_of, decimal, decimal_chars, string_of};
use vstd::prelude::*;

verus! {

/// The name of the site's own stylesheet.
pub const STYLES_CSS_FILENAME: &'static str = "styles.css";

/// The site's own stylesheet.
pub const STYLES_CSS: &'static str = "\
body { margin: 0; font-family: Georgia, serif; line-height: 1.6; color: #222; background: #fdfdfd; }\n\
.site-nav { display: flex; justify-content: space-between; gap: 1em; padding: 0.75em 1.5em; }\n\
.site-nav { border-bottom: 1px solid #ddd; font-family: sans-serif; }\n\
.site-nav a { color: #1a5fb4; text-decoration: none; }\n\
.content { max-width: 42em; margin: 0 auto; padding: 1.5em; }\n\
.content img { max-width: 100%; height: auto; }\n\
.toc-page .toc { list-style: none; padding: 0; }\n\
.toc-page .toc li { padding: 0.4em 0; border-bottom: 1px solid #eee; }\n\
.toc-title { text-align: center; }\n";

/// The template up to the page title.
pub const TEMPLATE_HEAD: &'static str = "\
<!DOCTYPE html>\n\
<html>\n\
<head>\n\
<meta charset=\"utf-8\">\n\
<meta name=\"viewport\" content=\"width=device-width, initial-scale=1\">\n\
<title>";

/// The template between the page title and the path of the stylesheet.
pub const TEMPLATE_STYLES: &'static str = "</title>\n<link rel=\"stylesheet\" href=\"";

/// The template between the path of the stylesheet and the navigation.
pub const TEMPLATE_NAV: &'static str = "\">\n</head>\n<body>\n<nav class=\"site-nav\">";

/// The template between the navigation and the content of a chapter.
pub const TEMPLATE_MAIN: &'static str = "</nav>\n<main class=\"content\">\n";

/// The template between the navigation and the content of the index.
pub const TEMPLATE_MAIN_TOC: &'static str = "</nav>\n<main class=\"content toc-page\">\n";

/// The template after the content.
pub const TEMPLATE_TAIL: &'static str = "\n</main>\n</body>\n</html>\n";

/// The template between the navigation and the content.
pub open spec fn main_opening(toc: bool) -> Seq<char> {
    if toc {
        TEMPLATE_MAIN_TOC@
    } else {
        TEMPLATE_MAIN@
    }
}

/// A page: the template with the title, the path of the stylesheet, the
/// navigation and the content put in as they are.
pub open spec fn page_text(
    title: Seq<char>,
    body: Seq<char>,
    nav: Seq<char>,
    styles_path: Seq<char>,
    toc: bool,
) -> Seq<char> {
    TEMPLATE_HEAD@ + title + TEMPLATE_STYLES@ + styles_path + TEMPLATE_NAV@ + nav + main_opening(
        toc,
    ) + body + TEMPLATE_TAIL@
}

/// The label of the chapter at `index` of the reading order.
pub open spec fn chapter_label(index: nat) -> Seq<char> {
    "第 "@ + decimal(index + 1) + " 章"@
}

/// The title shown for the page at `site_path`: the stem of its file name,
/// or the chapter's label where it has no file name or the stem is
/// `unknown`.
pub open spec fn display_title(site_path: Seq<char>, index: nat) -> Seq<char> {
    match file_stem_of(site_path) {
        Some(stem) => if stem == "unknown"@ {
            chapter_label(index)
        } else {
            stem
        },
        None => chapter_label(index),
    }
}

/// Fills the template.
pub fn render_page(title: &str, body: &str, nav: &str, styles_path: &str, toc: bool) -> (r: String)
    ensures
        r@ == page_text(title@, body@, nav@, styles_path@, toc),
{
    let mut out: Vec<char> = Vec::new();
    append_str(&mut out, TEMPLATE_HEAD);
    append_str(&mut out, title);
    append_str(&mut out, TEMPLATE_STYLES);
    append_str(&mut out, styles_path);
    append_str(&mut out, TEMPLATE_NAV);
    append_str(&mut out, nav);
    if toc {
        append_str(&mut out, TEMPLATE_MAIN_TOC);
    } else {
        append_str(&mut out, TEMPLATE_MAIN);
    }
    append_str(&mut out, body);
    append_str(&mut out, TEMPLATE_TAIL);
    string_of(&out)
}

/// The title shown for the page at `site_path`, which stands at `index` of
/// the reading order.
pub fn title_of(site_path: &str, index: usize) -> (r: String)
    ensures
        r@ == display_title(site_path@, index as nat),
{
    match file_stem(site_path) {
        Some(stem) => {
            let s = chars_of(stem.as_str());
            let n = s.len();
            assert(s@.subrange(0, n as int) =~= s@);
            if crate::text::range_is(&s, 0, n, "unknown") {
                label_of(index)
            } else {
                stem
            }
        },
        None => label_of(index),
    }
}

/// The label of the chapter at `index` of the reading order.
pub fn label_of(index: usize) -> (r: String)
    ensures
        r@ == chapter_label(index as nat),
{
    let mut out: Vec<char> = Vec::new();
    append_str(&mut out, "第 ");
    let number = (index as u128) + 1;
    let digits = decimal_chars(number);
    append_range(&mut out, &digits, 0, digits.len());
    append_str(&mut out, " 章");
    string_of(&out)
}

} // verus!
