//! Stylesheets: every `url(...)` in them is rewritten.
use crate::epub::path_map::PathMap;
use crate::epub::rewriter::{resolve_link, rewritten_link, warning_for, Diagnostic,
    DiagnosticText};
use crate::text::{append_range, append_str, chars_of, has_at, matches_at, string_of,
    string_of_range};
use vstd::prelude::*;

verus! {

/// The place of a document: its directory in the archive, the path of its
/// page in the site, and the path map.
pub ghost struct Place {
    pub source_dir: Seq<char>,
    pub site_path: Seq<char>,
    pub map: Map<Seq<char>, Seq<char>>,
}

/// A rewritten text, with the warnings for the references in it that could
/// not be resolved.
#[derive(Debug)]
pub struct Transformed {
    pub text: String,
    pub diagnostics: Vec<Diagnostic>,
}

/// The views of a sequence of diagnostics.
pub open spec fn diagnostic_texts(v: Seq<Diagnostic>) -> Seq<DiagnosticText> {
    Seq::new(v.len(), |i: int| v[i]@)
}

/// What a reference becomes at `place`: the rewritten reference, or the
/// reference itself where it is not rewritten.
pub open spec fn rewritten_or_same(link: Seq<char>, place: Place) -> Seq<char> {
    match rewritten_link(link, place.source_dir, place.site_path, place.map) {
        Some(r) => r,
        None => link,
    }
}

/// The warnings for one reference at `place`: one or none.
pub open spec fn warnings_for(link: Seq<char>, place: Place) -> Seq<DiagnosticText> {
    match warning_for(link, place.source_dir, place.site_path, place.map) {
        Some(d) => seq![d],
        None => Seq::empty(),
    }
}

/// Index of the `)` that ends a `url(` whose content starts at `from`: the
/// first `)` at or after `from`, provided that no line break comes first.
pub open spec fn url_end(css: Seq<char>, from: int) -> Option<int>
    decreases css.len() - from,
{
    if from < 0 || from >= css.len() {
        None
    } else if css[from] == ')' {
        Some(from)
    } else if css[from] == '\n' {
        None
    } else {
        url_end(css, from + 1)
    }
}

/// Index of the `)` that ends the `url(...)` that starts at `i`, if one
/// starts there.
pub open spec fn url_close(css: Seq<char>, i: int) -> Option<int> {
    if has_at(css, i, "url("@) {
        url_end(css, i + 4)
    } else {
        None
    }
}

/// Whether a character is a quotation mark.
pub open spec fn is_quote(c: char) -> bool {
    c == '\'' || c == '"'
}

/// Index of the first character of `s` at or after `from` that is no
/// quotation mark, or `s.len()`.
pub open spec fn skip_quotes(s: Seq<char>, from: int) -> int
    decreases s.len() - from,
{
    if from < 0 || from >= s.len() {
        s.len() as int
    } else if !is_quote(s[from]) {
        from
    } else {
        skip_quotes(s, from + 1)
    }
}

/// Index after the last character of `s` between `floor` and `upto` that
/// is no quotation mark, or `floor`.
pub open spec fn drop_quotes(s: Seq<char>, floor: int, upto: int) -> int
    decreases upto,
{
    if upto <= floor || upto > s.len() || upto <= 0 {
        floor
    } else if !is_quote(s[upto - 1]) {
        upto
    } else {
        drop_quotes(s, floor, upto - 1)
    }
}

/// `s` without the quotation marks at its start and at its end.
pub open spec fn trimmed_quotes(s: Seq<char>) -> Seq<char> {
    let a = skip_quotes(s, 0);
    s.subrange(a, drop_quotes(s, a, s.len() as int))
}

/// The reference inside the `url(...)` that starts at `i` and ends at `close`.
pub open spec fn url_reference(css: Seq<char>, i: int, close: int) -> Seq<char> {
    trimmed_quotes(css.subrange(i + 4, close))
}

/// An index returned by `url_end` lies at or after `from`, inside `css`;
/// a `)` stands there, and neither a `)` nor a line break stands between
/// `from` and it.
pub proof fn url_end_is_in_range(css: Seq<char>, from: int)
    ensures
        url_end(css, from) matches Some(close) ==> 0 <= from <= close < css.len() && css[close]
            == ')' && forall|j: int| from <= j < close ==> css[j] != ')' && css[j] != '\n',
    decreases css.len() - from,
{
    if 0 <= from < css.len() && css[from] != ')' && css[from] != '\n' {
        url_end_is_in_range(css, from + 1);
    }
}

/// The rest of a stylesheet from index `i` on, with every `url(...)`
/// replaced by `url('...')` around its rewritten reference.
pub open spec fn stylesheet_from(css: Seq<char>, i: int, place: Place) -> Seq<char>
    decreases css.len() - i,
{
    if i < 0 || i >= css.len() {
        Seq::empty()
    } else {
        match url_close(css, i) {
            Some(close) => {
                proof {
                    url_end_is_in_range(css, i + 4);
                }
                "url('"@ + rewritten_or_same(url_reference(css, i, close), place) + "')"@
                    + stylesheet_from(css, close + 1, place)
            },
            None => seq![css[i]] + stylesheet_from(css, i + 1, place),
        }
    }
}

/// The warnings for the references of a stylesheet from index `i` on.
pub open spec fn stylesheet_warnings_from(css: Seq<char>, i: int, place: Place) -> Seq<
    DiagnosticText,
>
    decreases css.len() - i,
{
    if i < 0 || i >= css.len() {
        Seq::empty()
    } else {
        match url_close(css, i) {
            Some(close) => {
                proof {
                    url_end_is_in_range(css, i + 4);
                }
                warnings_for(url_reference(css, i, close), place) + stylesheet_warnings_from(
                    css,
                    close + 1,
                    place,
                )
            },
            None => stylesheet_warnings_from(css, i + 1, place),
        }
    }
}

/// A stylesheet with every `url(...)` rewritten.
pub open spec fn rewritten_stylesheet(css: Seq<char>, place: Place) -> Seq<char> {
    stylesheet_from(css, 0, place)
}

/// The warnings for the references of a stylesheet, in order.
pub open spec fn stylesheet_warnings(css: Seq<char>, place: Place) -> Seq<DiagnosticText> {
    stylesheet_warnings_from(css, 0, place)
}

/// Index of the `)` that ends a `url(` whose content starts at `from`.
pub fn find_url_end(css: &Vec<char>, from: usize) -> (r: Option<usize>)
    requires
        from <= css.len(),
    ensures
        match r {
            Some(close) => url_end(css@, from as int) == Some(close as int) && from <= close
                < css.len(),
            None => url_end(css@, from as int) is None,
        },
{
    let mut i: usize = from;
    while i < css.len()
        invariant
            from <= i <= css.len(),
            url_end(css@, i as int) == url_end(css@, from as int),
        decreases css.len() - i,
    {
        if css[i] == ')' {
            return Some(i);
        }
        if css[i] == '\n' {
            return None;
        }
        i += 1;
    }
    None
}

/// Index of the `)` that ends the `url(...)` that starts at `i`.
pub fn find_url_close(css: &Vec<char>, i: usize) -> (r: Option<usize>)
    requires
        i < css.len(),
    ensures
        match r {
            Some(close) => url_close(css@, i as int) == Some(close as int) && i + 4 <= close
                < css.len(),
            None => url_close(css@, i as int) is None,
        },
{
    proof {
        reveal_strlit("url(");
    }
    if matches_at(css, i, "url(") {
        find_url_end(css, i + 4)
    } else {
        None
    }
}

/// The bounds of `s` without the quotation marks at its start and end.
pub fn trim_quotes(s: &Vec<char>) -> (r: (usize, usize))
    ensures
        r.0 <= r.1 <= s.len(),
        s@.subrange(r.0 as int, r.1 as int) == trimmed_quotes(s@),
{
    let mut a: usize = 0;
    while a < s.len() && (s[a] == '\'' || s[a] == '"')
        invariant
            a <= s.len(),
            skip_quotes(s@, a as int) == skip_quotes(s@, 0),
        decreases s.len() - a,
    {
        a += 1;
    }
    let mut b: usize = s.len();
    while b > a && (s[b - 1] == '\'' || s[b - 1] == '"')
        invariant
            a <= b <= s.len(),
            drop_quotes(s@, a as int, b as int) == drop_quotes(s@, a as int, s.len() as int),
        decreases b,
    {
        b -= 1;
    }
    (a, b)
}

/// Rewrites every `url(...)` of a stylesheet that stands in the archive
/// directory `source_dir` and lands at `site_path`. Each is written back as
/// `url('...')`, around the rewritten reference or, where the reference is
/// not rewritten, around the reference as it was.
pub fn transform_stylesheet(css: &str, source_dir: &str, site_path: &str, path_map: &PathMap) -> (r:
    Transformed)
    ensures
        r.text@ == rewritten_stylesheet(
            css@,
            Place { source_dir: source_dir@, site_path: site_path@, map: path_map@ },
        ),
        diagnostic_texts(r.diagnostics@) == stylesheet_warnings(
            css@,
            Place { source_dir: source_dir@, site_path: site_path@, map: path_map@ },
        ),
{
    let ghost place = Place { source_dir: source_dir@, site_path: site_path@, map: path_map@ };
    let text = chars_of(css);
    let mut out: Vec<char> = Vec::new();
    let mut diagnostics: Vec<Diagnostic> = Vec::new();
    let mut i: usize = 0;
    while i < text.len()
        invariant
            i <= text.len(),
            text@ == css@,
            place == (Place { source_dir: source_dir@, site_path: site_path@, map: path_map@ }),
            out@ + stylesheet_from(text@, i as int, place) == rewritten_stylesheet(text@, place),
            diagnostic_texts(diagnostics@) + stylesheet_warnings_from(text@, i as int, place)
                == stylesheet_warnings(text@, place),
        decreases text.len() - i,
    {
        match find_url_close(&text, i) {
            Some(close) => {
                let mut inner: Vec<char> = Vec::new();
                append_range(&mut inner, &text, i + 4, close);
                let bounds = trim_quotes(&inner);
                let url = string_of_range(&inner, bounds.0, bounds.1);
                let resolved = resolve_link(url.as_str(), source_dir, site_path, path_map);
                append_str(&mut out, "url('");
                match resolved.rewritten {
                    Some(link) => append_str(&mut out, link.as_str()),
                    None => append_str(&mut out, url.as_str()),
                }
                append_str(&mut out, "')");
                match resolved.diagnostic {
                    Some(d) => {
                        diagnostics.push(d);
                    },
                    None => {},
                }
                i = close + 1;
            },
            None => {
                out.push(text[i]);
                i += 1;
            },
        }
    }
    Transformed { text: string_of(&out), diagnostics }
}

} // verus!
