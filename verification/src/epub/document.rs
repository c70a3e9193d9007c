//! Content documents: the body is taken out of its shell, the title is
//! dropped, and the references in links and media tags are rewritten.
use crate::epub::markup::{closes_itself, piece_at, piece_bounds, piece_end, find_attr,
    scan_attr, scan_piece, scan_until, tag_is_named, tag_name,
    tag_name_end, CharClass, Piece, ValueBounds, ValueSpan, optional_span};
use crate::epub::path_map::PathMap;
use crate::epub::rewriter::{resolve_link, rewritten_link, Diagnostic, DiagnosticText};
use crate::epub::stylesheet::{diagnostic_texts, warnings_for, Place, Transformed};
use crate::text::{append_range, append_str, chars_of, string_of, string_of_range};
use vstd::prelude::*;

verus! {

/// The attribute of a tag that holds a reference: `href` for `a` and
/// `link`, `src` for `img`, `audio`, `video` and `source`.
pub open spec fn rule_attribute(tag: Seq<char>) -> Option<Seq<char>> {
    if tag == "a"@ || tag == "link"@ {
        Some("href"@)
    } else if tag == "img"@ || tag == "audio"@ || tag == "video"@ || tag == "source"@ {
        Some("src"@)
    } else {
        None
    }
}

/// Where the reference of the start tag at `i` stands, if the tag is one
/// of those that hold a reference and has the attribute with a value.
pub open spec fn tag_reference(s: Seq<char>, i: int) -> Option<ValueSpan> {
    match rule_attribute(tag_name(s, i)) {
        Some(attr) => find_attr(s, tag_name_end(s, i), attr),
        None => None,
    }
}

/// A value with each `"` replaced by `&quot;`, so that it can stand between
/// double quotation marks.
pub open spec fn escaped_quotes(value: Seq<char>) -> Seq<char>
    decreases value.len(),
{
    if value.len() == 0 {
        Seq::empty()
    } else if value.last() == '"' {
        escaped_quotes(value.drop_last()) + "&quot;"@
    } else {
        escaped_quotes(value.drop_last()).push(value.last())
    }
}

/// The start tag at `i` with its reference rewritten: the new value stands
/// between double quotation marks in place of the old one, and the rest of
/// the tag is as it was. A tag whose reference is not rewritten is as it
/// was.
pub open spec fn rewritten_tag(s: Seq<char>, i: int, place: Place) -> Seq<char> {
    let end = piece_end(s, i);
    match tag_reference(s, i) {
        Some(v) => match rewritten_link(
            s.subrange(v.inner_start, v.inner_end),
            place.source_dir,
            place.site_path,
            place.map,
        ) {
            Some(link) => s.subrange(i, v.outer_start) + seq!['"'] + escaped_quotes(link)
                + seq!['"'] + s.subrange(v.outer_end, end),
            None => s.subrange(i, end),
        },
        None => s.subrange(i, end),
    }
}

/// The warnings for the reference of the start tag at `i`.
pub open spec fn tag_warnings(s: Seq<char>, i: int, place: Place) -> Seq<DiagnosticText> {
    match tag_reference(s, i) {
        Some(v) => warnings_for(s.subrange(v.inner_start, v.inner_end), place),
        None => Seq::empty(),
    }
}

/// Where the transformer stands in a document.
#[derive(Clone, Copy, Debug)]
pub enum Mode {
    /// In markup: tags are looked at.
    Content,
    /// In the title element: everything is dropped.
    Title,
    /// In a script element: everything is kept as it is.
    Script,
    /// In a style element: everything is kept as it is.
    Style,
}

/// The name of the element that a mode stands for.
pub open spec fn element_of(mode: Mode) -> Seq<char> {
    match mode {
        Mode::Content => Seq::empty(),
        Mode::Title => "title"@,
        Mode::Script => "script"@,
        Mode::Style => "style"@,
    }
}

/// Whether the piece at `i` is a start tag named `title`.
pub open spec fn opens_title(s: Seq<char>, i: int) -> bool {
    piece_at(s, i) is StartTag && tag_name(s, i) == "title"@
}

/// The mode after the piece at `i` in markup: a start tag named `title`,
/// `script` or `style` that does not close itself opens that element.
pub open spec fn opened_by(s: Seq<char>, i: int) -> Mode {
    if !(piece_at(s, i) is StartTag) || closes_itself(s, i, piece_end(s, i)) {
        Mode::Content
    } else if tag_name(s, i) == "title"@ {
        Mode::Title
    } else if tag_name(s, i) == "script"@ {
        Mode::Script
    } else if tag_name(s, i) == "style"@ {
        Mode::Style
    } else {
        Mode::Content
    }
}

/// The mode after the piece at `i`: an element that is open stays open up
/// to the next end tag of its name.
pub open spec fn mode_after(s: Seq<char>, i: int, mode: Mode) -> Mode {
    match mode {
        Mode::Content => opened_by(s, i),
        _ => if piece_at(s, i) is EndTag && tag_name(s, i) == element_of(mode) {
            Mode::Content
        } else {
            mode
        },
    }
}

/// What the piece at `i` contributes to the page: nothing inside the title
/// element and nothing for the tag that opens it; inside a script or style
/// element the piece as it stands; else a start tag with its reference
/// rewritten, and anything else as it stands.
pub open spec fn emitted(s: Seq<char>, i: int, mode: Mode, place: Place) -> Seq<char> {
    match mode {
        Mode::Title => Seq::empty(),
        Mode::Script | Mode::Style => s.subrange(i, piece_end(s, i)),
        Mode::Content => if opens_title(s, i) {
            Seq::empty()
        } else if piece_at(s, i) is StartTag {
            rewritten_tag(s, i, place)
        } else {
            s.subrange(i, piece_end(s, i))
        },
    }
}

/// The warnings that the piece at `i` gives rise to.
pub open spec fn warned(s: Seq<char>, i: int, mode: Mode, place: Place) -> Seq<DiagnosticText> {
    if mode is Content && piece_at(s, i) is StartTag && !opens_title(s, i) {
        tag_warnings(s, i, place)
    } else {
        Seq::empty()
    }
}

/// The page content that the pieces from `i` up to `end` give.
pub open spec fn markup_from(s: Seq<char>, i: int, end: int, mode: Mode, place: Place) -> Seq<
    char,
>
    decreases s.len() - i,
{
    if i < 0 || i >= end || i >= s.len() {
        Seq::empty()
    } else {
        proof {
            piece_bounds(s, i);
        }
        emitted(s, i, mode, place) + markup_from(
            s,
            piece_end(s, i),
            end,
            mode_after(s, i, mode),
            place,
        )
    }
}

/// The warnings that the pieces from `i` up to `end` give rise to.
pub open spec fn markup_warnings_from(
    s: Seq<char>,
    i: int,
    end: int,
    mode: Mode,
    place: Place,
) -> Seq<DiagnosticText>
    decreases s.len() - i,
{
    if i < 0 || i >= end || i >= s.len() {
        Seq::empty()
    } else {
        proof {
            piece_bounds(s, i);
        }
        warned(s, i, mode, place) + markup_warnings_from(
            s,
            piece_end(s, i),
            end,
            mode_after(s, i, mode),
            place,
        )
    }
}

/// Index after the first start tag named `body` among the pieces from `i`
/// on. What stands in a title, script or style element is passed over.
pub open spec fn body_start(s: Seq<char>, i: int, mode: Mode) -> Option<int>
    decreases s.len() - i,
{
    if i < 0 || i >= s.len() {
        None
    } else if mode is Content && piece_at(s, i) is StartTag && tag_name(s, i) == "body"@ {
        Some(piece_end(s, i))
    } else {
        proof {
            piece_bounds(s, i);
        }
        body_start(s, piece_end(s, i), mode_after(s, i, mode))
    }
}

/// Index of the first end tag named `body` among the pieces from `i` on,
/// or `s.len()`. What stands in a title, script or style element is passed
/// over.
pub open spec fn body_end(s: Seq<char>, i: int, mode: Mode) -> int
    decreases s.len() - i,
{
    if i < 0 || i >= s.len() {
        s.len() as int
    } else if mode is Content && piece_at(s, i) is EndTag && tag_name(s, i) == "body"@ {
        i
    } else {
        proof {
            piece_bounds(s, i);
        }
        body_end(s, piece_end(s, i), mode_after(s, i, mode))
    }
}

/// The part of a document that becomes page content: what stands between
/// the start tag and the end tag of its body; the whole document where it
/// has no body.
pub open spec fn body_range(s: Seq<char>) -> (int, int) {
    match body_start(s, 0, Mode::Content) {
        Some(start) => (start, body_end(s, start, Mode::Content)),
        None => (0, s.len() as int),
    }
}

/// The page content of a document at `place`.
pub open spec fn transformed_markup(s: Seq<char>, place: Place) -> Seq<char> {
    markup_from(s, body_range(s).0, body_range(s).1, Mode::Content, place)
}

/// The warnings for the references of a document at `place`, in order.
pub open spec fn markup_warnings(s: Seq<char>, place: Place) -> Seq<DiagnosticText> {
    markup_warnings_from(s, body_range(s).0, body_range(s).1, Mode::Content, place)
}

/// Appends `value` to `out` with each `"` replaced by `&quot;`.
pub fn escape_quotes(out: &mut Vec<char>, value: &Vec<char>)
    ensures
        final(out)@ == old(out)@ + escaped_quotes(value@),
{
    let mut i: usize = 0;
    while i < value.len()
        invariant
            i <= value.len(),
            out@ == old(out)@ + escaped_quotes(value@.take(i as int)),
        decreases value.len() - i,
    {
        proof {
            assert(value@.take(i + 1).drop_last() =~= value@.take(i as int));
        }
        if value[i] == '"' {
            append_str(out, "&quot;");
        } else {
            out.push(value[i]);
        }
        i += 1;
    }
    assert(value@.take(value.len() as int) =~= value@);
}

/// Where the reference of the start tag at `i` stands.
pub fn reference_of_tag(s: &Vec<char>, i: usize) -> (r: Option<ValueBounds>)
    requires
        i < s.len(),
        piece_at(s@, i as int) is StartTag,
    ensures
        optional_span(r) == tag_reference(s@, i as int),
        r matches Some(v) ==> i < v.outer_start <= v.inner_start <= v.inner_end <= v.outer_end
            < piece_end(s@, i as int),
{
    proof {
        piece_bounds(s@, i as int);
    }
    let kind = Piece::StartTag;
    let name_end = scan_until(s, i + 1, CharClass::NameEnd);
    if tag_is_named(s, i, kind, "a") || tag_is_named(s, i, kind, "link") {
        scan_attr(s, name_end, "href")
    } else if tag_is_named(s, i, kind, "img") || tag_is_named(s, i, kind, "audio")
        || tag_is_named(s, i, kind, "video") || tag_is_named(s, i, kind, "source") {
        scan_attr(s, name_end, "src")
    } else {
        None
    }
}

/// Index after the first start tag named `body`.
pub fn find_body_start(s: &Vec<char>) -> (r: Option<usize>)
    ensures
        match r {
            Some(a) => body_start(s@, 0, Mode::Content) == Some(a as int) && a <= s.len(),
            None => body_start(s@, 0, Mode::Content) is None,
        },
{
    let mut i: usize = 0;
    let mut mode = Mode::Content;
    while i < s.len()
        invariant
            i <= s.len(),
            body_start(s@, i as int, mode) == body_start(s@, 0, Mode::Content),
        decreases s.len() - i,
    {
        let piece = scan_piece(s, i);
        let kind = piece.0;
        let next = piece.1;
        let found = match (mode, kind) {
            (Mode::Content, Piece::StartTag) => tag_is_named(s, i, kind, "body"),
            _ => false,
        };
        if found {
            return Some(next);
        }
        mode = mode_after_piece(s, i, kind, next, mode);
        i = next;
    }
    None
}

/// Index of the first end tag named `body` among the pieces from `from` on.
pub fn find_body_end(s: &Vec<char>, from: usize) -> (r: usize)
    requires
        from <= s.len(),
    ensures
        r == body_end(s@, from as int, Mode::Content),
        from <= r <= s.len(),
{
    let mut j: usize = from;
    let mut mode = Mode::Content;
    while j < s.len()
        invariant
            from <= j <= s.len(),
            body_end(s@, j as int, mode) == body_end(s@, from as int, Mode::Content),
        decreases s.len() - j,
    {
        let piece = scan_piece(s, j);
        let kind = piece.0;
        let next = piece.1;
        let found = match (mode, kind) {
            (Mode::Content, Piece::EndTag) => tag_is_named(s, j, kind, "body"),
            _ => false,
        };
        if found {
            return j;
        }
        mode = mode_after_piece(s, j, kind, next, mode);
        j = next;
    }
    j
}

/// The part of a document that becomes page content.
pub fn find_body(s: &Vec<char>) -> (r: (usize, usize))
    ensures
        (r.0 as int, r.1 as int) == body_range(s@),
        r.0 <= r.1 <= s.len(),
{
    match find_body_start(s) {
        None => (0, s.len()),
        Some(a) => (a, find_body_end(s, a)),
    }
}

/// The mode after the start tag at `i`, which ends at `next`, in markup.
pub fn mode_opened_by(s: &Vec<char>, i: usize, next: usize) -> (r: Mode)
    requires
        i < s.len(),
        piece_at(s@, i as int) is StartTag,
        next == piece_end(s@, i as int),
    ensures
        r == opened_by(s@, i as int),
{
    proof {
        piece_bounds(s@, i as int);
    }
    let kind = Piece::StartTag;
    if next - i >= 2 && s[next - 1] == '>' && s[next - 2] == '/' {
        Mode::Content
    } else if tag_is_named(s, i, kind, "title") {
        Mode::Title
    } else if tag_is_named(s, i, kind, "script") {
        Mode::Script
    } else if tag_is_named(s, i, kind, "style") {
        Mode::Style
    } else {
        Mode::Content
    }
}

/// Whether the end tag at `i` closes the element that `mode` stands for.
pub fn closes_element(s: &Vec<char>, i: usize, mode: Mode) -> (r: bool)
    requires
        i < s.len(),
        piece_at(s@, i as int) is EndTag,
    ensures
        r == (tag_name(s@, i as int) == element_of(mode)),
{
    proof {
        piece_bounds(s@, i as int);
    }
    let kind = Piece::EndTag;
    match mode {
        Mode::Content => {
            let empty = String::new();
            tag_is_named(s, i, kind, empty.as_str())
        },
        Mode::Title => tag_is_named(s, i, kind, "title"),
        Mode::Script => tag_is_named(s, i, kind, "script"),
        Mode::Style => tag_is_named(s, i, kind, "style"),
    }
}

/// The mode after the piece of kind `kind` that stands from `i` to `next`.
pub fn mode_after_piece(s: &Vec<char>, i: usize, kind: Piece, next: usize, mode: Mode) -> (r: Mode)
    requires
        i < s.len(),
        kind == piece_at(s@, i as int),
        next == piece_end(s@, i as int),
    ensures
        r == mode_after(s@, i as int, mode),
{
    match mode {
        Mode::Content => match kind {
            Piece::StartTag => mode_opened_by(s, i, next),
            _ => Mode::Content,
        },
        _ => {
            let closing = match kind {
                Piece::EndTag => closes_element(s, i, mode),
                _ => false,
            };
            if closing {
                Mode::Content
            } else {
                mode
            }
        },
    }
}

/// Appends the start tag at `i`, which ends at `next`, with its reference
/// rewritten, and the warning for it where one is due.
pub fn rewrite_tag(
    out: &mut Vec<char>,
    diagnostics: &mut Vec<Diagnostic>,
    s: &Vec<char>,
    i: usize,
    next: usize,
    source_dir: &str,
    site_path: &str,
    path_map: &PathMap,
)
    requires
        i < s.len(),
        piece_at(s@, i as int) is StartTag,
        next == piece_end(s@, i as int),
    ensures
        final(out)@ == old(out)@ + rewritten_tag(
            s@,
            i as int,
            Place { source_dir: source_dir@, site_path: site_path@, map: path_map@ },
        ),
        diagnostic_texts(final(diagnostics)@) == diagnostic_texts(old(diagnostics)@) + tag_warnings(
            s@,
            i as int,
            Place { source_dir: source_dir@, site_path: site_path@, map: path_map@ },
        ),
{
    proof {
        piece_bounds(s@, i as int);
    }
    match reference_of_tag(s, i) {
        Some(v) => {
            let value = string_of_range(s, v.inner_start, v.inner_end);
            let resolved = resolve_link(value.as_str(), source_dir, site_path, path_map);
            match resolved.rewritten {
                Some(link) => {
                    let fresh = chars_of(link.as_str());
                    append_range(out, s, i, v.outer_start);
                    out.push('"');
                    escape_quotes(out, &fresh);
                    out.push('"');
                    append_range(out, s, v.outer_end, next);
                },
                None => {
                    append_range(out, s, i, next);
                },
            }
            match resolved.diagnostic {
                Some(d) => {
                    diagnostics.push(d);
                },
                None => {},
            }
        },
        None => {
            append_range(out, s, i, next);
        },
    }
}

/// Rewrites the pieces of `s` from `start` up to `end`.
pub fn rewrite_markup(
    s: &Vec<char>,
    start: usize,
    end: usize,
    source_dir: &str,
    site_path: &str,
    path_map: &PathMap,
) -> (r: Transformed)
    requires
        start <= s.len(),
    ensures
        r.text@ == markup_from(
            s@,
            start as int,
            end as int,
            Mode::Content,
            Place { source_dir: source_dir@, site_path: site_path@, map: path_map@ },
        ),
        diagnostic_texts(r.diagnostics@) == markup_warnings_from(
            s@,
            start as int,
            end as int,
            Mode::Content,
            Place { source_dir: source_dir@, site_path: site_path@, map: path_map@ },
        ),
{
    let ghost place = Place { source_dir: source_dir@, site_path: site_path@, map: path_map@ };
    let mut out: Vec<char> = Vec::new();
    let mut diagnostics: Vec<Diagnostic> = Vec::new();
    let mut mode = Mode::Content;
    let mut i: usize = start;
    while i < end && i < s.len()
        invariant
            i <= s.len(),
            place == (Place { source_dir: source_dir@, site_path: site_path@, map: path_map@ }),
            out@ + markup_from(s@, i as int, end as int, mode, place) == markup_from(
                s@,
                start as int,
                end as int,
                Mode::Content,
                place,
            ),
            diagnostic_texts(diagnostics@) + markup_warnings_from(
                s@,
                i as int,
                end as int,
                mode,
                place,
            ) == markup_warnings_from(s@, start as int, end as int, Mode::Content, place),
        decreases s.len() - i,
    {
        let piece = scan_piece(s, i);
        let kind = piece.0;
        let next = piece.1;
        match (mode, kind) {
            (Mode::Title, _) => {},
            (Mode::Content, Piece::StartTag) => {
                if !tag_is_named(s, i, kind, "title") {
                    rewrite_tag(
                        &mut out,
                        &mut diagnostics,
                        s,
                        i,
                        next,
                        source_dir,
                        site_path,
                        path_map,
                    );
                }
            },
            _ => {
                append_range(&mut out, s, i, next);
            },
        }
        mode = mode_after_piece(s, i, kind, next, mode);
        i = next;
    }
    Transformed { text: string_of(&out), diagnostics }
}

/// Turns a content document into page content: what stands in its body,
/// without any title element, with the references of its links and media
/// tags rewritten for a document of the archive directory `source_dir`
/// whose page is `site_path`. What stands in a script or style element is
/// kept as it is. A document without a body is taken whole.
pub fn transform_markup(html: &str, source_dir: &str, site_path: &str, path_map: &PathMap) -> (r:
    Transformed)
    ensures
        r.text@ == transformed_markup(
            html@,
            Place { source_dir: source_dir@, site_path: site_path@, map: path_map@ },
        ),
        diagnostic_texts(r.diagnostics@) == markup_warnings(
            html@,
            Place { source_dir: source_dir@, site_path: site_path@, map: path_map@ },
        ),
{
    let s = chars_of(html);
    let range = find_body(&s);
    rewrite_markup(&s, range.0, range.1, source_dir, site_path, path_map)
}

} // verus!
