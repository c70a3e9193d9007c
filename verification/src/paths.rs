//! Paths inside an archive and inside the site: strings whose segments are
//! separated by `/`. They are read as `std::path::Path` reads a path where
//! `/` is the separator: empty segments and `.` segments are passed over,
//! but for what stands at the very start of a path.
use crate::text::{append_range, append_str, chars_of, find_last, find_last_char, string_of,
    string_of_range};
use path_slash::PathExt;
use vstd::prelude::*;

verus! {

/// `rel` taken relative to the directory `dir`: a `rel` that starts at the
/// root stands alone, an empty `dir` adds nothing, and one separator stands
/// between the two otherwise.
pub open spec fn joined(dir: Seq<char>, rel: Seq<char>) -> Seq<char> {
    if rel.len() > 0 && rel[0] == '/' {
        rel
    } else if dir.len() == 0 || dir.last() == '/' {
        dir + rel
    } else {
        dir + seq!['/'] + rel
    }
}

/// How much of a path stands before its segments: the `/` of a path that
/// starts at the root, or a leading `.` segment; else nothing.
pub open spec fn lead_length(path: Seq<char>) -> int {
    if path.len() > 0 && (path[0] == '/' || (path[0] == '.' && (path.len() == 1 || path[1]
        == '/'))) {
        1
    } else {
        0
    }
}

/// Where the last segment of the first `end` characters of a path starts:
/// after their last `/`, or where the segments start.
pub open spec fn segment_start(path: Seq<char>, end: int) -> int {
    let cut = find_last(path, '/', end);
    if cut >= lead_length(path) {
        cut + 1
    } else {
        lead_length(path)
    }
}

/// Whether a segment is passed over when a path is read: it is empty, as
/// between two separators, or it is `.`.
pub open spec fn is_passed_over(segment: Seq<char>) -> bool {
    segment.len() == 0 || segment == seq!['.']
}

/// Where a cut lies that is made before the segment that starts at `seg`:
/// before the separator, if one stands before the segment.
pub open spec fn before_segment(path: Seq<char>, seg: int) -> int {
    if seg > lead_length(path) {
        seg - 1
    } else {
        seg
    }
}

/// The first `end` characters of a path without the segments at their end
/// that are passed over: the index at which the last segment that counts
/// ends. What stands before the segments is never cut.
pub open spec fn trimmed_end(path: Seq<char>, end: int) -> int
    decreases end,
{
    if end <= lead_length(path) || end > path.len() {
        end
    } else {
        let seg = segment_start(path, end);
        if is_passed_over(path.subrange(seg, end)) {
            proof {
                crate::text::find_last_is_last(path, '/', end);
            }
            trimmed_end(path, before_segment(path, seg))
        } else {
            end
        }
    }
}

/// The file name of a path: its last segment that counts, unless that is
/// `..`. A path of passed-over segments only, such as the empty path, `/`
/// and `.`, has none. So `a/b/` and `a/b/.` have the file name `b`.
pub open spec fn file_name_of(path: Seq<char>) -> Option<Seq<char>> {
    let end = trimmed_end(path, path.len() as int);
    if end <= lead_length(path) {
        None
    } else {
        let name = path.subrange(segment_start(path, end), end);
        if name == seq!['.', '.'] {
            None
        } else {
            Some(name)
        }
    }
}

/// The directory of a path: the path without its last segment that counts
/// and without the passed-over segments before that; empty where the path
/// has no such segment. So `a/b/` has the directory `a`, and `/a` has `/`.
pub open spec fn directory_of(path: Seq<char>) -> Seq<char> {
    let end = trimmed_end(path, path.len() as int);
    if end <= lead_length(path) {
        Seq::empty()
    } else {
        path.take(trimmed_end(path, before_segment(path, segment_start(path, end))))
    }
}

/// Index of the `.` that parts stem and extension in a file name, if it
/// has one: its last `.`, unless that is its first character.
pub open spec fn extension_dot(name: Seq<char>) -> Option<int> {
    let dot = find_last(name, '.', name.len() as int);
    if dot <= 0 {
        None
    } else {
        Some(dot)
    }
}

/// A file name without its extension.
pub open spec fn stem_of(name: Seq<char>) -> Seq<char> {
    match extension_dot(name) {
        Some(dot) => name.take(dot),
        None => name,
    }
}

/// The extension of a file name, without the `.`.
pub open spec fn extension_of(name: Seq<char>) -> Option<Seq<char>> {
    match extension_dot(name) {
        Some(dot) => Some(name.skip(dot + 1)),
        None => None,
    }
}

/// The stem of the file name of a path.
pub open spec fn file_stem_of(path: Seq<char>) -> Option<Seq<char>> {
    match file_name_of(path) {
        Some(name) => Some(stem_of(name)),
        None => None,
    }
}

/// The extension of the file name of a path.
pub open spec fn extension_in(path: Seq<char>) -> Option<Seq<char>> {
    match file_name_of(path) {
        Some(name) => extension_of(name),
        None => None,
    }
}

/// A path with the extension of its file name replaced by `ext`: what
/// follows the stem of the file name goes, and a `.` and `ext` come in its
/// place, or nothing if `ext` is empty. A path without file name stays as
/// it is.
pub open spec fn with_extension(path: Seq<char>, ext: Seq<char>) -> Seq<char> {
    match file_stem_of(path) {
        Some(stem) => {
            let kept = path.take(
                segment_start(path, trimmed_end(path, path.len() as int)) + stem.len(),
            );
            if ext.len() == 0 {
                kept
            } else {
                kept + seq!['.'] + ext
            }
        },
        None => path,
    }
}

/// No `/` stands in `text`.
pub open spec fn has_no_separator(text: Seq<char>) -> bool {
    forall|i: int| 0 <= i < text.len() ==> text[i] != '/'
}

/// Whether `name` can be a file name: it holds no `/` and is neither empty
/// nor `.` nor `..`.
pub open spec fn names_a_file(name: Seq<char>) -> bool {
    name.len() > 0 && name != seq!['.'] && name != seq!['.', '.'] && has_no_separator(name)
}

/// The segments of a path start inside it, and its last segment starts
/// between there and its end and holds no `/`.
pub proof fn segment_bounds(path: Seq<char>, end: int)
    requires
        lead_length(path) <= end <= path.len(),
    ensures
        0 <= lead_length(path) <= segment_start(path, end) <= end,
        has_no_separator(path.subrange(segment_start(path, end), end)),
        segment_start(path, end) > lead_length(path) ==> path[segment_start(path, end) - 1] == '/',
{
    crate::text::find_last_is_last(path, '/', end);
}

/// Trimming a path leaves an end between the start of its segments and the
/// given end, and the segment that ends there, if any, counts.
pub proof fn trimmed_end_bounds(path: Seq<char>, end: int)
    requires
        lead_length(path) <= end <= path.len(),
    ensures
        lead_length(path) <= trimmed_end(path, end) <= end,
        trimmed_end(path, end) > lead_length(path) ==> !is_passed_over(
            path.subrange(segment_start(path, trimmed_end(path, end)), trimmed_end(path, end)),
        ),
    decreases end,
{
    if end > lead_length(path) {
        segment_bounds(path, end);
        let seg = segment_start(path, end);
        if is_passed_over(path.subrange(seg, end)) {
            trimmed_end_bounds(path, before_segment(path, seg));
        }
    }
}

/// The file name of a path can be a file name, and so can its stem; its
/// extension holds no `/`.
pub proof fn file_names_are_plain(path: Seq<char>)
    ensures
        file_name_of(path) matches Some(name) ==> names_a_file(name) && has_no_separator(
            stem_of(name),
        ) && stem_of(name).len() > 0 && (extension_of(name) matches Some(ext)
            ==> has_no_separator(ext)),
{
    trimmed_end_bounds(path, path.len() as int);
    let end = trimmed_end(path, path.len() as int);
    if end > lead_length(path) {
        segment_bounds(path, end);
        let name = path.subrange(segment_start(path, end), end);
        crate::text::find_last_is_last(name, '.', name.len() as int);
    }
}

/// A text that can be a file name is the file name of the path that it is,
/// and of the path that is a directory, a `/` and it; and that path has
/// the directory as its directory, if the directory can be a file name
/// too.
pub proof fn directory_of_a_plain_file(dir: Seq<char>, name: Seq<char>)
    requires
        names_a_file(dir),
        names_a_file(name),
    ensures
        file_name_of(name) == Some(name),
        file_name_of(dir + seq!['/'] + name) == Some(name),
        directory_of(dir + seq!['/'] + name) == dir,
{
    let path = dir + seq!['/'] + name;
    let cut = dir.len() as int;
    let end = path.len() as int;
    assert(lead_length(path) == 0) by {
        if dir.len() == 1 {
            assert(dir[0] != '.') by {
                if dir[0] == '.' {
                    assert(dir =~= seq!['.']);
                }
            }
        }
        assert(path[0] == dir[0]);
    }
    crate::text::find_last_is_last(path, '/', end);
    assert(path[cut] == '/');
    assert(find_last(path, '/', end) == cut) by {
        let found = find_last(path, '/', end);
        if found > cut {
            assert(path[found] == name[found - cut - 1]);
        }
    }
    assert(path.subrange(cut + 1, end) =~= name);
    assert(trimmed_end(path, end) == end);
    crate::text::find_last_is_last(path, '/', cut);
    assert(find_last(path, '/', cut) == -1) by {
        let found = find_last(path, '/', cut);
        if found >= 0 {
            assert(path[found] == dir[found]);
        }
    }
    assert(path.subrange(0, cut) =~= dir);
    assert(trimmed_end(path, cut) == cut);
    assert(path.take(cut) =~= dir);
    // the name alone
    assert(lead_length(name) == 0) by {
        if name.len() == 1 {
            assert(name[0] != '.') by {
                if name[0] == '.' {
                    assert(name =~= seq!['.']);
                }
            }
        }
    }
    crate::text::find_last_is_last(name, '/', name.len() as int);
    assert(find_last(name, '/', name.len() as int) == -1);
    assert(name.subrange(0, name.len() as int) =~= name);
    assert(trimmed_end(name, name.len() as int) == name.len());
}

/// The result of `path_clean::clean` on a path, as text. That function
/// reads a path by the rules of the platform that the library is built for.
pub uninterp spec fn cleaned_path(path: Seq<char>) -> Seq<char>;

/// The result of `pathdiff::diff_paths` on a path and a base, as text.
/// That function reads paths by the rules of the platform that the library
/// is built for.
pub uninterp spec fn path_difference(path: Seq<char>, base: Seq<char>) -> Option<Seq<char>>;

/// The result of `path_slash::PathExt::to_slash_lossy` on a path, as text:
/// the path with the separators of the platform that the library is built
/// for replaced by `/`.
pub uninterp spec fn slash_form(path: Seq<char>) -> Seq<char>;

/// The reference that leads from the directory `base` to `target`, with `/`
/// between its segments, where one can be formed.
pub open spec fn relative_reference(target: Seq<char>, base: Seq<char>) -> Option<Seq<char>> {
    match path_difference(target, base) {
        Some(p) => Some(slash_form(p)),
        None => None,
    }
}

/// The view of an optional string.
pub open spec fn optional_text(s: Option<String>) -> Option<Seq<char>> {
    match s {
        Some(t) => Some(t@),
        None => None,
    }
}

/// A path with its `.` and `..` segments and doubled separators resolved.
///
/// Trusted: calls `path_clean::clean`, which works on the path's text alone
/// and never touches the file system; nothing is claimed of the result but
/// that it is that function's.
#[verifier::external_body]
pub(crate) fn clean_path(path: &str) -> (r: String)
    ensures
        r@ == cleaned_path(path@),
{
    path_clean::clean(path).to_string_lossy().into_owned()
}

/// The relative path from `base` to `path`.
///
/// Trusted: calls `pathdiff::diff_paths`, which compares the two paths
/// segment by segment and returns `None` where no relative path exists;
/// nothing is claimed of the result but that it is that function's.
#[verifier::external_body]
pub(crate) fn diff_paths(path: &str, base: &str) -> (r: Option<String>)
    ensures
        optional_text(r) == path_difference(path@, base@),
{
    pathdiff::diff_paths(path, base).map(|p| p.to_string_lossy().into_owned())
}

/// A path with `/` between its segments.
///
/// Trusted: calls `path_slash::PathExt::to_slash_lossy`, which replaces the
/// platform's separator by `/`; nothing is claimed of the result but that
/// it is that function's.
#[verifier::external_body]
pub(crate) fn to_slash(path: &str) -> (r: String)
    ensures
        r@ == slash_form(path@),
{
    std::path::Path::new(path).to_slash_lossy().into_owned()
}

/// The reference that leads from the directory `base` to `target`.
pub fn relative_path(target: &str, base: &str) -> (r: Option<String>)
    ensures
        optional_text(r) == relative_reference(target@, base@),
{
    match diff_paths(target, base) {
        Some(p) => Some(to_slash(p.as_str())),
        None => None,
    }
}

/// `rel` taken relative to the directory `dir`.
pub fn join_path(dir: &str, rel: &str) -> (r: String)
    ensures
        r@ == joined(dir@, rel@),
{
    let d = chars_of(dir);
    let p = chars_of(rel);
    if p.len() > 0 && p[0] == '/' {
        return string_of(&p);
    }
    let mut out: Vec<char> = Vec::new();
    append_range(&mut out, &d, 0, d.len());
    if d.len() > 0 && d[d.len() - 1] != '/' {
        out.push('/');
    }
    append_range(&mut out, &p, 0, p.len());
    string_of(&out)
}

/// How much of a path stands before its segments.
pub fn length_of_lead(p: &Vec<char>) -> (r: usize)
    ensures
        r == lead_length(p@),
        r <= p.len(),
{
    if p.len() > 0 && (p[0] == '/' || (p[0] == '.' && (p.len() == 1 || p[1] == '/'))) {
        1
    } else {
        0
    }
}

/// Where the last segment of the first `end` characters of a path starts.
pub fn start_of_segment(p: &Vec<char>, end: usize) -> (r: usize)
    requires
        lead_length(p@) <= end <= p.len(),
    ensures
        r == segment_start(p@, end as int),
        lead_length(p@) <= r <= end,
{
    proof {
        segment_bounds(p@, end as int);
    }
    let lead = length_of_lead(p);
    match find_last_char(p, '/', end) {
        Some(cut) => if cut >= lead {
            cut + 1
        } else {
            lead
        },
        None => lead,
    }
}

/// The end of the last segment that counts among the first `end`
/// characters of a path.
pub fn trim_end(p: &Vec<char>, end: usize) -> (r: usize)
    requires
        lead_length(p@) <= end <= p.len(),
    ensures
        r == trimmed_end(p@, end as int),
        lead_length(p@) <= r <= end,
{
    let lead = length_of_lead(p);
    let mut e: usize = end;
    while e > lead
        invariant
            lead == lead_length(p@),
            lead <= e <= end <= p.len(),
            trimmed_end(p@, e as int) == trimmed_end(p@, end as int),
        decreases e,
    {
        let seg = start_of_segment(p, e);
        proof {
            crate::text::find_last_is_last(p@, '/', e as int);
            if e - seg == 1 && p@[seg as int] == '.' {
                assert(p@.subrange(seg as int, e as int) =~= seq!['.']);
            }
            if p@.subrange(seg as int, e as int) == seq!['.'] {
                assert(p@.subrange(seg as int, e as int)[0] == '.');
            }
        }
        if seg == e || (e - seg == 1 && p[seg] == '.') {
            e = if seg > lead {
                seg - 1
            } else {
                seg
            };
        } else {
            return e;
        }
    }
    e
}

/// The bounds of the file name of a path.
pub fn find_file_name(p: &Vec<char>) -> (r: Option<(usize, usize)>)
    ensures
        match r {
            Some((from, to)) => from <= to <= p.len() && file_name_of(p@) == Some(
                p@.subrange(from as int, to as int),
            ) && from == segment_start(p@, trimmed_end(p@, p.len() as int)) && to == trimmed_end(
                p@,
                p.len() as int,
            ),
            None => file_name_of(p@) is None,
        },
{
    let lead = length_of_lead(p);
    let end = trim_end(p, p.len());
    if end <= lead {
        return None;
    }
    let seg = start_of_segment(p, end);
    proof {
        if end - seg == 2 && p@[seg as int] == '.' && p@[seg + 1] == '.' {
            assert(p@.subrange(seg as int, end as int) =~= seq!['.', '.']);
        }
        if p@.subrange(seg as int, end as int) == seq!['.', '.'] {
            assert(p@.subrange(seg as int, end as int)[0] == '.');
            assert(p@.subrange(seg as int, end as int)[1] == '.');
        }
    }
    if end - seg == 2 && p[seg] == '.' && p[seg + 1] == '.' {
        None
    } else {
        Some((seg, end))
    }
}

/// The directory of a path.
pub fn parent_directory(path: &str) -> (r: String)
    ensures
        r@ == directory_of(path@),
{
    let p = chars_of(path);
    let lead = length_of_lead(&p);
    let end = trim_end(&p, p.len());
    if end <= lead {
        return String::new();
    }
    let seg = start_of_segment(&p, end);
    let cut = if seg > lead {
        seg - 1
    } else {
        seg
    };
    let stop = trim_end(&p, cut);
    string_of_range(&p, 0, stop)
}

/// The file name of a path.
pub fn file_name(path: &str) -> (r: Option<String>)
    ensures
        optional_text(r) == file_name_of(path@),
{
    let p = chars_of(path);
    match find_file_name(&p) {
        Some((from, to)) => Some(string_of_range(&p, from, to)),
        None => None,
    }
}

/// Index of the `.` that parts stem and extension in the file name `name`.
pub fn find_extension_dot(name: &Vec<char>) -> (r: Option<usize>)
    ensures
        match r {
            Some(dot) => extension_dot(name@) == Some(dot as int) && 0 < dot < name.len(),
            None => extension_dot(name@) is None,
        },
{
    match find_last_char(name, '.', name.len()) {
        Some(dot) => if dot == 0 {
            None
        } else {
            Some(dot)
        },
        None => None,
    }
}

/// A file name without its extension.
pub fn name_stem(name: &str) -> (r: String)
    ensures
        r@ == stem_of(name@),
{
    let n = chars_of(name);
    match find_extension_dot(&n) {
        Some(dot) => string_of_range(&n, 0, dot),
        None => string_of(&n),
    }
}

/// The extension of a file name, without the `.`.
pub fn name_extension(name: &str) -> (r: Option<String>)
    ensures
        optional_text(r) == extension_of(name@),
{
    let n = chars_of(name);
    match find_extension_dot(&n) {
        Some(dot) => Some(string_of_range(&n, dot + 1, n.len())),
        None => None,
    }
}

/// The stem of the file name of a path.
pub fn file_stem(path: &str) -> (r: Option<String>)
    ensures
        optional_text(r) == file_stem_of(path@),
{
    match file_name(path) {
        Some(name) => Some(name_stem(name.as_str())),
        None => None,
    }
}

/// The extension of the file name of a path.
pub fn file_extension(path: &str) -> (r: Option<String>)
    ensures
        optional_text(r) == extension_in(path@),
{
    match file_name(path) {
        Some(name) => name_extension(name.as_str()),
        None => None,
    }
}

/// A path with the extension of its file name replaced by `ext`.
pub fn set_extension(path: &str, ext: &str) -> (r: String)
    ensures
        r@ == with_extension(path@, ext@),
{
    let p = chars_of(path);
    match find_file_name(&p) {
        Some((from, to)) => {
            let mut name: Vec<char> = Vec::new();
            append_range(&mut name, &p, from, to);
            let stem_len = match find_extension_dot(&name) {
                Some(dot) => dot,
                None => name.len(),
            };
            let mut out: Vec<char> = Vec::new();
            append_range(&mut out, &p, 0, from + stem_len);
            let e = chars_of(ext);
            if e.len() > 0 {
                out.push('.');
                append_range(&mut out, &e, 0, e.len());
            }
            string_of(&out)
        },
        None => path.to_owned(),
    }
}

/// The text `a` followed by the text `b`.
pub fn followed_by(a: &str, b: &str) -> (r: String)
    ensures
        r@ == a@ + b@,
{
    let mut out: Vec<char> = Vec::new();
    append_str(&mut out, a);
    append_str(&mut out, b);
    string_of(&out)
}

} // verus!
