//! The lexical structure of a content document: text, comments,
//! declarations and tags with their attributes.
use crate::text::{ascii_lowered, find_char_from, find_from, find_from_is_first, has_at,
    matches_at};
use vstd::prelude::*;

verus! {

/// Sets of characters at which a scan stops or goes on.
#[derive(Clone, Copy, Debug)]
pub enum CharClass {
    /// White space.
    Space,
    /// What may stand between the attributes of a tag: white space and `/`.
    Gap,
    /// What ends a tag's name: white space, `/` and `>`.
    NameEnd,
    /// What ends an attribute's name: white space, `/`, `>` and `=`.
    AttrNameEnd,
    /// What ends an attribute's value without quotation marks: white space
    /// and `>`.
    ValueEnd,
}

/// The kinds of pieces that a document is made of.
#[derive(Clone, Copy, Debug)]
pub enum Piece {
    /// One character of text.
    Text,
    /// A comment, from `<!--` to `-->`.
    Comment,
    /// A declaration or processing instruction, from `<!` or `<?` to `>`.
    Declaration,
    /// An end tag, from `</` and a letter to `>`.
    EndTag,
    /// A start tag, from `<` and a letter to the `>` outside its attribute
    /// values. A tag that never ends is text.
    StartTag,
}

/// Where the value of an attribute stands.
pub ghost struct ValueSpan {
    /// Start of the value with its quotation marks.
    pub outer_start: int,
    /// End of the value with its quotation marks.
    pub outer_end: int,
    /// Start of the value itself.
    pub inner_start: int,
    /// End of the value itself.
    pub inner_end: int,
}

/// Where the value of an attribute stands.
#[derive(Clone, Copy, Debug)]
pub struct ValueBounds {
    /// Start of the value with its quotation marks.
    pub outer_start: usize,
    /// End of the value with its quotation marks.
    pub outer_end: usize,
    /// Start of the value itself.
    pub inner_start: usize,
    /// End of the value itself.
    pub inner_end: usize,
}

impl View for ValueBounds {
    type V = ValueSpan;

    open spec fn view(&self) -> ValueSpan {
        ValueSpan {
            outer_start: self.outer_start as int,
            outer_end: self.outer_end as int,
            inner_start: self.inner_start as int,
            inner_end: self.inner_end as int,
        }
    }
}

/// The view of optional bounds.
pub open spec fn optional_span(b: Option<ValueBounds>) -> Option<ValueSpan> {
    match b {
        Some(x) => Some(x@),
        None => None,
    }
}

/// Whether a character is white space in markup.
pub open spec fn is_space(c: char) -> bool {
    c == ' ' || c == '\t' || c == '\n' || c == '\r' || c == '\u{c}'
}

/// Whether a character is an ASCII letter.
pub open spec fn is_letter(c: char) -> bool {
    ('a' <= c && c <= 'z') || ('A' <= c && c <= 'Z')
}

/// Whether a character is a quotation mark.
pub open spec fn is_quote_mark(c: char) -> bool {
    c == '"' || c == '\''
}

/// Whether a character belongs to a class.
pub open spec fn in_class(class: CharClass, c: char) -> bool {
    match class {
        CharClass::Space => is_space(c),
        CharClass::Gap => is_space(c) || c == '/',
        CharClass::NameEnd => is_space(c) || c == '/' || c == '>',
        CharClass::AttrNameEnd => is_space(c) || c == '/' || c == '>' || c == '=',
        CharClass::ValueEnd => is_space(c) || c == '>',
    }
}

/// Index of the first character at or after `from` that is in `class`, or
/// `s.len()`.
pub open spec fn first_in(s: Seq<char>, from: int, class: CharClass) -> int
    decreases s.len() - from,
{
    if from < 0 || from >= s.len() {
        s.len() as int
    } else if in_class(class, s[from]) {
        from
    } else {
        first_in(s, from + 1, class)
    }
}

/// Index of the first character at or after `from` that is not in `class`,
/// or `s.len()`.
pub open spec fn first_not_in(s: Seq<char>, from: int, class: CharClass) -> int
    decreases s.len() - from,
{
    if from < 0 || from >= s.len() {
        s.len() as int
    } else if !in_class(class, s[from]) {
        from
    } else {
        first_not_in(s, from + 1, class)
    }
}

/// Index after the first `c` at or after `from`, or `s.len()`.
pub open spec fn after_char(s: Seq<char>, c: char, from: int) -> int {
    let at = find_from(s, c, from);
    if at < s.len() {
        at + 1
    } else {
        s.len() as int
    }
}

/// Index after the first `-->` at or after `from`, or `s.len()`.
pub open spec fn comment_end(s: Seq<char>, from: int) -> int
    decreases s.len() - from,
{
    if from < 0 || from >= s.len() {
        s.len() as int
    } else if has_at(s, from, "-->"@) {
        from + 3
    } else {
        comment_end(s, from + 1)
    }
}

/// Where the name of the attribute that starts at `at` ends. The first
/// character always belongs to the name.
pub open spec fn attr_name_end(s: Seq<char>, at: int) -> int {
    first_in(s, at + 1, CharClass::AttrNameEnd)
}

/// Where the value of an attribute stands whose name ends at `name_end`:
/// after an `=`, between quotation marks of one kind or up to the next
/// white space or `>`. `None` if no `=` follows the name.
pub open spec fn attr_value(s: Seq<char>, name_end: int) -> Option<ValueSpan> {
    let eq = first_not_in(s, name_end, CharClass::Space);
    if eq < s.len() && s[eq] == '=' {
        let v = first_not_in(s, eq + 1, CharClass::Space);
        if v < s.len() && is_quote_mark(s[v]) {
            let close = find_from(s, s[v], v + 1);
            Some(
                ValueSpan {
                    outer_start: v,
                    outer_end: after_char(s, s[v], v + 1),
                    inner_start: v + 1,
                    inner_end: close,
                },
            )
        } else {
            let end = first_in(s, v, CharClass::ValueEnd);
            Some(ValueSpan { outer_start: v, outer_end: end, inner_start: v, inner_end: end })
        }
    } else {
        None
    }
}

/// Where an attribute ends whose name ends at `name_end`.
pub open spec fn attr_end(s: Seq<char>, name_end: int) -> int {
    match attr_value(s, name_end) {
        Some(v) => v.outer_end,
        None => name_end,
    }
}

/// Index after the `>` that ends a start tag whose attributes begin at
/// `from`; `None` if the tag never ends.
pub open spec fn tag_close(s: Seq<char>, from: int) -> Option<int>
    decreases s.len() - from,
{
    let at = first_not_in(s, from, CharClass::Gap);
    if from < 0 || at >= s.len() {
        None
    } else if s[at] == '>' {
        Some(at + 1)
    } else {
        proof {
            scan_bounds(s, from, CharClass::Gap);
            attr_bounds(s, at);
        }
        tag_close(s, attr_end(s, attr_name_end(s, at)))
    }
}

/// Where the value of the first attribute named `name` stands, among the
/// attributes that begin at `from`. Names are compared without regard to
/// the case of ASCII letters; `name` is in lower case.
pub open spec fn find_attr(s: Seq<char>, from: int, name: Seq<char>) -> Option<ValueSpan>
    decreases s.len() - from,
{
    let at = first_not_in(s, from, CharClass::Gap);
    if from < 0 || at >= s.len() || s[at] == '>' {
        None
    } else {
        let name_end = attr_name_end(s, at);
        if ascii_lowered(s.subrange(at, name_end)) == name {
            attr_value(s, name_end)
        } else {
            proof {
                scan_bounds(s, from, CharClass::Gap);
                attr_bounds(s, at);
            }
            find_attr(s, attr_end(s, name_end), name)
        }
    }
}

/// Where the name of the tag that starts at `i` begins.
pub open spec fn tag_name_start(s: Seq<char>, i: int) -> int {
    if 0 <= i && i + 1 < s.len() && s[i + 1] == '/' {
        i + 2
    } else {
        i + 1
    }
}

/// Where the name of the tag that starts at `i` ends.
pub open spec fn tag_name_end(s: Seq<char>, i: int) -> int {
    first_in(s, tag_name_start(s, i), CharClass::NameEnd)
}

/// The name of the tag that starts at `i`, in lower case.
pub open spec fn tag_name(s: Seq<char>, i: int) -> Seq<char> {
    ascii_lowered(s.subrange(tag_name_start(s, i), tag_name_end(s, i)))
}

/// Index after the `>` that ends the end tag at `i`; `None` if it never
/// ends.
pub open spec fn end_tag_end(s: Seq<char>, i: int) -> Option<int> {
    let at = find_from(s, '>', tag_name_end(s, i));
    if at < s.len() {
        Some(at + 1)
    } else {
        None
    }
}

/// Index after the `>` that ends the start tag at `i`; `None` if it never
/// ends.
pub open spec fn start_tag_end(s: Seq<char>, i: int) -> Option<int> {
    tag_close(s, tag_name_end(s, i))
}

/// The kind of the piece that starts at `i`.
pub open spec fn piece_at(s: Seq<char>, i: int) -> Piece {
    if i < 0 || i + 1 >= s.len() || s[i] != '<' {
        Piece::Text
    } else if has_at(s, i, "<!--"@) {
        Piece::Comment
    } else if s[i + 1] == '!' || s[i + 1] == '?' {
        Piece::Declaration
    } else if s[i + 1] == '/' {
        if i + 2 < s.len() && is_letter(s[i + 2]) && end_tag_end(s, i) is Some {
            Piece::EndTag
        } else {
            Piece::Text
        }
    } else if is_letter(s[i + 1]) && start_tag_end(s, i) is Some {
        Piece::StartTag
    } else {
        Piece::Text
    }
}

/// Index after the piece that starts at `i`.
pub open spec fn piece_end(s: Seq<char>, i: int) -> int {
    match piece_at(s, i) {
        Piece::Text => i + 1,
        Piece::Comment => comment_end(s, i + 4),
        Piece::Declaration => after_char(s, '>', i + 2),
        Piece::EndTag => end_tag_end(s, i)->Some_0,
        Piece::StartTag => start_tag_end(s, i)->Some_0,
    }
}

/// Whether the start tag from `i` to `end` closes itself with `/>`.
pub open spec fn closes_itself(s: Seq<char>, i: int, end: int) -> bool {
    i + 2 <= end <= s.len() && s[end - 1] == '>' && s[end - 2] == '/'
}

/// A scan ends at or after its start, inside the text: at the first
/// character that is in the class, or not in it, and at the end of the
/// text if there is none.
pub proof fn scan_bounds(s: Seq<char>, from: int, class: CharClass)
    requires
        0 <= from <= s.len(),
    ensures
        from <= first_in(s, from, class) <= s.len(),
        from <= first_not_in(s, from, class) <= s.len(),
        first_in(s, from, class) < s.len() ==> in_class(class, s[first_in(s, from, class)]),
        first_not_in(s, from, class) < s.len() ==> !in_class(
            class,
            s[first_not_in(s, from, class)],
        ),
        forall|j: int| from <= j < first_in(s, from, class) ==> !in_class(class, s[j]),
        forall|j: int| from <= j < first_not_in(s, from, class) ==> in_class(class, s[j]),
    decreases s.len() - from,
{
    if from < s.len() {
        scan_bounds(s, from + 1, class);
    }
}

/// A comment ends after its start, inside the text: after the first `-->`,
/// and at the end of the text if there is none.
pub proof fn comment_bounds(s: Seq<char>, from: int)
    requires
        0 <= from <= s.len(),
    ensures
        from <= comment_end(s, from) <= s.len(),
        comment_end(s, from) < s.len() ==> has_at(s, comment_end(s, from) - 3, "-->"@),
        forall|j: int| from <= j < comment_end(s, from) - 3 ==> !has_at(s, j, "-->"@),
    decreases s.len() - from,
{
    reveal_strlit("-->");
    if from < s.len() && !has_at(s, from, "-->"@) {
        comment_bounds(s, from + 1);
    }
}

/// The index after a character lies after the start, inside the text.
pub proof fn after_char_bounds(s: Seq<char>, c: char, from: int)
    requires
        0 <= from <= s.len(),
    ensures
        from <= after_char(s, c, from) <= s.len(),
        from < s.len() ==> from < after_char(s, c, from),
{
    find_from_is_first(s, c, from);
}

/// An attribute that starts inside the text ends after its start, and its
/// value lies in it.
pub proof fn attr_bounds(s: Seq<char>, at: int)
    requires
        0 <= at < s.len(),
    ensures
        at < attr_name_end(s, at) <= attr_end(s, attr_name_end(s, at)) <= s.len(),
        attr_value(s, attr_name_end(s, at)) matches Some(v) ==> attr_name_end(s, at)
            < v.outer_start <= v.inner_start <= v.inner_end <= v.outer_end <= s.len(),
{
    let name_end = attr_name_end(s, at);
    scan_bounds(s, at + 1, CharClass::AttrNameEnd);
    scan_bounds(s, name_end, CharClass::Space);
    let eq = first_not_in(s, name_end, CharClass::Space);
    if eq < s.len() && s[eq] == '=' {
        scan_bounds(s, eq + 1, CharClass::Space);
        let v = first_not_in(s, eq + 1, CharClass::Space);
        if v < s.len() && is_quote_mark(s[v]) {
            find_from_is_first(s, s[v], v + 1);
        } else {
            scan_bounds(s, v, CharClass::ValueEnd);
        }
    }
}

/// A start tag ends after the start of its attributes, inside the text.
pub proof fn tag_close_bounds(s: Seq<char>, from: int)
    requires
        0 <= from <= s.len(),
    ensures
        tag_close(s, from) matches Some(end) ==> from < end <= s.len() && s[end - 1] == '>',
    decreases s.len() - from,
{
    scan_bounds(s, from, CharClass::Gap);
    let at = first_not_in(s, from, CharClass::Gap);
    if at < s.len() && s[at] != '>' {
        attr_bounds(s, at);
        tag_close_bounds(s, attr_end(s, attr_name_end(s, at)));
    }
}

/// The value of an attribute of a tag that ends lies between the start of
/// the tag's attributes and the tag's end.
pub proof fn find_attr_bounds(s: Seq<char>, from: int, name: Seq<char>)
    requires
        0 <= from <= s.len(),
        tag_close(s, from) is Some,
    ensures
        find_attr(s, from, name) matches Some(v) ==> from <= v.outer_start <= v.inner_start
            <= v.inner_end <= v.outer_end < tag_close(s, from)->Some_0,
    decreases s.len() - from,
{
    scan_bounds(s, from, CharClass::Gap);
    let at = first_not_in(s, from, CharClass::Gap);
    if at < s.len() && s[at] != '>' {
        attr_bounds(s, at);
        let next = attr_end(s, attr_name_end(s, at));
        tag_close_bounds(s, next);
        if ascii_lowered(s.subrange(at, attr_name_end(s, at))) != name {
            find_attr_bounds(s, next, name);
        }
    }
}

/// A piece that starts inside the text ends after its start, inside the
/// text; the name of a tag lies in it.
pub proof fn piece_bounds(s: Seq<char>, i: int)
    requires
        0 <= i < s.len(),
    ensures
        i < piece_end(s, i) <= s.len(),
        piece_at(s, i) is StartTag || piece_at(s, i) is EndTag ==> i < tag_name_start(s, i)
            < tag_name_end(s, i) < piece_end(s, i),
        piece_at(s, i) is StartTag ==> tag_name_start(s, i) == i + 1 && start_tag_end(s, i)
            == Some(piece_end(s, i)),
        piece_at(s, i) is EndTag ==> tag_name_start(s, i) == i + 2,
{
    reveal_strlit("<!--");
    match piece_at(s, i) {
        Piece::Text => {},
        Piece::Comment => {
            comment_bounds(s, i + 4);
        },
        Piece::Declaration => {
            after_char_bounds(s, '>', i + 2);
        },
        Piece::EndTag => {
            scan_bounds(s, i + 2, CharClass::NameEnd);
            scan_bounds(s, i + 3, CharClass::NameEnd);
            find_from_is_first(s, '>', tag_name_end(s, i));
        },
        Piece::StartTag => {
            scan_bounds(s, i + 1, CharClass::NameEnd);
            scan_bounds(s, i + 2, CharClass::NameEnd);
            tag_close_bounds(s, tag_name_end(s, i));
        },
    }
}

/// Whether a character is white space in markup.
pub fn is_space_char(c: char) -> (r: bool)
    ensures
        r == is_space(c),
{
    c == ' ' || c == '\t' || c == '\n' || c == '\r' || c == '\u{c}'
}

/// Whether a character is an ASCII letter.
pub fn is_letter_char(c: char) -> (r: bool)
    ensures
        r == is_letter(c),
{
    ('a' <= c && c <= 'z') || ('A' <= c && c <= 'Z')
}

/// Whether a character belongs to a class.
pub fn class_has(class: CharClass, c: char) -> (r: bool)
    ensures
        r == in_class(class, c),
{
    match class {
        CharClass::Space => is_space_char(c),
        CharClass::Gap => is_space_char(c) || c == '/',
        CharClass::NameEnd => is_space_char(c) || c == '/' || c == '>',
        CharClass::AttrNameEnd => is_space_char(c) || c == '/' || c == '>' || c == '=',
        CharClass::ValueEnd => is_space_char(c) || c == '>',
    }
}

/// Index of the first character at or after `from` that is in `class`.
pub fn scan_until(s: &Vec<char>, from: usize, class: CharClass) -> (r: usize)
    requires
        from <= s.len(),
    ensures
        r == first_in(s@, from as int, class),
        from <= r <= s.len(),
{
    let mut i: usize = from;
    while i < s.len() && !class_has(class, s[i])
        invariant
            from <= i <= s.len(),
            first_in(s@, i as int, class) == first_in(s@, from as int, class),
        decreases s.len() - i,
    {
        i += 1;
    }
    i
}

/// Index of the first character at or after `from` that is not in `class`.
pub fn scan_while(s: &Vec<char>, from: usize, class: CharClass) -> (r: usize)
    requires
        from <= s.len(),
    ensures
        r == first_not_in(s@, from as int, class),
        from <= r <= s.len(),
{
    let mut i: usize = from;
    while i < s.len() && class_has(class, s[i])
        invariant
            from <= i <= s.len(),
            first_not_in(s@, i as int, class) == first_not_in(s@, from as int, class),
        decreases s.len() - i,
    {
        i += 1;
    }
    i
}

/// Index after the first `c` at or after `from`.
pub fn scan_past(s: &Vec<char>, c: char, from: usize) -> (r: usize)
    requires
        from <= s.len(),
    ensures
        r == after_char(s@, c, from as int),
        from <= r <= s.len(),
{
    let at = find_char_from(s, c, from);
    if at < s.len() {
        at + 1
    } else {
        at
    }
}

/// Index after the first `-->` at or after `from`.
pub fn scan_comment_end(s: &Vec<char>, from: usize) -> (r: usize)
    requires
        from <= s.len(),
    ensures
        r == comment_end(s@, from as int),
        from <= r <= s.len(),
{
    let mut i: usize = from;
    while i < s.len()
        invariant
            from <= i <= s.len(),
            comment_end(s@, i as int) == comment_end(s@, from as int),
        decreases s.len() - i,
    {
        proof {
            reveal_strlit("-->");
        }
        if matches_at(s, i, "-->") {
            return i + 3;
        }
        i += 1;
    }
    i
}

/// Where the value of an attribute stands whose name ends at `name_end`.
pub fn scan_attr_value(s: &Vec<char>, name_end: usize) -> (r: Option<ValueBounds>)
    requires
        name_end <= s.len(),
    ensures
        optional_span(r) == attr_value(s@, name_end as int),
        r matches Some(v) ==> name_end < v.outer_start <= v.inner_start <= v.inner_end
            <= v.outer_end <= s.len(),
{
    let eq = scan_while(s, name_end, CharClass::Space);
    if eq < s.len() && s[eq] == '=' {
        let v = scan_while(s, eq + 1, CharClass::Space);
        if v < s.len() && (s[v] == '"' || s[v] == '\'') {
            let close = find_char_from(s, s[v], v + 1);
            let outer_end = scan_past(s, s[v], v + 1);
            Some(
                ValueBounds { outer_start: v, outer_end, inner_start: v + 1, inner_end: close },
            )
        } else {
            let end = scan_until(s, v, CharClass::ValueEnd);
            Some(ValueBounds { outer_start: v, outer_end: end, inner_start: v, inner_end: end })
        }
    } else {
        None
    }
}

/// Index after the `>` that ends a start tag whose attributes begin at
/// `from`.
pub fn scan_tag_close(s: &Vec<char>, from: usize) -> (r: Option<usize>)
    requires
        from <= s.len(),
    ensures
        match r {
            Some(end) => tag_close(s@, from as int) == Some(end as int) && from < end <= s.len(),
            None => tag_close(s@, from as int) is None,
        },
{
    let mut at: usize = from;
    loop
        invariant
            from <= at <= s.len(),
            tag_close(s@, at as int) == tag_close(s@, from as int),
        decreases s.len() - at,
    {
        let start = scan_while(s, at, CharClass::Gap);
        if start >= s.len() {
            return None;
        }
        if s[start] == '>' {
            return Some(start + 1);
        }
        let name_end = scan_until(s, start + 1, CharClass::AttrNameEnd);
        proof {
            attr_bounds(s@, start as int);
        }
        at = match scan_attr_value(s, name_end) {
            Some(v) => v.outer_end,
            None => name_end,
        };
    }
}

/// Where the value of the first attribute named `name` stands, among the
/// attributes that begin at `from`.
pub fn scan_attr(s: &Vec<char>, from: usize, name: &str) -> (r: Option<ValueBounds>)
    requires
        from <= s.len(),
    ensures
        optional_span(r) == find_attr(s@, from as int, name@),
        r matches Some(v) ==> from <= v.outer_start <= v.inner_start <= v.inner_end
            <= v.outer_end <= s.len(),
        r matches Some(v) ==> (tag_close(s@, from as int) matches Some(end) ==> v.outer_end
            < end),
{
    let mut at: usize = from;
    loop
        invariant
            from <= at <= s.len(),
            find_attr(s@, at as int, name@) == find_attr(s@, from as int, name@),
        decreases s.len() - at,
    {
        let start = scan_while(s, at, CharClass::Gap);
        if start >= s.len() || s[start] == '>' {
            return None;
        }
        let name_end = scan_until(s, start + 1, CharClass::AttrNameEnd);
        proof {
            attr_bounds(s@, start as int);
        }
        let value = scan_attr_value(s, name_end);
        if crate::text::range_is_ignoring_case(s, start, name_end, name) {
            proof {
                if tag_close(s@, from as int) is Some {
                    find_attr_bounds(s@, from as int, name@);
                }
            }
            return value;
        }
        at = match value {
            Some(v) => v.outer_end,
            None => name_end,
        };
    }
}

/// The kind of the piece that starts at `i`, and the index after it.
pub fn scan_piece(s: &Vec<char>, i: usize) -> (r: (Piece, usize))
    requires
        i < s.len(),
    ensures
        r.0 == piece_at(s@, i as int),
        r.1 == piece_end(s@, i as int),
        i < r.1 <= s.len(),
{
    proof {
        piece_bounds(s@, i as int);
        reveal_strlit("<!--");
    }
    if s[i] != '<' || s.len() - i < 2 {
        return (Piece::Text, i + 1);
    }
    if matches_at(s, i, "<!--") {
        return (Piece::Comment, scan_comment_end(s, i + 4));
    }
    let next = s[i + 1];
    if next == '!' || next == '?' {
        (Piece::Declaration, scan_past(s, '>', i + 2))
    } else if next == '/' {
        if s.len() - i > 2 && is_letter_char(s[i + 2]) {
            let name_end = scan_until(s, i + 2, CharClass::NameEnd);
            let at = find_char_from(s, '>', name_end);
            if at < s.len() {
                return (Piece::EndTag, at + 1);
            }
        }
        (Piece::Text, i + 1)
    } else if is_letter_char(next) {
        let name_end = scan_until(s, i + 1, CharClass::NameEnd);
        match scan_tag_close(s, name_end) {
            Some(end) => (Piece::StartTag, end),
            None => (Piece::Text, i + 1),
        }
    } else {
        (Piece::Text, i + 1)
    }
}

/// Whether the tag that starts at `i` has the name `word`, which is in
/// lower case.
pub fn tag_is_named(s: &Vec<char>, i: usize, kind: Piece, word: &str) -> (r: bool)
    requires
        i < s.len(),
        kind == piece_at(s@, i as int),
        kind is StartTag || kind is EndTag,
    ensures
        r == (tag_name(s@, i as int) == word@),
{
    proof {
        piece_bounds(s@, i as int);
    }
    let start = match kind {
        Piece::EndTag => i + 2,
        _ => i + 1,
    };
    let end = scan_until(s, start, CharClass::NameEnd);
    crate::text::range_is_ignoring_case(s, start, end, word)
}

} // verus!
