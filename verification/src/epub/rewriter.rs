//! Keys of the path map, and the rewriting of one reference.
use crate::epub::path_map::PathMap;
use crate::paths::{clean_path, cleaned_path, directory_of, extension_in, file_extension,
    followed_by, join_path, joined, optional_text, parent_directory,
    relative_path, relative_reference, slash_form, to_slash};
use crate::text::{ascii_lowered, chars_of, find_char_from, find_from, string_of_range};
use vstd::prelude::*;
use vstd::utf8::{decode_utf8, encode_utf8, encode_utf8_decode_utf8, encode_utf8_valid_utf8,
    is_ascii_chars, is_ascii_chars_encode_utf8, valid_utf8};

verus! {

/// The result of `str::to_lowercase` on a text that is not all ASCII.
pub uninterp spec fn unicode_lowered(text: Seq<char>) -> Seq<char>;

/// Whether a character is a hexadecimal digit.
pub open spec fn is_hex_digit(c: char) -> bool {
    ('0' <= c && c <= '9') || ('a' <= c && c <= 'f') || ('A' <= c && c <= 'F')
}

/// Whether an escape stands at index `i` of a text: a `%` and two
/// hexadecimal digits.
pub open spec fn escape_at(text: Seq<char>, i: int) -> bool {
    0 <= i && i + 2 < text.len() && text[i] == '%' && is_hex_digit(text[i + 1]) && is_hex_digit(
        text[i + 2],
    )
}

/// Whether a text holds an escape.
pub open spec fn has_escape(text: Seq<char>) -> bool {
    exists|i: int| escape_at(text, i)
}

/// Whether a byte is a hexadecimal digit.
pub open spec fn is_hex_byte(b: u8) -> bool {
    (0x30 <= b && b <= 0x39) || (0x41 <= b && b <= 0x46) || (0x61 <= b && b <= 0x66)
}

/// The number that a hexadecimal digit stands for.
pub open spec fn hex_value(b: u8) -> int {
    if b <= 0x39 {
        b - 0x30
    } else if b <= 0x46 {
        b - 0x41 + 10
    } else {
        b - 0x61 + 10
    }
}

/// Whether an escape stands at index `i` of bytes: a `%` and two
/// hexadecimal digits.
pub open spec fn byte_escape_at(bytes: Seq<u8>, i: int) -> bool {
    0 <= i && i + 2 < bytes.len() && bytes[i] == 0x25 && is_hex_byte(bytes[i + 1])
        && is_hex_byte(bytes[i + 2])
}

/// Bytes with their percent escapes decoded, from left to right: each `%`
/// that two hexadecimal digits follow gives, together with them, the one
/// byte that the digits spell; every other byte stays.
pub open spec fn decoded_bytes(bytes: Seq<u8>) -> Seq<u8>
    decreases bytes.len(),
{
    if bytes.len() == 0 {
        Seq::empty()
    } else if byte_escape_at(bytes, 0) {
        seq![(hex_value(bytes[1]) * 16 + hex_value(bytes[2])) as u8] + decoded_bytes(
            bytes.skip(3),
        )
    } else {
        seq![bytes[0]] + decoded_bytes(bytes.skip(1))
    }
}

/// A text with its percent escapes decoded: the text that the decoded
/// bytes of its UTF-8 form encode, or `None` where they encode none.
pub open spec fn percent_decoded(text: Seq<char>) -> Option<Seq<char>> {
    let bytes = decoded_bytes(encode_utf8(text));
    if valid_utf8(bytes) {
        Some(decode_utf8(bytes))
    } else {
        None
    }
}

/// A text in lower case. On ASCII text only the letters `A` to `Z` change.
pub open spec fn lowercased(text: Seq<char>) -> Seq<char> {
    if is_ascii_chars(text) {
        ascii_lowered(text)
    } else {
        unicode_lowered(text)
    }
}

/// A text with its percent escapes decoded; the text itself where the
/// decoding fails.
pub open spec fn decoded_or_same(text: Seq<char>) -> Seq<char> {
    match percent_decoded(text) {
        Some(d) => d,
        None => text,
    }
}

/// One round of normalizing: a text percent-decoded, then in lower case.
pub open spec fn normalized_once(text: Seq<char>) -> Seq<char> {
    lowercased(decoded_or_same(text))
}

/// Whether a text is settled: decoding leaves it as it is, and so does
/// lower-casing.
pub open spec fn is_settled(text: Seq<char>) -> bool {
    decoded_or_same(text) == text && lowercased(text) == text
}

/// A text normalized round by round until it is settled. Each round that
/// decodes an escape makes the text shorter, so the rounds come to an end;
/// they are counted, and a text that were not settled when `rounds` rounds
/// are used up would give the empty text, which is settled.
pub open spec fn settled(text: Seq<char>, rounds: nat) -> Seq<char>
    decreases rounds,
{
    if is_settled(text) {
        text
    } else if rounds == 0 {
        Seq::empty()
    } else {
        settled(normalized_once(text), (rounds - 1) as nat)
    }
}

/// The key under which a reference is looked up: the reference
/// percent-decoded and put in lower case, again and again until both leave
/// it as it is, so that `%2541` has the key `a`. The rounds are bounded by
/// the length of the reference: no more than one round for each of its
/// characters.
pub open spec fn normalized_key(reference: Seq<char>) -> Seq<char> {
    settled(reference, reference.len())
}

/// Decodes the percent escapes of a text.
///
/// Trusted: calls `urlencoding::decode`, which goes through the bytes of
/// the text from left to right, replaces each `%` that two hexadecimal
/// digits follow, together with them, by the byte that the digits spell,
/// copies every other byte, and returns the text that the bytes encode, or
/// an error where they are not UTF-8.
#[verifier::external_body]
pub(crate) fn percent_decode(text: &str) -> (r: Option<String>)
    ensures
        optional_text(r) == percent_decoded(text@),
{
    urlencoding::decode(text).ok().map(|s| s.into_owned())
}

/// The lower-case form of a text.
///
/// Trusted: calls `str::to_lowercase`. On ASCII text that function changes
/// the letters `A` to `Z` into `a` to `z` and nothing else; for other text
/// nothing is claimed but that the result is that function's.
#[verifier::external_body]
pub(crate) fn to_lowercase(text: &str) -> (r: String)
    ensures
        r@ == if is_ascii_chars(text@) {
            ascii_lowered(text@)
        } else {
            unicode_lowered(text@)
        },
{
    text.to_lowercase()
}

/// Chooses between a text and its decoding: the decoded text where there
/// is one, else the text as it was.
pub fn decoded_or_raw(raw: &str, decoded: Option<String>) -> (r: String)
    ensures
        r@ == match decoded {
            Some(d) => d@,
            None => raw@,
        },
{
    match decoded {
        Some(d) => d,
        None => raw.to_owned(),
    }
}

/// The key under which `path_str` is looked up in a path map. Every key is
/// settled: normalizing it again gives the key itself.
pub fn normalize_path_key(path_str: &str) -> (r: String)
    ensures
        r@ == normalized_key(path_str@),
        is_settled(r@),
        normalized_key(r@) == r@,
{
    let mut text = path_str.to_owned();
    let mut rounds: usize = chars_of(path_str).len();
    loop
        invariant
            settled(text@, rounds as nat) == normalized_key(path_str@),
        decreases rounds,
    {
        proof {
            keys_are_settled(path_str@);
        }
        let decoded = decoded_or_raw(text.as_str(), percent_decode(text.as_str()));
        let lowered = to_lowercase(decoded.as_str());
        if decoded == text && lowered == text {
            return text;
        }
        if rounds == 0 {
            return String::new();
        }
        text = lowered;
        rounds -= 1;
    }
}

/// Bytes without escape are their own decoding.
pub proof fn bytes_without_escape_stay(bytes: Seq<u8>)
    requires
        forall|i: int| !#[trigger] byte_escape_at(bytes, i),
    ensures
        decoded_bytes(bytes) == bytes,
    decreases bytes.len(),
{
    if bytes.len() > 0 {
        assert(!byte_escape_at(bytes, 0));
        let rest = bytes.skip(1);
        assert forall|i: int| !#[trigger] byte_escape_at(rest, i) by {
            if byte_escape_at(rest, i) {
                assert(byte_escape_at(bytes, i + 1));
            }
        }
        bytes_without_escape_stay(rest);
        assert(seq![bytes[0]] + rest =~= bytes);
    }
}

/// An ASCII text without escape is its own decoding: a `%` that no two
/// hexadecimal digits follow stays.
pub proof fn plain_text_decodes_to_itself(text: Seq<char>)
    requires
        is_ascii_chars(text),
        !has_escape(text),
    ensures
        percent_decoded(text) == Some(text),
        decoded_or_same(text) == text,
{
    let bytes = encode_utf8(text);
    is_ascii_chars_encode_utf8(text);
    assert forall|i: int| !#[trigger] byte_escape_at(bytes, i) by {
        if byte_escape_at(bytes, i) {
            assert(text[i] as u8 == bytes[i]);
            assert(text[i + 1] as u8 == bytes[i + 1]);
            assert(text[i + 2] as u8 == bytes[i + 2]);
            assert('\0' <= text[i] <= '\u{7f}');
            assert('\0' <= text[i + 1] <= '\u{7f}');
            assert('\0' <= text[i + 2] <= '\u{7f}');
            assert(escape_at(text, i));
        }
    }
    bytes_without_escape_stay(bytes);
    encode_utf8_valid_utf8(text);
    encode_utf8_decode_utf8(text);
}

/// Bytes that hold no `%` stay when what they stand before is decoded.
pub proof fn bytes_before_an_escape_stay(first: Seq<u8>, rest: Seq<u8>)
    requires
        forall|i: int| 0 <= i < first.len() ==> first[i] != 0x25,
    ensures
        decoded_bytes(first + rest) == first + decoded_bytes(rest),
    decreases first.len(),
{
    if first.len() == 0 {
        assert(first + rest =~= rest);
        assert(first + decoded_bytes(rest) =~= decoded_bytes(rest));
    } else {
        let all = first + rest;
        assert(all[0] == first[0]);
        assert(!byte_escape_at(all, 0));
        assert(all.skip(1) =~= first.skip(1) + rest);
        bytes_before_an_escape_stay(first.skip(1), rest);
        assert(seq![all[0]] + (first.skip(1) + decoded_bytes(rest)) =~= first + decoded_bytes(
            rest,
        ));
    }
}

/// The character that two hexadecimal digits spell, where they spell an
/// ASCII character.
pub open spec fn spelled(hi: char, lo: char) -> char {
    ((hex_value(hi as u8) * 16 + hex_value(lo as u8)) as u8) as char
}

/// An escape that spells an ASCII character stands for that character: in
/// ASCII text with no `%` before the escape and no escape after it, the
/// decoding puts the character in the place of the escape and leaves the
/// rest as it is.
pub proof fn an_escape_stands_for_its_character(
    before: Seq<char>,
    hi: char,
    lo: char,
    after: Seq<char>,
)
    requires
        is_ascii_chars(before),
        !before.contains('%'),
        is_ascii_chars(after),
        !has_escape(after),
        is_hex_digit(hi),
        is_hex_digit(lo),
        hex_value(hi as u8) * 16 + hex_value(lo as u8) < 128,
    ensures
        percent_decoded(before + seq!['%', hi, lo] + after) == Some(
            before + seq![spelled(hi, lo)] + after,
        ),
        is_ascii_chars(before + seq![spelled(hi, lo)] + after),
{
    let escape = seq!['%', hi, lo];
    let text = before + escape + after;
    let c = spelled(hi, lo);
    let plain = before + seq![c] + after;
    let value = (hex_value(hi as u8) * 16 + hex_value(lo as u8)) as u8;
    assert(is_ascii_chars(text)) by {
        assert forall|i: int| 0 <= i < text.len() implies '\0' <= #[trigger] text[i]
            <= '\u{7f}' by {
            if i < before.len() {
                assert(text[i] == before[i]);
            } else if i < before.len() + 3 {
                assert(text[i] == escape[i - before.len()]);
            } else {
                assert(text[i] == after[i - before.len() - 3]);
            }
        }
    }
    assert(is_ascii_chars(plain)) by {
        assert forall|i: int| 0 <= i < plain.len() implies '\0' <= #[trigger] plain[i]
            <= '\u{7f}' by {
            if i < before.len() {
                assert(plain[i] == before[i]);
            } else if i < before.len() + 1 {
                assert(plain[i] == c);
            } else {
                assert(plain[i] == after[i - before.len() - 1]);
            }
        }
    }
    is_ascii_chars_encode_utf8(text);
    is_ascii_chars_encode_utf8(plain);
    is_ascii_chars_encode_utf8(before);
    is_ascii_chars_encode_utf8(after);
    let first = encode_utf8(before);
    let last = encode_utf8(after);
    let coded = seq![0x25u8, hi as u8, lo as u8];
    assert(encode_utf8(text) =~= first + (coded + last)) by {
        assert forall|i: int| 0 <= i < text.len() implies encode_utf8(text)[i] == (first + (coded
            + last))[i] by {
            assert(text[i] as u8 == encode_utf8(text)[i]);
            if i < before.len() {
                assert(text[i] == before[i]);
                assert(before[i] as u8 == first[i]);
            } else if i < before.len() + 3 {
                assert(text[i] == escape[i - before.len()]);
            } else {
                assert(text[i] == after[i - before.len() - 3]);
                assert(after[i - before.len() - 3] as u8 == last[i - before.len() - 3]);
            }
        }
    }
    assert forall|i: int| 0 <= i < first.len() implies first[i] != 0x25 by {
        assert(before[i] as u8 == first[i]);
        assert('\0' <= before[i] <= '\u{7f}');
        if first[i] == 0x25 {
            assert(before[i] == '%');
        }
    }
    bytes_before_an_escape_stay(first, coded + last);
    assert(byte_escape_at(coded + last, 0));
    assert((coded + last).skip(3) =~= last);
    assert forall|i: int| !#[trigger] byte_escape_at(last, i) by {
        if byte_escape_at(last, i) {
            assert(after[i] as u8 == last[i]);
            assert(after[i + 1] as u8 == last[i + 1]);
            assert(after[i + 2] as u8 == last[i + 2]);
            assert('\0' <= after[i] <= '\u{7f}');
            assert('\0' <= after[i + 1] <= '\u{7f}');
            assert('\0' <= after[i + 2] <= '\u{7f}');
            assert(escape_at(after, i));
        }
    }
    bytes_without_escape_stay(last);
    assert(decoded_bytes(coded + last) == seq![value] + last);
    assert(decoded_bytes(encode_utf8(text)) =~= first + (seq![value] + last));
    assert(encode_utf8(plain) =~= first + (seq![value] + last)) by {
        assert forall|i: int| 0 <= i < plain.len() implies encode_utf8(plain)[i] == (first + (
        seq![value] + last))[i] by {
            assert(plain[i] as u8 == encode_utf8(plain)[i]);
            if i < before.len() {
                assert(plain[i] == before[i]);
                assert(before[i] as u8 == first[i]);
            } else if i < before.len() + 1 {
                assert(plain[i] == c);
            } else {
                assert(plain[i] == after[i - before.len() - 1]);
                assert(after[i - before.len() - 1] as u8 == last[i - before.len() - 1]);
            }
        }
    }
    encode_utf8_valid_utf8(plain);
    encode_utf8_decode_utf8(plain);
}

/// Lowering ASCII text twice is lowering it once, and lowering keeps ASCII
/// text ASCII and adds no escape.
pub proof fn ascii_lowering_is_stable(text: Seq<char>)
    requires
        is_ascii_chars(text),
    ensures
        is_ascii_chars(ascii_lowered(text)),
        ascii_lowered(ascii_lowered(text)) == ascii_lowered(text),
        has_escape(ascii_lowered(text)) ==> has_escape(text),
{
    let low = ascii_lowered(text);
    if has_escape(low) {
        let i = choose|i: int| escape_at(low, i);
        assert(escape_at(text, i));
    }
}

/// Whatever a text settles to is settled, however many rounds are given.
pub proof fn settling_ends_settled(text: Seq<char>, rounds: nat)
    ensures
        is_settled(settled(text, rounds)),
    decreases rounds,
{
    if is_settled(text) {
    } else if rounds == 0 {
        let empty = Seq::<char>::empty();
        assert(!has_escape(empty));
        plain_text_decodes_to_itself(empty);
        assert(ascii_lowered(empty) =~= empty);
    } else {
        settling_ends_settled(normalized_once(text), (rounds - 1) as nat);
    }
}

/// Normalization is idempotent: the key of every reference is settled, and
/// the key of a key is that key. So a key holds no escape that decodes, and
/// it is its own lower-case form.
pub proof fn keys_are_settled(reference: Seq<char>)
    ensures
        is_settled(normalized_key(reference)),
        normalized_key(normalized_key(reference)) == normalized_key(reference),
{
    settling_ends_settled(reference, reference.len());
}

/// The key of an ASCII reference without escape is the reference with its
/// letters `A` to `Z` in lower case.
pub proof fn ascii_keys_are_lowered(reference: Seq<char>)
    requires
        is_ascii_chars(reference),
        !has_escape(reference),
    ensures
        normalized_key(reference) == ascii_lowered(reference),
{
    ascii_lowering_is_stable(reference);
    let low = ascii_lowered(reference);
    plain_text_decodes_to_itself(reference);
    plain_text_decodes_to_itself(low);
    assert(decoded_or_same(reference) == reference);
    assert(normalized_once(reference) == low);
    assert(is_settled(low));
    if is_settled(reference) {
        assert(reference == low);
    } else if reference.len() == 0 {
        assert(low =~= reference);
    } else {
        assert(settled(low, (reference.len() - 1) as nat) == low);
    }
}

/// Keys do not tell an escaped character from the character itself: an
/// ASCII reference in which one ASCII character is escaped has the key of
/// the reference with the character in the place of the escape, where
/// that reference holds no escape.
pub proof fn keys_ignore_an_escape(before: Seq<char>, hi: char, lo: char, after: Seq<char>)
    requires
        is_ascii_chars(before),
        !before.contains('%'),
        is_ascii_chars(after),
        !has_escape(after),
        is_hex_digit(hi),
        is_hex_digit(lo),
        hex_value(hi as u8) * 16 + hex_value(lo as u8) < 128,
        !has_escape(before + seq![spelled(hi, lo)] + after),
    ensures
        normalized_key(before + seq!['%', hi, lo] + after) == normalized_key(
            before + seq![spelled(hi, lo)] + after,
        ),
{
    let escaped = before + seq!['%', hi, lo] + after;
    let plain = before + seq![spelled(hi, lo)] + after;
    an_escape_stands_for_its_character(before, hi, lo, after);
    ascii_keys_are_lowered(plain);
    ascii_lowering_is_stable(plain);
    let low = ascii_lowered(plain);
    plain_text_decodes_to_itself(low);
    assert(escaped.len() == plain.len() + 2);
    assert(decoded_or_same(escaped) == plain);
    assert(!is_settled(escaped));
    assert(normalized_once(escaped) == low);
    assert(is_settled(low));
    assert(settled(low, (escaped.len() - 1) as nat) == low);
}

/// Two ASCII references without escape that differ only in the case of
/// letters have the same key.
pub proof fn keys_ignore_ascii_case(a: Seq<char>, b: Seq<char>)
    requires
        is_ascii_chars(a),
        is_ascii_chars(b),
        !has_escape(a),
        !has_escape(b),
        ascii_lowered(a) == ascii_lowered(b),
    ensures
        normalized_key(a) == normalized_key(b),
{
    ascii_keys_are_lowered(a);
    ascii_keys_are_lowered(b);
}

/// Whether a reference is left alone: it names a place in the same
/// document, starts at the root, or holds a scheme's colon.
pub open spec fn is_external(link: Seq<char>) -> bool {
    (link.len() > 0 && (link[0] == '#' || link[0] == '/')) || link.contains(':')
}

/// Where the fragment of a reference starts: at its first `#`, or at its
/// end if it has none.
pub open spec fn fragment_start(link: Seq<char>) -> int {
    find_from(link, '#', 0)
}

/// The part of a reference that names a path.
pub open spec fn path_part(link: Seq<char>) -> Seq<char> {
    link.take(fragment_start(link))
}

/// The fragment of a reference with its `#`; empty if it has none.
pub open spec fn fragment_part(link: Seq<char>) -> Seq<char> {
    link.skip(fragment_start(link))
}

/// The key of the resource that `link` names when it stands in a document
/// of the directory `source_dir`.
pub open spec fn lookup_key(link: Seq<char>, source_dir: Seq<char>) -> Seq<char> {
    normalized_key(slash_form(cleaned_path(joined(source_dir, decoded_or_same(path_part(link))))))
}

/// Whether a reference names a font file: the extension of the file name
/// of its path part is `ttf`, `otf`, `woff` or `woff2`.
pub open spec fn names_a_font(link: Seq<char>) -> bool {
    match extension_in(path_part(link)) {
        Some(ext) => ext == "ttf"@ || ext == "otf"@ || ext == "woff"@ || ext == "woff2"@,
        None => false,
    }
}

/// What `link` becomes once the key of its target is known: the reference
/// from the directory of `source_site_path` to the target's destination,
/// followed by the fragment; `None` where the link is left alone, the key
/// has no destination, or no relative reference exists.
pub open spec fn rewritten_for_key(
    link: Seq<char>,
    key: Seq<char>,
    source_site_path: Seq<char>,
    map: Map<Seq<char>, Seq<char>>,
) -> Option<Seq<char>> {
    if is_external(link) || !map.contains_key(key) {
        None
    } else {
        match relative_reference(map[key], directory_of(source_site_path)) {
            Some(rel) => Some(rel + fragment_part(link)),
            None => None,
        }
    }
}

/// What `link` becomes when it stands in a document of the archive
/// directory `source_dir` whose page is `source_site_path`.
pub open spec fn rewritten_link(
    link: Seq<char>,
    source_dir: Seq<char>,
    source_site_path: Seq<char>,
    map: Map<Seq<char>, Seq<char>>,
) -> Option<Seq<char>> {
    rewritten_for_key(link, lookup_key(link, source_dir), source_site_path, map)
}

/// Whether a warning is due for `link`: it is not left alone, it could not
/// be rewritten, and it does not name a font.
pub open spec fn warning_is_due(
    link: Seq<char>,
    key: Seq<char>,
    source_site_path: Seq<char>,
    map: Map<Seq<char>, Seq<char>>,
) -> bool {
    !is_external(link) && rewritten_for_key(link, key, source_site_path, map) is None
        && !names_a_font(link)
}

/// A reference that could not be resolved.
#[derive(Debug)]
pub struct Diagnostic {
    /// The reference as it stands in the document.
    pub link: String,
    /// The key that was looked up.
    pub key: String,
    /// The archive directory of the document that holds the reference.
    pub source_dir: String,
}

/// The texts of a `Diagnostic`.
pub ghost struct DiagnosticText {
    pub link: Seq<char>,
    pub key: Seq<char>,
    pub source_dir: Seq<char>,
}

impl View for Diagnostic {
    type V = DiagnosticText;

    open spec fn view(&self) -> DiagnosticText {
        DiagnosticText { link: self.link@, key: self.key@, source_dir: self.source_dir@ }
    }
}

/// The warning that describes an unresolved reference.
pub open spec fn warning_text(d: DiagnosticText) -> Seq<char> {
    "⚠️  Could not resolve link '"@ + d.link + "' (normalized to '"@ + d.key + "') from asset '"@
        + d.source_dir + "'"@
}

impl Diagnostic {
    /// The warning that describes this unresolved reference.
    pub fn message(&self) -> (r: String)
        ensures
            r@ == warning_text(self@),
    {
        let a = followed_by("⚠️  Could not resolve link '", self.link.as_str());
        let b = followed_by(a.as_str(), "' (normalized to '");
        let c = followed_by(b.as_str(), self.key.as_str());
        let d = followed_by(c.as_str(), "') from asset '");
        let e = followed_by(d.as_str(), self.source_dir.as_str());
        followed_by(e.as_str(), "'")
    }
}

/// The outcome of resolving one reference.
#[derive(Debug)]
pub struct Resolution {
    /// The reference to put in its place, if it is to be replaced.
    pub rewritten: Option<String>,
    /// The warning to give, if one is due.
    pub diagnostic: Option<Diagnostic>,
}

/// The view of an optional diagnostic.
pub open spec fn optional_diagnostic(d: Option<Diagnostic>) -> Option<DiagnosticText> {
    match d {
        Some(x) => Some(x@),
        None => None,
    }
}

/// The warning for `link`, where one is due.
pub open spec fn warning_for_key(
    link: Seq<char>,
    key: Seq<char>,
    source_dir: Seq<char>,
    source_site_path: Seq<char>,
    map: Map<Seq<char>, Seq<char>>,
) -> Option<DiagnosticText> {
    if warning_is_due(link, key, source_site_path, map) {
        Some(DiagnosticText { link, key, source_dir })
    } else {
        None
    }
}

/// The warning for `link` in a document of the directory `source_dir`.
pub open spec fn warning_for(
    link: Seq<char>,
    source_dir: Seq<char>,
    source_site_path: Seq<char>,
    map: Map<Seq<char>, Seq<char>>,
) -> Option<DiagnosticText> {
    warning_for_key(link, lookup_key(link, source_dir), source_dir, source_site_path, map)
}

/// Whether a reference is left alone.
pub fn is_external_reference(link: &str) -> (r: bool)
    ensures
        r == is_external(link@),
{
    let l = chars_of(link);
    if l.len() > 0 && (l[0] == '#' || l[0] == '/') {
        return true;
    }
    let colon = find_char_from(&l, ':', 0);
    proof {
        crate::text::find_from_is_first(l@, ':', 0);
    }
    colon < l.len()
}

/// Splits a reference at its first `#` into the part that names a path and
/// the fragment, which keeps its `#`.
pub fn split_reference(link: &str) -> (r: (String, String))
    ensures
        r.0@ == path_part(link@),
        r.1@ == fragment_part(link@),
{
    let l = chars_of(link);
    let cut = find_char_from(&l, '#', 0);
    (string_of_range(&l, 0, cut), string_of_range(&l, cut, l.len()))
}

/// Whether a reference names a font file.
pub fn is_font_reference(link: &str) -> (r: bool)
    ensures
        r == names_a_font(link@),
{
    let parts = split_reference(link);
    match file_extension(parts.0.as_str()) {
        Some(ext) => {
            let e = chars_of(ext.as_str());
            let n = e.len();
            assert(e@.subrange(0, n as int) =~= e@);
            crate::text::range_is(&e, 0, n, "ttf") || crate::text::range_is(&e, 0, n, "otf")
                || crate::text::range_is(&e, 0, n, "woff") || crate::text::range_is(
                &e,
                0,
                n,
                "woff2",
            )
        },
        None => false,
    }
}

/// The key of the resource that `link` names when it stands in a document
/// of the archive directory `source_dir`.
pub fn link_key(link: &str, source_dir: &str) -> (r: String)
    ensures
        r@ == lookup_key(link@, source_dir@),
{
    let parts = split_reference(link);
    let decoded = decoded_or_raw(parts.0.as_str(), percent_decode(parts.0.as_str()));
    let resolved = join_path(source_dir, decoded.as_str());
    let cleaned = clean_path(resolved.as_str());
    let slashed = to_slash(cleaned.as_str());
    normalize_path_key(slashed.as_str())
}

/// Resolves `link` once the key of its target is known.
pub fn resolve_with_key(
    link: &str,
    key: String,
    source_dir: &str,
    source_site_path: &str,
    path_map: &PathMap,
) -> (r: Resolution)
    ensures
        optional_text(r.rewritten) == rewritten_for_key(
            link@,
            key@,
            source_site_path@,
            path_map@,
        ),
        optional_diagnostic(r.diagnostic) == warning_for_key(
            link@,
            key@,
            source_dir@,
            source_site_path@,
            path_map@,
        ),
{
    if is_external_reference(link) {
        return Resolution { rewritten: None, diagnostic: None };
    }
    let mut rewritten: Option<String> = None;
    match path_map.get(key.as_str()) {
        Some(target) => {
            let site_dir = parent_directory(source_site_path);
            match relative_path(target.as_str(), site_dir.as_str()) {
                Some(rel) => {
                    let parts = split_reference(link);
                    rewritten = Some(followed_by(rel.as_str(), parts.1.as_str()));
                },
                None => {},
            }
        },
        None => {},
    }
    if rewritten.is_some() || is_font_reference(link) {
        Resolution { rewritten, diagnostic: None }
    } else {
        Resolution {
            rewritten: None,
            diagnostic: Some(
                Diagnostic { link: link.to_owned(), key, source_dir: source_dir.to_owned() },
            ),
        }
    }
}

/// Resolves one reference found in a document: what to put in its place,
/// and the warning to give where it could not be resolved.
pub fn resolve_link(
    original_link: &str,
    source_epub_dir: &str,
    source_site_path: &str,
    path_map: &PathMap,
) -> (r: Resolution)
    ensures
        optional_text(r.rewritten) == rewritten_link(
            original_link@,
            source_epub_dir@,
            source_site_path@,
            path_map@,
        ),
        optional_diagnostic(r.diagnostic) == warning_for(
            original_link@,
            source_epub_dir@,
            source_site_path@,
            path_map@,
        ),
        is_external(original_link@) ==> r.rewritten is None && r.diagnostic is None,
        r.rewritten is Some ==> r.diagnostic is None,
        names_a_font(original_link@) ==> r.diagnostic is None,
{
    let key = link_key(original_link, source_epub_dir);
    resolve_with_key(original_link, key, source_epub_dir, source_site_path, path_map)
}

/// Rewrites a reference from its place in the archive to its place in the
/// site. `None` means that the reference stays as it is: always so for one
/// that starts with `#` or `/` or holds a `:`, whatever the map holds.
pub fn rewrite_link(
    original_link: &str,
    source_epub_dir: &str,
    source_site_path: &str,
    path_map: &PathMap,
) -> (r: Option<String>)
    ensures
        optional_text(r) == rewritten_link(
            original_link@,
            source_epub_dir@,
            source_site_path@,
            path_map@,
        ),
        is_external(original_link@) ==> r is None,
        r matches Some(out) ==> has_suffix(out@, fragment_part(original_link@)),
{
    let r = resolve_link(original_link, source_epub_dir, source_site_path, path_map).rewritten;
    proof {
        if r is Some {
            let out = r->Some_0@;
            let frag = fragment_part(original_link@);
            assert(out.skip(out.len() - frag.len()) =~= frag);
        }
    }
    r
}

/// `text` ends with `suffix`.
pub open spec fn has_suffix(text: Seq<char>, suffix: Seq<char>) -> bool {
    suffix.len() <= text.len() && text.skip(text.len() - suffix.len()) == suffix
}

} // verus!
