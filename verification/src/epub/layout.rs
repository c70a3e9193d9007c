//! Where each resource lands in the site, and the reading order.
use crate::epub::model::{ItemRef, ManifestItem};
use crate::epub::path_map::PathMap;
use crate::epub::rewriter::{normalize_path_key, normalized_key};
use crate::error::AppError;
use crate::paths::{directory_of, directory_of_a_plain_file, extension_of, file_name,
    file_name_of, file_names_are_plain, has_no_separator, name_extension, name_stem,
    names_a_file, stem_of};
use crate::text::{append_range, append_str, chars_of, decimal, decimal_chars,
    decimal_is_injective, decimal_is_not_empty, string_of};
use vstd::hash_map::StringHashMap;
use vstd::prelude::*;

verus! {

/// Whether a media type is that of a content document.
pub open spec fn is_document_type(media_type: Seq<char>) -> bool {
    media_type == "application/xhtml+xml"@ || media_type == "text/html"@
}

/// Whether a media type is that of a stylesheet.
pub open spec fn is_stylesheet_type(media_type: Seq<char>) -> bool {
    media_type == "text/css"@
}

/// Whether a media type is that of a content document.
pub fn is_document(media_type: &str) -> (r: bool)
    ensures
        r == is_document_type(media_type@),
{
    let m = chars_of(media_type);
    let n = m.len();
    assert(m@.subrange(0, n as int) =~= m@);
    crate::text::range_is(&m, 0, n, "application/xhtml+xml") || crate::text::range_is(
        &m,
        0,
        n,
        "text/html",
    )
}

/// Whether a media type is that of a stylesheet.
pub fn is_stylesheet(media_type: &str) -> (r: bool)
    ensures
        r == is_stylesheet_type(media_type@),
{
    let m = chars_of(media_type);
    let n = m.len();
    assert(m@.subrange(0, n as int) =~= m@);
    crate::text::range_is(&m, 0, n, "text/css")
}

/// The destination of the site's own stylesheet, which no resource of the
/// archive may take.
pub open spec fn shared_styles_path() -> Seq<char> {
    "assets/styles.css"@
}

/// The file name that a key gives to its destination: its own file name,
/// or `unknown` where it has none.
pub open spec fn usable_name(key: Seq<char>) -> Seq<char> {
    match file_name_of(key) {
        Some(name) => name,
        None => "unknown"@,
    }
}

/// A destination up to the place where a number may be put in: the folder
/// and the stem of the file name.
pub open spec fn destination_head(key: Seq<char>, document: bool) -> Seq<char> {
    (if document {
        "documents/"@
    } else {
        "assets/"@
    }) + stem_of(usable_name(key))
}

/// A destination from the place where a number may be put in: `.html` for
/// a document, the file name's own extension for any other resource.
pub open spec fn destination_tail(key: Seq<char>, document: bool) -> Seq<char> {
    if document {
        ".html"@
    } else {
        match extension_of(usable_name(key)) {
            Some(ext) => seq!['.'] + ext,
            None => Seq::empty(),
        }
    }
}

/// The `k`-th destination that is tried: the plain one first, then those
/// with `-2`, `-3` and so on after the stem.
pub open spec fn candidate(head: Seq<char>, tail: Seq<char>, k: nat) -> Seq<char> {
    if k <= 1 {
        head + tail
    } else {
        head + seq!['-'] + decimal(k) + tail
    }
}

/// The `k`-th candidate is free, and every one before it is taken.
pub open spec fn is_first_free(
    taken: Set<Seq<char>>,
    head: Seq<char>,
    tail: Seq<char>,
    k: nat,
) -> bool {
    &&& k >= 1
    &&& !taken.contains(candidate(head, tail, k))
    &&& forall|j: nat| 1 <= j < k ==> taken.contains(#[trigger] candidate(head, tail, j))
}

/// The first candidate that is not taken.
pub open spec fn free_destination(taken: Set<Seq<char>>, head: Seq<char>, tail: Seq<char>) -> Seq<
    char,
> {
    candidate(head, tail, choose|k: nat| is_first_free(taken, head, tail, k))
}

/// Two different candidates of one name are different paths.
pub proof fn candidates_differ(head: Seq<char>, tail: Seq<char>, a: nat, b: nat)
    requires
        1 <= a < b,
    ensures
        candidate(head, tail, a) != candidate(head, tail, b),
{
    decimal_is_not_empty(a);
    decimal_is_not_empty(b);
    let ca = candidate(head, tail, a);
    let cb = candidate(head, tail, b);
    if a < 2 {
        assert(ca.len() < cb.len());
    } else if ca == cb {
        let from: int = head.len() as int + 1;
        assert(ca.len() == head.len() + 1 + decimal(a).len() + tail.len());
        assert(decimal(a).len() == decimal(b).len());
        assert(ca.subrange(from, from + decimal(a).len()) =~= decimal(a));
        assert(cb.subrange(from, from + decimal(b).len()) =~= decimal(b));
        decimal_is_injective(a, b);
    }
}

/// Of the candidates of one name, no more are taken than destinations are.
pub proof fn taken_candidates_are_few(
    taken: Set<Seq<char>>,
    head: Seq<char>,
    tail: Seq<char>,
    n: nat,
)
    requires
        taken.finite(),
        forall|j: nat| 1 <= j <= n ==> taken.contains(#[trigger] candidate(head, tail, j)),
    ensures
        n <= taken.len(),
    decreases n,
{
    if n > 0 {
        let last = candidate(head, tail, n);
        let rest = taken.remove(last);
        assert forall|j: nat| 1 <= j <= (n - 1) as nat implies rest.contains(
            #[trigger] candidate(head, tail, j),
        ) by {
            candidates_differ(head, tail, j, n);
        }
        taken_candidates_are_few(rest, head, tail, (n - 1) as nat);
    }
}

/// At most one candidate is the first free one.
pub proof fn first_free_is_unique(
    taken: Set<Seq<char>>,
    head: Seq<char>,
    tail: Seq<char>,
    a: nat,
    b: nat,
)
    requires
        is_first_free(taken, head, tail, a),
        is_first_free(taken, head, tail, b),
    ensures
        a == b,
{
}

/// The two parts of the destination of `key`, between which a number may
/// be put.
pub fn destination_parts(key: &str, document: bool) -> (r: (String, String))
    ensures
        r.0@ == destination_head(key@, document),
        r.1@ == destination_tail(key@, document),
{
    let name = match file_name(key) {
        Some(name) => name,
        None => "unknown".to_owned(),
    };
    let stem = name_stem(name.as_str());
    let mut head: Vec<char> = Vec::new();
    if document {
        append_str(&mut head, "documents/");
    } else {
        append_str(&mut head, "assets/");
    }
    append_str(&mut head, stem.as_str());
    let mut tail: Vec<char> = Vec::new();
    if document {
        append_str(&mut tail, ".html");
    } else {
        match name_extension(name.as_str()) {
            Some(ext) => {
                tail.push('.');
                append_str(&mut tail, ext.as_str());
            },
            None => {},
        }
    }
    (string_of(&head), string_of(&tail))
}

/// The `k`-th destination that is tried for a name.
pub fn candidate_path(head: &str, tail: &str, k: u128) -> (r: String)
    ensures
        r@ == candidate(head@, tail@, k as nat),
{
    let mut out: Vec<char> = Vec::new();
    append_str(&mut out, head);
    if k > 1 {
        out.push('-');
        let digits = decimal_chars(k);
        append_range(&mut out, &digits, 0, digits.len());
    }
    append_str(&mut out, tail);
    string_of(&out)
}

/// The first destination for a name that nothing has taken yet.
pub fn pick_destination(map: &PathMap, head: &str, tail: &str) -> (r: String)
    requires
        map.wf(),
    ensures
        r@ == free_destination(map.taken(), head@, tail@),
        !map.taken().contains(r@),
{
    let count = map.taken_count();
    let mut k: u128 = 1;
    loop
        invariant
            map.wf(),
            count == map.taken().len(),
            1 <= k <= count + 1,
            forall|j: nat|
                1 <= j < k ==> map.taken().contains(#[trigger] candidate(head@, tail@, j)),
        decreases count + 1 - k,
    {
        let c = candidate_path(head, tail, k);
        if !map.is_taken(c.as_str()) {
            proof {
                let first = choose|n: nat| is_first_free(map.taken(), head@, tail@, n);
                assert(is_first_free(map.taken(), head@, tail@, k as nat));
                first_free_is_unique(map.taken(), head@, tail@, first, k as nat);
            }
            return c;
        }
        proof {
            map.taken_is_finite();
            taken_candidates_are_few(map.taken(), head@, tail@, k as nat);
        }
        k = k + 1;
    }
}

/// The destinations in use once a map holds `m`: those of its keys, and
/// that of the site's own stylesheet.
pub open spec fn taken_of(m: Map<Seq<char>, Seq<char>>) -> Set<Seq<char>> {
    m.values().insert(shared_styles_path())
}

/// A path map after one more manifest item: an item whose key is already
/// mapped changes nothing; any other gets the first free destination for
/// its name.
pub open spec fn with_item(m: Map<Seq<char>, Seq<char>>, item: ManifestItem) -> Map<
    Seq<char>,
    Seq<char>,
> {
    let key = normalized_key(item.href@);
    let document = is_document_type(item.media_type@);
    if m.contains_key(key) {
        m
    } else {
        m.insert(
            key,
            free_destination(
                taken_of(m),
                destination_head(key, document),
                destination_tail(key, document),
            ),
        )
    }
}

/// The path map of a manifest: its items taken in order.
pub open spec fn path_map_of(items: Seq<ManifestItem>) -> Map<Seq<char>, Seq<char>>
    decreases items.len(),
{
    if items.len() == 0 {
        Map::empty()
    } else {
        with_item(path_map_of(items.drop_last()), items.last())
    }
}

/// Index of the last manifest item whose identifier has the key `id_key`.
pub open spec fn find_item(items: Seq<ManifestItem>, id_key: Seq<char>) -> Option<int>
    decreases items.len(),
{
    if items.len() == 0 {
        None
    } else if normalized_key(items.last().id@) == id_key {
        Some(items.len() - 1)
    } else {
        find_item(items.drop_last(), id_key)
    }
}

/// The reading order: for each reference of the spine that names a
/// manifest item, that item.
pub open spec fn resolved_spine(items: Seq<ManifestItem>, refs: Seq<ItemRef>) -> Seq<ManifestItem>
    decreases refs.len(),
{
    if refs.len() == 0 {
        Seq::empty()
    } else {
        let rest = resolved_spine(items, refs.drop_last());
        match find_item(items, normalized_key(refs.last().idref@)) {
            Some(i) => rest.push(items[i]),
            None => rest,
        }
    }
}

/// The references of the spine that name no manifest item, in order.
pub open spec fn missing_ids(items: Seq<ManifestItem>, refs: Seq<ItemRef>) -> Seq<Seq<char>>
    decreases refs.len(),
{
    if refs.len() == 0 {
        Seq::empty()
    } else {
        let rest = missing_ids(items, refs.drop_last());
        match find_item(items, normalized_key(refs.last().idref@)) {
            Some(i) => rest,
            None => rest.push(refs.last().idref@),
        }
    }
}

/// The views of a sequence of strings.
pub open spec fn texts(v: Seq<String>) -> Seq<Seq<char>> {
    Seq::new(v.len(), |i: int| v[i]@)
}

/// `find_item` returns the index of an item of the manifest.
pub proof fn found_item_is_in_range(items: Seq<ManifestItem>, id_key: Seq<char>)
    ensures
        find_item(items, id_key) matches Some(i) ==> 0 <= i < items.len() && normalized_key(
            items[i].id@,
        ) == id_key,
    decreases items.len(),
{
    if items.len() > 0 && normalized_key(items.last().id@) != id_key {
        found_item_is_in_range(items.drop_last(), id_key);
    }
}

/// The key of every manifest item has a destination.
pub proof fn every_item_is_mapped(items: Seq<ManifestItem>, i: int)
    requires
        0 <= i < items.len(),
    ensures
        path_map_of(items).contains_key(normalized_key(items[i].href@)),
    decreases items.len(),
{
    if i < items.len() - 1 {
        every_item_is_mapped(items.drop_last(), i);
    }
}

/// Every entry of the reading order is an item of the manifest, so its key
/// has a destination.
pub proof fn every_spine_entry_is_mapped(items: Seq<ManifestItem>, refs: Seq<ItemRef>, j: int)
    requires
        0 <= j < resolved_spine(items, refs).len(),
    ensures
        items.contains(resolved_spine(items, refs)[j]),
        path_map_of(items).contains_key(normalized_key(resolved_spine(items, refs)[j].href@)),
    decreases refs.len(),
{
    let rest = resolved_spine(items, refs.drop_last());
    let id_key = normalized_key(refs.last().idref@);
    if j < rest.len() {
        every_spine_entry_is_mapped(items, refs.drop_last(), j);
    } else {
        found_item_is_in_range(items, id_key);
        let i = find_item(items, id_key)->Some_0;
        every_item_is_mapped(items, i);
    }
}

/// A key that a map does not hold yet adds its value to the values of the
/// map, and nothing else.
pub proof fn a_new_key_adds_its_value(
    m: Map<Seq<char>, Seq<char>>,
    key: Seq<char>,
    value: Seq<char>,
)
    requires
        !m.contains_key(key),
    ensures
        m.insert(key, value).values() == m.values().insert(value),
{
    let after = m.insert(key, value);
    assert forall|v: Seq<char>| m.values().insert(value).contains(v) implies after.values().contains(
        v,
    ) by {
        if v == value {
            assert(after.contains_key(key) && after[key] == v);
        } else {
            let k = choose|k: Seq<char>| m.contains_key(k) && m[k] == v;
            assert(after.contains_key(k) && after[k] == v);
        }
    }
    assert forall|v: Seq<char>| after.values().contains(v) implies m.values().insert(
        value,
    ).contains(v) by {
        let k = choose|k: Seq<char>| after.contains_key(k) && after[k] == v;
        if k != key {
            assert(m.contains_key(k) && m[k] == v);
        }
    }
    assert(after.values() =~= m.values().insert(value));
}

/// The least free candidate at or below a free one.
proof fn least_free(taken: Set<Seq<char>>, head: Seq<char>, tail: Seq<char>, upto: nat) -> (k: nat)
    requires
        upto >= 1,
        !taken.contains(candidate(head, tail, upto)),
    ensures
        is_first_free(taken, head, tail, k),
    decreases upto,
{
    if forall|j: nat| 1 <= j < upto ==> taken.contains(#[trigger] candidate(head, tail, j)) {
        upto
    } else {
        let j = choose|j: nat|
            1 <= j < upto && !taken.contains(#[trigger] candidate(head, tail, j));
        least_free(taken, head, tail, j)
    }
}

/// While finitely many destinations are taken, every name has a free
/// candidate, and `free_destination` is the first of them.
pub proof fn free_destination_is_free(taken: Set<Seq<char>>, head: Seq<char>, tail: Seq<char>)
    requires
        taken.finite(),
    ensures
        is_first_free(
            taken,
            head,
            tail,
            choose|k: nat| is_first_free(taken, head, tail, k),
        ),
        !taken.contains(free_destination(taken, head, tail)),
{
    let n = taken.len();
    if forall|j: nat| 1 <= j <= n + 1 ==> taken.contains(#[trigger] candidate(head, tail, j)) {
        taken_candidates_are_few(taken, head, tail, n + 1);
    }
    let j = choose|j: nat|
        1 <= j <= n + 1 && !taken.contains(#[trigger] candidate(head, tail, j));
    let k = least_free(taken, head, tail, j);
}

/// The path map of every manifest is finite, gives different keys
/// different destinations, and leaves the place of the site's own
/// stylesheet free.
pub proof fn path_map_is_sound(items: Seq<ManifestItem>)
    ensures
        path_map_of(items).dom().finite(),
        forall|a: Seq<char>, b: Seq<char>|
            #![trigger path_map_of(items)[a], path_map_of(items)[b]]
            path_map_of(items).contains_key(a) && path_map_of(items).contains_key(b) && a != b
                ==> path_map_of(items)[a] != path_map_of(items)[b],
        forall|a: Seq<char>| #[trigger]
            path_map_of(items).contains_key(a) ==> path_map_of(items)[a] != shared_styles_path(),
    decreases items.len(),
{
    if items.len() > 0 {
        let before = path_map_of(items.drop_last());
        path_map_is_sound(items.drop_last());
        let item = items.last();
        let key = normalized_key(item.href@);
        if !before.contains_key(key) {
            let document = is_document_type(item.media_type@);
            let head = destination_head(key, document);
            let tail = destination_tail(key, document);
            vstd::map_lib::lemma_values_finite(before);
            free_destination_is_free(taken_of(before), head, tail);
        }
    }
}

/// The destination that a key gets where nothing has taken it: the folder,
/// the stem of the file name, and `.html` or the file name's own
/// extension.
pub open spec fn plain_destination(key: Seq<char>, document: bool) -> Seq<char> {
    candidate(destination_head(key, document), destination_tail(key, document), 1)
}

/// A manifest item whose key is new and whose plain destination is free
/// gets that destination.
pub proof fn free_names_are_kept(m: Map<Seq<char>, Seq<char>>, item: ManifestItem)
    requires
        !m.contains_key(normalized_key(item.href@)),
        !taken_of(m).contains(
            plain_destination(normalized_key(item.href@), is_document_type(item.media_type@)),
        ),
    ensures
        with_item(m, item) == m.insert(
            normalized_key(item.href@),
            plain_destination(normalized_key(item.href@), is_document_type(item.media_type@)),
        ),
{
    let key = normalized_key(item.href@);
    let document = is_document_type(item.media_type@);
    let head = destination_head(key, document);
    let tail = destination_tail(key, document);
    assert(is_first_free(taken_of(m), head, tail, 1));
    let first = choose|k: nat| is_first_free(taken_of(m), head, tail, k);
    first_free_is_unique(taken_of(m), head, tail, first, 1);
}

/// No document lands at the place of the site's own stylesheet.
pub proof fn documents_leave_the_stylesheet_alone(key: Seq<char>, k: nat)
    ensures
        candidate(destination_head(key, true), destination_tail(key, true), k)
            != shared_styles_path(),
{
    reveal_strlit("documents/");
    reveal_strlit("assets/styles.css");
    let dest = candidate(destination_head(key, true), destination_tail(key, true), k);
    assert(dest[0] == 'd');
}

/// The folder of a destination: `documents` or `assets`.
pub open spec fn folder_of(document: bool) -> Seq<char> {
    if document {
        "documents"@
    } else {
        "assets"@
    }
}

/// A numeral holds no `/`.
pub proof fn numerals_hold_no_separator(n: nat)
    ensures
        has_no_separator(decimal(n)),
    decreases n,
{
    if n >= 10 {
        numerals_hold_no_separator(n / 10);
    }
}

/// A file name is its stem where it has no extension, and else its stem, a
/// `.` and its extension.
pub proof fn stem_and_extension_make_the_name(name: Seq<char>)
    ensures
        name == match extension_of(name) {
            Some(ext) => stem_of(name) + seq!['.'] + ext,
            None => stem_of(name),
        },
{
    crate::text::find_last_is_last(name, '.', name.len() as int);
}

/// The two folders can be file names, and each folder with a `/` is the
/// start of its destinations.
pub proof fn folders_are_names(document: bool)
    ensures
        names_a_file(folder_of(document)),
        forall|key: Seq<char>| #[trigger]
            destination_head(key, document) == folder_of(document) + seq!['/'] + stem_of(
                usable_name(key),
            ),
{
    reveal_strlit("documents/");
    reveal_strlit("documents");
    reveal_strlit("assets/");
    reveal_strlit("assets");
    let folder = folder_of(document);
    assert(folder.len() >= 6);
    assert(folder != seq!['.']) by {
        if folder == seq!['.'] {
            assert(folder.len() == 1);
        }
    }
    assert(folder != seq!['.', '.']) by {
        if folder == seq!['.', '.'] {
            assert(folder.len() == 2);
        }
    }
    assert forall|key: Seq<char>| #[trigger]
        destination_head(key, document) == folder_of(document) + seq!['/'] + stem_of(
            usable_name(key),
        ) by {
        assert(destination_head(key, document) =~= folder_of(document) + seq!['/'] + stem_of(
            usable_name(key),
        ));
    }
}

/// The name that a key gives to its destination can be a file name.
pub proof fn usable_names_are_names(key: Seq<char>)
    ensures
        names_a_file(usable_name(key)),
{
    reveal_strlit("unknown");
    file_names_are_plain(key);
    if file_name_of(key) is None {
        let name = usable_name(key);
        assert(name.len() == 7);
        if name == seq!['.'] {
            assert(name.len() == 1);
        }
        if name == seq!['.', '.'] {
            assert(name.len() == 2);
        }
    }
}

/// What follows the folder in a candidate for the destination of a key.
pub open spec fn candidate_file(key: Seq<char>, document: bool, k: nat) -> Seq<char> {
    let stem = stem_of(usable_name(key));
    if k <= 1 {
        stem + destination_tail(key, document)
    } else {
        stem + seq!['-'] + decimal(k) + destination_tail(key, document)
    }
}

/// What follows the folder in a candidate can be a file name.
pub proof fn candidate_files_are_names(key: Seq<char>, document: bool, k: nat)
    ensures
        names_a_file(candidate_file(key, document, k)),
{
    reveal_strlit(".html");
    let name = usable_name(key);
    usable_names_are_names(key);
    crate::text::find_last_is_last(name, '.', name.len() as int);
    numerals_hold_no_separator(k);
    decimal_is_not_empty(k);
    stem_and_extension_make_the_name(name);
    let stem = stem_of(name);
    let tail = destination_tail(key, document);
    let file = candidate_file(key, document, k);
    assert(has_no_separator(stem));
    assert(has_no_separator(tail));
    assert(has_no_separator(file));
    if document {
        assert(file.len() >= 5);
    } else if k <= 1 {
        assert(file =~= name);
    } else {
        assert(file[stem.len() as int] == '-');
        assert(file.len() >= stem.len() + 2);
    }
    assert(file != seq!['.']) by {
        if file == seq!['.'] {
            assert(file.len() == 1);
        }
    }
    assert(file != seq!['.', '.']) by {
        if file == seq!['.', '.'] {
            assert(file.len() == 2 && file[0] == '.' && file[1] == '.');
        }
    }
}

/// Every candidate for the destination of a key is a file directly in the
/// folder for documents or in the folder for assets: its directory is that
/// folder, and it has a file name.
pub proof fn candidates_are_plain_files(key: Seq<char>, document: bool, k: nat)
    ensures
        directory_of(
            candidate(destination_head(key, document), destination_tail(key, document), k),
        ) == folder_of(document),
        file_name_of(
            candidate(destination_head(key, document), destination_tail(key, document), k),
        ) is Some,
{
    folders_are_names(document);
    candidate_files_are_names(key, document, k);
    let folder = folder_of(document);
    let file = candidate_file(key, document, k);
    let head = destination_head(key, document);
    assert(head == folder + seq!['/'] + stem_of(usable_name(key)));
    let dest = candidate(head, destination_tail(key, document), k);
    assert(dest =~= folder + seq!['/'] + file);
    directory_of_a_plain_file(folder, file);
}

/// Every destination in the path map of a manifest is a file directly in
/// the folder for documents or in the folder for assets.
pub proof fn destinations_are_plain_files(items: Seq<ManifestItem>, a: Seq<char>)
    requires
        path_map_of(items).contains_key(a),
    ensures
        directory_of(path_map_of(items)[a]) == "documents"@ || directory_of(path_map_of(items)[a])
            == "assets"@,
        file_name_of(path_map_of(items)[a]) is Some,
    decreases items.len(),
{
    if items.len() > 0 {
        let before = path_map_of(items.drop_last());
        let item = items.last();
        let key = normalized_key(item.href@);
        if before.contains_key(a) {
            destinations_are_plain_files(items.drop_last(), a);
        } else {
            let document = is_document_type(item.media_type@);
            let head = destination_head(key, document);
            let tail = destination_tail(key, document);
            let k = choose|k: nat| is_first_free(taken_of(before), head, tail, k);
            candidates_are_plain_files(key, document, k);
        }
    }
}

/// In the path map of a manifest two different keys never share a
/// destination, and no key has the place of the site's own stylesheet.
pub proof fn destinations_never_collide(items: Seq<ManifestItem>, a: Seq<char>, b: Seq<char>)
    requires
        path_map_of(items).contains_key(a),
        path_map_of(items).contains_key(b),
    ensures
        a != b ==> path_map_of(items)[a] != path_map_of(items)[b],
        path_map_of(items)[a] != shared_styles_path(),
{
    path_map_is_sound(items);
}

/// Whether the manifest item at `i` is the first with its key.
pub open spec fn is_first_of_key(items: Seq<ManifestItem>, i: int) -> bool {
    !path_map_of(items.take(i)).contains_key(normalized_key(items[i].href@))
}

/// What the mapping builder produces.
pub struct SiteLayout {
    /// Where each resource lands.
    pub path_map: PathMap,
    /// For each manifest item, whether it is the first with its key. A
    /// later item with the same key stands for the same place in the site
    /// and is left out of it.
    pub fresh: Vec<bool>,
    /// The content documents in reading order.
    pub spine_items: Vec<ManifestItem>,
    /// The references of the spine that name no manifest item.
    pub missing: Vec<String>,
}

/// Maps the items of a manifest, and tells for each whether it is the
/// first with its key.
pub fn map_manifest(items: &Vec<ManifestItem>) -> (r: (PathMap, Vec<bool>))
    ensures
        r.0.wf(),
        r.0@ == path_map_of(items@),
        r.0.taken() == taken_of(r.0@),
        r.1.len() == items.len(),
        forall|i: int| 0 <= i < items.len() ==> #[trigger] r.1@[i] == is_first_of_key(items@, i),
{
    let mut map = PathMap::new();
    let mut fresh: Vec<bool> = Vec::new();
    map.reserve("assets/styles.css".to_owned());
    let mut i: usize = 0;
    while i < items.len()
        invariant
            i <= items.len(),
            map.wf(),
            map@ == path_map_of(items@.take(i as int)),
            map.taken() == taken_of(map@),
            fresh.len() == i,
            forall|j: int| 0 <= j < i ==> #[trigger] fresh@[j] == is_first_of_key(items@, j),
        decreases items.len() - i,
    {
        let item = &items[i];
        let key = normalize_path_key(item.href.as_str());
        proof {
            assert(items@.take(i + 1).drop_last() =~= items@.take(i as int));
        }
        let first = !map.contains_key(key.as_str());
        fresh.push(first);
        if first {
            let parts = destination_parts(key.as_str(), is_document(item.media_type.as_str()));
            let dest = pick_destination(&map, parts.0.as_str(), parts.1.as_str());
            proof {
                a_new_key_adds_its_value(map@, key@, dest@);
            }
            map.insert(key, dest);
        }
        i += 1;
    }
    assert(items@.take(items.len() as int) =~= items@);
    (map, fresh)
}

/// Resolves the reading order against the manifest.
pub fn resolve_spine(items: &Vec<ManifestItem>, refs: &Vec<ItemRef>) -> (r: (
    Vec<ManifestItem>,
    Vec<String>,
))
    ensures
        r.0@ == resolved_spine(items@, refs@),
        texts(r.1@) == missing_ids(items@, refs@),
{
    let mut index: StringHashMap<usize> = StringHashMap::new();
    let mut i: usize = 0;
    while i < items.len()
        invariant
            i <= items.len(),
            forall|k: Seq<char>| #[trigger]
                index@.contains_key(k) <==> find_item(items@.take(i as int), k) is Some,
            forall|k: Seq<char>| #[trigger]
                index@.contains_key(k) ==> Some(index@[k] as int) == find_item(
                    items@.take(i as int),
                    k,
                ),
        decreases items.len() - i,
    {
        let id_key = normalize_path_key(items[i].id.as_str());
        proof {
            assert(items@.take(i + 1).drop_last() =~= items@.take(i as int));
        }
        index.insert(id_key, i);
        i += 1;
    }
    assert(items@.take(items.len() as int) =~= items@);
    let mut spine: Vec<ManifestItem> = Vec::new();
    let mut missing: Vec<String> = Vec::new();
    let mut j: usize = 0;
    while j < refs.len()
        invariant
            j <= refs.len(),
            forall|k: Seq<char>| #[trigger]
                index@.contains_key(k) <==> find_item(items@, k) is Some,
            forall|k: Seq<char>| #[trigger]
                index@.contains_key(k) ==> Some(index@[k] as int) == find_item(items@, k),
            spine@ == resolved_spine(items@, refs@.take(j as int)),
            texts(missing@) == missing_ids(items@, refs@.take(j as int)),
        decreases refs.len() - j,
    {
        let id_key = normalize_path_key(refs[j].idref.as_str());
        proof {
            assert(refs@.take(j + 1).drop_last() =~= refs@.take(j as int));
            found_item_is_in_range(items@, id_key@);
        }
        match index.get(id_key.as_str()) {
            Some(at) => {
                spine.push(items[*at].clone());
            },
            None => {
                missing.push(refs[j].idref.clone());
            },
        }
        j += 1;
    }
    assert(refs@.take(refs.len() as int) =~= refs@);
    (spine, missing)
}

/// The message of the error for a package without resources.
pub open spec fn empty_manifest_message() -> Seq<char> {
    "The manifest declares no resources"@
}

/// The message of the error for a package without reading order.
pub open spec fn empty_spine_message() -> Seq<char> {
    "The spine lists no documents"@
}

/// Computes where every resource of the manifest lands and which documents
/// make up the reading order. A package without resources or without
/// reading order is refused; a reference of the spine that names no
/// manifest item is left out of the reading order and reported.
pub fn build_layout(items: &Vec<ManifestItem>, refs: &Vec<ItemRef>) -> (r: Result<
    SiteLayout,
    AppError,
>)
    ensures
        match r {
            Ok(layout) => {
                &&& items.len() > 0
                &&& refs.len() > 0
                &&& layout.path_map.wf()
                &&& layout.path_map@ == path_map_of(items@)
                &&& layout.path_map.taken() == taken_of(layout.path_map@)
                &&& layout.fresh.len() == items.len()
                &&& forall|i: int|
                    0 <= i < items.len() ==> #[trigger] layout.fresh@[i] == is_first_of_key(
                        items@,
                        i,
                    )
                &&& layout.spine_items@ == resolved_spine(items@, refs@)
                &&& texts(layout.missing@) == missing_ids(items@, refs@)
            },
            Err(AppError::InvalidEpubFormat(what)) => if items.len() == 0 {
                what@ == empty_manifest_message()
            } else {
                refs.len() == 0 && what@ == empty_spine_message()
            },
            Err(_) => false,
        },
{
    if items.len() == 0 {
        return Err(AppError::InvalidEpubFormat("The manifest declares no resources".to_owned()));
    }
    if refs.len() == 0 {
        return Err(AppError::InvalidEpubFormat("The spine lists no documents".to_owned()));
    }
    let mapped = map_manifest(items);
    let spine = resolve_spine(items, refs);
    Ok(SiteLayout { path_map: mapped.0, fresh: mapped.1, spine_items: spine.0, missing: spine.1 })
}

} // verus!
