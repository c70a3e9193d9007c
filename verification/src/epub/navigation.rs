//! The links between the pages, and the table of contents.
use crate::epub::layout::{every_spine_entry_is_mapped, path_map_of, resolved_spine, texts};
use crate::epub::model::{ItemRef, ManifestItem};
use crate::epub::page::{display_title, page_text, render_page, title_of};
use crate::epub::path_map::PathMap;
use crate::epub::rewriter::{normalize_path_key, normalized_key};
use crate::paths::{directory_of, optional_text, parent_directory, relative_path,
    relative_reference};
use crate::text::{append_str, string_of};
use vstd::prelude::*;

verus! {

/// The destination of a manifest item, if its key has one.
pub open spec fn destination_of(item: ManifestItem, map: Map<Seq<char>, Seq<char>>) -> Option<
    Seq<char>,
> {
    let key = normalized_key(item.href@);
    if map.contains_key(key) {
        Some(map[key])
    } else {
        None
    }
}

/// The reference from the directory `from_dir` to `target`; `target` itself
/// where no relative reference exists.
pub open spec fn link_to(target: Seq<char>, from_dir: Seq<char>) -> Seq<char> {
    match relative_reference(target, from_dir) {
        Some(r) => r,
        None => target,
    }
}

/// The reference from the directory `from_dir` to the index page.
pub open spec fn link_to_index(from_dir: Seq<char>) -> Seq<char> {
    match relative_reference("index.html"@, from_dir) {
        Some(r) => r,
        None => "../index.html"@,
    }
}

/// The link to the previous chapter.
pub open spec fn previous_link(href: Seq<char>) -> Seq<char> {
    "<a href=\""@ + href + "\" class=\"nav-prev\">« 上一章</a>"@
}

/// The link to the next chapter.
pub open spec fn next_link(href: Seq<char>) -> Seq<char> {
    "<a href=\""@ + href + "\" class=\"nav-next\">下一章 »</a>"@
}

/// The link to the table of contents.
pub open spec fn contents_link(href: Seq<char>) -> Seq<char> {
    "<a href=\""@ + href + "\" class=\"nav-toc\">📚 目录</a>"@
}

/// What stands in the place of a link where there is no chapter to go to.
pub open spec fn empty_slot() -> Seq<char> {
    "<span></span>"@
}

/// The previous-link slot of the page at `index`: empty at the start of
/// the reading order, else the link to the page before.
pub open spec fn previous_slot(
    index: int,
    from_dir: Seq<char>,
    spine: Seq<ManifestItem>,
    map: Map<Seq<char>, Seq<char>>,
) -> Seq<Seq<char>> {
    if index <= 0 {
        seq![empty_slot()]
    } else if index - 1 < spine.len() {
        match destination_of(spine[index - 1], map) {
            Some(d) => seq![previous_link(link_to(d, from_dir))],
            None => Seq::empty(),
        }
    } else {
        Seq::empty()
    }
}

/// The next-link slot of the page at `index`: empty at the end of the
/// reading order, else the link to the page after.
pub open spec fn next_slot(
    index: int,
    from_dir: Seq<char>,
    spine: Seq<ManifestItem>,
    map: Map<Seq<char>, Seq<char>>,
) -> Seq<Seq<char>> {
    if 0 <= index && index + 1 < spine.len() {
        match destination_of(spine[index + 1], map) {
            Some(d) => seq![next_link(link_to(d, from_dir))],
            None => Seq::empty(),
        }
    } else {
        seq![empty_slot()]
    }
}

/// The parts of the navigation of the page at `index`, which lands at
/// `site_path`: the previous-link slot, the link to the table of contents,
/// the next-link slot.
pub open spec fn nav_parts(
    index: int,
    site_path: Seq<char>,
    spine: Seq<ManifestItem>,
    map: Map<Seq<char>, Seq<char>>,
) -> Seq<Seq<char>> {
    let dir = directory_of(site_path);
    previous_slot(index, dir, spine, map) + seq![contents_link(link_to_index(dir))] + next_slot(
        index,
        dir,
        spine,
        map,
    )
}

/// Texts with a line break between each two.
pub open spec fn joined_lines(parts: Seq<Seq<char>>) -> Seq<char>
    decreases parts.len(),
{
    if parts.len() == 0 {
        Seq::empty()
    } else if parts.len() == 1 {
        parts[0]
    } else {
        joined_lines(parts.drop_last()) + seq!['\n'] + parts.last()
    }
}

/// The navigation of a page; empty where navigation is switched off.
pub open spec fn nav_text(
    no_nav: bool,
    index: int,
    site_path: Seq<char>,
    spine: Seq<ManifestItem>,
    map: Map<Seq<char>, Seq<char>>,
) -> Seq<char> {
    if no_nav {
        Seq::empty()
    } else {
        joined_lines(nav_parts(index, site_path, spine, map))
    }
}

/// The first page of the reading order has no link back, the last has none
/// forward, and every page in between has both: to the destinations of
/// the entries just before and just after it.
pub proof fn navigation_boundaries(
    index: int,
    from_dir: Seq<char>,
    spine: Seq<ManifestItem>,
    map: Map<Seq<char>, Seq<char>>,
)
    requires
        0 <= index < spine.len(),
        forall|j: int| 0 <= j < spine.len() ==> destination_of(#[trigger] spine[j], map) is Some,
    ensures
        index == 0 ==> previous_slot(index, from_dir, spine, map) == seq![empty_slot()],
        index == spine.len() - 1 ==> next_slot(index, from_dir, spine, map) == seq![empty_slot()],
        index > 0 ==> previous_slot(index, from_dir, spine, map) == seq![
            previous_link(link_to(map[normalized_key(spine[index - 1].href@)], from_dir)),
        ],
        index < spine.len() - 1 ==> next_slot(index, from_dir, spine, map) == seq![
            next_link(link_to(map[normalized_key(spine[index + 1].href@)], from_dir)),
        ],
{
}

/// In the site of every package the first page of the reading order has
/// no link back, the last has none forward, and every page in between has
/// both: to the destinations of the entries just before and just after it.
pub proof fn navigation_of_a_package(
    items: Seq<ManifestItem>,
    refs: Seq<ItemRef>,
    index: int,
    from_dir: Seq<char>,
)
    requires
        0 <= index < resolved_spine(items, refs).len(),
    ensures
        index == 0 ==> previous_slot(
            index,
            from_dir,
            resolved_spine(items, refs),
            path_map_of(items),
        ) == seq![empty_slot()],
        index == resolved_spine(items, refs).len() - 1 ==> next_slot(
            index,
            from_dir,
            resolved_spine(items, refs),
            path_map_of(items),
        ) == seq![empty_slot()],
        index > 0 ==> previous_slot(
            index,
            from_dir,
            resolved_spine(items, refs),
            path_map_of(items),
        ) == seq![
            previous_link(
                link_to(
                    path_map_of(items)[normalized_key(
                        resolved_spine(items, refs)[index - 1].href@,
                    )],
                    from_dir,
                ),
            ),
        ],
        index < resolved_spine(items, refs).len() - 1 ==> next_slot(
            index,
            from_dir,
            resolved_spine(items, refs),
            path_map_of(items),
        ) == seq![
            next_link(
                link_to(
                    path_map_of(items)[normalized_key(
                        resolved_spine(items, refs)[index + 1].href@,
                    )],
                    from_dir,
                ),
            ),
        ],
{
    let spine = resolved_spine(items, refs);
    let map = path_map_of(items);
    assert forall|j: int| 0 <= j < spine.len() implies destination_of(
        #[trigger] spine[j],
        map,
    ) is Some by {
        every_spine_entry_is_mapped(items, refs, j);
    }
    navigation_boundaries(index, from_dir, spine, map);
}

/// One entry of the table of contents: a link to `dest` under the title of
/// that page.
pub open spec fn toc_entry(dest: Seq<char>, index: nat) -> Seq<char> {
    "<li><a href=\""@ + dest + "\">"@ + display_title(dest, index) + "</a></li>\n"@
}

/// The entries of the table of contents for the first `n` entries of the
/// reading order: one for each entry that has a destination, in order.
pub open spec fn toc_lines(spine: Seq<ManifestItem>, map: Map<Seq<char>, Seq<char>>, n: int) -> Seq<
    Seq<char>,
>
    decreases n,
{
    if n <= 0 || n > spine.len() {
        Seq::empty()
    } else {
        match destination_of(spine[n - 1], map) {
            Some(d) => toc_lines(spine, map, n - 1).push(toc_entry(d, (n - 1) as nat)),
            None => toc_lines(spine, map, n - 1),
        }
    }
}

/// Texts one after the other.
pub open spec fn concatenated(parts: Seq<Seq<char>>) -> Seq<char>
    decreases parts.len(),
{
    if parts.len() == 0 {
        Seq::empty()
    } else {
        concatenated(parts.drop_last()) + parts.last()
    }
}

/// The title of the book: the first that it declares, or a placeholder.
pub open spec fn book_title(titles: Seq<String>) -> Seq<char> {
    if titles.len() > 0 {
        titles[0]@
    } else {
        "目录"@
    }
}

/// The content of the index page: the book's title and the list of
/// chapters.
pub open spec fn toc_body(
    title: Seq<char>,
    spine: Seq<ManifestItem>,
    map: Map<Seq<char>, Seq<char>>,
) -> Seq<char> {
    "<h1 class=\"toc-title\">"@ + title + "</h1>\n<ul class=\"toc\">"@ + concatenated(
        toc_lines(spine, map, spine.len() as int),
    ) + "</ul>"@
}

/// The index page.
pub open spec fn toc_page(
    titles: Seq<String>,
    spine: Seq<ManifestItem>,
    map: Map<Seq<char>, Seq<char>>,
) -> Seq<char> {
    page_text(
        book_title(titles),
        toc_body(book_title(titles), spine, map),
        Seq::empty(),
        "assets/styles.css"@,
        true,
    )
}

/// Where every entry of the reading order has a destination, the table of
/// contents has exactly one entry for each, in reading order, and each
/// links to the destination of its entry.
pub proof fn toc_is_complete(spine: Seq<ManifestItem>, map: Map<Seq<char>, Seq<char>>, n: int)
    requires
        0 <= n <= spine.len(),
        forall|j: int| 0 <= j < spine.len() ==> destination_of(#[trigger] spine[j], map) is Some,
    ensures
        toc_lines(spine, map, n).len() == n,
        forall|i: int|
            0 <= i < n ==> #[trigger] toc_lines(spine, map, n)[i] == toc_entry(
                map[normalized_key(spine[i].href@)],
                i as nat,
            ),
    decreases n,
{
    if n > 0 {
        toc_is_complete(spine, map, n - 1);
    }
}

/// The destination of a manifest item.
pub fn find_destination(item: &ManifestItem, path_map: &PathMap) -> (r: Option<String>)
    ensures
        optional_text(r) == destination_of(*item, path_map@),
{
    let key = normalize_path_key(item.href.as_str());
    path_map.get(key.as_str())
}

/// The reference from the directory `from_dir` to `target`.
pub fn reference_to(target: &str, from_dir: &str) -> (r: String)
    ensures
        r@ == link_to(target@, from_dir@),
{
    match relative_path(target, from_dir) {
        Some(r) => r,
        None => target.to_owned(),
    }
}

/// `before`, `middle` and `after` one after the other.
pub fn wrap(before: &str, middle: &str, after: &str) -> (r: String)
    ensures
        r@ == before@ + middle@ + after@,
{
    let mut out: Vec<char> = Vec::new();
    append_str(&mut out, before);
    append_str(&mut out, middle);
    append_str(&mut out, after);
    string_of(&out)
}

/// Texts with a line break between each two.
pub fn join_lines(parts: &Vec<String>) -> (r: String)
    ensures
        r@ == joined_lines(texts(parts@)),
{
    let mut out: Vec<char> = Vec::new();
    let mut i: usize = 0;
    while i < parts.len()
        invariant
            i <= parts.len(),
            out@ == joined_lines(texts(parts@).take(i as int)),
        decreases parts.len() - i,
    {
        proof {
            assert(texts(parts@).take(i + 1).drop_last() =~= texts(parts@).take(i as int));
        }
        if i > 0 {
            out.push('\n');
        }
        append_str(&mut out, parts[i].as_str());
        i += 1;
    }
    assert(texts(parts@).take(parts.len() as int) =~= texts(parts@));
    string_of(&out)
}

/// Builds the navigation of the page at `spine_index` of the reading
/// order, which lands at `current_site_path`: a link to the previous
/// chapter, one to the table of contents and one to the next chapter, each
/// on its own line. At the start and at the end of the reading order an
/// empty `span` stands in the place of the missing link. With `no_nav` the
/// navigation is empty.
pub fn create_nav_html(
    no_nav: bool,
    spine_index: usize,
    current_site_path: &str,
    spine_items: &Vec<ManifestItem>,
    path_map: &PathMap,
) -> (r: String)
    ensures
        r@ == nav_text(no_nav, spine_index as int, current_site_path@, spine_items@, path_map@),
{
    if no_nav {
        return String::new();
    }
    let current_dir = parent_directory(current_site_path);
    let dir = current_dir.as_str();
    let mut parts: Vec<String> = Vec::new();
    if spine_index > 0 {
        if spine_index - 1 < spine_items.len() {
            match find_destination(&spine_items[spine_index - 1], path_map) {
                Some(target) => {
                    let href = reference_to(target.as_str(), dir);
                    parts.push(
                        wrap("<a href=\"", href.as_str(), "\" class=\"nav-prev\">« 上一章</a>"),
                    );
                },
                None => {},
            }
        }
    } else {
        parts.push("<span></span>".to_owned());
    }
    let to_index = match relative_path("index.html", dir) {
        Some(r) => r,
        None => "../index.html".to_owned(),
    };
    parts.push(wrap("<a href=\"", to_index.as_str(), "\" class=\"nav-toc\">📚 目录</a>"));
    let ghost upto_contents = texts(parts@);
    assert(upto_contents =~= previous_slot(
        spine_index as int,
        current_dir@,
        spine_items@,
        path_map@,
    ) + seq![contents_link(link_to_index(current_dir@))]);
    if spine_items.len() > 0 && spine_index < spine_items.len() - 1 {
        match find_destination(&spine_items[spine_index + 1], path_map) {
            Some(target) => {
                let href = reference_to(target.as_str(), dir);
                parts.push(wrap("<a href=\"", href.as_str(), "\" class=\"nav-next\">下一章 »</a>"));
            },
            None => {},
        }
    } else {
        parts.push("<span></span>".to_owned());
    }
    assert(texts(parts@) =~= upto_contents + next_slot(
        spine_index as int,
        current_dir@,
        spine_items@,
        path_map@,
    ));
    join_lines(&parts)
}

/// Builds the index page: the book's title, and one link for each entry of
/// the reading order that has a destination, in reading order, under the
/// title of its page.
pub fn generate_toc(titles: &Vec<String>, spine_items: &Vec<ManifestItem>, path_map: &PathMap) -> (r:
    String)
    ensures
        r@ == toc_page(titles@, spine_items@, path_map@),
{
    let title = if titles.len() > 0 {
        titles[0].clone()
    } else {
        "目录".to_owned()
    };
    let mut body: Vec<char> = Vec::new();
    append_str(&mut body, "<h1 class=\"toc-title\">");
    append_str(&mut body, title.as_str());
    append_str(&mut body, "</h1>\n<ul class=\"toc\">");
    let ghost head = body@;
    let mut index: usize = 0;
    while index < spine_items.len()
        invariant
            index <= spine_items.len(),
            body@ == head + concatenated(toc_lines(spine_items@, path_map@, index as int)),
        decreases spine_items.len() - index,
    {
        match find_destination(&spine_items[index], path_map) {
            Some(dest) => {
                let shown = title_of(dest.as_str(), index);
                append_str(&mut body, "<li><a href=\"");
                append_str(&mut body, dest.as_str());
                append_str(&mut body, "\">");
                append_str(&mut body, shown.as_str());
                append_str(&mut body, "</a></li>\n");
                proof {
                    assert(toc_lines(spine_items@, path_map@, index + 1).drop_last() =~= toc_lines(
                        spine_items@,
                        path_map@,
                        index as int,
                    ));
                }
            },
            None => {},
        }
        index += 1;
    }
    append_str(&mut body, "</ul>");
    let content = string_of(&body);
    let no_navigation = String::new();
    render_page(
        title.as_str(),
        content.as_str(),
        no_navigation.as_str(),
        "assets/styles.css",
        true,
    )
}

} // verus!
