//! The conversion of an EPUB into a website: what is written where, in
//! which order, and with which content.
use crate::epub::document::{markup_warnings, transform_markup, transformed_markup};
use crate::epub::layout::{build_layout, candidates_are_plain_files,
    documents_leave_the_stylesheet_alone, every_spine_entry_is_mapped, find_item,
    free_names_are_kept, is_document, is_document_type, is_first_of_key, is_stylesheet,
    is_stylesheet_type, missing_ids, path_map_of, plain_destination, resolved_spine, taken_of,
    texts};
use crate::epub::model::{ItemRef, ManifestItem};
use crate::epub::navigation::{create_nav_html, destination_of, empty_slot, find_destination,
    generate_toc, link_to, nav_text, next_link, next_slot, previous_link, previous_slot, toc_entry,
    toc_is_complete, toc_lines, toc_page};
use crate::epub::page::{display_title, page_text, render_page, title_of, STYLES_CSS};
use crate::epub::path_map::PathMap;
use crate::epub::rewriter::{fragment_part, is_external, lookup_key, normalize_path_key,
    normalized_key, rewritten_link};
use crate::epub::stylesheet::{diagnostic_texts, rewritten_stylesheet, stylesheet_warnings,
    transform_stylesheet, Place, Transformed};
use crate::epub::{entry_name_of, Epub};
use crate::error::AppError;
use crate::paths::{followed_by, directory_of, join_path, joined, parent_directory, relative_path,
    relative_reference};
use crate::text::{text_of, text_of_bytes};
use vstd::prelude::*;

verus! {

/// What a step of the conversion does.
#[derive(Clone, Copy, Debug)]
pub enum StepKind {
    /// Remove the directory at the destination, if there is one.
    ResetDirectory,
    /// Create the directory at the destination.
    CreateDirectory,
    /// Copy an archive entry to the destination as it is.
    CopyAsset,
    /// Rewrite the stylesheet in an archive entry and write it.
    WriteStylesheet,
    /// Write the site's own stylesheet.
    WriteSharedStyles,
    /// Turn the document in an archive entry into a page and write it.
    WriteDocument,
    /// Write the index page.
    WriteIndex,
}

/// One step of the conversion.
#[derive(Debug)]
pub struct Step {
    /// What to do.
    pub kind: StepKind,
    /// The index of the manifest item that is copied or rewritten, or the
    /// index in the reading order of the document that is written.
    pub index: usize,
    /// The name of the archive entry to read, where one is read.
    pub entry: String,
    /// The path to write to, below the output directory.
    pub destination: String,
}

/// The texts and numbers of a `Step`.
pub ghost struct StepText {
    pub kind: StepKind,
    pub index: int,
    pub entry: Seq<char>,
    pub destination: Seq<char>,
}

impl View for Step {
    type V = StepText;

    open spec fn view(&self) -> StepText {
        StepText {
            kind: self.kind,
            index: self.index as int,
            entry: self.entry@,
            destination: self.destination@,
        }
    }
}

/// What a conversion will do.
#[derive(Debug)]
pub struct Plan {
    /// The steps to carry out, in order.
    pub steps: Vec<Step>,
    /// The references of the spine that name no manifest item; they are
    /// left out of the reading order.
    pub missing: Vec<String>,
    /// For each manifest item, whether it is the first with its key. A
    /// later item with the same key is left out of the site.
    pub fresh: Vec<bool>,
}

/// The views of a sequence of steps.
pub open spec fn step_texts(v: Seq<Step>) -> Seq<StepText> {
    Seq::new(v.len(), |i: int| v[i]@)
}

/// A step that reads nothing.
pub open spec fn plain_step(kind: StepKind, destination: Seq<char>) -> StepText {
    StepText { kind, index: 0, entry: Seq::empty(), destination }
}

/// The steps that set up the output directory.
pub open spec fn directory_steps(out: Seq<char>) -> Seq<StepText> {
    seq![
        plain_step(StepKind::ResetDirectory, out),
        plain_step(StepKind::CreateDirectory, joined(out, "assets"@)),
        plain_step(StepKind::CreateDirectory, joined(out, "documents"@)),
    ]
}

/// The step for the manifest item at `i`, if it has one: documents have
/// none here, nor has an item whose key an earlier item has; a stylesheet
/// is rewritten, anything else is copied.
pub open spec fn asset_step(
    opf: Seq<char>,
    out: Seq<char>,
    items: Seq<ManifestItem>,
    map: Map<Seq<char>, Seq<char>>,
    i: int,
) -> Option<StepText> {
    let item = items[i];
    if is_document_type(item.media_type@) || !is_first_of_key(items, i) {
        None
    } else {
        match destination_of(item, map) {
            Some(dest) => Some(
                StepText {
                    kind: if is_stylesheet_type(item.media_type@) {
                        StepKind::WriteStylesheet
                    } else {
                        StepKind::CopyAsset
                    },
                    index: i,
                    entry: entry_name_of(opf, item.href@),
                    destination: joined(out, dest),
                },
            ),
            None => None,
        }
    }
}

/// The steps for the first `n` manifest items, in order.
pub open spec fn asset_steps(
    opf: Seq<char>,
    out: Seq<char>,
    items: Seq<ManifestItem>,
    map: Map<Seq<char>, Seq<char>>,
    n: int,
) -> Seq<StepText>
    decreases n,
{
    if n <= 0 || n > items.len() {
        Seq::empty()
    } else {
        match asset_step(opf, out, items, map, n - 1) {
            Some(step) => asset_steps(opf, out, items, map, n - 1).push(step),
            None => asset_steps(opf, out, items, map, n - 1),
        }
    }
}

/// The step for the entry at `i` of the reading order, if it has a
/// destination.
pub open spec fn document_step(
    opf: Seq<char>,
    out: Seq<char>,
    spine: Seq<ManifestItem>,
    map: Map<Seq<char>, Seq<char>>,
    i: int,
) -> Option<StepText> {
    match destination_of(spine[i], map) {
        Some(dest) => Some(
            StepText {
                kind: StepKind::WriteDocument,
                index: i,
                entry: entry_name_of(opf, spine[i].href@),
                destination: joined(out, dest),
            },
        ),
        None => None,
    }
}

/// The steps for the first `n` entries of the reading order, in order.
pub open spec fn document_steps(
    opf: Seq<char>,
    out: Seq<char>,
    spine: Seq<ManifestItem>,
    map: Map<Seq<char>, Seq<char>>,
    n: int,
) -> Seq<StepText>
    decreases n,
{
    if n <= 0 || n > spine.len() {
        Seq::empty()
    } else {
        match document_step(opf, out, spine, map, n - 1) {
            Some(step) => document_steps(opf, out, spine, map, n - 1).push(step),
            None => document_steps(opf, out, spine, map, n - 1),
        }
    }
}

/// The steps of a conversion, in order: the output directory is set up,
/// the resources that are no documents are copied or rewritten, the site's
/// own stylesheet is written, then the pages in reading order, then the
/// index.
pub open spec fn site_plan(
    opf: Seq<char>,
    out: Seq<char>,
    items: Seq<ManifestItem>,
    spine: Seq<ManifestItem>,
    map: Map<Seq<char>, Seq<char>>,
) -> Seq<StepText> {
    directory_steps(out) + asset_steps(opf, out, items, map, items.len() as int) + seq![
        plain_step(StepKind::WriteSharedStyles, joined(out, "assets/styles.css"@)),
    ] + document_steps(opf, out, spine, map, spine.len() as int) + seq![
        plain_step(StepKind::WriteIndex, joined(out, "index.html"@)),
    ]
}

/// Where every entry of the reading order has a destination, the plan
/// writes one page for each, in order, to that destination.
pub proof fn every_entry_gets_a_page(
    opf: Seq<char>,
    out: Seq<char>,
    spine: Seq<ManifestItem>,
    map: Map<Seq<char>, Seq<char>>,
    n: int,
)
    requires
        0 <= n <= spine.len(),
        forall|j: int| 0 <= j < spine.len() ==> destination_of(#[trigger] spine[j], map) is Some,
    ensures
        document_steps(opf, out, spine, map, n).len() == n,
        forall|i: int|
            0 <= i < n ==> (#[trigger] document_steps(opf, out, spine, map, n)[i]).destination
                == joined(out, map[normalized_key(spine[i].href@)]) && document_steps(
                opf,
                out,
                spine,
                map,
                n,
            )[i].index == i,
    decreases n,
{
    if n > 0 {
        every_entry_gets_a_page(opf, out, spine, map, n - 1);
    }
}

/// For every package, the table of contents links to exactly the
/// destinations that the plan writes pages to: one entry and one page for
/// each entry of the reading order, in order.
pub proof fn every_toc_target_is_written(
    opf: Seq<char>,
    out: Seq<char>,
    items: Seq<ManifestItem>,
    refs: Seq<ItemRef>,
)
    ensures
        document_steps(
            opf,
            out,
            resolved_spine(items, refs),
            path_map_of(items),
            resolved_spine(items, refs).len() as int,
        ).len() == resolved_spine(items, refs).len(),
        toc_lines(
            resolved_spine(items, refs),
            path_map_of(items),
            resolved_spine(items, refs).len() as int,
        ).len() == resolved_spine(items, refs).len(),
        forall|i: int|
            #![trigger resolved_spine(items, refs)[i]]
            0 <= i < resolved_spine(items, refs).len() ==> {
                let spine = resolved_spine(items, refs);
                let map = path_map_of(items);
                let dest = map[normalized_key(spine[i].href@)];
                &&& map.contains_key(normalized_key(spine[i].href@))
                &&& toc_lines(spine, map, spine.len() as int)[i]
                    == toc_entry(dest, i as nat)
                &&& document_steps(opf, out, spine, map, spine.len() as int)[i].destination
                    == joined(out, dest)
            },
{
    let spine = resolved_spine(items, refs);
    let map = path_map_of(items);
    assert forall|j: int| 0 <= j < spine.len() implies destination_of(
        #[trigger] spine[j],
        map,
    ) is Some by {
        every_spine_entry_is_mapped(items, refs, j);
    }
    toc_is_complete(spine, map, spine.len() as int);
    every_entry_gets_a_page(opf, out, spine, map, spine.len() as int);
    assert forall|i: int| 0 <= i < spine.len() implies map.contains_key(
        normalized_key(spine[i].href@),
    ) by {
        every_spine_entry_is_mapped(items, refs, i);
    }
}

/// A book of two documents with different keys and different file names,
/// read in the order in which the manifest declares them: each document
/// lands at its plain destination; the plan writes the two pages in that
/// order; the first page has no link back and a link forward to the
/// second, the second a link back to the first and none forward; and a
/// reference in the first document that names the second is rewritten to
/// the relative reference from the folder of documents to the second
/// page, followed by the reference's fragment.
pub proof fn a_book_of_two_documents(
    a: ManifestItem,
    b: ManifestItem,
    refs: Seq<ItemRef>,
    opf: Seq<char>,
    out: Seq<char>,
    link: Seq<char>,
)
    requires
        is_document_type(a.media_type@),
        is_document_type(b.media_type@),
        normalized_key(a.href@) != normalized_key(b.href@),
        plain_destination(normalized_key(a.href@), true) != plain_destination(
            normalized_key(b.href@),
            true,
        ),
        normalized_key(a.id@) != normalized_key(b.id@),
        refs.len() == 2,
        normalized_key(refs[0].idref@) == normalized_key(a.id@),
        normalized_key(refs[1].idref@) == normalized_key(b.id@),
        !is_external(link),
        lookup_key(link, directory_of(normalized_key(a.href@)))
            == normalized_key(b.href@),
    ensures
        ({
            let items = seq![a, b];
            let map = path_map_of(items);
            let spine = resolved_spine(items, refs);
            let key_a = normalized_key(a.href@);
            let key_b = normalized_key(b.href@);
            let page_a = plain_destination(key_a, true);
            let page_b = plain_destination(key_b, true);
            let folder = "documents"@;
            &&& map == Map::<Seq<char>, Seq<char>>::empty().insert(key_a, page_a).insert(
                key_b,
                page_b,
            )
            &&& spine == seq![a, b]
            &&& directory_of(page_a) == folder
            &&& directory_of(page_b) == folder
            &&& document_steps(opf, out, spine, map, 2) == seq![
                StepText {
                    kind: StepKind::WriteDocument,
                    index: 0,
                    entry: entry_name_of(opf, a.href@),
                    destination: joined(out, page_a),
                },
                StepText {
                    kind: StepKind::WriteDocument,
                    index: 1,
                    entry: entry_name_of(opf, b.href@),
                    destination: joined(out, page_b),
                },
            ]
            &&& previous_slot(0, folder, spine, map) == seq![
                empty_slot(),
            ]
            &&& next_slot(0, folder, spine, map) == seq![
                next_link(
                    link_to(page_b, folder),
                ),
            ]
            &&& previous_slot(1, folder, spine, map) == seq![
                previous_link(
                    link_to(page_a, folder),
                ),
            ]
            &&& next_slot(1, folder, spine, map) == seq![
                empty_slot(),
            ]
            &&& rewritten_link(
                link,
                directory_of(key_a),
                page_a,
                map,
            ) == match relative_reference(page_b, folder) {
                Some(rel) => Some(rel + fragment_part(link)),
                None => None,
            }
        }),
{
    let items = seq![a, b];
    let key_a = normalized_key(a.href@);
    let key_b = normalized_key(b.href@);
    let page_a = plain_destination(key_a, true);
    let page_b = plain_destination(key_b, true);
    let none = Map::<Seq<char>, Seq<char>>::empty();
    let first = none.insert(key_a, page_a);
    let both = first.insert(key_b, page_b);
    // the path map
    assert(items.drop_last() =~= seq![a]);
    assert(seq![a].drop_last() =~= Seq::<ManifestItem>::empty());
    assert(path_map_of(Seq::<ManifestItem>::empty()) == none);
    documents_leave_the_stylesheet_alone(key_a, 1);
    documents_leave_the_stylesheet_alone(key_b, 1);
    assert(!taken_of(none).contains(page_a)) by {
        if none.values().contains(page_a) {
            let k = choose|k: Seq<char>| none.contains_key(k) && none[k] == page_a;
        }
    }
    free_names_are_kept(none, a);
    assert(path_map_of(seq![a]) == first);
    assert(!taken_of(first).contains(page_b)) by {
        if first.values().contains(page_b) {
            let k = choose|k: Seq<char>| first.contains_key(k) && first[k] == page_b;
            assert(k == key_a);
        }
    }
    free_names_are_kept(first, b);
    assert(path_map_of(items) == both);
    // the reading order
    assert(find_item(items, normalized_key(b.id@)) == Some(1int));
    assert(find_item(seq![a], normalized_key(a.id@)) == Some(0int));
    assert(find_item(items, normalized_key(a.id@)) == Some(0int));
    let one = refs.drop_last();
    assert(one.len() == 1 && one.last() == refs[0]);
    assert(one.drop_last().len() == 0);
    assert(resolved_spine(items, one.drop_last()) =~= Seq::<ManifestItem>::empty());
    assert(resolved_spine(items, one) =~= seq![a]);
    assert(resolved_spine(items, refs) =~= seq![a, b]);
    let spine = resolved_spine(items, refs);
    // the pages
    candidates_are_plain_files(key_a, true, 1);
    candidates_are_plain_files(key_b, true, 1);
    reveal_strlit("documents");
    assert(destination_of(spine[0], both) == Some(page_a));
    assert(destination_of(spine[1], both) == Some(page_b));
    assert(document_steps(opf, out, spine, both, 0) =~= Seq::<StepText>::empty());
    assert(document_steps(opf, out, spine, both, 1).len() == 1);
    assert(document_steps(opf, out, spine, both, 2) =~= seq![
        document_step(opf, out, spine, both, 0)->Some_0,
        document_step(opf, out, spine, both, 1)->Some_0,
    ]);
}

/// The place of the resource with the key `key`: the directory of the key
/// in the archive, and the key's destination in the site.
pub open spec fn place_of(key: Seq<char>, map: Map<Seq<char>, Seq<char>>) -> Place {
    Place { source_dir: directory_of(key), site_path: map[key], map }
}

/// The reference from the directory `from_dir` to the site's own
/// stylesheet.
pub open spec fn link_to_styles(from_dir: Seq<char>) -> Seq<char> {
    match relative_reference("assets/styles.css"@, from_dir) {
        Some(r) => r,
        None => "styles.css"@,
    }
}

/// The message of the error for a stylesheet whose key has no destination.
pub open spec fn unmapped_stylesheet_message(key: Seq<char>) -> Seq<char> {
    "Path not found in map for CSS href: "@ + key
}

/// The message of the error for a document whose key has no destination.
pub open spec fn unmapped_document_message(key: Seq<char>) -> Seq<char> {
    "Path not found in map for href: "@ + key
}

/// The page of the document `html`, which has the key `key`, lands at
/// `site_path` and stands at `index` of the reading order.
pub open spec fn page_at(
    html: Seq<char>,
    key: Seq<char>,
    site_path: Seq<char>,
    index: int,
    no_nav: bool,
    spine: Seq<ManifestItem>,
    map: Map<Seq<char>, Seq<char>>,
) -> Seq<char> {
    page_text(
        display_title(site_path, index as nat),
        transformed_markup(html, Place { source_dir: directory_of(key), site_path, map }),
        nav_text(no_nav, index, site_path, spine, map),
        link_to_styles(directory_of(site_path)),
        false,
    )
}

/// The page of the document `html`, which has the key `key` and stands at
/// `index` of the reading order.
pub open spec fn document_page(
    html: Seq<char>,
    key: Seq<char>,
    index: int,
    no_nav: bool,
    spine: Seq<ManifestItem>,
    map: Map<Seq<char>, Seq<char>>,
) -> Seq<char> {
    page_at(html, key, map[key], index, no_nav, spine, map)
}

/// Orchestrates the conversion of an EPUB to a static website.
pub struct SiteGenerator<'a> {
    epub: &'a Epub,
    output_dir: &'a str,
    no_nav: bool,
    path_map: PathMap,
    spine_items: Vec<ManifestItem>,
    fresh: Vec<bool>,
}

impl<'a> SiteGenerator<'a> {
    /// The book that is converted.
    pub closed spec fn book(&self) -> Epub {
        *self.epub
    }

    /// The directory that the site is written to.
    pub closed spec fn target(&self) -> Seq<char> {
        self.output_dir@
    }

    /// Whether the pages get no navigation.
    pub closed spec fn navigation_off(&self) -> bool {
        self.no_nav
    }

    /// Where each resource lands.
    pub closed spec fn mapping(&self) -> Map<Seq<char>, Seq<char>> {
        self.path_map@
    }

    /// The documents in reading order.
    pub closed spec fn reading_order(&self) -> Seq<ManifestItem> {
        self.spine_items@
    }

    /// The invariant of a generator: its path map is well formed, and once
    /// anything is mapped it knows for each manifest item whether it is the
    /// first with its key.
    pub closed spec fn wf(&self) -> bool {
        &&& self.path_map.wf()
        &&& if self.fresh.len() == 0 {
            self.path_map@ == Map::<Seq<char>, Seq<char>>::empty()
        } else {
            &&& self.fresh.len() == self.epub.content().manifest.items.len()
            &&& forall|i: int|
                0 <= i < self.fresh.len() ==> #[trigger] self.fresh@[i] == is_first_of_key(
                    self.epub.content().manifest.items@,
                    i,
                )
        }
    }

    /// A generator for `epub` that writes below `output_dir`. Nothing is
    /// mapped yet.
    pub fn new(epub: &'a Epub, output_dir: &'a str, no_nav: bool) -> (r: Self)
        ensures
            r.wf(),
            r.book() == *epub,
            r.target() == output_dir@,
            r.navigation_off() == no_nav,
            r.mapping() == Map::<Seq<char>, Seq<char>>::empty(),
            r.reading_order() == Seq::<ManifestItem>::empty(),
    {
        Self {
            epub,
            output_dir,
            no_nav,
            path_map: PathMap::new(),
            spine_items: Vec::new(),
            fresh: Vec::new(),
        }
    }

    /// The path map.
    pub fn path_map(&self) -> (r: &PathMap)
        ensures
            r@ == self.mapping(),
            self.wf() ==> r.wf(),
    {
        &self.path_map
    }

    /// The documents in reading order.
    pub fn spine_items(&self) -> (r: &Vec<ManifestItem>)
        ensures
            r@ == self.reading_order(),
    {
        &self.spine_items
    }

    /// Computes the path map and the reading order of the book, and returns
    /// the references of the spine that name no manifest item. A book
    /// without resources or without reading order is refused, and the
    /// generator stays as it was.
    pub fn build_path_map_and_spine(&mut self) -> (r: Result<Vec<String>, AppError>)
        ensures
            final(self).book() == old(self).book(),
            final(self).target() == old(self).target(),
            final(self).navigation_off() == old(self).navigation_off(),
            match r {
                Ok(missing) => {
                    &&& old(self).book().content().manifest.items.len() > 0
                    &&& old(self).book().content().spine.item_refs.len() > 0
                    &&& final(self).wf()
                    &&& final(self).mapping() == path_map_of(
                        old(self).book().content().manifest.items@,
                    )
                    &&& final(self).reading_order() == resolved_spine(
                        old(self).book().content().manifest.items@,
                        old(self).book().content().spine.item_refs@,
                    )
                    &&& texts(missing@) == missing_ids(
                        old(self).book().content().manifest.items@,
                        old(self).book().content().spine.item_refs@,
                    )
                },
                Err(AppError::InvalidEpubFormat(what)) => {
                    &&& final(self).mapping() == old(self).mapping()
                    &&& final(self).reading_order() == old(self).reading_order()
                    &&& final(self).wf() == old(self).wf()
                    &&& if old(self).book().content().manifest.items.len() == 0 {
                        what@ == crate::epub::layout::empty_manifest_message()
                    } else {
                        old(self).book().content().spine.item_refs.len() == 0 && what@
                            == crate::epub::layout::empty_spine_message()
                    }
                },
                Err(_) => false,
            },
    {
        match build_layout(&self.epub.manifest().items, &self.epub.spine().item_refs) {
            Ok(layout) => {
                self.path_map = layout.path_map;
                self.spine_items = layout.spine_items;
                self.fresh = layout.fresh;
                Ok(layout.missing)
            },
            Err(e) => Err(e),
        }
    }

    /// The steps that copy or rewrite the resources that are no documents.
    pub fn process_and_copy_assets(&self) -> (r: Vec<Step>)
        requires
            self.wf(),
        ensures
            step_texts(r@) == asset_steps(
                self.book().package_path(),
                self.target(),
                self.book().content().manifest.items@,
                self.mapping(),
                self.book().content().manifest.items.len() as int,
            ),
    {
        let items = &self.epub.manifest().items;
        let ghost opf = self.book().package_path();
        let ghost out = self.target();
        let mut steps: Vec<Step> = Vec::new();
        let mut i: usize = 0;
        while i < items.len()
            invariant
                i <= items.len(),
                items@ == self.book().content().manifest.items@,
                opf == self.book().package_path(),
                out == self.target(),
                self.wf(),
                step_texts(steps@) == asset_steps(opf, out, items@, self.mapping(), i as int),
            decreases items.len() - i,
        {
            let item = &items[i];
            if !is_document(item.media_type.as_str()) && i < self.fresh.len() && self.fresh[i] {
                match find_destination(item, &self.path_map) {
                    Some(dest) => {
                        let kind = if is_stylesheet(item.media_type.as_str()) {
                            StepKind::WriteStylesheet
                        } else {
                            StepKind::CopyAsset
                        };
                        steps.push(
                            Step {
                                kind,
                                index: i,
                                entry: self.epub.entry_name(item),
                                destination: join_path(self.output_dir, dest.as_str()),
                            },
                        );
                    },
                    None => {},
                }
            }
            i += 1;
        }
        steps
    }

    /// The steps that write the pages, in reading order.
    pub fn transform_content_documents(&self) -> (r: Vec<Step>)
        ensures
            step_texts(r@) == document_steps(
                self.book().package_path(),
                self.target(),
                self.reading_order(),
                self.mapping(),
                self.reading_order().len() as int,
            ),
    {
        let ghost opf = self.book().package_path();
        let ghost out = self.target();
        let mut steps: Vec<Step> = Vec::new();
        let mut i: usize = 0;
        while i < self.spine_items.len()
            invariant
                i <= self.spine_items.len(),
                opf == self.book().package_path(),
                out == self.target(),
                step_texts(steps@) == document_steps(
                    opf,
                    out,
                    self.reading_order(),
                    self.mapping(),
                    i as int,
                ),
            decreases self.spine_items.len() - i,
        {
            let item = &self.spine_items[i];
            match find_destination(item, &self.path_map) {
                Some(dest) => {
                    steps.push(
                        Step {
                            kind: StepKind::WriteDocument,
                            index: i,
                            entry: self.epub.entry_name(item),
                            destination: join_path(self.output_dir, dest.as_str()),
                        },
                    );
                },
                None => {},
            }
            i += 1;
        }
        steps
    }

    /// The steps that set up the output directory: whatever is there is
    /// removed, and the folders for assets and documents are created.
    pub fn prepare_directory(&self) -> (r: Vec<Step>)
        ensures
            step_texts(r@) == directory_steps(self.target()),
    {
        let mut steps: Vec<Step> = Vec::new();
        steps.push(
            Step {
                kind: StepKind::ResetDirectory,
                index: 0,
                entry: String::new(),
                destination: self.output_dir.to_owned(),
            },
        );
        steps.push(
            Step {
                kind: StepKind::CreateDirectory,
                index: 0,
                entry: String::new(),
                destination: join_path(self.output_dir, "assets"),
            },
        );
        steps.push(
            Step {
                kind: StepKind::CreateDirectory,
                index: 0,
                entry: String::new(),
                destination: join_path(self.output_dir, "documents"),
            },
        );
        steps
    }

    /// The site's own stylesheet.
    pub fn copy_static_assets(&self) -> (r: String)
        ensures
            r@ == STYLES_CSS@,
    {
        STYLES_CSS.to_owned()
    }

    /// Plans the conversion: computes the path map and the reading order,
    /// and returns the steps to carry out, in order, with what was left
    /// out. A book without resources or without reading order is refused.
    pub fn run(&mut self) -> (r: Result<Plan, AppError>)
        ensures
            final(self).book() == old(self).book(),
            final(self).target() == old(self).target(),
            final(self).navigation_off() == old(self).navigation_off(),
            match r {
                Ok(plan) => {
                    &&& old(self).book().content().manifest.items.len() > 0
                    &&& old(self).book().content().spine.item_refs.len() > 0
                    &&& final(self).wf()
                    &&& final(self).mapping() == path_map_of(
                        old(self).book().content().manifest.items@,
                    )
                    &&& final(self).reading_order() == resolved_spine(
                        old(self).book().content().manifest.items@,
                        old(self).book().content().spine.item_refs@,
                    )
                    &&& step_texts(plan.steps@) == site_plan(
                        old(self).book().package_path(),
                        old(self).target(),
                        old(self).book().content().manifest.items@,
                        final(self).reading_order(),
                        final(self).mapping(),
                    )
                    &&& texts(plan.missing@) == missing_ids(
                        old(self).book().content().manifest.items@,
                        old(self).book().content().spine.item_refs@,
                    )
                    &&& plan.fresh.len() == old(self).book().content().manifest.items.len()
                    &&& forall|i: int|
                        0 <= i < plan.fresh.len() ==> #[trigger] plan.fresh@[i] == is_first_of_key(
                            old(self).book().content().manifest.items@,
                            i,
                        )
                },
                Err(AppError::InvalidEpubFormat(what)) => {
                    &&& final(self).mapping() == old(self).mapping()
                    &&& final(self).reading_order() == old(self).reading_order()
                    &&& if old(self).book().content().manifest.items.len() == 0 {
                        what@ == crate::epub::layout::empty_manifest_message()
                    } else {
                        old(self).book().content().spine.item_refs.len() == 0 && what@
                            == crate::epub::layout::empty_spine_message()
                    }
                },
                Err(_) => false,
            },
    {
        let layout = match build_layout(&self.epub.manifest().items, &self.epub.spine().item_refs) {
            Ok(layout) => layout,
            Err(e) => {
                return Err(e);
            },
        };
        self.path_map = layout.path_map;
        self.spine_items = layout.spine_items;
        self.fresh = layout.fresh.clone();
        let mut steps = self.prepare_directory();
        let mut assets = self.process_and_copy_assets();
        steps.append(&mut assets);
        steps.push(
            Step {
                kind: StepKind::WriteSharedStyles,
                index: 0,
                entry: String::new(),
                destination: join_path(self.output_dir, "assets/styles.css"),
            },
        );
        let mut pages = self.transform_content_documents();
        steps.append(&mut pages);
        steps.push(
            Step {
                kind: StepKind::WriteIndex,
                index: 0,
                entry: String::new(),
                destination: join_path(self.output_dir, "index.html"),
            },
        );
        Ok(Plan { steps, missing: layout.missing, fresh: layout.fresh })
    }

    /// Rewrites the stylesheet of a manifest item: every `url(...)` in it
    /// is resolved from the stylesheet's place. An item whose key has no
    /// destination is an error.
    pub fn transform_and_copy_css(&self, item: &ManifestItem, original_css: &str) -> (r: Result<
        Transformed,
        AppError,
    >)
        ensures
            match r {
                Ok(t) => {
                    &&& self.mapping().contains_key(normalized_key(item.href@))
                    &&& t.text@ == rewritten_stylesheet(
                        original_css@,
                        place_of(normalized_key(item.href@), self.mapping()),
                    )
                    &&& diagnostic_texts(t.diagnostics@) == stylesheet_warnings(
                        original_css@,
                        place_of(normalized_key(item.href@), self.mapping()),
                    )
                },
                Err(AppError::InvalidEpubFormat(what)) => !self.mapping().contains_key(
                    normalized_key(item.href@),
                ) && what@ == unmapped_stylesheet_message(normalized_key(item.href@)),
                Err(_) => false,
            },
    {
        let key = normalize_path_key(item.href.as_str());
        let source_epub_dir = parent_directory(key.as_str());
        match self.path_map.get(key.as_str()) {
            Some(source_site_path) => Ok(
                transform_stylesheet(
                    original_css,
                    source_epub_dir.as_str(),
                    source_site_path.as_str(),
                    &self.path_map,
                ),
            ),
            None => Err(
                AppError::InvalidEpubFormat(
                    followed_by("Path not found in map for CSS href: ", key.as_str()),
                ),
            ),
        }
    }

    /// The navigation of the page at `spine_index`, which lands at
    /// `current_site_path`.
    pub fn create_nav_html(&self, spine_index: usize, current_site_path: &str) -> (r: String)
        ensures
            r@ == nav_text(
                self.navigation_off(),
                spine_index as int,
                current_site_path@,
                self.reading_order(),
                self.mapping(),
            ),
    {
        create_nav_html(
            self.no_nav,
            spine_index,
            current_site_path,
            &self.spine_items,
            &self.path_map,
        )
    }

    /// The page for the document `html` with the key `key`, which lands at
    /// `source_site_path`.
    pub fn page_for(
        &self,
        html: &str,
        key: &str,
        source_site_path: &str,
        spine_index: usize,
    ) -> (r: Transformed)
        ensures
            r.text@ == page_at(
                html@,
                key@,
                source_site_path@,
                spine_index as int,
                self.navigation_off(),
                self.reading_order(),
                self.mapping(),
            ),
            diagnostic_texts(r.diagnostics@) == markup_warnings(
                html@,
                Place {
                    source_dir: directory_of(key@),
                    site_path: source_site_path@,
                    map: self.mapping(),
                },
            ),
    {
        let source_epub_dir = parent_directory(key);
        let body = transform_markup(
            html,
            source_epub_dir.as_str(),
            source_site_path,
            &self.path_map,
        );
        let nav_html = self.create_nav_html(spine_index, source_site_path);
        let source_site_dir = parent_directory(source_site_path);
        let styles_rel_path = match relative_path("assets/styles.css", source_site_dir.as_str()) {
            Some(r) => r,
            None => "styles.css".to_owned(),
        };
        let title = title_of(source_site_path, spine_index);
        let text = render_page(
            title.as_str(),
            body.text.as_str(),
            nav_html.as_str(),
            styles_rel_path.as_str(),
            false,
        );
        Transformed { text, diagnostics: body.diagnostics }
    }

    /// Turns the content document of a manifest item, which stands at
    /// `spine_index` of the reading order, into its page: the body of the
    /// document with its references rewritten, set into the template with
    /// its title, its navigation and the reference to the site's
    /// stylesheet. An item whose key has no destination is an error.
    pub fn transform_html_file(
        &self,
        item: &ManifestItem,
        spine_index: usize,
        original_html_bytes: &[u8],
    ) -> (r: Result<Transformed, AppError>)
        ensures
            match r {
                Ok(t) => {
                    &&& self.mapping().contains_key(normalized_key(item.href@))
                    &&& t.text@ == document_page(
                        text_of(original_html_bytes@),
                        normalized_key(item.href@),
                        spine_index as int,
                        self.navigation_off(),
                        self.reading_order(),
                        self.mapping(),
                    )
                    &&& diagnostic_texts(t.diagnostics@) == markup_warnings(
                        text_of(original_html_bytes@),
                        place_of(normalized_key(item.href@), self.mapping()),
                    )
                },
                Err(AppError::InvalidEpubFormat(what)) => !self.mapping().contains_key(
                    normalized_key(item.href@),
                ) && what@ == unmapped_document_message(normalized_key(item.href@)),
                Err(_) => false,
            },
    {
        let key = normalize_path_key(item.href.as_str());
        match self.path_map.get(key.as_str()) {
            Some(source_site_path) => {
                let html = text_of_bytes(original_html_bytes);
                Ok(self.page_for(html.as_str(), key.as_str(), source_site_path.as_str(), spine_index))
            },
            None => Err(
                AppError::InvalidEpubFormat(followed_by("Path not found in map for href: ", key.as_str())),
            ),
        }
    }

    /// The index page of the site.
    pub fn generate_toc(&self) -> (r: String)
        ensures
            r@ == toc_page(
                self.book().content().metadata.title@,
                self.reading_order(),
                self.mapping(),
            ),
    {
        generate_toc(&self.epub.metadata().title, &self.spine_items, &self.path_map)
    }
}

} // verus!
