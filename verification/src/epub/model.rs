//! The records of an EPUB's descriptor files.
use vstd::prelude::*;

verus! {

/// The `<container>` element of `META-INF/container.xml`.
#[derive(Debug)]
pub struct Container {
    pub rootfiles: Rootfiles,
}

/// The `<rootfiles>` element.
#[derive(Debug)]
pub struct Rootfiles {
    pub rootfile: Vec<Rootfile>,
}

/// A `<rootfile>` element: where a package document lies in the archive.
#[derive(Debug)]
pub struct Rootfile {
    pub full_path: String,
    pub _media_type: String,
}

/// The package document.
#[derive(Debug)]
pub struct Package {
    pub metadata: Metadata,
    pub manifest: Manifest,
    pub spine: Spine,
}

/// The bibliographic metadata of a package.
#[derive(Debug)]
pub struct Metadata {
    pub creator: Vec<Creator>,
    pub title: Vec<String>,
    pub language: Vec<String>,
    pub identifier: Vec<Identifier>,
}

/// A `<dc:creator>` element.
#[derive(Debug)]
pub struct Creator {
    pub _id: Option<String>,
    pub name: String,
}

/// A `<dc:identifier>` element.
#[derive(Debug)]
pub struct Identifier {
    pub _id: Option<String>,
    pub value: String,
}

/// The declared resources of a package.
#[derive(Debug)]
pub struct Manifest {
    pub items: Vec<ManifestItem>,
}

/// One declared resource: its identifier, its place in the archive relative
/// to the package document, and its media type.
#[derive(Debug)]
pub struct ManifestItem {
    pub id: String,
    pub href: String,
    pub media_type: String,
}

/// The reading order of a package.
#[derive(Debug)]
pub struct Spine {
    pub item_refs: Vec<ItemRef>,
}

/// One entry of the reading order: the identifier of a manifest item.
#[derive(Debug)]
pub struct ItemRef {
    pub idref: String,
}

impl Clone for ManifestItem {
    fn clone(&self) -> (r: Self)
        ensures
            r == *self,
    {
        ManifestItem {
            id: self.id.clone(),
            href: self.href.clone(),
            media_type: self.media_type.clone(),
        }
    }
}

} // verus!
