//! An opened EPUB as the library sees it: its package document and where
//! that document lies in the archive.
pub mod document;
pub mod layout;
pub mod markup;
pub mod model;
pub mod navigation;
pub mod page;
pub mod path_map;
pub mod rewriter;
pub mod site_generator;
pub mod stylesheet;

use crate::epub::model::{Container, Manifest, ManifestItem, Metadata, Package, Spine};
use crate::error::AppError;
use crate::paths::{directory_of, join_path, joined, parent_directory, slash_form, to_slash};
use vstd::prelude::*;

verus! {

/// The name of the archive entry that holds the resource `href`, which is
/// given relative to the package document at `opf_path`.
pub open spec fn entry_name_of(opf_path: Seq<char>, href: Seq<char>) -> Seq<char> {
    slash_form(joined(directory_of(opf_path), href))
}

/// The message of the error for a container without rootfile.
pub open spec fn no_rootfile_message() -> Seq<char> {
    "No rootfile found in container.xml"@
}

/// An EPUB whose descriptor files have been read.
#[derive(Debug)]
pub struct Epub {
    path: String,
    package: Package,
    opf_path: String,
}

impl Epub {
    /// The path of the EPUB file.
    pub closed spec fn source(&self) -> Seq<char> {
        self.path@
    }

    /// The path of the package document inside the archive.
    pub closed spec fn package_path(&self) -> Seq<char> {
        self.opf_path@
    }

    /// The package document.
    pub closed spec fn content(&self) -> Package {
        self.package
    }

    /// An EPUB at `path` whose package document lies at `opf_path` in the
    /// archive and holds `package`.
    pub fn new(path: String, opf_path: String, package: Package) -> (r: Epub)
        ensures
            r.source() == path@,
            r.package_path() == opf_path@,
            r.content() == package,
    {
        Epub { path, package, opf_path }
    }

    /// Finds the package document in a container: the path of its first
    /// rootfile. A container without rootfile is an error.
    pub fn find_opf_path(container: &Container) -> (r: Result<String, AppError>)
        ensures
            match r {
                Ok(path) => container.rootfiles.rootfile.len() > 0 && path
                    == container.rootfiles.rootfile[0].full_path,
                Err(AppError::InvalidEpubFormat(what)) => container.rootfiles.rootfile.len() == 0
                    && what@ == no_rootfile_message(),
                Err(_) => false,
            },
    {
        if container.rootfiles.rootfile.len() > 0 {
            Ok(container.rootfiles.rootfile[0].full_path.clone())
        } else {
            Err(AppError::InvalidEpubFormat("No rootfile found in container.xml".to_owned()))
        }
    }

    /// The path of the EPUB file.
    pub fn path(&self) -> (r: &String)
        ensures
            r@ == self.source(),
    {
        &self.path
    }

    /// The path of the package document inside the archive.
    pub fn opf_path(&self) -> (r: &String)
        ensures
            r@ == self.package_path(),
    {
        &self.opf_path
    }

    /// The metadata of the book.
    pub fn metadata(&self) -> (r: &Metadata)
        ensures
            *r == self.content().metadata,
    {
        &self.package.metadata
    }

    /// The declared resources of the book.
    pub fn manifest(&self) -> (r: &Manifest)
        ensures
            *r == self.content().manifest,
    {
        &self.package.manifest
    }

    /// The reading order of the book.
    pub fn spine(&self) -> (r: &Spine)
        ensures
            *r == self.content().spine,
    {
        &self.package.spine
    }

    /// The name of the archive entry that holds a manifest item: its
    /// reference taken relative to the directory of the package document.
    pub fn entry_name(&self, item: &ManifestItem) -> (r: String)
        ensures
            r@ == entry_name_of(self.package_path(), item.href@),
    {
        let opf_dir = parent_directory(self.opf_path.as_str());
        let file_path = join_path(opf_dir.as_str(), item.href.as_str());
        to_slash(file_path.as_str())
    }
}

} // verus!
