//! The commands of the tool and their arguments, as plain values.
use vstd::prelude::*;

verus! {

/// A toolkit for working with EPUB files.
#[derive(Debug)]
pub struct Cli {
    pub command: Commands,
}

/// What the tool is asked to do.
#[derive(Debug)]
pub enum Commands {
    /// Unpacks an EPUB file into a directory.
    Unpack(UnpackArgs),
    /// Shows the metadata of an EPUB file.
    Meta(MetaArgs),
    /// Converts an EPUB file into a static website.
    Webify(WebifyArgs),
}

/// Arguments of `unpack`.
#[derive(Debug)]
pub struct UnpackArgs {
    /// The path of the EPUB file.
    pub source: String,
    /// The directory to extract into; named after the EPUB file if omitted.
    pub destination: Option<String>,
}

/// Arguments of `meta`.
#[derive(Debug)]
pub struct MetaArgs {
    /// The path of the EPUB file.
    pub source: String,
}

/// Arguments of `webify`.
#[derive(Debug)]
pub struct WebifyArgs {
    /// The path of the EPUB file.
    pub source: String,
    /// The directory of the website; named after the EPUB file if omitted.
    pub destination: Option<String>,
    /// Leave the previous/next controls out of the pages.
    pub no_nav: bool,
    /// Serve the site on a local web server once it is built.
    pub serve: bool,
}

} // verus!
