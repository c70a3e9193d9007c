//! The `webify` command: where the website is written to.
use crate::error::AppError;
use crate::paths::{file_stem, file_stem_of, set_extension, with_extension};
use vstd::prelude::*;

verus! {

/// Determines the directory of the website: the one asked for, or the
/// stem of the source's file name with its extension replaced by `site`,
/// so that `mybook.epub` gives `mybook.site`. A source without file name,
/// such as the empty path, `/` or `x/..`, is an error.
pub fn get_destination_path(source: &str, destination: Option<String>) -> (r: Result<
    String,
    AppError,
>)
    ensures
        match destination {
            Some(path) => r == Ok::<String, AppError>(path),
            None => match file_stem_of(source@) {
                Some(stem) => r is Ok && r->Ok_0@ == with_extension(stem, "site"@),
                None => r matches Err(AppError::InvalidSourcePath { path }) && path@ == source@,
            },
        },
{
    match destination {
        Some(path) => Ok(path),
        None => match file_stem(source) {
            Some(stem) => Ok(set_extension(stem.as_str(), "site")),
            None => Err(AppError::InvalidSourcePath { path: source.to_owned() }),
        },
    }
}

} // verus!
