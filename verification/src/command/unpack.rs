//! The `unpack` command: where the archive is extracted to.
use crate::error::AppError;
use crate::paths::{file_stem, file_stem_of};
use vstd::prelude::*;

verus! {

/// Determines the directory to extract into: the one asked for, or one
/// named by the stem of the source's file name. A source without file
/// name, such as the empty path, `/` or `x/..`, is an error.
pub fn get_destination_path(source: &str, destination: Option<String>) -> (r: Result<
    String,
    AppError,
>)
    ensures
        match destination {
            Some(path) => r == Ok::<String, AppError>(path),
            None => match file_stem_of(source@) {
                Some(stem) => r is Ok && r->Ok_0@ == stem,
                None => r matches Err(AppError::InvalidSourcePath { path }) && path@ == source@,
            },
        },
{
    match destination {
        Some(path) => Ok(path),
        None => match file_stem(source) {
            Some(stem) => Ok(stem),
            None => Err(AppError::InvalidSourcePath { path: source.to_owned() }),
        },
    }
}

} // verus!
