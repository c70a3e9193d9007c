//! Converts the contents of an EPUB archive into a static website: where
//! each resource lands, how every internal reference is rewritten, and the
//! navigation that ties the pages together.
pub mod cli;
pub mod command;
pub mod epub;
pub mod error;
pub mod paths;
pub mod text;
