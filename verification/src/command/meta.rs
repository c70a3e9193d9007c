//! The `meta` command: what is shown of a book's metadata.
use crate::epub::model::{Creator, Metadata};
use crate::text::{append_str, string_of};
use vstd::prelude::*;

verus! {

/// The names of the first `n` creators with `, ` between each two.
pub open spec fn creator_names(creators: Seq<Creator>, n: int) -> Seq<char>
    decreases n,
{
    if n <= 0 || n > creators.len() {
        Seq::empty()
    } else if n == 1 {
        creators[0].name@
    } else {
        creator_names(creators, n - 1) + ", "@ + creators[n - 1].name@
    }
}

/// A line of the report: a label and a value.
pub open spec fn report_line(label: Seq<char>, value: Seq<char>) -> Seq<char> {
    label + value + seq!['\n']
}

/// The line for the title: that of the first title, if there is one.
pub open spec fn title_line(metadata: Metadata) -> Seq<char> {
    if metadata.title.len() > 0 {
        report_line("Title:    "@, metadata.title[0]@)
    } else {
        Seq::empty()
    }
}

/// The line for the authors, if any has a name.
pub open spec fn authors_line(metadata: Metadata) -> Seq<char> {
    let names = creator_names(metadata.creator@, metadata.creator.len() as int);
    if names.len() > 0 {
        report_line("Author(s): "@, names)
    } else {
        Seq::empty()
    }
}

/// The line for the language: that of the first language, if there is one.
pub open spec fn language_line(metadata: Metadata) -> Seq<char> {
    if metadata.language.len() > 0 {
        report_line("Language: "@, metadata.language[0]@)
    } else {
        Seq::empty()
    }
}

/// The line for the identifier: that of the first one, if there is one.
pub open spec fn identifier_line(metadata: Metadata) -> Seq<char> {
    if metadata.identifier.len() > 0 {
        report_line("Identifier: "@, metadata.identifier[0].value@)
    } else {
        Seq::empty()
    }
}

/// What is shown of a book's metadata.
pub open spec fn metadata_text(metadata: Metadata) -> Seq<char> {
    "\n--- EPUB Metadata ---\n"@ + title_line(metadata) + authors_line(metadata) + language_line(
        metadata,
    ) + identifier_line(metadata) + "---------------------\n\n"@
}

/// The names of the creators with `, ` between each two.
pub fn join_creators(creators: &Vec<Creator>) -> (r: Vec<char>)
    ensures
        r@ == creator_names(creators@, creators.len() as int),
{
    let mut out: Vec<char> = Vec::new();
    let mut i: usize = 0;
    while i < creators.len()
        invariant
            i <= creators.len(),
            out@ == creator_names(creators@, i as int),
        decreases creators.len() - i,
    {
        if i > 0 {
            append_str(&mut out, ", ");
        }
        append_str(&mut out, creators[i].name.as_str());
        i += 1;
    }
    out
}

/// Lays out a book's metadata for reading: a heading, then the first
/// title, the names of all creators, the first language and the first
/// identifier, each on its own line and only if present, then a rule.
pub fn format_metadata(metadata: &Metadata) -> (r: String)
    ensures
        r@ == metadata_text(*metadata),
{
    let mut out: Vec<char> = Vec::new();
    append_str(&mut out, "\n--- EPUB Metadata ---\n");
    if metadata.title.len() > 0 {
        append_str(&mut out, "Title:    ");
        append_str(&mut out, metadata.title[0].as_str());
        out.push('\n');
    }
    let names = join_creators(&metadata.creator);
    if names.len() > 0 {
        append_str(&mut out, "Author(s): ");
        crate::text::append_range(&mut out, &names, 0, names.len());
        out.push('\n');
    }
    if metadata.language.len() > 0 {
        append_str(&mut out, "Language: ");
        append_str(&mut out, metadata.language[0].as_str());
        out.push('\n');
    }
    if metadata.identifier.len() > 0 {
        append_str(&mut out, "Identifier: ");
        append_str(&mut out, metadata.identifier[0].value.as_str());
        out.push('\n');
    }
    append_str(&mut out, "---------------------\n\n");
    string_of(&out)
}

} // verus!
