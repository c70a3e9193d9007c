use epub_webify::cli::{Cli, Commands, MetaArgs, UnpackArgs, WebifyArgs};
use epub_webify::command::meta::{format_metadata, join_creators};
use epub_webify::command::unpack;
use epub_webify::command::webify;
use epub_webify::epub::model::{Creator, Identifier, Metadata};
use epub_webify::error::AppError;

fn metadata(titles: &[&str], creators: &[&str], languages: &[&str], ids: &[&str]) -> Metadata {
    Metadata {
        creator: creators.iter().map(|n| Creator { _id: None, name: n.to_string() }).collect(),
        title: titles.iter().map(|t| t.to_string()).collect(),
        language: languages.iter().map(|l| l.to_string()).collect(),
        identifier: ids.iter().map(|v| Identifier { _id: None, value: v.to_string() }).collect(),
    }
}

#[test]
fn unpack_uses_the_destination_that_is_given() {
    match unpack::get_destination_path("books/mybook.epub", Some("out/dir".to_string())) {
        Ok(path) => assert_eq!(path, "out/dir"),
        Err(_) => panic!("a given destination is always accepted"),
    }
    match unpack::get_destination_path("", Some("x".to_string())) {
        Ok(path) => assert_eq!(path, "x"),
        Err(_) => panic!("a given destination is always accepted"),
    }
}

#[test]
fn unpack_defaults_to_the_stem_of_the_source() {
    match unpack::get_destination_path("books/mybook.epub", None) {
        Ok(path) => assert_eq!(path, "mybook"),
        Err(_) => panic!("the source names a file"),
    }
    match unpack::get_destination_path("my.book.epub", None) {
        Ok(path) => assert_eq!(path, "my.book"),
        Err(_) => panic!("the source names a file"),
    }
    match unpack::get_destination_path("noext", None) {
        Ok(path) => assert_eq!(path, "noext"),
        Err(_) => panic!("the source names a file"),
    }
}

#[test]
fn a_source_that_ends_in_a_separator_names_its_last_segment() {
    match unpack::get_destination_path("books/", None) {
        Ok(path) => assert_eq!(path, "books"),
        Err(_) => panic!("the source names a file"),
    }
    match webify::get_destination_path("books/", None) {
        Ok(path) => assert_eq!(path, "books.site"),
        Err(_) => panic!("the source names a file"),
    }
    match unpack::get_destination_path("lib/my.book.epub/.", None) {
        Ok(path) => assert_eq!(path, "my.book"),
        Err(_) => panic!("the source names a file"),
    }
}

#[test]
fn destinations_agree_with_std() {
    for source in ["", "/", "..", "x/..", "books/", "a/b.epub", "my.book.epub", "noext", "..epub", "...epub", ".epub", "a/./b.c.d/"] {
        let p = std::path::Path::new(source);
        let unpacked = p.file_stem().map(|s| s.to_string_lossy().into_owned());
        let site = p.file_stem().map(|s| {
            let mut q = std::path::PathBuf::from(s);
            q.set_extension("site");
            q.to_string_lossy().into_owned()
        });
        assert_eq!(unpack::get_destination_path(source, None).ok(), unpacked, "source: {:?}", source);
        assert_eq!(webify::get_destination_path(source, None).ok(), site, "source: {:?}", source);
    }
}

#[test]
fn unpack_refuses_a_source_without_file_name() {
    for source in ["", "..", "books/..", "/", ".", "./", "x/../"] {
        match unpack::get_destination_path(source, None) {
            Err(AppError::InvalidSourcePath { path }) => assert_eq!(path, source),
            _ => panic!("a source without file name must be refused"),
        }
    }
}

#[test]
fn webify_uses_the_destination_that_is_given() {
    match webify::get_destination_path("books/mybook.epub", Some("site".to_string())) {
        Ok(path) => assert_eq!(path, "site"),
        Err(_) => panic!("a given destination is always accepted"),
    }
}

#[test]
fn webify_defaults_to_a_site_directory() {
    match webify::get_destination_path("books/mybook.epub", None) {
        Ok(path) => assert_eq!(path, "mybook.site"),
        Err(_) => panic!("the source names a file"),
    }
    match webify::get_destination_path("my.book.epub", None) {
        Ok(path) => assert_eq!(path, "my.site"),
        Err(_) => panic!("the source names a file"),
    }
    match webify::get_destination_path("noext", None) {
        Ok(path) => assert_eq!(path, "noext.site"),
        Err(_) => panic!("the source names a file"),
    }
}

#[test]
fn webify_refuses_a_source_without_file_name() {
    match webify::get_destination_path("books/..", None) {
        Err(e) => assert_eq!(e.message(), "Source file 'books/..' has no valid file name"),
        Ok(_) => panic!("a source without file name must be refused"),
    }
}

#[test]
fn metadata_is_laid_out_line_by_line() {
    let m = metadata(&["Moby-Dick", "The Whale"], &["Herman Melville", "A. N. Other"], &["en", "fr"], &["urn:isbn:1", "x"]);
    assert_eq!(
        format_metadata(&m),
        "\n--- EPUB Metadata ---\nTitle:    Moby-Dick\nAuthor(s): Herman Melville, A. N. Other\nLanguage: en\nIdentifier: urn:isbn:1\n---------------------\n\n"
    );
}

#[test]
fn absent_metadata_is_left_out() {
    assert_eq!(
        format_metadata(&metadata(&[], &[], &[], &[])),
        "\n--- EPUB Metadata ---\n---------------------\n\n"
    );
    assert_eq!(
        format_metadata(&metadata(&[], &[""], &["de"], &[])),
        "\n--- EPUB Metadata ---\nLanguage: de\n---------------------\n\n"
    );
    assert_eq!(
        format_metadata(&metadata(&["T"], &["", ""], &[], &[])),
        "\n--- EPUB Metadata ---\nTitle:    T\nAuthor(s): , \n---------------------\n\n"
    );
}

#[test]
fn creators_are_joined_with_commas() {
    let m = metadata(&[], &["a", "b", "c"], &[], &[]);
    let joined: String = join_creators(&m.creator).into_iter().collect();
    assert_eq!(joined, "a, b, c");
}

#[test]
fn every_error_has_its_message() {
    let cases = vec![
        (
            AppError::DirectoryCreation { path: "out".to_string(), source: "denied".to_string() },
            "Failed to create directory 'out': denied",
        ),
        (
            AppError::ZipExtraction { path: "b.epub".to_string(), source: "bad zip".to_string() },
            "Failed to extract ZIP archive 'b.epub': bad zip",
        ),
        (
            AppError::XmlParsing { path: "c.opf".to_string(), source: "eof".to_string() },
            "Failed to parse XML file 'c.opf': eof",
        ),
        (AppError::InvalidEpubFormat("no spine".to_string()), "Invalid EPUB format: no spine"),
        (AppError::Io { source: "broken pipe".to_string() }, "I/O error: broken pipe"),
        (
            AppError::InvalidSourcePath { path: "..".to_string() },
            "Source file '..' has no valid file name",
        ),
    ];
    for (error, message) in cases {
        assert_eq!(error.message(), message);
    }
}

#[test]
fn arguments_are_plain_values() {
    let cli = Cli {
        command: Commands::Webify(WebifyArgs {
            source: "b.epub".to_string(),
            destination: None,
            no_nav: true,
            serve: false,
        }),
    };
    match cli.command {
        Commands::Webify(args) => {
            assert!(args.no_nav);
            assert!(!args.serve);
            assert_eq!(args.source, "b.epub");
        },
        _ => panic!("the command is webify"),
    }
    let unpack = Commands::Unpack(UnpackArgs { source: "b.epub".to_string(), destination: Some("d".to_string()) });
    assert!(matches!(unpack, Commands::Unpack(_)));
    let meta = Commands::Meta(MetaArgs { source: "b.epub".to_string() });
    assert!(matches!(meta, Commands::Meta(_)));
}
