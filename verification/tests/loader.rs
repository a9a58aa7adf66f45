use render::cache::HtmlCache;
use render::convert::parse_markdown_file;
use render::dispatch::{respond, STATUS_OK};
use render::loader::{
    document_identifier, is_markdown_file, load_markdown_file, load_markdown_files, SourceFile,
};
use std::path::Path;

fn file(file_name: &str, content: &str) -> SourceFile {
    SourceFile { file_name: file_name.to_string(), content: content.to_string() }
}

#[test]
fn markdown_extension_is_recognized() {
    assert!(is_markdown_file("a.md"));
    assert!(is_markdown_file("notes.md"));
    assert!(is_markdown_file("a.b.md"));
    assert!(is_markdown_file("archive.tar.md"));
    assert!(is_markdown_file("with space.md"));
    assert!(is_markdown_file("\u{e4}\u{f6}.md"));
    assert!(is_markdown_file("..md"));
}

#[test]
fn other_names_are_passed_over() {
    assert!(!is_markdown_file("x.txt"));
    assert!(!is_markdown_file("a.MD"));
    assert!(!is_markdown_file("a.Md"));
    assert!(!is_markdown_file("a.mdx"));
    assert!(!is_markdown_file("a.md.bak"));
    assert!(!is_markdown_file("a.md "));
    assert!(!is_markdown_file("amd"));
    assert!(!is_markdown_file("md"));
    assert!(!is_markdown_file(".md"));
    assert!(!is_markdown_file("a."));
    assert!(!is_markdown_file("a"));
    assert!(!is_markdown_file(""));
    assert!(!is_markdown_file("."));
    assert!(!is_markdown_file(".."));
    assert!(!is_markdown_file("a.m\u{64}\u{301}"));
}

#[test]
fn recognized_names_are_those_with_extension_md() {
    let names = [
        "a.md", "x.txt", ".md", "..md", "a.b.md", "a.md.bak", "a.MD", "md", "a.", "a", ".a.md",
        "...md", "a..md", "\u{e9}.md", "a.m", "a.mdd", ".hidden",
    ];
    for name in names {
        let by_extension = Path::new(name).extension().map_or(false, |ext| ext == "md");
        assert_eq!(is_markdown_file(name), by_extension);
        let stem = if by_extension {
            Some(Path::new(name).file_stem().unwrap().to_string_lossy().to_string())
        } else {
            None
        };
        assert_eq!(document_identifier(name), stem);
    }
}

#[test]
fn identifier_is_name_without_extension() {
    assert_eq!(document_identifier("a.md"), Some("a".to_string()));
    assert_eq!(document_identifier("a.b.md"), Some("a.b".to_string()));
    assert_eq!(document_identifier("with space.md"), Some("with space".to_string()));
    assert_eq!(document_identifier("\u{e4}\u{f6}.md"), Some("\u{e4}\u{f6}".to_string()));
    assert_eq!(document_identifier("..md"), Some(".".to_string()));
}

#[test]
fn no_identifier_for_other_names() {
    assert_eq!(document_identifier("x.txt"), None);
    assert_eq!(document_identifier(".md"), None);
    assert_eq!(document_identifier("a.MD"), None);
    assert_eq!(document_identifier(""), None);
}

#[test]
fn load_one_document() {
    let mut cache = HtmlCache::new();
    assert!(load_markdown_file(&file("a.md", "# Alpha\n"), &mut cache));
    assert_eq!(cache.len(), 1);
    assert_eq!(cache.get("a"), Some(&parse_markdown_file("a", "# Alpha\n")));
}

#[test]
fn load_passes_over_other_file() {
    let mut cache = HtmlCache::new();
    assert!(!load_markdown_file(&file("a.txt", "# Alpha\n"), &mut cache));
    assert!(cache.is_empty());
}

#[test]
fn load_two_documents_round_trip() {
    let files = vec![file("a.md", "# Alpha\n\nFirst.\n"), file("b.md", "No heading here.\n")];
    let mut cache = HtmlCache::new();
    load_markdown_files(&files, &mut cache);
    assert_eq!(cache.len(), 2);
    assert_eq!(cache.get("a").unwrap().title, "Alpha");
    assert_eq!(cache.get("b").unwrap().title, "");

    let a = respond(&cache, "/a").unwrap();
    assert_eq!(a.status, STATUS_OK);
    assert!(a.body.contains("<title>Alpha</title>"));
    assert!(a.body.contains("<h1>Alpha</h1>\n<p>First.</p>\n"));
    let b = respond(&cache, "/b").unwrap();
    assert_eq!(b.status, STATUS_OK);
    assert!(b.body.contains("<title>b</title>"));
    assert!(b.body.contains("<p>No heading here.</p>\n"));
}

#[test]
fn index_of_two_documents_links_both() {
    let files = vec![file("a.md", "# Alpha\n\nFirst.\n"), file("b.md", "No heading here.\n")];
    let mut cache = HtmlCache::new();
    load_markdown_files(&files, &mut cache);
    let index = respond(&cache, "/").unwrap();
    assert_eq!(index.status, 200);
    assert_eq!(index.body.matches("<li>").count(), 2);
    assert!(index.body.contains("<li><a href=\"/a\">a - Alpha</a></li>"));
    assert!(index.body.contains("<li><a href=\"/b\">b - [No title]</a></li>"));
}

#[test]
fn load_without_documents_leaves_cache_empty() {
    let files = vec![file("readme.txt", "# Not loaded\n"), file("image.png", ""), file(".md", "x")];
    let mut cache = HtmlCache::new();
    load_markdown_files(&files, &mut cache);
    assert!(cache.is_empty());
    let index = respond(&cache, "/").unwrap();
    assert_eq!(index.status, 200);
    assert!(index.body.contains("<ul>\n\n</ul>"));
    assert!(!index.body.contains("<li>"));
}

#[test]
fn load_of_no_files_leaves_cache_empty() {
    let mut cache = HtmlCache::new();
    load_markdown_files(&Vec::new(), &mut cache);
    assert!(cache.is_empty());
    assert_eq!(cache.len(), 0);
}

#[test]
fn same_base_name_other_extension_gives_one_entry() {
    let files = vec![file("x.md", "# From md\n"), file("x.txt", "# From txt\n")];
    let mut cache = HtmlCache::new();
    load_markdown_files(&files, &mut cache);
    assert_eq!(cache.len(), 1);
    assert_eq!(cache.get("x").unwrap().title, "From md");

    let reversed = vec![file("x.txt", "# From txt\n"), file("x.md", "# From md\n")];
    let mut cache = HtmlCache::new();
    load_markdown_files(&reversed, &mut cache);
    assert_eq!(cache.len(), 1);
    assert_eq!(cache.get("x").unwrap().title, "From md");
}

#[test]
fn later_document_replaces_earlier_of_same_identifier() {
    let files = vec![
        file("x.md", "# First\n"),
        file("y.md", "# Other\n"),
        file("x.md", "# Second\n"),
    ];
    let mut cache = HtmlCache::new();
    load_markdown_files(&files, &mut cache);
    assert_eq!(cache.len(), 2);
    assert_eq!(cache.get("x").unwrap().title, "Second");
    assert_eq!(cache.entry_at(0).unwrap().0, "x");
    assert_eq!(cache.entry_at(1).unwrap().0, "y");
}

#[test]
fn load_adds_to_what_the_cache_holds() {
    let mut cache = HtmlCache::new();
    load_markdown_files(&vec![file("a.md", "# A\n")], &mut cache);
    load_markdown_files(&vec![file("b.md", "# B\n"), file("skip.rs", "")], &mut cache);
    assert_eq!(cache.len(), 2);
    assert_eq!(cache.get("a").unwrap().title, "A");
    assert_eq!(cache.get("b").unwrap().title, "B");
}
