//! The loader: which files of a folder are documents, under which identifier
//! each is stored, and what a folder's files leave in the cache.

use crate::cache::{lemma_insert_consistent, CacheView, HtmlCache};
use crate::convert::{converted, parse_markdown_file};
use vstd::prelude::*;

verus! {

/// The ending of a document's file name: the dot and the extension.
pub const MARKDOWN_SUFFIX: &'static str = ".md";

/// A regular file of the folder: its file name and its full text.
#[derive(Clone, Debug, PartialEq, Eq)]
pub struct SourceFile {
    /// The name of the file inside its folder, extension included.
    pub file_name: String,
    /// The text of the file.
    pub content: String,
}

/// The mathematical value of a [`SourceFile`].
pub struct SourceText {
    pub file_name: Seq<char>,
    pub content: Seq<char>,
}

impl View for SourceFile {
    type V = SourceText;

    open spec fn view(&self) -> SourceText {
        SourceText { file_name: self.file_name@, content: self.content@ }
    }
}

/// The values of a sequence of files, in order.
pub open spec fn source_texts(files: Seq<SourceFile>) -> Seq<SourceText> {
    files.map_values(|file: SourceFile| file@)
}

/// A file name is a document's when its extension is `md`, in exactly this
/// spelling: the name ends in `.md`, and something stands before that dot.
pub open spec fn is_markdown_name(file_name: Seq<char>) -> bool {
    &&& file_name.len() > MARKDOWN_SUFFIX@.len()
    &&& file_name.skip(file_name.len() - MARKDOWN_SUFFIX@.len()) == MARKDOWN_SUFFIX@
}

/// The identifier of a document: its file name without the extension.
pub open spec fn stem_of(file_name: Seq<char>) -> Seq<char> {
    file_name.take(file_name.len() - MARKDOWN_SUFFIX@.len())
}

/// The cache after one file: a document is converted and stored under its
/// identifier, any other file leaves the cache as it is.
pub open spec fn loaded_file(cache: CacheView, file: SourceText) -> CacheView {
    if is_markdown_name(file.file_name) {
        cache.insert(stem_of(file.file_name), converted(stem_of(file.file_name), file.content))
    } else {
        cache
    }
}

/// The cache after the files of a folder, taken in order. Where two documents
/// share an identifier, the later one stays.
pub open spec fn loaded(cache: CacheView, files: Seq<SourceText>) -> CacheView
    decreases files.len(),
{
    if files.len() == 0 {
        cache
    } else {
        loaded_file(loaded(cache, files.drop_last()), files.last())
    }
}

/// A document's file name is its identifier followed by the suffix, and the
/// identifier is not empty.
pub proof fn lemma_name_is_stem_and_suffix(file_name: Seq<char>)
    requires
        is_markdown_name(file_name),
    ensures
        file_name == stem_of(file_name) + MARKDOWN_SUFFIX@,
        stem_of(file_name).len() > 0,
{
    assert(file_name =~= stem_of(file_name) + file_name.skip(
        file_name.len() - MARKDOWN_SUFFIX@.len(),
    ));
}

/// After loading, the cache holds what it held before and one document for
/// each identifier of a document among the files, and nothing else: a key
/// that the cache did not hold is the identifier of a file with the
/// recognized extension.
pub proof fn lemma_loaded_keys(cache: CacheView, files: Seq<SourceText>, name: Seq<char>)
    ensures
        loaded(cache, files).documents.contains_key(name) <==> cache.documents.contains_key(name)
            || exists|i: int|
            0 <= i < files.len() && is_markdown_name(#[trigger] files[i].file_name) && stem_of(
                files[i].file_name,
            ) == name,
    decreases files.len(),
{
    if files.len() > 0 {
        let earlier = files.drop_last();
        lemma_loaded_keys(cache, earlier, name);
        let last = files.len() - 1;
        if exists|i: int|
            0 <= i < earlier.len() && is_markdown_name(#[trigger] earlier[i].file_name) && stem_of(
                earlier[i].file_name,
            ) == name {
            let i = choose|i: int|
                0 <= i < earlier.len() && is_markdown_name(#[trigger] earlier[i].file_name)
                    && stem_of(earlier[i].file_name) == name;
            assert(files[i] == earlier[i]);
        }
        if exists|i: int|
            0 <= i < files.len() && is_markdown_name(#[trigger] files[i].file_name) && stem_of(
                files[i].file_name,
            ) == name {
            let i = choose|i: int|
                0 <= i < files.len() && is_markdown_name(#[trigger] files[i].file_name) && stem_of(
                    files[i].file_name,
                ) == name;
            if i < last {
                assert(earlier[i] == files[i]);
            }
        }
    }
}

/// Files that are no documents leave the cache as it is. So a folder without
/// a document leaves an empty cache empty.
pub proof fn lemma_nothing_to_load(cache: CacheView, files: Seq<SourceText>)
    requires
        forall|i: int| 0 <= i < files.len() ==> !is_markdown_name(#[trigger] files[i].file_name),
    ensures
        loaded(cache, files) == cache,
    decreases files.len(),
{
    if files.len() > 0 {
        lemma_nothing_to_load(cache, files.drop_last());
    }
}

/// Loading keeps a cache consistent: however many files share an identifier,
/// the identifier is listed once.
pub proof fn lemma_loaded_consistent(cache: CacheView, files: Seq<SourceText>)
    requires
        cache.consistent(),
    ensures
        loaded(cache, files).consistent(),
    decreases files.len(),
{
    if files.len() > 0 {
        lemma_loaded_consistent(cache, files.drop_last());
        let file = files.last();
        if is_markdown_name(file.file_name) {
            lemma_insert_consistent(
                loaded(cache, files.drop_last()),
                stem_of(file.file_name),
                converted(stem_of(file.file_name), file.content),
            );
        }
    }
}

/// The last document of a folder is stored under its identifier, whatever was
/// stored under that identifier before.
pub proof fn lemma_last_document_stays(cache: CacheView, files: Seq<SourceText>)
    requires
        files.len() > 0,
        is_markdown_name(files.last().file_name),
    ensures
        loaded(cache, files).documents.contains_key(stem_of(files.last().file_name)),
        loaded(cache, files).documents[stem_of(files.last().file_name)] == converted(
            stem_of(files.last().file_name),
            files.last().content,
        ),
{
}

/// Whether `file_name` names a document.
pub fn is_markdown_file(file_name: &str) -> (eligible: bool)
    ensures
        eligible == is_markdown_name(file_name@),
{
    proof {
        reveal_strlit(".md");
    }
    let length = file_name.unicode_len();
    if length <= 3 {
        return false;
    }
    let eligible = file_name.get_char(length - 3) == '.' && file_name.get_char(length - 2) == 'm'
        && file_name.get_char(length - 1) == 'd';
    proof {
        let ending = file_name@.skip(length - 3);
        if eligible {
            assert(ending =~= MARKDOWN_SUFFIX@);
        } else {
            assert(ending[0] == file_name@[length - 3]);
            assert(ending[1] == file_name@[length - 2]);
            assert(ending[2] == file_name@[length - 1]);
        }
    }
    eligible
}

/// The identifier under which the document `file_name` is stored; `None` for
/// a file name that names no document.
pub fn document_identifier(file_name: &str) -> (identifier: Option<String>)
    ensures
        identifier is Some == is_markdown_name(file_name@),
        identifier matches Some(stem) ==> stem@ == stem_of(file_name@),
{
    proof {
        reveal_strlit(".md");
    }
    if is_markdown_file(file_name) {
        let length = file_name.unicode_len();
        Some(String::from_str(file_name.substring_char(0, length - 3)))
    } else {
        None
    }
}

/// Converts `file` and stores it in `html_cache` if it is a document, and
/// says whether it was one.
pub fn load_markdown_file(file: &SourceFile, html_cache: &mut HtmlCache) -> (stored: bool)
    requires
        old(html_cache).wf(),
    ensures
        final(html_cache).wf(),
        final(html_cache)@ == loaded_file(old(html_cache)@, file@),
        stored == is_markdown_name(file.file_name@),
{
    match document_identifier(file.file_name.as_str()) {
        Some(identifier) => {
            let info = parse_markdown_file(identifier.as_str(), file.content.as_str());
            html_cache.insert(identifier, info);
            true
        },
        None => false,
    }
}

/// Converts the documents among `files` and stores them in `html_cache`, in
/// the order of `files`. Files that are no documents are passed over.
pub fn load_markdown_files(files: &Vec<SourceFile>, html_cache: &mut HtmlCache)
    requires
        old(html_cache).wf(),
    ensures
        final(html_cache).wf(),
        final(html_cache)@ == loaded(old(html_cache)@, source_texts(files@)),
{
    let ghost texts = source_texts(files@);
    let mut i: usize = 0;
    while i < files.len()
        invariant
            0 <= i <= files.len(),
            texts == source_texts(files@),
            html_cache.wf(),
            html_cache@ == loaded(old(html_cache)@, texts.take(i as int)),
        decreases files.len() - i,
    {
        let file = &files[i];
        proof {
            assert(texts[i as int] == file@);
            assert(texts.take(i + 1).drop_last() =~= texts.take(i as int));
        }
        load_markdown_file(file, html_cache);
        i += 1;
    }
    proof {
        assert(texts.take(i as int) =~= texts);
    }
}

} // verus!
