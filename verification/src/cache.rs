//! The in-memory cache of rendered documents.

use vstd::hash_map::StringHashMap;
use vstd::prelude::*;

verus! {

/// A rendered document: its title and its complete HTML page.
#[derive(Clone, Debug, PartialEq, Eq)]
pub struct MarkdownInfo {
    /// Text of the first top-level heading; empty when the source has none.
    pub title: String,
    /// The complete page, shell included.
    pub html_content: String,
}

/// The mathematical value of a [`MarkdownInfo`].
pub struct Rendered {
    pub title: Seq<char>,
    pub html_content: Seq<char>,
}

impl View for MarkdownInfo {
    type V = Rendered;

    open spec fn view(&self) -> Rendered {
        Rendered { title: self.title@, html_content: self.html_content@ }
    }
}

/// The mathematical value of an [`HtmlCache`]: the document stored under each
/// identifier, and the identifiers in the order in which each first came in.
pub struct CacheView {
    pub documents: Map<Seq<char>, Rendered>,
    pub identifiers: Seq<Seq<char>>,
}

impl CacheView {
    /// The cache that holds nothing.
    pub open spec fn empty() -> CacheView {
        CacheView { documents: Map::empty(), identifiers: Seq::empty() }
    }

    /// Every identifier is listed once, and the listed identifiers are
    /// exactly the keys.
    pub open spec fn consistent(self) -> bool {
        &&& self.identifiers.no_duplicates()
        &&& forall|name: Seq<char>|
            self.documents.contains_key(name) <==> self.identifiers.contains(name)
    }

    /// The cache after `document` is stored under `name`: a new identifier
    /// goes to the end of the enumeration, a known one keeps its place and
    /// gets the new document.
    pub open spec fn insert(self, name: Seq<char>, document: Rendered) -> CacheView {
        CacheView {
            documents: self.documents.insert(name, document),
            identifiers: if self.documents.contains_key(name) {
                self.identifiers
            } else {
                self.identifiers.push(name)
            },
        }
    }

    /// The entries in enumeration order: each identifier with its document.
    pub open spec fn entries(self) -> Seq<(Seq<char>, Rendered)> {
        self.identifiers.map_values(|name: Seq<char>| (name, self.documents[name]))
    }
}

/// Storing a document keeps a cache consistent.
pub proof fn lemma_insert_consistent(cache: CacheView, name: Seq<char>, document: Rendered)
    requires
        cache.consistent(),
    ensures
        cache.insert(name, document).consistent(),
{
    let before = cache.identifiers;
    let after = cache.insert(name, document).identifiers;
    if !cache.documents.contains_key(name) {
        assert(after[before.len() as int] == name);
        assert forall|i: int| 0 <= i < before.len() implies before[i] != name by {
            if before[i] == name {
                assert(before.contains(name));
            }
        }
    }
    assert forall|other: Seq<char>|
        cache.insert(name, document).documents.contains_key(other) <==> after.contains(
            other,
        ) by {
        if after.contains(other) {
            let i = choose|i: int| 0 <= i < after.len() && after[i] == other;
            if i < before.len() {
                assert(before[i] == other);
            }
        }
        if before.contains(other) {
            let i = choose|i: int| 0 <= i < before.len() && before[i] == other;
            assert(after[i] == other);
        }
    }
}

/// A consistent cache has as many documents as identifiers.
pub proof fn lemma_consistent_len(cache: CacheView)
    requires
        cache.consistent(),
    ensures
        cache.documents.dom().finite(),
        cache.documents.len() == cache.identifiers.len(),
{
    assert(cache.documents.dom() =~= cache.identifiers.to_set());
    cache.identifiers.unique_seq_to_set();
}

/// Rendered documents by identifier.
///
/// Lookups go through a hash map; the identifiers are also kept in the order
/// in which they first came in, which is the order of enumeration.
pub struct HtmlCache {
    documents: StringHashMap<MarkdownInfo>,
    names: Vec<String>,
}

impl View for HtmlCache {
    type V = CacheView;

    closed spec fn view(&self) -> CacheView {
        CacheView {
            documents: Map::new(
                |name: Seq<char>| self.documents@.contains_key(name),
                |name: Seq<char>| self.documents@[name]@,
            ),
            identifiers: self.names@.map_values(|name: String| name@),
        }
    }
}

impl HtmlCache {
    /// The invariant of the representation: the list of identifiers and the
    /// map agree. Every cache that this module hands out is well formed.
    pub open spec fn wf(&self) -> bool {
        self@.consistent()
    }

    /// An empty cache.
    pub fn new() -> (cache: HtmlCache)
        ensures
            cache.wf(),
            cache@ == CacheView::empty(),
    {
        let cache = HtmlCache { documents: StringHashMap::new(), names: Vec::new() };
        assert(cache@.documents =~= Map::<Seq<char>, Rendered>::empty());
        assert(cache@.identifiers =~= Seq::<Seq<char>>::empty());
        cache
    }

    /// Stores `info` under `name`, replacing what was stored under it before.
    pub fn insert(&mut self, name: String, info: MarkdownInfo)
        requires
            old(self).wf(),
        ensures
            final(self).wf(),
            final(self)@ == old(self)@.insert(name@, info@),
    {
        if !self.documents.contains_key(name.as_str()) {
            self.names.push(name.clone());
        }
        self.documents.insert(name, info);
        proof {
            let expected = old(self)@.insert(name@, info@);
            assert(self@.documents =~= expected.documents);
            assert(self@.identifiers =~= expected.identifiers);
            lemma_insert_consistent(old(self)@, name@, info@);
        }
    }

    /// The number of documents in the cache.
    pub fn len(&self) -> (count: usize)
        requires
            self.wf(),
        ensures
            count == self@.identifiers.len(),
            count == self@.documents.len(),
    {
        proof {
            lemma_consistent_len(self@);
        }
        self.names.len()
    }

    /// Whether the cache holds no document.
    pub fn is_empty(&self) -> (empty: bool)
        requires
            self.wf(),
        ensures
            empty == (self@ == CacheView::empty()),
    {
        proof {
            if self@.identifiers.len() == 0 {
                assert forall|name: Seq<char>| !self@.documents.contains_key(name) by {
                    if self@.documents.contains_key(name) {
                        assert(self@.identifiers.contains(name));
                    }
                }
                assert(self@.documents =~= Map::<Seq<char>, Rendered>::empty());
                assert(self@.identifiers =~= Seq::<Seq<char>>::empty());
            }
        }
        self.names.len() == 0
    }

    /// Looks up the document stored under `name`.
    pub fn get(&self, name: &str) -> (found: Option<&MarkdownInfo>)
        ensures
            found is Some == self@.documents.contains_key(name@),
            found matches Some(info) ==> info@ == self@.documents[name@],
    {
        self.documents.get(name)
    }

    /// The entry at position `index` of the enumeration, if there is one.
    pub fn entry_at(&self, index: usize) -> (entry: Option<(&String, &MarkdownInfo)>)
        requires
            self.wf(),
        ensures
            entry is Some == (index < self@.identifiers.len()),
            entry matches Some(pair) ==> (pair.0@, pair.1@) == self@.entries()[index as int],
    {
        if index >= self.names.len() {
            return None;
        }
        let name = &self.names[index];
        proof {
            assert(self@.identifiers[index as int] == name@);
            assert(self@.identifiers.contains(name@));
        }
        match self.documents.get(name.as_str()) {
            Some(info) => Some((name, info)),
            None => None,
        }
    }
}

} // verus!
