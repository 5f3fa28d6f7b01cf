//! The object graph of a PDF document, as the resolvers see it.
//!
//! A document is a finite set of numbered objects reachable from a catalog
//! dictionary.  Parsing raw PDF bytes into this graph is the business of an
//! external collaborator; the resolvers only ever read the graph.  Every
//! node is one of the closed set of PDF primitive kinds below, so all
//! resolver logic is exhaustive pattern matching.

use vstd::prelude::*;

verus! {

/// The one failure that stops a resolver outright: a document without a
/// catalog cannot be navigated at all.  Everything else degrades to an
/// empty or default result.
#[derive(Debug, Clone, Copy, PartialEq, Eq, Structural)]
pub enum GraphError {
    NoCatalog,
}

/// One node of the object graph.
pub enum Object {
    Null,
    Boolean(bool),
    Integer(i64),
    /// A real number.  No resolver reads its value (destination arrays
    /// carry reals only as view parameters, which are ignored), so none is
    /// carried.
    Real,
    /// A name, as its raw bytes without the leading slash.
    Name(Vec<u8>),
    /// A string, as its raw bytes; decoding is the reader's business.
    Text(Vec<u8>),
    Array(Vec<Object>),
    Dictionary(Dict),
    /// A reference to another object, by its id in the graph.
    Reference(u64),
}

/// One key/value binding of a dictionary.
pub struct DictEntry {
    pub key: Vec<u8>,
    pub value: Object,
}

/// A dictionary node: ordered bindings from name bytes to objects.  On
/// lookup the first binding of a key wins.
pub struct Dict {
    pub entries: Vec<DictEntry>,
}

/// One id/object binding of the graph.
pub struct GraphEntry {
    pub id: u64,
    pub obj: Object,
}

/// The object graph of one document: the numbered objects, the catalog,
/// and the authoritative page list.
pub struct ObjectGraph {
    /// id -> object bindings; on lookup the first binding of an id wins.
    pub objects: Vec<GraphEntry>,
    /// The document catalog, when the document has one.
    pub catalog: Option<Dict>,
    /// Object ids of the pages in document order: `pages[k]` is the id of
    /// 1-based page `k + 1`.
    pub pages: Vec<u64>,
}

/// The value under `key`, first binding wins.
pub open spec fn entries_get(es: Seq<DictEntry>, key: Seq<u8>) -> Option<Object>
    decreases es.len(),
{
    if es.len() == 0 {
        None
    } else if es[0].key@ == key {
        Some(es[0].value)
    } else {
        entries_get(es.drop_first(), key)
    }
}

/// The value under `key` in `d`.
pub open spec fn dict_get(d: Dict, key: Seq<u8>) -> Option<Object> {
    entries_get(d.entries@, key)
}

/// A first-match lookup returns the binding at the first index that holds
/// the key.
pub proof fn lemma_entries_get_at(es: Seq<DictEntry>, key: Seq<u8>, i: int)
    requires
        0 <= i < es.len(),
        es[i].key@ == key,
        forall|j: int| 0 <= j < i ==> es[j].key@ != key,
    ensures
        entries_get(es, key) == Some(es[i].value),
    decreases i,
{
    if i > 0 {
        lemma_entries_get_at(es.drop_first(), key, i - 1);
    }
}

/// A lookup of a key that no binding holds returns nothing.
pub proof fn lemma_entries_get_none(es: Seq<DictEntry>, key: Seq<u8>)
    requires
        forall|j: int| 0 <= j < es.len() ==> es[j].key@ != key,
    ensures
        entries_get(es, key) is None,
    decreases es.len(),
{
    if es.len() > 0 {
        lemma_entries_get_none(es.drop_first(), key);
    }
}

/// Byte-for-byte equality of two slices.
pub fn bytes_eq(a: &[u8], b: &[u8]) -> (r: bool)
    ensures
        r == (a@ == b@),
{
    if a.len() != b.len() {
        assert(a@ != b@) by {
            assert(a@.len() != b@.len());
        }
        return false;
    }
    let n = a.len();
    let mut i: usize = 0;
    while i < n
        invariant
            n == a@.len() == b@.len(),
            0 <= i <= n,
            forall|j: int| 0 <= j < i ==> a@[j] == b@[j],
        decreases n - i,
    {
        if a[i] != b[i] {
            return false;
        }
        i = i + 1;
    }
    assert(a@ =~= b@);
    true
}

impl Dict {
    /// Look the value under `key` up; the first binding of the key wins.
    pub fn get(&self, key: &[u8]) -> (r: Option<&Object>)
        ensures
            match r {
                Some(o) => dict_get(*self, key@) == Some(*o),
                None => dict_get(*self, key@) is None,
            },
    {
        let n = self.entries.len();
        let mut i: usize = 0;
        while i < n
            invariant
                n == self.entries@.len(),
                0 <= i <= n,
                forall|j: int| 0 <= j < i ==> self.entries@[j].key@ != key@,
            decreases n - i,
        {
            if bytes_eq(self.entries[i].key.as_slice(), key) {
                proof {
                    lemma_entries_get_at(self.entries@, key@, i as int);
                }
                return Some(&self.entries[i].value);
            }
            i = i + 1;
        }
        proof {
            lemma_entries_get_none(self.entries@, key@);
        }
        None
    }
}

/// The object bound to `id`, first binding wins.
pub open spec fn graph_entries_get(es: Seq<GraphEntry>, id: u64) -> Option<Object>
    decreases es.len(),
{
    if es.len() == 0 {
        None
    } else if es[0].id == id {
        Some(es[0].obj)
    } else {
        graph_entries_get(es.drop_first(), id)
    }
}

pub proof fn lemma_graph_entries_get_at(es: Seq<GraphEntry>, id: u64, i: int)
    requires
        0 <= i < es.len(),
        es[i].id == id,
        forall|j: int| 0 <= j < i ==> es[j].id != id,
    ensures
        graph_entries_get(es, id) == Some(es[i].obj),
    decreases i,
{
    if i > 0 {
        lemma_graph_entries_get_at(es.drop_first(), id, i - 1);
    }
}

pub proof fn lemma_graph_entries_get_none(es: Seq<GraphEntry>, id: u64)
    requires
        forall|j: int| 0 <= j < es.len() ==> es[j].id != id,
    ensures
        graph_entries_get(es, id) is None,
    decreases es.len(),
{
    if es.len() > 0 {
        lemma_graph_entries_get_none(es.drop_first(), id);
    }
}

/// The object bound to `id` in the graph.
pub open spec fn spec_get_object(g: ObjectGraph, id: u64) -> Option<Object> {
    graph_entries_get(g.objects@, id)
}

/// The dictionary bound to `id`: nothing when `id` is unbound or bound to
/// a node of another kind.
pub open spec fn spec_get_dictionary(g: ObjectGraph, id: u64) -> Option<Dict> {
    match spec_get_object(g, id) {
        Some(Object::Dictionary(d)) => Some(d),
        _ => None,
    }
}

impl ObjectGraph {
    /// Dereference `id`; the first binding of the id wins.
    pub fn get_object(&self, id: u64) -> (r: Option<&Object>)
        ensures
            match r {
                Some(o) => spec_get_object(*self, id) == Some(*o),
                None => spec_get_object(*self, id) is None,
            },
    {
        let n = self.objects.len();
        let mut i: usize = 0;
        while i < n
            invariant
                n == self.objects@.len(),
                0 <= i <= n,
                forall|j: int| 0 <= j < i ==> self.objects@[j].id != id,
            decreases n - i,
        {
            if self.objects[i].id == id {
                proof {
                    lemma_graph_entries_get_at(self.objects@, id, i as int);
                }
                return Some(&self.objects[i].obj);
            }
            i = i + 1;
        }
        proof {
            lemma_graph_entries_get_none(self.objects@, id);
        }
        None
    }

    /// Dereference `id` and expect a dictionary.
    pub fn get_dictionary(&self, id: u64) -> (r: Option<&Dict>)
        ensures
            match r {
                Some(d) => spec_get_dictionary(*self, id) == Some(*d),
                None => spec_get_dictionary(*self, id) is None,
            },
    {
        match self.get_object(id) {
            Some(Object::Dictionary(d)) => Some(d),
            _ => None,
        }
    }

    /// The number of pages of the document.
    pub fn page_count(&self) -> (r: usize)
        ensures
            r == self.pages@.len(),
    {
        self.pages.len()
    }
}

/// The first position of `id` in the page list, if any; the page's
/// 1-based number is that position plus one.
pub open spec fn page_index_of(pages: Seq<u64>, id: u64) -> Option<int>
    decreases pages.len(),
{
    if pages.len() == 0 {
        None
    } else if pages[0] == id {
        Some(0)
    } else {
        match page_index_of(pages.drop_first(), id) {
            Some(i) => Some(i + 1),
            None => None,
        }
    }
}

/// Where `page_index_of` points: at the first occurrence of `id`.
pub proof fn lemma_page_index_of(pages: Seq<u64>, id: u64)
    ensures
        match page_index_of(pages, id) {
            Some(i) => 0 <= i < pages.len() && pages[i] == id && forall|j: int|
                0 <= j < i ==> pages[j] != id,
            None => forall|j: int| 0 <= j < pages.len() ==> pages[j] != id,
        },
    decreases pages.len(),
{
    if pages.len() > 0 && pages[0] != id {
        lemma_page_index_of(pages.drop_first(), id);
        assert forall|j: int| 1 <= j < pages.len() implies pages[j] == pages.drop_first()[j - 1] by {}
    }
}

} // verus!
