//! Table-of-contents extraction: walking the outline tree of a document
//! into leveled entries with resolved target pages, and flattening that
//! tree for display.

use vstd::prelude::*;
use crate::object::{
    bytes_eq, dict_get, page_index_of, lemma_page_index_of, spec_get_dictionary, spec_get_object,
    Dict, GraphError, Object, ObjectGraph,
};
use crate::pdf_string::{decode_pdf_string, decoded_text};
use vstd::string::StringExecFns;

verus! {

/// One outline entry: its decoded title, the physical page its
/// destination resolves to (when it does), its zero-indexed depth, and
/// its child entries in order.
pub struct TocEntry {
    pub title: String,
    pub page: Option<u32>,
    pub level: u32,
    pub children: Vec<TocEntry>,
}

/// One flattened outline entry: the tree shape dropped, title, page and
/// level kept.
pub struct FlatTocEntry {
    pub title: String,
    pub page: Option<u32>,
    pub level: u32,
}

/// An outline entry as the contracts see it.
pub struct SpecTocEntry {
    pub title: Seq<char>,
    pub page: Option<u32>,
    pub level: u32,
    pub children: Seq<SpecTocEntry>,
}

/// A flattened entry as the contracts see it.
pub struct SpecFlatEntry {
    pub title: Seq<char>,
    pub page: Option<u32>,
    pub level: u32,
}

impl View for FlatTocEntry {
    type V = SpecFlatEntry;

    open spec fn view(&self) -> SpecFlatEntry {
        SpecFlatEntry { title: self.title@, page: self.page, level: self.level }
    }
}

/// The abstract value of one built outline entry.
pub open spec fn toc_view(e: TocEntry) -> SpecTocEntry
    decreases e,
{
    SpecTocEntry {
        title: e.title@,
        page: e.page,
        level: e.level,
        children: Seq::new(
            e.children@.len(),
            |i: int|
                if 0 <= i < e.children@.len() {
                    toc_view(e.children@[i])
                } else {
                    SpecTocEntry {
                        title: Seq::empty(),
                        page: None,
                        level: 0,
                        children: Seq::empty(),
                    }
                },
        ),
    }
}

/// The abstract values of a sequence of built entries.
pub open spec fn toc_views(es: Seq<TocEntry>) -> Seq<SpecTocEntry> {
    Seq::new(es.len(), |i: int| toc_view(es[i]))
}

pub open spec fn flat_views(es: Seq<FlatTocEntry>) -> Seq<SpecFlatEntry> {
    es.map_values(|f: FlatTocEntry| f@)
}

/// The flat entry an outline entry contributes: its own title, page and
/// level, the tree shape dropped.
pub open spec fn flat_of(e: SpecTocEntry) -> SpecFlatEntry {
    SpecFlatEntry { title: e.title, page: e.page, level: e.level }
}

/// The pre-order flattening of a forest: each entry, then its children in
/// order, then its later siblings.
pub open spec fn spec_flatten(es: Seq<SpecTocEntry>) -> Seq<SpecFlatEntry>
    decreases es,
{
    if es.len() == 0 {
        Seq::empty()
    } else {
        seq![flat_of(es[0])] + spec_flatten(es[0].children) + spec_flatten(es.drop_first())
    }
}

/// Flattening is pre-order and level-preserving: a forest headed by `e`
/// flattens to `e`'s own entry (its level kept), then `e`'s flattened
/// children, then the flattened later siblings.
pub proof fn lemma_flatten_pre_order(e: SpecTocEntry, es: Seq<SpecTocEntry>)
    ensures
        spec_flatten(seq![e] + es) == seq![flat_of(e)] + spec_flatten(e.children) + spec_flatten(
            es,
        ),
{
    let s = seq![e] + es;
    assert(s.len() > 0);
    assert(s[0] == e);
    assert(s.drop_first() =~= es);
}

/// Flatten the forest under the entries from position `k` on, appending
/// to `out`.
fn flatten_toc_recursive(entries: &Vec<TocEntry>, out: &mut Vec<FlatTocEntry>)
    ensures
        flat_views(final(out)@) == flat_views(old(out)@) + spec_flatten(toc_views(entries@)),
    decreases entries@,
{
    let ghost o0 = flat_views(old(out)@);
    proof {
        assert(toc_views(entries@).skip(0) =~= toc_views(entries@));
    }
    let n = entries.len();
    let mut i: usize = 0;
    while i < n
        invariant
            n == entries@.len(),
            0 <= i <= n,
            flat_views(out@) + spec_flatten(toc_views(entries@).skip(i as int)) =~= o0
                + spec_flatten(toc_views(entries@)),
        decreases n - i,
    {
        let e = &entries[i];
        let ghost views = toc_views(entries@);
        let ghost pre = flat_views(out@);
        out.push(FlatTocEntry { title: e.title.clone(), page: e.page, level: e.level });
        assert(flat_views(out@) =~= pre + seq![flat_of(toc_view(entries@[i as int]))]);
        proof {
            assert(decreases_to!(entries@ => entries@[i as int]));
            assert(decreases_to!(entries@[i as int] => entries@[i as int].children));
            assert(decreases_to!(entries@[i as int].children => entries@[i as int].children@));
        }
        let ghost mid = flat_views(out@);
        flatten_toc_recursive(&e.children, out);
        proof {
            assert(toc_view(entries@[i as int]).children =~= toc_views(
                entries@[i as int].children@,
            ));
            assert(flat_views(out@) =~= mid + spec_flatten(toc_views(entries@[i as int].children@)));
            let tail = views.skip(i as int);
            assert(tail.len() > 0);
            assert(tail[0] == views[i as int]);
            assert(tail.drop_first() =~= views.skip(i + 1));
            assert(spec_flatten(tail) == seq![flat_of(views[i as int])] + spec_flatten(
                views[i as int].children,
            ) + spec_flatten(views.skip(i + 1)));
            assert(views[i as int] == toc_view(entries@[i as int]));
            assert(flat_views(out@) + spec_flatten(views.skip(i + 1)) =~= o0 + spec_flatten(views));
        }
        i = i + 1;
    }
    proof {
        assert(toc_views(entries@).skip(n as int) =~= Seq::<SpecTocEntry>::empty());
        assert(flat_views(out@) + Seq::<SpecFlatEntry>::empty() =~= flat_views(out@));
    }
}

/// The `Outlines` key of the catalog.
pub open spec fn key_outlines() -> Seq<u8> {
    seq![79u8, 117u8, 116u8, 108u8, 105u8, 110u8, 101u8, 115u8]
}

/// The `First` key: an outline node's first child.
pub open spec fn key_first() -> Seq<u8> {
    seq![70u8, 105u8, 114u8, 115u8, 116u8]
}

/// The `Next` key: an outline node's next sibling.
pub open spec fn key_next() -> Seq<u8> {
    seq![78u8, 101u8, 120u8, 116u8]
}

/// The `Title` key of an outline node.
pub open spec fn key_title() -> Seq<u8> {
    seq![84u8, 105u8, 116u8, 108u8, 101u8]
}

/// The `Dest` key: a direct destination.
pub open spec fn key_dest() -> Seq<u8> {
    seq![68u8, 101u8, 115u8, 116u8]
}

/// The `A` key: an action standing in for a destination.
pub open spec fn key_action() -> Seq<u8> {
    seq![65u8]
}

/// The `S` key: an action's subtype.
pub open spec fn key_subtype() -> Seq<u8> {
    seq![83u8]
}

/// The `D` key: a `GoTo` action's destination.
pub open spec fn key_target() -> Seq<u8> {
    seq![68u8]
}

/// The action subtype name `GoTo`, the only one followed.
pub open spec fn name_goto() -> Seq<u8> {
    seq![71u8, 111u8, 84u8, 111u8]
}

/// The `Names` key: the catalog's name dictionary, and a name-tree leaf's
/// pair array.
pub open spec fn key_names() -> Seq<u8> {
    seq![78u8, 97u8, 109u8, 101u8, 115u8]
}

/// The `Dests` key: the name tree of destinations, and the legacy flat
/// dictionary.
pub open spec fn key_dests() -> Seq<u8> {
    seq![68u8, 101u8, 115u8, 116u8, 115u8]
}

/// The `Kids` key of a name-tree node.
pub open spec fn key_kids() -> Seq<u8> {
    seq![75u8, 105u8, 100u8, 115u8]
}

/// The page a destination array names: its first element must be a
/// reference to a page object, whose 1-based position in the document's
/// page list is the page number; the remaining view parameters are
/// ignored.
pub open spec fn spec_dest_array_page(g: ObjectGraph, arr: Seq<Object>) -> Option<u32> {
    if arr.len() > 0 {
        match arr[0] {
            Object::Reference(pr) => match page_index_of(g.pages@, pr) {
                Some(i) => Some((i + 1) as u32),
                None => None,
            },
            _ => None,
        }
    } else {
        None
    }
}

/// The page a destination object resolves to.  A name or string is looked
/// up as a named destination; an array names a page directly; a reference
/// is dereferenced and resolved again, `fuel` bounding the chain.
pub open spec fn spec_resolve_dest(g: ObjectGraph, dest: Object, fuel: nat) -> Option<u32>
    decreases fuel, 2int, 0int,
{
    match dest {
        Object::Text(name) => spec_resolve_named(g, name@, fuel),
        Object::Name(name) => spec_resolve_named(g, name@, fuel),
        Object::Array(arr) => spec_dest_array_page(g, arr@),
        Object::Reference(r) => if fuel == 0 {
            None
        } else {
            match spec_get_object(g, r) {
                Some(o) => spec_resolve_dest(g, o, (fuel - 1) as nat),
                None => None,
            }
        },
        _ => None,
    }
}

/// The page a named destination resolves to: the modern `Names`/`Dests`
/// name tree is searched first, and only a miss there falls back to the
/// legacy flat `Dests` dictionary.
pub open spec fn spec_resolve_named(g: ObjectGraph, name: Seq<u8>, fuel: nat) -> Option<u32>
    decreases fuel, 1int, 0int,
{
    match g.catalog {
        None => None,
        Some(cat) => match spec_modern_lookup(g, cat, name, fuel) {
            Some(p) => Some(p),
            None => spec_legacy_lookup(g, cat, name, fuel),
        },
    }
}

/// The page the modern name tree gives for `name`.
pub open spec fn spec_modern_lookup(g: ObjectGraph, cat: Dict, name: Seq<u8>, fuel: nat) -> Option<
    u32,
>
    decreases fuel, 0int, 1int,
{
    match dict_get(cat, key_names()) {
        Some(Object::Reference(nr)) => match spec_get_dictionary(g, nr) {
            Some(nd) => match dict_get(nd, key_dests()) {
                Some(Object::Reference(dr)) => if fuel == 0 {
                    None
                } else {
                    spec_search_name_tree(g, dr, name, (fuel - 1) as nat)
                },
                _ => None,
            },
            None => None,
        },
        _ => None,
    }
}

/// The page the legacy flat `Dests` dictionary gives for `name`.
pub open spec fn spec_legacy_lookup(g: ObjectGraph, cat: Dict, name: Seq<u8>, fuel: nat) -> Option<
    u32,
>
    decreases fuel, 0int, 0int,
{
    match dict_get(cat, key_dests()) {
        Some(Object::Reference(dr)) => match spec_get_dictionary(g, dr) {
            Some(dd) => match dict_get(dd, name) {
                Some(dest) => if fuel == 0 {
                    None
                } else {
                    spec_resolve_dest(g, dest, (fuel - 1) as nat)
                },
                None => None,
            },
            None => None,
        },
        _ => None,
    }
}

/// The result of searching one name-tree node: its own `Names` pairs
/// first (a byte-identical key match resolves that pair's value, hit or
/// miss), then each kid in order until one yields a page.
pub open spec fn spec_search_name_tree(g: ObjectGraph, node: u64, name: Seq<u8>, fuel: nat) -> Option<u32>
    decreases fuel, 3int, 0int,
{
    match spec_get_dictionary(g, node) {
        None => None,
        Some(d) => {
            let from_names = match dict_get(d, key_names()) {
                Some(Object::Array(ns)) => spec_names_scan(g, ns@, 0, name, fuel),
                _ => None,
            };
            match from_names {
                Some(res) => res,
                None => match dict_get(d, key_kids()) {
                    Some(Object::Array(ks)) => spec_kids_scan(g, ks@, 0, name, fuel),
                    _ => None,
                },
            }
        },
    }
}

/// Scan a leaf's key/value pairs from position `k` for the first
/// byte-identical key; `Some(res)` means the key was found and its value
/// resolved to `res`, `None` means the key does not occur.
pub open spec fn spec_names_scan(
    g: ObjectGraph,
    ns: Seq<Object>,
    k: int,
    name: Seq<u8>,
    fuel: nat,
) -> Option<Option<u32>>
    decreases fuel, 0int, ns.len() - k,
{
    if k < 0 || k + 2 > ns.len() {
        None
    } else {
        let hit = match ns[k] {
            Object::Text(key) => key@ == name,
            _ => false,
        };
        if hit {
            if fuel == 0 {
                Some(None)
            } else {
                Some(spec_resolve_dest(g, ns[k + 1], (fuel - 1) as nat))
            }
        } else {
            spec_names_scan(g, ns, k + 2, name, fuel)
        }
    }
}

/// Search the kid nodes from position `k` in order; the first kid that
/// yields a page wins.
pub open spec fn spec_kids_scan(
    g: ObjectGraph,
    ks: Seq<Object>,
    k: int,
    name: Seq<u8>,
    fuel: nat,
) -> Option<u32>
    decreases fuel, 0int, ks.len() - k,
{
    if k < 0 || k >= ks.len() {
        None
    } else {
        let here = match ks[k] {
            Object::Reference(r) => if fuel == 0 {
                None
            } else {
                spec_search_name_tree(g, r, name, (fuel - 1) as nat)
            },
            _ => None,
        };
        match here {
            Some(p) => Some(p),
            None => spec_kids_scan(g, ks, k + 1, name, fuel),
        }
    }
}

/// The page a `GoTo` action's `D` entry resolves to; an action of any
/// other subtype yields no page.
pub open spec fn spec_action_page(g: ObjectGraph, ad: Dict, fuel: nat) -> Option<u32>
    decreases fuel, 4int, 0int,
{
    match dict_get(ad, key_subtype()) {
        Some(Object::Name(st)) => if st@ == name_goto() {
            match dict_get(ad, key_target()) {
                Some(dest) => spec_resolve_dest(g, dest, fuel),
                None => None,
            }
        } else {
            None
        },
        _ => None,
    }
}

/// The destination page of one outline node: its `Dest` entry when it has
/// one, else its `A` entry when that is a `GoTo` action, inline or behind
/// a reference.
pub open spec fn spec_dest_page(g: ObjectGraph, d: Dict, fuel: nat) -> Option<u32>
    decreases fuel, 5int, 0int,
{
    match dict_get(d, key_dest()) {
        Some(dest) => spec_resolve_dest(g, dest, fuel),
        None => match dict_get(d, key_action()) {
            Some(Object::Reference(ar)) => match spec_get_dictionary(g, ar) {
                Some(ad) => spec_action_page(g, ad, fuel),
                None => None,
            },
            Some(Object::Dictionary(ad)) => spec_action_page(g, ad, fuel),
            _ => None,
        },
    }
}

/// The modern name tree wins: whenever it maps `name` to a page, the
/// named-destination resolution returns exactly that page, whatever the
/// legacy `Dests` dictionary says.
pub proof fn lemma_name_tree_preferred(g: ObjectGraph, cat: Dict, name: Seq<u8>, fuel: nat, p: u32)
    requires
        g.catalog == Some(cat),
        spec_modern_lookup(g, cat, name, fuel) == Some(p),
    ensures
        spec_resolve_named(g, name, fuel) == Some(p),
{
}

/// The 1-based number of the page object `id`, by its first position in
/// the page list.
fn page_number_for(g: &ObjectGraph, id: u64) -> (r: Option<u32>)
    requires
        g.pages@.len() <= u32::MAX,
    ensures
        match r {
            Some(p) => page_index_of(g.pages@, id) == Some((p - 1) as int),
            None => page_index_of(g.pages@, id) is None,
        },
{
    proof {
        lemma_page_index_of(g.pages@, id);
    }
    let n = g.pages.len();
    let mut i: usize = 0;
    while i < n
        invariant
            n == g.pages@.len(),
            n <= u32::MAX,
            0 <= i <= n,
            forall|j: int| 0 <= j < i ==> g.pages@[j] != id,
        decreases n - i,
    {
        if g.pages[i] == id {
            proof {
                lemma_page_index_of(g.pages@, id);
            }
            return Some((i + 1) as u32);
        }
        i = i + 1;
    }
    None
}

/// The page a destination array names.
pub fn get_page_from_dest_array(g: &ObjectGraph, arr: &Vec<Object>) -> (r: Option<u32>)
    requires
        g.pages@.len() <= u32::MAX,
    ensures
        r == spec_dest_array_page(*g, arr@),
{
    if arr.len() > 0 {
        match &arr[0] {
            Object::Reference(pr) => page_number_for(g, *pr),
            _ => None,
        }
    } else {
        None
    }
}

/// Resolve a destination object to a physical page number.  `fuel` bounds
/// reference chains, so a malformed cycle degrades to no page.
pub fn resolve_destination(g: &ObjectGraph, dest: &Object, fuel: u64) -> (r: Option<u32>)
    requires
        g.pages@.len() <= u32::MAX,
    ensures
        r == spec_resolve_dest(*g, *dest, fuel as nat),
    decreases fuel, 2int,
{
    match dest {
        Object::Text(name) => resolve_named_destination(g, name.as_slice(), fuel),
        Object::Name(name) => resolve_named_destination(g, name.as_slice(), fuel),
        Object::Array(arr) => get_page_from_dest_array(g, arr),
        Object::Reference(rf) => {
            if fuel == 0 {
                None
            } else {
                match g.get_object(*rf) {
                    Some(o) => resolve_destination(g, o, fuel - 1),
                    None => None,
                }
            }
        },
        _ => None,
    }
}

/// Resolve a named destination: the modern `Names`/`Dests` name tree
/// first, the legacy flat `Dests` dictionary only on a miss there.
fn resolve_named_destination(g: &ObjectGraph, name: &[u8], fuel: u64) -> (r: Option<u32>)
    requires
        g.pages@.len() <= u32::MAX,
    ensures
        r == spec_resolve_named(*g, name@, fuel as nat),
    decreases fuel, 1int,
{
    let cat = match &g.catalog {
        Some(cat) => cat,
        None => {
            return None;
        },
    };
    let names_key: [u8; 5] = [78, 97, 109, 101, 115];
    assert(names_key@ =~= key_names());
    let dests_key: [u8; 5] = [68, 101, 115, 116, 115];
    assert(dests_key@ =~= key_dests());

    // Modern form: Names -> Dests name tree.
    let modern: Option<u32> = match cat.get(names_key.as_slice()) {
        Some(Object::Reference(nr)) => match g.get_dictionary(*nr) {
            Some(nd) => match nd.get(dests_key.as_slice()) {
                Some(Object::Reference(dr)) => {
                    if fuel == 0 {
                        None
                    } else {
                        search_name_tree(g, *dr, name, fuel - 1)
                    }
                },
                _ => None,
            },
            None => None,
        },
        _ => None,
    };
    assert(modern == spec_modern_lookup(*g, *cat, name@, fuel as nat));
    match modern {
        Some(p) => Some(p),
        None => {
            // Legacy form: a flat Dests dictionary keyed by the name.
            match cat.get(dests_key.as_slice()) {
                Some(Object::Reference(dr)) => match g.get_dictionary(*dr) {
                    Some(dd) => match dd.get(name) {
                        Some(dest) => {
                            if fuel == 0 {
                                None
                            } else {
                                resolve_destination(g, dest, fuel - 1)
                            }
                        },
                        None => None,
                    },
                    None => None,
                },
                _ => None,
            }
        },
    }
}

/// Search one name-tree node for `name`: its own pairs, then its kids.
fn search_name_tree(g: &ObjectGraph, node: u64, name: &[u8], fuel: u64) -> (r: Option<u32>)
    requires
        g.pages@.len() <= u32::MAX,
    ensures
        r == spec_search_name_tree(*g, node, name@, fuel as nat),
    decreases fuel, 3int,
{
    let d = match g.get_dictionary(node) {
        Some(d) => d,
        None => {
            return None;
        },
    };
    let names_key: [u8; 5] = [78, 97, 109, 101, 115];
    assert(names_key@ =~= key_names());
    let from_names: Option<Option<u32>> = match d.get(names_key.as_slice()) {
        Some(Object::Array(ns)) => names_scan(g, ns, name, fuel),
        _ => None,
    };
    match from_names {
        Some(res) => res,
        None => {
            let kids_key: [u8; 4] = [75, 105, 100, 115];
            assert(kids_key@ =~= key_kids());
            match d.get(kids_key.as_slice()) {
                Some(Object::Array(ks)) => kids_scan(g, ks, name, fuel),
                _ => None,
            }
        },
    }
}

/// Scan one leaf's key/value pairs for the first byte-identical key.
fn names_scan(g: &ObjectGraph, ns: &Vec<Object>, name: &[u8], fuel: u64) -> (r: Option<
    Option<u32>,
>)
    requires
        g.pages@.len() <= u32::MAX,
    ensures
        r == spec_names_scan(*g, ns@, 0, name@, fuel as nat),
    decreases fuel, 2int,
{
    let n = ns.len();
    let mut k: usize = 0;
    while k + 1 < n
        invariant
            n == ns@.len(),
            0 <= k,
            k % 2 == 0,
            k <= n,
            g.pages@.len() <= u32::MAX,
            spec_names_scan(*g, ns@, 0, name@, fuel as nat) == spec_names_scan(
                *g,
                ns@,
                k as int,
                name@,
                fuel as nat,
            ),
        decreases n - k,
    {
        let hit = match &ns[k] {
            Object::Text(key) => bytes_eq(key.as_slice(), name),
            _ => false,
        };
        if hit {
            let res = if fuel == 0 {
                None
            } else {
                resolve_destination(g, &ns[k + 1], fuel - 1)
            };
            assert(spec_names_scan(*g, ns@, k as int, name@, fuel as nat) == Some(res));
            return Some(res);
        }
        k = k + 2;
    }
    assert(spec_names_scan(*g, ns@, k as int, name@, fuel as nat) is None);
    None
}

/// Search the kid nodes in order; the first page found wins.
fn kids_scan(g: &ObjectGraph, ks: &Vec<Object>, name: &[u8], fuel: u64) -> (r: Option<u32>)
    requires
        g.pages@.len() <= u32::MAX,
    ensures
        r == spec_kids_scan(*g, ks@, 0, name@, fuel as nat),
    decreases fuel, 2int,
{
    let m = ks.len();
    let mut i: usize = 0;
    while i < m
        invariant
            m == ks@.len(),
            0 <= i <= m,
            g.pages@.len() <= u32::MAX,
            spec_kids_scan(*g, ks@, 0, name@, fuel as nat) == spec_kids_scan(
                *g,
                ks@,
                i as int,
                name@,
                fuel as nat,
            ),
        decreases m - i,
    {
        match &ks[i] {
            Object::Reference(rf) => {
                if fuel > 0 {
                    match search_name_tree(g, *rf, name, fuel - 1) {
                        Some(p) => {
                            assert(spec_kids_scan(*g, ks@, i as int, name@, fuel as nat) == Some(
                                p,
                            ));
                            return Some(p);
                        },
                        None => {},
                    }
                }
            },
            _ => {},
        }
        i = i + 1;
    }
    None
}

/// The page a `GoTo` action's target resolves to.
fn action_page(g: &ObjectGraph, ad: &Dict, fuel: u64) -> (r: Option<u32>)
    requires
        g.pages@.len() <= u32::MAX,
    ensures
        r == spec_action_page(*g, *ad, fuel as nat),
    decreases fuel, 4int,
{
    let subtype_key: [u8; 1] = [83];
    assert(subtype_key@ =~= key_subtype());
    let goto: [u8; 4] = [71, 111, 84, 111];
    assert(goto@ =~= name_goto());
    match ad.get(subtype_key.as_slice()) {
        Some(Object::Name(st)) => {
            if bytes_eq(st.as_slice(), goto.as_slice()) {
                let target_key: [u8; 1] = [68];
                assert(target_key@ =~= key_target());
                match ad.get(target_key.as_slice()) {
                    Some(dest) => resolve_destination(g, dest, fuel),
                    None => None,
                }
            } else {
                None
            }
        },
        _ => None,
    }
}

/// The destination page of one outline node: its `Dest`, else its `GoTo`
/// action's target.
pub fn get_destination_page(g: &ObjectGraph, d: &Dict, fuel: u64) -> (r: Option<u32>)
    requires
        g.pages@.len() <= u32::MAX,
    ensures
        r == spec_dest_page(*g, *d, fuel as nat),
    decreases fuel, 5int,
{
    let dest_key: [u8; 4] = [68, 101, 115, 116];
    assert(dest_key@ =~= key_dest());
    match d.get(dest_key.as_slice()) {
        Some(dest) => resolve_destination(g, dest, fuel),
        None => {
            let action_key: [u8; 1] = [65];
            assert(action_key@ =~= key_action());
            match d.get(action_key.as_slice()) {
                Some(Object::Reference(ar)) => match g.get_dictionary(*ar) {
                    Some(ad) => action_page(g, ad, fuel),
                    None => None,
                },
                Some(Object::Dictionary(ad)) => action_page(g, ad, fuel),
                _ => None,
            }
        },
    }
}

/// The placeholder title of an outline node whose `Title` is missing or
/// not a string.
pub open spec fn untitled() -> Seq<char> {
    seq!['U', 'n', 't', 'i', 't', 'l', 'e', 'd']
}

/// The decoded title of an outline node, or the placeholder.
pub open spec fn title_of(d: Dict) -> Seq<char> {
    match dict_get(d, key_title()) {
        Some(Object::Text(b)) => decoded_text(b@),
        _ => untitled(),
    }
}

/// The level of a node's children; the depth counter saturates rather
/// than wrap.
pub open spec fn next_level(l: u32) -> u32 {
    if l == u32::MAX {
        l
    } else {
        (l + 1) as u32
    }
}

/// The outline entries reachable from the node `first` at `level`: the
/// node itself (with its resolved destination page and its children one
/// level deeper), then its siblings along the `Next` chain.  A node that
/// does not dereference to a dictionary ends the chain.  `fuel` bounds
/// the walk, so a malformed sibling or child cycle degrades to a
/// truncated outline.
pub open spec fn spec_outline_entries(g: ObjectGraph, first: u64, level: u32, fuel: nat) -> Seq<
    SpecTocEntry,
>
    decreases fuel, 6int,
{
    if fuel == 0 {
        Seq::empty()
    } else {
        match spec_get_dictionary(g, first) {
            None => Seq::empty(),
            Some(d) => {
                let title = title_of(d);
                let page = spec_dest_page(g, d, fuel);
                let children = match dict_get(d, key_first()) {
                    Some(Object::Reference(c)) => spec_outline_entries(
                        g,
                        c,
                        next_level(level),
                        (fuel - 1) as nat,
                    ),
                    _ => Seq::empty(),
                };
                let rest = match dict_get(d, key_next()) {
                    Some(Object::Reference(nx)) => spec_outline_entries(
                        g,
                        nx,
                        level,
                        (fuel - 1) as nat,
                    ),
                    _ => Seq::empty(),
                };
                seq![SpecTocEntry { title, page, level, children }] + rest
            },
        }
    }
}

/// The whole table of contents of the document: the outline entries under
/// the catalog's `Outlines` dictionary's `First` child.  A missing or
/// malformed `Outlines`, or one without a `First`, is an empty table of
/// contents, not an error.
pub open spec fn spec_toc(g: ObjectGraph) -> Seq<SpecTocEntry> {
    match g.catalog {
        None => Seq::empty(),
        Some(cat) => match dict_get(cat, key_outlines()) {
            Some(Object::Reference(or)) => match spec_get_dictionary(g, or) {
                Some(od) => match dict_get(od, key_first()) {
                    Some(Object::Reference(fr)) => spec_outline_entries(
                        g,
                        fr,
                        0,
                        g.objects@.len() as nat,
                    ),
                    _ => Seq::empty(),
                },
                None => Seq::empty(),
            },
            _ => Seq::empty(),
        },
    }
}

/// A document whose catalog has no `Outlines` entry has the empty table
/// of contents; extraction returns it as a result, never as an error.
pub proof fn lemma_no_outlines_empty_toc(g: ObjectGraph)
    requires
        g.catalog is Some,
        dict_get(g.catalog->Some_0, key_outlines()) is None,
    ensures
        spec_toc(g) == Seq::<SpecTocEntry>::empty(),
{
}

/// The decoded title of one outline node.
fn entry_title(d: &Dict) -> (r: String)
    ensures
        r@ == title_of(*d),
{
    let title_key: [u8; 5] = [84, 105, 116, 108, 101];
    assert(title_key@ =~= key_title());
    match d.get(title_key.as_slice()) {
        Some(Object::Text(b)) => decode_pdf_string(b.as_slice()),
        _ => {
            let s = String::from_str("Untitled");
            proof {
                reveal_strlit("Untitled");
            }
            assert(s@ =~= untitled());
            s
        },
    }
}

/// Walk the sibling chain from `first_id` at `level`, building each
/// node's entry with its children.  `fuel` bounds the walk.
pub fn parse_outline_items(g: &ObjectGraph, first_id: u64, level: u32, fuel: u64) -> (r: Vec<
    TocEntry,
>)
    requires
        g.pages@.len() <= u32::MAX,
    ensures
        toc_views(r@) == spec_outline_entries(*g, first_id, level, fuel as nat),
    decreases fuel, 6int,
{
    if fuel == 0 {
        let r: Vec<TocEntry> = Vec::new();
        assert(toc_views(r@) =~= Seq::<SpecTocEntry>::empty());
        return r;
    }
    let d = match g.get_dictionary(first_id) {
        Some(d) => d,
        None => {
            let r: Vec<TocEntry> = Vec::new();
            assert(toc_views(r@) =~= Seq::<SpecTocEntry>::empty());
            return r;
        },
    };

    let title = entry_title(d);
    let page = get_destination_page(g, d, fuel);

    let first_key: [u8; 5] = [70, 105, 114, 115, 116];
    assert(first_key@ =~= key_first());
    let children: Vec<TocEntry> = match d.get(first_key.as_slice()) {
        Some(Object::Reference(c)) => {
            let child_level: u32 = if level == u32::MAX {
                level
            } else {
                level + 1
            };
            parse_outline_items(g, *c, child_level, fuel - 1)
        },
        _ => {
            let v: Vec<TocEntry> = Vec::new();
            assert(toc_views(v@) =~= Seq::<SpecTocEntry>::empty());
            v
        },
    };
    let ghost children_views = toc_views(children@);

    let next_key: [u8; 4] = [78, 101, 120, 116];
    assert(next_key@ =~= key_next());
    let mut rest: Vec<TocEntry> = match d.get(next_key.as_slice()) {
        Some(Object::Reference(nx)) => parse_outline_items(g, *nx, level, fuel - 1),
        _ => {
            let v: Vec<TocEntry> = Vec::new();
            assert(toc_views(v@) =~= Seq::<SpecTocEntry>::empty());
            v
        },
    };
    let ghost rest_views = toc_views(rest@);

    let entry = TocEntry { title, page, level, children };
    proof {
        assert(toc_view(entry).children =~= children_views);
        assert(toc_view(entry) == (SpecTocEntry {
            title: title_of(*d),
            page: spec_dest_page(*g, *d, fuel as nat),
            level,
            children: children_views,
        }));
    }
    rest.insert(0, entry);
    proof {
        assert(toc_views(rest@) =~= seq![toc_view(entry)] + rest_views);
    }
    rest
}

/// Extract the table of contents of the document: the leveled outline
/// tree, each entry carrying its resolved destination page.  A document
/// without outlines has the empty table of contents; only a missing
/// catalog is an error.
pub fn extract_toc_from_doc(g: &ObjectGraph) -> (r: Result<Vec<TocEntry>, GraphError>)
    requires
        g.pages@.len() <= u32::MAX,
    ensures
        match r {
            Ok(es) => g.catalog is Some && toc_views(es@) == spec_toc(*g),
            Err(e) => g.catalog is None && e == GraphError::NoCatalog,
        },
{
    let cat = match &g.catalog {
        Some(c) => c,
        None => {
            return Err(GraphError::NoCatalog);
        },
    };
    let outlines_key: [u8; 8] = [79, 117, 116, 108, 105, 110, 101, 115];
    assert(outlines_key@ =~= key_outlines());
    match cat.get(outlines_key.as_slice()) {
        Some(Object::Reference(or)) => {
            match g.get_dictionary(*or) {
                Some(od) => {
                    let first_key: [u8; 5] = [70, 105, 114, 115, 116];
                    assert(first_key@ =~= key_first());
                    match od.get(first_key.as_slice()) {
                        Some(Object::Reference(fr)) => {
                            return Ok(parse_outline_items(g, *fr, 0, g.objects.len() as u64));
                        },
                        _ => {},
                    }
                },
                None => {},
            }
        },
        _ => {},
    }
    let v: Vec<TocEntry> = Vec::new();
    assert(toc_views(v@) =~= Seq::<SpecTocEntry>::empty());
    Ok(v)
}

/// Flatten an outline forest, pre-order, keeping each entry's level.
pub fn flatten_toc(entries: &Vec<TocEntry>) -> (r: Vec<FlatTocEntry>)
    ensures
        flat_views(r@) == spec_flatten(toc_views(entries@)),
{
    let mut out: Vec<FlatTocEntry> = Vec::new();
    proof {
        assert(flat_views(Seq::<FlatTocEntry>::empty()) =~= Seq::<SpecFlatEntry>::empty());
    }
    flatten_toc_recursive(entries, &mut out);
    proof {
        assert(Seq::<SpecFlatEntry>::empty() + spec_flatten(toc_views(entries@)) =~= spec_flatten(
            toc_views(entries@),
        ));
    }
    out
}

} // verus!
