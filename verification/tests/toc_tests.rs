use inpdf::object::{Dict, DictEntry, GraphEntry, Object, ObjectGraph};
use inpdf::toc::{extract_toc_from_doc, flatten_toc, FlatTocEntry, TocEntry};

fn toc_dict(entries: Vec<(&str, Object)>) -> Dict {
    Dict {
        entries: entries
            .into_iter()
            .map(|(k, v)| DictEntry { key: k.as_bytes().to_vec(), value: v })
            .collect(),
    }
}

fn entry(title: &str, page: Option<u32>, level: u32, children: Vec<TocEntry>) -> TocEntry {
    TocEntry { title: title.to_string(), page, level, children }
}

fn flat_triples(flat: &[FlatTocEntry]) -> Vec<(String, Option<u32>, u32)> {
    flat.iter().map(|f| (f.title.clone(), f.page, f.level)).collect()
}

#[test]
fn test_flatten_pre_order_levels() {
    // A[level 0]{B[level 1], C[level 1]{D[level 2]}} flattens to
    // [A(0), B(1), C(1), D(2)].
    let tree = vec![entry(
        "A",
        Some(1),
        0,
        vec![
            entry("B", Some(2), 1, vec![]),
            entry("C", Some(3), 1, vec![entry("D", Some(4), 2, vec![])]),
        ],
    )];
    let flat = flatten_toc(&tree);
    assert_eq!(
        flat_triples(&flat),
        vec![
            ("A".to_string(), Some(1), 0),
            ("B".to_string(), Some(2), 1),
            ("C".to_string(), Some(3), 1),
            ("D".to_string(), Some(4), 2),
        ]
    );
}

#[test]
fn test_toc_without_outlines_is_empty() {
    // No Outlines entry: an empty table of contents, not an error.
    let g = ObjectGraph {
        objects: Vec::new(),
        catalog: Some(toc_dict(vec![])),
        pages: vec![1, 2],
    };
    let toc = extract_toc_from_doc(&g).unwrap();
    assert!(toc.is_empty());
}

#[test]
fn test_toc_without_catalog_is_error() {
    let g = ObjectGraph { objects: Vec::new(), catalog: None, pages: vec![1] };
    assert!(extract_toc_from_doc(&g).is_err());
}

#[test]
fn test_toc_walk_levels_and_pages() {
    // Outline: A (to page 1, one child B to page 2), sibling C without a
    // usable destination.
    let outlines = toc_dict(vec![("First", Object::Reference(2))]);
    let a = toc_dict(vec![
        ("Title", Object::Text(b"A".to_vec())),
        ("Dest", Object::Array(vec![Object::Reference(100), Object::Real])),
        ("First", Object::Reference(3)),
        ("Next", Object::Reference(4)),
    ]);
    let b = toc_dict(vec![
        ("Title", Object::Text(b"B".to_vec())),
        ("Dest", Object::Array(vec![Object::Reference(101)])),
    ]);
    let c = toc_dict(vec![("Title", Object::Text(b"C".to_vec()))]);
    let catalog = toc_dict(vec![("Outlines", Object::Reference(1))]);
    let g = ObjectGraph {
        objects: vec![
            GraphEntry { id: 1, obj: Object::Dictionary(outlines) },
            GraphEntry { id: 2, obj: Object::Dictionary(a) },
            GraphEntry { id: 3, obj: Object::Dictionary(b) },
            GraphEntry { id: 4, obj: Object::Dictionary(c) },
        ],
        catalog: Some(catalog),
        pages: vec![100, 101],
    };
    let toc = extract_toc_from_doc(&g).unwrap();
    let flat = flatten_toc(&toc);
    assert_eq!(
        flat_triples(&flat),
        vec![
            ("A".to_string(), Some(1), 0),
            ("B".to_string(), Some(2), 1),
            ("C".to_string(), None, 0),
        ]
    );
}

#[test]
fn test_toc_missing_title_is_untitled() {
    let outlines = toc_dict(vec![("First", Object::Reference(2))]);
    let nameless = toc_dict(vec![]);
    let catalog = toc_dict(vec![("Outlines", Object::Reference(1))]);
    let g = ObjectGraph {
        objects: vec![
            GraphEntry { id: 1, obj: Object::Dictionary(outlines) },
            GraphEntry { id: 2, obj: Object::Dictionary(nameless) },
        ],
        catalog: Some(catalog),
        pages: vec![100],
    };
    let toc = extract_toc_from_doc(&g).unwrap();
    assert_eq!(toc.len(), 1);
    assert_eq!(toc[0].title, "Untitled");
    assert_eq!(toc[0].page, None);
}

#[test]
fn test_toc_utf16_title() {
    let outlines = toc_dict(vec![("First", Object::Reference(2))]);
    let node = toc_dict(vec![(
        "Title",
        Object::Text(vec![0xFE, 0xFF, 0x00, 0x48, 0x00, 0x69]),
    )]);
    let catalog = toc_dict(vec![("Outlines", Object::Reference(1))]);
    let g = ObjectGraph {
        objects: vec![
            GraphEntry { id: 1, obj: Object::Dictionary(outlines) },
            GraphEntry { id: 2, obj: Object::Dictionary(node) },
        ],
        catalog: Some(catalog),
        pages: vec![100],
    };
    let toc = extract_toc_from_doc(&g).unwrap();
    assert_eq!(toc[0].title, "Hi");
}

#[test]
fn test_toc_goto_action_destination() {
    // A node without Dest but with a GoTo action, inline and by
    // reference; a non-GoTo action yields no page.
    let outlines = toc_dict(vec![("First", Object::Reference(2))]);
    let goto_inline = toc_dict(vec![
        ("Title", Object::Text(b"A".to_vec())),
        (
            "A",
            Object::Dictionary(toc_dict(vec![
                ("S", Object::Name(b"GoTo".to_vec())),
                ("D", Object::Array(vec![Object::Reference(101)])),
            ])),
        ),
        ("Next", Object::Reference(3)),
    ]);
    let goto_ref = toc_dict(vec![
        ("Title", Object::Text(b"B".to_vec())),
        ("A", Object::Reference(5)),
        ("Next", Object::Reference(4)),
    ]);
    let action = toc_dict(vec![
        ("S", Object::Name(b"GoTo".to_vec())),
        ("D", Object::Array(vec![Object::Reference(100)])),
    ]);
    let uri_action = toc_dict(vec![
        ("Title", Object::Text(b"C".to_vec())),
        ("A", Object::Dictionary(toc_dict(vec![("S", Object::Name(b"URI".to_vec()))]))),
    ]);
    let catalog = toc_dict(vec![("Outlines", Object::Reference(1))]);
    let g = ObjectGraph {
        objects: vec![
            GraphEntry { id: 1, obj: Object::Dictionary(outlines) },
            GraphEntry { id: 2, obj: Object::Dictionary(goto_inline) },
            GraphEntry { id: 3, obj: Object::Dictionary(goto_ref) },
            GraphEntry { id: 4, obj: Object::Dictionary(uri_action) },
            GraphEntry { id: 5, obj: Object::Dictionary(action) },
        ],
        catalog: Some(catalog),
        pages: vec![100, 101],
    };
    let toc = extract_toc_from_doc(&g).unwrap();
    assert_eq!(toc[0].page, Some(2));
    assert_eq!(toc[1].page, Some(1));
    assert_eq!(toc[2].page, None);
}

#[test]
fn test_named_destination_prefers_name_tree() {
    // Both the modern name tree and the legacy Dests dictionary map the
    // same name to different pages: the name tree wins.
    let outlines = toc_dict(vec![("First", Object::Reference(2))]);
    let node = toc_dict(vec![
        ("Title", Object::Text(b"A".to_vec())),
        ("Dest", Object::Text(b"target".to_vec())),
    ]);
    let names = toc_dict(vec![("Dests", Object::Reference(11))]);
    let leaf = toc_dict(vec![(
        "Names",
        Object::Array(vec![
            Object::Text(b"target".to_vec()),
            Object::Array(vec![Object::Reference(100)]),
        ]),
    )]);
    let legacy = toc_dict(vec![("target", Object::Array(vec![Object::Reference(101)]))]);
    let catalog = toc_dict(vec![
        ("Outlines", Object::Reference(1)),
        ("Names", Object::Reference(10)),
        ("Dests", Object::Reference(20)),
    ]);
    let g = ObjectGraph {
        objects: vec![
            GraphEntry { id: 1, obj: Object::Dictionary(outlines) },
            GraphEntry { id: 2, obj: Object::Dictionary(node) },
            GraphEntry { id: 10, obj: Object::Dictionary(names) },
            GraphEntry { id: 11, obj: Object::Dictionary(leaf) },
            GraphEntry { id: 20, obj: Object::Dictionary(legacy) },
        ],
        catalog: Some(catalog),
        pages: vec![100, 101],
    };
    let toc = extract_toc_from_doc(&g).unwrap();
    // The name tree maps to page object 100, which is page 1; the legacy
    // dictionary's page 2 loses.
    assert_eq!(toc[0].page, Some(1));
}

#[test]
fn test_named_destination_legacy_fallback() {
    // Only the legacy Dests dictionary knows the name.
    let outlines = toc_dict(vec![("First", Object::Reference(2))]);
    let node = toc_dict(vec![
        ("Title", Object::Text(b"A".to_vec())),
        ("Dest", Object::Name(b"old".to_vec())),
    ]);
    let legacy = toc_dict(vec![("old", Object::Array(vec![Object::Reference(101)]))]);
    let catalog = toc_dict(vec![
        ("Outlines", Object::Reference(1)),
        ("Dests", Object::Reference(20)),
    ]);
    let g = ObjectGraph {
        objects: vec![
            GraphEntry { id: 1, obj: Object::Dictionary(outlines) },
            GraphEntry { id: 2, obj: Object::Dictionary(node) },
            GraphEntry { id: 20, obj: Object::Dictionary(legacy) },
        ],
        catalog: Some(catalog),
        pages: vec![100, 101],
    };
    let toc = extract_toc_from_doc(&g).unwrap();
    assert_eq!(toc[0].page, Some(2));
}

#[test]
fn test_toc_sibling_cycle_bounded() {
    // A malformed outline whose node is its own next sibling: the walk is
    // bounded instead of looping.
    let outlines = toc_dict(vec![("First", Object::Reference(2))]);
    let looper = toc_dict(vec![
        ("Title", Object::Text(b"L".to_vec())),
        ("Next", Object::Reference(2)),
    ]);
    let catalog = toc_dict(vec![("Outlines", Object::Reference(1))]);
    let g = ObjectGraph {
        objects: vec![
            GraphEntry { id: 1, obj: Object::Dictionary(outlines) },
            GraphEntry { id: 2, obj: Object::Dictionary(looper) },
        ],
        catalog: Some(catalog),
        pages: vec![100],
    };
    let toc = extract_toc_from_doc(&g).unwrap();
    let flat = flatten_toc(&toc);
    // Bounded by the object count; every entry is the same looping node.
    assert!(flat.len() <= 2);
    assert!(flat.iter().all(|f| f.title == "L"));
}
