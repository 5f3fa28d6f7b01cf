use inpdf::object::{Dict, DictEntry, GraphEntry, Object, ObjectGraph};
use inpdf::page_labels::{
    extract_page_labels_from_doc, generate_default_labels, to_alpha, to_roman,
};

fn label_dict(entries: Vec<(&str, Object)>) -> Dict {
    Dict {
        entries: entries
            .into_iter()
            .map(|(k, v)| DictEntry { key: k.as_bytes().to_vec(), value: v })
            .collect(),
    }
}

#[test]
fn test_to_roman() {
    assert_eq!(to_roman(1), "I");
    assert_eq!(to_roman(4), "IV");
    assert_eq!(to_roman(9), "IX");
    assert_eq!(to_roman(42), "XLII");
    assert_eq!(to_roman(1999), "MCMXCIX");
}

#[test]
fn test_to_alpha() {
    assert_eq!(to_alpha(1), "A");
    assert_eq!(to_alpha(26), "Z");
    assert_eq!(to_alpha(27), "AA");
    assert_eq!(to_alpha(28), "AB");
}

#[test]
fn test_to_roman_zero() {
    assert_eq!(to_roman(0), "0");
}

#[test]
fn test_to_alpha_zero() {
    assert_eq!(to_alpha(0), "");
}

#[test]
fn test_default_labels_identity() {
    let labels = generate_default_labels(10);
    assert_eq!(labels.len(), 10);
    for (i, l) in labels.iter().enumerate() {
        assert_eq!(l.physical_page, (i + 1) as u32);
        assert_eq!(l.logical_label, (i + 1).to_string());
    }
}

#[test]
fn test_labels_without_page_labels_entry() {
    // A 10-page document with no PageLabels entry labels every page with
    // its own number.
    let g = ObjectGraph {
        objects: Vec::new(),
        catalog: Some(label_dict(vec![])),
        pages: (1..=10u64).collect(),
    };
    let labels = extract_page_labels_from_doc(&g).unwrap();
    assert_eq!(labels.len(), 10);
    for (i, l) in labels.iter().enumerate() {
        assert_eq!(l.physical_page, (i + 1) as u32);
        assert_eq!(l.logical_label, (i + 1).to_string());
    }
}

#[test]
fn test_labels_without_catalog() {
    let g = ObjectGraph { objects: Vec::new(), catalog: None, pages: vec![7, 8] };
    assert!(extract_page_labels_from_doc(&g).is_err());
}

#[test]
fn test_labels_roman_then_decimal_prefix() {
    // Pages 1-4 lower roman, pages 5-8 decimal with prefix "A-" starting
    // at 1: i, ii, iii, iv, A-1, A-2, A-3, A-4.
    let front = label_dict(vec![("S", Object::Name(b"r".to_vec()))]);
    let body = label_dict(vec![
        ("S", Object::Name(b"D".to_vec())),
        ("P", Object::Text(b"A-".to_vec())),
        ("St", Object::Integer(1)),
    ]);
    let tree = label_dict(vec![(
        "Nums",
        Object::Array(vec![
            Object::Integer(0),
            Object::Dictionary(front),
            Object::Integer(4),
            Object::Dictionary(body),
        ]),
    )]);
    let catalog = label_dict(vec![("PageLabels", Object::Reference(1))]);
    let g = ObjectGraph {
        objects: vec![GraphEntry { id: 1, obj: Object::Dictionary(tree) }],
        catalog: Some(catalog),
        pages: (101..=108u64).collect(),
    };
    let labels = extract_page_labels_from_doc(&g).unwrap();
    let got: Vec<&str> = labels.iter().map(|l| l.logical_label.as_str()).collect();
    assert_eq!(got, vec!["i", "ii", "iii", "iv", "A-1", "A-2", "A-3", "A-4"]);
}

#[test]
fn test_labels_styles_and_kids() {
    // A number tree split over two kid nodes, upper roman then upper
    // alpha, out of order in the tree: sorting by start page puts them
    // right.
    let alpha = label_dict(vec![("S", Object::Name(b"A".to_vec())), ("St", Object::Integer(26))]);
    let roman = label_dict(vec![("S", Object::Name(b"R".to_vec()))]);
    let kid_late = label_dict(vec![(
        "Nums",
        Object::Array(vec![Object::Integer(2), Object::Dictionary(alpha)]),
    )]);
    let kid_early = label_dict(vec![(
        "Nums",
        Object::Array(vec![Object::Integer(0), Object::Dictionary(roman)]),
    )]);
    let root = label_dict(vec![(
        "Kids",
        Object::Array(vec![Object::Reference(2), Object::Reference(3)]),
    )]);
    let catalog = label_dict(vec![("PageLabels", Object::Reference(1))]);
    let g = ObjectGraph {
        objects: vec![
            GraphEntry { id: 1, obj: Object::Dictionary(root) },
            GraphEntry { id: 2, obj: Object::Dictionary(kid_late) },
            GraphEntry { id: 3, obj: Object::Dictionary(kid_early) },
        ],
        catalog: Some(catalog),
        pages: (11..=14u64).collect(),
    };
    let labels = extract_page_labels_from_doc(&g).unwrap();
    let got: Vec<&str> = labels.iter().map(|l| l.logical_label.as_str()).collect();
    assert_eq!(got, vec!["I", "II", "Z", "AA"]);
}

#[test]
fn test_labels_prefix_only_style() {
    // A label dictionary without S has no numeric part: the prefix alone.
    let cover = label_dict(vec![("P", Object::Text(b"Cover ".to_vec()))]);
    let tree = label_dict(vec![(
        "Nums",
        Object::Array(vec![Object::Integer(0), Object::Dictionary(cover)]),
    )]);
    let catalog = label_dict(vec![("PageLabels", Object::Reference(1))]);
    let g = ObjectGraph {
        objects: vec![GraphEntry { id: 1, obj: Object::Dictionary(tree) }],
        catalog: Some(catalog),
        pages: vec![5, 6],
    };
    let labels = extract_page_labels_from_doc(&g).unwrap();
    assert_eq!(labels[0].logical_label, "Cover ");
    assert_eq!(labels[1].logical_label, "Cover ");
}

#[test]
fn test_labels_utf16_prefix() {
    // A prefix with the UTF-16BE byte-order mark decodes through the
    // UTF-16 path, not byte for byte.
    let dict = label_dict(vec![
        ("S", Object::Name(b"D".to_vec())),
        ("P", Object::Text(vec![0xFE, 0xFF, 0x00, 0x58, 0x00, 0x2D])),
    ]);
    let tree = label_dict(vec![(
        "Nums",
        Object::Array(vec![Object::Integer(0), Object::Dictionary(dict)]),
    )]);
    let catalog = label_dict(vec![("PageLabels", Object::Reference(1))]);
    let g = ObjectGraph {
        objects: vec![GraphEntry { id: 1, obj: Object::Dictionary(tree) }],
        catalog: Some(catalog),
        pages: vec![9],
    };
    let labels = extract_page_labels_from_doc(&g).unwrap();
    assert_eq!(labels[0].logical_label, "X-1");
}

#[test]
fn test_labels_equal_start_pages_last_wins() {
    // Two ranges starting at the same page: the sort keeps their
    // first-seen order, and the later one is the applicable range.
    let first = label_dict(vec![("S", Object::Name(b"D".to_vec()))]);
    let second = label_dict(vec![("S", Object::Name(b"R".to_vec()))]);
    let tree = label_dict(vec![(
        "Nums",
        Object::Array(vec![
            Object::Integer(0),
            Object::Dictionary(first),
            Object::Integer(0),
            Object::Dictionary(second),
        ]),
    )]);
    let catalog = label_dict(vec![("PageLabels", Object::Reference(1))]);
    let g = ObjectGraph {
        objects: vec![GraphEntry { id: 1, obj: Object::Dictionary(tree) }],
        catalog: Some(catalog),
        pages: vec![3, 4],
    };
    let labels = extract_page_labels_from_doc(&g).unwrap();
    assert_eq!(labels[0].logical_label, "I");
    assert_eq!(labels[1].logical_label, "II");
}

#[test]
fn test_labels_inline_page_labels_dictionary() {
    // A PageLabels number tree written inline in the catalog decodes
    // exactly as the referenced form does.
    let roman = label_dict(vec![("S", Object::Name(b"R".to_vec()))]);
    let tree = label_dict(vec![(
        "Nums",
        Object::Array(vec![Object::Integer(0), Object::Dictionary(roman)]),
    )]);
    let catalog = label_dict(vec![("PageLabels", Object::Dictionary(tree))]);
    let g = ObjectGraph {
        objects: Vec::new(),
        catalog: Some(catalog),
        pages: vec![3],
    };
    let labels = extract_page_labels_from_doc(&g).unwrap();
    assert_eq!(labels[0].logical_label, "I");
}
