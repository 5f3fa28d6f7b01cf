use inpdf::api::{default_max_results, page_label_results, toc_entry_results};
use inpdf::grep::{context_window, grep_text, page_text_of, split_pages, GrepOptions};
use inpdf::info::{doc_info, format_pdf_date};
use inpdf::object::{Dict, DictEntry, Object};
use inpdf::page_labels::PageLabel;
use inpdf::pdf_string::decode_pdf_string;
use inpdf::toc::FlatTocEntry;

#[test]
fn test_decode_latin1() {
    assert_eq!(decode_pdf_string(b"Hello"), "Hello");
    assert_eq!(decode_pdf_string(&[0x48, 0xE9]), "H\u{e9}");
    assert_eq!(decode_pdf_string(b""), "");
}

#[test]
fn test_decode_utf16() {
    // BOM, then big-endian units; the BOM itself is consumed.
    assert_eq!(decode_pdf_string(&[0xFE, 0xFF, 0x00, 0x41, 0x26, 0x3A]), "A\u{263a}");
    // A trailing odd byte forms no unit.
    assert_eq!(decode_pdf_string(&[0xFE, 0xFF, 0x00, 0x41, 0x00]), "A");
    // An unpaired surrogate decodes lossily, not as an error.
    assert_eq!(decode_pdf_string(&[0xFE, 0xFF, 0xD8, 0x00]), "\u{fffd}");
}

#[test]
fn test_format_pdf_date() {
    assert_eq!(format_pdf_date("D:20240102030405+01'00"), "2024-01-02 03:04:05");
    assert_eq!(format_pdf_date("D:20240102"), "2024-01-02");
    assert_eq!(format_pdf_date("yesterday"), "yesterday");
}

#[test]
fn test_doc_info_fields() {
    let info_dict = Dict {
        entries: vec![
            DictEntry { key: b"Title".to_vec(), value: Object::Text(b"T".to_vec()) },
            DictEntry { key: b"Author".to_vec(), value: Object::Text(b"A".to_vec()) },
            DictEntry { key: b"Producer".to_vec(), value: Object::Integer(3) },
        ],
    };
    let info = doc_info(Some(&info_dict), 7);
    assert_eq!(info.title.as_deref(), Some("T"));
    assert_eq!(info.author.as_deref(), Some("A"));
    // A non-string entry gives no field.
    assert_eq!(info.producer, None);
    assert_eq!(info.subject, None);
    assert_eq!(info.page_count, 7);

    let empty = doc_info(None, 2);
    assert_eq!(empty.title, None);
    assert_eq!(empty.page_count, 2);
}

#[test]
fn test_split_pages_form_feed() {
    let parts = split_pages("one\x0Ctwo\x0C");
    assert_eq!(parts, vec!["one".to_string(), "two".to_string(), "".to_string()]);
    assert_eq!(split_pages("solo"), vec!["solo".to_string()]);
}

#[test]
fn test_page_text_of() {
    assert_eq!(page_text_of("a\x0Cb\x0Cc", 2), "b");
    assert_eq!(page_text_of("a\x0Cb\x0Cc", 1), "a");
    // A page beyond the splits falls back to the whole text.
    assert_eq!(page_text_of("a\x0Cb", 9), "a\x0Cb");
}

#[test]
fn test_grep_text_pages_and_lines() {
    let re = regex::Regex::new("b+").unwrap();
    let matches = grep_text("abc\ndbb\x0Cbb", &re, 10);
    let got: Vec<(u32, u32, &str, u32, u32)> = matches
        .iter()
        .map(|m| (m.page, m.line_number, m.text.as_str(), m.match_start, m.match_end))
        .collect();
    assert_eq!(
        got,
        vec![(1, 1, "abc", 1, 2), (1, 2, "dbb", 1, 3), (2, 1, "bb", 0, 2)]
    );
}

#[test]
fn test_grep_text_caps_results() {
    let re = regex::Regex::new("a").unwrap();
    let matches = grep_text("a a a a a", &re, 3);
    assert_eq!(matches.len(), 3);
}

#[test]
fn test_grep_text_case_insensitive_pattern() {
    let re = regex::RegexBuilder::new("hello").case_insensitive(true).build().unwrap();
    let matches = grep_text("say HeLLo there", &re, 10);
    assert_eq!(matches.len(), 1);
    assert_eq!(matches[0].match_start, 4);
    assert_eq!(matches[0].match_end, 9);
}

#[test]
fn test_grep_options_default() {
    let o = GrepOptions::default();
    assert_eq!(o.pattern, "");
    assert!(!o.case_insensitive);
    assert_eq!(o.max_results, 100);
    assert_eq!(o.context_chars, 60);
}

#[test]
fn test_context_window() {
    assert_eq!(context_window(100, 50, 55, 10), (40, 65));
    assert_eq!(context_window(100, 5, 8, 10), (0, 18));
    assert_eq!(context_window(20, 5, 15, 10), (0, 20));
}

#[test]
fn test_default_max_results() {
    assert_eq!(default_max_results(), 100);
}

#[test]
fn test_result_conversions() {
    let flat = vec![FlatTocEntry { title: "A".to_string(), page: Some(3), level: 1 }];
    let results = toc_entry_results(&flat);
    assert_eq!(results.len(), 1);
    assert_eq!(results[0].title, "A");
    assert_eq!(results[0].page, Some(3));
    assert_eq!(results[0].level, 1);

    let labels = vec![PageLabel { physical_page: 2, logical_label: "ii".to_string() }];
    let results = page_label_results(&labels);
    assert_eq!(results[0].physical_page, 2);
    assert_eq!(results[0].logical_label, "ii");
}

#[test]
fn test_doc_info_utf16_strict() {
    // A UTF-16 title decodes through the strict path; an unpaired
    // surrogate makes the field absent rather than mangled.
    let good = Dict {
        entries: vec![DictEntry {
            key: b"Title".to_vec(),
            value: Object::Text(vec![0xFE, 0xFF, 0x00, 0x4F, 0x00, 0x6B]),
        }],
    };
    assert_eq!(doc_info(Some(&good), 1).title.as_deref(), Some("Ok"));

    let bad = Dict {
        entries: vec![DictEntry {
            key: b"Title".to_vec(),
            value: Object::Text(vec![0xFE, 0xFF, 0xD8, 0x00]),
        }],
    };
    assert_eq!(doc_info(Some(&bad), 1).title, None);
}
