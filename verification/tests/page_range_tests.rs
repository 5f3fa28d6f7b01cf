use inpdf::page_range::{
    expand_page_ranges, pages_to_delete, parse_page_ranges, ExpandError, PageRange, PageRangesError,
    PageRef, ParseError, Rotation,
};

#[test]
fn test_single_page() {
    let range = PageRange::parse("5").unwrap();
    assert_eq!(range.start, PageRef::Number(5));
    assert_eq!(range.end, None);
    assert_eq!(range.expand(10).unwrap(), vec![5]);
}

#[test]
fn test_page_range() {
    let range = PageRange::parse("1-5").unwrap();
    assert_eq!(range.expand(10).unwrap(), vec![1, 2, 3, 4, 5]);
}

#[test]
fn test_reverse_range() {
    let range = PageRange::parse("5-1").unwrap();
    assert_eq!(range.expand(10).unwrap(), vec![5, 4, 3, 2, 1]);
}

#[test]
fn test_end_keyword() {
    let range = PageRange::parse("5-end").unwrap();
    assert_eq!(range.expand(10).unwrap(), vec![5, 6, 7, 8, 9, 10]);
}

#[test]
fn test_rotation() {
    let range = PageRange::parse("1-5R").unwrap();
    assert_eq!(range.rotation, Rotation::Right);
    assert_eq!(range.expand(10).unwrap(), vec![1, 2, 3, 4, 5]);
}

#[test]
fn test_comma_separated() {
    let pages = expand_page_ranges("1-3,7,9-10", 10).unwrap();
    assert_eq!(pages, vec![1, 2, 3, 7, 9, 10]);
}

#[test]
fn test_invalid_page_zero() {
    let range = PageRange::parse("0").unwrap();
    assert!(range.expand(10).is_err());
}

#[test]
fn test_page_exceeds_total() {
    let range = PageRange::parse("15").unwrap();
    assert!(range.expand(10).is_err());
}

#[test]
fn test_end_not_rotated() {
    // The final d of the literal `end` is not a rotation tag.
    let range = PageRange::parse("end").unwrap();
    assert_eq!(range.start, PageRef::End);
    assert_eq!(range.end, None);
    assert_eq!(range.rotation, Rotation::Unrotated);
}

#[test]
fn test_lower_rotation_tags() {
    assert_eq!(PageRange::parse("3l").unwrap().rotation, Rotation::Left);
    assert_eq!(PageRange::parse("3d").unwrap().rotation, Rotation::Down);
    assert_eq!(PageRange::parse("3r").unwrap().rotation, Rotation::Right);
}

#[test]
fn test_parse_error_variants() {
    assert_eq!(PageRange::parse("  "), Err(ParseError::Empty));
    assert_eq!(PageRange::parse("-5"), Err(ParseError::LeadingDash));
    assert_eq!(PageRange::parse("abc"), Err(ParseError::InvalidNumber));
    assert_eq!(PageRange::parse("1-x"), Err(ParseError::InvalidNumber));
}

#[test]
fn test_expand_error_variants() {
    let zero = PageRange::parse("0-3").unwrap();
    assert_eq!(zero.expand(10), Err(ExpandError::ZeroPage));
    let start_over = PageRange::parse("12-3").unwrap();
    assert_eq!(
        start_over.expand(10),
        Err(ExpandError::StartExceedsTotal { page: 12, total: 10 })
    );
    let end_over = PageRange::parse("3-12").unwrap();
    assert_eq!(
        end_over.expand(10),
        Err(ExpandError::EndExceedsTotal { page: 12, total: 10 })
    );
}

#[test]
fn test_expand_list_fail_fast() {
    let err = expand_page_ranges("1-3,0,5", 10);
    assert_eq!(err, Err(PageRangesError::Expand(ExpandError::ZeroPage)));
    let err = expand_page_ranges("1-3,,5", 10);
    assert_eq!(err, Err(PageRangesError::Parse(ParseError::Empty)));
}

#[test]
fn test_parse_list_whitespace() {
    let ranges = parse_page_ranges(" 1 - 2 , end ").unwrap();
    assert_eq!(ranges.len(), 2);
    assert_eq!(ranges[0].start, PageRef::Number(1));
    assert_eq!(ranges[0].end, Some(PageRef::Number(2)));
    assert_eq!(ranges[1].start, PageRef::End);
}

#[test]
fn test_pages_to_delete() {
    assert_eq!(pages_to_delete(5, &vec![2, 4]).unwrap(), vec![1, 3, 5]);
    assert_eq!(pages_to_delete(3, &vec![1, 2, 3]).unwrap(), Vec::<u32>::new());
    assert_eq!(pages_to_delete(5, &vec![2, 0]), Err(0));
    assert_eq!(pages_to_delete(5, &vec![6, 1]), Err(6));
}

#[test]
fn test_expand_empty_expression() {
    assert_eq!(
        expand_page_ranges("", 10),
        Err(PageRangesError::Parse(ParseError::Empty))
    );
}

#[test]
fn test_unicode_whitespace_trimmed() {
    // Trimming covers Unicode whitespace, not the ASCII blanks alone.
    let range = PageRange::parse("\u{a0}\u{2003}5\u{3000}").unwrap();
    assert_eq!(range.start, PageRef::Number(5));
    assert_eq!(range.end, None);
}
