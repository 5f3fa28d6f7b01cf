//! Textual page-range expressions: parsing and expansion.
//!
//! A range expression is a comma-separated list of segments.  Each segment
//! is `<ref>` or `<ref>-<ref>`, where `<ref>` is a decimal number or the
//! case-insensitive literal `end` (the last page).  A segment may carry a
//! single trailing rotation tag (`R`/`r`, `L`/`l`, `D`/`d`), recognized only
//! when the character before it is a digit, so that the `d` of `end` is
//! never read as a tag.

use vstd::prelude::*;
use vstd::string::StrSliceExecFns;

verus! {

/// Rotation tag carried by a range segment.  Parsed but orthogonal to
/// expansion; downstream consumers apply it.
#[derive(Debug, Clone, Copy, PartialEq, Eq, Structural)]
pub enum Rotation {
    /// No rotation tag on the segment.
    Unrotated,
    /// 90 degrees clockwise (`R`)
    Right,
    /// 180 degrees (`D`)
    Down,
    /// 90 degrees counter-clockwise (`L`)
    Left,
}

/// One side of a range: a 1-based page number, or the `end` sentinel for
/// the last page of the document.
#[derive(Debug, Clone, Copy, PartialEq, Eq, Structural)]
pub enum PageRef {
    Number(u32),
    End,
}

/// A parsed range segment.  `end: None` means a single-page segment.
#[derive(Debug, Clone, Copy, PartialEq, Eq, Structural)]
pub struct PageRange {
    pub start: PageRef,
    pub end: Option<PageRef>,
    pub rotation: Rotation,
}

/// Grammar violations found while parsing a segment.
#[derive(Debug, Clone, Copy, PartialEq, Eq, Structural)]
pub enum ParseError {
    /// A segment is empty after trimming.
    Empty,
    /// The dash stands first, as in `-5`.
    LeadingDash,
    /// A reference is neither a decimal number that fits in `u32` nor `end`.
    InvalidNumber,
}

/// Violations found while expanding a range against a page count.
#[derive(Debug, Clone, Copy, PartialEq, Eq, Structural)]
pub enum ExpandError {
    /// A side of the range resolved to page 0; pages are 1-based.
    ZeroPage,
    /// The start page lies beyond the total page count.
    StartExceedsTotal { page: u32, total: u32 },
    /// The end page lies beyond the total page count.
    EndExceedsTotal { page: u32, total: u32 },
}

/// Whitespace as the Unicode `White_Space` property gives it, the blanks
/// trimmed from segments and references: the ASCII blanks, next line,
/// no-break and ogham space marks, the typographic spaces, the line and
/// paragraph separators, and the narrow, mathematical and ideographic
/// spaces.
pub open spec fn is_space(c: char) -> bool {
    let u = c as int;
    ||| (0x09 <= u && u <= 0x0d)
    ||| u == 0x20
    ||| u == 0x85
    ||| u == 0xa0
    ||| u == 0x1680
    ||| (0x2000 <= u && u <= 0x200a)
    ||| u == 0x2028
    ||| u == 0x2029
    ||| u == 0x202f
    ||| u == 0x205f
    ||| u == 0x3000
}

/// `s` with leading whitespace removed.
pub open spec fn trim_front(s: Seq<char>) -> Seq<char>
    decreases s.len(),
{
    if s.len() > 0 && is_space(s[0]) {
        trim_front(s.drop_first())
    } else {
        s
    }
}

/// `s` with trailing whitespace removed.
pub open spec fn trim_back(s: Seq<char>) -> Seq<char>
    decreases s.len(),
{
    if s.len() > 0 && is_space(s.last()) {
        trim_back(s.drop_last())
    } else {
        s
    }
}

/// `s` with whitespace removed from both ends.
pub open spec fn spec_trim(s: Seq<char>) -> Seq<char> {
    trim_back(trim_front(s))
}

/// An ASCII decimal digit.
pub open spec fn is_digit(c: char) -> bool {
    '0' <= c && c <= '9'
}

pub open spec fn digit_of(c: char) -> nat {
    ((c as int) - ('0' as int)) as nat
}

pub open spec fn all_digits(s: Seq<char>) -> bool {
    forall|i: int| 0 <= i < s.len() ==> is_digit(s[i])
}

/// The number the digit string denotes, most significant digit first.
pub open spec fn digits_val(s: Seq<char>) -> nat
    decreases s.len(),
{
    if s.len() == 0 {
        0
    } else {
        digits_val(s.drop_last()) * 10 + digit_of(s.last())
    }
}

/// What parsing `s` as an unsigned decimal number yields: the value when
/// `s` is one or more digits and the value fits in `u32`, nothing
/// otherwise.
pub open spec fn spec_parse_u32(s: Seq<char>) -> Option<u32> {
    if s.len() > 0 && all_digits(s) && digits_val(s) <= u32::MAX {
        Some(digits_val(s) as u32)
    } else {
        None
    }
}

/// The index of the first occurrence of `c` in `s`, if any.
pub open spec fn find_char(s: Seq<char>, c: char) -> Option<int>
    decreases s.len(),
{
    if s.len() == 0 {
        None
    } else if s[0] == c {
        Some(0)
    } else {
        match find_char(s.drop_first(), c) {
            Some(i) => Some(i + 1),
            None => None,
        }
    }
}

/// Where `find_char` points: at an occurrence of `c` before which `c`
/// does not occur; `None` means `c` does not occur at all.
pub proof fn lemma_find_char(s: Seq<char>, c: char)
    ensures
        match find_char(s, c) {
            Some(i) => 0 <= i < s.len() && s[i] == c && forall|j: int| 0 <= j < i ==> s[j] != c,
            None => forall|j: int| 0 <= j < s.len() ==> s[j] != c,
        },
    decreases s.len(),
{
    if s.len() > 0 && s[0] != c {
        lemma_find_char(s.drop_first(), c);
        assert forall|j: int| 1 <= j < s.len() implies s[j] == s.drop_first()[j - 1] by {}
    }
}

/// The case-insensitive literal `end`.
pub open spec fn is_end_lit(s: Seq<char>) -> bool {
    &&& s.len() == 3
    &&& (s[0] == 'e' || s[0] == 'E')
    &&& (s[1] == 'n' || s[1] == 'N')
    &&& (s[2] == 'd' || s[2] == 'D')
}

/// What parsing one whitespace-trimmed reference yields: the `end`
/// sentinel, a page number, or nothing when it is neither.
pub open spec fn spec_parse_ref(s: Seq<char>) -> Option<PageRef> {
    let t = spec_trim(s);
    if is_end_lit(t) {
        Some(PageRef::End)
    } else {
        match spec_parse_u32(t) {
            Some(n) => Some(PageRef::Number(n)),
            None => None,
        }
    }
}

/// Whether a trimmed segment carries a trailing rotation tag: one of
/// `R r L l D d` standing right after a digit.
pub open spec fn has_rot_tag(s: Seq<char>) -> bool {
    &&& s.len() >= 2
    &&& is_digit(s[s.len() - 2])
    &&& (s.last() == 'R' || s.last() == 'r' || s.last() == 'L' || s.last() == 'l' || s.last()
        == 'D' || s.last() == 'd')
}

/// The segment with its rotation tag removed.
pub open spec fn rot_body(s: Seq<char>) -> Seq<char> {
    if has_rot_tag(s) {
        s.subrange(0, s.len() - 1)
    } else {
        s
    }
}

/// The rotation the tag names.
pub open spec fn rot_tag(s: Seq<char>) -> Rotation {
    if has_rot_tag(s) {
        if s.last() == 'R' || s.last() == 'r' {
            Rotation::Right
        } else if s.last() == 'L' || s.last() == 'l' {
            Rotation::Left
        } else {
            Rotation::Down
        }
    } else {
        Rotation::Unrotated
    }
}

/// What parsing one segment yields: the range, or the first grammar
/// violation found.
pub open spec fn spec_parse_range(s: Seq<char>) -> Result<PageRange, ParseError> {
    let t = spec_trim(s);
    if t.len() == 0 {
        Err(ParseError::Empty)
    } else {
        let body = rot_body(t);
        let rot = rot_tag(t);
        match find_char(body, '-') {
            Some(i) => {
                if i == 0 {
                    Err(ParseError::LeadingDash)
                } else {
                    match spec_parse_ref(body.subrange(0, i)) {
                        Some(start) => match spec_parse_ref(
                            body.subrange(i + 1, body.len() as int),
                        ) {
                            Some(end) => Ok(
                                PageRange { start, end: Some(end), rotation: rot },
                            ),
                            None => Err(ParseError::InvalidNumber),
                        },
                        None => Err(ParseError::InvalidNumber),
                    }
                }
            },
            None => match spec_parse_ref(body) {
                Some(start) => Ok(PageRange { start, end: None, rotation: rot }),
                None => Err(ParseError::InvalidNumber),
            },
        }
    }
}

fn is_space_char(c: char) -> (r: bool)
    ensures
        r == is_space(c),
{
    let u = c as u32;
    (0x09 <= u && u <= 0x0d) || u == 0x20 || u == 0x85 || u == 0xa0 || u == 0x1680 || (0x2000 <= u
        && u <= 0x200a) || u == 0x2028 || u == 0x2029 || u == 0x202f || u == 0x205f || u == 0x3000
}

fn is_digit_char(c: char) -> (r: bool)
    ensures
        r == is_digit(c),
{
    let u = c as u32;
    48 <= u && u <= 57
}

fn trim_front_str<'a>(s: &'a str) -> (t: &'a str)
    ensures
        t@ == trim_front(s@),
    decreases s@.len(),
{
    let n = s.unicode_len();
    if n > 0 && is_space_char(s.get_char(0)) {
        let rest = s.substring_char(1, n);
        assert(rest@ =~= s@.drop_first());
        trim_front_str(rest)
    } else {
        s
    }
}

fn trim_back_str<'a>(s: &'a str) -> (t: &'a str)
    ensures
        t@ == trim_back(s@),
    decreases s@.len(),
{
    let n = s.unicode_len();
    if n > 0 && is_space_char(s.get_char(n - 1)) {
        let rest = s.substring_char(0, n - 1);
        assert(rest@ =~= s@.drop_last());
        trim_back_str(rest)
    } else {
        s
    }
}

fn trim_str<'a>(s: &'a str) -> (t: &'a str)
    ensures
        t@ == spec_trim(s@),
{
    trim_back_str(trim_front_str(s))
}

pub(crate) fn find_char_str(s: &str, c: char) -> (r: Option<usize>)
    ensures
        match r {
            Some(i) => find_char(s@, c) == Some(i as int),
            None => find_char(s@, c) is None,
        },
    decreases s@.len(),
{
    let n = s.unicode_len();
    if n == 0 {
        None
    } else if s.get_char(0) == c {
        Some(0)
    } else {
        let rest = s.substring_char(1, n);
        assert(rest@ =~= s@.drop_first());
        proof {
            lemma_find_char(rest@, c);
        }
        match find_char_str(rest, c) {
            Some(i) => Some(i + 1),
            None => None,
        }
    }
}

/// Every digit added on the right can only grow the denoted value.
proof fn lemma_digits_val_prefix(s: Seq<char>, i: int)
    requires
        0 <= i <= s.len(),
    ensures
        digits_val(s.take(i)) <= digits_val(s),
    decreases s.len() - i,
{
    if i < s.len() {
        lemma_digits_val_prefix(s, i + 1);
        assert(s.take(i + 1).drop_last() =~= s.take(i));
        assert(digits_val(s.take(i + 1)) == digits_val(s.take(i)) * 10 + digit_of(s.take(i + 1).last()));
    } else {
        assert(s.take(i) =~= s);
    }
}

fn parse_u32_str(s: &str) -> (r: Option<u32>)
    ensures
        r == spec_parse_u32(s@),
{
    let n = s.unicode_len();
    if n == 0 {
        return None;
    }
    let mut acc: u32 = 0;
    let mut i: usize = 0;
    while i < n
        invariant
            n == s@.len(),
            0 <= i <= n,
            all_digits(s@.take(i as int)),
            acc == digits_val(s@.take(i as int)),
        decreases n - i,
    {
        let c = s.get_char(i);
        if !is_digit_char(c) {
            assert(!all_digits(s@));
            return None;
        }
        let d: u32 = (c as u32) - 48;
        if acc > (u32::MAX - d) / 10 {
            proof {
                lemma_digits_val_prefix(s@, i + 1);
                assert(s@.take(i + 1 as int).drop_last() =~= s@.take(i as int));
                assert(digits_val(s@.take(i + 1 as int)) == acc * 10 + d);
            }
            return None;
        }
        acc = acc * 10 + d;
        proof {
            assert(s@.take(i + 1 as int).drop_last() =~= s@.take(i as int));
        }
        i = i + 1;
    }
    assert(s@.take(n as int) =~= s@);
    Some(acc)
}

fn is_end_str(s: &str) -> (r: bool)
    ensures
        r == is_end_lit(s@),
{
    let n = s.unicode_len();
    if n != 3 {
        return false;
    }
    let c0 = s.get_char(0);
    let c1 = s.get_char(1);
    let c2 = s.get_char(2);
    (c0 == 'e' || c0 == 'E') && (c1 == 'n' || c1 == 'N') && (c2 == 'd' || c2 == 'D')
}

/// Parse one reference: the case-insensitive literal `end`, or a decimal
/// page number.
pub fn parse_page_ref(s: &str) -> (r: Result<PageRef, ParseError>)
    ensures
        match spec_parse_ref(s@) {
            Some(p) => r == Ok::<PageRef, ParseError>(p),
            None => r == Err::<PageRef, ParseError>(ParseError::InvalidNumber),
        },
{
    let t = trim_str(s);
    if is_end_str(t) {
        Ok(PageRef::End)
    } else {
        match parse_u32_str(t) {
            Some(n) => Ok(PageRef::Number(n)),
            None => Err(ParseError::InvalidNumber),
        }
    }
}

/// The page number a reference stands for: itself, or the last page.
pub open spec fn resolve_ref(r: PageRef, total: u32) -> u32 {
    match r {
        PageRef::Number(n) => n,
        PageRef::End => total,
    }
}

/// The inclusive run from `a` to `b`: ascending when `a <= b`, descending
/// otherwise.
pub open spec fn run_seq(a: u32, b: u32) -> Seq<u32> {
    if a <= b {
        Seq::new((b - a + 1) as nat, |i: int| (a + i) as u32)
    } else {
        Seq::new((a - b + 1) as nat, |i: int| (a - i) as u32)
    }
}

/// What expanding a range against `total` pages yields: the inclusive run
/// between the resolved ends, or the error that rules the range out.
pub open spec fn spec_expand(pr: PageRange, total: u32) -> Result<Seq<u32>, ExpandError> {
    let s = resolve_ref(pr.start, total);
    let e = match pr.end {
        Some(r) => resolve_ref(r, total),
        None => s,
    };
    if s == 0 || e == 0 {
        Err(ExpandError::ZeroPage)
    } else if s > total {
        Err(ExpandError::StartExceedsTotal { page: s, total })
    } else if e > total {
        Err(ExpandError::EndExceedsTotal { page: e, total })
    } else {
        Ok(run_seq(s, e))
    }
}

impl PageRange {
    /// Parse one segment such as `1-5`, `9-6`, `1-end`, `5R`.
    pub fn parse(s: &str) -> (r: Result<PageRange, ParseError>)
        ensures
            r == spec_parse_range(s@),
    {
        let t = trim_str(s);
        let n = t.unicode_len();
        if n == 0 {
            return Err(ParseError::Empty);
        }

        let tagged = n >= 2 && is_digit_char(t.get_char(n - 2)) && {
            let last = t.get_char(n - 1);
            last == 'R' || last == 'r' || last == 'L' || last == 'l' || last == 'D' || last == 'd'
        };
        let (body, rotation): (&str, Rotation) = if tagged {
            let last = t.get_char(n - 1);
            let body = t.substring_char(0, n - 1);
            let rot = if last == 'R' || last == 'r' {
                Rotation::Right
            } else if last == 'L' || last == 'l' {
                Rotation::Left
            } else {
                Rotation::Down
            };
            (body, rot)
        } else {
            (t, Rotation::Unrotated)
        };
        assert(body@ == rot_body(t@));
        assert(rotation == rot_tag(t@));

        let m = body.unicode_len();
        match find_char_str(body, '-') {
            Some(i) => {
                proof {
                    lemma_find_char(body@, '-');
                }
                if i == 0 {
                    return Err(ParseError::LeadingDash);
                }
                let start_str = body.substring_char(0, i);
                let end_str = body.substring_char(i + 1, m);
                let start = match parse_page_ref(start_str) {
                    Ok(p) => p,
                    Err(e) => {
                        return Err(e);
                    },
                };
                let end = match parse_page_ref(end_str) {
                    Ok(p) => p,
                    Err(e) => {
                        return Err(e);
                    },
                };
                Ok(PageRange { start, end: Some(end), rotation })
            },
            None => {
                let start = match parse_page_ref(body) {
                    Ok(p) => p,
                    Err(e) => {
                        return Err(e);
                    },
                };
                Ok(PageRange { start, end: None, rotation })
            },
        }
    }

    /// Expand this range into the list of 1-based page numbers it covers.
    /// `end` resolves to `total_pages`; a one-sided segment covers its
    /// single start page; a reversed range (start above end) yields the
    /// descending run.
    pub fn expand(&self, total_pages: u32) -> (r: Result<Vec<u32>, ExpandError>)
        ensures
            match r {
                Ok(v) => spec_expand(*self, total_pages) == Ok::<Seq<u32>, ExpandError>(v@),
                Err(e) => spec_expand(*self, total_pages) == Err::<Seq<u32>, ExpandError>(e),
            },
    {
        let start: u32 = match self.start {
            PageRef::Number(n) => n,
            PageRef::End => total_pages,
        };
        let end: u32 = match self.end {
            Some(PageRef::Number(n)) => n,
            Some(PageRef::End) => total_pages,
            None => start,
        };

        if start == 0 || end == 0 {
            return Err(ExpandError::ZeroPage);
        }
        if start > total_pages {
            return Err(ExpandError::StartExceedsTotal { page: start, total: total_pages });
        }
        if end > total_pages {
            return Err(ExpandError::EndExceedsTotal { page: end, total: total_pages });
        }

        let len: u32 = if start <= end {
            end - start + 1
        } else {
            start - end + 1
        };
        let mut pages: Vec<u32> = Vec::new();
        let mut k: u32 = 0;
        while k < len
            invariant
                len == run_seq(start, end).len(),
                k <= len,
                1 <= start <= total_pages,
                1 <= end <= total_pages,
                pages@ == run_seq(start, end).take(k as int),
            decreases len - k,
        {
            let p: u32 = if start <= end {
                start + k
            } else {
                start - k
            };
            pages.push(p);
            assert(pages@ =~= run_seq(start, end).take(k + 1 as int));
            k = k + 1;
        }
        assert(pages@ =~= run_seq(start, end));
        Ok(pages)
    }
}

/// Either kind of failure of `expand_page_ranges`: the grammar violation
/// that stopped parsing, or the bound violation that stopped expansion.
#[derive(Debug, Clone, Copy, PartialEq, Eq, Structural)]
pub enum PageRangesError {
    Parse(ParseError),
    Expand(ExpandError),
}

/// What parsing a comma-separated list of segments yields: every segment
/// parsed, in order, or the first violation.
pub open spec fn spec_parse_list(s: Seq<char>) -> Result<Seq<PageRange>, ParseError>
    decreases s.len(),
{
    match find_char(s, ',') {
        // `find_char` always points inside `s`; the bound makes that
        // plain where it is needed for termination.
        Some(i) => if 0 <= i < s.len() {
            match spec_parse_range(s.subrange(0, i)) {
                Ok(r) => match spec_parse_list(s.subrange(i + 1, s.len() as int)) {
                    Ok(rest) => Ok(seq![r] + rest),
                    Err(e) => Err(e),
                },
                Err(e) => Err(e),
            }
        } else {
            Err(ParseError::Empty)
        },
        None => match spec_parse_range(s) {
            Ok(r) => Ok(seq![r]),
            Err(e) => Err(e),
        },
    }
}

/// Parse a comma-separated list of segments such as `1-5,10,15-end`.
pub fn parse_page_ranges(s: &str) -> (r: Result<Vec<PageRange>, ParseError>)
    ensures
        match r {
            Ok(v) => spec_parse_list(s@) == Ok::<Seq<PageRange>, ParseError>(v@),
            Err(e) => spec_parse_list(s@) == Err::<Seq<PageRange>, ParseError>(e),
        },
    decreases s@.len(),
{
    let n = s.unicode_len();
    match find_char_str(s, ',') {
        Some(i) => {
            proof {
                lemma_find_char(s@, ',');
            }
            let head_str = s.substring_char(0, i);
            let tail_str = s.substring_char(i + 1, n);
            let head = match PageRange::parse(head_str) {
                Ok(p) => p,
                Err(e) => {
                    return Err(e);
                },
            };
            match parse_page_ranges(tail_str) {
                Ok(mut rest) => {
                    let ghost tail_seq = rest@;
                    rest.insert(0, head);
                    assert(rest@ =~= seq![head] + tail_seq);
                    Ok(rest)
                },
                Err(e) => Err(e),
            }
        },
        None => {
            match PageRange::parse(s) {
                Ok(p) => {
                    let mut v: Vec<PageRange> = Vec::new();
                    v.push(p);
                    assert(v@ =~= seq![p]);
                    Ok(v)
                },
                Err(e) => Err(e),
            }
        },
    }
}

/// What expanding the ranges from `k` on yields: their expansions
/// concatenated in order, or the first bound violation.
pub open spec fn spec_expand_from(rs: Seq<PageRange>, k: int, total: u32) -> Result<
    Seq<u32>,
    ExpandError,
>
    decreases rs.len() - k,
{
    if k < 0 || k >= rs.len() {
        Ok(Seq::empty())
    } else {
        match spec_expand(rs[k], total) {
            Ok(v) => match spec_expand_from(rs, k + 1, total) {
                Ok(rest) => Ok(v + rest),
                Err(e) => Err(e),
            },
            Err(e) => Err(e),
        }
    }
}

/// What expanding a whole range expression yields: parse it, then
/// concatenate the expansions of its segments left to right, without
/// sorting and without removing duplicates; the first violation of either
/// kind stops the whole expansion.
pub open spec fn spec_expand_ranges(s: Seq<char>, total: u32) -> Result<Seq<u32>, PageRangesError> {
    match spec_parse_list(s) {
        Err(e) => Err(PageRangesError::Parse(e)),
        Ok(rs) => match spec_expand_from(rs, 0, total) {
            Ok(v) => Ok(v),
            Err(e) => Err(PageRangesError::Expand(e)),
        },
    }
}

/// Expand a range expression into the list of 1-based page numbers it
/// covers, in the order the segments dictate.
pub fn expand_page_ranges(s: &str, total_pages: u32) -> (r: Result<Vec<u32>, PageRangesError>)
    ensures
        match r {
            Ok(v) => spec_expand_ranges(s@, total_pages) == Ok::<Seq<u32>, PageRangesError>(v@),
            Err(e) => spec_expand_ranges(s@, total_pages) == Err::<Seq<u32>, PageRangesError>(e),
        },
{
    let ranges = match parse_page_ranges(s) {
        Ok(rs) => rs,
        Err(e) => {
            return Err(PageRangesError::Parse(e));
        },
    };
    let mut pages: Vec<u32> = Vec::new();
    let mut i: usize = 0;
    while i < ranges.len()
        invariant
            0 <= i <= ranges@.len(),
            spec_parse_list(s@) == Ok::<Seq<PageRange>, ParseError>(ranges@),
            match spec_expand_from(ranges@, i as int, total_pages) {
                Ok(rest) => spec_expand_from(ranges@, 0, total_pages) == Ok::<
                    Seq<u32>,
                    ExpandError,
                >(pages@ + rest),
                Err(e) => spec_expand_from(ranges@, 0, total_pages) == Err::<
                    Seq<u32>,
                    ExpandError,
                >(e),
            },
        decreases ranges@.len() - i,
    {
        match ranges[i].expand(total_pages) {
            Ok(mut v) => {
                let ghost old_pages = pages@;
                let ghost vs = v@;
                pages.append(&mut v);
                proof {
                    match spec_expand_from(ranges@, i + 1 as int, total_pages) {
                        Ok(rest) => {
                            assert(old_pages + (vs + rest) =~= (old_pages + vs) + rest);
                        },
                        Err(_) => {},
                    }
                }
            },
            Err(e) => {
                return Err(PageRangesError::Expand(e));
            },
        }
        i = i + 1;
    }
    assert(pages@ + Seq::<u32>::empty() =~= pages@);
    Ok(pages)
}

/// The index of the first requested page that lies outside `1..=total`,
/// if any.
pub open spec fn first_invalid_page(keep: Seq<u32>, total: u32) -> Option<int>
    decreases keep.len(),
{
    if keep.len() == 0 {
        None
    } else if keep[0] == 0 || keep[0] > total {
        Some(0)
    } else {
        match first_invalid_page(keep.drop_first(), total) {
            Some(i) => Some(i + 1),
            None => None,
        }
    }
}

pub proof fn lemma_first_invalid_page(keep: Seq<u32>, total: u32)
    ensures
        match first_invalid_page(keep, total) {
            Some(i) => 0 <= i < keep.len() && (keep[i] == 0 || keep[i] > total) && forall|j: int|
                0 <= j < i ==> 1 <= #[trigger] keep[j] <= total,
            None => forall|j: int| 0 <= j < keep.len() ==> 1 <= #[trigger] keep[j] <= total,
        },
    decreases keep.len(),
{
    if keep.len() > 0 && !(keep[0] == 0 || keep[0] > total) {
        lemma_first_invalid_page(keep.drop_first(), total);
        assert forall|j: int| 1 <= j < keep.len() implies keep[j] == keep.drop_first()[j - 1] by {}
    }
}

/// The pages of `1..=total`, from `n` up, that the request does not keep,
/// ascending.
pub open spec fn delete_from(n: int, total: u32, keep: Seq<u32>) -> Seq<u32>
    decreases total + 1 - n,
{
    if n < 1 || n > total {
        Seq::empty()
    } else if keep.contains(n as u32) {
        delete_from(n + 1, total, keep)
    } else {
        seq![n as u32] + delete_from(n + 1, total, keep)
    }
}

/// Whether the page list holds `x`.
fn contains_u32(v: &Vec<u32>, x: u32) -> (r: bool)
    ensures
        r == v@.contains(x),
{
    let n = v.len();
    let mut i: usize = 0;
    while i < n
        invariant
            n == v@.len(),
            0 <= i <= n,
            forall|j: int| 0 <= j < i ==> v@[j] != x,
        decreases n - i,
    {
        if v[i] == x {
            assert(v@.contains(x));
            return true;
        }
        i = i + 1;
    }
    proof {
        assert(!v@.contains(x)) by {
            if v@.contains(x) {
                let j = choose|j: int| 0 <= j < v@.len() && v@[j] == x;
            }
        }
    }
    false
}

/// The pages to drop when extracting `keep` from a document of
/// `total_pages` pages: every page not kept, ascending.  A requested page
/// outside `1..=total_pages` is an error naming the first such page.
pub fn pages_to_delete(total_pages: u32, keep: &Vec<u32>) -> (r: Result<Vec<u32>, u32>)
    ensures
        match r {
            Ok(v) => first_invalid_page(keep@, total_pages) is None && v@ == delete_from(
                1,
                total_pages,
                keep@,
            ),
            Err(p) => match first_invalid_page(keep@, total_pages) {
                Some(i) => p == keep@[i],
                None => false,
            },
        },
{
    proof {
        lemma_first_invalid_page(keep@, total_pages);
    }
    let kn = keep.len();
    let mut i: usize = 0;
    while i < kn
        invariant
            kn == keep@.len(),
            0 <= i <= kn,
            forall|j: int| 0 <= j < i ==> 1 <= #[trigger] keep@[j] <= total_pages,
        decreases kn - i,
    {
        let p = keep[i];
        if p == 0 || p > total_pages {
            proof {
                lemma_first_invalid_page(keep@, total_pages);
            }
            return Err(p);
        }
        i = i + 1;
    }
    let mut out: Vec<u32> = Vec::new();
    let mut n: u64 = 1;
    while n <= total_pages as u64
        invariant
            1 <= n <= total_pages as u64 + 1,
            delete_from(1, total_pages, keep@) =~= out@ + delete_from(n as int, total_pages, keep@),
        decreases total_pages as u64 + 1 - n,
    {
        if !contains_u32(keep, n as u32) {
            let ghost before = out@;
            out.push(n as u32);
            assert(out@ =~= before + seq![n as u32]);
            assert(delete_from(n as int, total_pages, keep@) =~= seq![n as u32] + delete_from(
                n + 1 as int,
                total_pages,
                keep@,
            ));
            assert(before + (seq![n as u32] + delete_from(n + 1 as int, total_pages, keep@)) =~= (
            before + seq![n as u32]) + delete_from(n + 1 as int, total_pages, keep@));
        }
        n = n + 1;
    }
    assert(delete_from(n as int, total_pages, keep@) =~= Seq::<u32>::empty());
    assert(out@ + Seq::<u32>::empty() =~= out@);
    Ok(out)
}

/// Expansion of a valid two-sided numeric range is the inclusive run
/// between its ends: ascending when `a <= b`, descending when `a > b`,
/// of length `|a - b| + 1` either way.
pub proof fn lemma_expand_two_sided(a: u32, b: u32, rot: Rotation, total: u32)
    requires
        1 <= a <= total,
        1 <= b <= total,
    ensures
        ({
            let r = spec_expand((PageRange { start: PageRef::Number(a), end: Some(PageRef::Number(b)), rotation: rot }), total);
            &&& r is Ok
            &&& r->Ok_0.len() == if a <= b { b - a + 1 } else { a - b + 1 }
            &&& (a <= b ==> forall|i: int| 0 <= i < r->Ok_0.len() ==> r->Ok_0[i] == a + i)
            &&& (a > b ==> forall|i: int| 0 <= i < r->Ok_0.len() ==> r->Ok_0[i] == a - i)
        }),
{
}

} // verus!
