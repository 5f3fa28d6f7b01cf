//! Text search over extracted page text: page splitting on form feeds,
//! line numbering, and regex matching with a result cap.
//!
//! The text itself comes from an external extractor; this module only
//! organizes it and runs the pattern over it.

use vstd::prelude::*;
use vstd::string::{StrSliceExecFns, StringExecFns};
use crate::page_range::{find_char, find_char_str, lemma_find_char};

verus! {

/// The text of one page.
pub struct PageText {
    pub page: u32,
    pub text: String,
}

/// One search hit: the page and 1-based line it stands on, the whole
/// line, and the byte range of the match within it.
pub struct GrepMatch {
    pub page: u32,
    pub line_number: u32,
    pub text: String,
    pub match_start: u32,
    pub match_end: u32,
}

/// Knobs of a text search.
pub struct GrepOptions {
    pub pattern: String,
    pub case_insensitive: bool,
    pub max_results: usize,
    pub context_chars: usize,
}

impl Default for GrepOptions {
    /// An empty pattern, case respected, at most 100 results, 60
    /// characters of context either side.
    fn default() -> (r: GrepOptions)
        ensures
            r.pattern@ == Seq::<char>::empty(),
            r.case_insensitive == false,
            r.max_results == 100,
            r.context_chars == 60,
    {
        GrepOptions {
            pattern: String::new(),
            case_insensitive: false,
            max_results: 100,
            context_chars: 60,
        }
    }
}

/// The declared regex type; its values are opaque and only handed to the
/// matching wrapper.
#[verifier::external_type_specification]
#[verifier::external_body]
pub struct ExRegex(regex::Regex);

/// Relies on regex::Regex::find_iter: yields the successive
/// non-overlapping matches of the pattern in the line, in order, each as
/// a byte range with start at or before end, and each range ending at or
/// before the next one starts.
#[verifier::external_body]
fn regex_find_ranges(re: &regex::Regex, line: &str) -> (r: Vec<(usize, usize)>)
    ensures
        forall|i: int| 0 <= i < r@.len() ==> (#[trigger] r@[i]).0 <= r@[i].1,
        forall|i: int| 0 <= i < r@.len() - 1 ==> (#[trigger] r@[i]).1 <= r@[i + 1].0,
{
    re.find_iter(line).map(|m| (m.start(), m.end())).collect()
}

/// What splitting text into lines yields.  The exact line-ending rules
/// take a page to state; the name stands for them, and the splitting
/// relies on the standard library for them.
pub uninterp spec fn lines_of(s: Seq<char>) -> Seq<Seq<char>>;

/// Relies on str::lines: splits at line endings, a function of the text
/// alone; empty text has no lines.
#[verifier::external_body]
fn text_lines(s: &str) -> (r: Vec<String>)
    ensures
        r@.map_values(|l: String| l@) == lines_of(s@),
        s@.len() == 0 ==> r@.len() == 0,
{
    s.lines().map(|l| l.to_string()).collect()
}

/// The page texts: the segments of the extracted text between form
/// feeds, in order; a text without form feeds is one page.
pub open spec fn split_ff(s: Seq<char>) -> Seq<Seq<char>>
    decreases s.len(),
{
    match find_char(s, '\u{0c}') {
        Some(i) => if 0 <= i < s.len() {
            seq![s.subrange(0, i)] + split_ff(s.subrange(i + 1, s.len() as int))
        } else {
            seq![s]
        },
        None => seq![s],
    }
}

/// Split extracted text into its pages at form feeds.
pub fn split_pages(s: &str) -> (r: Vec<String>)
    ensures
        r@.map_values(|p: String| p@) == split_ff(s@),
    decreases s@.len(),
{
    let n = s.unicode_len();
    match find_char_str(s, '\u{0c}') {
        Some(i) => {
            proof {
                lemma_find_char(s@, '\u{0c}');
            }
            let head = String::from_str(s.substring_char(0, i));
            let mut rest = split_pages(s.substring_char(i + 1, n));
            let ghost tail_views = rest@.map_values(|p: String| p@);
            rest.insert(0, head);
            assert(rest@.map_values(|p: String| p@) =~= seq![head@] + tail_views);
            rest
        },
        None => {
            let mut v: Vec<String> = Vec::new();
            v.push(String::from_str(s));
            assert(v@.map_values(|p: String| p@) =~= seq![s@]);
            v
        },
    }
}

/// The text shown for one requested page: the page's segment, the whole
/// text when the page lies beyond the segments.
pub open spec fn spec_page_text(s: Seq<char>, page_num: u32) -> Seq<char> {
    let parts = split_ff(s);
    if page_num == 1 {
        if parts.len() > 0 {
            parts[0]
        } else {
            s
        }
    } else if page_num - 1 < parts.len() {
        parts[page_num - 1]
    } else {
        s
    }
}

/// The text of one 1-based page of the extracted text.
pub fn page_text_of(full_text: &str, page_num: u32) -> (r: String)
    requires
        page_num >= 1,
    ensures
        r@ == spec_page_text(full_text@, page_num),
{
    let parts = split_pages(full_text);
    let ghost views = parts@.map_values(|p: String| p@);
    if page_num == 1 {
        if parts.len() > 0 {
            let first = &parts[0];
            assert(first@ == views[0]);
            return first.clone();
        }
        return String::from_str(full_text);
    }
    let idx = (page_num - 1) as usize;
    if idx < parts.len() {
        let part = &parts[idx];
        assert(part@ == views[idx as int]);
        part.clone()
    } else {
        String::from_str(full_text)
    }
}

/// Whether one search hit is well-formed against the searched text: it
/// names a real page and line, carries exactly that line, and its match
/// range is ordered.
pub open spec fn grep_match_ok(text: Seq<char>, m: GrepMatch) -> bool {
    let parts = split_ff(text);
    &&& 1 <= m.page as int <= parts.len()
    &&& 1 <= m.line_number as int <= lines_of(parts[m.page as int - 1]).len()
    &&& m.text@ == lines_of(parts[m.page as int - 1])[m.line_number as int - 1]
    &&& m.match_start <= m.match_end
}

fn cap_u32(x: usize) -> (r: u32)
    ensures
        r as int == if x > u32::MAX as int {
            u32::MAX as int
        } else {
            x as int
        },
{
    if x > u32::MAX as usize {
        u32::MAX
    } else {
        x as u32
    }
}

/// Search the extracted text for the pattern, page by page and line by
/// line, stopping once `max_results` hits are collected.  Every hit names
/// the page and line it stands on and carries that whole line.
pub fn grep_text(full_text: &str, re: &regex::Regex, max_results: usize) -> (r: Vec<GrepMatch>)
    ensures
        max_results > 0 ==> r@.len() <= max_results,
        forall|i: int| 0 <= i < r@.len() ==> grep_match_ok(full_text@, #[trigger] r@[i]),
{
    let parts = split_pages(full_text);
    let ghost part_views = parts@.map_values(|p: String| p@);
    let mut out: Vec<GrepMatch> = Vec::new();
    let mut pi: usize = 0;
    while pi < parts.len() && pi < u32::MAX as usize
        invariant
            part_views == parts@.map_values(|p: String| p@),
            part_views == split_ff(full_text@),
            0 <= pi <= parts@.len(),
            max_results > 0 ==> out@.len() < max_results,
            forall|i: int| 0 <= i < out@.len() ==> grep_match_ok(full_text@, #[trigger] out@[i]),
        decreases parts@.len() - pi,
    {
        let lines = text_lines(parts[pi].as_str());
        let ghost line_views = lines@.map_values(|l: String| l@);
        assert(line_views == lines_of(part_views[pi as int]));
        let mut li: usize = 0;
        while li < lines.len() && li < u32::MAX as usize
            invariant
                part_views == split_ff(full_text@),
                0 <= pi < part_views.len(),
                pi < u32::MAX as usize,
                line_views == lines@.map_values(|l: String| l@),
                line_views == lines_of(part_views[pi as int]),
                0 <= li <= lines@.len(),
                max_results > 0 ==> out@.len() < max_results,
                forall|i: int|
                    0 <= i < out@.len() ==> grep_match_ok(full_text@, #[trigger] out@[i]),
            decreases lines@.len() - li,
        {
            let line = &lines[li];
            let ranges = regex_find_ranges(re, line.as_str());
            let mut ri: usize = 0;
            while ri < ranges.len()
                invariant
                    part_views == split_ff(full_text@),
                    0 <= pi < part_views.len(),
                    pi < u32::MAX as usize,
                    line_views == lines@.map_values(|l: String| l@),
                    line_views == lines_of(part_views[pi as int]),
                    0 <= li < lines@.len(),
                    li < u32::MAX as usize,
                    line@ == lines@[li as int]@,
                    line_views[li as int] == line@,
                    forall|k: int| 0 <= k < ranges@.len() ==> (#[trigger] ranges@[k]).0
                        <= ranges@[k].1,
                    0 <= ri <= ranges@.len(),
                    max_results > 0 ==> out@.len() < max_results,
                    forall|i: int|
                        0 <= i < out@.len() ==> grep_match_ok(full_text@, #[trigger] out@[i]),
                decreases ranges@.len() - ri,
            {
                let (ms, me) = ranges[ri];
                let m = GrepMatch {
                    page: (pi + 1) as u32,
                    line_number: (li + 1) as u32,
                    text: line.clone(),
                    match_start: cap_u32(ms),
                    match_end: cap_u32(me),
                };
                assert(grep_match_ok(full_text@, m));
                out.push(m);
                if out.len() >= max_results {
                    return out;
                }
                ri = ri + 1;
            }
            li = li + 1;
        }
        pi = pi + 1;
    }
    out
}

/// The window of `text` (of byte length `len`) shown around a match from
/// byte `start` to byte `end`: `ctx` bytes of context either side,
/// clipped to the text.
pub fn context_window(len: usize, start: usize, end: usize, ctx: usize) -> (r: (usize, usize))
    ensures
        r.0 == if start >= ctx {
            start - ctx
        } else {
            0
        },
        r.1 == if end as int + ctx as int > len as int {
            len as int
        } else {
            end as int + ctx as int
        },
{
    let lo = if start >= ctx {
        start - ctx
    } else {
        0
    };
    let hi = if end >= len || ctx >= len - end {
        len
    } else {
        end + ctx
    };
    (lo, hi)
}

} // verus!
