//! The plain request and result records of the tool interface, and the
//! conversions from the resolvers' types into them.  Transport concerns
//! (serialization, schemas) live with the caller; these are the bare
//! values.

use vstd::prelude::*;
use crate::grep::{GrepMatch, PageText};
use crate::info::PdfInfo;
use crate::page_labels::PageLabel;
use crate::toc::FlatTocEntry;

verus! {

/// A request naming just a document path.
pub struct PathRequest {
    pub path: String,
}

/// A text-search request.
pub struct PdfGrepRequest {
    pub path: String,
    pub pattern: String,
    pub case_insensitive: bool,
    pub max_results: i32,
}

/// The fallback result cap of a search request that names none.
pub fn default_max_results() -> (r: i32)
    ensures
        r == 100,
{
    100
}

/// A request for the text of a set of pages.
pub struct PdfReadPagesRequest {
    pub path: String,
    pub pages: String,
}

/// A request to extract a set of pages into a new document.
pub struct PdfExtractRequest {
    pub path: String,
    pub pages: String,
    pub output: String,
}

/// Document metadata as reported to a caller.
pub struct PdfInfoResult {
    pub path: String,
    pub page_count: u32,
    pub title: Option<String>,
    pub author: Option<String>,
    pub creator: Option<String>,
    pub producer: Option<String>,
    pub creation_date: Option<String>,
    pub subject: Option<String>,
    pub keywords: Option<String>,
}

/// One flattened outline entry as reported to a caller.
pub struct TocEntryResult {
    pub title: String,
    pub page: Option<u32>,
    pub level: u32,
}

/// One page's label as reported to a caller.
pub struct PageLabelResult {
    pub physical_page: u32,
    pub logical_label: String,
}

/// One search hit as reported to a caller.
pub struct GrepMatchResult {
    pub page: u32,
    pub line_number: u32,
    pub text: String,
    pub match_start: u32,
    pub match_end: u32,
}

/// One page's text as reported to a caller.
pub struct PageTextResult {
    pub page: u32,
    pub text: String,
}

/// The outcome of a page extraction.
pub struct ExtractResult {
    pub output_path: String,
    pub page_count: u32,
}

/// Metadata assembled for reporting: the fields of `info` under the
/// requested path.
pub fn pdf_info_result(path: String, info: PdfInfo) -> (r: PdfInfoResult)
    ensures
        r.path == path,
        r.page_count == info.page_count,
        r.title == info.title,
        r.author == info.author,
        r.creator == info.creator,
        r.producer == info.producer,
        r.creation_date == info.creation_date,
        r.subject == info.subject,
        r.keywords == info.keywords,
{
    PdfInfoResult {
        path,
        page_count: info.page_count,
        title: info.title,
        author: info.author,
        creator: info.creator,
        producer: info.producer,
        creation_date: info.creation_date,
        subject: info.subject,
        keywords: info.keywords,
    }
}

/// Each flattened outline entry, field for field.
pub fn toc_entry_results(flat: &Vec<FlatTocEntry>) -> (r: Vec<TocEntryResult>)
    ensures
        r@.len() == flat@.len(),
        forall|k: int|
            0 <= k < r@.len() ==> (#[trigger] r@[k]).title@ == flat@[k].title@ && r@[k].page
                == flat@[k].page && r@[k].level == flat@[k].level,
{
    let mut out: Vec<TocEntryResult> = Vec::new();
    let mut i: usize = 0;
    while i < flat.len()
        invariant
            0 <= i <= flat@.len(),
            out@.len() == i,
            forall|k: int|
                0 <= k < i ==> (#[trigger] out@[k]).title@ == flat@[k].title@ && out@[k].page
                    == flat@[k].page && out@[k].level == flat@[k].level,
        decreases flat@.len() - i,
    {
        let e = &flat[i];
        out.push(TocEntryResult { title: e.title.clone(), page: e.page, level: e.level });
        i = i + 1;
    }
    out
}

/// Each page label, field for field.
pub fn page_label_results(labels: &Vec<PageLabel>) -> (r: Vec<PageLabelResult>)
    ensures
        r@.len() == labels@.len(),
        forall|k: int|
            0 <= k < r@.len() ==> (#[trigger] r@[k]).physical_page == labels@[k].physical_page
                && r@[k].logical_label@ == labels@[k].logical_label@,
{
    let mut out: Vec<PageLabelResult> = Vec::new();
    let mut i: usize = 0;
    while i < labels.len()
        invariant
            0 <= i <= labels@.len(),
            out@.len() == i,
            forall|k: int|
                0 <= k < i ==> (#[trigger] out@[k]).physical_page == labels@[k].physical_page
                    && out@[k].logical_label@ == labels@[k].logical_label@,
        decreases labels@.len() - i,
    {
        let l = &labels[i];
        out.push(
            PageLabelResult {
                physical_page: l.physical_page,
                logical_label: l.logical_label.clone(),
            },
        );
        i = i + 1;
    }
    out
}

/// Each search hit, field for field.
pub fn grep_match_results(ms: &Vec<GrepMatch>) -> (r: Vec<GrepMatchResult>)
    ensures
        r@.len() == ms@.len(),
        forall|k: int|
            0 <= k < r@.len() ==> (#[trigger] r@[k]).page == ms@[k].page && r@[k].line_number
                == ms@[k].line_number && r@[k].text@ == ms@[k].text@ && r@[k].match_start
                == ms@[k].match_start && r@[k].match_end == ms@[k].match_end,
{
    let mut out: Vec<GrepMatchResult> = Vec::new();
    let mut i: usize = 0;
    while i < ms.len()
        invariant
            0 <= i <= ms@.len(),
            out@.len() == i,
            forall|k: int|
                0 <= k < i ==> (#[trigger] out@[k]).page == ms@[k].page && out@[k].line_number
                    == ms@[k].line_number && out@[k].text@ == ms@[k].text@ && out@[k].match_start
                    == ms@[k].match_start && out@[k].match_end == ms@[k].match_end,
        decreases ms@.len() - i,
    {
        let m = &ms[i];
        out.push(
            GrepMatchResult {
                page: m.page,
                line_number: m.line_number,
                text: m.text.clone(),
                match_start: m.match_start,
                match_end: m.match_end,
            },
        );
        i = i + 1;
    }
    out
}

/// Each page text, field for field.
pub fn page_text_results(ts: &Vec<PageText>) -> (r: Vec<PageTextResult>)
    ensures
        r@.len() == ts@.len(),
        forall|k: int|
            0 <= k < r@.len() ==> (#[trigger] r@[k]).page == ts@[k].page && r@[k].text@
                == ts@[k].text@,
{
    let mut out: Vec<PageTextResult> = Vec::new();
    let mut i: usize = 0;
    while i < ts.len()
        invariant
            0 <= i <= ts@.len(),
            out@.len() == i,
            forall|k: int|
                0 <= k < i ==> (#[trigger] out@[k]).page == ts@[k].page && out@[k].text@
                    == ts@[k].text@,
        decreases ts@.len() - i,
    {
        let t = &ts[i];
        out.push(PageTextResult { page: t.page, text: t.text.clone() });
        i = i + 1;
    }
    out
}

} // verus!
