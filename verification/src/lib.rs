//! Resolution of human-meaningful navigation structures from the object
//! graph of a PDF document: table-of-contents outlines, logical page
//! labels, and textual page-range expressions.

pub mod api;
pub mod grep;
pub mod info;
pub mod object;
pub mod page_labels;
pub mod page_range;
pub mod pdf_string;
pub mod toc;
