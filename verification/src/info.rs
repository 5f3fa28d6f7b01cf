//! Document metadata: the text fields of the info dictionary, and the
//! human-readable form of PDF date strings.

use vstd::prelude::*;
use vstd::string::{StrSliceExecFns, StringExecFns};
use crate::object::{dict_get, Dict, Object};
use crate::pdf_string::{decode_pdf_string_strict, decoded_text_strict, push_char};

verus! {

/// The metadata of a document, each field as its info dictionary gives
/// it, plus the page count.
#[derive(Debug, Default, Clone)]
pub struct PdfInfo {
    pub title: Option<String>,
    pub author: Option<String>,
    pub creator: Option<String>,
    pub producer: Option<String>,
    pub creation_date: Option<String>,
    pub mod_date: Option<String>,
    pub subject: Option<String>,
    pub keywords: Option<String>,
    pub page_count: u32,
}

/// The view of an optional string.
pub open spec fn opt_text(o: Option<String>) -> Option<Seq<char>> {
    match o {
        Some(s) => Some(s@),
        None => None,
    }
}

/// The decoded text under `key`: present only when the entry is a string
/// that decodes strictly.
pub open spec fn spec_string_field(d: Dict, key: Seq<u8>) -> Option<Seq<char>> {
    match dict_get(d, key) {
        Some(Object::Text(b)) => decoded_text_strict(b@),
        _ => None,
    }
}

/// Read and decode the string under `key`, if the dictionary has one.
pub fn get_string_from_dict(d: &Dict, key: &[u8]) -> (r: Option<String>)
    ensures
        opt_text(r) == spec_string_field(*d, key@),
{
    match d.get(key) {
        Some(Object::Text(b)) => decode_pdf_string_strict(b.as_slice()),
        _ => None,
    }
}

/// What each info field of a document is, from its info dictionary (when
/// the trailer names one).
pub open spec fn spec_info_field(info: Option<Dict>, key: Seq<u8>) -> Option<Seq<char>> {
    match info {
        Some(d) => spec_string_field(d, key),
        None => None,
    }
}

pub open spec fn key_info_title() -> Seq<u8> {
    seq![84u8, 105u8, 116u8, 108u8, 101u8]
}

pub open spec fn key_info_author() -> Seq<u8> {
    seq![65u8, 117u8, 116u8, 104u8, 111u8, 114u8]
}

pub open spec fn key_info_creator() -> Seq<u8> {
    seq![67u8, 114u8, 101u8, 97u8, 116u8, 111u8, 114u8]
}

pub open spec fn key_info_producer() -> Seq<u8> {
    seq![80u8, 114u8, 111u8, 100u8, 117u8, 99u8, 101u8, 114u8]
}

pub open spec fn key_info_creation_date() -> Seq<u8> {
    seq![67u8, 114u8, 101u8, 97u8, 116u8, 105u8, 111u8, 110u8, 68u8, 97u8, 116u8, 101u8]
}

pub open spec fn key_info_mod_date() -> Seq<u8> {
    seq![77u8, 111u8, 100u8, 68u8, 97u8, 116u8, 101u8]
}

pub open spec fn key_info_subject() -> Seq<u8> {
    seq![83u8, 117u8, 98u8, 106u8, 101u8, 99u8, 116u8]
}

pub open spec fn key_info_keywords() -> Seq<u8> {
    seq![75u8, 101u8, 121u8, 119u8, 111u8, 114u8, 100u8, 115u8]
}

/// Assemble the document metadata from its info dictionary (absent when
/// the trailer names none or it cannot be dereferenced) and the page
/// count.
pub fn doc_info(info: Option<&Dict>, page_count: u32) -> (r: PdfInfo)
    ensures
        r.page_count == page_count,
        opt_text(r.title) == spec_info_field(
            match info {
                Some(d) => Some(*d),
                None => None,
            },
            key_info_title(),
        ),
        opt_text(r.author) == spec_info_field(
            match info {
                Some(d) => Some(*d),
                None => None,
            },
            key_info_author(),
        ),
        opt_text(r.creator) == spec_info_field(
            match info {
                Some(d) => Some(*d),
                None => None,
            },
            key_info_creator(),
        ),
        opt_text(r.producer) == spec_info_field(
            match info {
                Some(d) => Some(*d),
                None => None,
            },
            key_info_producer(),
        ),
        opt_text(r.creation_date) == spec_info_field(
            match info {
                Some(d) => Some(*d),
                None => None,
            },
            key_info_creation_date(),
        ),
        opt_text(r.mod_date) == spec_info_field(
            match info {
                Some(d) => Some(*d),
                None => None,
            },
            key_info_mod_date(),
        ),
        opt_text(r.subject) == spec_info_field(
            match info {
                Some(d) => Some(*d),
                None => None,
            },
            key_info_subject(),
        ),
        opt_text(r.keywords) == spec_info_field(
            match info {
                Some(d) => Some(*d),
                None => None,
            },
            key_info_keywords(),
        ),
{
    match info {
        Some(d) => {
            let k_title: [u8; 5] = [84, 105, 116, 108, 101];
            assert(k_title@ =~= key_info_title());
            let k_author: [u8; 6] = [65, 117, 116, 104, 111, 114];
            assert(k_author@ =~= key_info_author());
            let k_creator: [u8; 7] = [67, 114, 101, 97, 116, 111, 114];
            assert(k_creator@ =~= key_info_creator());
            let k_producer: [u8; 8] = [80, 114, 111, 100, 117, 99, 101, 114];
            assert(k_producer@ =~= key_info_producer());
            let k_creation: [u8; 12] = [67, 114, 101, 97, 116, 105, 111, 110, 68, 97, 116, 101];
            assert(k_creation@ =~= key_info_creation_date());
            let k_mod: [u8; 7] = [77, 111, 100, 68, 97, 116, 101];
            assert(k_mod@ =~= key_info_mod_date());
            let k_subject: [u8; 7] = [83, 117, 98, 106, 101, 99, 116];
            assert(k_subject@ =~= key_info_subject());
            let k_keywords: [u8; 8] = [75, 101, 121, 119, 111, 114, 100, 115];
            assert(k_keywords@ =~= key_info_keywords());
            PdfInfo {
                title: get_string_from_dict(d, k_title.as_slice()),
                author: get_string_from_dict(d, k_author.as_slice()),
                creator: get_string_from_dict(d, k_creator.as_slice()),
                producer: get_string_from_dict(d, k_producer.as_slice()),
                creation_date: get_string_from_dict(d, k_creation.as_slice()),
                mod_date: get_string_from_dict(d, k_mod.as_slice()),
                subject: get_string_from_dict(d, k_subject.as_slice()),
                keywords: get_string_from_dict(d, k_keywords.as_slice()),
                page_count,
            }
        },
        None => PdfInfo {
            title: None,
            author: None,
            creator: None,
            producer: None,
            creation_date: None,
            mod_date: None,
            subject: None,
            keywords: None,
            page_count,
        },
    }
}

/// What formatting a PDF date string yields: `D:YYYYMMDDHHmmSS...` turns
/// into `YYYY-MM-DD HH:mm:SS` (the time only when all six digits are
/// there); anything else passes through unchanged.
pub open spec fn spec_format_date(s: Seq<char>) -> Seq<char> {
    if s.len() >= 10 && s[0] == 'D' && s[1] == ':' {
        let core = s.subrange(2, 6) + seq!['-'] + s.subrange(6, 8) + seq!['-'] + s.subrange(8, 10);
        if s.len() >= 16 {
            core + seq![' '] + s.subrange(10, 12) + seq![':'] + s.subrange(12, 14) + seq![':']
                + s.subrange(14, 16)
        } else {
            core
        }
    } else {
        s
    }
}

/// Render a PDF date string readably.
pub fn format_pdf_date(date: &str) -> (r: String)
    ensures
        r@ == spec_format_date(date@),
{
    let n = date.unicode_len();
    if n >= 10 && date.get_char(0) == 'D' && date.get_char(1) == ':' {
        let mut out = String::new();
        out.append(date.substring_char(2, 6));
        push_char(&mut out, '-');
        out.append(date.substring_char(6, 8));
        push_char(&mut out, '-');
        out.append(date.substring_char(8, 10));
        if n >= 16 {
            push_char(&mut out, ' ');
            out.append(date.substring_char(10, 12));
            push_char(&mut out, ':');
            out.append(date.substring_char(12, 14));
            push_char(&mut out, ':');
            out.append(date.substring_char(14, 16));
        }
        assert(out@ =~= spec_format_date(date@));
        out
    } else {
        String::from_str(date)
    }
}

} // verus!
