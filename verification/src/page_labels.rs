//! Logical page labels: decoding a document's `PageLabels` number tree
//! into one label per physical page.
//!
//! A label range names a style, an optional prefix and a start value; the
//! label of a physical page comes from the last range (in start order)
//! that starts at or before it.  A document without a usable `PageLabels`
//! entry gets the identity decimal labeling.

use vstd::prelude::*;
use vstd::string::StringExecFns;
use crate::object::{bytes_eq, dict_get, spec_get_dictionary, Dict, GraphError, Object, ObjectGraph};
use crate::pdf_string::push_char;

verus! {

/// One page's label: the physical (1-based) page number and the logical
/// label shown for it.
pub struct PageLabel {
    pub physical_page: u32,
    pub logical_label: String,
}

/// The numbering style of a label range.
#[derive(Debug, Clone, Copy, PartialEq, Eq, Structural)]
pub enum LabelStyle {
    /// `D`: 1, 2, 3, ...
    Decimal,
    /// `r`: i, ii, iii, ...
    LowerRoman,
    /// `R`: I, II, III, ...
    UpperRoman,
    /// `a`: a, b, ..., z, aa, ab, ...
    LowerAlpha,
    /// `A`: A, B, ..., Z, AA, AB, ...
    UpperAlpha,
    /// No numeric part; the label is the prefix alone.
    PrefixOnly,
}

/// The decimal digit character for `d`.
pub open spec fn dec_digit(d: nat) -> char {
    ((48 + d) as u8) as char
}

/// The decimal rendering of `n`, most significant digit first.
pub open spec fn dec_of(n: nat) -> Seq<char>
    decreases n,
{
    if n < 10 {
        seq![dec_digit(n)]
    } else {
        dec_of(n / 10).push(dec_digit(n % 10))
    }
}

/// Render `n` in decimal.
pub fn u64_to_dec(n: u64) -> (r: String)
    ensures
        r@ == dec_of(n as nat),
    decreases n,
{
    if n < 10 {
        let mut s = String::new();
        push_char(&mut s, ((48 + n) as u8) as char);
        assert(s@ =~= seq![dec_digit(n as nat)]);
        s
    } else {
        let mut s = u64_to_dec(n / 10);
        push_char(&mut s, ((48 + n % 10) as u8) as char);
        s
    }
}

/// An upper-case letter lowered; any other character unchanged.
pub open spec fn lower_char(c: char) -> char {
    if 65 <= c as int && c as int <= 90 {
        ((c as int + 32) as u8) as char
    } else {
        c
    }
}

/// Each character lowered.
pub open spec fn lower_seq(s: Seq<char>) -> Seq<char> {
    Seq::new(s.len(), |i: int| lower_char(s[i]))
}

/// Lower the ASCII letters of `s`.
fn ascii_lower(s: &str) -> (r: String)
    ensures
        r@ == lower_seq(s@),
{
    let n = s.unicode_len();
    let mut out = String::new();
    let mut i: usize = 0;
    while i < n
        invariant
            n == s@.len(),
            0 <= i <= n,
            out@ =~= lower_seq(s@).take(i as int),
        decreases n - i,
    {
        let c = s.get_char(i);
        let u = c as u32;
        let l: char = if 65 <= u && u <= 90 {
            ((u + 32) as u8) as char
        } else {
            c
        };
        assert(l == lower_char(c));
        push_char(&mut out, l);
        assert(out@ =~= lower_seq(s@).take(i + 1 as int));
        i = i + 1;
    }
    assert(lower_seq(s@).take(n as int) =~= lower_seq(s@));
    out
}

/// The roman rendering of a positive number: the greedy subtractive
/// notation over the standard numeral table.  Zero renders as the empty
/// sequence here; `roman_str` handles the documented zero fallback.
pub open spec fn roman_of(n: nat) -> Seq<char>
    decreases n,
{
    if n >= 1000 {
        seq!['M'] + roman_of((n - 1000) as nat)
    } else if n >= 900 {
        seq!['C', 'M'] + roman_of((n - 900) as nat)
    } else if n >= 500 {
        seq!['D'] + roman_of((n - 500) as nat)
    } else if n >= 400 {
        seq!['C', 'D'] + roman_of((n - 400) as nat)
    } else if n >= 100 {
        seq!['C'] + roman_of((n - 100) as nat)
    } else if n >= 90 {
        seq!['X', 'C'] + roman_of((n - 90) as nat)
    } else if n >= 50 {
        seq!['L'] + roman_of((n - 50) as nat)
    } else if n >= 40 {
        seq!['X', 'L'] + roman_of((n - 40) as nat)
    } else if n >= 10 {
        seq!['X'] + roman_of((n - 10) as nat)
    } else if n >= 9 {
        seq!['I', 'X'] + roman_of((n - 9) as nat)
    } else if n >= 5 {
        seq!['V'] + roman_of((n - 5) as nat)
    } else if n >= 4 {
        seq!['I', 'V'] + roman_of((n - 4) as nat)
    } else if n >= 1 {
        seq!['I'] + roman_of((n - 1) as nat)
    } else {
        Seq::empty()
    }
}

/// The roman rendering with the zero fallback: roman numerals have no
/// zero, so zero renders as the literal digit `0`.
pub open spec fn roman_str(n: nat) -> Seq<char> {
    if n == 0 {
        seq!['0']
    } else {
        roman_of(n)
    }
}

/// Render `n` as an upper-case roman numeral; `0` renders as `"0"`.
pub fn to_roman(n: u64) -> (r: String)
    ensures
        r@ == roman_str(n as nat),
{
    if n == 0 {
        let mut s = String::new();
        push_char(&mut s, '0');
        assert(s@ =~= seq!['0']);
        return s;
    }
    let mut out = String::new();
    let mut rem: u64 = n;
    while rem > 0
        invariant
            roman_of(n as nat) =~= out@ + roman_of(rem as nat),
        decreases rem,
    {
        let ghost before = rem as nat;
        let ghost out0 = out@;
        if rem >= 1000 {
            push_char(&mut out, 'M');
            rem = rem - 1000;
            assert(out@ =~= out0 + seq!['M']);
            assert(roman_of(before) =~= seq!['M'] + roman_of(rem as nat));
        } else if rem >= 900 {
            push_char(&mut out, 'C');
            push_char(&mut out, 'M');
            rem = rem - 900;
            assert(out@ =~= out0 + seq!['C', 'M']);
            assert(roman_of(before) =~= seq!['C', 'M'] + roman_of(rem as nat));
        } else if rem >= 500 {
            push_char(&mut out, 'D');
            rem = rem - 500;
            assert(out@ =~= out0 + seq!['D']);
            assert(roman_of(before) =~= seq!['D'] + roman_of(rem as nat));
        } else if rem >= 400 {
            push_char(&mut out, 'C');
            push_char(&mut out, 'D');
            rem = rem - 400;
            assert(out@ =~= out0 + seq!['C', 'D']);
            assert(roman_of(before) =~= seq!['C', 'D'] + roman_of(rem as nat));
        } else if rem >= 100 {
            push_char(&mut out, 'C');
            rem = rem - 100;
            assert(out@ =~= out0 + seq!['C']);
            assert(roman_of(before) =~= seq!['C'] + roman_of(rem as nat));
        } else if rem >= 90 {
            push_char(&mut out, 'X');
            push_char(&mut out, 'C');
            rem = rem - 90;
            assert(out@ =~= out0 + seq!['X', 'C']);
            assert(roman_of(before) =~= seq!['X', 'C'] + roman_of(rem as nat));
        } else if rem >= 50 {
            push_char(&mut out, 'L');
            rem = rem - 50;
            assert(out@ =~= out0 + seq!['L']);
            assert(roman_of(before) =~= seq!['L'] + roman_of(rem as nat));
        } else if rem >= 40 {
            push_char(&mut out, 'X');
            push_char(&mut out, 'L');
            rem = rem - 40;
            assert(out@ =~= out0 + seq!['X', 'L']);
            assert(roman_of(before) =~= seq!['X', 'L'] + roman_of(rem as nat));
        } else if rem >= 10 {
            push_char(&mut out, 'X');
            rem = rem - 10;
            assert(out@ =~= out0 + seq!['X']);
            assert(roman_of(before) =~= seq!['X'] + roman_of(rem as nat));
        } else if rem >= 9 {
            push_char(&mut out, 'I');
            push_char(&mut out, 'X');
            rem = rem - 9;
            assert(out@ =~= out0 + seq!['I', 'X']);
            assert(roman_of(before) =~= seq!['I', 'X'] + roman_of(rem as nat));
        } else if rem >= 5 {
            push_char(&mut out, 'V');
            rem = rem - 5;
            assert(out@ =~= out0 + seq!['V']);
            assert(roman_of(before) =~= seq!['V'] + roman_of(rem as nat));
        } else if rem >= 4 {
            push_char(&mut out, 'I');
            push_char(&mut out, 'V');
            rem = rem - 4;
            assert(out@ =~= out0 + seq!['I', 'V']);
            assert(roman_of(before) =~= seq!['I', 'V'] + roman_of(rem as nat));
        } else {
            push_char(&mut out, 'I');
            rem = rem - 1;
            assert(out@ =~= out0 + seq!['I']);
            assert(roman_of(before) =~= seq!['I'] + roman_of(rem as nat));
        }
        assert(roman_of(n as nat) =~= out@ + roman_of(rem as nat));
    }
    assert(out@ =~= out@ + roman_of(0));
    out
}

/// The bijective base-26 letter for the digit `d` (0 stands for `A`).
pub open spec fn alpha_digit(d: nat) -> char {
    ((65 + d) as u8) as char
}

/// The bijective base-26 rendering of `n`: each position counts from 1,
/// so 26 renders as `Z` and 27 as `AA`.  Zero renders as the empty
/// sequence.
pub open spec fn alpha_of(n: nat) -> Seq<char>
    decreases n,
{
    if n == 0 {
        Seq::empty()
    } else {
        alpha_of(((n - 1) / 26) as nat).push(alpha_digit(((n - 1) % 26) as nat))
    }
}

/// Render `n` in bijective base-26 upper-case letters; `0` renders empty.
pub fn to_alpha(n: u64) -> (r: String)
    ensures
        r@ == alpha_of(n as nat),
    decreases n,
{
    if n == 0 {
        String::new()
    } else {
        let q: u64 = (n - 1) / 26;
        let d: u64 = (n - 1) % 26;
        let mut s = to_alpha(q);
        push_char(&mut s, ((65 + d) as u8) as char);
        s
    }
}

/// One decoded label range, as the contracts see it: the prefix already
/// decoded to characters.
pub struct SpecLabelRange {
    pub start_page: u32,
    pub style: LabelStyle,
    pub prefix: Seq<char>,
    pub start_value: u32,
}

/// One decoded label range: the zero-indexed physical page it starts at,
/// its numbering style, its decoded prefix, and the value its numbering
/// starts at.
pub struct PageLabelRange {
    pub start_page: u32,
    pub style: LabelStyle,
    pub prefix: String,
    pub start_value: u32,
}

impl View for PageLabelRange {
    type V = SpecLabelRange;

    open spec fn view(&self) -> SpecLabelRange {
        SpecLabelRange {
            start_page: self.start_page,
            style: self.style,
            prefix: self.prefix@,
            start_value: self.start_value,
        }
    }
}

pub open spec fn ranges_view(s: Seq<PageLabelRange>) -> Seq<SpecLabelRange> {
    s.map_values(|r: PageLabelRange| r@)
}

/// Ascending by start page.
pub open spec fn sorted_by_start(s: Seq<SpecLabelRange>) -> bool {
    forall|i: int, j: int| 0 <= i < j < s.len() ==> s[i].start_page <= s[j].start_page
}

/// `r` inserted after every element whose start page is at or below its
/// own: a stable insertion, ties keep their first-seen order.
pub open spec fn insert_by_start(r: SpecLabelRange, s: Seq<SpecLabelRange>) -> Seq<SpecLabelRange>
    decreases s.len(),
{
    if s.len() == 0 {
        seq![r]
    } else if s.last().start_page <= r.start_page {
        s.push(r)
    } else {
        insert_by_start(r, s.drop_last()).push(s.last())
    }
}

/// The ranges sorted ascending by start page; ranges sharing a start page
/// keep their first-seen order.
pub open spec fn sort_by_start(s: Seq<SpecLabelRange>) -> Seq<SpecLabelRange>
    decreases s.len(),
{
    if s.len() == 0 {
        Seq::empty()
    } else {
        insert_by_start(s.last(), sort_by_start(s.drop_last()))
    }
}

/// Into a sorted sequence, the stable insertion puts `r` exactly at the
/// boundary position, and keeps the sequence sorted.
proof fn lemma_insert_by_start_at(r: SpecLabelRange, s: Seq<SpecLabelRange>, pos: int)
    requires
        sorted_by_start(s),
        0 <= pos <= s.len(),
        pos > 0 ==> s[pos - 1].start_page <= r.start_page,
        pos < s.len() ==> s[pos].start_page > r.start_page,
    ensures
        insert_by_start(r, s) == s.insert(pos, r),
        sorted_by_start(s.insert(pos, r)),
    decreases s.len(),
{
    if s.len() == 0 {
        assert(insert_by_start(r, s) =~= s.insert(0, r));
    } else if s.last().start_page <= r.start_page {
        assert(pos == s.len());
        assert(s.push(r) =~= s.insert(pos, r));
    } else {
        assert(pos < s.len());
        let t = s.drop_last();
        assert(sorted_by_start(t));
        assert(pos <= t.len()) by {
            if pos == s.len() {
                assert(s[pos - 1] == s.last());
            }
        }
        lemma_insert_by_start_at(r, t, pos);
        assert(t.insert(pos, r).push(s.last()) =~= s.insert(pos, r));
    }
    let out = s.insert(pos, r);
    assert forall|i: int, j: int| 0 <= i < j < out.len() implies out[i].start_page
        <= out[j].start_page by {
        if i < pos && j < pos {
        } else if i < pos && j == pos {
        } else if i < pos && j > pos {
        } else if i == pos && j > pos {
            assert(out[j] == s[j - 1]);
            assert(s[pos].start_page <= s[j - 1].start_page || pos == j - 1);
        } else {
        }
    }
}

/// Insert `x` into the sorted `res`, after any range sharing its start.
fn insert_range(res: &mut Vec<PageLabelRange>, x: PageLabelRange)
    requires
        sorted_by_start(ranges_view(old(res)@)),
    ensures
        ranges_view(final(res)@) == insert_by_start(x@, ranges_view(old(res)@)),
        sorted_by_start(ranges_view(final(res)@)),
{
    let ghost s = ranges_view(res@);
    let mut pos: usize = res.len();
    while pos > 0 && res[pos - 1].start_page > x.start_page
        invariant
            0 <= pos <= res@.len(),
            s == ranges_view(res@),
            sorted_by_start(s),
            pos < res@.len() ==> s[pos as int].start_page > x.start_page,
        decreases pos,
    {
        assert(s[pos - 1].start_page == res@[pos - 1].start_page);
        pos = pos - 1;
    }
    proof {
        if pos > 0 {
            assert(s[pos - 1].start_page == res@[pos - 1].start_page);
        }
        lemma_insert_by_start_at(x@, s, pos as int);
    }
    res.insert(pos, x);
    assert(ranges_view(res@) =~= s.insert(pos as int, x@));
}

/// Sort the ranges ascending by start page; equal start pages keep their
/// first-seen order.
fn sort_ranges(input: Vec<PageLabelRange>) -> (r: Vec<PageLabelRange>)
    ensures
        ranges_view(r@) == sort_by_start(ranges_view(input@)),
        sorted_by_start(ranges_view(r@)),
{
    let mut v = input;
    let mut res: Vec<PageLabelRange> = Vec::new();
    let ghost all = ranges_view(v@);
    let ghost done = Seq::<SpecLabelRange>::empty();
    while v.len() > 0
        invariant
            all =~= done + ranges_view(v@),
            ranges_view(res@) == sort_by_start(done),
            sorted_by_start(ranges_view(res@)),
        decreases v@.len(),
    {
        let ghost v0 = v@;
        let x = v.remove(0);
        proof {
            assert(ranges_view(v@) =~= ranges_view(v0).drop_first());
        }
        insert_range(&mut res, x);
        proof {
            let done1 = done.push(x@);
            assert(done1.drop_last() =~= done);
            assert(done1.last() == x@);
            assert(sort_by_start(done1) == insert_by_start(x@, sort_by_start(done)));
            done = done1;
            assert(x@ == ranges_view(v0)[0]);
            assert(all =~= done + ranges_view(v@));
        }
    }
    proof {
        assert(ranges_view(v@).len() == 0);
        assert(all =~= done);
    }
    res
}

/// The range that applies when no decoded range does: plain decimal
/// numbering of the whole document from 1.
pub open spec fn default_range() -> SpecLabelRange {
    SpecLabelRange {
        start_page: 0,
        style: LabelStyle::Decimal,
        prefix: Seq::empty(),
        start_value: 1,
    }
}

/// The range that applies to the zero-indexed page `p`: the last range
/// (in the given order) starting at or before `p`, or the default when
/// none does.
pub open spec fn applicable_range(rs: Seq<SpecLabelRange>, p: u32) -> SpecLabelRange
    decreases rs.len(),
{
    if rs.len() == 0 {
        default_range()
    } else if rs.last().start_page <= p {
        rs.last()
    } else {
        applicable_range(rs.drop_last(), p)
    }
}

/// The numeric part of a label.
pub open spec fn label_numeric(style: LabelStyle, v: nat) -> Seq<char> {
    match style {
        LabelStyle::Decimal => dec_of(v),
        LabelStyle::LowerRoman => lower_seq(roman_str(v)),
        LabelStyle::UpperRoman => roman_str(v),
        LabelStyle::LowerAlpha => lower_seq(alpha_of(v)),
        LabelStyle::UpperAlpha => alpha_of(v),
        LabelStyle::PrefixOnly => Seq::empty(),
    }
}

/// The label of the zero-indexed page `p` under the given ranges: the
/// applicable range's prefix, then its numbering from its start value.
pub open spec fn spec_label_of(rs: Seq<SpecLabelRange>, p: u32) -> Seq<char> {
    let r = applicable_range(rs, p);
    let v = (r.start_value + p - r.start_page) as nat;
    r.prefix + label_numeric(r.style, v)
}

/// The index of the applicable range among the first `upto`, scanning
/// from the back; nothing when no range starts at or before `p`.
fn applicable_index(ranges: &Vec<PageLabelRange>, upto: usize, p: u32) -> (r: Option<usize>)
    requires
        upto <= ranges@.len(),
    ensures
        match r {
            Some(ix) => {
                &&& ix < upto
                &&& ranges@[ix as int]@ == applicable_range(
                    ranges_view(ranges@).take(upto as int),
                    p,
                )
                &&& ranges@[ix as int].start_page <= p
            },
            None => applicable_range(ranges_view(ranges@).take(upto as int), p)
                == default_range(),
        },
    decreases upto,
{
    if upto == 0 {
        assert(ranges_view(ranges@).take(0).len() == 0);
        None
    } else {
        let ghost rv = ranges_view(ranges@);
        proof {
            assert(rv.take(upto as int).last() == ranges@[upto - 1]@);
            assert(rv.take(upto as int).drop_last() =~= rv.take(upto - 1));
        }
        if ranges[upto - 1].start_page <= p {
            Some(upto - 1)
        } else {
            applicable_index(ranges, upto - 1, p)
        }
    }
}

/// Compute the label of the zero-indexed physical page `page_index`.
pub fn compute_label(ranges: &Vec<PageLabelRange>, page_index: u32) -> (r: String)
    ensures
        r@ == spec_label_of(ranges_view(ranges@), page_index),
{
    proof {
        assert(ranges_view(ranges@).take(ranges@.len() as int) =~= ranges_view(ranges@));
    }
    match applicable_index(ranges, ranges.len(), page_index) {
        Some(ix) => {
            let rg = &ranges[ix];
            let value: u64 = rg.start_value as u64 + (page_index - rg.start_page) as u64;
            let numeric: String = match rg.style {
                LabelStyle::Decimal => u64_to_dec(value),
                LabelStyle::LowerRoman => ascii_lower(to_roman(value).as_str()),
                LabelStyle::UpperRoman => to_roman(value),
                LabelStyle::LowerAlpha => ascii_lower(to_alpha(value).as_str()),
                LabelStyle::UpperAlpha => to_alpha(value),
                LabelStyle::PrefixOnly => String::new(),
            };
            let mut out = rg.prefix.clone();
            out.append(numeric.as_str());
            out
        },
        None => {
            // No range applies: plain decimal numbering from 1.
            let value: u64 = 1 + page_index as u64;
            u64_to_dec(value)
        },
    }
}

/// The `PageLabels` key of the catalog.
pub open spec fn key_page_labels() -> Seq<u8> {
    seq![80u8, 97u8, 103u8, 101u8, 76u8, 97u8, 98u8, 101u8, 108u8, 115u8]
}

/// The `Nums` key of a number-tree node.
pub open spec fn key_nums() -> Seq<u8> {
    seq![78u8, 117u8, 109u8, 115u8]
}

/// The `Kids` key of a number-tree node.
pub open spec fn key_kids() -> Seq<u8> {
    seq![75u8, 105u8, 100u8, 115u8]
}

/// The `S` (style) key of a label dictionary.
pub open spec fn key_style() -> Seq<u8> {
    seq![83u8]
}

/// The `P` (prefix) key of a label dictionary.
pub open spec fn key_prefix() -> Seq<u8> {
    seq![80u8]
}

/// The `St` (start value) key of a label dictionary.
pub open spec fn key_start() -> Seq<u8> {
    seq![83u8, 116u8]
}

/// The style a label dictionary's `S` entry names: one of the five
/// one-letter names, an unknown name falling back to decimal, and a
/// missing or non-name entry meaning no numeric part at all.
pub open spec fn style_of(o: Option<Object>) -> LabelStyle {
    match o {
        Some(Object::Name(n)) => {
            if n@ == seq![68u8] {
                LabelStyle::Decimal
            } else if n@ == seq![114u8] {
                LabelStyle::LowerRoman
            } else if n@ == seq![82u8] {
                LabelStyle::UpperRoman
            } else if n@ == seq![97u8] {
                LabelStyle::LowerAlpha
            } else if n@ == seq![65u8] {
                LabelStyle::UpperAlpha
            } else {
                LabelStyle::Decimal
            }
        },
        _ => LabelStyle::PrefixOnly,
    }
}

/// The decoded prefix of a label dictionary; empty when absent or not a
/// string.
pub open spec fn prefix_of(d: Dict) -> Seq<char> {
    match dict_get(d, key_prefix()) {
        Some(Object::Text(b)) => crate::pdf_string::decoded_text(b@),
        _ => Seq::empty(),
    }
}

/// The start value of a label dictionary; 1 when absent or not an
/// integer.
pub open spec fn start_value_of(d: Dict) -> u32 {
    match dict_get(d, key_start()) {
        Some(Object::Integer(n)) => n as u32,
        _ => 1u32,
    }
}

/// The label dictionary an entry stands for: inline, or behind one
/// reference.
pub open spec fn label_dict_of(g: ObjectGraph, o: Object) -> Option<Dict> {
    match o {
        Object::Dictionary(d) => Some(d),
        Object::Reference(r) => spec_get_dictionary(g, r),
        _ => None,
    }
}

/// The range one key/value chunk of a `Nums` array decodes to; nothing
/// when the key is not an integer or the value is no dictionary.
pub open spec fn range_of_chunk(g: ObjectGraph, a: Object, b: Object) -> Option<SpecLabelRange> {
    match a {
        Object::Integer(n) => match label_dict_of(g, b) {
            Some(d) => Some(
                SpecLabelRange {
                    start_page: n as u32,
                    style: style_of(dict_get(d, key_style())),
                    prefix: prefix_of(d),
                    start_value: start_value_of(d),
                },
            ),
            None => None,
        },
        _ => None,
    }
}

/// The ranges the chunks of a `Nums` array from position `k` on decode
/// to, in encounter order; malformed chunks are skipped, a trailing
/// half-chunk too.
pub open spec fn nums_ranges(g: ObjectGraph, nums: Seq<Object>, k: int) -> Seq<SpecLabelRange>
    decreases nums.len() - k,
{
    if k < 0 || k + 2 > nums.len() {
        Seq::empty()
    } else {
        match range_of_chunk(g, nums[k], nums[k + 1]) {
            Some(r) => seq![r] + nums_ranges(g, nums, k + 2),
            None => nums_ranges(g, nums, k + 2),
        }
    }
}

/// The ranges a number-tree node yields: its own `Nums` chunks, then the
/// ranges of its `Kids` in order, the whole sorted ascending by start
/// page.  A missing or malformed entry contributes nothing.  `fuel`
/// bounds the recursion, so a malformed cyclic tree degrades to a partial
/// result instead of looping.
pub open spec fn tree_ranges(g: ObjectGraph, d: Dict, fuel: nat) -> Seq<SpecLabelRange>
    decreases fuel, 1int, 0int,
{
    let base = match dict_get(d, key_nums()) {
        Some(Object::Array(nums)) => nums_ranges(g, nums@, 0),
        _ => Seq::empty(),
    };
    let from_kids = match dict_get(d, key_kids()) {
        Some(Object::Array(ks)) => kids_ranges(g, ks@, 0, fuel),
        _ => Seq::empty(),
    };
    sort_by_start(base + from_kids)
}

/// The ranges the kid references from position `k` on yield, in order; a
/// kid that is no reference to a dictionary contributes nothing.
pub open spec fn kids_ranges(g: ObjectGraph, ks: Seq<Object>, k: int, fuel: nat) -> Seq<
    SpecLabelRange,
>
    decreases fuel, 0int, ks.len() - k,
{
    if k < 0 || k >= ks.len() || fuel == 0 {
        Seq::empty()
    } else {
        let head = match ks[k] {
            Object::Reference(r) => match spec_get_dictionary(g, r) {
                Some(kd) => tree_ranges(g, kd, (fuel - 1) as nat),
                None => Seq::empty(),
            },
            _ => Seq::empty(),
        };
        head + kids_ranges(g, ks, k + 1, fuel)
    }
}

/// The label dictionary of one `Nums` value, inline or dereferenced.
fn label_dict<'a>(g: &'a ObjectGraph, o: &'a Object) -> (r: Option<&'a Dict>)
    ensures
        match r {
            Some(d) => label_dict_of(*g, *o) == Some(*d),
            None => label_dict_of(*g, *o) is None,
        },
{
    match o {
        Object::Dictionary(d) => Some(d),
        Object::Reference(r) => g.get_dictionary(*r),
        _ => None,
    }
}

/// The style named by a label dictionary's `S` entry.
fn style_from_dict(d: &Dict) -> (r: LabelStyle)
    ensures
        r == style_of(dict_get(*d, key_style())),
{
    let key: [u8; 1] = [83];
    assert(key@ =~= key_style());
    match d.get(key.as_slice()) {
        Some(Object::Name(nm)) => {
            let kd: [u8; 1] = [68];
            let kr: [u8; 1] = [114];
            let kur: [u8; 1] = [82];
            let ka: [u8; 1] = [97];
            let kua: [u8; 1] = [65];
            assert(kd@ =~= seq![68u8]);
            assert(kr@ =~= seq![114u8]);
            assert(kur@ =~= seq![82u8]);
            assert(ka@ =~= seq![97u8]);
            assert(kua@ =~= seq![65u8]);
            if bytes_eq(nm.as_slice(), kd.as_slice()) {
                LabelStyle::Decimal
            } else if bytes_eq(nm.as_slice(), kr.as_slice()) {
                LabelStyle::LowerRoman
            } else if bytes_eq(nm.as_slice(), kur.as_slice()) {
                LabelStyle::UpperRoman
            } else if bytes_eq(nm.as_slice(), ka.as_slice()) {
                LabelStyle::LowerAlpha
            } else if bytes_eq(nm.as_slice(), kua.as_slice()) {
                LabelStyle::UpperAlpha
            } else {
                LabelStyle::Decimal
            }
        },
        _ => LabelStyle::PrefixOnly,
    }
}

/// The decoded prefix of a label dictionary.
fn prefix_from_dict(d: &Dict) -> (r: String)
    ensures
        r@ == prefix_of(*d),
{
    let key: [u8; 1] = [80];
    assert(key@ =~= key_prefix());
    match d.get(key.as_slice()) {
        Some(Object::Text(b)) => crate::pdf_string::decode_pdf_string(b.as_slice()),
        _ => String::new(),
    }
}

/// The start value of a label dictionary.
fn start_value_from_dict(d: &Dict) -> (r: u32)
    ensures
        r == start_value_of(*d),
{
    let key: [u8; 2] = [83, 116];
    assert(key@ =~= key_start());
    match d.get(key.as_slice()) {
        Some(Object::Integer(n)) => #[verifier::truncate] (*n as u32),
        _ => 1,
    }
}

/// Decode the chunks of one `Nums` array, appending to `ranges`.
fn parse_nums_array(g: &ObjectGraph, nums: &Vec<Object>, ranges: &mut Vec<PageLabelRange>)
    ensures
        ranges_view(final(ranges)@) == ranges_view(old(ranges)@) + nums_ranges(*g, nums@, 0),
{
    let ghost r0 = ranges_view(old(ranges)@);
    let n = nums.len();
    let mut k: usize = 0;
    while k + 1 < n
        invariant
            n == nums@.len(),
            0 <= k,
            k % 2 == 0,
            k <= n + 1,
            r0 == ranges_view(old(ranges)@),
            ranges_view(ranges@) + nums_ranges(*g, nums@, k as int) =~= r0 + nums_ranges(
                *g,
                nums@,
                0,
            ),
        decreases n - k,
    {
        match &nums[k] {
            Object::Integer(sp) => {
                match label_dict(g, &nums[k + 1]) {
                    Some(d) => {
                        let style = style_from_dict(d);
                        let prefix = prefix_from_dict(d);
                        let start_value = start_value_from_dict(d);
                        let rg = PageLabelRange {
                            start_page: #[verifier::truncate] (*sp as u32),
                            style,
                            prefix,
                            start_value,
                        };
                        let ghost before = ranges_view(ranges@);
                        ranges.push(rg);
                        assert(ranges_view(ranges@) =~= before + seq![rg@]);
                        assert(nums_ranges(*g, nums@, k as int) =~= seq![rg@] + nums_ranges(
                            *g,
                            nums@,
                            k + 2,
                        ));
                        assert(before + (seq![rg@] + nums_ranges(*g, nums@, k + 2)) =~= (before
                            + seq![rg@]) + nums_ranges(*g, nums@, k + 2));
                    },
                    None => {
                        assert(nums_ranges(*g, nums@, k as int) =~= nums_ranges(*g, nums@, k + 2));
                    },
                }
            },
            _ => {
                assert(nums_ranges(*g, nums@, k as int) =~= nums_ranges(*g, nums@, k + 2));
            },
        }
        k = k + 2;
    }
    assert(nums_ranges(*g, nums@, k as int) =~= Seq::<SpecLabelRange>::empty());
    assert(ranges_view(ranges@) =~= ranges_view(ranges@) + Seq::<SpecLabelRange>::empty());
}

/// Decode a whole number tree into its sorted label ranges.  `fuel`
/// bounds the depth, converting a malformed reference cycle into a
/// bounded skip.
fn parse_number_tree(g: &ObjectGraph, d: &Dict, fuel: u64) -> (r: Vec<PageLabelRange>)
    ensures
        ranges_view(r@) == tree_ranges(*g, *d, fuel as nat),
    decreases fuel,
{
    let mut ranges: Vec<PageLabelRange> = Vec::new();

    let nums_key: [u8; 4] = [78, 117, 109, 115];
    assert(nums_key@ =~= key_nums());
    match d.get(nums_key.as_slice()) {
        Some(Object::Array(nums)) => {
            parse_nums_array(g, nums, &mut ranges);
        },
        _ => {},
    }
    let ghost base = ranges_view(ranges@);

    let kids_key: [u8; 4] = [75, 105, 100, 115];
    assert(kids_key@ =~= key_kids());
    match d.get(kids_key.as_slice()) {
        Some(Object::Array(ks)) => {
            if fuel > 0 {
                let m = ks.len();
                let mut i: usize = 0;
                while i < m
                    invariant
                        m == ks@.len(),
                        0 <= i <= m,
                        fuel > 0,
                        base + kids_ranges(*g, ks@, 0, fuel as nat) =~= ranges_view(ranges@)
                            + kids_ranges(*g, ks@, i as int, fuel as nat),
                    decreases m - i,
                {
                    match &ks[i] {
                        Object::Reference(kid_ref) => {
                            match g.get_dictionary(*kid_ref) {
                                Some(kd) => {
                                    let mut child = parse_number_tree(g, kd, fuel - 1);
                                    let ghost before = ranges_view(ranges@);
                                    let ghost child_v = ranges_view(child@);
                                    ranges.append(&mut child);
                                    assert(ranges_view(ranges@) =~= before + child_v);
                                    assert(kids_ranges(*g, ks@, i as int, fuel as nat) =~= child_v
                                        + kids_ranges(*g, ks@, i + 1, fuel as nat));
                                    assert(before + (child_v + kids_ranges(*g, ks@, i + 1, fuel as nat))
                                        =~= (before + child_v) + kids_ranges(*g, ks@, i + 1, fuel as nat));
                                },
                                None => {
                                    assert(kids_ranges(*g, ks@, i as int, fuel as nat)
                                        =~= kids_ranges(*g, ks@, i + 1, fuel as nat));
                                },
                            }
                        },
                        _ => {
                            assert(kids_ranges(*g, ks@, i as int, fuel as nat) =~= kids_ranges(
                                *g,
                                ks@,
                                i + 1,
                                fuel as nat,
                            ));
                        },
                    }
                    i = i + 1;
                }
                assert(kids_ranges(*g, ks@, m as int, fuel as nat) =~= Seq::<
                    SpecLabelRange,
                >::empty());
            } else {
                assert(kids_ranges(*g, ks@, 0, 0nat) =~= Seq::<SpecLabelRange>::empty());
            }
        },
        _ => {},
    }
    proof {
        assert(ranges_view(ranges@) + Seq::<SpecLabelRange>::empty() =~= ranges_view(ranges@));
    }
    sort_ranges(ranges)
}

/// The decoded label ranges of the document, when its catalog names a
/// usable `PageLabels` number tree, named by reference or written inline;
/// anything else (no entry, a node of another kind, a dangling reference)
/// falls back to the default labeling.
pub open spec fn spec_label_ranges(g: ObjectGraph) -> Option<Seq<SpecLabelRange>> {
    match g.catalog {
        Some(cat) => match dict_get(cat, key_page_labels()) {
            Some(Object::Reference(r)) => match spec_get_dictionary(g, r) {
                Some(d) => Some(tree_ranges(g, d, g.objects@.len() as nat)),
                None => None,
            },
            Some(Object::Dictionary(d)) => Some(tree_ranges(g, d, g.objects@.len() as nat)),
            _ => None,
        },
        None => None,
    }
}

/// The label of the document's zero-indexed page `k`: from the decoded
/// ranges when the document has them, the page's own decimal number
/// otherwise.
pub open spec fn spec_doc_label(g: ObjectGraph, k: int) -> Seq<char> {
    match spec_label_ranges(g) {
        Some(rs) => spec_label_of(rs, k as u32),
        None => dec_of((k + 1) as nat),
    }
}

/// The identity labeling: page `p` is labeled `p`.
pub fn generate_default_labels(total_pages: u32) -> (r: Vec<PageLabel>)
    ensures
        r@.len() == total_pages,
        forall|k: int|
            0 <= k < r@.len() ==> (#[trigger] r@[k]).physical_page == k + 1
                && r@[k].logical_label@ == dec_of((k + 1) as nat),
{
    let mut labels: Vec<PageLabel> = Vec::new();
    let mut k: u64 = 0;
    while k < total_pages as u64
        invariant
            0 <= k <= total_pages,
            labels@.len() == k,
            forall|j: int|
                0 <= j < k ==> (#[trigger] labels@[j]).physical_page == j + 1
                    && labels@[j].logical_label@ == dec_of((j + 1) as nat),
        decreases total_pages - k,
    {
        labels.push(
            PageLabel { physical_page: (k + 1) as u32, logical_label: u64_to_dec(k + 1) },
        );
        k = k + 1;
    }
    labels
}

/// Resolve the logical label of every physical page of the document, in
/// ascending page order, one label per page.  A document without a usable
/// `PageLabels` tree gets the identity decimal labeling; only a missing
/// catalog is an error.
pub fn extract_page_labels_from_doc(g: &ObjectGraph) -> (r: Result<Vec<PageLabel>, GraphError>)
    requires
        g.pages@.len() <= u32::MAX,
    ensures
        match r {
            Ok(labels) => {
                &&& g.catalog is Some
                &&& labels@.len() == g.pages@.len()
                &&& forall|k: int|
                    0 <= k < labels@.len() ==> (#[trigger] labels@[k]).physical_page == k + 1
                        && labels@[k].logical_label@ == spec_doc_label(*g, k)
            },
            Err(e) => g.catalog is None && e == GraphError::NoCatalog,
        },
{
    let total: u32 = g.page_count() as u32;
    let cat = match &g.catalog {
        Some(cat) => cat,
        None => {
            return Err(GraphError::NoCatalog);
        },
    };
    let pl_key: [u8; 10] = [80, 97, 103, 101, 76, 97, 98, 101, 108, 115];
    assert(pl_key@ =~= key_page_labels());
    let ranges: Option<Vec<PageLabelRange>> = match cat.get(pl_key.as_slice()) {
        Some(Object::Reference(r)) => match g.get_dictionary(*r) {
            Some(d) => Some(parse_number_tree(g, d, g.objects.len() as u64)),
            None => None,
        },
        Some(Object::Dictionary(d)) => Some(parse_number_tree(g, d, g.objects.len() as u64)),
        _ => None,
    };
    match ranges {
        Some(rs) => {
            let mut labels: Vec<PageLabel> = Vec::new();
            let mut k: u64 = 0;
            while k < total as u64
                invariant
                    0 <= k <= total,
                    spec_label_ranges(*g) == Some(ranges_view(rs@)),
                    labels@.len() == k,
                    forall|j: int|
                        0 <= j < k ==> (#[trigger] labels@[j]).physical_page == j + 1
                            && labels@[j].logical_label@ == spec_doc_label(*g, j),
                decreases total - k,
            {
                let label = compute_label(&rs, k as u32);
                labels.push(PageLabel { physical_page: (k + 1) as u32, logical_label: label });
                k = k + 1;
            }
            Ok(labels)
        },
        None => Ok(generate_default_labels(total)),
    }
}

} // verus!
