//! Decoding of PDF text strings, shared by every text-bearing field:
//! outline titles, label prefixes, info-dictionary values.
//!
//! A byte string that opens with the big-endian byte-order mark `FE FF` is
//! read as UTF-16BE code units (lossily, as to unpaired surrogates); any
//! other byte string is read as Latin-1, each byte standing for the
//! same-valued code point.  (True PDFDocEncoding deviates from Latin-1 in a
//! few upper code points, which this decoder does not special-case.)

use vstd::prelude::*;

verus! {

/// What decoding a sequence of UTF-16 code units yields.  The exact
/// replacement of malformed units takes pages to state; the name stands
/// for it, and the decoding relies on the standard library for it.
pub uninterp spec fn utf16_lossy_of(units: Seq<u16>) -> Seq<char>;

/// Relies on String::from_utf16_lossy: decodes UTF-16 code units,
/// replacing unpaired surrogates; the result is a function of the units
/// alone, and no units decode to no characters.
#[verifier::external_body]
fn utf16_lossy(units: &Vec<u16>) -> (r: String)
    ensures
        r@ == utf16_lossy_of(units@),
        units@.len() == 0 ==> r@.len() == 0,
{
    String::from_utf16_lossy(units.as_slice())
}

/// Relies on String::push: appends exactly the one character.
#[verifier::external_body]
pub(crate) fn push_char(s: &mut String, c: char)
    ensures
        final(s)@ == old(s)@.push(c),
{
    s.push(c);
}

/// Whether the bytes open with the UTF-16BE byte-order mark.
pub open spec fn has_bom(b: Seq<u8>) -> bool {
    b.len() >= 2 && b[0] == 0xfe && b[1] == 0xff
}

/// The big-endian 16-bit code units the bytes form, a trailing odd byte
/// dropped.
pub open spec fn be_units(b: Seq<u8>) -> Seq<u16>
    decreases b.len(),
{
    if b.len() < 2 {
        Seq::empty()
    } else {
        seq![((b[0] as int) * 256 + (b[1] as int)) as u16] + be_units(b.skip(2))
    }
}

/// Each byte read as the same-valued code point.
pub open spec fn latin1_decoded(b: Seq<u8>) -> Seq<char> {
    Seq::new(b.len(), |i: int| b[i] as char)
}

/// What decoding a PDF text string yields: UTF-16BE after a byte-order
/// mark, Latin-1 otherwise.
pub open spec fn decoded_text(b: Seq<u8>) -> Seq<char> {
    if has_bom(b) {
        utf16_lossy_of(be_units(b.skip(2)))
    } else {
        latin1_decoded(b)
    }
}

/// Two more bytes at the end of an even run form one more unit at the end.
proof fn lemma_be_units_snoc(b: Seq<u8>, x: u8, y: u8)
    requires
        b.len() % 2 == 0,
    ensures
        be_units(b + seq![x, y]) =~= be_units(b) + seq![((x as int) * 256 + (y as int)) as u16],
    decreases b.len(),
{
    if b.len() == 0 {
        assert(b + seq![x, y] =~= seq![x, y]);
        assert(seq![x, y].skip(2) =~= Seq::<u8>::empty());
        assert(be_units(Seq::<u8>::empty()) =~= Seq::<u16>::empty());
        assert(be_units(seq![x, y]) =~= seq![((x as int) * 256 + (y as int)) as u16]);
        assert(be_units(b) =~= Seq::<u16>::empty());
    } else {
        assert((b + seq![x, y]).skip(2) =~= b.skip(2) + seq![x, y]);
        lemma_be_units_snoc(b.skip(2), x, y);
    }
}

/// Decode a PDF text string.
pub fn decode_pdf_string(bytes: &[u8]) -> (r: String)
    ensures
        r@ == decoded_text(bytes@),
{
    let n = bytes.len();
    if n >= 2 && bytes[0] == 0xfe && bytes[1] == 0xff {
        let mut units: Vec<u16> = Vec::new();
        let mut i: usize = 2;
        while i + 1 < n
            invariant
                n == bytes@.len(),
                n >= 2,
                2 <= i <= n,
                i % 2 == 0,
                units@ =~= be_units(bytes@.subrange(2, i as int)),
            decreases n - i,
        {
            let hi = bytes[i];
            let lo = bytes[i + 1];
            let unit: u16 = (hi as u16) * 256 + (lo as u16);
            units.push(unit);
            proof {
                assert(bytes@.subrange(2, i + 2 as int) =~= bytes@.subrange(2, i as int) + seq![
                    hi,
                    lo,
                ]);
                lemma_be_units_snoc(bytes@.subrange(2, i as int), hi, lo);
            }
            i = i + 2;
        }
        proof {
            let tail = bytes@.skip(2);
            let done = bytes@.subrange(2, i as int);
            if i < n {
                // One odd byte remains; it forms no unit.
                assert(tail =~= done + seq![bytes@[i as int]]);
                lemma_be_units_odd_tail(done, bytes@[i as int]);
            } else {
                assert(tail =~= done);
            }
        }
        utf16_lossy(&units)
    } else {
        let mut out = String::new();
        let mut i: usize = 0;
        while i < n
            invariant
                n == bytes@.len(),
                0 <= i <= n,
                out@ =~= latin1_decoded(bytes@.take(i as int)),
            decreases n - i,
        {
            let c: char = bytes[i] as char;
            push_char(&mut out, c);
            proof {
                assert(latin1_decoded(bytes@.take(i + 1 as int)) =~= latin1_decoded(
                    bytes@.take(i as int),
                ).push(c));
            }
            i = i + 1;
        }
        proof {
            assert(bytes@.take(n as int) =~= bytes@);
        }
        out
    }
}

/// What strict decoding of UTF-16 code units yields: the characters, or
/// nothing when a surrogate is unpaired.  The name stands for the exact
/// pairing rules; the decoding relies on the standard library for them.
pub uninterp spec fn utf16_strict_of(units: Seq<u16>) -> Option<Seq<char>>;

/// Relies on String::from_utf16: decodes UTF-16 code units, refusing
/// malformed input; the result is a function of the units alone.
#[verifier::external_body]
fn utf16_strict(units: &Vec<u16>) -> (r: Option<String>)
    ensures
        match r {
            Some(s) => utf16_strict_of(units@) == Some(s@),
            None => utf16_strict_of(units@) is None,
        },
{
    String::from_utf16(units.as_slice()).ok()
}

/// What strictly decoding a PDF text string yields: strict UTF-16BE after
/// a byte-order mark (nothing on malformed units), Latin-1 otherwise.
pub open spec fn decoded_text_strict(b: Seq<u8>) -> Option<Seq<char>> {
    if has_bom(b) {
        utf16_strict_of(be_units(b.skip(2)))
    } else {
        Some(latin1_decoded(b))
    }
}

/// Decode a PDF text string, refusing malformed UTF-16.
pub fn decode_pdf_string_strict(bytes: &[u8]) -> (r: Option<String>)
    ensures
        match r {
            Some(s) => decoded_text_strict(bytes@) == Some(s@),
            None => decoded_text_strict(bytes@) is None,
        },
{
    let n = bytes.len();
    if n >= 2 && bytes[0] == 0xfe && bytes[1] == 0xff {
        let mut units: Vec<u16> = Vec::new();
        let mut i: usize = 2;
        while i + 1 < n
            invariant
                n == bytes@.len(),
                n >= 2,
                2 <= i <= n,
                i % 2 == 0,
                units@ =~= be_units(bytes@.subrange(2, i as int)),
            decreases n - i,
        {
            let hi = bytes[i];
            let lo = bytes[i + 1];
            let unit: u16 = (hi as u16) * 256 + (lo as u16);
            units.push(unit);
            proof {
                assert(bytes@.subrange(2, i + 2 as int) =~= bytes@.subrange(2, i as int) + seq![
                    hi,
                    lo,
                ]);
                lemma_be_units_snoc(bytes@.subrange(2, i as int), hi, lo);
            }
            i = i + 2;
        }
        proof {
            let tail = bytes@.skip(2);
            let done = bytes@.subrange(2, i as int);
            if i < n {
                assert(tail =~= done + seq![bytes@[i as int]]);
                lemma_be_units_odd_tail(done, bytes@[i as int]);
            } else {
                assert(tail =~= done);
            }
        }
        utf16_strict(&units)
    } else {
        Some(decode_pdf_string(bytes))
    }
}

/// A single byte after an even run forms no unit.
proof fn lemma_be_units_odd_tail(b: Seq<u8>, x: u8)
    requires
        b.len() % 2 == 0,
    ensures
        be_units(b + seq![x]) =~= be_units(b),
    decreases b.len(),
{
    if b.len() == 0 {
        assert((b + seq![x]).len() == 1);
    } else {
        assert((b + seq![x]).skip(2) =~= b.skip(2) + seq![x]);
        lemma_be_units_odd_tail(b.skip(2), x);
    }
}

} // verus!
