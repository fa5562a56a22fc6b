//! Byte strings: the ASCII trimming, splitting and comparing that the on-disc
//! text formats need.
use vstd::prelude::*;
use vstd::utf8::{decode_utf8, valid_utf8};
use crate::seqs::{
    first_index, first_index_unique, has_prefix, pieces, pieces_step, skip_back_run,
    skip_front_run, trim_where,
};

verus! {

/// The text `String::from_utf8_lossy` reads out of `bytes`.
pub uninterp spec fn lossy_text(bytes: Seq<u8>) -> Seq<char>;

/// `String::from_utf8_lossy`: the text of the bytes, which for valid UTF-8 is
/// their decoding. Where replacement characters go in other bytes is left
/// unsaid.
#[verifier::external_body]
pub(crate) fn text_from_utf8_lossy(bytes: &[u8]) -> (r: String)
    ensures
        r@ == lossy_text(bytes@),
        valid_utf8(bytes@) ==> r@ == decode_utf8(bytes@),
{
    String::from_utf8_lossy(bytes).into_owned()
}

/// The ASCII white space: space, tab, line feed, form feed, carriage return.
pub open spec fn is_ascii_space(b: u8) -> bool {
    b == 0x20 || b == 0x09 || b == 0x0a || b == 0x0c || b == 0x0d
}

/// The test for ASCII white space.
pub open spec fn ascii_space() -> spec_fn(u8) -> bool {
    |b: u8| is_ascii_space(b)
}

/// The test for the one byte `b`.
pub open spec fn is_byte(b: u8) -> spec_fn(u8) -> bool {
    |x: u8| x == b
}

/// `b` with an ASCII capital letter replaced by its small letter.
pub open spec fn lower_byte(b: u8) -> u8 {
    if 0x41 <= b <= 0x5a {
        (b + 0x20) as u8
    } else {
        b
    }
}

/// `s` with every ASCII capital letter replaced by its small letter.
pub open spec fn lower_bytes(s: Seq<u8>) -> Seq<u8> {
    s.map_values(|b: u8| lower_byte(b))
}

/// `bytes` without leading and trailing ASCII white space.
pub fn trim_ascii(bytes: &[u8]) -> (r: &[u8])
    ensures
        r@ == trim_where(bytes@, ascii_space()),
        r@.len() <= bytes@.len(),
{
    let mut from: usize = 0;
    while from < bytes.len() && ascii_whitespace(bytes[from])
        invariant
            from <= bytes@.len(),
            forall|i: int| 0 <= i < from ==> ascii_space()(#[trigger] bytes@[i]),
        decreases bytes.len() - from,
    {
        from = from + 1;
    }
    let mut to: usize = bytes.len();
    while to > from && ascii_whitespace(bytes[to - 1])
        invariant
            from <= to <= bytes@.len(),
            forall|i: int| to <= i < bytes@.len() ==> ascii_space()(#[trigger] bytes@[i]),
        decreases to,
    {
        to = to - 1;
    }
    proof {
        skip_front_run(bytes@, ascii_space(), from as int);
        let rest = bytes@.skip(from as int);
        assert forall|i: int| to - from <= i < rest.len() implies ascii_space()(
            #[trigger] rest[i],
        ) by {
            assert(rest[i] == bytes@[from + i]);
        }
        skip_back_run(rest, ascii_space(), to - from);
        assert(rest.take(to - from) =~= bytes@.subrange(from as int, to as int));
    }
    &bytes[from..to]
}

fn ascii_whitespace(b: u8) -> (r: bool)
    ensures
        r == is_ascii_space(b),
{
    b == 0x20 || b == 0x09 || b == 0x0a || b == 0x0c || b == 0x0d
}

/// The index of the first `b` in `bytes`, or the length.
pub fn find_byte(bytes: &[u8], b: u8) -> (r: usize)
    ensures
        r == first_index(bytes@, is_byte(b)),
        r <= bytes@.len(),
{
    let mut i: usize = 0;
    while i < bytes.len() && bytes[i] != b
        invariant
            i <= bytes@.len(),
            forall|j: int| 0 <= j < i ==> !is_byte(b)(#[trigger] bytes@[j]),
        decreases bytes.len() - i,
    {
        i = i + 1;
    }
    proof {
        first_index_unique(bytes@, is_byte(b), i as int);
    }
    i
}

/// Whether `bytes` and `other` are equal up to the case of ASCII letters.
pub fn same_ignoring_case(bytes: &[u8], other: &[u8]) -> (r: bool)
    ensures
        r == (lower_bytes(bytes@) == lower_bytes(other@)),
{
    if bytes.len() != other.len() {
        assert(lower_bytes(bytes@).len() != lower_bytes(other@).len());
        return false;
    }
    let mut i: usize = 0;
    while i < bytes.len()
        invariant
            i <= bytes@.len(),
            bytes@.len() == other@.len(),
            forall|j: int| 0 <= j < i ==> lower_byte(bytes@[j]) == lower_byte(other@[j]),
        decreases bytes.len() - i,
    {
        if to_lower_byte(bytes[i]) != to_lower_byte(other[i]) {
            assert(lower_bytes(bytes@)[i as int] != lower_bytes(other@)[i as int]);
            return false;
        }
        i = i + 1;
    }
    assert(lower_bytes(bytes@) =~= lower_bytes(other@));
    true
}

fn to_lower_byte(b: u8) -> (r: u8)
    ensures
        r == lower_byte(b),
{
    if 0x41 <= b && b <= 0x5a {
        b + 0x20
    } else {
        b
    }
}

/// Whether the first bytes of `bytes` are `prefix`, up to the case of ASCII
/// letters.
pub fn starts_with_ignoring_case(bytes: &[u8], prefix: &[u8]) -> (r: bool)
    ensures
        r == has_prefix(lower_bytes(bytes@), lower_bytes(prefix@)),
{
    if bytes.len() < prefix.len() {
        return false;
    }
    let head = &bytes[0..prefix.len()];
    assert(lower_bytes(bytes@).subrange(0, prefix@.len() as int) =~= lower_bytes(head@));
    same_ignoring_case(head, prefix)
}

/// Whether the first bytes of `bytes` are `prefix`.
pub fn starts_with_bytes(bytes: &[u8], prefix: &[u8]) -> (r: bool)
    ensures
        r == has_prefix(bytes@, prefix@),
{
    if bytes.len() < prefix.len() {
        return false;
    }
    let mut i: usize = 0;
    while i < prefix.len()
        invariant
            i <= prefix@.len() <= bytes@.len(),
            forall|j: int| 0 <= j < i ==> bytes@[j] == prefix@[j],
        decreases prefix.len() - i,
    {
        if bytes[i] != prefix[i] {
            assert(bytes@.subrange(0, prefix@.len() as int)[i as int] != prefix@[i as int]);
            return false;
        }
        i = i + 1;
    }
    assert(bytes@.subrange(0, prefix@.len() as int) =~= prefix@);
    true
}

/// The contents of a sequence of slices.
pub open spec fn slices(s: Seq<&[u8]>) -> Seq<Seq<u8>> {
    s.map_values(|b: &[u8]| b@)
}

/// The pieces of `bytes` between occurrences of `sep`.
pub fn split_byte<'a>(bytes: &'a [u8], sep: u8) -> (r: Vec<&'a [u8]>)
    ensures
        slices(r@) == pieces(bytes@, is_byte(sep)),
{
    let mut out: Vec<&'a [u8]> = Vec::new();
    let mut start: usize = 0;
    let mut i: usize = 0;
    assert(bytes@.skip(0) =~= bytes@);
    assert(slices(out@) + pieces(bytes@, is_byte(sep)) =~= pieces(bytes@, is_byte(sep)));
    while i < bytes.len()
        invariant
            start <= i <= bytes@.len(),
            forall|j: int| start <= j < i ==> !is_byte(sep)(#[trigger] bytes@[j]),
            slices(out@) + pieces(bytes@.skip(start as int), is_byte(sep)) == pieces(
                bytes@,
                is_byte(sep),
            ),
        decreases bytes.len() - i,
    {
        if bytes[i] == sep {
            let piece = &bytes[start..i];
            proof {
                let rest = bytes@.skip(start as int);
                assert forall|j: int| 0 <= j < i - start implies !is_byte(sep)(
                    #[trigger] rest[j],
                ) by {
                    assert(rest[j] == bytes@[start + j]);
                }
                pieces_step(rest, is_byte(sep), i - start);
                assert(rest.take(i - start) =~= piece@);
                assert(rest.skip(i - start + 1) =~= bytes@.skip(i + 1));
                let tail = pieces(bytes@.skip(i + 1), is_byte(sep));
                assert(slices(out@.push(piece)) =~= slices(out@).push(piece@));
                assert(slices(out@) + (seq![piece@] + tail) =~= slices(out@).push(piece@) + tail);
            }
            out.push(piece);
            start = i + 1;
        }
        i = i + 1;
    }
    let last = &bytes[start..bytes.len()];
    proof {
        let rest = bytes@.skip(start as int);
        assert forall|j: int| 0 <= j < rest.len() implies !is_byte(sep)(#[trigger] rest[j]) by {
            assert(rest[j] == bytes@[start + j]);
        }
        pieces_step(rest, is_byte(sep), rest.len() as int);
        assert(rest =~= last@);
        assert(slices(out@.push(last)) =~= slices(out@) + seq![last@]);
    }
    out.push(last);
    out
}

} // verus!
