//! The byte layout shared by requests and stored records: a two-byte
//! little-endian id, then two texts, each a four-byte little-endian length
//! followed by that many UTF-8 bytes.

use vstd::bytes::{
    lemma_auto_spec_u16_to_from_le_bytes, lemma_auto_spec_u32_to_from_le_bytes,
    spec_u16_from_le_bytes, spec_u16_to_le_bytes, spec_u32_from_le_bytes, spec_u32_to_le_bytes,
    u16_from_le_bytes, u16_to_le_bytes, u32_from_le_bytes, u32_to_le_bytes,
};
use vstd::prelude::*;
use vstd::string::StringSliceAdditionalSpecFns;
use vstd::utf8::{
    decode_utf8, decode_utf8_encode_utf8, encode_utf8, encode_utf8_decode_utf8,
    encode_utf8_valid_utf8, valid_utf8,
};

verus! {

/// A text whose UTF-8 encoding has a length that a four-byte prefix can hold.
pub open spec fn text_fits(t: Seq<char>) -> bool {
    encode_utf8(t).len() <= u32::MAX
}

/// The bytes of one text: its UTF-8 length as four little-endian bytes, then its UTF-8 bytes.
pub open spec fn text_bytes(t: Seq<char>) -> Seq<u8> {
    spec_u32_to_le_bytes(encode_utf8(t).len() as u32) + encode_utf8(t)
}

/// The bytes of the fields id, title and body, in that order.
pub open spec fn fields_bytes(id: u16, title: Seq<char>, body: Seq<char>) -> Seq<u8> {
    spec_u16_to_le_bytes(id) + text_bytes(title) + text_bytes(body)
}

/// Reads one text that starts at `pos`: the text and the position just after it,
/// or `None` where the bytes end early or are not UTF-8.
pub open spec fn parse_text(b: Seq<u8>, pos: int) -> Option<(Seq<char>, int)> {
    if 0 <= pos && pos + 4 <= b.len() {
        let end = pos + 4 + spec_u32_from_le_bytes(b.subrange(pos, pos + 4)) as int;
        if end <= b.len() && valid_utf8(b.subrange(pos + 4, end)) {
            Some((decode_utf8(b.subrange(pos + 4, end)), end))
        } else {
            None
        }
    } else {
        None
    }
}

/// Reads id, title and body starting at `pos`: the fields and the position
/// just after them. Bytes after that position are not looked at.
pub open spec fn parse_fields(b: Seq<u8>, pos: int) -> Option<((u16, Seq<char>, Seq<char>), int)> {
    if 0 <= pos && pos + 2 <= b.len() {
        let id = spec_u16_from_le_bytes(b.subrange(pos, pos + 2));
        match parse_text(b, pos + 2) {
            Some((title, p)) => match parse_text(b, p) {
                Some((body, end)) => Some(((id, title, body), end)),
                None => None,
            },
            None => None,
        }
    } else {
        None
    }
}

/// Relies on `std::str::from_utf8`: it accepts exactly the well-formed UTF-8
/// byte strings, and the text it returns is the one those bytes encode.
#[verifier::external_body]
fn utf8_text(b: &[u8]) -> (r: Option<String>)
    ensures
        r is Some <==> valid_utf8(b@),
        r matches Some(s) ==> s@ == decode_utf8(b@),
{
    match std::str::from_utf8(b) {
        Ok(s) => Some(s.to_owned()),
        Err(_) => None,
    }
}

/// Reads one text that starts at `pos`.
pub fn read_text(b: &[u8], pos: usize) -> (r: Option<(String, usize)>)
    ensures
        match r {
            Some((t, end)) => parse_text(b@, pos as int) == Some((t@, end as int)),
            None => parse_text(b@, pos as int) is None,
        },
{
    if pos > b.len() || b.len() - pos < 4 {
        return None;
    }
    let n = u32_from_le_bytes(&b[pos..pos + 4]) as usize;
    let start = pos + 4;
    if n > b.len() - start {
        return None;
    }
    let end = start + n;
    match utf8_text(&b[start..end]) {
        Some(t) => Some((t, end)),
        None => None,
    }
}

/// Reads id, title and body starting at `pos`.
pub fn read_fields(b: &[u8], pos: usize) -> (r: Option<(u16, String, String, usize)>)
    ensures
        match r {
            Some((id, title, body, end)) => parse_fields(b@, pos as int) == Some(
                ((id, title@, body@), end as int),
            ),
            None => parse_fields(b@, pos as int) is None,
        },
{
    if pos > b.len() || b.len() - pos < 2 {
        return None;
    }
    let id = u16_from_le_bytes(&b[pos..pos + 2]);
    let (title, p) = match read_text(b, pos + 2) {
        Some(x) => x,
        None => return None,
    };
    let (body, end) = match read_text(b, p) {
        Some(x) => x,
        None => return None,
    };
    Some((id, title, body, end))
}

/// Appends the bytes of one text.
pub fn write_text(out: &mut Vec<u8>, t: &str)
    requires
        text_fits(t@),
    ensures
        final(out)@ == old(out)@ + text_bytes(t@),
{
    let bytes = t.as_bytes();
    let len = u32_to_le_bytes(bytes.len() as u32);
    out.extend_from_slice(len.as_slice());
    out.extend_from_slice(bytes);
    assert(out@ =~= old(out)@ + text_bytes(t@));
}

/// Appends the bytes of id, title and body.
pub fn write_fields(out: &mut Vec<u8>, id: u16, title: &str, body: &str)
    requires
        text_fits(title@),
        text_fits(body@),
    ensures
        final(out)@ == old(out)@ + fields_bytes(id, title@, body@),
{
    let idb = u16_to_le_bytes(id);
    out.extend_from_slice(idb.as_slice());
    write_text(out, title);
    write_text(out, body);
    assert(out@ =~= old(out)@ + fields_bytes(id, title@, body@));
}

/// A text written at `pos` reads back as the same text, and reading stops
/// right after its bytes, whatever follows them.
pub proof fn lemma_text_round_trip(t: Seq<char>, before: Seq<u8>, after: Seq<u8>)
    requires
        text_fits(t),
    ensures
        parse_text(before + text_bytes(t) + after, before.len() as int) == Some(
            (t, (before.len() + text_bytes(t).len()) as int),
        ),
{
    lemma_auto_spec_u32_to_from_le_bytes();
    encode_utf8_valid_utf8(t);
    encode_utf8_decode_utf8(t);
    let b = before + text_bytes(t) + after;
    let pos = before.len() as int;
    let n = encode_utf8(t).len() as u32;
    assert(b.subrange(pos, pos + 4) =~= spec_u32_to_le_bytes(n));
    assert(b.subrange(pos + 4, pos + 4 + n) =~= encode_utf8(t));
}

/// A text that reads successfully from `pos` to `end` occupies exactly the
/// bytes that writing it produces.
pub proof fn lemma_text_exact(b: Seq<u8>, pos: int)
    requires
        parse_text(b, pos) is Some,
    ensures
        ({
            let (t, end) = parse_text(b, pos).unwrap();
            text_fits(t) && b.subrange(pos, end) == text_bytes(t)
        }),
{
    lemma_auto_spec_u32_to_from_le_bytes();
    let (t, end) = parse_text(b, pos).unwrap();
    let raw = b.subrange(pos + 4, end);
    decode_utf8_encode_utf8(raw);
    assert(encode_utf8(t) == raw);
    let prefix = b.subrange(pos, pos + 4);
    assert(spec_u32_to_le_bytes(spec_u32_from_le_bytes(prefix)) == prefix);
    assert(b.subrange(pos, end) =~= prefix + raw);
}

/// Fields written at `pos` read back as the same fields, and reading stops
/// right after their bytes, whatever follows them.
pub proof fn lemma_fields_round_trip(
    id: u16,
    title: Seq<char>,
    body: Seq<char>,
    before: Seq<u8>,
    after: Seq<u8>,
)
    requires
        text_fits(title),
        text_fits(body),
    ensures
        parse_fields(before + fields_bytes(id, title, body) + after, before.len() as int) == Some(
            ((id, title, body), (before.len() + fields_bytes(id, title, body).len()) as int),
        ),
{
    lemma_auto_spec_u16_to_from_le_bytes();
    let b = before + fields_bytes(id, title, body) + after;
    let pos = before.len() as int;
    assert(b.subrange(pos, pos + 2) =~= spec_u16_to_le_bytes(id));
    let before1 = before + spec_u16_to_le_bytes(id);
    lemma_text_round_trip(title, before1, text_bytes(body) + after);
    assert(b =~= before1 + text_bytes(title) + (text_bytes(body) + after));
    let before2 = before1 + text_bytes(title);
    lemma_text_round_trip(body, before2, after);
    assert(b =~= before2 + text_bytes(body) + after);
}

/// Fields that read successfully from `pos` to `end` occupy exactly the bytes
/// that writing them produces.
pub proof fn lemma_fields_exact(b: Seq<u8>, pos: int)
    requires
        parse_fields(b, pos) is Some,
    ensures
        ({
            let ((id, title, body), end) = parse_fields(b, pos).unwrap();
            text_fits(title) && text_fits(body) && b.subrange(pos, end) == fields_bytes(
                id,
                title,
                body,
            )
        }),
{
    lemma_auto_spec_u16_to_from_le_bytes();
    let ((id, title, body), end) = parse_fields(b, pos).unwrap();
    let (_, p) = parse_text(b, pos + 2).unwrap();
    lemma_text_exact(b, pos + 2);
    lemma_text_exact(b, p);
    let idb = b.subrange(pos, pos + 2);
    assert(spec_u16_to_le_bytes(spec_u16_from_le_bytes(idb)) == idb);
    assert(b.subrange(pos, end) =~= idb + b.subrange(pos + 2, p) + b.subrange(p, end));
}

} // verus!
