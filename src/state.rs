//! The stored note record and its byte layout: one byte for `is_initialized`
//! (0 or 1), then id, title and body as laid out in [`crate::codec`].

use crate::codec::{
    fields_bytes, lemma_fields_round_trip, parse_fields, read_fields, text_fits, write_fields,
};
use crate::error::NoteError;
use vstd::prelude::*;
use vstd::utf8::encode_utf8;

verus! {

/// A note as kept in its storage account.
#[derive(Clone, Debug, PartialEq, Eq)]
pub struct NoteAccountState {
    pub is_initialized: bool,
    pub id: u16,
    pub title: String,
    pub body: String,
}

/// The contents of a [`NoteAccountState`], with its texts as characters.
pub struct NoteRecord {
    pub is_initialized: bool,
    pub id: u16,
    pub title: Seq<char>,
    pub body: Seq<char>,
}

impl View for NoteAccountState {
    type V = NoteRecord;

    open spec fn view(&self) -> NoteRecord {
        NoteRecord {
            is_initialized: self.is_initialized,
            id: self.id,
            title: self.title@,
            body: self.body@,
        }
    }
}

/// A record whose texts can both be written with a four-byte length.
pub open spec fn record_fits(r: NoteRecord) -> bool {
    text_fits(r.title) && text_fits(r.body)
}

/// The number of bytes a record with these texts takes:
/// 1 + 2 + (4 + title bytes) + (4 + body bytes).
pub open spec fn record_len(title: Seq<char>, body: Seq<char>) -> nat {
    1 + 2 + (4 + encode_utf8(title).len()) + (4 + encode_utf8(body).len())
}

/// The bytes of a record.
pub open spec fn record_bytes(r: NoteRecord) -> Seq<u8> {
    seq![if r.is_initialized { 1u8 } else { 0u8 }] + fields_bytes(r.id, r.title, r.body)
}

/// The record that the start of `data` holds, if any; bytes after it are ignored.
pub open spec fn parse_record(data: Seq<u8>) -> Option<NoteRecord> {
    if data.len() >= 1 && data[0] <= 1 {
        match parse_fields(data, 1) {
            Some(((id, title, body), _)) => Some(
                NoteRecord { is_initialized: data[0] == 1, id, title, body },
            ),
            None => None,
        }
    } else {
        None
    }
}

impl NoteAccountState {
    /// The bytes of this record.
    pub fn encode(&self) -> (r: Vec<u8>)
        requires
            record_fits(self@),
        ensures
            r@ == record_bytes(self@),
            r@.len() == record_len(self.title@, self.body@),
    {
        let mut out: Vec<u8> = Vec::new();
        out.push(if self.is_initialized { 1u8 } else { 0u8 });
        write_fields(&mut out, self.id, self.title.as_str(), self.body.as_str());
        proof {
            vstd::bytes::lemma_auto_spec_u16_to_from_le_bytes();
            vstd::bytes::lemma_auto_spec_u32_to_from_le_bytes();
        }
        assert(out@ =~= record_bytes(self@));
        out
    }

    /// Reads the record at the start of `data`, ignoring any bytes after it.
    /// Fails with `CorruptAccount` where `data` holds no record.
    pub fn decode_prefix(data: &[u8]) -> (r: Result<NoteAccountState, NoteError>)
        ensures
            match r {
                Ok(s) => parse_record(data@) == Some(s@),
                Err(e) => e == NoteError::CorruptAccount && parse_record(data@) is None,
            },
    {
        if data.len() < 1 || data[0] > 1 {
            return Err(NoteError::CorruptAccount);
        }
        match read_fields(data, 1) {
            Some((id, title, body, _)) => Ok(
                NoteAccountState { is_initialized: data[0] == 1, id, title, body },
            ),
            None => Err(NoteError::CorruptAccount),
        }
    }
}

/// A record reads back from its own bytes, whatever bytes follow them.
pub proof fn lemma_record_round_trip(r: NoteRecord, after: Seq<u8>)
    requires
        record_fits(r),
    ensures
        parse_record(record_bytes(r) + after) == Some(r),
        record_bytes(r).len() == record_len(r.title, r.body),
{
    vstd::bytes::lemma_auto_spec_u16_to_from_le_bytes();
    vstd::bytes::lemma_auto_spec_u32_to_from_le_bytes();
    let flag = seq![if r.is_initialized { 1u8 } else { 0u8 }];
    lemma_fields_round_trip(r.id, r.title, r.body, flag, after);
    assert(record_bytes(r) + after =~= flag + fields_bytes(r.id, r.title, r.body) + after);
}

} // verus!
