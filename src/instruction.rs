//! Requests: one opcode byte (0 add, 1 update, 2 delete), then id, title and
//! body as laid out in [`crate::codec`], with nothing after them.

use crate::codec::{fields_bytes, lemma_fields_exact, lemma_fields_round_trip, parse_fields, read_fields, text_fits};
use crate::error::NoteError;
use vstd::prelude::*;

verus! {

/// A decoded request.
#[derive(Clone, Debug, PartialEq, Eq)]
pub enum NoteInstruction {
    AddNote { id: u16, title: String, body: String },
    UpdateNote { id: u16, title: String, body: String },
    DeleteNote { id: u16 },
}

/// The contents of a [`NoteInstruction`], with its texts as characters.
pub enum NoteRequest {
    AddNote { id: u16, title: Seq<char>, body: Seq<char> },
    UpdateNote { id: u16, title: Seq<char>, body: Seq<char> },
    DeleteNote { id: u16 },
}

impl View for NoteInstruction {
    type V = NoteRequest;

    open spec fn view(&self) -> NoteRequest {
        match self {
            NoteInstruction::AddNote { id, title, body } => NoteRequest::AddNote {
                id: *id,
                title: title@,
                body: body@,
            },
            NoteInstruction::UpdateNote { id, title, body } => NoteRequest::UpdateNote {
                id: *id,
                title: title@,
                body: body@,
            },
            NoteInstruction::DeleteNote { id } => NoteRequest::DeleteNote { id: *id },
        }
    }
}

/// What a request's bytes decode to. The opcode is checked before the payload,
/// and the payload must end exactly where the body ends.
pub open spec fn spec_unpack(input: Seq<u8>) -> Result<NoteRequest, NoteError> {
    if input.len() == 0 || input[0] > 2 {
        Err(NoteError::InvalidOperation)
    } else {
        match parse_fields(input, 1) {
            Some(((id, title, body), end)) => if end == input.len() {
                if input[0] == 0 {
                    Ok(NoteRequest::AddNote { id, title, body })
                } else if input[0] == 1 {
                    Ok(NoteRequest::UpdateNote { id, title, body })
                } else {
                    Ok(NoteRequest::DeleteNote { id })
                }
            } else {
                Err(NoteError::MalformedPayload)
            },
            None => Err(NoteError::MalformedPayload),
        }
    }
}

impl NoteInstruction {
    /// Decodes a request.
    pub fn unpack(input: &[u8]) -> (r: Result<NoteInstruction, NoteError>)
        ensures
            match r {
                Ok(ins) => spec_unpack(input@) == Result::<NoteRequest, NoteError>::Ok(ins@),
                Err(e) => spec_unpack(input@) == Result::<NoteRequest, NoteError>::Err(e),
            },
    {
        if input.len() == 0 {
            return Err(NoteError::InvalidOperation);
        }
        let variant = input[0];
        if variant > 2 {
            return Err(NoteError::InvalidOperation);
        }
        let (id, title, body, end) = match read_fields(input, 1) {
            Some(x) => x,
            None => return Err(NoteError::MalformedPayload),
        };
        if end != input.len() {
            return Err(NoteError::MalformedPayload);
        }
        if variant == 0 {
            Ok(NoteInstruction::AddNote { id, title, body })
        } else if variant == 1 {
            Ok(NoteInstruction::UpdateNote { id, title, body })
        } else {
            Ok(NoteInstruction::DeleteNote { id })
        }
    }
}

/// A request that decodes is its opcode followed by its id, title and body
/// written back: for every opcode the payload is reproduced exactly, and for
/// an add or an update the decoded request alone gives the whole input back.
pub proof fn lemma_unpack_reencode(input: Seq<u8>)
    requires
        spec_unpack(input) is Ok,
    ensures
        ({
            let ((id, title, body), _) = parse_fields(input, 1).unwrap();
            &&& text_fits(title) && text_fits(body)
            &&& input == seq![input[0]] + fields_bytes(id, title, body)
        }),
        match spec_unpack(input).unwrap() {
            NoteRequest::AddNote { id, title, body } => input == seq![0u8] + fields_bytes(
                id,
                title,
                body,
            ),
            NoteRequest::UpdateNote { id, title, body } => input == seq![1u8] + fields_bytes(
                id,
                title,
                body,
            ),
            NoteRequest::DeleteNote { id } => input[0] == 2 && parse_fields(input, 1).unwrap().0.0
                == id,
        },
{
    lemma_fields_exact(input, 1);
    let ((id, title, body), end) = parse_fields(input, 1).unwrap();
    assert(input =~= seq![input[0]] + input.subrange(1, end));
}

/// An opcode followed by well-formed fields decodes to the request with
/// exactly those fields.
pub proof fn lemma_pack_unpack(opcode: u8, id: u16, title: Seq<char>, body: Seq<char>)
    requires
        opcode <= 2,
        text_fits(title),
        text_fits(body),
    ensures
        spec_unpack(seq![opcode] + fields_bytes(id, title, body)) == if opcode == 0 {
            Result::<NoteRequest, NoteError>::Ok(NoteRequest::AddNote { id, title, body })
        } else if opcode == 1 {
            Result::<NoteRequest, NoteError>::Ok(NoteRequest::UpdateNote { id, title, body })
        } else {
            Result::<NoteRequest, NoteError>::Ok(NoteRequest::DeleteNote { id })
        },
{
    let input = seq![opcode] + fields_bytes(id, title, body);
    lemma_fields_round_trip(id, title, body, seq![opcode], Seq::empty());
    assert(input + Seq::<u8>::empty() =~= input);
}

/// An empty request, or one whose first byte is not an opcode, is refused as
/// an invalid operation whatever its payload.
pub proof fn lemma_unpack_invalid_operation(input: Seq<u8>)
    requires
        input.len() == 0 || input[0] > 2,
    ensures
        spec_unpack(input) == Result::<NoteRequest, NoteError>::Err(NoteError::InvalidOperation),
{
}

} // verus!
