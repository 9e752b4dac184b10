use note_program::address::{locate, Address};
use note_program::codec::{read_fields, read_text, write_fields, write_text};
use note_program::error::NoteError;
use note_program::instruction::NoteInstruction;
use note_program::processor::{
    add_note, delete_note, process_instruction, update_note, StorageAccount,
};
use note_program::state::NoteAccountState;
use solana_program::pubkey::Pubkey;

const PROGRAM: [u8; 32] = [7u8; 32];
const SUBMITTER: [u8; 32] = [1u8; 32];
const ALLOCATOR: [u8; 32] = [0u8; 32];

fn rent(n: usize) -> u64 {
    10 * n as u64
}

fn request(opcode: u8, id: u16, title: &str, body: &str) -> Vec<u8> {
    let mut v = vec![opcode];
    v.extend_from_slice(&id.to_le_bytes());
    v.extend_from_slice(&(title.len() as u32).to_le_bytes());
    v.extend_from_slice(title.as_bytes());
    v.extend_from_slice(&(body.len() as u32).to_le_bytes());
    v.extend_from_slice(body.as_bytes());
    v
}

fn program() -> Address {
    Address { bytes: PROGRAM }
}

fn pda(id: u16) -> Address {
    locate(&Address { bytes: SUBMITTER }, id, &program()).unwrap().0
}

fn accounts_for(id: u16, payer_lamports: u64) -> Vec<StorageAccount> {
    let system = Address { bytes: ALLOCATOR };
    vec![
        StorageAccount {
            key: Address { bytes: SUBMITTER },
            owner: system,
            lamports: payer_lamports,
            data: vec![],
        },
        StorageAccount { key: pda(id), owner: system, lamports: 0, data: vec![] },
        StorageAccount { key: system, owner: system, lamports: 1, data: vec![] },
    ]
}

fn read(a: &StorageAccount) -> Result<NoteAccountState, NoteError> {
    NoteAccountState::decode_prefix(a.data.as_slice())
}

#[test]
fn unpack_add() {
    let r = NoteInstruction::unpack(&request(0, 7, "Hi", "Bye")).unwrap();
    assert_eq!(
        r,
        NoteInstruction::AddNote { id: 7, title: "Hi".to_string(), body: "Bye".to_string() }
    );
}

#[test]
fn unpack_update() {
    let r = NoteInstruction::unpack(&request(1, 513, "t", "")).unwrap();
    assert_eq!(
        r,
        NoteInstruction::UpdateNote { id: 513, title: "t".to_string(), body: String::new() }
    );
}

#[test]
fn unpack_delete_ignores_texts() {
    let r = NoteInstruction::unpack(&request(2, 9, "gone", "too")).unwrap();
    assert_eq!(r, NoteInstruction::DeleteNote { id: 9 });
}

#[test]
fn unpack_empty_is_invalid_operation() {
    assert_eq!(NoteInstruction::unpack(&[]), Err(NoteError::InvalidOperation));
}

#[test]
fn unpack_unknown_opcode_is_invalid_operation() {
    assert_eq!(NoteInstruction::unpack(&request(3, 1, "a", "b")), Err(NoteError::InvalidOperation));
    assert_eq!(NoteInstruction::unpack(&[255, 1]), Err(NoteError::InvalidOperation));
    assert_eq!(NoteInstruction::unpack(&[3]), Err(NoteError::InvalidOperation));
}

#[test]
fn unpack_short_payload_is_malformed() {
    let full = request(0, 7, "Hi", "Bye");
    for cut in 1..full.len() {
        assert_eq!(NoteInstruction::unpack(&full[..cut]), Err(NoteError::MalformedPayload));
    }
}

#[test]
fn unpack_trailing_bytes_are_malformed() {
    let mut v = request(1, 7, "Hi", "Bye");
    v.push(0);
    assert_eq!(NoteInstruction::unpack(&v), Err(NoteError::MalformedPayload));
}

#[test]
fn unpack_invalid_utf8_is_malformed() {
    let mut v = vec![0u8, 1, 0, 1, 0, 0, 0, 0xff];
    v.extend_from_slice(&0u32.to_le_bytes());
    assert_eq!(NoteInstruction::unpack(&v), Err(NoteError::MalformedPayload));
}

#[test]
fn unpack_multibyte_text() {
    let r = NoteInstruction::unpack(&request(0, 1, "café", "ü")).unwrap();
    assert_eq!(
        r,
        NoteInstruction::AddNote { id: 1, title: "café".to_string(), body: "ü".to_string() }
    );
}

#[test]
fn read_text_decodes_utf8() {
    let mut v = vec![9u8];
    write_text(&mut v, "né");
    assert_eq!(v, vec![9, 3, 0, 0, 0, b'n', 0xc3, 0xa9]);
    assert_eq!(read_text(&v, 1), Some(("né".to_string(), 8)));
    assert_eq!(read_text(&v, 2), None);
}

#[test]
fn fields_reencode_to_payload() {
    for opcode in 0u8..3 {
        let input = request(opcode, 300, "title", "a body");
        NoteInstruction::unpack(&input).unwrap();
        let (id, title, body, end) = read_fields(&input, 1).unwrap();
        assert_eq!(end, input.len());
        let mut out = vec![opcode];
        write_fields(&mut out, id, &title, &body);
        assert_eq!(out, input);
    }
}

#[test]
fn fields_match_borsh() {
    let mut out = Vec::new();
    write_fields(&mut out, 7, "Hi", "Bye");
    let expected = borsh::to_vec(&(7u16, "Hi".to_string(), "Bye".to_string())).unwrap();
    assert_eq!(out, expected);
}

#[test]
fn record_layout_example() {
    let s = NoteAccountState {
        is_initialized: true,
        id: 7,
        title: "Hi".to_string(),
        body: "Bye".to_string(),
    };
    let bytes = s.encode();
    assert_eq!(bytes, vec![1, 7, 0, 2, 0, 0, 0, b'H', b'i', 3, 0, 0, 0, b'B', b'y', b'e']);
    let expected =
        borsh::to_vec(&(true, 7u16, "Hi".to_string(), "Bye".to_string())).unwrap();
    assert_eq!(bytes, expected);
}

#[test]
fn decode_prefix_ignores_trailing_bytes() {
    let s = NoteAccountState { is_initialized: false, id: 3, title: "x".to_string(), body: "y".to_string() };
    let mut bytes = s.encode();
    bytes.extend_from_slice(&[5, 5, 5]);
    assert_eq!(NoteAccountState::decode_prefix(&bytes), Ok(s));
}

#[test]
fn decode_prefix_rejects_bad_flag_and_empty() {
    assert_eq!(NoteAccountState::decode_prefix(&[]), Err(NoteError::CorruptAccount));
    let mut bytes =
        NoteAccountState { is_initialized: true, id: 3, title: String::new(), body: String::new() }
            .encode();
    bytes[0] = 2;
    assert_eq!(NoteAccountState::decode_prefix(&bytes), Err(NoteError::CorruptAccount));
}

#[test]
fn locate_is_deterministic() {
    let owner = Address { bytes: SUBMITTER };
    let a = locate(&owner, 7, &program()).unwrap();
    let b = locate(&owner, 7, &program()).unwrap();
    assert_eq!(a, b);
    assert_ne!(a.0, owner);
    assert_ne!(a.0, program());
    assert_ne!(locate(&owner, 8, &program()).unwrap().0, a.0);
}

#[test]
fn locate_agrees_with_find_program_address() {
    let (key, bump) = Pubkey::find_program_address(
        &[&SUBMITTER, &7u16.to_le_bytes()],
        &Pubkey::new_from_array(PROGRAM),
    );
    let (a, b) = locate(&Address { bytes: SUBMITTER }, 7, &program()).unwrap();
    assert_eq!(a.bytes, key.to_bytes());
    assert_eq!(b, bump);
}

#[test]
fn add_example_layout() {
    let mut accts = accounts_for(7, 1_000);
    let r = process_instruction(&program(), &mut accts, &request(0, 7, "Hi", "Bye"), &rent);
    assert_eq!(r, Ok(()));
    assert_eq!(accts[1].key, pda(7));
    assert_eq!(
        accts[1].data,
        vec![1, 7, 0, 2, 0, 0, 0, b'H', b'i', 3, 0, 0, 0, b'B', b'y', b'e']
    );
    assert_eq!(accts[1].lamports, 160);
    assert_eq!(accts[1].owner, program());
    assert_eq!(accts[0].lamports, 840);
}

#[test]
fn add_then_read() {
    let mut accts = accounts_for(42, 10_000);
    let r = add_note(&program(), &mut accts, 42, "title".to_string(), "body text".to_string(), &rent);
    assert_eq!(r, Ok(()));
    let note = read(&accts[1]).unwrap();
    assert_eq!(
        note,
        NoteAccountState {
            is_initialized: true,
            id: 42,
            title: "title".to_string(),
            body: "body text".to_string()
        }
    );
    assert_eq!(accts[1].data.len(), 1 + 2 + 4 + 5 + 4 + 9);
}

#[test]
fn add_twice_fails() {
    let mut accts = accounts_for(7, 10_000);
    assert_eq!(process_instruction(&program(), &mut accts, &request(0, 7, "first", "one"), &rent), Ok(()));
    let before = accts.clone();
    let r = process_instruction(&program(), &mut accts, &request(0, 7, "second", "two"), &rent);
    assert_eq!(r, Err(NoteError::AccountCreationFailed));
    assert_eq!(accts, before);
    assert_eq!(read(&accts[1]).unwrap().title, "first");
}

#[test]
fn add_without_funds_fails() {
    let mut accts = accounts_for(7, 159);
    let before = accts.clone();
    let r = process_instruction(&program(), &mut accts, &request(0, 7, "Hi", "Bye"), &rent);
    assert_eq!(r, Err(NoteError::AccountCreationFailed));
    assert_eq!(accts, before);
}

#[test]
fn add_to_wrong_address_fails() {
    let mut accts = accounts_for(8, 10_000);
    let before = accts.clone();
    let r = process_instruction(&program(), &mut accts, &request(0, 7, "Hi", "Bye"), &rent);
    assert_eq!(r, Err(NoteError::AddressMismatch));
    assert_eq!(accts, before);
}

#[test]
fn too_few_accounts_fails() {
    let mut accts = accounts_for(7, 10_000);
    accts.pop();
    for opcode in 0u8..3 {
        let r = process_instruction(&program(), &mut accts, &request(opcode, 7, "Hi", "Bye"), &rent);
        assert_eq!(r, Err(NoteError::NotEnoughAccounts));
    }
}

#[test]
fn bad_request_leaves_accounts() {
    let mut accts = accounts_for(7, 10_000);
    let before = accts.clone();
    assert_eq!(process_instruction(&program(), &mut accts, &[], &rent), Err(NoteError::InvalidOperation));
    assert_eq!(process_instruction(&program(), &mut accts, &[0, 7], &rent), Err(NoteError::MalformedPayload));
    assert_eq!(accts, before);
}

#[test]
fn update_shorter_keeps_length() {
    let mut accts = accounts_for(7, 10_000);
    assert_eq!(process_instruction(&program(), &mut accts, &request(0, 7, "Hello", "World"), &rent), Ok(()));
    let old = accts[1].data.clone();
    let r = process_instruction(&program(), &mut accts, &request(1, 8, "Hi", "Yo"), &rent);
    assert_eq!(r, Ok(()));
    let mut expected =
        NoteAccountState { is_initialized: true, id: 8, title: "Hi".to_string(), body: "Yo".to_string() }
            .encode();
    let n = expected.len();
    expected.extend_from_slice(&old[n..]);
    assert_eq!(accts[1].data, expected);
    assert_eq!(accts[1].data.len(), old.len());
    let note = read(&accts[1]).unwrap();
    assert_eq!((note.id, note.title.as_str(), note.body.as_str()), (8, "Hi", "Yo"));
}

#[test]
fn update_same_size() {
    let mut accts = accounts_for(7, 10_000);
    assert_eq!(process_instruction(&program(), &mut accts, &request(0, 7, "ab", "cd"), &rent), Ok(()));
    assert_eq!(update_note(&mut accts, 7, "xy".to_string(), "zw".to_string()), Ok(()));
    assert_eq!(accts[1].data, vec![1, 7, 0, 2, 0, 0, 0, b'x', b'y', 2, 0, 0, 0, b'z', b'w']);
}

#[test]
fn update_larger_fails() {
    let mut accts = accounts_for(7, 10_000);
    assert_eq!(process_instruction(&program(), &mut accts, &request(0, 7, "Hi", "Bye"), &rent), Ok(()));
    let before = accts.clone();
    let r = process_instruction(&program(), &mut accts, &request(1, 7, "Hi", "Byes"), &rent);
    assert_eq!(r, Err(NoteError::BufferTooSmall));
    assert_eq!(accts, before);
}

#[test]
fn update_unrecorded_account_fails() {
    let mut accts = accounts_for(7, 10_000);
    let before = accts.clone();
    let r = update_note(&mut accts, 7, "a".to_string(), "b".to_string());
    assert_eq!(r, Err(NoteError::CorruptAccount));
    assert_eq!(accts, before);
}

#[test]
fn delete_then_read_fails() {
    let mut accts = accounts_for(7, 1_000);
    assert_eq!(process_instruction(&program(), &mut accts, &request(0, 7, "Hi", "Bye"), &rent), Ok(()));
    let payer_before = accts[0].lamports;
    let held = accts[1].lamports;
    assert_eq!(process_instruction(&program(), &mut accts, &request(2, 7, "", ""), &rent), Ok(()));
    assert_eq!(read(&accts[1]), Err(NoteError::CorruptAccount));
    assert_eq!(accts[0].lamports, payer_before + held);
    assert_eq!(accts[0].lamports, 1_000);
    assert_eq!(accts[1].lamports, 0);
    assert!(accts[1].data.is_empty());
    assert_eq!(accts[1].owner, Address { bytes: ALLOCATOR });
}

#[test]
fn delete_then_add_again() {
    let mut accts = accounts_for(7, 1_000);
    assert_eq!(process_instruction(&program(), &mut accts, &request(0, 7, "Hi", "Bye"), &rent), Ok(()));
    assert_eq!(delete_note(&mut accts, 7), Ok(()));
    assert_eq!(process_instruction(&program(), &mut accts, &request(0, 7, "Again", ""), &rent), Ok(()));
    assert_eq!(read(&accts[1]).unwrap().title, "Again");
}

#[test]
fn delete_balance_overflow_fails() {
    let mut accts = accounts_for(7, u64::MAX);
    accts[1].lamports = 1;
    let before = accts.clone();
    assert_eq!(delete_note(&mut accts, 7), Err(NoteError::BalanceOverflow));
    assert_eq!(accts, before);
}
