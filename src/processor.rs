//! The operation executor. Accounts are handed over in a fixed order: the
//! submitter (payer), the note's storage account, and the system allocator
//! that owns unallocated storage. Every failing operation leaves the accounts
//! exactly as they were.

use crate::address::{located, locate, Address};
use crate::codec::text_fits;
use crate::error::NoteError;
use crate::instruction::{lemma_unpack_reencode, spec_unpack, NoteInstruction, NoteRequest};
use crate::state::{
    lemma_record_round_trip, parse_record, record_bytes, record_len, NoteAccountState, NoteRecord,
};
use vstd::prelude::*;

verus! {

/// One account as the executor sees it.
#[derive(Clone, Debug, PartialEq, Eq)]
pub struct StorageAccount {
    pub key: Address,
    pub owner: Address,
    pub lamports: u64,
    pub data: Vec<u8>,
}

/// The contents of a [`StorageAccount`].
pub struct Slot {
    pub key: Seq<u8>,
    pub owner: Seq<u8>,
    pub lamports: u64,
    pub data: Seq<u8>,
}

impl View for StorageAccount {
    type V = Slot;

    open spec fn view(&self) -> Slot {
        Slot { key: self.key@, owner: self.owner@, lamports: self.lamports, data: self.data@ }
    }
}

/// The contents of a list of accounts.
pub open spec fn slots(v: Seq<StorageAccount>) -> Seq<Slot> {
    v.map_values(|a: StorageAccount| a@)
}

/// What a call did, as the accounts it left on success or its error.
pub open spec fn outcome(r: Result<(), NoteError>, after: Seq<StorageAccount>) -> Result<
    Seq<Slot>,
    NoteError,
> {
    match r {
        Ok(_) => Ok(slots(after)),
        Err(e) => Err(e),
    }
}

/// An unallocated storage slot: no balance, no bytes, owned by the allocator.
pub open spec fn is_vacant(s: Slot, allocator: Seq<u8>) -> bool {
    s.lamports == 0 && s.data.len() == 0 && s.owner == allocator
}

/// Adding note `id` with a rent-exempt minimum of `fee`: the storage handle
/// must be the derived address and vacant, and the payer must hold `fee`;
/// then `fee` moves from the payer to the storage account, which becomes the
/// program's and holds exactly the new record.
pub open spec fn spec_add(
    program: Seq<u8>,
    s: Seq<Slot>,
    id: u16,
    title: Seq<char>,
    body: Seq<char>,
    fee: u64,
) -> Result<Seq<Slot>, NoteError> {
    if s.len() < 3 {
        Err(NoteError::NotEnoughAccounts)
    } else {
        match located(s[0].key, id, program) {
            None => Err(NoteError::NoViableAddress),
            Some((addr, _)) => if addr != s[1].key {
                Err(NoteError::AddressMismatch)
            } else if !is_vacant(s[1], s[2].key) || s[0].lamports < fee {
                Err(NoteError::AccountCreationFailed)
            } else {
                Ok(
                    s.update(0, Slot { lamports: (s[0].lamports - fee) as u64, ..s[0] }).update(
                        1,
                        Slot {
                            owner: program,
                            lamports: fee,
                            data: record_bytes(
                                NoteRecord { is_initialized: true, id, title, body },
                            ),
                            ..s[1]
                        },
                    ),
                )
            },
        }
    }
}

/// Updating the note held by the storage account: its id, title and body are
/// replaced and `is_initialized` is kept. The new record is written over the
/// start of the existing bytes, whose length does not change.
pub open spec fn spec_update(s: Seq<Slot>, id: u16, title: Seq<char>, body: Seq<char>) -> Result<
    Seq<Slot>,
    NoteError,
> {
    if s.len() < 3 {
        Err(NoteError::NotEnoughAccounts)
    } else {
        match parse_record(s[1].data) {
            None => Err(NoteError::CorruptAccount),
            Some(old) => {
                let enc = record_bytes(
                    NoteRecord { is_initialized: old.is_initialized, id, title, body },
                );
                if enc.len() > s[1].data.len() {
                    Err(NoteError::BufferTooSmall)
                } else {
                    Ok(
                        s.update(
                            1,
                            Slot {
                                data: enc + s[1].data.subrange(
                                    enc.len() as int,
                                    s[1].data.len() as int,
                                ),
                                ..s[1]
                            },
                        ),
                    )
                }
            },
        }
    }
}

/// Deleting the storage account: its whole balance goes to the payer, its
/// bytes are truncated to none and it is handed back to the allocator.
pub open spec fn spec_delete(s: Seq<Slot>) -> Result<Seq<Slot>, NoteError> {
    if s.len() < 3 {
        Err(NoteError::NotEnoughAccounts)
    } else if s[0].lamports + s[1].lamports > u64::MAX {
        Err(NoteError::BalanceOverflow)
    } else {
        Ok(
            s.update(0, Slot { lamports: (s[0].lamports + s[1].lamports) as u64, ..s[0] }).update(
                1,
                Slot { owner: s[2].key, lamports: 0, data: Seq::empty(), ..s[1] },
            ),
        )
    }
}

/// Adds note `id`, allocating its storage account. `rent` gives the minimum
/// balance that keeps an account of a given byte length stored.
pub fn add_note<F: Fn(usize) -> u64>(
    program_id: &Address,
    accounts: &mut Vec<StorageAccount>,
    id: u16,
    title: String,
    body: String,
    rent: &F,
) -> (r: Result<(), NoteError>)
    requires
        text_fits(title@),
        text_fits(body@),
        record_len(title@, body@) <= usize::MAX,
        forall|n: usize| call_requires(*rent, (n,)),
    ensures
        final(accounts)@.len() == old(accounts)@.len(),
        r is Err ==> final(accounts)@ == old(accounts)@,
        exists|fee: u64|
            call_ensures(*rent, (record_len(title@, body@) as usize,), fee) && spec_add(
                program_id@,
                slots(old(accounts)@),
                id,
                title@,
                body@,
                fee,
            ) == outcome(r, final(accounts)@),
{
    let account_size: usize = 1 + 2 + (4 + title.as_str().len()) + (4 + body.as_str().len());
    let fee = rent(account_size);
    assert(account_size == record_len(title@, body@) as usize);
    assert(call_ensures(*rent, (record_len(title@, body@) as usize,), fee));
    let ghost s = slots(accounts@);
    assert(s.len() == accounts@.len());
    if accounts.len() < 3 {
        assert(spec_add(program_id@, s, id, title@, body@, fee) == Result::<Seq<Slot>, NoteError>::Err(
            NoteError::NotEnoughAccounts,
        ));
        return Err(NoteError::NotEnoughAccounts);
    }
    assert(s[0] == accounts@[0]@ && s[1] == accounts@[1]@ && s[2] == accounts@[2]@);
    let (pda, _bump) = match locate(&accounts[0].key, id, program_id) {
        Some(x) => x,
        None => {
            assert(spec_add(program_id@, s, id, title@, body@, fee) == Result::<Seq<Slot>, NoteError>::Err(
                NoteError::NoViableAddress,
            ));
            return Err(NoteError::NoViableAddress);
        },
    };
    if !pda.same(&accounts[1].key) {
        return Err(NoteError::AddressMismatch);
    }
    let vacant = accounts[1].lamports == 0 && accounts[1].data.len() == 0
        && accounts[1].owner.same(&accounts[2].key);
    if !vacant || accounts[0].lamports < fee {
        return Err(NoteError::AccountCreationFailed);
    }
    let state = NoteAccountState { is_initialized: true, id, title, body };
    let data = state.encode();
    let payer_lamports = accounts[0].lamports - fee;
    let owner = *program_id;
    accounts[0].lamports = payer_lamports;
    accounts[1].lamports = fee;
    accounts[1].owner = owner;
    accounts[1].data = data;
    assert(slots(accounts@) =~= spec_add(program_id@, s, id, state.title@, state.body@, fee).unwrap());
    Ok(())
}

/// Rewrites the note held by the storage account in place.
pub fn update_note(
    accounts: &mut Vec<StorageAccount>,
    id: u16,
    title: String,
    body: String,
) -> (r: Result<(), NoteError>)
    requires
        text_fits(title@),
        text_fits(body@),
    ensures
        final(accounts)@.len() == old(accounts)@.len(),
        r is Err ==> final(accounts)@ == old(accounts)@,
        spec_update(slots(old(accounts)@), id, title@, body@) == outcome(r, final(accounts)@),
{
    let ghost s = slots(accounts@);
    assert(s.len() == accounts@.len());
    if accounts.len() < 3 {
        return Err(NoteError::NotEnoughAccounts);
    }
    assert(s[1] == accounts@[1]@);
    let existing = match NoteAccountState::decode_prefix(accounts[1].data.as_slice()) {
        Ok(x) => x,
        Err(e) => return Err(e),
    };
    let state = NoteAccountState { is_initialized: existing.is_initialized, id, title, body };
    let encoded = state.encode();
    let n = accounts[1].data.len();
    let k = encoded.len();
    if k > n {
        return Err(NoteError::BufferTooSmall);
    }
    let ghost enc = encoded@;
    let mut data = encoded;
    data.extend_from_slice(&accounts[1].data.as_slice()[k..n]);
    assert(data@ =~= enc + s[1].data.subrange(k as int, n as int));
    accounts[1].data = data;
    assert(accounts@[1]@ == (Slot { data: enc + s[1].data.subrange(k as int, n as int), ..s[1] }));
    assert(slots(accounts@) =~= spec_update(s, id, state.title@, state.body@).unwrap());
    Ok(())
}

/// Reclaims the storage account: its balance goes to the payer, its bytes
/// are dropped and the allocator owns it again. The id plays no part.
pub fn delete_note(accounts: &mut Vec<StorageAccount>, id: u16) -> (r: Result<(), NoteError>)
    ensures
        final(accounts)@.len() == old(accounts)@.len(),
        r is Err ==> final(accounts)@ == old(accounts)@,
        spec_delete(slots(old(accounts)@)) == outcome(r, final(accounts)@),
{
    let ghost s = slots(accounts@);
    assert(s.len() == accounts@.len());
    if accounts.len() < 3 {
        return Err(NoteError::NotEnoughAccounts);
    }
    assert(s[0] == accounts@[0]@ && s[1] == accounts@[1]@ && s[2] == accounts@[2]@);
    let amount = accounts[1].lamports;
    let total = match accounts[0].lamports.checked_add(amount) {
        Some(t) => t,
        None => return Err(NoteError::BalanceOverflow),
    };
    let allocator = accounts[2].key;
    accounts[0].lamports = total;
    accounts[1].lamports = 0;
    accounts[1].data = Vec::new();
    accounts[1].owner = allocator;
    assert(slots(accounts@) =~= spec_delete(s).unwrap());
    Ok(())
}

/// Decodes a request and carries it out on the accounts.
pub fn process_instruction<F: Fn(usize) -> u64>(
    program_id: &Address,
    accounts: &mut Vec<StorageAccount>,
    instruction_data: &[u8],
    rent: &F,
) -> (r: Result<(), NoteError>)
    requires
        forall|n: usize| call_requires(*rent, (n,)),
    ensures
        final(accounts)@.len() == old(accounts)@.len(),
        r is Err ==> final(accounts)@ == old(accounts)@,
        match spec_unpack(instruction_data@) {
            Err(e) => r == Result::<(), NoteError>::Err(e),
            Ok(NoteRequest::AddNote { id, title, body }) => exists|fee: u64|
                call_ensures(*rent, (record_len(title, body) as usize,), fee) && spec_add(
                    program_id@,
                    slots(old(accounts)@),
                    id,
                    title,
                    body,
                    fee,
                ) == outcome(r, final(accounts)@),
            Ok(NoteRequest::UpdateNote { id, title, body }) => spec_update(
                slots(old(accounts)@),
                id,
                title,
                body,
            ) == outcome(r, final(accounts)@),
            Ok(NoteRequest::DeleteNote { .. }) => spec_delete(slots(old(accounts)@)) == outcome(
                r,
                final(accounts)@,
            ),
        },
{
    // the request's length bounds the size of the record that an add allocates
    let _input_len = instruction_data.len();
    let instruction = match NoteInstruction::unpack(instruction_data) {
        Ok(ins) => ins,
        Err(e) => return Err(e),
    };
    proof {
        lemma_unpack_reencode(instruction_data@);
        vstd::bytes::lemma_auto_spec_u16_to_from_le_bytes();
        vstd::bytes::lemma_auto_spec_u32_to_from_le_bytes();
    }
    match instruction {
        NoteInstruction::AddNote { id, title, body } => {
            assert(instruction_data@.len() == record_len(title@, body@));
            add_note(program_id, accounts, id, title, body, rent)
        },
        NoteInstruction::UpdateNote { id, title, body } => update_note(accounts, id, title, body),
        NoteInstruction::DeleteNote { id } => delete_note(accounts, id),
    }
}

/// Reading the storage account right after a successful add gives an
/// initialized record with exactly the added id, title and body, and the
/// account holds exactly as many bytes as that record takes.
pub proof fn lemma_add_then_read(
    program: Seq<u8>,
    s: Seq<Slot>,
    id: u16,
    title: Seq<char>,
    body: Seq<char>,
    fee: u64,
)
    requires
        text_fits(title),
        text_fits(body),
        spec_add(program, s, id, title, body, fee) is Ok,
    ensures
        ({
            let after = spec_add(program, s, id, title, body, fee).unwrap();
            &&& parse_record(after[1].data) == Some(
                NoteRecord { is_initialized: true, id, title, body },
            )
            &&& after[1].data.len() == record_len(title, body)
        }),
{
    let rec = NoteRecord { is_initialized: true, id, title, body };
    lemma_record_round_trip(rec, Seq::empty());
    assert(record_bytes(rec) + Seq::empty() =~= record_bytes(rec));
}

/// Adding the same id for the same submitter a second time fails with
/// `AccountCreationFailed`, and the storage account still holds the record of
/// the first add.
pub proof fn lemma_add_twice(
    program: Seq<u8>,
    s: Seq<Slot>,
    id: u16,
    title: Seq<char>,
    body: Seq<char>,
    fee: u64,
    title2: Seq<char>,
    body2: Seq<char>,
    fee2: u64,
)
    requires
        text_fits(title),
        text_fits(body),
        spec_add(program, s, id, title, body, fee) is Ok,
    ensures
        ({
            let after = spec_add(program, s, id, title, body, fee).unwrap();
            &&& spec_add(program, after, id, title2, body2, fee2) == Result::<
                Seq<Slot>,
                NoteError,
            >::Err(NoteError::AccountCreationFailed)
            &&& parse_record(after[1].data) == Some(
                NoteRecord { is_initialized: true, id, title, body },
            )
        }),
{
    lemma_add_then_read(program, s, id, title, body, fee);
}

/// After a successful add, an update whose record takes more bytes than the
/// added one fails with `BufferTooSmall`.
pub proof fn lemma_update_too_large(
    program: Seq<u8>,
    s: Seq<Slot>,
    id: u16,
    title: Seq<char>,
    body: Seq<char>,
    fee: u64,
    new_id: u16,
    new_title: Seq<char>,
    new_body: Seq<char>,
)
    requires
        text_fits(title),
        text_fits(body),
        text_fits(new_title),
        text_fits(new_body),
        spec_add(program, s, id, title, body, fee) is Ok,
        record_len(new_title, new_body) > record_len(title, body),
    ensures
        spec_update(spec_add(program, s, id, title, body, fee).unwrap(), new_id, new_title, new_body)
            == Result::<Seq<Slot>, NoteError>::Err(NoteError::BufferTooSmall),
{
    lemma_add_then_read(program, s, id, title, body, fee);
    let rec = NoteRecord { is_initialized: true, id: new_id, title: new_title, body: new_body };
    lemma_record_round_trip(rec, Seq::empty());
}

/// After a successful delete the storage account no longer reads as a note
/// record, and the payer's balance has grown by exactly what the storage
/// account held.
pub proof fn lemma_delete_then_read(s: Seq<Slot>)
    requires
        spec_delete(s) is Ok,
    ensures
        parse_record(spec_delete(s).unwrap()[1].data) is None,
        spec_delete(s).unwrap()[0].lamports == s[0].lamports + s[1].lamports,
{
}

} // verus!
