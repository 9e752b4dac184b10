use vstd::prelude::*;

verus! {

/// Every way a request can fail.
#[derive(Clone, Copy, Debug, PartialEq, Eq, Structural)]
pub enum NoteError {
    /// The request is empty or its first byte names no operation.
    InvalidOperation,
    /// The payload does not have the shape id, title, body, or a text is not UTF-8.
    MalformedPayload,
    /// Fewer account handles were supplied than the operation needs.
    NotEnoughAccounts,
    /// No disambiguator makes the derived address valid.
    NoViableAddress,
    /// The storage handle is not the address derived from the submitter and the id.
    AddressMismatch,
    /// The storage slot is already allocated, or the submitter cannot fund it.
    AccountCreationFailed,
    /// The storage bytes do not hold a note record.
    CorruptAccount,
    /// The new record does not fit in the bytes allocated for the account.
    BufferTooSmall,
    /// Returning the storage balance would take the payer's balance past `u64::MAX`.
    BalanceOverflow,
}

} // verus!
