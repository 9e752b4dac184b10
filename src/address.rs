//! Account addresses, and the storage locator that derives a note's address
//! from its submitter, its id and the program.

use solana_program::pubkey::Pubkey;
use vstd::bytes::{spec_u16_to_le_bytes, u16_to_le_bytes};
use vstd::prelude::*;

verus! {

/// A 32-byte account address.
#[derive(Clone, Copy, Debug, PartialEq, Eq)]
pub struct Address {
    pub bytes: [u8; 32],
}

impl View for Address {
    type V = Seq<u8>;

    open spec fn view(&self) -> Seq<u8> {
        self.bytes@
    }
}

impl Address {
    /// Whether two addresses hold the same bytes.
    pub fn same(&self, other: &Address) -> (r: bool)
        ensures
            r == (self@ == other@),
    {
        let mut i: usize = 0;
        while i < 32
            invariant
                0 <= i <= 32,
                forall|j: int| 0 <= j < i ==> self.bytes@[j] == other.bytes@[j],
            decreases 32 - i,
        {
            if self.bytes[i] != other.bytes[i] {
                return false;
            }
            i = i + 1;
        }
        assert(self@ =~= other@);
        true
    }
}

/// The program-derived address, with its bump seed, that
/// `Pubkey::try_find_program_address` finds for these seeds and this program
/// id; `None` where no bump seed gives an address off the curve.
pub uninterp spec fn program_address(seeds: Seq<Seq<u8>>, program: Seq<u8>) -> Option<(Seq<u8>, u8)>;

/// Relies on `solana_program::pubkey::Pubkey::try_find_program_address`: a
/// pure function of its seeds and program id, which never panics.
#[verifier::external_body]
fn try_find_program_address(owner_seed: &[u8], id_seed: &[u8], program: &Address) -> (r: Option<
    (Address, u8),
>)
    ensures
        (r is Some) == (program_address(seq![owner_seed@, id_seed@], program@) is Some),
        r matches Some((a, bump)) ==> program_address(seq![owner_seed@, id_seed@], program@) == Some(
            (a@, bump),
        ),
{
    match Pubkey::try_find_program_address(
        &[owner_seed, id_seed],
        &Pubkey::new_from_array(program.bytes),
    ) {
        Some((key, bump)) => Some((Address { bytes: key.to_bytes() }, bump)),
        None => None,
    }
}

/// The storage address of note `id` of `owner` under `program`, with its
/// disambiguator: the program-derived address for the seeds `owner` and the
/// two little-endian bytes of `id`.
pub open spec fn located(owner: Seq<u8>, id: u16, program: Seq<u8>) -> Option<(Seq<u8>, u8)> {
    program_address(seq![owner, spec_u16_to_le_bytes(id)], program)
}

/// Derives the storage address of note `id` of `owner` under `program`, with
/// its disambiguator; `None` where every disambiguator fails.
pub fn locate(owner: &Address, id: u16, program: &Address) -> (r: Option<(Address, u8)>)
    ensures
        match r {
            Some((a, bump)) => located(owner@, id, program@) == Some((a@, bump)),
            None => located(owner@, id, program@) is None,
        },
{
    let id_seed = u16_to_le_bytes(id);
    try_find_program_address(owner.bytes.as_slice(), id_seed.as_slice(), program)
}

/// Locating is deterministic: results obtained for equal inputs are equal.
pub proof fn lemma_locate_deterministic(
    owner: Seq<u8>,
    id: u16,
    program: Seq<u8>,
    first: Option<(Seq<u8>, u8)>,
    second: Option<(Seq<u8>, u8)>,
)
    requires
        first == located(owner, id, program),
        second == located(owner, id, program),
    ensures
        first == second,
{
}

} // verus!
