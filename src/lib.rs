//! A note store: requests that add, update or delete a titled note kept in a
//! storage account whose address is derived from the submitter and the note id.

pub mod address;
pub mod codec;
pub mod error;
pub mod instruction;
pub mod processor;
pub mod state;
