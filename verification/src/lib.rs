//! A chain indexer core: block-fetch planning, transaction decoding into
//! normalized records, a UTXO-style asset ledger, and the idempotent upsert
//! semantics of the durable store.

use vstd::prelude::*;

pub mod account;
pub mod assets;
pub mod decode;
pub mod fetch;
pub mod handler;
pub mod hex_enc;
pub mod model;
pub mod records;
pub mod store;

verus! {

/// Column families of the key-value side-store that holds large binary blobs.
#[derive(Clone, Copy, PartialEq, Eq, Structural, Debug)]
pub enum DatabaseName {
    Slot,
    Contract,
    Address,
    Calldata,
    Transaction,
    Script,
    ScriptData,
}

impl DatabaseName {
    /// The index of this column family in the key-value store.
    pub fn col_index(&self) -> (r: u32)
        ensures
            r == self.spec_col_index(),
    {
        match self {
            DatabaseName::Slot => 0,
            DatabaseName::Contract => 1,
            DatabaseName::Address => 2,
            DatabaseName::Calldata => 3,
            DatabaseName::Transaction => 4,
            DatabaseName::Script => 5,
            DatabaseName::ScriptData => 6,
        }
    }

    pub open spec fn spec_col_index(&self) -> u32 {
        match self {
            DatabaseName::Slot => 0,
            DatabaseName::Contract => 1,
            DatabaseName::Address => 2,
            DatabaseName::Calldata => 3,
            DatabaseName::Transaction => 4,
            DatabaseName::Script => 5,
            DatabaseName::ScriptData => 6,
        }
    }
}

} // verus!
