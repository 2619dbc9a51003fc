//! The persistence worker's unit of work: decode one fetched block and
//! write every derived record set to the store as one unit. A worker that
//! owns a real connection retries this whole unit on write failure; the
//! decoding itself fails only on a data-contract violation, which is fatal,
//! never retried.

use vstd::prelude::*;

use crate::assets::{spec_batch_creates, spec_batch_deletes, with_height};
use crate::decode::{batch_ok, init_block_by_with_header, process, spec_batch_callrecords,
    spec_batch_contracts, spec_batch_transactions, spec_batch_violation, spec_block_of_header,
    spec_block_with_coinbase, spec_coinbase, spec_find_mint, BlockHandlerError};
use crate::model::{BlockBody, Header};
use crate::store::{apply_assets, apply_ignore, block_key, call_key, coinbase_key, contract_key,
    transaction_key, Store};

verus! {

/// Writes the bare block row of a header, without any coinbase summary.
pub fn insert_header(store: &mut Store, header: &Header)
    ensures
        final(store)@.blocks == apply_ignore(
            old(store)@.blocks,
            block_key(),
            seq![spec_block_of_header(header@)],
        ),
        final(store)@.coinbases == old(store)@.coinbases,
        final(store)@.transactions == old(store)@.transactions,
        final(store)@.contracts == old(store)@.contracts,
        final(store)@.calls == old(store)@.calls,
        final(store)@.assets == old(store)@.assets,
        final(store)@.accounts == old(store)@.accounts,
{
    let block = init_block_by_with_header(header);
    let blocks_vec = vec![block];
    proof {
        assert(blocks_vec.deep_view() =~= seq![spec_block_of_header(header@)]);
    }
    store.batch_insert_block(&blocks_vec);
}

/// Decodes one block and applies all its records to the store: the block
/// row, the coinbase row if the block minted, the normalized transactions,
/// the contracts, the calls, and the asset-ledger transitions (spends, then
/// creations). On a data-contract violation nothing is written and the
/// first violation is reported.
pub fn insert_header_and_txs(store: &mut Store, header: &Header, bodies: &Vec<BlockBody>) -> (r:
    Result<(), BlockHandlerError>)
    ensures
        match r {
            Ok(_) => {
                &&& batch_ok(bodies.deep_view())
                &&& final(store)@.blocks == apply_ignore(
                    old(store)@.blocks,
                    block_key(),
                    seq![spec_block_with_coinbase(header@, bodies.deep_view())],
                )
                &&& final(store)@.coinbases == (match spec_find_mint(bodies.deep_view()) {
                    Some(b) => apply_ignore(
                        old(store)@.coinbases,
                        coinbase_key(),
                        seq![spec_coinbase(header@, b)],
                    ),
                    None => old(store)@.coinbases,
                })
                &&& final(store)@.transactions == apply_ignore(
                    old(store)@.transactions,
                    transaction_key(),
                    spec_batch_transactions(header@, bodies.deep_view()),
                )
                &&& final(store)@.contracts == apply_ignore(
                    old(store)@.contracts,
                    contract_key(),
                    spec_batch_contracts(header@, bodies.deep_view()),
                )
                &&& final(store)@.calls == apply_ignore(
                    old(store)@.calls,
                    call_key(),
                    spec_batch_callrecords(header@, bodies.deep_view()),
                )
                &&& final(store)@.assets == apply_assets(
                    apply_assets(
                        old(store)@.assets,
                        with_height(spec_batch_deletes(bodies.deep_view()), header@.height),
                    ),
                    with_height(spec_batch_creates(bodies.deep_view()), header@.height),
                )
                &&& final(store)@.accounts == old(store)@.accounts
            },
            Err(e) => {
                &&& !batch_ok(bodies.deep_view())
                &&& final(store)@ == old(store)@
                &&& (match e {
                    BlockHandlerError::DataProcessError(m) => Some(m@) == spec_batch_violation(
                        bodies.deep_view(),
                    ),
                    _ => false,
                })
            },
        },
{
    let decoded = match process(header, bodies) {
        Ok(d) => d,
        Err(e) => {
            return Err(e);
        },
    };
    let (block, coinbase, transactions, contracts, calls, asset_rows) = decoded;
    let blocks_vec = vec![block];
    proof {
        assert(blocks_vec.deep_view() =~= seq![
            spec_block_with_coinbase(header@, bodies.deep_view()),
        ]);
    }
    store.batch_insert_block(&blocks_vec);
    match coinbase {
        Some(cb) => {
            let cb_vec = vec![cb];
            proof {
                assert(cb_vec.deep_view() =~= seq![
                    match spec_find_mint(bodies.deep_view()) {
                        Some(b) => spec_coinbase(header@, b),
                        None => arbitrary(),
                    },
                ]);
            }
            store.batch_insert_coinbase(&cb_vec);
        },
        None => {},
    }
    store.batch_insert_transactions(&transactions);
    store.batch_insert_contracts(&contracts);
    store.batch_insert_calls(&calls);
    let (deletes, creates) = asset_rows;
    store.batch_insert_assets(&deletes);
    store.batch_insert_assets(&creates);
    Ok(())
}

} // verus!
