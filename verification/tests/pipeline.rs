use fuelscan::account::process_account;
use fuelscan::assets::{assets_process, handle_mint, handle_script, utxo_key};
use fuelscan::decode::process;
use fuelscan::fetch::{height_outcome, BlockReader, BlockReaderError, FetchBlockResult};
use fuelscan::handler::{insert_header, insert_header_and_txs};
use fuelscan::model::{BlockBody, ChainTransaction, CreateTx, Header, MintTx, Receipt, ScriptTx,
    TransactionResponse, TxInput, TxOutput, TxResolution};
use fuelscan::records::{Account, AccountType, AssetStatus, Assets, Call, CallType};
use fuelscan::store::Store;
use fuelscan::DatabaseName;

fn header_at(height: u64, transactions_count: u64) -> Header {
    Header {
        id: format!("block-{}", height),
        height,
        da_height: height,
        application_hash: "app".to_string(),
        output_messages_root: "msg".to_string(),
        transactions_root: "txr".to_string(),
        prev_root: "prev".to_string(),
        transactions_count,
        output_messages_count: 0,
        time: 1_700_000_000,
    }
}

fn fetched(height: u64) -> FetchBlockResult {
    FetchBlockResult { header: header_at(height, 0), bodies: vec![] }
}

fn signed_input(utxo: &str, owner: &str, asset: &str) -> TxInput {
    TxInput::CoinSigned {
        utxo_id: utxo.to_string(),
        owner: owner.to_string(),
        amount: 9,
        asset_id: asset.to_string(),
    }
}

fn coin_output(to: &str, amount: u64, asset: &str) -> TxOutput {
    TxOutput::Coin { to: to.to_string(), amount, asset_id: asset.to_string() }
}

fn transfer_script_body(tx_hash: &str, to: &str, amount: u64) -> BlockBody {
    BlockBody {
        tx_hash: tx_hash.to_string(),
        response: Some(TransactionResponse {
            transaction: ChainTransaction::Script(ScriptTx {
                inputs: vec![signed_input("consumed", "sender", "asset")],
                outputs: vec![coin_output(to, amount, "asset")],
                gas_limit: 10,
                gas_price: 1,
                script: vec![],
                script_data: vec![],
            }),
            status: TxResolution::Success,
        }),
        receipts: vec![Receipt::ScriptResult { gas_used: 3 }],
    }
}

#[test]
fn fetcher_stops_at_the_first_absent_height() {
    let mut reader = BlockReader::new(3, 100);
    let (lo, hi) = reader.next_range();
    assert_eq!((lo, hi), (100, 103));
    let batch = reader.accept(vec![Some(fetched(100)), None, Some(fetched(102))]);
    assert_eq!(batch.len(), 1);
    assert_eq!(batch[0].header.height, 100);
    assert_eq!(reader.cursor, 101);
}

#[test]
fn fetcher_advances_over_a_full_round() {
    let mut reader = BlockReader::new(2, 7);
    let batch = reader.accept(vec![Some(fetched(7)), Some(fetched(8))]);
    assert_eq!(batch.len(), 2);
    assert_eq!(reader.cursor, 9);
    let batch2 = reader.accept(vec![None, Some(fetched(10))]);
    assert_eq!(batch2.len(), 0);
    assert_eq!(reader.cursor, 9);
}

#[test]
fn forwarded_heights_stay_contiguous_across_rounds() {
    let mut reader = BlockReader::new(3, 100);
    let mut forwarded: Vec<u64> = Vec::new();
    let first = reader.accept(vec![Some(fetched(100)), None, Some(fetched(102))]);
    forwarded.extend(first.iter().map(|b| b.header.height));
    assert_eq!(reader.cursor, 101);
    let second = reader.accept(vec![Some(fetched(101)), Some(fetched(102)), Some(fetched(103))]);
    forwarded.extend(second.iter().map(|b| b.header.height));
    assert_eq!(forwarded, vec![100, 101, 102, 103]);
    assert_eq!(reader.cursor, 104);
}

#[test]
fn height_outcome_reports_an_unproduced_height() {
    match height_outcome(55, None) {
        Err(BlockReaderError::HeightBlock(h)) => assert_eq!(h, 55),
        _ => panic!("an absent header must report the height"),
    }
    match height_outcome(56, Some(header_at(56, 0))) {
        Ok(h) => assert_eq!(h.height, 56),
        _ => panic!("a present header must come back"),
    }
}

#[test]
fn append_only_upserts_are_idempotent() {
    let mut store = Store::new();
    let h = header_at(3, 1);
    let bodies = vec![transfer_script_body("tx-a", "bob", 5)];
    insert_header_and_txs(&mut store, &h, &bodies).unwrap();
    let blocks_once = store.blocks.len();
    let txs_once = store.transactions.len();
    let calls_once = store.calls.len();
    let assets_once = store.assets.len();
    insert_header_and_txs(&mut store, &h, &bodies).unwrap();
    assert_eq!(store.blocks.len(), blocks_once);
    assert_eq!(store.transactions.len(), txs_once);
    assert_eq!(store.calls.len(), calls_once);
    assert_eq!(store.assets.len(), assets_once);
    assert_eq!(store.transactions[0].gas_used, 3);
}

fn create_row(key: &str, owner: &str, amount: u64, height: u64) -> Assets {
    Assets {
        assets_id: "asset".to_string(),
        assets_utxo_id: key.to_string(),
        assets_owner: owner.to_string(),
        amount,
        block_height: height,
        create_height: height,
        delete_tx_hash: "".to_string(),
        create_tx_hash: "tx-create".to_string(),
        asset_status: AssetStatus::Alive,
    }
}

fn delete_row(key: &str, height: u64) -> Assets {
    Assets {
        assets_id: "asset".to_string(),
        assets_utxo_id: key.to_string(),
        assets_owner: "spender".to_string(),
        amount: 0,
        block_height: height,
        create_height: height,
        delete_tx_hash: "tx-delete".to_string(),
        create_tx_hash: "".to_string(),
        asset_status: AssetStatus::Delete,
    }
}

#[test]
fn utxo_create_and_delete_commute() {
    let c = create_row("k1", "alice", 77, 10);
    let d = delete_row("k1", 12);

    let mut forward = Store::new();
    forward.batch_insert_assets(&vec![c.clone()]);
    forward.batch_insert_assets(&vec![d.clone()]);

    let mut backward = Store::new();
    backward.batch_insert_assets(&vec![d.clone()]);
    backward.batch_insert_assets(&vec![c.clone()]);

    assert_eq!(forward.assets.len(), 1);
    assert_eq!(backward.assets.len(), 1);
    let f = &forward.assets[0];
    let b = &backward.assets[0];
    assert_eq!(f.asset_status, AssetStatus::Delete);
    assert_eq!(b.asset_status, AssetStatus::Delete);
    assert_eq!(f.assets_owner, "alice");
    assert_eq!(b.assets_owner, "alice");
    assert_eq!(f.amount, 77);
    assert_eq!(b.amount, 77);
    assert_eq!(f.delete_tx_hash, "tx-delete");
    assert_eq!(b.delete_tx_hash, "tx-delete");
    assert_eq!(f.create_tx_hash, b.create_tx_hash);
    assert_eq!(f.block_height, b.block_height);
    assert_eq!(f.create_height, b.create_height);
}

#[test]
fn asset_upserts_with_identical_deltas_are_idempotent() {
    let c = create_row("k2", "carol", 5, 20);
    let mut store = Store::new();
    store.batch_insert_assets(&vec![c.clone()]);
    store.batch_insert_assets(&vec![c.clone()]);
    assert_eq!(store.assets.len(), 1);
    assert_eq!(store.assets[0].assets_owner, "carol");
    assert_eq!(store.assets[0].amount, 5);
    assert_eq!(store.assets[0].asset_status, AssetStatus::Alive);
}

#[test]
fn asset_upserts_stay_idempotent_with_repeated_keys() {
    let mut d1 = delete_row("k3", 30);
    d1.delete_tx_hash = "tx-first-spend".to_string();
    let c = create_row("k3", "dana", 9, 29);
    let mut d2 = delete_row("k3", 31);
    d2.delete_tx_hash = "tx-second-spend".to_string();
    let batch = vec![d1, c, d2];

    let mut once = Store::new();
    once.batch_insert_assets(&batch);
    let mut twice = Store::new();
    twice.batch_insert_assets(&batch);
    twice.batch_insert_assets(&batch);

    assert_eq!(once.assets.len(), 1);
    assert_eq!(twice.assets.len(), 1);
    let a = &once.assets[0];
    let b = &twice.assets[0];
    assert_eq!(a.delete_tx_hash, "tx-second-spend");
    assert_eq!(b.delete_tx_hash, "tx-second-spend");
    assert_eq!(a.assets_owner, b.assets_owner);
    assert_eq!(a.amount, b.amount);
    assert_eq!(a.block_height, b.block_height);
    assert_eq!(a.create_height, b.create_height);
    assert_eq!(a.asset_status, b.asset_status);
}

#[test]
fn spend_pass_and_create_pass_extract_transitions() {
    let script = ScriptTx {
        inputs: vec![signed_input("old-utxo", "alice", "gold")],
        outputs: vec![coin_output("bob", 30, "gold")],
        gas_limit: 10,
        gas_price: 1,
        script: vec![],
        script_data: vec![],
    };
    let tx_hash = "txh".to_string();
    let (deletes, creates) = handle_script(&tx_hash, &script);
    assert_eq!(deletes.len(), 1);
    assert_eq!(creates.len(), 1);
    assert_eq!(deletes[0].assets_utxo_id, "old-utxo");
    assert_eq!(deletes[0].assets_owner, "alice");
    assert_eq!(deletes[0].asset_status, AssetStatus::Delete);
    assert_eq!(deletes[0].delete_tx_hash, "txh");
    assert_eq!(creates[0].assets_utxo_id, "txh00");
    assert_eq!(creates[0].assets_owner, "bob");
    assert_eq!(creates[0].amount, 30);
    assert_eq!(creates[0].create_tx_hash, "txh");
    assert_eq!(creates[0].asset_status, AssetStatus::Alive);
}

#[test]
fn mint_creates_only_from_coin_outputs() {
    let mint = MintTx {
        outputs: vec![
            coin_output("validator", 8, "base"),
            TxOutput::Change { to: "x".to_string(), amount: 1, asset_id: "base".to_string() },
        ],
        mint_amount: 8,
    };
    let tx_hash = "mint-tx".to_string();
    let (deletes, creates) = handle_mint(&tx_hash, &mint);
    assert_eq!(deletes.len(), 0);
    assert_eq!(creates.len(), 1);
    assert_eq!(creates[0].assets_owner, "validator");
}

#[test]
fn assets_process_stamps_the_block_height() {
    let h = header_at(41, 1);
    let bodies = vec![transfer_script_body("tx-a", "bob", 5)];
    let (deletes, creates) = assets_process(&h, &bodies);
    assert_eq!(deletes.len(), 1);
    assert_eq!(creates.len(), 1);
    assert_eq!(deletes[0].block_height, 41);
    assert_eq!(deletes[0].create_height, 41);
    assert_eq!(creates[0].block_height, 41);
    assert_eq!(creates[0].create_height, 41);
}

#[test]
fn utxo_key_appends_the_output_index() {
    let tx = "abcd".to_string();
    assert_eq!(utxo_key(&tx, 0), "abcd00");
    assert_eq!(utxo_key(&tx, 255), "abcdff");
    assert_eq!(utxo_key(&tx, 16), "abcd10");
}

fn call_record(sender: &str, receiver: &str, kind: CallType, gas: u64) -> Call {
    Call {
        transaction_id: "t".to_string(),
        height: 1,
        da_height: 1,
        block_hash: "b".to_string(),
        call_type: kind,
        gas_limit: 10,
        gas_price: 1,
        gas_used: gas,
        sender: sender.to_string(),
        receiver: receiver.to_string(),
        amount: None,
        asset_id: None,
        payload: None,
        payload_data: None,
        timestamp: 0,
    }
}

#[test]
fn account_aggregates_fold_by_address() {
    let calls = vec![
        call_record("alice", "contract-1", CallType::Contract, 10),
        call_record("alice", "bob", CallType::Transaction, 7),
    ];
    let accounts = process_account(&calls);
    assert_eq!(accounts.len(), 3);
    let alice = accounts.iter().find(|a| a.account_hash == "alice").unwrap();
    assert_eq!(alice.sender_count, 2);
    assert_eq!(alice.recever_count, 0);
    assert_eq!(alice.gas_used, 17);
    assert_eq!(alice.account_type, AccountType::Account);
    let c1 = accounts.iter().find(|a| a.account_hash == "contract-1").unwrap();
    assert_eq!(c1.account_type, AccountType::Contract);
    assert_eq!(c1.recever_count, 1);
    let bob = accounts.iter().find(|a| a.account_hash == "bob").unwrap();
    assert_eq!(bob.account_type, AccountType::Account);
    assert_eq!(bob.gas_used, 7);
}

#[test]
fn account_upserts_accumulate() {
    let mut store = Store::new();
    let calls = vec![call_record("alice", "bob", CallType::Transaction, 10)];
    let accounts = process_account(&calls);
    store.batch_insert_accounts(&accounts);
    store.batch_insert_accounts(&accounts);
    let alice = store.accounts.iter().find(|a| a.account_hash == "alice").unwrap();
    assert_eq!(alice.sender_count, 2);
    assert_eq!(alice.gas_used, 20);
}

#[test]
fn checkpoint_is_the_greatest_stored_height() {
    let mut store = Store::new();
    assert_eq!(store.get_last_block_height(), 0);
    insert_header(&mut store, &header_at(5, 0));
    insert_header(&mut store, &header_at(12, 0));
    insert_header(&mut store, &header_at(9, 0));
    assert_eq!(store.get_last_block_height(), 12);
}

#[test]
fn rejected_batch_writes_nothing() {
    let mut store = Store::new();
    let h = header_at(5, 1);
    let bodies = vec![BlockBody {
        tx_hash: "tx-bad".to_string(),
        response: Some(TransactionResponse {
            transaction: ChainTransaction::Create(CreateTx {
                inputs: vec![],
                outputs: vec![],
                gas_limit: 1,
                gas_price: 1,
                bytecode_witness_index: 0,
                witnesses: vec![],
                storage_slots: vec![],
            }),
            status: TxResolution::Success,
        }),
        receipts: vec![],
    }];
    assert!(insert_header_and_txs(&mut store, &h, &bodies).is_err());
    assert_eq!(store.blocks.len(), 0);
    assert_eq!(store.transactions.len(), 0);
}

#[test]
fn full_block_lands_in_every_table() {
    let mut store = Store::new();
    let h = header_at(8, 2);
    let deploy = BlockBody {
        tx_hash: "tx-d".to_string(),
        response: Some(TransactionResponse {
            transaction: ChainTransaction::Create(CreateTx {
                inputs: vec![signed_input("u0", "deployer", "base")],
                outputs: vec![],
                gas_limit: 9,
                gas_price: 1,
                bytecode_witness_index: 0,
                witnesses: vec![vec![0xde, 0xad]],
                storage_slots: vec![],
            }),
            status: TxResolution::Success,
        }),
        receipts: vec![Receipt::ScriptResult { gas_used: 2 }],
    };
    let bodies = vec![deploy, transfer_script_body("tx-s", "bob", 4)];
    insert_header_and_txs(&mut store, &h, &bodies).unwrap();
    assert_eq!(store.blocks.len(), 1);
    assert_eq!(store.transactions.len(), 2);
    assert_eq!(store.contracts.len(), 1);
    assert_eq!(store.calls.len(), 1);
    assert_eq!(store.contracts[0].bytecode, "dead");
    assert_eq!(store.assets.len(), 3);
}

#[test]
fn database_columns_stay_stable() {
    assert_eq!(DatabaseName::Slot.col_index(), 0);
    assert_eq!(DatabaseName::Contract.col_index(), 1);
    assert_eq!(DatabaseName::ScriptData.col_index(), 6);
}

#[test]
fn process_accepts_an_empty_batch() {
    let h = header_at(2, 0);
    let out = process(&h, &vec![]).unwrap();
    assert_eq!(out.2.len(), 0);
    assert_eq!(out.3.len(), 0);
    assert_eq!(out.4.len(), 0);
    assert!(out.1.is_none());
}
