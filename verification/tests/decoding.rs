use fuelscan::decode::{add_0x_prefix, calls_transactions, coinbase_pick,
    deploy_contract_transactions, find_sender, init_block_by_with_header, process,
    script_gas_used_checked, BlockHandlerError};
use fuelscan::model::{BlockBody, ChainTransaction, CreateTx, Header, MintTx, Receipt, ScriptTx,
    StorageSlot, TransactionResponse, TxInput, TxOutput, TxResolution};
use fuelscan::records::{CallType, TxStatus, TxType};

fn header(height: u64, transactions_count: u64) -> Header {
    Header {
        id: "0xblockhash".to_string(),
        height,
        da_height: height + 1,
        application_hash: "apphash".to_string(),
        output_messages_root: "msgroot".to_string(),
        transactions_root: "txroot".to_string(),
        prev_root: "prevroot".to_string(),
        transactions_count,
        output_messages_count: 0,
        time: 1_700_000_000,
    }
}

fn coin_signed(owner: &str) -> TxInput {
    TxInput::CoinSigned {
        utxo_id: "spent-utxo".to_string(),
        owner: owner.to_string(),
        amount: 7,
        asset_id: "base-asset".to_string(),
    }
}

fn create_body(tx_hash: &str, create: CreateTx, receipts: Vec<Receipt>) -> BlockBody {
    BlockBody {
        tx_hash: tx_hash.to_string(),
        response: Some(TransactionResponse {
            transaction: ChainTransaction::Create(create),
            status: TxResolution::Success,
        }),
        receipts,
    }
}

fn script_body(tx_hash: &str, script: ScriptTx, receipts: Vec<Receipt>) -> BlockBody {
    BlockBody {
        tx_hash: tx_hash.to_string(),
        response: Some(TransactionResponse {
            transaction: ChainTransaction::Script(script),
            status: TxResolution::Success,
        }),
        receipts,
    }
}

fn plain_script(inputs: Vec<TxInput>, outputs: Vec<TxOutput>) -> ScriptTx {
    ScriptTx { inputs, outputs, gas_limit: 500, gas_price: 3, script: vec![], script_data: vec![] }
}

#[test]
fn deploy_decoding_yields_contract_and_transaction() {
    let h = header(5, 1);
    let create = CreateTx {
        inputs: vec![coin_signed("A")],
        outputs: vec![],
        gas_limit: 100,
        gas_price: 2,
        bytecode_witness_index: 0,
        witnesses: vec![b"CODE".to_vec()],
        storage_slots: vec![],
    };
    let bodies = vec![create_body("tx-deploy", create, vec![])];
    let pairs = deploy_contract_transactions(&h, &bodies);
    assert_eq!(pairs.len(), 1);
    let (tx, contract) = &pairs[0];
    assert_eq!(tx.tx_type, Some(TxType::Deploy));
    assert_eq!(tx.sender, Some("A".to_string()));
    assert_eq!(tx.id, "tx-deploy");
    assert_eq!(tx.status, TxStatus::Success);
    assert_eq!(contract.sender, "A");
    assert_eq!(contract.bytecode, "434f4445");
    assert_eq!(contract.contract_hash, "tx-deploy");
    assert_eq!(contract.transaction_id, "tx-deploy");
}

#[test]
fn contract_call_classifies_from_transfer_receipt() {
    let h = header(9, 1);
    let script = ScriptTx {
        inputs: vec![coin_signed("S")],
        outputs: vec![TxOutput::Contract],
        gas_limit: 500,
        gas_price: 3,
        script: vec![1, 2],
        script_data: vec![3],
    };
    let receipts = vec![Receipt::Transfer {
        id: "R".to_string(),
        to: "elsewhere".to_string(),
        amount: 100,
        asset_id: "X".to_string(),
    }];
    let bodies = vec![script_body("tx-call", script, receipts)];
    let pairs = calls_transactions(&h, &bodies);
    assert_eq!(pairs.len(), 1);
    let (tx, call) = &pairs[0];
    assert_eq!(tx.tx_type, Some(TxType::Call));
    assert_eq!(call.call_type, CallType::Contract);
    assert_eq!(call.amount, Some(100));
    assert_eq!(call.asset_id, Some("X".to_string()));
    assert_eq!(call.receiver, "R");
    assert_eq!(call.payload, Some("0102".to_string()));
    assert_eq!(call.payload_data, Some("03".to_string()));
}

#[test]
fn contract_call_classifies_from_call_receipt() {
    let h = header(9, 1);
    let script = ScriptTx {
        inputs: vec![coin_signed("S")],
        outputs: vec![TxOutput::Contract],
        gas_limit: 500,
        gas_price: 3,
        script: vec![],
        script_data: vec![],
    };
    let receipts = vec![Receipt::Call {
        id: "caller-contract".to_string(),
        to: "callee".to_string(),
        amount: 4,
        asset_id: "X".to_string(),
    }];
    let bodies = vec![script_body("tx-call2", script, receipts)];
    let pairs = calls_transactions(&h, &bodies);
    let (_, call) = &pairs[0];
    assert_eq!(call.call_type, CallType::Contract);
    assert_eq!(call.receiver, "callee");
    assert_eq!(call.amount, Some(4));
}

#[test]
fn plain_transfer_resolves_from_first_coin_output() {
    let h = header(9, 1);
    let script = plain_script(
        vec![coin_signed("S")],
        vec![TxOutput::Coin { to: "B".to_string(), amount: 50, asset_id: "Y".to_string() }],
    );
    let bodies = vec![script_body("tx-transfer", script, vec![])];
    let pairs = calls_transactions(&h, &bodies);
    assert_eq!(pairs.len(), 1);
    let (_, call) = &pairs[0];
    assert_eq!(call.call_type, CallType::Transaction);
    assert_eq!(call.amount, Some(50));
    assert_eq!(call.asset_id, Some("Y".to_string()));
    assert_eq!(call.receiver, "B");
    assert_eq!(call.payload, None);
    assert_eq!(call.payload_data, None);
}

#[test]
fn plain_transfer_without_outputs_stays_unset() {
    let h = header(9, 1);
    let script = plain_script(vec![coin_signed("S")], vec![]);
    let bodies = vec![script_body("tx-bare", script, vec![])];
    let pairs = calls_transactions(&h, &bodies);
    let (_, call) = &pairs[0];
    assert_eq!(call.amount, None);
    assert_eq!(call.asset_id, None);
    assert_eq!(call.receiver, "");
}

#[test]
fn gas_used_sums_script_result_receipts() {
    let receipts = vec![
        Receipt::ScriptResult { gas_used: 10 },
        Receipt::Other,
        Receipt::ScriptResult { gas_used: 5 },
    ];
    assert_eq!(script_gas_used_checked(&receipts), Some(15));
    assert_eq!(script_gas_used_checked(&vec![]), Some(0));
    assert_eq!(script_gas_used_checked(&vec![Receipt::ScriptResult { gas_used: u64::MAX },
        Receipt::ScriptResult { gas_used: 1 }]), None);
}

#[test]
fn gas_used_lands_in_decoded_records() {
    let h = header(9, 1);
    let script = plain_script(vec![coin_signed("S")], vec![]);
    let receipts = vec![
        Receipt::ScriptResult { gas_used: 10 },
        Receipt::ScriptResult { gas_used: 5 },
    ];
    let bodies = vec![script_body("tx-gas", script, receipts)];
    let pairs = calls_transactions(&h, &bodies);
    let (tx, call) = &pairs[0];
    assert_eq!(tx.gas_used, 15);
    assert_eq!(call.gas_used, 15);
}

#[test]
fn genesis_block_decodes_to_nothing() {
    let h = header(0, 0);
    let bodies = vec![];
    assert_eq!(deploy_contract_transactions(&h, &bodies).len(), 0);
    assert_eq!(calls_transactions(&h, &bodies).len(), 0);
}

#[test]
fn find_sender_requires_signed_coin() {
    let create = CreateTx {
        inputs: vec![TxInput::Other],
        outputs: vec![],
        gas_limit: 1,
        gas_price: 1,
        bytecode_witness_index: 0,
        witnesses: vec![vec![]],
        storage_slots: vec![],
    };
    assert!(find_sender(&create).is_none());
}

#[test]
fn process_reports_missing_coin_signer() {
    let h = header(5, 1);
    let create = CreateTx {
        inputs: vec![],
        outputs: vec![],
        gas_limit: 1,
        gas_price: 1,
        bytecode_witness_index: 0,
        witnesses: vec![vec![]],
        storage_slots: vec![],
    };
    let bodies = vec![create_body("tx-bad", create, vec![])];
    match process(&h, &bodies) {
        Err(BlockHandlerError::DataProcessError(m)) => assert_eq!(m, "can't find coin sign"),
        _ => panic!("expected a data-contract violation"),
    }
}

#[test]
fn process_reports_missing_bytecode_witness() {
    let h = header(5, 1);
    let create = CreateTx {
        inputs: vec![coin_signed("A")],
        outputs: vec![],
        gas_limit: 1,
        gas_price: 1,
        bytecode_witness_index: 3,
        witnesses: vec![vec![]],
        storage_slots: vec![],
    };
    let bodies = vec![create_body("tx-bad", create, vec![])];
    match process(&h, &bodies) {
        Err(BlockHandlerError::DataProcessError(m)) => {
            assert_eq!(m, "get bytecode: unreachable")
        },
        _ => panic!("expected a data-contract violation"),
    }
}

#[test]
fn process_reports_unresolved_status() {
    let h = header(5, 1);
    let script = plain_script(vec![coin_signed("S")], vec![]);
    let bodies = vec![BlockBody {
        tx_hash: "tx-submitted".to_string(),
        response: Some(TransactionResponse {
            transaction: ChainTransaction::Script(script),
            status: TxResolution::Submitted,
        }),
        receipts: vec![],
    }];
    match process(&h, &bodies) {
        Err(BlockHandlerError::DataProcessError(m)) => {
            assert_eq!(m, "unexpected transaction status")
        },
        _ => panic!("expected a data-contract violation"),
    }
}

#[test]
fn failed_transaction_keeps_its_reason() {
    let h = header(5, 1);
    let script = plain_script(vec![coin_signed("S")], vec![]);
    let bodies = vec![BlockBody {
        tx_hash: "tx-failed".to_string(),
        response: Some(TransactionResponse {
            transaction: ChainTransaction::Script(script),
            status: TxResolution::Failure { reason: "OutOfGas".to_string() },
        }),
        receipts: vec![],
    }];
    let pairs = calls_transactions(&h, &bodies);
    let (tx, _) = &pairs[0];
    assert_eq!(tx.status, TxStatus::Failed);
    assert_eq!(tx.reason, "OutOfGas");
}

#[test]
fn coinbase_summary_comes_from_first_coin_output() {
    let h = header(12, 1);
    let mint = MintTx {
        outputs: vec![TxOutput::Coin {
            to: "validator".to_string(),
            amount: 42,
            asset_id: "base".to_string(),
        }],
        mint_amount: 42,
    };
    let bodies = vec![BlockBody {
        tx_hash: "tx-mint".to_string(),
        response: Some(TransactionResponse {
            transaction: ChainTransaction::Mint(mint),
            status: TxResolution::Success,
        }),
        receipts: vec![],
    }];
    let picked = coinbase_pick(&bodies);
    assert!(picked.is_some());
    let (block, coinbase, txs, contracts, calls, _) = process(&h, &bodies).unwrap();
    assert_eq!(block.coinbase_hash, Some("tx-mint".to_string()));
    assert_eq!(block.coinbase_amount, Some(42));
    assert_eq!(block.coinbase, Some("validator".to_string()));
    let cb = coinbase.unwrap();
    assert_eq!(cb.id, "tx-mint");
    assert_eq!(cb.amount, Some(42));
    assert_eq!(cb.coinbase, Some("validator".to_string()));
    assert_eq!(txs.len(), 0);
    assert_eq!(contracts.len(), 0);
    assert_eq!(calls.len(), 0);
}

#[test]
fn block_row_copies_the_header() {
    let h = header(33, 4);
    let b = init_block_by_with_header(&h);
    assert_eq!(b.id, "0xblockhash");
    assert_eq!(b.height, 33);
    assert_eq!(b.da_height, 34);
    assert_eq!(b.transaction_count, 4);
    assert_eq!(b.coinbase, None);
    assert_eq!(b.coinbase_hash, None);
    assert_eq!(b.timestamp, 1_700_000_000);
}

#[test]
fn predicate_coin_authorizes_a_script_but_not_a_deploy() {
    let h = header(5, 1);
    let predicate_input = TxInput::CoinPredicate {
        utxo_id: "u".to_string(),
        owner: "P".to_string(),
        amount: 1,
        asset_id: "base".to_string(),
    };
    let script = plain_script(vec![predicate_input.clone()], vec![]);
    let pairs = calls_transactions(&h, &vec![script_body("tx-pred", script, vec![])]);
    assert_eq!(pairs[0].0.sender, Some("P".to_string()));

    let create = CreateTx {
        inputs: vec![predicate_input],
        outputs: vec![],
        gas_limit: 1,
        gas_price: 1,
        bytecode_witness_index: 0,
        witnesses: vec![vec![]],
        storage_slots: vec![],
    };
    match process(&h, &vec![create_body("tx-pred-deploy", create, vec![])]) {
        Err(BlockHandlerError::DataProcessError(m)) => assert_eq!(m, "can't find coin sign"),
        _ => panic!("a deploy needs a signed coin input"),
    }
}

#[test]
fn transfer_resolution_accepts_change_and_variable_outputs() {
    let h = header(5, 1);
    let script = plain_script(
        vec![coin_signed("S")],
        vec![
            TxOutput::ContractCreated { contract_id: "c".to_string() },
            TxOutput::Change { to: "C".to_string(), amount: 3, asset_id: "Z".to_string() },
        ],
    );
    // A contract-creation output classifies the whole call as a contract
    // call, so use one without it first.
    let script2 = plain_script(
        vec![coin_signed("S")],
        vec![
            TxOutput::Variable { to: "V".to_string(), amount: 4, asset_id: "W".to_string() },
        ],
    );
    let pairs = calls_transactions(&h, &vec![script_body("tx-var", script2, vec![])]);
    assert_eq!(pairs[0].1.call_type, CallType::Transaction);
    assert_eq!(pairs[0].1.receiver, "V");
    assert_eq!(pairs[0].1.amount, Some(4));

    let pairs2 = calls_transactions(&h, &vec![script_body("tx-created", script, vec![])]);
    assert_eq!(pairs2[0].1.call_type, CallType::Contract);
}

#[test]
fn transfer_payload_rides_along_when_nonempty() {
    let h = header(5, 1);
    let script = ScriptTx {
        inputs: vec![coin_signed("S")],
        outputs: vec![],
        gas_limit: 1,
        gas_price: 1,
        script: vec![0xab],
        script_data: vec![],
    };
    let pairs = calls_transactions(&h, &vec![script_body("tx-pl", script, vec![])]);
    assert_eq!(pairs[0].1.payload, Some("ab".to_string()));
    assert_eq!(pairs[0].1.payload_data, None);
}

#[test]
fn deploy_keeps_storage_slots_and_witness_marker() {
    let h = header(5, 1);
    let create = CreateTx {
        inputs: vec![coin_signed("A")],
        outputs: vec![],
        gas_limit: 100,
        gas_price: 2,
        bytecode_witness_index: 1,
        witnesses: vec![vec![0x01], vec![0x02, 0x03]],
        storage_slots: vec![StorageSlot { key: "k".to_string(), value: "v".to_string() }],
    };
    let pairs = deploy_contract_transactions(&h, &vec![create_body("tx-slots", create, vec![])]);
    let (_, contract) = &pairs[0];
    assert_eq!(contract.bytecode, "0203");
    assert_eq!(contract.bytecoin_length, 1);
    assert_eq!(contract.storage_slots.len(), 1);
    assert_eq!(contract.storage_slots[0].key, "k");
}

#[test]
fn records_carry_the_header_coordinates() {
    let h = header(21, 1);
    let script = plain_script(vec![coin_signed("S")], vec![]);
    let pairs = calls_transactions(&h, &vec![script_body("tx-coord", script, vec![])]);
    let (tx, call) = &pairs[0];
    assert_eq!(tx.height, 21);
    assert_eq!(tx.da_height, 22);
    assert_eq!(tx.block_hash, "0xblockhash");
    assert_eq!(call.height, 21);
    assert_eq!(call.block_hash, "0xblockhash");
    assert_eq!(call.gas_limit, 500);
    assert_eq!(call.gas_price, 3);
}

#[test]
fn add_0x_prefix_covers_all_shapes() {
    assert_eq!(add_0x_prefix("abc".to_string()), "0xabc");
    assert_eq!(add_0x_prefix("0xabc".to_string()), "0xabc");
    assert_eq!(add_0x_prefix("".to_string()), "0x");
    assert_eq!(add_0x_prefix("0".to_string()), "0x0");
    assert_eq!(add_0x_prefix("x0".to_string()), "0xx0");
}
