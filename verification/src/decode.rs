//! The transaction decoder: pure mapping from a raw transaction and its
//! receipts to normalized records, dispatched on the transaction variant.

use vstd::prelude::*;
use vstd::seq_lib::*;

use vstd::string::{StrSliceExecFns, StringExecFns};

use crate::assets::{assets_process, outputs_len_ok, spec_batch_creates, spec_batch_deletes,
    with_height};
use crate::hex_enc::{hex_encode, hex_of};
use crate::model::{clone_inputs, clone_opt_string, clone_outputs, clone_receipts,
    clone_storage_slots, input_owner, is_coin_input, is_coin_like_output, is_contractish_output,
    output_amount, output_asset_id, output_to, resolution_ok, BlockBody, BlockBodyV,
    ChainTransaction, ChainTransactionV, CreateTx, CreateTxV, Header, HeaderV, MintTxV, Receipt,
    ReceiptV, ScriptTx, ScriptTxV, TransactionResponseV, TxInput, TxInputV, TxOutput, TxOutputV,
    TxResolution, TxResolutionV};
use crate::records::{Assets, AssetsV, Block, BlockV, Call, CallType, CallV, Coinbase, CoinbaseV,
    Contract, ContractV, Transaction, TransactionV, TxStatus, TxType};

verus! {

/// The first element of `s` that satisfies `p`, if any.
pub open spec fn find_first<A>(s: Seq<A>, p: spec_fn(A) -> bool) -> Option<A>
    decreases s.len(),
{
    if s.len() == 0 {
        None
    } else if p(s.first()) {
        Some(s.first())
    } else {
        find_first(s.drop_first(), p)
    }
}

pub open spec fn coin_signed_pred() -> spec_fn(TxInputV) -> bool {
    |i: TxInputV| i is CoinSigned
}

pub open spec fn coin_auth_pred() -> spec_fn(TxInputV) -> bool {
    |i: TxInputV| is_coin_input(i)
}

pub open spec fn call_or_transfer_pred() -> spec_fn(ReceiptV) -> bool {
    |r: ReceiptV| r is Call || r is Transfer
}

pub open spec fn coin_like_output_pred() -> spec_fn(TxOutputV) -> bool {
    |o: TxOutputV| is_coin_like_output(o)
}

pub open spec fn coin_output_pred() -> spec_fn(TxOutputV) -> bool {
    |o: TxOutputV| o is Coin
}

/// The owner of the first signed coin input: the sender a deploy is
/// attributed to.
pub open spec fn spec_deploy_sender(inputs: Seq<TxInputV>) -> Option<Seq<char>> {
    match find_first(inputs, coin_signed_pred()) {
        Some(i) => Some(input_owner(i)),
        None => None,
    }
}

/// The owner of the first signed or predicate-authorized coin input: the
/// sender a script transaction is attributed to.
pub open spec fn spec_call_sender(inputs: Seq<TxInputV>) -> Option<Seq<char>> {
    match find_first(inputs, coin_auth_pred()) {
        Some(i) => Some(input_owner(i)),
        None => None,
    }
}

/// The sender of a deploy: the owner of its first signed coin input.
/// `None` when the transaction carries no such input.
pub fn find_sender(create: &CreateTx) -> (r: Option<String>)
    ensures
        r.deep_view() == spec_deploy_sender(create.inputs.deep_view()),
{
    let ghost dv = create.inputs.deep_view();
    proof {
        assert(dv.skip(0) =~= dv);
    }
    let n = create.inputs.len();
    for idx in 0..n
        invariant
            n == create.inputs.len(),
            dv == create.inputs.deep_view(),
            find_first(dv, coin_signed_pred()) == find_first(dv.skip(idx as int), coin_signed_pred()),
    {
        match &create.inputs[idx] {
            TxInput::CoinSigned { owner, .. } => {
                proof {
                    assert(dv.skip(idx as int).first() == dv[idx as int]);
                }
                return Some(owner.clone());
            },
            _ => {},
        }
        proof {
            assert(dv.skip(idx as int).first() == dv[idx as int]);
            assert(dv.skip(idx as int).drop_first() =~= dv.skip(idx as int + 1));
        }
    }
    proof {
        assert(dv.skip(n as int) =~= Seq::<TxInputV>::empty());
    }
    None
}

/// The sender of a script transaction: the owner of its first signed or
/// predicate-authorized coin input.
pub fn find_script_sender(script: &ScriptTx) -> (r: Option<String>)
    ensures
        r.deep_view() == spec_call_sender(script.inputs.deep_view()),
{
    let ghost dv = script.inputs.deep_view();
    proof {
        assert(dv.skip(0) =~= dv);
    }
    let n = script.inputs.len();
    for idx in 0..n
        invariant
            n == script.inputs.len(),
            dv == script.inputs.deep_view(),
            find_first(dv, coin_auth_pred()) == find_first(dv.skip(idx as int), coin_auth_pred()),
    {
        match &script.inputs[idx] {
            TxInput::CoinSigned { owner, .. } => {
                proof {
                    assert(dv.skip(idx as int).first() == dv[idx as int]);
                }
                return Some(owner.clone());
            },
            TxInput::CoinPredicate { owner, .. } => {
                proof {
                    assert(dv.skip(idx as int).first() == dv[idx as int]);
                }
                return Some(owner.clone());
            },
            _ => {},
        }
        proof {
            assert(dv.skip(idx as int).first() == dv[idx as int]);
            assert(dv.skip(idx as int).drop_first() =~= dv.skip(idx as int + 1));
        }
    }
    proof {
        assert(dv.skip(n as int) =~= Seq::<TxInputV>::empty());
    }
    None
}

/// The gas reported by the script-result receipts, as a mathematical sum.
pub open spec fn sum_gas(rs: Seq<ReceiptV>) -> int
    decreases rs.len(),
{
    if rs.len() == 0 {
        0
    } else {
        sum_gas(rs.drop_last()) + (match rs.last() {
            ReceiptV::ScriptResult { gas_used } => gas_used as int,
            _ => 0,
        })
    }
}

pub proof fn lemma_sum_gas_nonneg(rs: Seq<ReceiptV>)
    ensures
        sum_gas(rs) >= 0,
    decreases rs.len(),
{
    if rs.len() > 0 {
        lemma_sum_gas_nonneg(rs.drop_last());
    }
}

/// A prefix never reports more gas than the whole.
pub proof fn lemma_sum_gas_prefix(rs: Seq<ReceiptV>, j: int)
    requires
        0 <= j <= rs.len(),
    ensures
        sum_gas(rs.take(j)) <= sum_gas(rs),
    decreases rs.len() - j,
{
    if j == rs.len() {
        assert(rs.take(j) =~= rs);
    } else {
        assert(rs.take(j + 1).drop_last() =~= rs.take(j));
        assert(rs.take(j + 1).last() == rs[j]);
        lemma_sum_gas_prefix(rs, j + 1);
    }
}

/// Sums gas over the script-result receipts; `None` reports that the sum
/// does not fit in a machine word.
pub fn script_gas_used_checked(receipts: &Vec<Receipt>) -> (r: Option<u64>)
    ensures
        match r {
            Some(g) => g as int == sum_gas(receipts.deep_view()) && sum_gas(receipts.deep_view())
                <= u64::MAX,
            None => sum_gas(receipts.deep_view()) > u64::MAX,
        },
{
    let ghost dv = receipts.deep_view();
    let mut acc: u64 = 0;
    proof {
        assert(dv.take(0) =~= Seq::<ReceiptV>::empty());
    }
    let n = receipts.len();
    for idx in 0..n
        invariant
            n == receipts.len(),
            dv == receipts.deep_view(),
            acc as int == sum_gas(dv.take(idx as int)),
    {
        proof {
            assert(dv.take(idx as int + 1).drop_last() =~= dv.take(idx as int));
            assert(dv.take(idx as int + 1).last() == dv[idx as int]);
        }
        match &receipts[idx] {
            Receipt::ScriptResult { gas_used } => {
                let g = *gas_used;
                if g > u64::MAX - acc {
                    proof {
                        lemma_sum_gas_prefix(dv, idx as int + 1);
                    }
                    return None;
                }
                acc = acc + g;
            },
            _ => {},
        }
    }
    proof {
        assert(dv.take(n as int) =~= dv);
    }
    Some(acc)
}

/// Sums gas over the script-result receipts, for callers that know the sum
/// fits.
pub fn script_gas_used(receipts: &Vec<Receipt>) -> (r: u64)
    requires
        sum_gas(receipts.deep_view()) <= u64::MAX,
    ensures
        r as int == sum_gas(receipts.deep_view()),
{
    match script_gas_used_checked(receipts) {
        Some(g) => g,
        None => {
            proof {
                assert(false);
            }
            0
        },
    }
}

/// How a resolved status maps to the stored one.
pub open spec fn status_of(s: TxResolutionV) -> TxStatus {
    if s is Success {
        TxStatus::Success
    } else {
        TxStatus::Failed
    }
}

/// The failure reason kept with the stored status; empty on success.
pub open spec fn reason_of(s: TxResolutionV) -> Seq<char> {
    match s {
        TxResolutionV::Failure { reason } => reason,
        _ => Seq::empty(),
    }
}

/// Splits a resolved status into the stored status and reason.
pub fn decode_status(s: &TxResolution) -> (r: (TxStatus, String))
    requires
        resolution_ok(s@),
    ensures
        r.0 == status_of(s@),
        r.1@ == reason_of(s@),
{
    match s {
        TxResolution::Success => (TxStatus::Success, String::new()),
        TxResolution::Failure { reason } => (TxStatus::Failed, reason.clone()),
        _ => {
            proof {
                assert(false);
            }
            (TxStatus::Failed, String::new())
        },
    }
}

/// Whether any output is contract-typed or contract-creation-typed.
pub open spec fn spec_has_contract_output(outputs: Seq<TxOutputV>) -> bool {
    exists|i: int| 0 <= i < outputs.len() && is_contractish_output(outputs[i])
}

pub fn has_contract_output(outputs: &Vec<TxOutput>) -> (r: bool)
    ensures
        r == spec_has_contract_output(outputs.deep_view()),
{
    let ghost dv = outputs.deep_view();
    let n = outputs.len();
    for idx in 0..n
        invariant
            n == outputs.len(),
            dv == outputs.deep_view(),
            forall|j: int| 0 <= j < idx ==> !is_contractish_output(dv[j]),
    {
        match &outputs[idx] {
            TxOutput::Contract => {
                assert(is_contractish_output(dv[idx as int]));
                return true;
            },
            TxOutput::ContractCreated { .. } => {
                assert(is_contractish_output(dv[idx as int]));
                return true;
            },
            _ => {},
        }
    }
    false
}

/// Receiver, amount and asset of a contract call, resolved from the first
/// call or transfer receipt: a call reports its callee, a transfer the
/// contract it leaves.
pub open spec fn spec_call_resolution(receipts: Seq<ReceiptV>) -> (Option<u64>, Option<Seq<char>>, Seq<
    char,
>) {
    match find_first(receipts, call_or_transfer_pred()) {
        Some(ReceiptV::Call { to, amount, asset_id, .. }) => (Some(amount), Some(asset_id), to),
        Some(ReceiptV::Transfer { id, amount, asset_id, .. }) => (Some(amount), Some(asset_id), id),
        _ => (None, None, Seq::empty()),
    }
}

pub fn resolve_call_receipt(receipts: &Vec<Receipt>) -> (r: (Option<u64>, Option<String>, String))
    ensures
        r.0 == spec_call_resolution(receipts.deep_view()).0,
        r.1.deep_view() == spec_call_resolution(receipts.deep_view()).1,
        r.2@ == spec_call_resolution(receipts.deep_view()).2,
{
    let ghost dv = receipts.deep_view();
    proof {
        assert(dv.skip(0) =~= dv);
    }
    let n = receipts.len();
    for idx in 0..n
        invariant
            n == receipts.len(),
            dv == receipts.deep_view(),
            find_first(dv, call_or_transfer_pred()) == find_first(
                dv.skip(idx as int),
                call_or_transfer_pred(),
            ),
    {
        proof {
            assert(dv.skip(idx as int).first() == dv[idx as int]);
        }
        match &receipts[idx] {
            Receipt::Call { to, amount, asset_id, .. } => {
                return (Some(*amount), Some(asset_id.clone()), to.clone());
            },
            Receipt::Transfer { id, amount, asset_id, .. } => {
                return (Some(*amount), Some(asset_id.clone()), id.clone());
            },
            _ => {},
        }
        proof {
            assert(dv.skip(idx as int).drop_first() =~= dv.skip(idx as int + 1));
        }
    }
    proof {
        assert(dv.skip(n as int) =~= Seq::<ReceiptV>::empty());
    }
    (None, None, String::new())
}

/// Receiver, amount and asset of a plain transfer, resolved from the first
/// coin, change or variable output; unset when there is none.
pub open spec fn spec_transfer_resolution(outputs: Seq<TxOutputV>) -> (Option<u64>, Option<
    Seq<char>,
>, Seq<char>) {
    match find_first(outputs, coin_like_output_pred()) {
        Some(o) => (Some(output_amount(o)), Some(output_asset_id(o)), output_to(o)),
        None => (None, None, Seq::empty()),
    }
}

pub fn resolve_transfer_output(outputs: &Vec<TxOutput>) -> (r: (Option<u64>, Option<String>, String))
    ensures
        r.0 == spec_transfer_resolution(outputs.deep_view()).0,
        r.1.deep_view() == spec_transfer_resolution(outputs.deep_view()).1,
        r.2@ == spec_transfer_resolution(outputs.deep_view()).2,
{
    let ghost dv = outputs.deep_view();
    proof {
        assert(dv.skip(0) =~= dv);
    }
    let n = outputs.len();
    for idx in 0..n
        invariant
            n == outputs.len(),
            dv == outputs.deep_view(),
            find_first(dv, coin_like_output_pred()) == find_first(
                dv.skip(idx as int),
                coin_like_output_pred(),
            ),
    {
        proof {
            assert(dv.skip(idx as int).first() == dv[idx as int]);
        }
        match &outputs[idx] {
            TxOutput::Coin { to, amount, asset_id } => {
                return (Some(*amount), Some(asset_id.clone()), to.clone());
            },
            TxOutput::Change { to, amount, asset_id } => {
                return (Some(*amount), Some(asset_id.clone()), to.clone());
            },
            TxOutput::Variable { to, amount, asset_id } => {
                return (Some(*amount), Some(asset_id.clone()), to.clone());
            },
            _ => {},
        }
        proof {
            assert(dv.skip(idx as int).drop_first() =~= dv.skip(idx as int + 1));
        }
    }
    proof {
        assert(dv.skip(n as int) =~= Seq::<TxOutputV>::empty());
    }
    (None, None, String::new())
}

/// The response of a fetched body; meaningful only when one is present.
pub open spec fn response_of(b: BlockBodyV) -> TransactionResponseV
    recommends
        b.response is Some,
{
    match b.response {
        Some(r) => r,
        None => arbitrary(),
    }
}

pub open spec fn body_is_create(b: BlockBodyV) -> bool {
    match b.response {
        Some(r) => r.transaction is Create,
        None => false,
    }
}

pub open spec fn body_is_script(b: BlockBodyV) -> bool {
    match b.response {
        Some(r) => r.transaction is Script,
        None => false,
    }
}

pub open spec fn body_is_mint(b: BlockBodyV) -> bool {
    match b.response {
        Some(r) => r.transaction is Mint,
        None => false,
    }
}

pub open spec fn create_of(b: BlockBodyV) -> CreateTxV
    recommends
        body_is_create(b),
{
    match response_of(b).transaction {
        ChainTransactionV::Create(c) => c,
        _ => arbitrary(),
    }
}

pub open spec fn script_of(b: BlockBodyV) -> ScriptTxV
    recommends
        body_is_script(b),
{
    match response_of(b).transaction {
        ChainTransactionV::Script(s) => s,
        _ => arbitrary(),
    }
}

pub open spec fn mint_of(b: BlockBodyV) -> MintTxV
    recommends
        body_is_mint(b),
{
    match response_of(b).transaction {
        ChainTransactionV::Mint(m) => m,
        _ => arbitrary(),
    }
}

pub open spec fn body_status(b: BlockBodyV) -> TxResolutionV
    recommends
        b.response is Some,
{
    response_of(b).status
}

/// What the decoder demands of a deploy: a resolved status, a signed coin
/// input to attribute it to, the declared bytecode witness present, the gas
/// sum within a machine word, and output indexes that fit the key format.
pub open spec fn create_ok(b: BlockBodyV) -> bool
    recommends
        body_is_create(b),
{
    let c = create_of(b);
    &&& resolution_ok(body_status(b))
    &&& spec_deploy_sender(c.inputs) is Some
    &&& (c.bytecode_witness_index as int) < c.witnesses.len()
    &&& sum_gas(b.receipts) <= u64::MAX
    &&& c.outputs.len() <= 256
}

/// What the decoder demands of a script transaction.
pub open spec fn script_ok(b: BlockBodyV) -> bool
    recommends
        body_is_script(b),
{
    let s = script_of(b);
    &&& resolution_ok(body_status(b))
    &&& spec_call_sender(s.inputs) is Some
    &&& sum_gas(b.receipts) <= u64::MAX
    &&& s.outputs.len() <= 256
}

/// What the decoder demands of a mint.
pub open spec fn mint_ok(b: BlockBodyV) -> bool
    recommends
        body_is_mint(b),
{
    mint_of(b).outputs.len() <= 256
}

pub open spec fn body_ok(b: BlockBodyV) -> bool {
    &&& (body_is_create(b) ==> create_ok(b))
    &&& (body_is_script(b) ==> script_ok(b))
    &&& (body_is_mint(b) ==> mint_ok(b))
}

pub open spec fn deploys_ok(bodies: Seq<BlockBodyV>) -> bool {
    forall|i: int| 0 <= i < bodies.len() && body_is_create(#[trigger] bodies[i]) ==> create_ok(
        bodies[i],
    )
}

pub open spec fn calls_ok(bodies: Seq<BlockBodyV>) -> bool {
    forall|i: int| 0 <= i < bodies.len() && body_is_script(#[trigger] bodies[i]) ==> script_ok(
        bodies[i],
    )
}

pub open spec fn batch_ok(bodies: Seq<BlockBodyV>) -> bool {
    forall|i: int| 0 <= i < bodies.len() ==> body_ok(#[trigger] bodies[i])
}

/// The records a deploy decodes to: one normalized transaction and one
/// contract row, the bytecode hex-encoded from the declared witness.
pub open spec fn spec_deploy_pair(h: HeaderV, b: BlockBodyV) -> (TransactionV, ContractV)
    recommends
        body_is_create(b),
        create_ok(b),
{
    let c = create_of(b);
    let st = body_status(b);
    let sender = match spec_deploy_sender(c.inputs) {
        Some(s) => s,
        None => Seq::empty(),
    };
    (
        TransactionV {
            id: b.tx_hash,
            height: h.height,
            da_height: h.da_height,
            block_hash: h.id,
            tx_type: Some(TxType::Deploy),
            gas_limit: c.gas_limit,
            gas_price: c.gas_price,
            gas_used: sum_gas(b.receipts) as u64,
            timestamp: h.time,
            sender: Some(sender),
            status: status_of(st),
            reason: reason_of(st),
            input: c.inputs,
            output: c.outputs,
            receipts: b.receipts,
        },
        ContractV {
            contract_hash: b.tx_hash,
            transaction_id: b.tx_hash,
            sender: sender,
            bytecode: hex_of(c.witnesses[c.bytecode_witness_index as int]),
            bytecoin_length: c.bytecode_witness_index as u64,
            storage_slots: c.storage_slots,
            timestamp: h.time,
        },
    )
}

/// Decodes one deploy into its transaction and contract records.
pub fn decode_create(header: &Header, b: &BlockBody) -> (r: (Transaction, Contract))
    requires
        body_is_create(b@),
        create_ok(b@),
    ensures
        r.0@ == spec_deploy_pair(header@, b@).0,
        r.1@ == spec_deploy_pair(header@, b@).1,
{
    let resp = match &b.response {
        Some(rr) => rr,
        None => unreached(),
    };
    let c = match &resp.transaction {
        ChainTransaction::Create(c) => c,
        _ => unreached(),
    };
    let sender = match find_sender(c) {
        Some(s) => s,
        None => unreached(),
    };
    let (status, reason) = decode_status(&resp.status);
    let gas_used = script_gas_used(&b.receipts);
    proof {
        lemma_sum_gas_nonneg(b.receipts.deep_view());
        assert(c.witnesses.deep_view()[c@.bytecode_witness_index as int] =~= c.witnesses@[
            c@.bytecode_witness_index as int]@);
    }
    let bytecode = hex_encode(c.witnesses[c.bytecode_witness_index as usize].as_slice());
    let tx = Transaction {
        id: b.tx_hash.clone(),
        height: header.height,
        da_height: header.da_height,
        block_hash: header.id.clone(),
        tx_type: Some(TxType::Deploy),
        gas_limit: c.gas_limit,
        gas_price: c.gas_price,
        gas_used,
        timestamp: header.time,
        sender: Some(sender.clone()),
        status,
        reason,
        input: clone_inputs(&c.inputs),
        output: clone_outputs(&c.outputs),
        receipts: clone_receipts(&b.receipts),
    };
    let contract = Contract {
        contract_hash: b.tx_hash.clone(),
        transaction_id: b.tx_hash.clone(),
        sender,
        bytecode,
        bytecoin_length: c.bytecode_witness_index as u64,
        storage_slots: clone_storage_slots(&c.storage_slots),
        timestamp: header.time,
    };
    proof {
        assert(tx@ =~= spec_deploy_pair(header@, b@).0);
        assert(contract@ =~= spec_deploy_pair(header@, b@).1);
    }
    (tx, contract)
}

/// The records a script transaction decodes to: one normalized transaction
/// and one call row. A contract-typed output classifies it as a contract
/// call, resolved from the first call or transfer receipt; otherwise it is a
/// plain transfer, resolved from the first value-bearing output. Script
/// payloads ride along hex-encoded: always for a contract call, only when
/// non-empty for a transfer.
pub open spec fn spec_call_pair(h: HeaderV, b: BlockBodyV) -> (TransactionV, CallV)
    recommends
        body_is_script(b),
        script_ok(b),
{
    let s = script_of(b);
    let st = body_status(b);
    let sender = match spec_call_sender(s.inputs) {
        Some(x) => x,
        None => Seq::empty(),
    };
    let contract_call = spec_has_contract_output(s.outputs);
    let res = if contract_call {
        spec_call_resolution(b.receipts)
    } else {
        spec_transfer_resolution(s.outputs)
    };
    let payload = if contract_call || s.script.len() > 0 {
        Some(hex_of(s.script))
    } else {
        None
    };
    let payload_data = if contract_call || s.script_data.len() > 0 {
        Some(hex_of(s.script_data))
    } else {
        None
    };
    (
        TransactionV {
            id: b.tx_hash,
            height: h.height,
            da_height: h.da_height,
            block_hash: h.id,
            tx_type: Some(TxType::Call),
            gas_limit: s.gas_limit,
            gas_price: s.gas_price,
            gas_used: sum_gas(b.receipts) as u64,
            timestamp: h.time,
            sender: Some(sender),
            status: status_of(st),
            reason: reason_of(st),
            input: s.inputs,
            output: s.outputs,
            receipts: b.receipts,
        },
        CallV {
            transaction_id: b.tx_hash,
            height: h.height,
            da_height: h.da_height,
            block_hash: h.id,
            call_type: if contract_call {
                CallType::Contract
            } else {
                CallType::Transaction
            },
            gas_limit: s.gas_limit,
            gas_price: s.gas_price,
            gas_used: sum_gas(b.receipts) as u64,
            sender: sender,
            receiver: res.2,
            amount: res.0,
            asset_id: res.1,
            payload: payload,
            payload_data: payload_data,
            timestamp: h.time,
        },
    )
}

/// Decodes one script transaction into its transaction and call records.
pub fn decode_script(header: &Header, b: &BlockBody) -> (r: (Transaction, Call))
    requires
        body_is_script(b@),
        script_ok(b@),
    ensures
        r.0@ == spec_call_pair(header@, b@).0,
        r.1@ == spec_call_pair(header@, b@).1,
{
    let resp = match &b.response {
        Some(rr) => rr,
        None => unreached(),
    };
    let s = match &resp.transaction {
        ChainTransaction::Script(s) => s,
        _ => unreached(),
    };
    let sender = match find_script_sender(s) {
        Some(x) => x,
        None => unreached(),
    };
    let (status, reason) = decode_status(&resp.status);
    let gas_used = script_gas_used(&b.receipts);
    proof {
        lemma_sum_gas_nonneg(b.receipts.deep_view());
    }
    let contract_call = has_contract_output(&s.outputs);
    let (amount, asset_id, receiver) = if contract_call {
        resolve_call_receipt(&b.receipts)
    } else {
        resolve_transfer_output(&s.outputs)
    };
    let payload = if contract_call || s.script.len() > 0 {
        Some(hex_encode(s.script.as_slice()))
    } else {
        None
    };
    let payload_data = if contract_call || s.script_data.len() > 0 {
        Some(hex_encode(s.script_data.as_slice()))
    } else {
        None
    };
    let tx = Transaction {
        id: b.tx_hash.clone(),
        height: header.height,
        da_height: header.da_height,
        block_hash: header.id.clone(),
        tx_type: Some(TxType::Call),
        gas_limit: s.gas_limit,
        gas_price: s.gas_price,
        gas_used,
        timestamp: header.time,
        sender: Some(sender.clone()),
        status,
        reason,
        input: clone_inputs(&s.inputs),
        output: clone_outputs(&s.outputs),
        receipts: clone_receipts(&b.receipts),
    };
    let call = Call {
        transaction_id: b.tx_hash.clone(),
        height: header.height,
        da_height: header.da_height,
        block_hash: header.id.clone(),
        call_type: if contract_call {
            CallType::Contract
        } else {
            CallType::Transaction
        },
        gas_limit: s.gas_limit,
        gas_price: s.gas_price,
        gas_used,
        sender,
        receiver,
        amount,
        asset_id,
        payload,
        payload_data,
        timestamp: header.time,
    };
    proof {
        assert(tx@ =~= spec_call_pair(header@, b@).0);
        assert(call@ =~= spec_call_pair(header@, b@).1);
    }
    (tx, call)
}

pub open spec fn deploy_step(h: HeaderV) -> spec_fn(BlockBodyV) -> Option<(TransactionV, ContractV)> {
    |b: BlockBodyV|
        if body_is_create(b) {
            Some(spec_deploy_pair(h, b))
        } else {
            None
        }
}

/// The deploy records of a batch, one pair per create-variant body, in order.
pub open spec fn spec_deploys(h: HeaderV, bodies: Seq<BlockBodyV>) -> Seq<(TransactionV, ContractV)> {
    bodies.filter_map(deploy_step(h))
}

/// Decodes every deploy of the batch. A genesis block reports no
/// transactions and yields nothing.
pub fn deploy_contract_transactions(header: &Header, bodies: &Vec<BlockBody>) -> (r: Vec<
    (Transaction, Contract),
>)
    requires
        deploys_ok(bodies.deep_view()),
    ensures
        r.deep_view() == if header@.transactions_count == 0 {
            Seq::<(TransactionV, ContractV)>::empty()
        } else {
            spec_deploys(header@, bodies.deep_view())
        },
{
    let mut out: Vec<(Transaction, Contract)> = Vec::new();
    if header.transactions_count == 0 {
        proof {
            assert(out.deep_view() =~= Seq::<(TransactionV, ContractV)>::empty());
        }
        return out;
    }
    let ghost dv = bodies.deep_view();
    proof {
        assert(dv.take(0) =~= Seq::<BlockBodyV>::empty());
        assert(out.deep_view() =~= spec_deploys(header@, dv.take(0)));
    }
    let n = bodies.len();
    for i in 0..n
        invariant
            n == bodies.len(),
            dv == bodies.deep_view(),
            deploys_ok(dv),
            out.deep_view() == spec_deploys(header@, dv.take(i as int)),
    {
        let ghost prev = out.deep_view();
        proof {
            assert(bodies@[i as int].deep_view() == dv[i as int]);
        }
        let mut pushed = false;
        match &bodies[i].response {
            Some(resp) => match &resp.transaction {
                ChainTransaction::Create(_) => {
                    proof {
                        assert(body_is_create(dv[i as int]));
                    }
                    let pair = decode_create(header, &bodies[i]);
                    out.push(pair);
                    pushed = true;
                },
                _ => {},
            },
            None => {},
        }
        proof {
            dv.lemma_filter_map_take_succ(deploy_step(header@), i as int);
            if pushed {
                assert(out.deep_view() =~= prev + seq![
                    (spec_deploy_pair(header@, dv[i as int]).0, spec_deploy_pair(
                        header@,
                        dv[i as int],
                    ).1),
                ]);
            } else {
                assert(!body_is_create(dv[i as int]));
            }
            assert(out.deep_view() =~= spec_deploys(header@, dv.take(i as int + 1)));
        }
    }
    proof {
        assert(dv.take(n as int) =~= dv);
    }
    out
}

pub open spec fn call_step(h: HeaderV) -> spec_fn(BlockBodyV) -> Option<(TransactionV, CallV)> {
    |b: BlockBodyV|
        if body_is_script(b) {
            Some(spec_call_pair(h, b))
        } else {
            None
        }
}

/// The call records of a batch, one pair per script-variant body, in order.
pub open spec fn spec_calls(h: HeaderV, bodies: Seq<BlockBodyV>) -> Seq<(TransactionV, CallV)> {
    bodies.filter_map(call_step(h))
}

/// Decodes every script transaction of the batch. A genesis block reports
/// no transactions and yields nothing.
pub fn calls_transactions(header: &Header, bodies: &Vec<BlockBody>) -> (r: Vec<(Transaction, Call)>)
    requires
        calls_ok(bodies.deep_view()),
    ensures
        r.deep_view() == if header@.transactions_count == 0 {
            Seq::<(TransactionV, CallV)>::empty()
        } else {
            spec_calls(header@, bodies.deep_view())
        },
{
    let mut out: Vec<(Transaction, Call)> = Vec::new();
    if header.transactions_count == 0 {
        proof {
            assert(out.deep_view() =~= Seq::<(TransactionV, CallV)>::empty());
        }
        return out;
    }
    let ghost dv = bodies.deep_view();
    proof {
        assert(dv.take(0) =~= Seq::<BlockBodyV>::empty());
        assert(out.deep_view() =~= spec_calls(header@, dv.take(0)));
    }
    let n = bodies.len();
    for i in 0..n
        invariant
            n == bodies.len(),
            dv == bodies.deep_view(),
            calls_ok(dv),
            out.deep_view() == spec_calls(header@, dv.take(i as int)),
    {
        let ghost prev = out.deep_view();
        proof {
            assert(bodies@[i as int].deep_view() == dv[i as int]);
        }
        let mut pushed = false;
        match &bodies[i].response {
            Some(resp) => match &resp.transaction {
                ChainTransaction::Script(_) => {
                    proof {
                        assert(body_is_script(dv[i as int]));
                    }
                    let pair = decode_script(header, &bodies[i]);
                    out.push(pair);
                    pushed = true;
                },
                _ => {},
            },
            None => {},
        }
        proof {
            dv.lemma_filter_map_take_succ(call_step(header@), i as int);
            if pushed {
                assert(out.deep_view() =~= prev + seq![
                    (spec_call_pair(header@, dv[i as int]).0, spec_call_pair(header@, dv[i as int]).1),
                ]);
            } else {
                assert(!body_is_script(dv[i as int]));
            }
            assert(out.deep_view() =~= spec_calls(header@, dv.take(i as int + 1)));
        }
    }
    proof {
        assert(dv.take(n as int) =~= dv);
    }
    out
}

/// What a found element of `find_first` satisfies, and what its absence
/// means.
pub proof fn lemma_find_first_props<A>(s: Seq<A>, p: spec_fn(A) -> bool)
    ensures
        match find_first(s, p) {
            Some(e) => p(e) && s.contains(e),
            None => forall|i: int| 0 <= i < s.len() ==> !p(#[trigger] s[i]),
        },
    decreases s.len(),
{
    if s.len() > 0 {
        if p(s.first()) {
            assert(s.contains(s.first()));
        } else {
            lemma_find_first_props(s.drop_first(), p);
            match find_first(s.drop_first(), p) {
                Some(e) => {
                    let j = choose|j: int| 0 <= j < s.drop_first().len() && s.drop_first()[j] == e;
                    assert(s[j + 1] == e);
                    assert(s.contains(e));
                },
                None => {
                    assert forall|i: int| 0 <= i < s.len() implies !p(#[trigger] s[i]) by {
                        if i > 0 {
                            assert(s.drop_first()[i - 1] == s[i]);
                        }
                    }
                },
            }
        }
    }
}

/// The block row a header alone determines; the coinbase summary is filled
/// in separately.
pub open spec fn spec_block_of_header(h: HeaderV) -> BlockV {
    BlockV {
        id: h.id,
        height: h.height,
        da_height: h.da_height,
        application_hash: h.application_hash,
        output_messages_root_hash: h.output_messages_root,
        transactions_root: h.transactions_root,
        prev_root: h.prev_root,
        coinbase: None,
        coinbase_hash: None,
        coinbase_amount: None,
        transaction_count: h.transactions_count,
        output_message_count: h.output_messages_count,
        timestamp: h.time,
    }
}

pub fn init_block_by_with_header(header: &Header) -> (r: Block)
    ensures
        r@ == spec_block_of_header(header@),
{
    let r = Block {
        id: header.id.clone(),
        height: header.height,
        da_height: header.da_height,
        application_hash: header.application_hash.clone(),
        output_messages_root_hash: header.output_messages_root.clone(),
        transactions_root: header.transactions_root.clone(),
        prev_root: header.prev_root.clone(),
        coinbase: None,
        coinbase_hash: None,
        coinbase_amount: None,
        transaction_count: header.transactions_count,
        output_message_count: header.output_messages_count,
        timestamp: header.time,
    };
    proof {
        assert(r@ =~= spec_block_of_header(header@));
    }
    r
}

pub open spec fn mint_body_pred() -> spec_fn(BlockBodyV) -> bool {
    |b: BlockBodyV| body_is_mint(b)
}

/// The first mint-variant body of the batch, if any: the block's coinbase
/// transaction.
pub open spec fn spec_find_mint(bodies: Seq<BlockBodyV>) -> Option<BlockBodyV> {
    find_first(bodies, mint_body_pred())
}

pub fn coinbase_pick<'a>(bodies: &'a Vec<BlockBody>) -> (r: Option<&'a BlockBody>)
    ensures
        r.deep_view() == spec_find_mint(bodies.deep_view()),
{
    let ghost dv = bodies.deep_view();
    proof {
        assert(dv.skip(0) =~= dv);
    }
    let n = bodies.len();
    for i in 0..n
        invariant
            n == bodies.len(),
            dv == bodies.deep_view(),
            find_first(dv, mint_body_pred()) == find_first(dv.skip(i as int), mint_body_pred()),
    {
        proof {
            assert(bodies@[i as int].deep_view() == dv[i as int]);
            assert(dv.skip(i as int).first() == dv[i as int]);
        }
        match &bodies[i].response {
            Some(resp) => match &resp.transaction {
                ChainTransaction::Mint(_) => {
                    proof {
                        assert(body_is_mint(dv[i as int]));
                    }
                    return Some(&bodies[i]);
                },
                _ => {},
            },
            None => {},
        }
        proof {
            assert(dv.skip(i as int).drop_first() =~= dv.skip(i as int + 1));
        }
    }
    proof {
        assert(dv.skip(n as int) =~= Seq::<BlockBodyV>::empty());
    }
    None
}

/// The coinbase summary of a mint: address and amount from its first
/// coin-type output, absent when the mint has none.
pub open spec fn spec_coinbase(h: HeaderV, b: BlockBodyV) -> CoinbaseV
    recommends
        body_is_mint(b),
{
    let m = mint_of(b);
    let cb = find_first(m.outputs, coin_output_pred());
    CoinbaseV {
        id: b.tx_hash,
        height: h.height,
        da_height: h.da_height,
        block_hash: h.id,
        amount: match cb {
            Some(o) => Some(output_amount(o)),
            None => None,
        },
        coinbase: match cb {
            Some(o) => Some(output_to(o)),
            None => None,
        },
        timestamp: Some(h.time),
    }
}

/// The first plain coin output's amount and recipient.
fn find_coin_output(outputs: &Vec<TxOutput>) -> (r: Option<(u64, String)>)
    ensures
        ({
            let f = find_first(outputs.deep_view(), coin_output_pred());
            match (r, f) {
                (Some(p), Some(o)) => p.0 == output_amount(o) && p.1@ == output_to(o),
                (None, None) => true,
                _ => false,
            }
        }),
{
    let ghost dv = outputs.deep_view();
    proof {
        assert(dv.skip(0) =~= dv);
    }
    let n = outputs.len();
    for i in 0..n
        invariant
            n == outputs.len(),
            dv == outputs.deep_view(),
            find_first(dv, coin_output_pred()) == find_first(dv.skip(i as int), coin_output_pred()),
    {
        proof {
            assert(dv.skip(i as int).first() == dv[i as int]);
        }
        match &outputs[i] {
            TxOutput::Coin { to, amount, .. } => {
                return Some((*amount, to.clone()));
            },
            _ => {},
        }
        proof {
            assert(dv.skip(i as int).drop_first() =~= dv.skip(i as int + 1));
        }
    }
    proof {
        assert(dv.skip(n as int) =~= Seq::<TxOutputV>::empty());
    }
    None
}

/// Decodes the coinbase summary of a mint body.
pub fn decode_coinbase(header: &Header, b: &BlockBody) -> (r: Coinbase)
    requires
        body_is_mint(b@),
    ensures
        r@ == spec_coinbase(header@, b@),
{
    let m = match &b.response {
        Some(resp) => match &resp.transaction {
            ChainTransaction::Mint(m) => m,
            _ => unreached(),
        },
        None => unreached(),
    };
    let cb = find_coin_output(&m.outputs);
    let (amount, coinbase) = match cb {
        Some((a, t)) => (Some(a), Some(t)),
        None => (None, None),
    };
    let r = Coinbase {
        id: b.tx_hash.clone(),
        height: header.height,
        da_height: header.da_height,
        block_hash: header.id.clone(),
        amount,
        coinbase,
        timestamp: Some(header.time),
    };
    proof {
        assert(r@ =~= spec_coinbase(header@, b@));
    }
    r
}

/// The block row with its coinbase summary filled in from the first mint
/// body, when the batch holds one.
pub open spec fn spec_block_with_coinbase(h: HeaderV, bodies: Seq<BlockBodyV>) -> BlockV {
    let base = spec_block_of_header(h);
    match spec_find_mint(bodies) {
        Some(b) => {
            let cbv = spec_coinbase(h, b);
            BlockV {
                id: base.id,
                height: base.height,
                da_height: base.da_height,
                application_hash: base.application_hash,
                output_messages_root_hash: base.output_messages_root_hash,
                transactions_root: base.transactions_root,
                prev_root: base.prev_root,
                coinbase: cbv.coinbase,
                coinbase_hash: Some(b.tx_hash),
                coinbase_amount: cbv.amount,
                transaction_count: base.transaction_count,
                output_message_count: base.output_message_count,
                timestamp: base.timestamp,
            }
        },
        None => base,
    }
}

/// The errors the persistence side reports; the decoder itself only raises
/// `DataProcessError`.
#[derive(Debug)]
pub enum BlockHandlerError {
    InsertHeaderDb(String),
    InsertTransactionDb(String),
    InsertContract(String),
    InsertCalls(String),
    InsertDb(String),
    GetPgSqlPoolFailed(String),
    DataProcessError(String),
}

/// The message reported for the first check a malformed body fails.
pub open spec fn body_violation_msg(b: BlockBodyV) -> Seq<char>
    recommends
        !body_ok(b),
{
    if body_is_create(b) {
        let c = create_of(b);
        if !resolution_ok(body_status(b)) {
            "unexpected transaction status"@
        } else if spec_deploy_sender(c.inputs) is None {
            "can't find coin sign"@
        } else if !((c.bytecode_witness_index as int) < c.witnesses.len()) {
            "get bytecode: unreachable"@
        } else if !(sum_gas(b.receipts) <= u64::MAX) {
            "gas used overflow"@
        } else {
            "too many outputs"@
        }
    } else if body_is_script(b) {
        let s = script_of(b);
        if !resolution_ok(body_status(b)) {
            "unexpected transaction status"@
        } else if spec_call_sender(s.inputs) is None {
            "can't find coin signer"@
        } else if !(sum_gas(b.receipts) <= u64::MAX) {
            "gas used overflow"@
        } else {
            "too many outputs"@
        }
    } else {
        "too many outputs"@
    }
}

pub open spec fn not_ok_pred() -> spec_fn(BlockBodyV) -> bool {
    |b: BlockBodyV| !body_ok(b)
}

/// The message for the first malformed body of the batch, if any.
pub open spec fn spec_batch_violation(bodies: Seq<BlockBodyV>) -> Option<Seq<char>> {
    match find_first(bodies, not_ok_pred()) {
        Some(b) => Some(body_violation_msg(b)),
        None => None,
    }
}

/// Checks one body against the decoder's data contract.
fn body_check(b: &BlockBody) -> (r: Option<String>)
    ensures
        match r {
            None => body_ok(b@),
            Some(m) => !body_ok(b@) && m@ == body_violation_msg(b@),
        },
{
    match &b.response {
        None => None,
        Some(resp) => match &resp.transaction {
            ChainTransaction::Create(c) => {
                match &resp.status {
                    TxResolution::Submitted => {
                        return Some(String::from_str("unexpected transaction status"));
                    },
                    TxResolution::SqueezedOut { .. } => {
                        return Some(String::from_str("unexpected transaction status"));
                    },
                    _ => {},
                }
                match find_sender(c) {
                    None => {
                        return Some(String::from_str("can't find coin sign"));
                    },
                    Some(_) => {},
                }
                if !((c.bytecode_witness_index as usize) < c.witnesses.len()) {
                    return Some(String::from_str("get bytecode: unreachable"));
                }
                match script_gas_used_checked(&b.receipts) {
                    None => {
                        return Some(String::from_str("gas used overflow"));
                    },
                    Some(_) => {},
                }
                if c.outputs.len() > 256 {
                    return Some(String::from_str("too many outputs"));
                }
                None
            },
            ChainTransaction::Script(s) => {
                match &resp.status {
                    TxResolution::Submitted => {
                        return Some(String::from_str("unexpected transaction status"));
                    },
                    TxResolution::SqueezedOut { .. } => {
                        return Some(String::from_str("unexpected transaction status"));
                    },
                    _ => {},
                }
                match find_script_sender(s) {
                    None => {
                        return Some(String::from_str("can't find coin signer"));
                    },
                    Some(_) => {},
                }
                match script_gas_used_checked(&b.receipts) {
                    None => {
                        return Some(String::from_str("gas used overflow"));
                    },
                    Some(_) => {},
                }
                if s.outputs.len() > 256 {
                    return Some(String::from_str("too many outputs"));
                }
                None
            },
            ChainTransaction::Mint(m) => {
                if m.outputs.len() > 256 {
                    return Some(String::from_str("too many outputs"));
                }
                None
            },
        },
    }
}

pub open spec fn pair_tx_of_deploy() -> spec_fn((TransactionV, ContractV)) -> TransactionV {
    |p: (TransactionV, ContractV)| p.0
}

pub open spec fn pair_contract_of_deploy() -> spec_fn((TransactionV, ContractV)) -> ContractV {
    |p: (TransactionV, ContractV)| p.1
}

pub open spec fn pair_tx_of_call() -> spec_fn((TransactionV, CallV)) -> TransactionV {
    |p: (TransactionV, CallV)| p.0
}

pub open spec fn pair_call_of_call() -> spec_fn((TransactionV, CallV)) -> CallV {
    |p: (TransactionV, CallV)| p.1
}

/// All normalized transactions of the batch: the deploys' first, then the
/// script transactions'.
pub open spec fn spec_batch_transactions(h: HeaderV, bodies: Seq<BlockBodyV>) -> Seq<TransactionV> {
    if h.transactions_count == 0 {
        Seq::empty()
    } else {
        spec_deploys(h, bodies).map_values(pair_tx_of_deploy()) + spec_calls(h, bodies).map_values(
            pair_tx_of_call(),
        )
    }
}

pub open spec fn spec_batch_contracts(h: HeaderV, bodies: Seq<BlockBodyV>) -> Seq<ContractV> {
    if h.transactions_count == 0 {
        Seq::empty()
    } else {
        spec_deploys(h, bodies).map_values(pair_contract_of_deploy())
    }
}

pub open spec fn spec_batch_callrecords(h: HeaderV, bodies: Seq<BlockBodyV>) -> Seq<CallV> {
    if h.transactions_count == 0 {
        Seq::empty()
    } else {
        spec_calls(h, bodies).map_values(pair_call_of_call())
    }
}

/// Decodes one fetched block into everything the store keeps of it: the
/// block row with its coinbase summary, the coinbase row, the normalized
/// transactions, the contracts, the calls, and the asset-ledger deletes and
/// creates. Succeeds exactly when every body meets the decoder's data
/// contract; otherwise reports the first violation.
pub fn process(header: &Header, bodies: &Vec<BlockBody>) -> (r: Result<
    (Block, Option<Coinbase>, Vec<Transaction>, Vec<Contract>, Vec<Call>, (Vec<Assets>, Vec<Assets>)),
    BlockHandlerError,
>)
    ensures
        match r {
            Ok(out) => {
                &&& batch_ok(bodies.deep_view())
                &&& out.0@ == spec_block_with_coinbase(header@, bodies.deep_view())
                &&& out.1.deep_view() == (match spec_find_mint(bodies.deep_view()) {
                    Some(b) => Some(spec_coinbase(header@, b)),
                    None => None::<CoinbaseV>,
                })
                &&& out.2.deep_view() == spec_batch_transactions(header@, bodies.deep_view())
                &&& out.3.deep_view() == spec_batch_contracts(header@, bodies.deep_view())
                &&& out.4.deep_view() == spec_batch_callrecords(header@, bodies.deep_view())
                &&& out.5.0.deep_view() == with_height(
                    spec_batch_deletes(bodies.deep_view()),
                    header@.height,
                )
                &&& out.5.1.deep_view() == with_height(
                    spec_batch_creates(bodies.deep_view()),
                    header@.height,
                )
            },
            Err(e) => {
                &&& !batch_ok(bodies.deep_view())
                &&& (match e {
                    BlockHandlerError::DataProcessError(m) => Some(m@) == spec_batch_violation(
                        bodies.deep_view(),
                    ),
                    _ => false,
                })
            },
        },
{
    let ghost dv = bodies.deep_view();
    proof {
        assert(dv.skip(0) =~= dv);
    }
    let n = bodies.len();
    for i in 0..n
        invariant
            n == bodies.len(),
            dv == bodies.deep_view(),
            find_first(dv, not_ok_pred()) == find_first(dv.skip(i as int), not_ok_pred()),
            forall|j: int| 0 <= j < i ==> body_ok(#[trigger] dv[j]),
    {
        proof {
            assert(bodies@[i as int].deep_view() == dv[i as int]);
            assert(dv.skip(i as int).first() == dv[i as int]);
        }
        match body_check(&bodies[i]) {
            Some(m) => {
                proof {
                    assert(!body_ok(dv[i as int]));
                    assert(find_first(dv, not_ok_pred()) == Some(dv[i as int]));
                }
                return Err(BlockHandlerError::DataProcessError(m));
            },
            None => {},
        }
        proof {
            assert(dv.skip(i as int).drop_first() =~= dv.skip(i as int + 1));
        }
    }
    proof {
        assert(batch_ok(dv));
        assert forall|i: int| 0 <= i < dv.len() && body_is_create(#[trigger] dv[i]) implies create_ok(
            dv[i],
        ) by {
            assert(body_ok(dv[i]));
        }
        assert forall|i: int| 0 <= i < dv.len() && body_is_script(#[trigger] dv[i]) implies script_ok(
            dv[i],
        ) by {
            assert(body_ok(dv[i]));
        }
        assert forall|i: int| 0 <= i < dv.len() implies outputs_len_ok(#[trigger] dv[i]) by {
            assert(body_ok(dv[i]));
        }
    }
    let mut block = init_block_by_with_header(header);
    let coinbase: Option<Coinbase> = match coinbase_pick(bodies) {
        Some(b) => {
            proof {
                lemma_find_first_props(dv, mint_body_pred());
                assert(body_is_mint(b@));
            }
            let cb = decode_coinbase(header, b);
            block.coinbase_hash = Some(b.tx_hash.clone());
            block.coinbase = clone_opt_string(&cb.coinbase);
            block.coinbase_amount = cb.amount;
            Some(cb)
        },
        None => None,
    };
    proof {
        assert(block@ =~= spec_block_with_coinbase(header@, dv));
    }
    let deploys = deploy_contract_transactions(header, bodies);
    let calls_pairs = calls_transactions(header, bodies);
    let mut transactions: Vec<Transaction> = Vec::new();
    let mut contracts: Vec<Contract> = Vec::new();
    let mut calls: Vec<Call> = Vec::new();
    let ghost dpairs = deploys.deep_view();
    let ghost cpairs = calls_pairs.deep_view();
    let nd = deploys.len();
    proof {
        assert(transactions.deep_view() =~= dpairs.take(0).map_values(pair_tx_of_deploy()));
        assert(contracts.deep_view() =~= dpairs.take(0).map_values(pair_contract_of_deploy()));
    }
    for i in 0..nd
        invariant
            nd == deploys.len(),
            dpairs == deploys.deep_view(),
            transactions.deep_view() == dpairs.take(i as int).map_values(pair_tx_of_deploy()),
            contracts.deep_view() == dpairs.take(i as int).map_values(pair_contract_of_deploy()),
    {
        let ghost prev_t = transactions.deep_view();
        let ghost prev_c = contracts.deep_view();
        let pair = &deploys[i];
        transactions.push(pair.0.clone());
        contracts.push(pair.1.clone());
        proof {
            assert(deploys@[i as int].deep_view() == dpairs[i as int]);
            assert(transactions.deep_view() =~= prev_t.push(dpairs[i as int].0));
            assert(contracts.deep_view() =~= prev_c.push(dpairs[i as int].1));
            assert(dpairs.take(i as int + 1).map_values(pair_tx_of_deploy()) =~= prev_t.push(
                dpairs[i as int].0,
            ));
            assert(dpairs.take(i as int + 1).map_values(pair_contract_of_deploy()) =~= prev_c.push(
                dpairs[i as int].1,
            ));
        }
    }
    proof {
        assert(dpairs.take(nd as int) =~= dpairs);
    }
    let nc = calls_pairs.len();
    for i in 0..nc
        invariant
            nc == calls_pairs.len(),
            cpairs == calls_pairs.deep_view(),
            dpairs == deploys.deep_view(),
            transactions.deep_view() == dpairs.map_values(pair_tx_of_deploy()) + cpairs.take(
                i as int,
            ).map_values(pair_tx_of_call()),
            calls.deep_view() == cpairs.take(i as int).map_values(pair_call_of_call()),
    {
        let ghost prev_t = transactions.deep_view();
        let ghost prev_k = calls.deep_view();
        let pair = &calls_pairs[i];
        transactions.push(pair.0.clone());
        calls.push(pair.1.clone());
        proof {
            assert(calls_pairs@[i as int].deep_view() == cpairs[i as int]);
            assert(transactions.deep_view() =~= prev_t.push(cpairs[i as int].0));
            assert(calls.deep_view() =~= prev_k.push(cpairs[i as int].1));
            assert(dpairs.map_values(pair_tx_of_deploy()) + cpairs.take(i as int + 1).map_values(
                pair_tx_of_call(),
            ) =~= prev_t.push(cpairs[i as int].0));
            assert(cpairs.take(i as int + 1).map_values(pair_call_of_call()) =~= prev_k.push(
                cpairs[i as int].1,
            ));
        }
    }
    proof {
        assert(cpairs.take(nc as int) =~= cpairs);
        assert(transactions.deep_view() =~= spec_batch_transactions(header@, dv));
        assert(contracts.deep_view() =~= spec_batch_contracts(header@, dv));
        assert(calls.deep_view() =~= spec_batch_callrecords(header@, dv));
    }
    let asset_rows = assets_process(header, bodies);
    Ok((block, coinbase, transactions, contracts, calls, asset_rows))
}

/// Prefixes an address with `0x` unless it already starts so.
pub open spec fn spec_add_0x(s: Seq<char>) -> Seq<char> {
    if s.len() >= 2 && s[0] == '0' && s[1] == 'x' {
        s
    } else {
        seq!['0', 'x'] + s
    }
}

pub fn add_0x_prefix(addr: String) -> (r: String)
    ensures
        r@ == spec_add_0x(addr@),
{
    let len = addr.as_str().unicode_len();
    if len >= 2 {
        let c0 = addr.as_str().get_char(0);
        let c1 = addr.as_str().get_char(1);
        if c0 == '0' && c1 == 'x' {
            return addr;
        }
    }
    let mut r = String::from_str("0x");
    proof {
        reveal_strlit("0x");
        assert(r@ =~= seq!['0', 'x']);
    }
    r.append(addr.as_str());
    r
}

} // verus!
