//! The asset ledger extractor: derives "spend" and "create" transitions for
//! tracked UTXOs from the inputs and outputs of each transaction. The two
//! passes are independent and order-free; the store's merge upsert makes
//! them safe to apply in any order.

use vstd::prelude::*;
use vstd::seq_lib::*;
use vstd::string::StringExecFns;

use crate::hex_enc::{hex_encode, hex_of};
use crate::model::{input_asset_id, input_owner, input_utxo_id, is_coin_input, is_coin_like_output,
    output_amount, output_asset_id, output_to, BlockBody, BlockBodyV, ChainTransaction,
    ChainTransactionV, CreateTx, Header, MintTx, ScriptTx, TxInput, TxInputV, TxOutput, TxOutputV};
use crate::records::{AssetStatus, Assets, AssetsV};

verus! {

/// The deterministic UTXO identifier: the creating transaction's id followed
/// by the output index as two hex digits.
pub open spec fn spec_utxo_key(tx_id: Seq<char>, index: u8) -> Seq<char> {
    tx_id + hex_of(seq![index])
}

pub fn utxo_key(tx_id: &String, index: u8) -> (r: String)
    ensures
        r@ == spec_utxo_key(tx_id@, index),
{
    let mut b: Vec<u8> = Vec::new();
    b.push(index);
    proof {
        assert(b@ =~= seq![index]);
    }
    let h = hex_encode(b.as_slice());
    let mut r = tx_id.clone();
    r.append(h.as_str());
    r
}

/// The Deleted-transition a coin-type input yields: keyed by the consumed
/// UTXO, tagged with the spending transaction and the owner and asset the
/// input itself records.
pub open spec fn spend_step(tx_id: Seq<char>) -> spec_fn(TxInputV) -> Option<AssetsV> {
    |i: TxInputV|
        if is_coin_input(i) {
            Some(
                AssetsV {
                    assets_id: input_asset_id(i),
                    assets_utxo_id: input_utxo_id(i),
                    assets_owner: input_owner(i),
                    amount: 0,
                    block_height: 0,
                    create_height: 0,
                    delete_tx_hash: tx_id,
                    create_tx_hash: Seq::empty(),
                    asset_status: AssetStatus::Delete,
                },
            )
        } else {
            None
        }
}

pub open spec fn spec_deletes_of_tx(tx_id: Seq<char>, inputs: Seq<TxInputV>) -> Seq<AssetsV> {
    inputs.filter_map(spend_step(tx_id))
}

/// The Alive-creation a value-bearing output yields: keyed by the creating
/// transaction and the output's index, tagged with its owner, asset and
/// amount.
pub open spec fn create_step(tx_id: Seq<char>) -> spec_fn((int, TxOutputV)) -> Option<AssetsV> {
    |p: (int, TxOutputV)|
        if is_coin_like_output(p.1) {
            Some(
                AssetsV {
                    assets_id: output_asset_id(p.1),
                    assets_utxo_id: spec_utxo_key(tx_id, p.0 as u8),
                    assets_owner: output_to(p.1),
                    amount: output_amount(p.1),
                    block_height: 0,
                    create_height: 0,
                    delete_tx_hash: Seq::empty(),
                    create_tx_hash: tx_id,
                    asset_status: AssetStatus::Alive,
                },
            )
        } else {
            None
        }
}

pub open spec fn with_index(outputs: Seq<TxOutputV>) -> Seq<(int, TxOutputV)> {
    outputs.map(|i: int, o: TxOutputV| (i, o))
}

pub open spec fn spec_creates_of_tx(tx_id: Seq<char>, outputs: Seq<TxOutputV>) -> Seq<AssetsV> {
    with_index(outputs).filter_map(create_step(tx_id))
}

/// A mint creates value only through plain coin outputs.
pub open spec fn mint_create_step(tx_id: Seq<char>) -> spec_fn((int, TxOutputV)) -> Option<AssetsV> {
    |p: (int, TxOutputV)|
        if p.1 is Coin {
            Some(
                AssetsV {
                    assets_id: output_asset_id(p.1),
                    assets_utxo_id: spec_utxo_key(tx_id, p.0 as u8),
                    assets_owner: output_to(p.1),
                    amount: output_amount(p.1),
                    block_height: 0,
                    create_height: 0,
                    delete_tx_hash: Seq::empty(),
                    create_tx_hash: tx_id,
                    asset_status: AssetStatus::Alive,
                },
            )
        } else {
            None
        }
}

pub open spec fn spec_mint_creates(tx_id: Seq<char>, outputs: Seq<TxOutputV>) -> Seq<AssetsV> {
    with_index(outputs).filter_map(mint_create_step(tx_id))
}

/// The spend pass over a transaction's inputs.
fn deletes_of_inputs(tx_hash: &String, inputs: &Vec<TxInput>) -> (r: Vec<Assets>)
    ensures
        r.deep_view() == spec_deletes_of_tx(tx_hash@, inputs.deep_view()),
{
    let ghost dv = inputs.deep_view();
    let mut out: Vec<Assets> = Vec::new();
    proof {
        assert(dv.take(0) =~= Seq::<TxInputV>::empty());
        assert(out.deep_view() =~= dv.take(0).filter_map(spend_step(tx_hash@)));
    }
    let n = inputs.len();
    for i in 0..n
        invariant
            n == inputs.len(),
            dv == inputs.deep_view(),
            out.deep_view() == dv.take(i as int).filter_map(spend_step(tx_hash@)),
    {
        let ghost prev = out.deep_view();
        match &inputs[i] {
            TxInput::CoinSigned { utxo_id, owner, asset_id, .. } => {
                out.push(
                    Assets {
                        assets_id: asset_id.clone(),
                        assets_utxo_id: utxo_id.clone(),
                        assets_owner: owner.clone(),
                        amount: 0,
                        block_height: 0,
                        create_height: 0,
                        delete_tx_hash: tx_hash.clone(),
                        create_tx_hash: String::new(),
                        asset_status: AssetStatus::Delete,
                    },
                );
            },
            TxInput::CoinPredicate { utxo_id, owner, asset_id, .. } => {
                out.push(
                    Assets {
                        assets_id: asset_id.clone(),
                        assets_utxo_id: utxo_id.clone(),
                        assets_owner: owner.clone(),
                        amount: 0,
                        block_height: 0,
                        create_height: 0,
                        delete_tx_hash: tx_hash.clone(),
                        create_tx_hash: String::new(),
                        asset_status: AssetStatus::Delete,
                    },
                );
            },
            _ => {},
        }
        proof {
            dv.lemma_filter_map_take_succ(spend_step(tx_hash@), i as int);
            assert(inputs@[i as int].deep_view() == dv[i as int]);
            if is_coin_input(dv[i as int]) {
                assert(out.deep_view() =~= prev + seq![
                    match spend_step(tx_hash@)(dv[i as int]) {
                        Some(a) => a,
                        None => arbitrary(),
                    },
                ]);
            }
            assert(out.deep_view() =~= dv.take(i as int + 1).filter_map(spend_step(tx_hash@)));
        }
    }
    proof {
        assert(dv.take(n as int) =~= dv);
    }
    out
}

/// The create pass over a transaction's outputs; when `coin_only` is set,
/// only plain coin outputs count (the mint rule).
fn creates_of_outputs(tx_hash: &String, outputs: &Vec<TxOutput>, coin_only: bool) -> (r: Vec<Assets>)
    requires
        outputs.len() <= 256,
    ensures
        coin_only ==> r.deep_view() == spec_mint_creates(tx_hash@, outputs.deep_view()),
        !coin_only ==> r.deep_view() == spec_creates_of_tx(tx_hash@, outputs.deep_view()),
{
    let ghost dv = outputs.deep_view();
    let ghost ixs = with_index(dv);
    let mut out: Vec<Assets> = Vec::new();
    proof {
        assert(ixs.take(0) =~= Seq::<(int, TxOutputV)>::empty());
        assert(out.deep_view() =~= ixs.take(0).filter_map(create_step(tx_hash@)));
        assert(out.deep_view() =~= ixs.take(0).filter_map(mint_create_step(tx_hash@)));
    }
    let n = outputs.len();
    for i in 0..n
        invariant
            n == outputs.len(),
            n <= 256,
            dv == outputs.deep_view(),
            ixs == with_index(dv),
            coin_only ==> out.deep_view() == ixs.take(i as int).filter_map(
                mint_create_step(tx_hash@),
            ),
            !coin_only ==> out.deep_view() == ixs.take(i as int).filter_map(create_step(tx_hash@)),
    {
        let ghost prev = out.deep_view();
        proof {
            assert(outputs@[i as int].deep_view() == dv[i as int]);
            assert(ixs[i as int] == (i as int, dv[i as int]));
        }
        match &outputs[i] {
            TxOutput::Coin { to, amount, asset_id } => {
                out.push(
                    Assets {
                        assets_id: asset_id.clone(),
                        assets_utxo_id: utxo_key(tx_hash, i as u8),
                        assets_owner: to.clone(),
                        amount: *amount,
                        block_height: 0,
                        create_height: 0,
                        delete_tx_hash: String::new(),
                        create_tx_hash: tx_hash.clone(),
                        asset_status: AssetStatus::Alive,
                    },
                );
            },
            TxOutput::Change { to, amount, asset_id } => {
                if !coin_only {
                    out.push(
                        Assets {
                            assets_id: asset_id.clone(),
                            assets_utxo_id: utxo_key(tx_hash, i as u8),
                            assets_owner: to.clone(),
                            amount: *amount,
                            block_height: 0,
                            create_height: 0,
                            delete_tx_hash: String::new(),
                            create_tx_hash: tx_hash.clone(),
                            asset_status: AssetStatus::Alive,
                        },
                    );
                }
            },
            TxOutput::Variable { to, amount, asset_id } => {
                if !coin_only {
                    out.push(
                        Assets {
                            assets_id: asset_id.clone(),
                            assets_utxo_id: utxo_key(tx_hash, i as u8),
                            assets_owner: to.clone(),
                            amount: *amount,
                            block_height: 0,
                            create_height: 0,
                            delete_tx_hash: String::new(),
                            create_tx_hash: tx_hash.clone(),
                            asset_status: AssetStatus::Alive,
                        },
                    );
                }
            },
            _ => {},
        }
        proof {
            ixs.lemma_filter_map_take_succ(create_step(tx_hash@), i as int);
            ixs.lemma_filter_map_take_succ(mint_create_step(tx_hash@), i as int);
            if coin_only {
                assert(out.deep_view() =~= ixs.take(i as int + 1).filter_map(
                    mint_create_step(tx_hash@),
                ));
            } else {
                assert(out.deep_view() =~= ixs.take(i as int + 1).filter_map(create_step(tx_hash@)));
            }
        }
    }
    proof {
        assert(ixs.take(n as int) =~= ixs);
    }
    out
}

/// Spend and create transitions of one script transaction.
pub fn handle_script(tx_hash: &String, s: &ScriptTx) -> (r: (Vec<Assets>, Vec<Assets>))
    requires
        s.outputs.len() <= 256,
    ensures
        r.0.deep_view() == spec_deletes_of_tx(tx_hash@, s.inputs.deep_view()),
        r.1.deep_view() == spec_creates_of_tx(tx_hash@, s.outputs.deep_view()),
{
    (deletes_of_inputs(tx_hash, &s.inputs), creates_of_outputs(tx_hash, &s.outputs, false))
}

/// Spend and create transitions of one deploy.
pub fn handle_create(tx_hash: &String, c: &CreateTx) -> (r: (Vec<Assets>, Vec<Assets>))
    requires
        c.outputs.len() <= 256,
    ensures
        r.0.deep_view() == spec_deletes_of_tx(tx_hash@, c.inputs.deep_view()),
        r.1.deep_view() == spec_creates_of_tx(tx_hash@, c.outputs.deep_view()),
{
    (deletes_of_inputs(tx_hash, &c.inputs), creates_of_outputs(tx_hash, &c.outputs, false))
}

/// Create transitions of one mint; a mint consumes nothing.
pub fn handle_mint(tx_hash: &String, m: &MintTx) -> (r: (Vec<Assets>, Vec<Assets>))
    requires
        m.outputs.len() <= 256,
    ensures
        r.0.deep_view() == Seq::<AssetsV>::empty(),
        r.1.deep_view() == spec_mint_creates(tx_hash@, m.outputs.deep_view()),
{
    let deletes: Vec<Assets> = Vec::new();
    proof {
        assert(deletes.deep_view() =~= Seq::<AssetsV>::empty());
    }
    (deletes, creates_of_outputs(tx_hash, &m.outputs, true))
}

pub open spec fn spec_body_deletes(b: BlockBodyV) -> Seq<AssetsV> {
    match b.response {
        None => Seq::empty(),
        Some(r) => match r.transaction {
            ChainTransactionV::Script(s) => spec_deletes_of_tx(b.tx_hash, s.inputs),
            ChainTransactionV::Create(c) => spec_deletes_of_tx(b.tx_hash, c.inputs),
            ChainTransactionV::Mint(_) => Seq::empty(),
        },
    }
}

pub open spec fn spec_body_creates(b: BlockBodyV) -> Seq<AssetsV> {
    match b.response {
        None => Seq::empty(),
        Some(r) => match r.transaction {
            ChainTransactionV::Script(s) => spec_creates_of_tx(b.tx_hash, s.outputs),
            ChainTransactionV::Create(c) => spec_creates_of_tx(b.tx_hash, c.outputs),
            ChainTransactionV::Mint(m) => spec_mint_creates(b.tx_hash, m.outputs),
        },
    }
}

pub open spec fn spec_batch_deletes(bodies: Seq<BlockBodyV>) -> Seq<AssetsV>
    decreases bodies.len(),
{
    if bodies.len() == 0 {
        Seq::empty()
    } else {
        spec_batch_deletes(bodies.drop_last()) + spec_body_deletes(bodies.last())
    }
}

pub open spec fn spec_batch_creates(bodies: Seq<BlockBodyV>) -> Seq<AssetsV>
    decreases bodies.len(),
{
    if bodies.len() == 0 {
        Seq::empty()
    } else {
        spec_batch_creates(bodies.drop_last()) + spec_body_creates(bodies.last())
    }
}

/// Rows annotated with the height of the block whose processing produced
/// them.
pub open spec fn with_height(rows: Seq<AssetsV>, h: u64) -> Seq<AssetsV> {
    rows.map_values(
        |a: AssetsV|
            AssetsV {
                assets_id: a.assets_id,
                assets_utxo_id: a.assets_utxo_id,
                assets_owner: a.assets_owner,
                amount: a.amount,
                block_height: h,
                create_height: h,
                delete_tx_hash: a.delete_tx_hash,
                create_tx_hash: a.create_tx_hash,
                asset_status: a.asset_status,
            },
    )
}

/// One row with the heights set.
fn row_with_heights(a: &Assets, h: u64) -> (r: Assets)
    ensures
        r@ == (AssetsV {
            assets_id: a@.assets_id,
            assets_utxo_id: a@.assets_utxo_id,
            assets_owner: a@.assets_owner,
            amount: a@.amount,
            block_height: h,
            create_height: h,
            delete_tx_hash: a@.delete_tx_hash,
            create_tx_hash: a@.create_tx_hash,
            asset_status: a@.asset_status,
        }),
{
    Assets {
        assets_id: a.assets_id.clone(),
        assets_utxo_id: a.assets_utxo_id.clone(),
        assets_owner: a.assets_owner.clone(),
        amount: a.amount,
        block_height: h,
        create_height: h,
        delete_tx_hash: a.delete_tx_hash.clone(),
        create_tx_hash: a.create_tx_hash.clone(),
        asset_status: a.asset_status,
    }
}

/// Stamps every row with the block height.
pub fn set_heights(rows: &mut Vec<Assets>, h: u64)
    ensures
        final(rows).deep_view() == with_height(old(rows).deep_view(), h),
{
    let n = rows.len();
    for i in 0..n
        invariant
            n == rows.len(),
            rows@.len() == old(rows)@.len(),
            forall|j: int| i <= j < n ==> rows.deep_view()[j] == old(rows).deep_view()[j],
            forall|j: int|
                0 <= j < i ==> rows.deep_view()[j] == with_height(old(rows).deep_view(), h)[j],
    {
        let ghost pre_seq = rows@;
        let ghost pre_dv = rows.deep_view();
        proof {
            assert(pre_dv[i as int] == pre_seq[i as int]@);
            assert(pre_dv[i as int] == old(rows).deep_view()[i as int]);
        }
        let updated = row_with_heights(&rows[i], h);
        rows.set(i, updated);
        proof {
            assert(rows@ == pre_seq.update(i as int, updated));
            assert forall|j: int|
                0 <= j < i + 1 implies rows.deep_view()[j] == with_height(
                old(rows).deep_view(),
                h,
            )[j] by {
                if j == i as int {
                    assert(rows@[j] == updated);
                    assert(rows.deep_view()[j] == updated@);
                    assert(with_height(old(rows).deep_view(), h)[j] == (AssetsV {
                        assets_id: old(rows).deep_view()[j].assets_id,
                        assets_utxo_id: old(rows).deep_view()[j].assets_utxo_id,
                        assets_owner: old(rows).deep_view()[j].assets_owner,
                        amount: old(rows).deep_view()[j].amount,
                        block_height: h,
                        create_height: h,
                        delete_tx_hash: old(rows).deep_view()[j].delete_tx_hash,
                        create_tx_hash: old(rows).deep_view()[j].create_tx_hash,
                        asset_status: old(rows).deep_view()[j].asset_status,
                    }));
                } else {
                    assert(rows@[j] == pre_seq[j]);
                    assert(rows.deep_view()[j] == pre_dv[j]);
                }
            }
        }
    }
    proof {
        assert(rows.deep_view() =~= with_height(old(rows).deep_view(), h));
    }
}

/// The asset-ledger transitions of a whole batch: the spend pass and the
/// create pass over every fetched transaction, both annotated with the
/// block's height.
pub fn assets_process(header: &Header, bodies: &Vec<BlockBody>) -> (r: (Vec<Assets>, Vec<Assets>))
    requires
        forall|i: int|
            0 <= i < bodies.deep_view().len() ==> outputs_len_ok(#[trigger] bodies.deep_view()[i]),
    ensures
        r.0.deep_view() == with_height(spec_batch_deletes(bodies.deep_view()), header@.height),
        r.1.deep_view() == with_height(spec_batch_creates(bodies.deep_view()), header@.height),
{
    let ghost dv = bodies.deep_view();
    let mut deletes: Vec<Assets> = Vec::new();
    let mut creates: Vec<Assets> = Vec::new();
    proof {
        assert(dv.take(0) =~= Seq::<BlockBodyV>::empty());
        assert(deletes.deep_view() =~= spec_batch_deletes(dv.take(0)));
        assert(creates.deep_view() =~= spec_batch_creates(dv.take(0)));
    }
    let n = bodies.len();
    for i in 0..n
        invariant
            n == bodies.len(),
            dv == bodies.deep_view(),
            forall|j: int| 0 <= j < dv.len() ==> outputs_len_ok(#[trigger] dv[j]),
            deletes.deep_view() == spec_batch_deletes(dv.take(i as int)),
            creates.deep_view() == spec_batch_creates(dv.take(i as int)),
    {
        let ghost prev_d = deletes.deep_view();
        let ghost prev_c = creates.deep_view();
        proof {
            assert(bodies@[i as int].deep_view() == dv[i as int]);
            assert(outputs_len_ok(dv[i as int]));
        }
        let b = &bodies[i];
        match &b.response {
            Some(resp) => {
                let (mut d, mut c) = match &resp.transaction {
                    ChainTransaction::Script(s) => handle_script(&b.tx_hash, s),
                    ChainTransaction::Create(cr) => handle_create(&b.tx_hash, cr),
                    ChainTransaction::Mint(m) => handle_mint(&b.tx_hash, m),
                };
                let ghost dd = d.deep_view();
                let ghost cc = c.deep_view();
                proof {
                    assert(dd == spec_body_deletes(dv[i as int]));
                    assert(cc == spec_body_creates(dv[i as int]));
                }
                deletes.append(&mut d);
                creates.append(&mut c);
                proof {
                    assert(deletes.deep_view() =~= prev_d + dd);
                    assert(creates.deep_view() =~= prev_c + cc);
                }
            },
            None => {
                proof {
                    assert(spec_body_deletes(dv[i as int]) =~= Seq::<AssetsV>::empty());
                    assert(spec_body_creates(dv[i as int]) =~= Seq::<AssetsV>::empty());
                }
            },
        }
        proof {
            assert(dv.take(i as int + 1).drop_last() =~= dv.take(i as int));
            assert(dv.take(i as int + 1).last() == dv[i as int]);
            assert(deletes.deep_view() =~= spec_batch_deletes(dv.take(i as int + 1)));
            assert(creates.deep_view() =~= spec_batch_creates(dv.take(i as int + 1)));
        }
    }
    proof {
        assert(dv.take(n as int) =~= dv);
    }
    set_heights(&mut deletes, header.height);
    set_heights(&mut creates, header.height);
    (deletes, creates)
}

/// Every variant's outputs fit the one-byte index of the UTXO key format.
pub open spec fn outputs_len_ok(b: BlockBodyV) -> bool {
    match b.response {
        None => true,
        Some(r) => match r.transaction {
            ChainTransactionV::Script(s) => s.outputs.len() <= 256,
            ChainTransactionV::Create(c) => c.outputs.len() <= 256,
            ChainTransactionV::Mint(m) => m.outputs.len() <= 256,
        },
    }
}

} // verus!
