//! The chain-side data model: block headers, raw transactions with their
//! inputs, outputs, witnesses and execution receipts, and the resolution
//! status a fetched transaction carries. These are the values the chain
//! client hands the indexer; the decoder turns them into records.

use vstd::prelude::*;

verus! {

/// A block header as the chain client reports it.
#[derive(Clone, Debug)]
pub struct Header {
    pub id: String,
    pub height: u64,
    pub da_height: u64,
    pub application_hash: String,
    pub output_messages_root: String,
    pub transactions_root: String,
    pub prev_root: String,
    pub transactions_count: u64,
    pub output_messages_count: u64,
    /// Unix timestamp of the block.
    pub time: i64,
}

#[verifier::ext_equal]
pub ghost struct HeaderV {
    pub id: Seq<char>,
    pub height: u64,
    pub da_height: u64,
    pub application_hash: Seq<char>,
    pub output_messages_root: Seq<char>,
    pub transactions_root: Seq<char>,
    pub prev_root: Seq<char>,
    pub transactions_count: u64,
    pub output_messages_count: u64,
    pub time: i64,
}

impl View for Header {
    type V = HeaderV;

    open spec fn view(&self) -> HeaderV {
        HeaderV {
            id: self.id@,
            height: self.height,
            da_height: self.da_height,
            application_hash: self.application_hash@,
            output_messages_root: self.output_messages_root@,
            transactions_root: self.transactions_root@,
            prev_root: self.prev_root@,
            transactions_count: self.transactions_count,
            output_messages_count: self.output_messages_count,
            time: self.time,
        }
    }
}

impl DeepView for Header {
    type V = HeaderV;

    open spec fn deep_view(&self) -> HeaderV {
        self.view()
    }
}

/// One input of a raw transaction.
#[derive(Debug)]
pub enum TxInput {
    /// A coin spent under a signature; `utxo_id` names the consumed output.
    CoinSigned { utxo_id: String, owner: String, amount: u64, asset_id: String },
    /// A coin spent under a predicate.
    CoinPredicate { utxo_id: String, owner: String, amount: u64, asset_id: String },
    /// A contract referenced by the transaction.
    Contract { utxo_id: String, contract_id: String },
    /// Any input kind the indexer does not track.
    Other,
}

#[verifier::ext_equal]
pub ghost enum TxInputV {
    CoinSigned { utxo_id: Seq<char>, owner: Seq<char>, amount: u64, asset_id: Seq<char> },
    CoinPredicate { utxo_id: Seq<char>, owner: Seq<char>, amount: u64, asset_id: Seq<char> },
    Contract { utxo_id: Seq<char>, contract_id: Seq<char> },
    Other,
}

impl View for TxInput {
    type V = TxInputV;

    open spec fn view(&self) -> TxInputV {
        match self {
            TxInput::CoinSigned { utxo_id, owner, amount, asset_id } => TxInputV::CoinSigned {
                utxo_id: utxo_id@,
                owner: owner@,
                amount: *amount,
                asset_id: asset_id@,
            },
            TxInput::CoinPredicate { utxo_id, owner, amount, asset_id } => TxInputV::CoinPredicate {
                utxo_id: utxo_id@,
                owner: owner@,
                amount: *amount,
                asset_id: asset_id@,
            },
            TxInput::Contract { utxo_id, contract_id } => TxInputV::Contract {
                utxo_id: utxo_id@,
                contract_id: contract_id@,
            },
            TxInput::Other => TxInputV::Other,
        }
    }
}

impl DeepView for TxInput {
    type V = TxInputV;

    open spec fn deep_view(&self) -> TxInputV {
        self.view()
    }
}

/// One output of a raw transaction.
#[derive(Debug)]
pub enum TxOutput {
    /// A value-bearing coin sent to an address.
    Coin { to: String, amount: u64, asset_id: String },
    /// Change returned to the spender.
    Change { to: String, amount: u64, asset_id: String },
    /// A variable output filled in at execution time.
    Variable { to: String, amount: u64, asset_id: String },
    /// A contract-typed output.
    Contract,
    /// The output that records a newly created contract.
    ContractCreated { contract_id: String },
}

#[verifier::ext_equal]
pub ghost enum TxOutputV {
    Coin { to: Seq<char>, amount: u64, asset_id: Seq<char> },
    Change { to: Seq<char>, amount: u64, asset_id: Seq<char> },
    Variable { to: Seq<char>, amount: u64, asset_id: Seq<char> },
    Contract,
    ContractCreated { contract_id: Seq<char> },
}

impl View for TxOutput {
    type V = TxOutputV;

    open spec fn view(&self) -> TxOutputV {
        match self {
            TxOutput::Coin { to, amount, asset_id } => TxOutputV::Coin {
                to: to@,
                amount: *amount,
                asset_id: asset_id@,
            },
            TxOutput::Change { to, amount, asset_id } => TxOutputV::Change {
                to: to@,
                amount: *amount,
                asset_id: asset_id@,
            },
            TxOutput::Variable { to, amount, asset_id } => TxOutputV::Variable {
                to: to@,
                amount: *amount,
                asset_id: asset_id@,
            },
            TxOutput::Contract => TxOutputV::Contract,
            TxOutput::ContractCreated { contract_id } => TxOutputV::ContractCreated {
                contract_id: contract_id@,
            },
        }
    }
}

impl DeepView for TxOutput {
    type V = TxOutputV;

    open spec fn deep_view(&self) -> TxOutputV {
        self.view()
    }
}

/// One execution receipt of a transaction's script.
#[derive(Debug)]
pub enum Receipt {
    /// An inter-contract call; `id` is the calling contract, `to` the callee.
    Call { id: String, to: String, amount: u64, asset_id: String },
    /// A transfer out of contract `id`.
    Transfer { id: String, to: String, amount: u64, asset_id: String },
    /// The summary receipt that reports the script's gas usage.
    ScriptResult { gas_used: u64 },
    /// Any receipt kind the indexer does not track.
    Other,
}

#[verifier::ext_equal]
pub ghost enum ReceiptV {
    Call { id: Seq<char>, to: Seq<char>, amount: u64, asset_id: Seq<char> },
    Transfer { id: Seq<char>, to: Seq<char>, amount: u64, asset_id: Seq<char> },
    ScriptResult { gas_used: u64 },
    Other,
}

impl View for Receipt {
    type V = ReceiptV;

    open spec fn view(&self) -> ReceiptV {
        match self {
            Receipt::Call { id, to, amount, asset_id } => ReceiptV::Call {
                id: id@,
                to: to@,
                amount: *amount,
                asset_id: asset_id@,
            },
            Receipt::Transfer { id, to, amount, asset_id } => ReceiptV::Transfer {
                id: id@,
                to: to@,
                amount: *amount,
                asset_id: asset_id@,
            },
            Receipt::ScriptResult { gas_used } => ReceiptV::ScriptResult { gas_used: *gas_used },
            Receipt::Other => ReceiptV::Other,
        }
    }
}

impl DeepView for Receipt {
    type V = ReceiptV;

    open spec fn deep_view(&self) -> ReceiptV {
        self.view()
    }
}

/// The resolution status the chain client reports for a transaction.
#[derive(Clone, Debug)]
pub enum TxResolution {
    Success,
    Failure { reason: String },
    /// Still in the mempool; never expected once a block reports the transaction.
    Submitted,
    /// Evicted from the mempool; never expected here either.
    SqueezedOut { reason: String },
}

#[verifier::ext_equal]
pub ghost enum TxResolutionV {
    Success,
    Failure { reason: Seq<char> },
    Submitted,
    SqueezedOut { reason: Seq<char> },
}

impl View for TxResolution {
    type V = TxResolutionV;

    open spec fn view(&self) -> TxResolutionV {
        match self {
            TxResolution::Success => TxResolutionV::Success,
            TxResolution::Failure { reason } => TxResolutionV::Failure { reason: reason@ },
            TxResolution::Submitted => TxResolutionV::Submitted,
            TxResolution::SqueezedOut { reason } => TxResolutionV::SqueezedOut { reason: reason@ },
        }
    }
}

impl DeepView for TxResolution {
    type V = TxResolutionV;

    open spec fn deep_view(&self) -> TxResolutionV {
        self.view()
    }
}

/// One storage slot a contract deployment initializes.
#[derive(Debug)]
pub struct StorageSlot {
    pub key: String,
    pub value: String,
}

#[verifier::ext_equal]
pub ghost struct StorageSlotV {
    pub key: Seq<char>,
    pub value: Seq<char>,
}

impl View for StorageSlot {
    type V = StorageSlotV;

    open spec fn view(&self) -> StorageSlotV {
        StorageSlotV { key: self.key@, value: self.value@ }
    }
}

impl DeepView for StorageSlot {
    type V = StorageSlotV;

    open spec fn deep_view(&self) -> StorageSlotV {
        self.view()
    }
}

/// A script transaction: a plain transfer or a contract call.
#[derive(Clone, Debug)]
pub struct ScriptTx {
    pub inputs: Vec<TxInput>,
    pub outputs: Vec<TxOutput>,
    pub gas_limit: u64,
    pub gas_price: u64,
    pub script: Vec<u8>,
    pub script_data: Vec<u8>,
}

#[verifier::ext_equal]
pub ghost struct ScriptTxV {
    pub inputs: Seq<TxInputV>,
    pub outputs: Seq<TxOutputV>,
    pub gas_limit: u64,
    pub gas_price: u64,
    pub script: Seq<u8>,
    pub script_data: Seq<u8>,
}

impl View for ScriptTx {
    type V = ScriptTxV;

    open spec fn view(&self) -> ScriptTxV {
        ScriptTxV {
            inputs: self.inputs.deep_view(),
            outputs: self.outputs.deep_view(),
            gas_limit: self.gas_limit,
            gas_price: self.gas_price,
            script: self.script@,
            script_data: self.script_data@,
        }
    }
}

impl DeepView for ScriptTx {
    type V = ScriptTxV;

    open spec fn deep_view(&self) -> ScriptTxV {
        self.view()
    }
}

/// A contract-deployment transaction.
#[derive(Clone, Debug)]
pub struct CreateTx {
    pub inputs: Vec<TxInput>,
    pub outputs: Vec<TxOutput>,
    pub gas_limit: u64,
    pub gas_price: u64,
    /// Which witness holds the contract bytecode.
    pub bytecode_witness_index: u8,
    pub witnesses: Vec<Vec<u8>>,
    pub storage_slots: Vec<StorageSlot>,
}

#[verifier::ext_equal]
pub ghost struct CreateTxV {
    pub inputs: Seq<TxInputV>,
    pub outputs: Seq<TxOutputV>,
    pub gas_limit: u64,
    pub gas_price: u64,
    pub bytecode_witness_index: u8,
    pub witnesses: Seq<Seq<u8>>,
    pub storage_slots: Seq<StorageSlotV>,
}

impl View for CreateTx {
    type V = CreateTxV;

    open spec fn view(&self) -> CreateTxV {
        CreateTxV {
            inputs: self.inputs.deep_view(),
            outputs: self.outputs.deep_view(),
            gas_limit: self.gas_limit,
            gas_price: self.gas_price,
            bytecode_witness_index: self.bytecode_witness_index,
            witnesses: self.witnesses.deep_view(),
            storage_slots: self.storage_slots.deep_view(),
        }
    }
}

impl DeepView for CreateTx {
    type V = CreateTxV;

    open spec fn deep_view(&self) -> CreateTxV {
        self.view()
    }
}

/// A coinbase mint transaction.
#[derive(Clone, Debug)]
pub struct MintTx {
    pub outputs: Vec<TxOutput>,
    pub mint_amount: u64,
}

#[verifier::ext_equal]
pub ghost struct MintTxV {
    pub outputs: Seq<TxOutputV>,
    pub mint_amount: u64,
}

impl View for MintTx {
    type V = MintTxV;

    open spec fn view(&self) -> MintTxV {
        MintTxV { outputs: self.outputs.deep_view(), mint_amount: self.mint_amount }
    }
}

impl DeepView for MintTx {
    type V = MintTxV;

    open spec fn deep_view(&self) -> MintTxV {
        self.view()
    }
}

/// A raw transaction, dispatched on its variant by the decoder.
#[derive(Clone, Debug)]
pub enum ChainTransaction {
    Script(ScriptTx),
    Create(CreateTx),
    Mint(MintTx),
}

#[verifier::ext_equal]
pub ghost enum ChainTransactionV {
    Script(ScriptTxV),
    Create(CreateTxV),
    Mint(MintTxV),
}

impl View for ChainTransaction {
    type V = ChainTransactionV;

    open spec fn view(&self) -> ChainTransactionV {
        match self {
            ChainTransaction::Script(s) => ChainTransactionV::Script(s@),
            ChainTransaction::Create(c) => ChainTransactionV::Create(c@),
            ChainTransaction::Mint(m) => ChainTransactionV::Mint(m@),
        }
    }
}

impl DeepView for ChainTransaction {
    type V = ChainTransactionV;

    open spec fn deep_view(&self) -> ChainTransactionV {
        self.view()
    }
}

/// A fetched transaction body together with its resolution status.
#[derive(Clone, Debug)]
pub struct TransactionResponse {
    pub transaction: ChainTransaction,
    pub status: TxResolution,
}

#[verifier::ext_equal]
pub ghost struct TransactionResponseV {
    pub transaction: ChainTransactionV,
    pub status: TxResolutionV,
}

impl View for TransactionResponse {
    type V = TransactionResponseV;

    open spec fn view(&self) -> TransactionResponseV {
        TransactionResponseV { transaction: self.transaction@, status: self.status@ }
    }
}

impl DeepView for TransactionResponse {
    type V = TransactionResponseV;

    open spec fn deep_view(&self) -> TransactionResponseV {
        self.view()
    }
}

/// One entry of a fetched block: the transaction id, the body if the client
/// returned one, and the execution receipts.
#[derive(Clone, Debug)]
pub struct BlockBody {
    pub tx_hash: String,
    pub response: Option<TransactionResponse>,
    pub receipts: Vec<Receipt>,
}

#[verifier::ext_equal]
pub ghost struct BlockBodyV {
    pub tx_hash: Seq<char>,
    pub response: Option<TransactionResponseV>,
    pub receipts: Seq<ReceiptV>,
}

impl View for BlockBody {
    type V = BlockBodyV;

    open spec fn view(&self) -> BlockBodyV {
        BlockBodyV {
            tx_hash: self.tx_hash@,
            response: self.response.deep_view(),
            receipts: self.receipts.deep_view(),
        }
    }
}

impl DeepView for BlockBody {
    type V = BlockBodyV;

    open spec fn deep_view(&self) -> BlockBodyV {
        self.view()
    }
}

/// Coin-type inputs are the ones that consume a UTXO.
pub open spec fn is_coin_input(i: TxInputV) -> bool {
    i is CoinSigned || i is CoinPredicate
}

/// The owner recorded in a coin-type input.
pub open spec fn input_owner(i: TxInputV) -> Seq<char>
    recommends
        is_coin_input(i),
{
    match i {
        TxInputV::CoinSigned { owner, .. } => owner,
        TxInputV::CoinPredicate { owner, .. } => owner,
        _ => Seq::empty(),
    }
}

/// The asset recorded in a coin-type input.
pub open spec fn input_asset_id(i: TxInputV) -> Seq<char>
    recommends
        is_coin_input(i),
{
    match i {
        TxInputV::CoinSigned { asset_id, .. } => asset_id,
        TxInputV::CoinPredicate { asset_id, .. } => asset_id,
        _ => Seq::empty(),
    }
}

/// The consumed UTXO identifier recorded in a coin-type input.
pub open spec fn input_utxo_id(i: TxInputV) -> Seq<char>
    recommends
        is_coin_input(i),
{
    match i {
        TxInputV::CoinSigned { utxo_id, .. } => utxo_id,
        TxInputV::CoinPredicate { utxo_id, .. } => utxo_id,
        _ => Seq::empty(),
    }
}

/// Value-bearing outputs: the ones that create a UTXO.
pub open spec fn is_coin_like_output(o: TxOutputV) -> bool {
    o is Coin || o is Change || o is Variable
}

/// Contract-typed or contract-creation-typed outputs mark a contract call.
pub open spec fn is_contractish_output(o: TxOutputV) -> bool {
    o is Contract || o is ContractCreated
}

/// The recipient recorded in a value-bearing output.
pub open spec fn output_to(o: TxOutputV) -> Seq<char>
    recommends
        is_coin_like_output(o),
{
    match o {
        TxOutputV::Coin { to, .. } => to,
        TxOutputV::Change { to, .. } => to,
        TxOutputV::Variable { to, .. } => to,
        _ => Seq::empty(),
    }
}

/// The amount recorded in a value-bearing output.
pub open spec fn output_amount(o: TxOutputV) -> u64
    recommends
        is_coin_like_output(o),
{
    match o {
        TxOutputV::Coin { amount, .. } => amount,
        TxOutputV::Change { amount, .. } => amount,
        TxOutputV::Variable { amount, .. } => amount,
        _ => 0,
    }
}

/// The asset recorded in a value-bearing output.
pub open spec fn output_asset_id(o: TxOutputV) -> Seq<char>
    recommends
        is_coin_like_output(o),
{
    match o {
        TxOutputV::Coin { asset_id, .. } => asset_id,
        TxOutputV::Change { asset_id, .. } => asset_id,
        TxOutputV::Variable { asset_id, .. } => asset_id,
        _ => Seq::empty(),
    }
}

/// A resolution the decoder models: anything else reaching it is a
/// data-contract violation.
pub open spec fn resolution_ok(s: TxResolutionV) -> bool {
    s is Success || s is Failure
}

impl Clone for TxInput {
    fn clone(&self) -> (res: Self)
        ensures
            res@ == self@,
    {
        match self {
            TxInput::CoinSigned { utxo_id, owner, amount, asset_id } => TxInput::CoinSigned {
                utxo_id: utxo_id.clone(),
                owner: owner.clone(),
                amount: *amount,
                asset_id: asset_id.clone(),
            },
            TxInput::CoinPredicate { utxo_id, owner, amount, asset_id } => TxInput::CoinPredicate {
                utxo_id: utxo_id.clone(),
                owner: owner.clone(),
                amount: *amount,
                asset_id: asset_id.clone(),
            },
            TxInput::Contract { utxo_id, contract_id } => TxInput::Contract {
                utxo_id: utxo_id.clone(),
                contract_id: contract_id.clone(),
            },
            TxInput::Other => TxInput::Other,
        }
    }
}

impl Clone for TxOutput {
    fn clone(&self) -> (res: Self)
        ensures
            res@ == self@,
    {
        match self {
            TxOutput::Coin { to, amount, asset_id } => TxOutput::Coin {
                to: to.clone(),
                amount: *amount,
                asset_id: asset_id.clone(),
            },
            TxOutput::Change { to, amount, asset_id } => TxOutput::Change {
                to: to.clone(),
                amount: *amount,
                asset_id: asset_id.clone(),
            },
            TxOutput::Variable { to, amount, asset_id } => TxOutput::Variable {
                to: to.clone(),
                amount: *amount,
                asset_id: asset_id.clone(),
            },
            TxOutput::Contract => TxOutput::Contract,
            TxOutput::ContractCreated { contract_id } => TxOutput::ContractCreated {
                contract_id: contract_id.clone(),
            },
        }
    }
}

impl Clone for Receipt {
    fn clone(&self) -> (res: Self)
        ensures
            res@ == self@,
    {
        match self {
            Receipt::Call { id, to, amount, asset_id } => Receipt::Call {
                id: id.clone(),
                to: to.clone(),
                amount: *amount,
                asset_id: asset_id.clone(),
            },
            Receipt::Transfer { id, to, amount, asset_id } => Receipt::Transfer {
                id: id.clone(),
                to: to.clone(),
                amount: *amount,
                asset_id: asset_id.clone(),
            },
            Receipt::ScriptResult { gas_used } => Receipt::ScriptResult { gas_used: *gas_used },
            Receipt::Other => Receipt::Other,
        }
    }
}

impl Clone for StorageSlot {
    fn clone(&self) -> (res: Self)
        ensures
            res@ == self@,
    {
        StorageSlot { key: self.key.clone(), value: self.value.clone() }
    }
}

/// A copy of an input set whose view is provably unchanged.
pub fn clone_inputs(v: &Vec<TxInput>) -> (r: Vec<TxInput>)
    ensures
        r.deep_view() == v.deep_view(),
{
    let r = v.clone();
    proof {
        assert(r.deep_view() =~= v.deep_view()) by {
            assert forall|i: int| 0 <= i < v@.len() implies r@[i]@ == v@[i]@ by {
                assert(cloned::<TxInput>(v[i], r[i]));
            }
        }
    }
    r
}

/// A copy of an output set whose view is provably unchanged.
pub fn clone_outputs(v: &Vec<TxOutput>) -> (r: Vec<TxOutput>)
    ensures
        r.deep_view() == v.deep_view(),
{
    let r = v.clone();
    proof {
        assert(r.deep_view() =~= v.deep_view()) by {
            assert forall|i: int| 0 <= i < v@.len() implies r@[i]@ == v@[i]@ by {
                assert(cloned::<TxOutput>(v[i], r[i]));
            }
        }
    }
    r
}

/// A copy of a receipt set whose view is provably unchanged.
pub fn clone_receipts(v: &Vec<Receipt>) -> (r: Vec<Receipt>)
    ensures
        r.deep_view() == v.deep_view(),
{
    let r = v.clone();
    proof {
        assert(r.deep_view() =~= v.deep_view()) by {
            assert forall|i: int| 0 <= i < v@.len() implies r@[i]@ == v@[i]@ by {
                assert(cloned::<Receipt>(v[i], r[i]));
            }
        }
    }
    r
}

/// A copy of an optional string whose view is provably unchanged.
pub fn clone_opt_string(o: &Option<String>) -> (r: Option<String>)
    ensures
        r.deep_view() == o.deep_view(),
{
    match o {
        Some(s) => Some(s.clone()),
        None => None,
    }
}

/// A copy of a storage-slot set whose view is provably unchanged.
pub fn clone_storage_slots(v: &Vec<StorageSlot>) -> (r: Vec<StorageSlot>)
    ensures
        r.deep_view() == v.deep_view(),
{
    let r = v.clone();
    proof {
        assert(r.deep_view() =~= v.deep_view()) by {
            assert forall|i: int| 0 <= i < v@.len() implies r@[i]@ == v@[i]@ by {
                assert(cloned::<StorageSlot>(v[i], r[i]));
            }
        }
    }
    r
}

} // verus!
