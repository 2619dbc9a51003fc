//! The normalized records the decoder produces and the durable store keeps:
//! blocks, coinbase summaries, transactions, contracts, calls, the asset
//! ledger rows and the per-address account aggregates.

use vstd::prelude::*;

use crate::model::{clone_inputs, clone_opt_string, clone_outputs, clone_receipts,
    clone_storage_slots, Receipt, ReceiptV, StorageSlot, StorageSlotV, TxInput, TxInputV, TxOutput,
    TxOutputV};

verus! {

/// Whether a transaction executed successfully.
#[derive(Clone, Copy, PartialEq, Eq, Structural, Debug)]
pub enum TxStatus {
    Success,
    Failed,
}

/// The decoded kind of a funded transaction.
#[derive(Clone, Copy, PartialEq, Eq, Structural, Debug)]
pub enum TxType {
    Call,
    Deploy,
}

/// How a script transaction classifies.
#[derive(Clone, Copy, PartialEq, Eq, Structural, Debug)]
pub enum CallType {
    /// It touches a contract.
    Contract,
    /// A plain value transfer.
    Transaction,
}

/// The lifecycle state of a tracked UTXO.
#[derive(Clone, Copy, PartialEq, Eq, Structural, Debug)]
pub enum AssetStatus {
    Alive,
    Delete,
}

/// Whether an aggregated address is a plain account or a contract.
#[derive(Clone, Copy, PartialEq, Eq, Structural, Debug)]
pub enum AccountType {
    Account,
    Contract,
}

/// One block row, keyed on `id`.
#[derive(Debug)]
pub struct Block {
    pub id: String,
    pub height: u64,
    pub da_height: u64,
    pub application_hash: String,
    pub output_messages_root_hash: String,
    pub transactions_root: String,
    pub prev_root: String,
    pub coinbase: Option<String>,
    pub coinbase_hash: Option<String>,
    pub coinbase_amount: Option<u64>,
    pub transaction_count: u64,
    pub output_message_count: u64,
    pub timestamp: i64,
}

#[verifier::ext_equal]
pub ghost struct BlockV {
    pub id: Seq<char>,
    pub height: u64,
    pub da_height: u64,
    pub application_hash: Seq<char>,
    pub output_messages_root_hash: Seq<char>,
    pub transactions_root: Seq<char>,
    pub prev_root: Seq<char>,
    pub coinbase: Option<Seq<char>>,
    pub coinbase_hash: Option<Seq<char>>,
    pub coinbase_amount: Option<u64>,
    pub transaction_count: u64,
    pub output_message_count: u64,
    pub timestamp: i64,
}

impl View for Block {
    type V = BlockV;

    open spec fn view(&self) -> BlockV {
        BlockV {
            id: self.id@,
            height: self.height,
            da_height: self.da_height,
            application_hash: self.application_hash@,
            output_messages_root_hash: self.output_messages_root_hash@,
            transactions_root: self.transactions_root@,
            prev_root: self.prev_root@,
            coinbase: self.coinbase.deep_view(),
            coinbase_hash: self.coinbase_hash.deep_view(),
            coinbase_amount: self.coinbase_amount,
            transaction_count: self.transaction_count,
            output_message_count: self.output_message_count,
            timestamp: self.timestamp,
        }
    }
}

impl DeepView for Block {
    type V = BlockV;

    open spec fn deep_view(&self) -> BlockV {
        self.view()
    }
}

/// One coinbase row, keyed on `id` (the minting transaction), conflict ignored.
#[derive(Debug)]
pub struct Coinbase {
    pub id: String,
    pub height: u64,
    pub da_height: u64,
    pub block_hash: String,
    pub amount: Option<u64>,
    pub coinbase: Option<String>,
    pub timestamp: Option<i64>,
}

#[verifier::ext_equal]
pub ghost struct CoinbaseV {
    pub id: Seq<char>,
    pub height: u64,
    pub da_height: u64,
    pub block_hash: Seq<char>,
    pub amount: Option<u64>,
    pub coinbase: Option<Seq<char>>,
    pub timestamp: Option<i64>,
}

impl View for Coinbase {
    type V = CoinbaseV;

    open spec fn view(&self) -> CoinbaseV {
        CoinbaseV {
            id: self.id@,
            height: self.height,
            da_height: self.da_height,
            block_hash: self.block_hash@,
            amount: self.amount,
            coinbase: self.coinbase.deep_view(),
            timestamp: self.timestamp,
        }
    }
}

impl DeepView for Coinbase {
    type V = CoinbaseV;

    open spec fn deep_view(&self) -> CoinbaseV {
        self.view()
    }
}

/// One normalized transaction row, keyed on `id`, conflict ignored.
/// The raw input, output and receipt sets ride along for audit.
#[derive(Debug)]
pub struct Transaction {
    pub id: String,
    pub height: u64,
    pub da_height: u64,
    pub block_hash: String,
    pub tx_type: Option<TxType>,
    pub gas_limit: u64,
    pub gas_price: u64,
    pub gas_used: u64,
    pub timestamp: i64,
    pub sender: Option<String>,
    pub status: TxStatus,
    pub reason: String,
    pub input: Vec<TxInput>,
    pub output: Vec<TxOutput>,
    pub receipts: Vec<Receipt>,
}

#[verifier::ext_equal]
pub ghost struct TransactionV {
    pub id: Seq<char>,
    pub height: u64,
    pub da_height: u64,
    pub block_hash: Seq<char>,
    pub tx_type: Option<TxType>,
    pub gas_limit: u64,
    pub gas_price: u64,
    pub gas_used: u64,
    pub timestamp: i64,
    pub sender: Option<Seq<char>>,
    pub status: TxStatus,
    pub reason: Seq<char>,
    pub input: Seq<TxInputV>,
    pub output: Seq<TxOutputV>,
    pub receipts: Seq<ReceiptV>,
}

impl View for Transaction {
    type V = TransactionV;

    open spec fn view(&self) -> TransactionV {
        TransactionV {
            id: self.id@,
            height: self.height,
            da_height: self.da_height,
            block_hash: self.block_hash@,
            tx_type: self.tx_type,
            gas_limit: self.gas_limit,
            gas_price: self.gas_price,
            gas_used: self.gas_used,
            timestamp: self.timestamp,
            sender: self.sender.deep_view(),
            status: self.status,
            reason: self.reason@,
            input: self.input.deep_view(),
            output: self.output.deep_view(),
            receipts: self.receipts.deep_view(),
        }
    }
}

impl DeepView for Transaction {
    type V = TransactionV;

    open spec fn deep_view(&self) -> TransactionV {
        self.view()
    }
}

/// One deployed-contract row, keyed on `contract_hash`, conflict ignored.
#[derive(Debug)]
pub struct Contract {
    pub contract_hash: String,
    pub transaction_id: String,
    pub sender: String,
    /// Hex-encoded bytecode.
    pub bytecode: String,
    /// The witness-index marker of the bytecode.
    pub bytecoin_length: u64,
    pub storage_slots: Vec<StorageSlot>,
    pub timestamp: i64,
}

#[verifier::ext_equal]
pub ghost struct ContractV {
    pub contract_hash: Seq<char>,
    pub transaction_id: Seq<char>,
    pub sender: Seq<char>,
    pub bytecode: Seq<char>,
    pub bytecoin_length: u64,
    pub storage_slots: Seq<StorageSlotV>,
    pub timestamp: i64,
}

impl View for Contract {
    type V = ContractV;

    open spec fn view(&self) -> ContractV {
        ContractV {
            contract_hash: self.contract_hash@,
            transaction_id: self.transaction_id@,
            sender: self.sender@,
            bytecode: self.bytecode@,
            bytecoin_length: self.bytecoin_length,
            storage_slots: self.storage_slots.deep_view(),
            timestamp: self.timestamp,
        }
    }
}

impl DeepView for Contract {
    type V = ContractV;

    open spec fn deep_view(&self) -> ContractV {
        self.view()
    }
}

/// One call row, keyed on `transaction_id`, conflict ignored.
#[derive(Debug)]
pub struct Call {
    pub transaction_id: String,
    pub height: u64,
    pub da_height: u64,
    pub block_hash: String,
    pub call_type: CallType,
    pub gas_limit: u64,
    pub gas_price: u64,
    pub gas_used: u64,
    pub sender: String,
    pub receiver: String,
    pub amount: Option<u64>,
    pub asset_id: Option<String>,
    pub payload: Option<String>,
    pub payload_data: Option<String>,
    pub timestamp: i64,
}

#[verifier::ext_equal]
pub ghost struct CallV {
    pub transaction_id: Seq<char>,
    pub height: u64,
    pub da_height: u64,
    pub block_hash: Seq<char>,
    pub call_type: CallType,
    pub gas_limit: u64,
    pub gas_price: u64,
    pub gas_used: u64,
    pub sender: Seq<char>,
    pub receiver: Seq<char>,
    pub amount: Option<u64>,
    pub asset_id: Option<Seq<char>>,
    pub payload: Option<Seq<char>>,
    pub payload_data: Option<Seq<char>>,
    pub timestamp: i64,
}

impl View for Call {
    type V = CallV;

    open spec fn view(&self) -> CallV {
        CallV {
            transaction_id: self.transaction_id@,
            height: self.height,
            da_height: self.da_height,
            block_hash: self.block_hash@,
            call_type: self.call_type,
            gas_limit: self.gas_limit,
            gas_price: self.gas_price,
            gas_used: self.gas_used,
            sender: self.sender@,
            receiver: self.receiver@,
            amount: self.amount,
            asset_id: self.asset_id.deep_view(),
            payload: self.payload.deep_view(),
            payload_data: self.payload_data.deep_view(),
            timestamp: self.timestamp,
        }
    }
}

impl DeepView for Call {
    type V = CallV;

    open spec fn deep_view(&self) -> CallV {
        self.view()
    }
}

/// One asset-ledger row: the state of a tracked UTXO, keyed on
/// `assets_utxo_id`, conflict merged field-wise.
#[derive(Debug)]
pub struct Assets {
    pub assets_id: String,
    pub assets_utxo_id: String,
    pub assets_owner: String,
    pub amount: u64,
    pub block_height: u64,
    pub create_height: u64,
    pub delete_tx_hash: String,
    pub create_tx_hash: String,
    pub asset_status: AssetStatus,
}

#[verifier::ext_equal]
pub ghost struct AssetsV {
    pub assets_id: Seq<char>,
    pub assets_utxo_id: Seq<char>,
    pub assets_owner: Seq<char>,
    pub amount: u64,
    pub block_height: u64,
    pub create_height: u64,
    pub delete_tx_hash: Seq<char>,
    pub create_tx_hash: Seq<char>,
    pub asset_status: AssetStatus,
}

impl View for Assets {
    type V = AssetsV;

    open spec fn view(&self) -> AssetsV {
        AssetsV {
            assets_id: self.assets_id@,
            assets_utxo_id: self.assets_utxo_id@,
            assets_owner: self.assets_owner@,
            amount: self.amount,
            block_height: self.block_height,
            create_height: self.create_height,
            delete_tx_hash: self.delete_tx_hash@,
            create_tx_hash: self.create_tx_hash@,
            asset_status: self.asset_status,
        }
    }
}

impl DeepView for Assets {
    type V = AssetsV;

    open spec fn deep_view(&self) -> AssetsV {
        self.view()
    }
}

impl Default for Assets {
    /// The empty row every extraction starts from.
    fn default() -> (r: Assets)
        ensures
            r@ == (AssetsV {
                assets_id: Seq::<char>::empty(),
                assets_utxo_id: Seq::<char>::empty(),
                assets_owner: Seq::<char>::empty(),
                amount: 0,
                block_height: 0,
                create_height: 0,
                delete_tx_hash: Seq::<char>::empty(),
                create_tx_hash: Seq::<char>::empty(),
                asset_status: AssetStatus::Alive,
            }),
    {
        Assets {
            assets_id: String::new(),
            assets_utxo_id: String::new(),
            assets_owner: String::new(),
            amount: 0,
            block_height: 0,
            create_height: 0,
            delete_tx_hash: String::new(),
            create_tx_hash: String::new(),
            asset_status: AssetStatus::Alive,
        }
    }
}

/// One account-aggregate row, keyed on `account_hash`, counters merged
/// additively.
#[derive(Debug)]
pub struct Account {
    pub account_hash: String,
    pub account_code: Option<String>,
    pub account_name: Option<String>,
    pub account_type: AccountType,
    pub verified: bool,
    pub gas_used: u64,
    pub transactions_count: u64,
    pub token_transfers_count: u64,
    pub sender_count: u64,
    pub recever_count: u64,
    pub decompiled: bool,
}

#[verifier::ext_equal]
pub ghost struct AccountV {
    pub account_hash: Seq<char>,
    pub account_code: Option<Seq<char>>,
    pub account_name: Option<Seq<char>>,
    pub account_type: AccountType,
    pub verified: bool,
    pub gas_used: u64,
    pub transactions_count: u64,
    pub token_transfers_count: u64,
    pub sender_count: u64,
    pub recever_count: u64,
    pub decompiled: bool,
}

impl View for Account {
    type V = AccountV;

    open spec fn view(&self) -> AccountV {
        AccountV {
            account_hash: self.account_hash@,
            account_code: self.account_code.deep_view(),
            account_name: self.account_name.deep_view(),
            account_type: self.account_type,
            verified: self.verified,
            gas_used: self.gas_used,
            transactions_count: self.transactions_count,
            token_transfers_count: self.token_transfers_count,
            sender_count: self.sender_count,
            recever_count: self.recever_count,
            decompiled: self.decompiled,
        }
    }
}

impl DeepView for Account {
    type V = AccountV;

    open spec fn deep_view(&self) -> AccountV {
        self.view()
    }
}

impl Clone for Block {
    fn clone(&self) -> (res: Self)
        ensures
            res@ == self@,
    {
        let r = Block {
            id: self.id.clone(),
            height: self.height,
            da_height: self.da_height,
            application_hash: self.application_hash.clone(),
            output_messages_root_hash: self.output_messages_root_hash.clone(),
            transactions_root: self.transactions_root.clone(),
            prev_root: self.prev_root.clone(),
            coinbase: clone_opt_string(&self.coinbase),
            coinbase_hash: clone_opt_string(&self.coinbase_hash),
            coinbase_amount: self.coinbase_amount,
            transaction_count: self.transaction_count,
            output_message_count: self.output_message_count,
            timestamp: self.timestamp,
        };
        proof {
            assert(r@ =~= self@);
        }
        r
    }
}

impl Clone for Coinbase {
    fn clone(&self) -> (res: Self)
        ensures
            res@ == self@,
    {
        let r = Coinbase {
            id: self.id.clone(),
            height: self.height,
            da_height: self.da_height,
            block_hash: self.block_hash.clone(),
            amount: self.amount,
            coinbase: clone_opt_string(&self.coinbase),
            timestamp: self.timestamp,
        };
        proof {
            assert(r@ =~= self@);
        }
        r
    }
}

impl Clone for Transaction {
    fn clone(&self) -> (res: Self)
        ensures
            res@ == self@,
    {
        let r = Transaction {
            id: self.id.clone(),
            height: self.height,
            da_height: self.da_height,
            block_hash: self.block_hash.clone(),
            tx_type: self.tx_type,
            gas_limit: self.gas_limit,
            gas_price: self.gas_price,
            gas_used: self.gas_used,
            timestamp: self.timestamp,
            sender: clone_opt_string(&self.sender),
            status: self.status,
            reason: self.reason.clone(),
            input: clone_inputs(&self.input),
            output: clone_outputs(&self.output),
            receipts: clone_receipts(&self.receipts),
        };
        proof {
            assert(r@ =~= self@);
        }
        r
    }
}

impl Clone for Contract {
    fn clone(&self) -> (res: Self)
        ensures
            res@ == self@,
    {
        let r = Contract {
            contract_hash: self.contract_hash.clone(),
            transaction_id: self.transaction_id.clone(),
            sender: self.sender.clone(),
            bytecode: self.bytecode.clone(),
            bytecoin_length: self.bytecoin_length,
            storage_slots: clone_storage_slots(&self.storage_slots),
            timestamp: self.timestamp,
        };
        proof {
            assert(r@ =~= self@);
        }
        r
    }
}

impl Clone for Call {
    fn clone(&self) -> (res: Self)
        ensures
            res@ == self@,
    {
        let r = Call {
            transaction_id: self.transaction_id.clone(),
            height: self.height,
            da_height: self.da_height,
            block_hash: self.block_hash.clone(),
            call_type: self.call_type,
            gas_limit: self.gas_limit,
            gas_price: self.gas_price,
            gas_used: self.gas_used,
            sender: self.sender.clone(),
            receiver: self.receiver.clone(),
            amount: self.amount,
            asset_id: clone_opt_string(&self.asset_id),
            payload: clone_opt_string(&self.payload),
            payload_data: clone_opt_string(&self.payload_data),
            timestamp: self.timestamp,
        };
        proof {
            assert(r@ =~= self@);
        }
        r
    }
}

impl Clone for Assets {
    fn clone(&self) -> (res: Self)
        ensures
            res@ == self@,
    {
        let r = Assets {
            assets_id: self.assets_id.clone(),
            assets_utxo_id: self.assets_utxo_id.clone(),
            assets_owner: self.assets_owner.clone(),
            amount: self.amount,
            block_height: self.block_height,
            create_height: self.create_height,
            delete_tx_hash: self.delete_tx_hash.clone(),
            create_tx_hash: self.create_tx_hash.clone(),
            asset_status: self.asset_status,
        };
        proof {
            assert(r@ =~= self@);
        }
        r
    }
}

impl Clone for Account {
    fn clone(&self) -> (res: Self)
        ensures
            res@ == self@,
    {
        let r = Account {
            account_hash: self.account_hash.clone(),
            account_code: clone_opt_string(&self.account_code),
            account_name: clone_opt_string(&self.account_name),
            account_type: self.account_type,
            verified: self.verified,
            gas_used: self.gas_used,
            transactions_count: self.transactions_count,
            token_transfers_count: self.token_transfers_count,
            sender_count: self.sender_count,
            recever_count: self.recever_count,
            decompiled: self.decompiled,
        };
        proof {
            assert(r@ =~= self@);
        }
        r
    }
}

impl Default for Account {
    /// The empty aggregate every fold starts from.
    fn default() -> (r: Account)
        ensures
            r@ == (AccountV {
                account_hash: Seq::<char>::empty(),
                account_code: None,
                account_name: None,
                account_type: AccountType::Account,
                verified: false,
                gas_used: 0,
                transactions_count: 0,
                token_transfers_count: 0,
                sender_count: 0,
                recever_count: 0,
                decompiled: false,
            }),
    {
        Account {
            account_hash: String::new(),
            account_code: None,
            account_name: None,
            account_type: AccountType::Account,
            verified: false,
            gas_used: 0,
            transactions_count: 0,
            token_transfers_count: 0,
            sender_count: 0,
            recever_count: 0,
            decompiled: false,
        }
    }
}

} // verus!
