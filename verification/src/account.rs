//! The per-address account roll-up: each call contributes one sender and
//! one receiver entry, and entries of the same address fold additively.

use vstd::prelude::*;
use vstd::seq_lib::*;

use crate::records::{Account, AccountType, AccountV, Call, CallType, CallV};
use crate::store::{apply_account_records, apply_accounts};

verus! {

/// What the sender of a call contributes to its aggregate.
pub open spec fn spec_caller_account(c: CallV) -> AccountV {
    AccountV {
        account_hash: c.sender,
        account_code: None,
        account_name: None,
        account_type: AccountType::Account,
        verified: false,
        gas_used: c.gas_used,
        transactions_count: 0,
        token_transfers_count: 0,
        sender_count: 1,
        recever_count: 0,
        decompiled: false,
    }
}

/// What the receiver of a call contributes: a contract for a contract
/// call, a plain account for a transfer.
pub open spec fn spec_receiver_account(c: CallV) -> AccountV {
    AccountV {
        account_hash: c.receiver,
        account_code: None,
        account_name: None,
        account_type: if c.call_type == CallType::Contract {
            AccountType::Contract
        } else {
            AccountType::Account
        },
        verified: false,
        gas_used: c.gas_used,
        transactions_count: 0,
        token_transfers_count: 0,
        sender_count: 0,
        recever_count: 1,
        decompiled: false,
    }
}

/// The raw contribution list: sender then receiver, call by call.
pub open spec fn spec_accounts_raw(calls: Seq<CallV>) -> Seq<AccountV>
    decreases calls.len(),
{
    if calls.len() == 0 {
        Seq::empty()
    } else {
        spec_accounts_raw(calls.drop_last()) + seq![
            spec_caller_account(calls.last()),
            spec_receiver_account(calls.last()),
        ]
    }
}

/// The aggregates of a batch of calls: the raw contributions folded
/// additively by address, in order of first appearance.
pub open spec fn spec_process_account(calls: Seq<CallV>) -> Seq<AccountV> {
    apply_accounts(Seq::empty(), spec_accounts_raw(calls))
}

/// Folds a batch of call records into per-address account aggregates.
pub fn process_account(calls: &Vec<Call>) -> (r: Vec<Account>)
    ensures
        r.deep_view() == spec_process_account(calls.deep_view()),
{
    let ghost cv = calls.deep_view();
    let mut raw: Vec<Account> = Vec::new();
    proof {
        assert(cv.take(0) =~= Seq::<CallV>::empty());
        assert(raw.deep_view() =~= spec_accounts_raw(cv.take(0)));
    }
    let n = calls.len();
    for i in 0..n
        invariant
            n == calls.len(),
            cv == calls.deep_view(),
            raw.deep_view() == spec_accounts_raw(cv.take(i as int)),
    {
        let ghost prev = raw.deep_view();
        proof {
            assert(calls@[i as int].deep_view() == cv[i as int]);
        }
        let call = &calls[i];
        let mut caller = Account::default();
        caller.account_hash = call.sender.clone();
        caller.account_type = AccountType::Account;
        caller.gas_used = call.gas_used;
        caller.sender_count = 1;
        proof {
            assert(caller@ =~= spec_caller_account(cv[i as int]));
        }
        raw.push(caller);
        let mut receiver = Account::default();
        receiver.account_hash = call.receiver.clone();
        receiver.account_type = if call.call_type == CallType::Contract {
            AccountType::Contract
        } else {
            AccountType::Account
        };
        receiver.gas_used = call.gas_used;
        receiver.recever_count = 1;
        proof {
            assert(receiver@ =~= spec_receiver_account(cv[i as int]));
        }
        raw.push(receiver);
        proof {
            assert(cv.take(i as int + 1).drop_last() =~= cv.take(i as int));
            assert(cv.take(i as int + 1).last() == cv[i as int]);
            assert(raw.deep_view() =~= prev + seq![
                spec_caller_account(cv[i as int]),
                spec_receiver_account(cv[i as int]),
            ]);
            assert(raw.deep_view() =~= spec_accounts_raw(cv.take(i as int + 1)));
        }
    }
    proof {
        assert(cv.take(n as int) =~= cv);
    }
    let mut out: Vec<Account> = Vec::new();
    proof {
        assert(out.deep_view() =~= Seq::<AccountV>::empty());
    }
    apply_account_records(&mut out, &raw);
    out
}

} // verus!
