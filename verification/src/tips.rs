//! Tip lifecycle engine: initializing user accounts and creating, executing,
//! and cancelling single-recipient pending transfers.
//!
//! Each handler is specified by a transition function on account models that
//! returns the result and the successor state; on any failure the successor
//! state is the input state, mirroring the runtime's all-or-nothing commit.
//! Accounts are supplied positionally; each handler's doc comment gives its
//! order.

use vstd::prelude::*;
use vstd::utf8::encode_utf8;
use crate::codec::{
    TipData, TipDataView, enc_tip_data, parse_tip_data, encode_tip_data, decode_tip_data,
};
use crate::identity::{
    Address, AddressView, spec_derive, user_label, user_label_bytes, derive_address, address_eq,
    clone_address,
};
use crate::ledger::{
    Account, AccountView, EngineError, Rent, views, spec_minimum_balance, verify_signer,
    verify_address,
};

verus! {

/// Transition for `InitializeUserAccount`. Accounts: `[user account, payer
/// wallet]`. Creates the user's derived account at the rent minimum when it
/// does not exist yet; calling it again is a no-op.
pub open spec fn spec_initialize_user_account(
    s: Seq<AccountView>,
    rent: Rent,
    user_id: Seq<char>,
) -> (Result<(), EngineError>, Seq<AccountView>) {
    if s.len() != 2 {
        (Err(EngineError::AccountMismatch), s)
    } else if s[0].address != spec_derive(user_label(), encode_utf8(user_id)) {
        (Err(EngineError::AccountMismatch), s)
    } else if s[0].lamports == 0 {
        let min = spec_minimum_balance(rent, 0);
        if min > u64::MAX {
            (Err(EngineError::ArithmeticOverflow), s)
        } else if (s[1].lamports as int) < min {
            (Err(EngineError::InsufficientFunds), s)
        } else {
            let user2 = AccountView { lamports: min as u64, data: Seq::empty(), ..s[0] };
            let payer2 = AccountView { lamports: (s[1].lamports - min) as u64, ..s[1] };
            (Ok(()), s.update(0, user2).update(1, payer2))
        }
    } else {
        (Ok(()), s)
    }
}

/// Initializes a user's derived account. Accounts: `[user account, payer
/// wallet]`. Idempotent: a second call on an existing account changes
/// nothing.
pub fn process_initialize_user_account(
    accounts: &mut Vec<Account>,
    rent: &Rent,
    user_id: &String,
) -> (r: Result<(), EngineError>)
    ensures
        ({
            let (res, s2) = spec_initialize_user_account(
                views(old(accounts)@),
                *rent,
                user_id@,
            );
            r == res && views(final(accounts)@) == s2
        }),
{
    if accounts.len() != 2 {
        return Err(EngineError::AccountMismatch);
    }
    let label = user_label_bytes();
    let seed: Vec<u8> = vstd::slice::slice_to_vec(user_id.as_str().as_bytes());
    let derivation = derive_address(&label, &seed);
    if let Err(e) = verify_address(&accounts[0], &derivation.address) {
        return Err(e);
    }
    if accounts[0].lamports == 0 {
        let min: u64 = match rent.minimum_balance(0) {
            Some(m) => m,
            None => {
                return Err(EngineError::ArithmeticOverflow);
            },
        };
        if accounts[1].lamports < min {
            return Err(EngineError::InsufficientFunds);
        }
        let payer_balance = accounts[1].lamports;
        accounts[1].lamports = payer_balance - min;
        accounts[0].lamports = min;
        accounts[0].data = Vec::new();
        proof {
            let (res, s2) = spec_initialize_user_account(views(old(accounts)@), *rent, user_id@);
            assert(views(accounts@) =~~= s2);
        }
        Ok(())
    } else {
        proof {
            assert(views(accounts@) =~~= views(old(accounts)@));
        }
        Ok(())
    }
}

/// Transition for `CreateTip`. Accounts: `[tip account, sender wallet]`.
/// Builds the tip record, creates the tip account at the rent minimum when
/// absent, and writes the record with a checked-length overwrite otherwise.
pub open spec fn spec_create_tip(
    s: Seq<AccountView>,
    rent: Rent,
    now: i64,
    amount: u64,
    recipient: AddressView,
) -> (Result<(), EngineError>, Seq<AccountView>) {
    if s.len() != 2 {
        (Err(EngineError::AccountMismatch), s)
    } else if !s[1].is_signer {
        (Err(EngineError::Authorization), s)
    } else if amount == 0 {
        (Err(EngineError::InvalidAmount), s)
    } else {
        let record = TipDataView { sender: s[1].address, recipient, amount, timestamp: now };
        let bytes = enc_tip_data(record);
        if s[0].lamports == 0 {
            let min = spec_minimum_balance(rent, bytes.len());
            if min > u64::MAX {
                (Err(EngineError::ArithmeticOverflow), s)
            } else if (s[1].lamports as int) < min {
                (Err(EngineError::InsufficientFunds), s)
            } else {
                let tip2 = AccountView { lamports: min as u64, data: bytes, ..s[0] };
                let sender2 = AccountView { lamports: (s[1].lamports - min) as u64, ..s[1] };
                (Ok(()), s.update(0, tip2).update(1, sender2))
            }
        } else {
            if s[0].data.len() != bytes.len() {
                (Err(EngineError::AccountMismatch), s)
            } else {
                let tip2 = AccountView { data: bytes, ..s[0] };
                (Ok(()), s.update(0, tip2))
            }
        }
    }
}

/// Creates a pending tip. Accounts: `[tip account, sender wallet]`. The
/// sender must co-sign and the amount must be positive; overwriting an
/// existing record demands an exact length match.
pub fn process_create_tip(
    accounts: &mut Vec<Account>,
    rent: &Rent,
    now: i64,
    amount: u64,
    recipient: &Address,
) -> (r: Result<(), EngineError>)
    ensures
        ({
            let (res, s2) = spec_create_tip(views(old(accounts)@), *rent, now, amount, recipient@);
            r == res && views(final(accounts)@) == s2
        }),
{
    if accounts.len() != 2 {
        return Err(EngineError::AccountMismatch);
    }
    if let Err(e) = verify_signer(&accounts[1]) {
        return Err(e);
    }
    if amount == 0 {
        return Err(EngineError::InvalidAmount);
    }
    let record = TipData {
        sender: clone_address(&accounts[1].address),
        recipient: clone_address(recipient),
        amount,
        timestamp: now,
    };
    let bytes = encode_tip_data(&record);
    if accounts[0].lamports == 0 {
        let min: u64 = match rent.minimum_balance(bytes.len()) {
            Some(m) => m,
            None => {
                return Err(EngineError::ArithmeticOverflow);
            },
        };
        if accounts[1].lamports < min {
            return Err(EngineError::InsufficientFunds);
        }
        let sender_balance = accounts[1].lamports;
        accounts[1].lamports = sender_balance - min;
        accounts[0].lamports = min;
        accounts[0].data = bytes;
        proof {
            let (res, s2) = spec_create_tip(views(old(accounts)@), *rent, now, amount, recipient@);
            assert(views(accounts@) =~~= s2);
        }
        Ok(())
    } else {
        if accounts[0].data.len() != bytes.len() {
            return Err(EngineError::AccountMismatch);
        }
        accounts[0].data = bytes;
        proof {
            let (res, s2) = spec_create_tip(views(old(accounts)@), *rent, now, amount, recipient@);
            assert(views(accounts@) =~~= s2);
        }
        Ok(())
    }
}

/// Transition for `ExecuteTip`. Accounts: `[tip account, sender wallet,
/// recipient wallet]`. Moves the recorded amount from sender to recipient,
/// then closes the tip account, refunding its deposit to the sender. A
/// record whose backing account holds zero balance is exhausted and is
/// rejected.
pub open spec fn spec_execute_tip(s: Seq<AccountView>, tip_id: Seq<u8>) -> (Result<
    (),
    EngineError,
>, Seq<AccountView>) {
    if s.len() != 3 {
        (Err(EngineError::AccountMismatch), s)
    } else if !s[1].is_signer {
        (Err(EngineError::Authorization), s)
    } else if s[0].lamports == 0 {
        (Err(EngineError::AccountMismatch), s)
    } else {
        match parse_tip_data(s[0].data) {
            None => (Err(EngineError::Decode), s),
            Some(record) => {
                if record.sender != s[1].address {
                    (Err(EngineError::AccountMismatch), s)
                } else if record.recipient != s[2].address {
                    (Err(EngineError::AccountMismatch), s)
                } else if s[1].lamports < record.amount {
                    (Err(EngineError::InsufficientFunds), s)
                } else if s[2].lamports + record.amount > u64::MAX {
                    (Err(EngineError::ArithmeticOverflow), s)
                } else if s[1].lamports - record.amount + s[0].lamports > u64::MAX {
                    (Err(EngineError::ArithmeticOverflow), s)
                } else {
                    let tip2 = AccountView { lamports: 0u64, ..s[0] };
                    let sender2 = AccountView {
                        lamports: (s[1].lamports - record.amount + s[0].lamports) as u64,
                        ..s[1]
                    };
                    let recipient2 = AccountView {
                        lamports: (s[2].lamports + record.amount) as u64,
                        ..s[2]
                    };
                    (Ok(()), s.update(0, tip2).update(1, sender2).update(2, recipient2))
                }
            },
        }
    }
}

/// Executes a pending tip. Accounts: `[tip account, sender wallet, recipient
/// wallet]`. Terminal: afterwards the tip account's balance is zero and any
/// further execute or cancel is rejected.
pub fn process_execute_tip(accounts: &mut Vec<Account>, _tip_id: &Vec<u8>) -> (r: Result<
    (),
    EngineError,
>)
    ensures
        ({
            let (res, s2) = spec_execute_tip(views(old(accounts)@), _tip_id@);
            r == res && views(final(accounts)@) == s2
        }),
{
    if accounts.len() != 3 {
        return Err(EngineError::AccountMismatch);
    }
    if let Err(e) = verify_signer(&accounts[1]) {
        return Err(e);
    }
    if accounts[0].lamports == 0 {
        return Err(EngineError::AccountMismatch);
    }
    let record = match decode_tip_data(&accounts[0].data) {
        Ok(record) => record,
        Err(e) => {
            return Err(e);
        },
    };
    if !address_eq(&record.sender, &accounts[1].address) {
        return Err(EngineError::AccountMismatch);
    }
    if !address_eq(&record.recipient, &accounts[2].address) {
        return Err(EngineError::AccountMismatch);
    }
    if accounts[1].lamports < record.amount {
        return Err(EngineError::InsufficientFunds);
    }
    let recipient_balance: u64 = match accounts[2].lamports.checked_add(record.amount) {
        Some(b) => b,
        None => {
            return Err(EngineError::ArithmeticOverflow);
        },
    };
    let sender_balance: u64 = match (accounts[1].lamports - record.amount).checked_add(
        accounts[0].lamports,
    ) {
        Some(b) => b,
        None => {
            return Err(EngineError::ArithmeticOverflow);
        },
    };
    accounts[0].lamports = 0;
    accounts[1].lamports = sender_balance;
    accounts[2].lamports = recipient_balance;
    proof {
        let (res, s2) = spec_execute_tip(views(old(accounts)@), _tip_id@);
        assert(views(accounts@) =~~= s2);
    }
    Ok(())
}

/// Transition for `CancelTip`. Accounts: `[tip account, sender wallet]`. No
/// transfer happens; the tip account is closed and its deposit refunded to
/// the sender.
pub open spec fn spec_cancel_tip(s: Seq<AccountView>, tip_id: Seq<u8>) -> (Result<
    (),
    EngineError,
>, Seq<AccountView>) {
    if s.len() != 2 {
        (Err(EngineError::AccountMismatch), s)
    } else if !s[1].is_signer {
        (Err(EngineError::Authorization), s)
    } else if s[0].lamports == 0 {
        (Err(EngineError::AccountMismatch), s)
    } else {
        match parse_tip_data(s[0].data) {
            None => (Err(EngineError::Decode), s),
            Some(record) => {
                if record.sender != s[1].address {
                    (Err(EngineError::AccountMismatch), s)
                } else if s[1].lamports + s[0].lamports > u64::MAX {
                    (Err(EngineError::ArithmeticOverflow), s)
                } else {
                    let tip2 = AccountView { lamports: 0u64, ..s[0] };
                    let sender2 = AccountView {
                        lamports: (s[1].lamports + s[0].lamports) as u64,
                        ..s[1]
                    };
                    (Ok(()), s.update(0, tip2).update(1, sender2))
                }
            },
        }
    }
}

/// Cancels a pending tip. Accounts: `[tip account, sender wallet]`.
/// Terminal, exactly as execute, but without any transfer to the recipient.
pub fn process_cancel_tip(accounts: &mut Vec<Account>, _tip_id: &Vec<u8>) -> (r: Result<
    (),
    EngineError,
>)
    ensures
        ({
            let (res, s2) = spec_cancel_tip(views(old(accounts)@), _tip_id@);
            r == res && views(final(accounts)@) == s2
        }),
{
    if accounts.len() != 2 {
        return Err(EngineError::AccountMismatch);
    }
    if let Err(e) = verify_signer(&accounts[1]) {
        return Err(e);
    }
    if accounts[0].lamports == 0 {
        return Err(EngineError::AccountMismatch);
    }
    let record = match decode_tip_data(&accounts[0].data) {
        Ok(record) => record,
        Err(e) => {
            return Err(e);
        },
    };
    if !address_eq(&record.sender, &accounts[1].address) {
        return Err(EngineError::AccountMismatch);
    }
    let sender_balance: u64 = match accounts[1].lamports.checked_add(accounts[0].lamports) {
        Some(b) => b,
        None => {
            return Err(EngineError::ArithmeticOverflow);
        },
    };
    accounts[0].lamports = 0;
    accounts[1].lamports = sender_balance;
    proof {
        let (res, s2) = spec_cancel_tip(views(old(accounts)@), _tip_id@);
        assert(views(accounts@) =~~= s2);
    }
    Ok(())
}

// ---------------------------------------------------------------------------
// Terminality of the tip lifecycle.
// ---------------------------------------------------------------------------

/// A successful execute or cancel zeroes the tip account's balance: the
/// record's backing storage is exhausted.
pub proof fn lemma_tip_terminal_closes(s: Seq<AccountView>, tip_id: Seq<u8>)
    ensures
        spec_execute_tip(s, tip_id).0 is Ok ==> spec_execute_tip(s, tip_id).1[0].lamports == 0,
        spec_cancel_tip(s, tip_id).0 is Ok ==> spec_cancel_tip(s, tip_id).1[0].lamports == 0,
{
}

/// A tip record whose backing account holds zero balance accepts no further
/// transition: execute and cancel both fail and leave every account
/// unchanged.
pub proof fn lemma_closed_tip_rejects(s: Seq<AccountView>, tip_id: Seq<u8>)
    requires
        s.len() >= 1,
        s[0].lamports == 0,
    ensures
        spec_execute_tip(s, tip_id).0 is Err,
        spec_execute_tip(s, tip_id).1 == s,
        spec_cancel_tip(s, tip_id).0 is Err,
        spec_cancel_tip(s, tip_id).1 == s,
{
}

/// Exactly-once terminal transition: once a tip record reaches Executed or
/// Cancelled, neither terminal transition can be taken again.
pub proof fn lemma_tip_exactly_once(s: Seq<AccountView>, id1: Seq<u8>, id2: Seq<u8>)
    requires
        spec_execute_tip(s, id1).0 is Ok || spec_cancel_tip(s, id1).0 is Ok,
    ensures
        spec_execute_tip(s, id1).0 is Ok ==> {
            let s2 = spec_execute_tip(s, id1).1;
            &&& spec_execute_tip(s2, id2).0 is Err
            &&& spec_execute_tip(s2, id2).1 == s2
            &&& spec_cancel_tip(s2, id2).0 is Err
            &&& spec_cancel_tip(s2, id2).1 == s2
        },
        spec_cancel_tip(s, id1).0 is Ok ==> {
            let s2 = spec_cancel_tip(s, id1).1;
            &&& spec_execute_tip(s2, id2).0 is Err
            &&& spec_execute_tip(s2, id2).1 == s2
            &&& spec_cancel_tip(s2, id2).0 is Err
            &&& spec_cancel_tip(s2, id2).1 == s2
        },
{
    if spec_execute_tip(s, id1).0 is Ok {
        lemma_tip_terminal_closes(s, id1);
        lemma_closed_tip_rejects(spec_execute_tip(s, id1).1, id2);
    }
    if spec_cancel_tip(s, id1).0 is Ok {
        lemma_tip_terminal_closes(s, id1);
        lemma_closed_tip_rejects(spec_cancel_tip(s, id1).1, id2);
    }
}

} // verus!
