//! Escrow/airdrop engine: collecting funds into a pooled derived account,
//! claim-based partial withdrawal, push-model distribution with an optional
//! platform fee, and refund-to-sender.
//!
//! Each handler is specified by a transition function on account models.
//! A pool's counter lives in the first eight bytes of its account storage;
//! its balance must cover the counter for any payout to go through. A pool
//! whose account balance is zero is closed: every handler treats it as
//! exhausted and rejects it, which is what makes Distribute and Refund
//! terminal.

use vstd::prelude::*;
use crate::codec::{
    AirdropRecipient, AirdropRecipientView, recipient_views, counter_of, enc_u64, read_counter,
    with_counter,
};
use crate::identity::{
    Address, AddressView, spec_derive, escrow_label, escrow_label_bytes, derive_address,
};
use crate::ledger::{
    Account, AccountView, EngineError, Rent, views, spec_minimum_balance, verify_signer,
    verify_address,
};

verus! {

// ---------------------------------------------------------------------------
// Fee arithmetic.
// ---------------------------------------------------------------------------

/// The platform fee on `total` at `pct` percent: floor division when the
/// percentage lies in (0, 100], and zero otherwise.
pub open spec fn fee_of(total: u64, pct: u8) -> int {
    if 0 < pct <= 100 {
        (total * pct) / 100
    } else {
        0
    }
}

/// Fee bounds: a percentage outside (0, 100] yields no fee, the fee never
/// exceeds the total, and a percentage of exactly 100 consumes the whole
/// total, leaving nothing distributable.
pub proof fn lemma_fee_bounds(total: u64, pct: u8)
    ensures
        (pct == 0 || pct > 100) ==> fee_of(total, pct) == 0,
        0 <= fee_of(total, pct) <= total,
        pct == 100 ==> fee_of(total, pct) == total,
{
    if 0 < pct <= 100 {
        assert(0 <= total * pct <= total * 100) by (nonlinear_arith)
            requires
                0 <= total,
                0 < pct <= 100,
        ;
        vstd::arithmetic::div_mod::lemma_div_is_ordered(
            (total * pct) as int,
            (total * 100) as int,
            100,
        );
        vstd::arithmetic::div_mod::lemma_div_by_multiple(total as int, 100);
        vstd::arithmetic::div_mod::lemma_div_pos_is_pos((total * pct) as int, 100);
    }
}

/// Computes the platform fee.
pub fn compute_fee(total: u64, fee_percentage: u8) -> (r: u64)
    ensures
        r == fee_of(total, fee_percentage),
        r <= total,
{
    proof {
        lemma_fee_bounds(total, fee_percentage);
    }
    if fee_percentage > 0 && fee_percentage <= 100 {
        let wide: u128 = (total as u128) * (fee_percentage as u128);
        let fee128: u128 = wide / 100;
        fee128 as u64
    } else {
        0
    }
}

// ---------------------------------------------------------------------------
// Recipient sums.
// ---------------------------------------------------------------------------

/// The sum of the requested amounts of a distribution list.
pub open spec fn sum_amounts(rs: Seq<AirdropRecipientView>) -> int
    decreases rs.len(),
{
    if rs.len() == 0 {
        0
    } else {
        sum_amounts(rs.drop_last()) + rs.last().amount
    }
}

/// Every prefix sum is bounded by the whole sum.
pub proof fn lemma_sum_amounts_prefix_bound(s: Seq<AirdropRecipientView>, k: int)
    requires
        0 <= k <= s.len(),
    ensures
        sum_amounts(s.take(k)) <= sum_amounts(s),
    decreases s.len() - k,
{
    if k == s.len() {
        assert(s.take(k) =~= s);
    } else {
        assert(s.take(k + 1).drop_last() =~= s.take(k));
        assert(s.take(k + 1).last() == s[k]);
        lemma_sum_amounts_prefix_bound(s, k + 1);
    }
}

/// Sums a distribution list, or reports that the sum exceeds the balance
/// type.
fn sum_recipient_amounts(recipients: &Vec<AirdropRecipient>) -> (r: Option<u64>)
    ensures
        match r {
            Some(total) => total == sum_amounts(recipient_views(recipients@)),
            None => sum_amounts(recipient_views(recipients@)) > u64::MAX,
        },
{
    let mut acc: u64 = 0;
    let mut i: usize = 0;
    proof {
        assert(recipient_views(recipients@).take(0) =~= Seq::<AirdropRecipientView>::empty());
    }
    while i < recipients.len()
        invariant
            i <= recipients@.len(),
            acc == sum_amounts(recipient_views(recipients@).take(i as int)),
        decreases recipients@.len() - i,
    {
        let a = recipients[i].amount;
        proof {
            let rv = recipient_views(recipients@);
            assert(rv.take(i as int + 1).drop_last() =~= rv.take(i as int));
            assert(rv.take(i as int + 1).last() == rv[i as int]);
        }
        match acc.checked_add(a) {
            Some(next) => {
                acc = next;
            },
            None => {
                proof {
                    lemma_sum_amounts_prefix_bound(recipient_views(recipients@), i as int + 1);
                }
                return None;
            },
        }
        i += 1;
    }
    proof {
        assert(recipient_views(recipients@).take(recipients@.len() as int) =~= recipient_views(
            recipients@,
        ));
    }
    Some(acc)
}

// ---------------------------------------------------------------------------
// CollectFunds.
// ---------------------------------------------------------------------------

/// Transition for `CollectFunds`. Accounts: `[escrow pool, sender wallet]`.
/// Creates the pool at the rent minimum when absent, moves the collected
/// amount into it, and adds the amount to the stored counter. Collecting
/// into an existing pool accumulates: the counter grows by the new amount,
/// exactly as the pool's balance does.
pub open spec fn spec_collect_funds(
    s: Seq<AccountView>,
    rent: Rent,
    total_amount: u64,
    airdrop_id: Seq<u8>,
) -> (Result<(), EngineError>, Seq<AccountView>) {
    if s.len() != 2 {
        (Err(EngineError::AccountMismatch), s)
    } else if !s[1].is_signer {
        (Err(EngineError::Authorization), s)
    } else if s[0].address != spec_derive(escrow_label(), airdrop_id) {
        (Err(EngineError::AccountMismatch), s)
    } else {
        let created = s[0].lamports == 0;
        if !created && s[0].data.len() < 8 {
            (Err(EngineError::Decode), s)
        } else {
            let min: int = if created {
                spec_minimum_balance(rent, 8)
            } else {
                0
            };
            let base: u64 = if created {
                0u64
            } else {
                counter_of(s[0].data)
            };
            if min > u64::MAX {
                (Err(EngineError::ArithmeticOverflow), s)
            } else if (s[1].lamports as int) < min + total_amount {
                (Err(EngineError::InsufficientFunds), s)
            } else if s[0].lamports + min + total_amount > u64::MAX {
                (Err(EngineError::ArithmeticOverflow), s)
            } else if base + total_amount > u64::MAX {
                (Err(EngineError::ArithmeticOverflow), s)
            } else {
                let tail: Seq<u8> = if created {
                    Seq::empty()
                } else {
                    s[0].data.skip(8)
                };
                let esc2 = AccountView {
                    lamports: (s[0].lamports + min + total_amount) as u64,
                    data: enc_u64((base + total_amount) as u64) + tail,
                    ..s[0]
                };
                let sender2 = AccountView {
                    lamports: (s[1].lamports - min - total_amount) as u64,
                    ..s[1]
                };
                (Ok(()), s.update(0, esc2).update(1, sender2))
            }
        }
    }
}

/// Collects funds into an airdrop's escrow pool. Accounts: `[escrow pool,
/// sender wallet]`.
pub fn process_collect_funds(
    accounts: &mut Vec<Account>,
    rent: &Rent,
    total_amount: u64,
    airdrop_id: &Vec<u8>,
) -> (r: Result<(), EngineError>)
    ensures
        ({
            let (res, s2) = spec_collect_funds(
                views(old(accounts)@),
                *rent,
                total_amount,
                airdrop_id@,
            );
            r == res && views(final(accounts)@) == s2
        }),
{
    if accounts.len() != 2 {
        return Err(EngineError::AccountMismatch);
    }
    if let Err(e) = verify_signer(&accounts[1]) {
        return Err(e);
    }
    let label = escrow_label_bytes();
    let derivation = derive_address(&label, airdrop_id);
    if let Err(e) = verify_address(&accounts[0], &derivation.address) {
        return Err(e);
    }
    let created = accounts[0].lamports == 0;
    if !created && accounts[0].data.len() < 8 {
        return Err(EngineError::Decode);
    }
    let min: u64 = if created {
        match rent.minimum_balance(8) {
            Some(m) => m,
            None => {
                return Err(EngineError::ArithmeticOverflow);
            },
        }
    } else {
        0
    };
    let base: u64 = if created {
        0
    } else {
        read_counter(&accounts[0].data)
    };
    let need: u64 = match min.checked_add(total_amount) {
        Some(n) => n,
        None => {
            return Err(EngineError::InsufficientFunds);
        },
    };
    if accounts[1].lamports < need {
        return Err(EngineError::InsufficientFunds);
    }
    let pool_balance: u64 = match accounts[0].lamports.checked_add(need) {
        Some(b) => b,
        None => {
            return Err(EngineError::ArithmeticOverflow);
        },
    };
    let counter: u64 = match base.checked_add(total_amount) {
        Some(c) => c,
        None => {
            return Err(EngineError::ArithmeticOverflow);
        },
    };
    let new_data: Vec<u8> = if created {
        vstd::bytes::u64_to_le_bytes(counter)
    } else {
        with_counter(&accounts[0].data, counter)
    };
    let sender_balance = accounts[1].lamports;
    accounts[0].lamports = pool_balance;
    accounts[0].data = new_data;
    accounts[1].lamports = sender_balance - need;
    proof {
        let (res, s2) = spec_collect_funds(views(old(accounts)@), *rent, total_amount, airdrop_id@);
        if views(old(accounts)@)[0].lamports == 0 {
            assert(enc_u64(counter) + Seq::<u8>::empty() =~= enc_u64(counter));
        }
        assert(views(accounts@) =~~= s2);
    }
    Ok(())
}

// ---------------------------------------------------------------------------
// DistributeAirdrop.
// ---------------------------------------------------------------------------

/// Transition for `DistributeAirdrop`. Accounts: `[escrow pool, sender
/// wallet, fee wallet]`. Reads the pool's counter as the collected total,
/// takes the fee, pays each listed recipient, refunds the remainder and the
/// pool's whole leftover balance to the sender, and closes the pool.
/// Recipient payouts leave the supplied account list; fund conservation over
/// them is [`lemma_distribute_conserves_funds`].
pub open spec fn spec_distribute_airdrop(
    s: Seq<AccountView>,
    airdrop_id: Seq<u8>,
    recipients: Seq<AirdropRecipientView>,
    fee_wallet: AddressView,
    fee_percentage: u8,
) -> (Result<(), EngineError>, Seq<AccountView>) {
    if s.len() != 3 {
        (Err(EngineError::AccountMismatch), s)
    } else if !s[1].is_signer {
        (Err(EngineError::Authorization), s)
    } else if s[2].address != fee_wallet {
        (Err(EngineError::AccountMismatch), s)
    } else if s[0].address != spec_derive(escrow_label(), airdrop_id) {
        (Err(EngineError::AccountMismatch), s)
    } else if s[0].lamports == 0 {
        (Err(EngineError::AccountMismatch), s)
    } else if s[0].data.len() < 8 {
        (Err(EngineError::Decode), s)
    } else {
        let total = counter_of(s[0].data);
        let fee = fee_of(total, fee_percentage);
        let distributable = total - fee;
        let sum = sum_amounts(recipients);
        if sum > distributable {
            (Err(EngineError::InsufficientFunds), s)
        } else if s[0].lamports < total {
            (Err(EngineError::InsufficientFunds), s)
        } else {
            let remainder = distributable - sum;
            if s[2].lamports + fee > u64::MAX {
                (Err(EngineError::ArithmeticOverflow), s)
            } else if s[1].lamports + remainder + (s[0].lamports - total) > u64::MAX {
                (Err(EngineError::ArithmeticOverflow), s)
            } else {
                let esc2 = AccountView { lamports: 0u64, ..s[0] };
                let sender2 = AccountView {
                    lamports: (s[1].lamports + remainder + (s[0].lamports - total)) as u64,
                    ..s[1]
                };
                let fee2 = AccountView { lamports: (s[2].lamports + fee) as u64, ..s[2] };
                (Ok(()), s.update(0, esc2).update(1, sender2).update(2, fee2))
            }
        }
    }
}

/// Distributes an airdrop's pool. Accounts: `[escrow pool, sender wallet,
/// fee wallet]`. Terminal: the pool's balance is zero afterwards.
pub fn process_distribute_airdrop(
    accounts: &mut Vec<Account>,
    airdrop_id: &Vec<u8>,
    recipients: &Vec<AirdropRecipient>,
    fee_wallet: &Address,
    fee_percentage: u8,
) -> (r: Result<(), EngineError>)
    ensures
        ({
            let (res, s2) = spec_distribute_airdrop(
                views(old(accounts)@),
                airdrop_id@,
                recipient_views(recipients@),
                fee_wallet@,
                fee_percentage,
            );
            r == res && views(final(accounts)@) == s2
        }),
{
    if accounts.len() != 3 {
        return Err(EngineError::AccountMismatch);
    }
    if let Err(e) = verify_signer(&accounts[1]) {
        return Err(e);
    }
    if let Err(e) = verify_address(&accounts[2], fee_wallet) {
        return Err(e);
    }
    let label = escrow_label_bytes();
    let derivation = derive_address(&label, airdrop_id);
    if let Err(e) = verify_address(&accounts[0], &derivation.address) {
        return Err(e);
    }
    if accounts[0].lamports == 0 {
        return Err(EngineError::AccountMismatch);
    }
    if accounts[0].data.len() < 8 {
        return Err(EngineError::Decode);
    }
    let total = read_counter(&accounts[0].data);
    let fee = compute_fee(total, fee_percentage);
    let distributable: u64 = total - fee;
    let sum: u64 = match sum_recipient_amounts(recipients) {
        Some(sum) => sum,
        None => {
            return Err(EngineError::InsufficientFunds);
        },
    };
    if sum > distributable {
        return Err(EngineError::InsufficientFunds);
    }
    if accounts[0].lamports < total {
        return Err(EngineError::InsufficientFunds);
    }
    let remainder: u64 = distributable - sum;
    let fee_balance: u64 = match accounts[2].lamports.checked_add(fee) {
        Some(b) => b,
        None => {
            return Err(EngineError::ArithmeticOverflow);
        },
    };
    let leftover: u64 = accounts[0].lamports - total;
    let sender_balance: u64 = match accounts[1].lamports.checked_add(remainder) {
        Some(b) => match b.checked_add(leftover) {
            Some(b2) => b2,
            None => {
                return Err(EngineError::ArithmeticOverflow);
            },
        },
        None => {
            return Err(EngineError::ArithmeticOverflow);
        },
    };
    accounts[0].lamports = 0;
    accounts[1].lamports = sender_balance;
    accounts[2].lamports = fee_balance;
    proof {
        let (res, s2) = spec_distribute_airdrop(
            views(old(accounts)@),
            airdrop_id@,
            recipient_views(recipients@),
            fee_wallet@,
            fee_percentage,
        );
        assert(views(accounts@) =~~= s2);
    }
    Ok(())
}

// ---------------------------------------------------------------------------
// RefundEscrow.
// ---------------------------------------------------------------------------

/// Transition for `RefundEscrow`. Accounts: `[escrow pool, sender wallet]`.
/// Returns the counter's worth and the pool's whole leftover balance to the
/// sender and closes the pool.
pub open spec fn spec_refund_escrow(s: Seq<AccountView>, airdrop_id: Seq<u8>) -> (Result<
    (),
    EngineError,
>, Seq<AccountView>) {
    if s.len() != 2 {
        (Err(EngineError::AccountMismatch), s)
    } else if !s[1].is_signer {
        (Err(EngineError::Authorization), s)
    } else if s[0].address != spec_derive(escrow_label(), airdrop_id) {
        (Err(EngineError::AccountMismatch), s)
    } else if s[0].lamports == 0 {
        (Err(EngineError::AccountMismatch), s)
    } else if s[0].data.len() < 8 {
        (Err(EngineError::Decode), s)
    } else {
        let total = counter_of(s[0].data);
        if s[0].lamports < total {
            (Err(EngineError::InsufficientFunds), s)
        } else if s[1].lamports + s[0].lamports > u64::MAX {
            (Err(EngineError::ArithmeticOverflow), s)
        } else {
            let esc2 = AccountView { lamports: 0u64, ..s[0] };
            let sender2 = AccountView {
                lamports: (s[1].lamports + s[0].lamports) as u64,
                ..s[1]
            };
            (Ok(()), s.update(0, esc2).update(1, sender2))
        }
    }
}

/// Refunds an airdrop's pool to its sender. Accounts: `[escrow pool, sender
/// wallet]`. Terminal: the pool's balance is zero afterwards.
pub fn process_refund_escrow(accounts: &mut Vec<Account>, airdrop_id: &Vec<u8>) -> (r: Result<
    (),
    EngineError,
>)
    ensures
        ({
            let (res, s2) = spec_refund_escrow(views(old(accounts)@), airdrop_id@);
            r == res && views(final(accounts)@) == s2
        }),
{
    if accounts.len() != 2 {
        return Err(EngineError::AccountMismatch);
    }
    if let Err(e) = verify_signer(&accounts[1]) {
        return Err(e);
    }
    let label = escrow_label_bytes();
    let derivation = derive_address(&label, airdrop_id);
    if let Err(e) = verify_address(&accounts[0], &derivation.address) {
        return Err(e);
    }
    if accounts[0].lamports == 0 {
        return Err(EngineError::AccountMismatch);
    }
    if accounts[0].data.len() < 8 {
        return Err(EngineError::Decode);
    }
    let total = read_counter(&accounts[0].data);
    if accounts[0].lamports < total {
        return Err(EngineError::InsufficientFunds);
    }
    let sender_balance: u64 = match accounts[1].lamports.checked_add(accounts[0].lamports) {
        Some(b) => b,
        None => {
            return Err(EngineError::ArithmeticOverflow);
        },
    };
    accounts[0].lamports = 0;
    accounts[1].lamports = sender_balance;
    proof {
        let (res, s2) = spec_refund_escrow(views(old(accounts)@), airdrop_id@);
        assert(views(accounts@) =~~= s2);
    }
    Ok(())
}

// ---------------------------------------------------------------------------
// ClaimAirdrop.
// ---------------------------------------------------------------------------

/// Transition for `ClaimAirdrop`. Accounts: `[escrow pool, recipient
/// wallet]`. The recipient must co-sign and match the named recipient; the
/// claimed amount must not exceed the counter. Non-terminal: the pool stays
/// open with its counter reduced.
pub open spec fn spec_claim_airdrop(
    s: Seq<AccountView>,
    airdrop_id: Seq<u8>,
    recipient: AddressView,
    amount: u64,
) -> (Result<(), EngineError>, Seq<AccountView>) {
    if s.len() != 2 {
        (Err(EngineError::AccountMismatch), s)
    } else if !s[1].is_signer {
        (Err(EngineError::Authorization), s)
    } else if s[1].address != recipient {
        (Err(EngineError::AccountMismatch), s)
    } else if s[0].address != spec_derive(escrow_label(), airdrop_id) {
        (Err(EngineError::AccountMismatch), s)
    } else if s[0].lamports == 0 {
        (Err(EngineError::AccountMismatch), s)
    } else if s[0].data.len() < 8 {
        (Err(EngineError::Decode), s)
    } else {
        let total = counter_of(s[0].data);
        if total < amount {
            (Err(EngineError::InsufficientFunds), s)
        } else if s[0].lamports < amount {
            (Err(EngineError::InsufficientFunds), s)
        } else if s[1].lamports + amount > u64::MAX {
            (Err(EngineError::ArithmeticOverflow), s)
        } else {
            let esc2 = AccountView {
                lamports: (s[0].lamports - amount) as u64,
                data: enc_u64((total - amount) as u64) + s[0].data.skip(8),
                ..s[0]
            };
            let recipient2 = AccountView { lamports: (s[1].lamports + amount) as u64, ..s[1] };
            (Ok(()), s.update(0, esc2).update(1, recipient2))
        }
    }
}

/// Claims part of an airdrop's pool. Accounts: `[escrow pool, recipient
/// wallet]`. On failure the counter and every balance are unchanged.
pub fn process_claim_airdrop(
    accounts: &mut Vec<Account>,
    airdrop_id: &Vec<u8>,
    recipient: &Address,
    amount: u64,
) -> (r: Result<(), EngineError>)
    ensures
        ({
            let (res, s2) = spec_claim_airdrop(
                views(old(accounts)@),
                airdrop_id@,
                recipient@,
                amount,
            );
            r == res && views(final(accounts)@) == s2
        }),
{
    if accounts.len() != 2 {
        return Err(EngineError::AccountMismatch);
    }
    if let Err(e) = verify_signer(&accounts[1]) {
        return Err(e);
    }
    if let Err(e) = verify_address(&accounts[1], recipient) {
        return Err(e);
    }
    let label = escrow_label_bytes();
    let derivation = derive_address(&label, airdrop_id);
    if let Err(e) = verify_address(&accounts[0], &derivation.address) {
        return Err(e);
    }
    if accounts[0].lamports == 0 {
        return Err(EngineError::AccountMismatch);
    }
    if accounts[0].data.len() < 8 {
        return Err(EngineError::Decode);
    }
    let total = read_counter(&accounts[0].data);
    if total < amount {
        return Err(EngineError::InsufficientFunds);
    }
    if accounts[0].lamports < amount {
        return Err(EngineError::InsufficientFunds);
    }
    let recipient_balance: u64 = match accounts[1].lamports.checked_add(amount) {
        Some(b) => b,
        None => {
            return Err(EngineError::ArithmeticOverflow);
        },
    };
    let new_data = with_counter(&accounts[0].data, total - amount);
    let pool_balance = accounts[0].lamports;
    accounts[0].lamports = pool_balance - amount;
    accounts[0].data = new_data;
    accounts[1].lamports = recipient_balance;
    proof {
        let (res, s2) = spec_claim_airdrop(views(old(accounts)@), airdrop_id@, recipient@, amount);
        assert(views(accounts@) =~~= s2);
    }
    Ok(())
}

// ---------------------------------------------------------------------------
// Laws of the escrow engine.
// ---------------------------------------------------------------------------

/// Fund conservation for Distribute: the fee, the recipients' payouts, and
/// the refunded remainder partition the collected total exactly; the closed
/// pool holds zero; and everything the supplied accounts lose is exactly the
/// sum paid out to the recipients.
pub proof fn lemma_distribute_conserves_funds(
    s: Seq<AccountView>,
    airdrop_id: Seq<u8>,
    recipients: Seq<AirdropRecipientView>,
    fee_wallet: AddressView,
    fee_percentage: u8,
)
    requires
        spec_distribute_airdrop(s, airdrop_id, recipients, fee_wallet, fee_percentage).0 is Ok,
    ensures
        ({
            let s2 = spec_distribute_airdrop(
                s,
                airdrop_id,
                recipients,
                fee_wallet,
                fee_percentage,
            ).1;
            let total = counter_of(s[0].data) as int;
            let fee = fee_of(counter_of(s[0].data), fee_percentage);
            let sum = sum_amounts(recipients);
            let remainder = total - fee - sum;
            &&& fee + sum + remainder == total
            &&& 0 <= fee && 0 <= sum && 0 <= remainder
            &&& s2[0].lamports == 0
            &&& s2[2].lamports == s[2].lamports + fee
            &&& s2[1].lamports == s[1].lamports + remainder + (s[0].lamports - total)
            &&& s[0].lamports + s[1].lamports + s[2].lamports == s2[0].lamports + s2[1].lamports
                + s2[2].lamports + sum
        }),
{
    lemma_fee_bounds(counter_of(s[0].data), fee_percentage);
    lemma_sum_amounts_nonneg(recipients);
}

/// A distribution list's sum is never negative.
pub proof fn lemma_sum_amounts_nonneg(rs: Seq<AirdropRecipientView>)
    ensures
        sum_amounts(rs) >= 0,
    decreases rs.len(),
{
    if rs.len() > 0 {
        lemma_sum_amounts_nonneg(rs.drop_last());
    }
}

/// A successful Distribute or Refund zeroes the pool's balance: the pool is
/// closed.
pub proof fn lemma_pool_terminal_closes(
    s: Seq<AccountView>,
    airdrop_id: Seq<u8>,
    recipients: Seq<AirdropRecipientView>,
    fee_wallet: AddressView,
    fee_percentage: u8,
)
    ensures
        spec_distribute_airdrop(s, airdrop_id, recipients, fee_wallet, fee_percentage).0 is Ok
            ==> spec_distribute_airdrop(
            s,
            airdrop_id,
            recipients,
            fee_wallet,
            fee_percentage,
        ).1[0].lamports == 0,
        spec_refund_escrow(s, airdrop_id).0 is Ok ==> spec_refund_escrow(
            s,
            airdrop_id,
        ).1[0].lamports == 0,
{
}

/// A closed pool accepts no further transition: Claim, Distribute, and
/// Refund all fail and leave every account unchanged.
pub proof fn lemma_closed_pool_rejects(
    s: Seq<AccountView>,
    airdrop_id: Seq<u8>,
    recipients: Seq<AirdropRecipientView>,
    fee_wallet: AddressView,
    fee_percentage: u8,
    recipient: AddressView,
    amount: u64,
)
    requires
        s.len() >= 1,
        s[0].lamports == 0,
    ensures
        spec_claim_airdrop(s, airdrop_id, recipient, amount).0 is Err,
        spec_claim_airdrop(s, airdrop_id, recipient, amount).1 == s,
        spec_distribute_airdrop(s, airdrop_id, recipients, fee_wallet, fee_percentage).0 is Err,
        spec_distribute_airdrop(s, airdrop_id, recipients, fee_wallet, fee_percentage).1 == s,
        spec_refund_escrow(s, airdrop_id).0 is Err,
        spec_refund_escrow(s, airdrop_id).1 == s,
{
}

/// A failed Claim leaves the pool's counter and every balance unchanged; in
/// particular a claim for more than the counter fails with insufficient
/// funds.
pub proof fn lemma_failed_claim_changes_nothing(
    s: Seq<AccountView>,
    airdrop_id: Seq<u8>,
    recipient: AddressView,
    amount: u64,
)
    ensures
        spec_claim_airdrop(s, airdrop_id, recipient, amount).0 is Err ==> spec_claim_airdrop(
            s,
            airdrop_id,
            recipient,
            amount,
        ).1 == s,
        ({
            &&& s.len() == 2
            &&& s[1].is_signer
            &&& s[1].address == recipient
            &&& s[0].address == spec_derive(escrow_label(), airdrop_id)
            &&& s[0].lamports > 0
            &&& s[0].data.len() >= 8
            &&& counter_of(s[0].data) < amount
        }) ==> spec_claim_airdrop(s, airdrop_id, recipient, amount).0 == Result::<
            (),
            EngineError,
        >::Err(EngineError::InsufficientFunds),
{
}

} // verus!
