//! User registry and fixed-share airdrops: per-user aggregate records
//! (lifetime sent/received totals, tip count) and the airdrop variant that
//! splits one pot evenly among a fixed number of claimants.
//!
//! These handlers work on records and balances that the runtime has already
//! bound to verified accounts; every counter update is checked, and a failed
//! handler leaves all of its operands untouched.

use vstd::prelude::*;
use crate::identity::{Address, clone_address};

verus! {

/// A user's aggregate record.
#[derive(Clone, Debug, PartialEq, Eq)]
pub struct UserAccount {
    pub authority: Address,
    pub discord_id: String,
    pub total_sent: u64,
    pub total_received: u64,
    pub tip_count: u64,
    pub bump: u8,
}

/// A fixed-share airdrop record.
#[derive(Clone, Debug, PartialEq, Eq)]
pub struct Airdrop {
    pub creator: Address,
    pub total_amount: u64,
    pub amount_per_recipient: u64,
    pub recipients_count: u8,
    pub claimed_count: u8,
    pub is_active: bool,
    pub created_at: i64,
    pub bump: u8,
}

/// A token balance account, in token units.
#[derive(Clone, Copy, Debug, PartialEq, Eq, Structural)]
pub struct TokenAccount {
    pub amount: u64,
}

/// Which currency a tip moved.
#[derive(Clone, Copy, Debug, PartialEq, Eq, Structural)]
pub enum TokenType {
    Sol,
    SplToken,
}

/// Emitted for every executed tip.
#[derive(Clone, Debug, PartialEq, Eq)]
pub struct TipEvent {
    pub sender: Address,
    pub recipient: Address,
    pub amount: u64,
    pub token_type: TokenType,
    pub timestamp: i64,
}

/// Emitted for every airdrop claim.
#[derive(Clone, Debug, PartialEq, Eq)]
pub struct AirdropClaimEvent {
    pub airdrop: Address,
    pub claimer: Address,
    pub amount: u64,
    pub timestamp: i64,
}

/// The registry's failure taxonomy.
#[derive(Clone, Copy, Debug, PartialEq, Eq, Structural)]
pub enum ErrorCode {
    /// An amount of zero.
    InvalidAmount,
    /// A recipient count of zero or above the cap of fifty.
    TooManyRecipients,
    /// The airdrop has been deactivated.
    AirdropInactive,
    /// Every share of the airdrop has been claimed.
    AirdropFullyClaimed,
    /// The caller is not the record's authority.
    Unauthorized,
    /// A checked counter update would wrap.
    ArithmeticOverflow,
    /// A transfer asks for more than the paying balance holds.
    InsufficientFunds,
}

/// The cap on an airdrop's recipient count.
pub const MAX_AIRDROP_RECIPIENTS: u8 = 50;

/// Creates a user's aggregate record with zeroed lifetime totals.
pub fn initialize_user(authority: &Address, discord_id: String, bump: u8) -> (r: UserAccount)
    ensures
        r.authority@ == authority@,
        r.discord_id@ == discord_id@,
        r.total_sent == 0,
        r.total_received == 0,
        r.tip_count == 0,
        r.bump == bump,
{
    UserAccount {
        authority: clone_address(authority),
        discord_id,
        total_sent: 0,
        total_received: 0,
        tip_count: 0,
        bump,
    }
}

/// Whether a tip of `amount` can be recorded against these operands without
/// any counter wrapping.
pub open spec fn tip_fits(
    sender_balance: u64,
    recipient_balance: u64,
    sender_account: UserAccount,
    recipient_account: UserAccount,
    amount: u64,
) -> bool {
    &&& sender_balance >= amount
    &&& recipient_balance + amount <= u64::MAX
    &&& sender_account.total_sent + amount <= u64::MAX
    &&& sender_account.tip_count + 1 <= u64::MAX
    &&& recipient_account.total_received + amount <= u64::MAX
}

/// Sends a currency tip: moves `amount` from the sender's balance to the
/// recipient's and updates both users' lifetime totals with checked
/// arithmetic. On any failure every operand is unchanged.
pub fn tip_sol(
    sender_balance: &mut u64,
    recipient_balance: &mut u64,
    sender_account: &mut UserAccount,
    recipient_account: &mut UserAccount,
    sender: &Address,
    recipient: &Address,
    amount: u64,
    now: i64,
) -> (r: Result<TipEvent, ErrorCode>)
    ensures
        r is Ok <==> amount > 0 && tip_fits(
            *old(sender_balance),
            *old(recipient_balance),
            *old(sender_account),
            *old(recipient_account),
            amount,
        ),
        amount == 0 ==> r == Result::<TipEvent, ErrorCode>::Err(ErrorCode::InvalidAmount),
        amount > 0 && *old(sender_balance) < amount ==> r == Result::<TipEvent, ErrorCode>::Err(
            ErrorCode::InsufficientFunds,
        ),
        amount > 0 && *old(sender_balance) >= amount && r is Err ==> r == Result::<
            TipEvent,
            ErrorCode,
        >::Err(ErrorCode::ArithmeticOverflow),
        r is Err ==> {
            &&& *final(sender_balance) == *old(sender_balance)
            &&& *final(recipient_balance) == *old(recipient_balance)
            &&& *final(sender_account) == *old(sender_account)
            &&& *final(recipient_account) == *old(recipient_account)
        },
        r matches Ok(ev) ==> {
            &&& *final(sender_balance) == *old(sender_balance) - amount
            &&& *final(recipient_balance) == *old(recipient_balance) + amount
            &&& *final(sender_account) == (UserAccount {
                total_sent: (old(sender_account).total_sent + amount) as u64,
                tip_count: (old(sender_account).tip_count + 1) as u64,
                ..*old(sender_account)
            })
            &&& *final(recipient_account) == (UserAccount {
                total_received: (old(recipient_account).total_received + amount) as u64,
                ..*old(recipient_account)
            })
            &&& ev.sender@ == sender@
            &&& ev.recipient@ == recipient@
            &&& ev.amount == amount
            &&& ev.token_type == TokenType::Sol
            &&& ev.timestamp == now
        },
{
    if amount == 0 {
        return Err(ErrorCode::InvalidAmount);
    }
    if *sender_balance < amount {
        return Err(ErrorCode::InsufficientFunds);
    }
    let new_recipient_balance: u64 = match recipient_balance.checked_add(amount) {
        Some(b) => b,
        None => {
            return Err(ErrorCode::ArithmeticOverflow);
        },
    };
    let new_total_sent: u64 = match sender_account.total_sent.checked_add(amount) {
        Some(t) => t,
        None => {
            return Err(ErrorCode::ArithmeticOverflow);
        },
    };
    let new_tip_count: u64 = match sender_account.tip_count.checked_add(1) {
        Some(c) => c,
        None => {
            return Err(ErrorCode::ArithmeticOverflow);
        },
    };
    let new_total_received: u64 = match recipient_account.total_received.checked_add(amount) {
        Some(t) => t,
        None => {
            return Err(ErrorCode::ArithmeticOverflow);
        },
    };
    *sender_balance = *sender_balance - amount;
    *recipient_balance = new_recipient_balance;
    sender_account.total_sent = new_total_sent;
    sender_account.tip_count = new_tip_count;
    recipient_account.total_received = new_total_received;
    Ok(
        TipEvent {
            sender: clone_address(sender),
            recipient: clone_address(recipient),
            amount,
            token_type: TokenType::Sol,
            timestamp: now,
        },
    )
}

/// Sends a token tip: moves `amount` between the two token accounts and
/// updates both users' lifetime totals, in token units, with checked
/// arithmetic. On any failure every operand is unchanged.
pub fn tip_spl_token(
    sender_token: &mut TokenAccount,
    recipient_token: &mut TokenAccount,
    sender_account: &mut UserAccount,
    recipient_account: &mut UserAccount,
    sender: &Address,
    recipient: &Address,
    amount: u64,
    now: i64,
) -> (r: Result<TipEvent, ErrorCode>)
    ensures
        r is Ok <==> amount > 0 && tip_fits(
            old(sender_token).amount,
            old(recipient_token).amount,
            *old(sender_account),
            *old(recipient_account),
            amount,
        ),
        amount == 0 ==> r == Result::<TipEvent, ErrorCode>::Err(ErrorCode::InvalidAmount),
        amount > 0 && old(sender_token).amount < amount ==> r == Result::<
            TipEvent,
            ErrorCode,
        >::Err(ErrorCode::InsufficientFunds),
        amount > 0 && old(sender_token).amount >= amount && r is Err ==> r == Result::<
            TipEvent,
            ErrorCode,
        >::Err(ErrorCode::ArithmeticOverflow),
        r is Err ==> {
            &&& *final(sender_token) == *old(sender_token)
            &&& *final(recipient_token) == *old(recipient_token)
            &&& *final(sender_account) == *old(sender_account)
            &&& *final(recipient_account) == *old(recipient_account)
        },
        r matches Ok(ev) ==> {
            &&& final(sender_token).amount == old(sender_token).amount - amount
            &&& final(recipient_token).amount == old(recipient_token).amount + amount
            &&& *final(sender_account) == (UserAccount {
                total_sent: (old(sender_account).total_sent + amount) as u64,
                tip_count: (old(sender_account).tip_count + 1) as u64,
                ..*old(sender_account)
            })
            &&& *final(recipient_account) == (UserAccount {
                total_received: (old(recipient_account).total_received + amount) as u64,
                ..*old(recipient_account)
            })
            &&& ev.sender@ == sender@
            &&& ev.recipient@ == recipient@
            &&& ev.amount == amount
            &&& ev.token_type == TokenType::SplToken
            &&& ev.timestamp == now
        },
{
    if amount == 0 {
        return Err(ErrorCode::InvalidAmount);
    }
    if sender_token.amount < amount {
        return Err(ErrorCode::InsufficientFunds);
    }
    let new_recipient_tokens: u64 = match recipient_token.amount.checked_add(amount) {
        Some(b) => b,
        None => {
            return Err(ErrorCode::ArithmeticOverflow);
        },
    };
    let new_total_sent: u64 = match sender_account.total_sent.checked_add(amount) {
        Some(t) => t,
        None => {
            return Err(ErrorCode::ArithmeticOverflow);
        },
    };
    let new_tip_count: u64 = match sender_account.tip_count.checked_add(1) {
        Some(c) => c,
        None => {
            return Err(ErrorCode::ArithmeticOverflow);
        },
    };
    let new_total_received: u64 = match recipient_account.total_received.checked_add(amount) {
        Some(t) => t,
        None => {
            return Err(ErrorCode::ArithmeticOverflow);
        },
    };
    let sender_tokens = sender_token.amount;
    sender_token.amount = sender_tokens - amount;
    recipient_token.amount = new_recipient_tokens;
    sender_account.total_sent = new_total_sent;
    sender_account.tip_count = new_tip_count;
    recipient_account.total_received = new_total_received;
    Ok(
        TipEvent {
            sender: clone_address(sender),
            recipient: clone_address(recipient),
            amount,
            token_type: TokenType::SplToken,
            timestamp: now,
        },
    )
}

/// Creates a fixed-share airdrop: the pot is split evenly (floor division)
/// among at most [`MAX_AIRDROP_RECIPIENTS`] claimants.
pub fn create_airdrop(
    creator: &Address,
    total_amount: u64,
    recipients_count: u8,
    now: i64,
    bump: u8,
) -> (r: Result<Airdrop, ErrorCode>)
    ensures
        r is Ok <==> total_amount > 0 && 0 < recipients_count <= MAX_AIRDROP_RECIPIENTS,
        total_amount == 0 ==> r == Result::<Airdrop, ErrorCode>::Err(ErrorCode::InvalidAmount),
        total_amount > 0 && !(0 < recipients_count <= MAX_AIRDROP_RECIPIENTS) ==> r == Result::<
            Airdrop,
            ErrorCode,
        >::Err(ErrorCode::TooManyRecipients),
        r matches Ok(a) ==> {
            &&& a.creator@ == creator@
            &&& a.total_amount == total_amount
            &&& a.amount_per_recipient == total_amount as int / recipients_count as int
            &&& a.recipients_count == recipients_count
            &&& a.claimed_count == 0
            &&& a.is_active
            &&& a.created_at == now
            &&& a.bump == bump
        },
{
    if total_amount == 0 {
        return Err(ErrorCode::InvalidAmount);
    }
    if recipients_count == 0 || recipients_count > MAX_AIRDROP_RECIPIENTS {
        return Err(ErrorCode::TooManyRecipients);
    }
    Ok(
        Airdrop {
            creator: clone_address(creator),
            total_amount,
            amount_per_recipient: total_amount / (recipients_count as u64),
            recipients_count,
            claimed_count: 0,
            is_active: true,
            created_at: now,
            bump,
        },
    )
}

/// Claims one share of a fixed-share airdrop: moves one share from the
/// pool's balance to the claimer, counts the claim, and deactivates the
/// airdrop when the last share is taken. On any failure every operand is
/// unchanged.
pub fn claim_airdrop(
    airdrop: &mut Airdrop,
    airdrop_address: &Address,
    pool_balance: &mut u64,
    claimer: &Address,
    claimer_balance: &mut u64,
    now: i64,
) -> (r: Result<AirdropClaimEvent, ErrorCode>)
    ensures
        r is Ok <==> old(airdrop).is_active && old(airdrop).claimed_count < old(
            airdrop,
        ).recipients_count && *old(pool_balance) >= old(airdrop).amount_per_recipient && *old(
            claimer_balance,
        ) + old(airdrop).amount_per_recipient <= u64::MAX,
        !old(airdrop).is_active ==> r == Result::<AirdropClaimEvent, ErrorCode>::Err(
            ErrorCode::AirdropInactive,
        ),
        old(airdrop).is_active && old(airdrop).claimed_count >= old(airdrop).recipients_count
            ==> r == Result::<AirdropClaimEvent, ErrorCode>::Err(ErrorCode::AirdropFullyClaimed),
        old(airdrop).is_active && old(airdrop).claimed_count < old(airdrop).recipients_count
            && *old(pool_balance) < old(airdrop).amount_per_recipient ==> r == Result::<
            AirdropClaimEvent,
            ErrorCode,
        >::Err(ErrorCode::InsufficientFunds),
        r is Err ==> {
            &&& *final(airdrop) == *old(airdrop)
            &&& *final(pool_balance) == *old(pool_balance)
            &&& *final(claimer_balance) == *old(claimer_balance)
        },
        r matches Ok(ev) ==> {
            &&& *final(pool_balance) == *old(pool_balance) - old(airdrop).amount_per_recipient
            &&& *final(claimer_balance) == *old(claimer_balance) + old(
                airdrop,
            ).amount_per_recipient
            &&& final(airdrop).claimed_count == old(airdrop).claimed_count + 1
            &&& final(airdrop).is_active == (old(airdrop).claimed_count + 1 < old(
                airdrop,
            ).recipients_count)
            &&& final(airdrop).creator == old(airdrop).creator
            &&& final(airdrop).total_amount == old(airdrop).total_amount
            &&& final(airdrop).amount_per_recipient == old(airdrop).amount_per_recipient
            &&& final(airdrop).recipients_count == old(airdrop).recipients_count
            &&& final(airdrop).created_at == old(airdrop).created_at
            &&& final(airdrop).bump == old(airdrop).bump
            &&& ev.airdrop@ == airdrop_address@
            &&& ev.claimer@ == claimer@
            &&& ev.amount == old(airdrop).amount_per_recipient
            &&& ev.timestamp == now
        },
{
    if !airdrop.is_active {
        return Err(ErrorCode::AirdropInactive);
    }
    if airdrop.claimed_count >= airdrop.recipients_count {
        return Err(ErrorCode::AirdropFullyClaimed);
    }
    let amount = airdrop.amount_per_recipient;
    if *pool_balance < amount {
        return Err(ErrorCode::InsufficientFunds);
    }
    let new_claimer_balance: u64 = match claimer_balance.checked_add(amount) {
        Some(b) => b,
        None => {
            return Err(ErrorCode::ArithmeticOverflow);
        },
    };
    *pool_balance = *pool_balance - amount;
    *claimer_balance = new_claimer_balance;
    airdrop.claimed_count = airdrop.claimed_count + 1;
    if airdrop.claimed_count >= airdrop.recipients_count {
        airdrop.is_active = false;
    }
    Ok(
        AirdropClaimEvent {
            airdrop: clone_address(airdrop_address),
            claimer: clone_address(claimer),
            amount,
            timestamp: now,
        },
    )
}

/// Closes an airdrop: only its creator may do so.
pub fn close_airdrop(airdrop: &Airdrop, creator: &Address) -> (r: Result<(), ErrorCode>)
    ensures
        r is Ok <==> airdrop.creator@ == creator@,
        r is Err ==> r == Result::<(), ErrorCode>::Err(ErrorCode::Unauthorized),
{
    if crate::identity::address_eq(&airdrop.creator, creator) {
        Ok(())
    } else {
        Err(ErrorCode::Unauthorized)
    }
}

} // verus!
