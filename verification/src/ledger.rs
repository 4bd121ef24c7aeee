//! The engine's view of ledger state: the account list one invocation works
//! on, the rent schedule that prices account storage, and the error taxonomy.
//!
//! All mutable state lives in runtime-owned accounts. One invocation receives
//! the accounts it names, positionally, and either applies every one of its
//! writes or none of them; every handler therefore checks all of its
//! preconditions before mutating anything.

use vstd::prelude::*;
use crate::identity::{Address, AddressView};

verus! {

/// One ledger account as supplied to an invocation: its address, whether it
/// co-signed the transaction, its balance in the smallest currency unit, and
/// its record bytes.
#[derive(Clone, Debug, PartialEq, Eq)]
pub struct Account {
    pub address: Address,
    pub is_signer: bool,
    pub lamports: u64,
    pub data: Vec<u8>,
}

/// Mathematical model of an [`Account`].
pub struct AccountView {
    pub address: AddressView,
    pub is_signer: bool,
    pub lamports: u64,
    pub data: Seq<u8>,
}

impl View for Account {
    type V = AccountView;

    open spec fn view(&self) -> AccountView {
        AccountView {
            address: self.address@,
            is_signer: self.is_signer,
            lamports: self.lamports,
            data: self.data@,
        }
    }
}

/// The models of a whole account list.
pub open spec fn views(s: Seq<Account>) -> Seq<AccountView> {
    s.map_values(|a: Account| a@)
}

/// The total balance held by an account list.
pub open spec fn total_lamports(s: Seq<AccountView>) -> int
    decreases s.len(),
{
    if s.len() == 0 {
        0
    } else {
        total_lamports(s.drop_last()) + s.last().lamports
    }
}

/// Replacing one slot shifts the total by exactly the balance difference.
pub proof fn lemma_total_lamports_update(s: Seq<AccountView>, i: int, a: AccountView)
    requires
        0 <= i < s.len(),
    ensures
        total_lamports(s.update(i, a)) == total_lamports(s) - s[i].lamports + a.lamports,
    decreases s.len(),
{
    let s2 = s.update(i, a);
    if i == s.len() - 1 {
        assert(s2.drop_last() =~= s.drop_last());
        assert(s2.last() == a);
    } else {
        assert(s2.drop_last() =~= s.drop_last().update(i, a));
        assert(s2.last() == s.last());
        lemma_total_lamports_update(s.drop_last(), i, a);
    }
}

/// The failure taxonomy. Every error aborts the whole invocation; the runtime
/// guarantees that no partial state survives, and the handlers here mirror
/// that by leaving the account list untouched whenever they fail.
#[derive(Clone, Copy, Debug, PartialEq, Eq, Structural)]
pub enum EngineError {
    /// Malformed instruction or record bytes.
    Decode,
    /// A required co-signer is missing.
    Authorization,
    /// A supplied account does not match the expected derivation, stored
    /// identity, or position.
    AccountMismatch,
    /// A requested amount exceeds the available balance or counter.
    InsufficientFunds,
    /// A checked addition or subtraction on a counter would wrap.
    ArithmeticOverflow,
    /// A tip amount of zero.
    InvalidAmount,
}

impl EngineError {
    /// A short diagnostic for callers that render failures as text.
    pub fn message(&self) -> (r: &'static str)
        ensures
            match self {
                EngineError::Decode => r@ == "malformed instruction or record bytes"@,
                EngineError::Authorization => r@ == "missing required signature"@,
                EngineError::AccountMismatch => r@ == "account does not match expectation"@,
                EngineError::InsufficientFunds => r@ == "insufficient funds"@,
                EngineError::ArithmeticOverflow => r@ == "arithmetic overflow"@,
                EngineError::InvalidAmount => r@ == "amount must be greater than zero"@,
            },
            r@.len() > 0,
    {
        proof {
            reveal_strlit("malformed instruction or record bytes");
            reveal_strlit("missing required signature");
            reveal_strlit("account does not match expectation");
            reveal_strlit("insufficient funds");
            reveal_strlit("arithmetic overflow");
            reveal_strlit("amount must be greater than zero");
        }
        match self {
            EngineError::Decode => "malformed instruction or record bytes",
            EngineError::Authorization => "missing required signature",
            EngineError::AccountMismatch => "account does not match expectation",
            EngineError::InsufficientFunds => "insufficient funds",
            EngineError::ArithmeticOverflow => "arithmetic overflow",
            EngineError::InvalidAmount => "amount must be greater than zero",
        }
    }
}

/// The runtime's storage pricing: the minimum balance an account of a given
/// size must hold to stay alive. Refunded in full when the account is closed.
#[derive(Clone, Copy, Debug, PartialEq, Eq, Structural)]
pub struct Rent {
    pub base: u64,
    pub per_byte: u64,
}

/// The minimum balance for an account with `len` bytes of storage, as an
/// unbounded integer.
pub open spec fn spec_minimum_balance(rent: Rent, len: nat) -> int {
    rent.base + rent.per_byte * len
}

impl Rent {
    /// The minimum balance for an account with `len` bytes of storage, or
    /// `None` if the schedule overflows the balance type.
    pub fn minimum_balance(&self, len: usize) -> (r: Option<u64>)
        ensures
            match r {
                Some(m) => m == spec_minimum_balance(*self, len as nat),
                None => spec_minimum_balance(*self, len as nat) > u64::MAX,
            },
    {
        proof {
            vstd::arithmetic::mul::lemma_mul_is_commutative(
                self.per_byte as int,
                len as int,
            );
        }
        match self.per_byte.checked_mul(len as u64) {
            Some(storage) => self.base.checked_add(storage),
            None => {
                proof {
                    vstd::arithmetic::mul::lemma_mul_nonnegative(
                        self.per_byte as int,
                        len as int,
                    );
                }
                None
            },
        }
    }
}

/// Fails with [`EngineError::Authorization`] exactly when the account did not
/// co-sign the invocation.
pub fn verify_signer(account: &Account) -> (r: Result<(), EngineError>)
    ensures
        r is Ok <==> account.is_signer,
        r is Err ==> r == Result::<(), EngineError>::Err(EngineError::Authorization),
{
    if account.is_signer {
        Ok(())
    } else {
        Err(EngineError::Authorization)
    }
}

/// Fails with [`EngineError::AccountMismatch`] exactly when the account's
/// address differs from the expected one.
pub fn verify_address(account: &Account, expected: &Address) -> (r: Result<(), EngineError>)
    ensures
        r is Ok <==> account.address@ == expected@,
        r is Err ==> r == Result::<(), EngineError>::Err(EngineError::AccountMismatch),
{
    if crate::identity::address_eq(&account.address, expected) {
        Ok(())
    } else {
        Err(EngineError::AccountMismatch)
    }
}

} // verus!
