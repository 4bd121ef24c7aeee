use justthetip::identity::{derive_address, escrow_label_bytes, user_label_bytes, Address};
use justthetip::registry::{
    claim_airdrop, close_airdrop, create_airdrop, initialize_user, tip_sol, tip_spl_token,
    ErrorCode, TokenAccount, TokenType,
};
use justthetip::session::{PasskeySession, SessionCheck, SessionType};

fn wallet(tag: u8) -> Address {
    Address::External(vec![tag, tag])
}

#[test]
fn derivation_is_deterministic_and_distinct() {
    let label = user_label_bytes();
    let alice = b"alice".to_vec();
    let bob = b"bob".to_vec();

    let a1 = derive_address(&label, &alice);
    let a2 = derive_address(&label, &alice);
    assert_eq!(a1.address, a2.address);
    assert_eq!(a1.salt, a2.salt);

    let b = derive_address(&label, &bob);
    assert_ne!(a1.address, b.address);

    // The same seed under another label is another address, and no derived
    // address ever equals a keypair-held one.
    let e = derive_address(&escrow_label_bytes(), &alice);
    assert_ne!(a1.address, e.address);
    assert_ne!(a1.address, Address::External(alice.clone()));
}

#[test]
fn initialize_user_zeroes_totals() {
    let authority = wallet(1);
    let account = initialize_user(&authority, String::from("u1"), 254);
    assert_eq!(account.authority, authority);
    assert_eq!(account.discord_id, "u1");
    assert_eq!(account.total_sent, 0);
    assert_eq!(account.total_received, 0);
    assert_eq!(account.tip_count, 0);
    assert_eq!(account.bump, 254);
}

#[test]
fn tip_sol_updates_balances_and_totals() {
    let sender = wallet(1);
    let recipient = wallet(2);
    let mut sender_balance: u64 = 1_000;
    let mut recipient_balance: u64 = 5;
    let mut sender_account = initialize_user(&sender, String::from("s"), 0);
    let mut recipient_account = initialize_user(&recipient, String::from("r"), 0);

    let event = tip_sol(
        &mut sender_balance,
        &mut recipient_balance,
        &mut sender_account,
        &mut recipient_account,
        &sender,
        &recipient,
        100,
        77,
    )
    .unwrap();

    assert_eq!(sender_balance, 900);
    assert_eq!(recipient_balance, 105);
    assert_eq!(sender_account.total_sent, 100);
    assert_eq!(sender_account.tip_count, 1);
    assert_eq!(recipient_account.total_received, 100);
    assert_eq!(event.amount, 100);
    assert_eq!(event.token_type, TokenType::Sol);
    assert_eq!(event.timestamp, 77);
    assert_eq!(event.sender, sender);
    assert_eq!(event.recipient, recipient);
}

#[test]
fn tip_sol_rejects_zero_and_insufficient() {
    let sender = wallet(1);
    let recipient = wallet(2);
    let mut sender_balance: u64 = 10;
    let mut recipient_balance: u64 = 0;
    let mut sender_account = initialize_user(&sender, String::from("s"), 0);
    let mut recipient_account = initialize_user(&recipient, String::from("r"), 0);

    let r = tip_sol(
        &mut sender_balance,
        &mut recipient_balance,
        &mut sender_account,
        &mut recipient_account,
        &sender,
        &recipient,
        0,
        0,
    );
    assert_eq!(r.unwrap_err(), ErrorCode::InvalidAmount);

    let r = tip_sol(
        &mut sender_balance,
        &mut recipient_balance,
        &mut sender_account,
        &mut recipient_account,
        &sender,
        &recipient,
        11,
        0,
    );
    assert_eq!(r.unwrap_err(), ErrorCode::InsufficientFunds);
    assert_eq!(sender_balance, 10);
    assert_eq!(sender_account.tip_count, 0);
}

/// A lifetime-total accumulation that would overflow 64 bits fails and
/// leaves every total and balance unchanged.
#[test]
fn tip_sol_overflow_leaves_totals_unchanged() {
    let sender = wallet(1);
    let recipient = wallet(2);
    let mut sender_balance: u64 = 1_000;
    let mut recipient_balance: u64 = 0;
    let mut sender_account = initialize_user(&sender, String::from("s"), 0);
    sender_account.total_sent = u64::MAX - 10;
    let mut recipient_account = initialize_user(&recipient, String::from("r"), 0);

    let r = tip_sol(
        &mut sender_balance,
        &mut recipient_balance,
        &mut sender_account,
        &mut recipient_account,
        &sender,
        &recipient,
        50,
        0,
    );
    assert_eq!(r.unwrap_err(), ErrorCode::ArithmeticOverflow);
    assert_eq!(sender_balance, 1_000);
    assert_eq!(recipient_balance, 0);
    assert_eq!(sender_account.total_sent, u64::MAX - 10);
    assert_eq!(sender_account.tip_count, 0);
    assert_eq!(recipient_account.total_received, 0);
}

#[test]
fn tip_spl_token_moves_tokens() {
    let sender = wallet(1);
    let recipient = wallet(2);
    let mut sender_token = TokenAccount { amount: 500 };
    let mut recipient_token = TokenAccount { amount: 1 };
    let mut sender_account = initialize_user(&sender, String::from("s"), 0);
    let mut recipient_account = initialize_user(&recipient, String::from("r"), 0);

    let event = tip_spl_token(
        &mut sender_token,
        &mut recipient_token,
        &mut sender_account,
        &mut recipient_account,
        &sender,
        &recipient,
        200,
        42,
    )
    .unwrap();

    assert_eq!(sender_token.amount, 300);
    assert_eq!(recipient_token.amount, 201);
    assert_eq!(sender_account.total_sent, 200);
    assert_eq!(recipient_account.total_received, 200);
    assert_eq!(event.token_type, TokenType::SplToken);
}

#[test]
fn create_airdrop_validates_and_splits() {
    let creator = wallet(1);
    assert_eq!(
        create_airdrop(&creator, 0, 3, 0, 0).unwrap_err(),
        ErrorCode::InvalidAmount
    );
    assert_eq!(
        create_airdrop(&creator, 1000, 0, 0, 0).unwrap_err(),
        ErrorCode::TooManyRecipients
    );
    assert_eq!(
        create_airdrop(&creator, 1000, 51, 0, 0).unwrap_err(),
        ErrorCode::TooManyRecipients
    );

    let airdrop = create_airdrop(&creator, 1000, 3, 9, 255).unwrap();
    assert_eq!(airdrop.creator, creator);
    assert_eq!(airdrop.total_amount, 1000);
    assert_eq!(airdrop.amount_per_recipient, 333);
    assert_eq!(airdrop.recipients_count, 3);
    assert_eq!(airdrop.claimed_count, 0);
    assert!(airdrop.is_active);
    assert_eq!(airdrop.created_at, 9);
    assert_eq!(airdrop.bump, 255);
}

#[test]
fn claim_airdrop_counts_and_deactivates() {
    let creator = wallet(1);
    let pool_address = wallet(3);
    let claimer = wallet(4);
    let mut airdrop = create_airdrop(&creator, 900, 3, 0, 0).unwrap();
    let mut pool_balance: u64 = 900;
    let mut claimer_balance: u64 = 0;

    for expected_claims in 1..=3u8 {
        let event = claim_airdrop(
            &mut airdrop,
            &pool_address,
            &mut pool_balance,
            &claimer,
            &mut claimer_balance,
            5,
        )
        .unwrap();
        assert_eq!(event.amount, 300);
        assert_eq!(airdrop.claimed_count, expected_claims);
    }
    assert!(!airdrop.is_active);
    assert_eq!(pool_balance, 0);
    assert_eq!(claimer_balance, 900);

    // Exactly-once per share: the fully claimed airdrop rejects a fourth
    // claim and nothing changes.
    let r = claim_airdrop(
        &mut airdrop,
        &pool_address,
        &mut pool_balance,
        &claimer,
        &mut claimer_balance,
        5,
    );
    assert_eq!(r.unwrap_err(), ErrorCode::AirdropInactive);
    assert_eq!(claimer_balance, 900);
}

#[test]
fn claim_airdrop_needs_pool_funds() {
    let creator = wallet(1);
    let mut airdrop = create_airdrop(&creator, 900, 3, 0, 0).unwrap();
    let mut pool_balance: u64 = 100;
    let mut claimer_balance: u64 = 0;
    let r = claim_airdrop(
        &mut airdrop,
        &wallet(3),
        &mut pool_balance,
        &wallet(4),
        &mut claimer_balance,
        0,
    );
    assert_eq!(r.unwrap_err(), ErrorCode::InsufficientFunds);
    assert_eq!(airdrop.claimed_count, 0);
    assert_eq!(pool_balance, 100);
}

#[test]
fn close_airdrop_requires_creator() {
    let creator = wallet(1);
    let airdrop = create_airdrop(&creator, 900, 3, 0, 0).unwrap();
    assert_eq!(close_airdrop(&airdrop, &creator), Ok(()));
    assert_eq!(close_airdrop(&airdrop, &wallet(2)), Err(ErrorCode::Unauthorized));
}

#[test]
fn session_type_labels_round_trip() {
    assert_eq!(SessionType::Registration.as_str(), "registration");
    assert_eq!(SessionType::Verification.as_str(), "verification");
    for t in [SessionType::Registration, SessionType::Verification] {
        assert_eq!(SessionType::from_str(t.as_str()), Some(t));
    }
    assert_eq!(SessionType::from_str("something else"), None);
    assert_eq!(SessionType::from_str(""), None);
}

fn session(expires_at: i64) -> PasskeySession {
    PasskeySession {
        session_id: String::from("sid"),
        discord_id: String::from("u1"),
        challenge: vec![],
        session_type: SessionType::Registration,
        created_at: 0,
        expires_at,
        message_to_sign: None,
    }
}

#[test]
fn session_expiry() {
    let s = session(100);
    assert!(!s.is_expired(100));
    assert!(s.is_expired(101));
}

#[test]
fn session_check_precedence() {
    let s = session(100);
    assert_eq!(
        s.check(&String::from("u2"), SessionType::Verification, 200),
        SessionCheck::Expired
    );
    assert_eq!(
        s.check(&String::from("u2"), SessionType::Verification, 50),
        SessionCheck::IdMismatch
    );
    assert_eq!(
        s.check(&String::from("u1"), SessionType::Verification, 50),
        SessionCheck::TypeMismatch
    );
    assert_eq!(
        s.check(&String::from("u1"), SessionType::Registration, 50),
        SessionCheck::Usable
    );
}
