use justthetip::codec::{
    encode_instruction, read_counter, AirdropRecipient, JustTheTipInstruction,
};
use justthetip::engine::process_instruction;
use justthetip::identity::{derive_address, escrow_label_bytes, user_label_bytes, Address};
use justthetip::ledger::{Account, EngineError, Rent};

const NOW: i64 = 1_700_000_000;

fn rent() -> Rent {
    Rent { base: 10, per_byte: 1 }
}

fn wallet(tag: u8) -> Address {
    Address::External(vec![tag, tag, tag, tag])
}

fn escrow_address(airdrop_id: &Vec<u8>) -> Address {
    derive_address(&escrow_label_bytes(), airdrop_id).address
}

fn user_address(user_id: &str) -> Address {
    derive_address(&user_label_bytes(), &user_id.as_bytes().to_vec()).address
}

fn signer(address: Address, lamports: u64) -> Account {
    Account { address, is_signer: true, lamports, data: vec![] }
}

fn plain(address: Address, lamports: u64) -> Account {
    Account { address, is_signer: false, lamports, data: vec![] }
}

fn run(accounts: &mut Vec<Account>, instr: &JustTheTipInstruction) -> Result<(), EngineError> {
    let bytes = encode_instruction(instr);
    process_instruction(accounts, &bytes, &rent(), NOW)
}

/// Collect 1000, distribute 300 and 400 with a 10 percent fee: fee 100,
/// distributable 900, remainder 200 refunded, pool closed at exactly zero.
#[test]
fn scenario_collect_then_distribute_with_fee() {
    let airdrop_id = vec![1u8; 32];
    let sender = wallet(1);
    let fee_wallet = wallet(9);

    let mut accounts = vec![
        plain(escrow_address(&airdrop_id), 0),
        signer(sender.clone(), 10_000),
    ];
    let collect = JustTheTipInstruction::CollectFunds { total_amount: 1000, airdrop_id: airdrop_id.clone() };
    assert_eq!(run(&mut accounts, &collect), Ok(()));

    // The pool was created at the rent minimum for its 8-byte counter
    // (base 10 + 8) and then funded with the collected 1000.
    assert_eq!(accounts[0].lamports, 18 + 1000);
    assert_eq!(read_counter(&accounts[0].data), 1000);
    assert_eq!(accounts[1].lamports, 10_000 - 18 - 1000);

    let escrow = accounts.remove(0);
    let sender_wallet = accounts.remove(0);
    let mut accounts = vec![escrow, sender_wallet, plain(fee_wallet.clone(), 0)];
    let before_total: u64 = accounts.iter().map(|a| a.lamports).sum();

    let distribute = JustTheTipInstruction::DistributeAirdrop {
        airdrop_id: airdrop_id.clone(),
        recipients: vec![
            AirdropRecipient { recipient: wallet(2), amount: 300 },
            AirdropRecipient { recipient: wallet(3), amount: 400 },
        ],
        fee_wallet: fee_wallet.clone(),
        fee_percentage: 10,
    };
    assert_eq!(run(&mut accounts, &distribute), Ok(()));

    // fee = 100, sum = 700, remainder = 200; the sender also gets the
    // pool's whole leftover balance (the 18 rent deposit) back.
    assert_eq!(accounts[0].lamports, 0);
    assert_eq!(accounts[2].lamports, 100);
    assert_eq!(accounts[1].lamports, 10_000 - 18 - 1000 + 200 + 18);

    // Fund conservation: what the supplied accounts lost is exactly the
    // 700 paid out to the two recipients.
    let after_total: u64 = accounts.iter().map(|a| a.lamports).sum();
    assert_eq!(before_total - after_total, 700);

    // The closed pool accepts nothing further.
    let escrow = accounts.remove(0);
    let mut claim_accounts = vec![escrow, signer(wallet(2), 0)];
    let claim = JustTheTipInstruction::ClaimAirdrop {
        airdrop_id: airdrop_id.clone(),
        recipient: wallet(2),
        amount: 1,
    };
    assert_eq!(run(&mut claim_accounts, &claim), Err(EngineError::AccountMismatch));
}

/// Collect 500, claim 200 twice, then a third claim of 200 fails with
/// insufficient funds and leaves the counter at 100.
#[test]
fn scenario_claims_until_insufficient() {
    let airdrop_id = vec![2u8; 32];
    let claimer = wallet(5);

    let mut accounts = vec![
        plain(escrow_address(&airdrop_id), 0),
        signer(wallet(1), 10_000),
    ];
    let collect = JustTheTipInstruction::CollectFunds { total_amount: 500, airdrop_id: airdrop_id.clone() };
    assert_eq!(run(&mut accounts, &collect), Ok(()));

    let escrow = accounts.remove(0);
    let mut accounts = vec![escrow, signer(claimer.clone(), 0)];
    let claim = JustTheTipInstruction::ClaimAirdrop {
        airdrop_id: airdrop_id.clone(),
        recipient: claimer.clone(),
        amount: 200,
    };

    assert_eq!(run(&mut accounts, &claim), Ok(()));
    assert_eq!(read_counter(&accounts[0].data), 300);
    assert_eq!(accounts[1].lamports, 200);

    assert_eq!(run(&mut accounts, &claim), Ok(()));
    assert_eq!(read_counter(&accounts[0].data), 100);
    assert_eq!(accounts[1].lamports, 400);

    assert_eq!(run(&mut accounts, &claim), Err(EngineError::InsufficientFunds));
    assert_eq!(read_counter(&accounts[0].data), 100);
    assert_eq!(accounts[1].lamports, 400);
}

/// Create a tip of 50, cancel it: no transfer to the recipient, the
/// sender's deposit comes back, and executing the cancelled record fails.
#[test]
fn scenario_create_then_cancel_tip() {
    let sender = wallet(1);
    let recipient = wallet(2);
    let tip_id = vec![3u8; 32];

    let mut accounts = vec![plain(wallet(8), 0), signer(sender.clone(), 1_000)];
    let create = JustTheTipInstruction::CreateTip { amount: 50, recipient: recipient.clone() };
    assert_eq!(run(&mut accounts, &create), Ok(()));
    let deposit = accounts[0].lamports;
    assert!(deposit > 0);
    assert_eq!(accounts[1].lamports, 1_000 - deposit);

    let cancel = JustTheTipInstruction::CancelTip { tip_id: tip_id.clone() };
    assert_eq!(run(&mut accounts, &cancel), Ok(()));
    assert_eq!(accounts[0].lamports, 0);
    assert_eq!(accounts[1].lamports, 1_000);

    // Executing the now-zeroed record is rejected before anything moves.
    let tip = accounts.remove(0);
    let sender_wallet = accounts.remove(0);
    let mut accounts = vec![tip, sender_wallet, plain(recipient.clone(), 0)];
    let execute = JustTheTipInstruction::ExecuteTip { tip_id };
    assert_eq!(run(&mut accounts, &execute), Err(EngineError::AccountMismatch));
    assert_eq!(accounts[2].lamports, 0);
    assert_eq!(accounts[1].lamports, 1_000);
}

/// Create and execute a tip: the amount moves from sender to recipient and
/// the record's deposit is refunded.
#[test]
fn scenario_create_then_execute_tip() {
    let sender = wallet(1);
    let recipient = wallet(2);

    let mut accounts = vec![plain(wallet(8), 0), signer(sender.clone(), 1_000)];
    let create = JustTheTipInstruction::CreateTip { amount: 50, recipient: recipient.clone() };
    assert_eq!(run(&mut accounts, &create), Ok(()));
    let deposit = accounts[0].lamports;

    let tip = accounts.remove(0);
    let sender_wallet = accounts.remove(0);
    let mut accounts = vec![tip, sender_wallet, plain(recipient.clone(), 7)];
    let execute = JustTheTipInstruction::ExecuteTip { tip_id: vec![3u8; 32] };
    assert_eq!(run(&mut accounts, &execute), Ok(()));

    assert_eq!(accounts[0].lamports, 0);
    assert_eq!(accounts[1].lamports, 1_000 - deposit - 50 + deposit);
    assert_eq!(accounts[2].lamports, 7 + 50);

    // Terminal: a second execute on the closed record fails unchanged.
    assert_eq!(
        run(&mut accounts, &JustTheTipInstruction::ExecuteTip { tip_id: vec![3u8; 32] }),
        Err(EngineError::AccountMismatch)
    );
}

/// Initializing the same user twice: the second call is a no-op and every
/// balance, address, and byte of stored data is unchanged.
#[test]
fn scenario_initialize_user_twice() {
    let user = user_address("u1");
    let mut accounts = vec![plain(user.clone(), 0), signer(wallet(1), 1_000)];
    let init = JustTheTipInstruction::InitializeUserAccount { user_id: String::from("u1") };

    assert_eq!(run(&mut accounts, &init), Ok(()));
    assert_eq!(accounts[0].lamports, 10);
    assert_eq!(accounts[1].lamports, 990);
    let snapshot = accounts.clone();

    assert_eq!(run(&mut accounts, &init), Ok(()));
    assert_eq!(accounts, snapshot);
}

#[test]
fn initialize_user_rejects_wrong_address() {
    let mut accounts = vec![plain(user_address("u2"), 0), signer(wallet(1), 1_000)];
    let init = JustTheTipInstruction::InitializeUserAccount { user_id: String::from("u1") };
    assert_eq!(run(&mut accounts, &init), Err(EngineError::AccountMismatch));
    assert_eq!(accounts[1].lamports, 1_000);
}

#[test]
fn create_tip_requires_signer_and_positive_amount() {
    let mut accounts = vec![plain(wallet(8), 0), plain(wallet(1), 1_000)];
    let create = JustTheTipInstruction::CreateTip { amount: 50, recipient: wallet(2) };
    assert_eq!(run(&mut accounts, &create), Err(EngineError::Authorization));

    let mut accounts = vec![plain(wallet(8), 0), signer(wallet(1), 1_000)];
    let create = JustTheTipInstruction::CreateTip { amount: 0, recipient: wallet(2) };
    assert_eq!(run(&mut accounts, &create), Err(EngineError::InvalidAmount));
}

#[test]
fn execute_tip_requires_matching_sender() {
    let sender = wallet(1);
    let imposter = wallet(6);
    let recipient = wallet(2);

    let mut accounts = vec![plain(wallet(8), 0), signer(sender.clone(), 1_000)];
    let create = JustTheTipInstruction::CreateTip { amount: 50, recipient: recipient.clone() };
    assert_eq!(run(&mut accounts, &create), Ok(()));

    let tip = accounts.remove(0);
    let mut accounts = vec![tip, signer(imposter, 1_000), plain(recipient, 0)];
    let execute = JustTheTipInstruction::ExecuteTip { tip_id: vec![3u8; 32] };
    assert_eq!(run(&mut accounts, &execute), Err(EngineError::AccountMismatch));
}

/// Repeated collection accumulates: the counter grows by the new amount
/// exactly as the pool's balance does.
#[test]
fn collect_twice_accumulates() {
    let airdrop_id = vec![4u8; 32];
    let mut accounts = vec![
        plain(escrow_address(&airdrop_id), 0),
        signer(wallet(1), 10_000),
    ];
    let collect = |amount: u64| JustTheTipInstruction::CollectFunds {
        total_amount: amount,
        airdrop_id: airdrop_id.clone(),
    };
    assert_eq!(run(&mut accounts, &collect(300)), Ok(()));
    assert_eq!(run(&mut accounts, &collect(200)), Ok(()));
    assert_eq!(read_counter(&accounts[0].data), 500);
    assert_eq!(accounts[0].lamports, 18 + 500);
}

#[test]
fn collect_rejects_wrong_escrow_address() {
    let airdrop_id = vec![4u8; 32];
    let other_id = vec![5u8; 32];
    let mut accounts = vec![
        plain(escrow_address(&other_id), 0),
        signer(wallet(1), 10_000),
    ];
    let collect = JustTheTipInstruction::CollectFunds { total_amount: 300, airdrop_id };
    assert_eq!(run(&mut accounts, &collect), Err(EngineError::AccountMismatch));
}

/// Refund returns the pool's whole balance to the sender and closes it.
#[test]
fn refund_returns_everything_and_closes() {
    let airdrop_id = vec![6u8; 32];
    let mut accounts = vec![
        plain(escrow_address(&airdrop_id), 0),
        signer(wallet(1), 10_000),
    ];
    let collect = JustTheTipInstruction::CollectFunds { total_amount: 500, airdrop_id: airdrop_id.clone() };
    assert_eq!(run(&mut accounts, &collect), Ok(()));

    let refund = JustTheTipInstruction::RefundEscrow { airdrop_id: airdrop_id.clone() };
    assert_eq!(run(&mut accounts, &refund), Ok(()));
    assert_eq!(accounts[0].lamports, 0);
    assert_eq!(accounts[1].lamports, 10_000);

    // Terminal: refunding again fails and changes nothing.
    assert_eq!(run(&mut accounts, &refund), Err(EngineError::AccountMismatch));
    assert_eq!(accounts[1].lamports, 10_000);
}

/// A one hundred percent fee leaves nothing distributable: an empty
/// recipient list succeeds and the fee wallet takes the whole total, while
/// any positive request fails.
#[test]
fn distribute_with_full_fee() {
    let airdrop_id = vec![7u8; 32];
    let fee_wallet = wallet(9);
    let make = || {
        vec![
            {
                let mut pool = plain(escrow_address(&airdrop_id), 0);
                pool.lamports = 1000;
                pool.data = {
                    let mut d = vec![0u8; 8];
                    d[0] = 0xe8;
                    d[1] = 0x03;
                    d
                };
                pool
            },
            signer(wallet(1), 0),
            plain(fee_wallet.clone(), 0),
        ]
    };

    let mut accounts = make();
    let distribute = JustTheTipInstruction::DistributeAirdrop {
        airdrop_id: airdrop_id.clone(),
        recipients: vec![AirdropRecipient { recipient: wallet(2), amount: 1 }],
        fee_wallet: fee_wallet.clone(),
        fee_percentage: 100,
    };
    assert_eq!(run(&mut accounts, &distribute), Err(EngineError::InsufficientFunds));
    assert_eq!(accounts[0].lamports, 1000);

    let mut accounts = make();
    let distribute = JustTheTipInstruction::DistributeAirdrop {
        airdrop_id: airdrop_id.clone(),
        recipients: vec![],
        fee_wallet: fee_wallet.clone(),
        fee_percentage: 100,
    };
    assert_eq!(run(&mut accounts, &distribute), Ok(()));
    assert_eq!(accounts[2].lamports, 1000);
    assert_eq!(accounts[0].lamports, 0);
}

/// A fee percentage outside (0, 100] yields no fee at all.
#[test]
fn distribute_fee_out_of_range_is_zero() {
    let airdrop_id = vec![8u8; 32];
    let fee_wallet = wallet(9);
    for pct in [0u8, 101, 250] {
        let mut accounts = vec![
            plain(escrow_address(&airdrop_id), 0),
            signer(wallet(1), 10_000),
        ];
        let collect = JustTheTipInstruction::CollectFunds { total_amount: 600, airdrop_id: airdrop_id.clone() };
        assert_eq!(run(&mut accounts, &collect), Ok(()));

        let escrow = accounts.remove(0);
        let sender_wallet = accounts.remove(0);
        let mut accounts = vec![escrow, sender_wallet, plain(fee_wallet.clone(), 0)];
        let distribute = JustTheTipInstruction::DistributeAirdrop {
            airdrop_id: airdrop_id.clone(),
            recipients: vec![AirdropRecipient { recipient: wallet(2), amount: 600 }],
            fee_wallet: fee_wallet.clone(),
            fee_percentage: pct,
        };
        assert_eq!(run(&mut accounts, &distribute), Ok(()));
        // No fee: the whole 600 was distributable and went to the one
        // recipient; the fee wallet got nothing.
        assert_eq!(accounts[2].lamports, 0);
        assert_eq!(accounts[0].lamports, 0);
    }
}

#[test]
fn claim_requires_recipient_signature_and_identity() {
    let airdrop_id = vec![9u8; 32];
    let claimer = wallet(5);

    let mut accounts = vec![
        plain(escrow_address(&airdrop_id), 0),
        signer(wallet(1), 10_000),
    ];
    let collect = JustTheTipInstruction::CollectFunds { total_amount: 500, airdrop_id: airdrop_id.clone() };
    assert_eq!(run(&mut accounts, &collect), Ok(()));
    let escrow = accounts.remove(0);

    // Not a signer.
    let mut accounts = vec![escrow.clone(), plain(claimer.clone(), 0)];
    let claim = JustTheTipInstruction::ClaimAirdrop {
        airdrop_id: airdrop_id.clone(),
        recipient: claimer.clone(),
        amount: 100,
    };
    assert_eq!(run(&mut accounts, &claim), Err(EngineError::Authorization));

    // Signed, but by a wallet other than the named recipient.
    let mut accounts = vec![escrow.clone(), signer(wallet(6), 0)];
    assert_eq!(run(&mut accounts, &claim), Err(EngineError::AccountMismatch));
}

#[test]
fn claim_overflow_leaves_everything_unchanged() {
    let airdrop_id = vec![10u8; 32];
    let claimer = wallet(5);

    let mut accounts = vec![
        plain(escrow_address(&airdrop_id), 0),
        signer(wallet(1), 10_000),
    ];
    let collect = JustTheTipInstruction::CollectFunds { total_amount: 500, airdrop_id: airdrop_id.clone() };
    assert_eq!(run(&mut accounts, &collect), Ok(()));
    let escrow = accounts.remove(0);

    let mut accounts = vec![escrow, signer(claimer.clone(), u64::MAX)];
    let claim = JustTheTipInstruction::ClaimAirdrop {
        airdrop_id: airdrop_id.clone(),
        recipient: claimer.clone(),
        amount: 100,
    };
    assert_eq!(run(&mut accounts, &claim), Err(EngineError::ArithmeticOverflow));
    assert_eq!(read_counter(&accounts[0].data), 500);
    assert_eq!(accounts[1].lamports, u64::MAX);
}

#[test]
fn pool_with_short_record_is_rejected() {
    let airdrop_id = vec![11u8; 32];
    let mut pool = plain(escrow_address(&airdrop_id), 0);
    pool.lamports = 100;
    pool.data = vec![1, 2, 3];
    let mut accounts = vec![pool, signer(wallet(1), 0)];
    let refund = JustTheTipInstruction::RefundEscrow { airdrop_id };
    assert_eq!(run(&mut accounts, &refund), Err(EngineError::Decode));
}

#[test]
fn malformed_instruction_changes_nothing() {
    let mut accounts = vec![plain(wallet(8), 123), signer(wallet(1), 456)];
    let snapshot = accounts.clone();
    let r = process_instruction(&mut accounts, &vec![1, 2, 3], &rent(), NOW);
    assert_eq!(r, Err(EngineError::Decode));
    assert_eq!(accounts, snapshot);
}

#[test]
fn engine_error_messages_are_distinct() {
    let messages = [
        EngineError::Decode.message(),
        EngineError::Authorization.message(),
        EngineError::AccountMismatch.message(),
        EngineError::InsufficientFunds.message(),
        EngineError::ArithmeticOverflow.message(),
        EngineError::InvalidAmount.message(),
    ];
    for (i, a) in messages.iter().enumerate() {
        assert!(!a.is_empty());
        for b in messages.iter().skip(i + 1) {
            assert_ne!(a, b);
        }
    }
}

/// Distribute after a partial claim validates against the freshly read
/// counter: after claiming 200 of 1000, the counter says 800, so at a 10%
/// fee exactly 720 is distributable.
#[test]
fn claim_then_distribute_uses_fresh_counter() {
    let airdrop_id = vec![12u8; 32];
    let claimer = wallet(5);
    let fee_wallet = wallet(9);

    let mut accounts = vec![
        plain(escrow_address(&airdrop_id), 0),
        signer(wallet(1), 10_000),
    ];
    let collect = JustTheTipInstruction::CollectFunds { total_amount: 1000, airdrop_id: airdrop_id.clone() };
    assert_eq!(run(&mut accounts, &collect), Ok(()));
    let escrow = accounts.remove(0);
    let sender_wallet = accounts.remove(0);

    let mut accounts = vec![escrow, signer(claimer.clone(), 0)];
    let claim = JustTheTipInstruction::ClaimAirdrop {
        airdrop_id: airdrop_id.clone(),
        recipient: claimer,
        amount: 200,
    };
    assert_eq!(run(&mut accounts, &claim), Ok(()));
    assert_eq!(read_counter(&accounts[0].data), 800);

    let escrow = accounts.remove(0);
    let mut accounts = vec![escrow, sender_wallet, plain(fee_wallet.clone(), 0)];
    let over = JustTheTipInstruction::DistributeAirdrop {
        airdrop_id: airdrop_id.clone(),
        recipients: vec![AirdropRecipient { recipient: wallet(2), amount: 721 }],
        fee_wallet: fee_wallet.clone(),
        fee_percentage: 10,
    };
    assert_eq!(run(&mut accounts, &over), Err(EngineError::InsufficientFunds));

    let exact = JustTheTipInstruction::DistributeAirdrop {
        airdrop_id,
        recipients: vec![AirdropRecipient { recipient: wallet(2), amount: 720 }],
        fee_wallet,
        fee_percentage: 10,
    };
    assert_eq!(run(&mut accounts, &exact), Ok(()));
    assert_eq!(accounts[2].lamports, 80);
    assert_eq!(accounts[0].lamports, 0);
}
