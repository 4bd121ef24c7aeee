use justthetip::codec::{
    decode_instruction, decode_tip_data, encode_instruction, encode_tip_data, AirdropRecipient,
    JustTheTipInstruction, TipData,
};
use justthetip::identity::Address;
use justthetip::ledger::EngineError;

fn wallet(tag: u8) -> Address {
    Address::External(vec![tag, tag, tag, tag])
}

fn id32(tag: u8) -> Vec<u8> {
    vec![tag; 32]
}

#[test]
fn round_trip_initialize_user_account() {
    let instr = JustTheTipInstruction::InitializeUserAccount { user_id: String::from("alice") };
    let bytes = encode_instruction(&instr);
    assert_eq!(decode_instruction(&bytes), Ok(instr));
}

#[test]
fn round_trip_initialize_user_account_non_ascii() {
    let instr = JustTheTipInstruction::InitializeUserAccount { user_id: String::from("aliché £5") };
    let bytes = encode_instruction(&instr);
    assert_eq!(decode_instruction(&bytes), Ok(instr));
}

#[test]
fn round_trip_create_tip() {
    let instr = JustTheTipInstruction::CreateTip { amount: 50, recipient: wallet(7) };
    let bytes = encode_instruction(&instr);
    assert_eq!(decode_instruction(&bytes), Ok(instr));
}

#[test]
fn round_trip_execute_and_cancel_tip() {
    let execute = JustTheTipInstruction::ExecuteTip { tip_id: id32(9) };
    let bytes = encode_instruction(&execute);
    assert_eq!(decode_instruction(&bytes), Ok(execute));

    let cancel = JustTheTipInstruction::CancelTip { tip_id: id32(9) };
    let bytes = encode_instruction(&cancel);
    assert_eq!(decode_instruction(&bytes), Ok(cancel));
}

#[test]
fn round_trip_collect_and_refund() {
    let collect = JustTheTipInstruction::CollectFunds { total_amount: 1000, airdrop_id: id32(1) };
    let bytes = encode_instruction(&collect);
    assert_eq!(decode_instruction(&bytes), Ok(collect));

    let refund = JustTheTipInstruction::RefundEscrow { airdrop_id: id32(1) };
    let bytes = encode_instruction(&refund);
    assert_eq!(decode_instruction(&bytes), Ok(refund));
}

#[test]
fn round_trip_distribute_airdrop() {
    let instr = JustTheTipInstruction::DistributeAirdrop {
        airdrop_id: id32(1),
        recipients: vec![
            AirdropRecipient { recipient: wallet(2), amount: 300 },
            AirdropRecipient { recipient: wallet(3), amount: 400 },
        ],
        fee_wallet: wallet(4),
        fee_percentage: 10,
    };
    let bytes = encode_instruction(&instr);
    assert_eq!(decode_instruction(&bytes), Ok(instr));
}

#[test]
fn round_trip_distribute_airdrop_empty_list() {
    let instr = JustTheTipInstruction::DistributeAirdrop {
        airdrop_id: id32(1),
        recipients: vec![],
        fee_wallet: wallet(4),
        fee_percentage: 100,
    };
    let bytes = encode_instruction(&instr);
    assert_eq!(decode_instruction(&bytes), Ok(instr));
}

#[test]
fn round_trip_claim_airdrop() {
    let instr = JustTheTipInstruction::ClaimAirdrop {
        airdrop_id: id32(1),
        recipient: Address::Derived { label: vec![117, 115, 101, 114], seed: vec![1, 2] },
        amount: 200,
    };
    let bytes = encode_instruction(&instr);
    assert_eq!(decode_instruction(&bytes), Ok(instr));
}

#[test]
fn decode_rejects_empty_buffer() {
    assert_eq!(decode_instruction(&vec![]), Err(EngineError::Decode));
}

#[test]
fn decode_rejects_unknown_tag() {
    assert_eq!(decode_instruction(&vec![8, 0, 0, 0]), Err(EngineError::Decode));
}

#[test]
fn decode_rejects_trailing_bytes() {
    let instr = JustTheTipInstruction::CreateTip { amount: 50, recipient: wallet(7) };
    let mut bytes = encode_instruction(&instr);
    bytes.push(0);
    assert_eq!(decode_instruction(&bytes), Err(EngineError::Decode));
}

#[test]
fn decode_rejects_truncated_buffer() {
    let instr = JustTheTipInstruction::CreateTip { amount: 50, recipient: wallet(7) };
    let mut bytes = encode_instruction(&instr);
    bytes.pop();
    assert_eq!(decode_instruction(&bytes), Err(EngineError::Decode));
}

#[test]
fn decode_rejects_invalid_utf8_user_id() {
    let good = encode_instruction(&JustTheTipInstruction::InitializeUserAccount {
        user_id: String::from("ab"),
    });
    // Corrupt one byte of the two-character identifier into an invalid
    // UTF-8 leading byte; the buffer shape stays intact.
    let mut bad = good.clone();
    let n = bad.len();
    bad[n - 1] = 0xff;
    assert_eq!(decode_instruction(&bad), Err(EngineError::Decode));
}

#[test]
fn round_trip_tip_record() {
    let record = TipData {
        sender: wallet(1),
        recipient: wallet(2),
        amount: 50,
        timestamp: 1_700_000_000,
    };
    let bytes = encode_tip_data(&record);
    assert_eq!(decode_tip_data(&bytes), Ok(record));
}

#[test]
fn round_trip_tip_record_negative_timestamp() {
    let record = TipData { sender: wallet(1), recipient: wallet(2), amount: 1, timestamp: -12345 };
    let bytes = encode_tip_data(&record);
    assert_eq!(decode_tip_data(&bytes), Ok(record));
}

#[test]
fn tip_record_rejects_trailing_bytes() {
    let record = TipData { sender: wallet(1), recipient: wallet(2), amount: 50, timestamp: 0 };
    let mut bytes = encode_tip_data(&record);
    bytes.push(1);
    assert_eq!(decode_tip_data(&bytes), Err(EngineError::Decode));
}
