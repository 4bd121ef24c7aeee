//! The state-transition entry point: one invocation decodes an instruction
//! buffer and dispatches to the matching handler.
//!
//! The whole invocation is specified by [`spec_process_instruction`]: a
//! malformed buffer aborts with a decode failure before any account is
//! touched, and otherwise the invocation behaves as the selected handler's
//! transition function. Any failure leaves every account exactly as it was,
//! mirroring the runtime's all-or-nothing commit.

use vstd::prelude::*;
use crate::codec::{JustTheTipInstruction, InstructionView, parse_instruction, decode_instruction};
use crate::escrow::{
    spec_collect_funds, spec_distribute_airdrop, spec_refund_escrow, spec_claim_airdrop,
    process_collect_funds, process_distribute_airdrop, process_refund_escrow,
    process_claim_airdrop,
};
use crate::ledger::{Account, AccountView, EngineError, Rent, views, lemma_total_lamports_update};
use crate::tips::{
    spec_initialize_user_account, spec_create_tip, spec_execute_tip, spec_cancel_tip,
    process_initialize_user_account, process_create_tip, process_execute_tip, process_cancel_tip,
};

verus! {

/// Transition for a whole invocation: decode the buffer, then apply the
/// selected handler's transition.
pub open spec fn spec_process_instruction(
    s: Seq<AccountView>,
    rent: Rent,
    now: i64,
    data: Seq<u8>,
) -> (Result<(), EngineError>, Seq<AccountView>) {
    match parse_instruction(data) {
        None => (Err(EngineError::Decode), s),
        Some(iv) => match iv {
            InstructionView::InitializeUserAccount { user_id } => spec_initialize_user_account(
                s,
                rent,
                user_id,
            ),
            InstructionView::CreateTip { amount, recipient } => spec_create_tip(
                s,
                rent,
                now,
                amount,
                recipient,
            ),
            InstructionView::ExecuteTip { tip_id } => spec_execute_tip(s, tip_id),
            InstructionView::CancelTip { tip_id } => spec_cancel_tip(s, tip_id),
            InstructionView::CollectFunds { total_amount, airdrop_id } => spec_collect_funds(
                s,
                rent,
                total_amount,
                airdrop_id,
            ),
            InstructionView::DistributeAirdrop {
                airdrop_id,
                recipients,
                fee_wallet,
                fee_percentage,
            } => spec_distribute_airdrop(s, airdrop_id, recipients, fee_wallet, fee_percentage),
            InstructionView::RefundEscrow { airdrop_id } => spec_refund_escrow(s, airdrop_id),
            InstructionView::ClaimAirdrop { airdrop_id, recipient, amount } => spec_claim_airdrop(
                s,
                airdrop_id,
                recipient,
                amount,
            ),
        },
    }
}

/// Processes one submitted instruction against the supplied account list.
/// `rent` is the runtime's storage pricing and `now` its clock reading for
/// this invocation.
pub fn process_instruction(
    accounts: &mut Vec<Account>,
    instruction_data: &Vec<u8>,
    rent: &Rent,
    now: i64,
) -> (r: Result<(), EngineError>)
    ensures
        ({
            let (res, s2) = spec_process_instruction(
                views(old(accounts)@),
                *rent,
                now,
                instruction_data@,
            );
            r == res && views(final(accounts)@) == s2
        }),
{
    let instruction = match decode_instruction(instruction_data) {
        Ok(instruction) => instruction,
        Err(e) => {
            return Err(e);
        },
    };
    match instruction {
        JustTheTipInstruction::InitializeUserAccount { user_id } =>
            process_initialize_user_account(accounts, rent, &user_id),
        JustTheTipInstruction::CreateTip { amount, recipient } => process_create_tip(
            accounts,
            rent,
            now,
            amount,
            &recipient,
        ),
        JustTheTipInstruction::ExecuteTip { tip_id } => process_execute_tip(accounts, &tip_id),
        JustTheTipInstruction::CancelTip { tip_id } => process_cancel_tip(accounts, &tip_id),
        JustTheTipInstruction::CollectFunds { total_amount, airdrop_id } => process_collect_funds(
            accounts,
            rent,
            total_amount,
            &airdrop_id,
        ),
        JustTheTipInstruction::DistributeAirdrop {
            airdrop_id,
            recipients,
            fee_wallet,
            fee_percentage,
        } => process_distribute_airdrop(
            accounts,
            &airdrop_id,
            &recipients,
            &fee_wallet,
            fee_percentage,
        ),
        JustTheTipInstruction::RefundEscrow { airdrop_id } => process_refund_escrow(
            accounts,
            &airdrop_id,
        ),
        JustTheTipInstruction::ClaimAirdrop { airdrop_id, recipient, amount } =>
            process_claim_airdrop(accounts, &airdrop_id, &recipient, amount),
    }
}

/// The engine neither creates nor destroys funds: a successful invocation
/// leaves the account list's total balance unchanged, except that a
/// distribution sends exactly the recipients' sum out of the list, to the
/// listed recipients.
pub proof fn lemma_invocation_conserves_funds(
    s: Seq<AccountView>,
    rent: Rent,
    now: i64,
    data: Seq<u8>,
)
    requires
        spec_process_instruction(s, rent, now, data).0 is Ok,
    ensures
        ({
            let s2 = spec_process_instruction(s, rent, now, data).1;
            let outflow = match parse_instruction(data) {
                Some(InstructionView::DistributeAirdrop { recipients, .. }) => crate::escrow::sum_amounts(
                    recipients,
                ),
                _ => 0int,
            };
            crate::ledger::total_lamports(s2) == crate::ledger::total_lamports(s) - outflow
        }),
{
    match parse_instruction(data) {
        None => {},
        Some(iv) => match iv {
            InstructionView::InitializeUserAccount { user_id } => {
                let (res, s2) = spec_initialize_user_account(s, rent, user_id);
                if s2 != s {
                    let min = crate::ledger::spec_minimum_balance(rent, 0);
                    let user2 = AccountView { lamports: min as u64, data: Seq::empty(), ..s[0] };
                    let payer2 = AccountView { lamports: (s[1].lamports - min) as u64, ..s[1] };
                    lemma_total_lamports_update(s, 0, user2);
                    lemma_total_lamports_update(s.update(0, user2), 1, payer2);
                }
            },
            InstructionView::CreateTip { amount, recipient } => {
                let (res, s2) = spec_create_tip(s, rent, now, amount, recipient);
                let record = crate::codec::TipDataView {
                    sender: s[1].address,
                    recipient,
                    amount,
                    timestamp: now,
                };
                let bytes = crate::codec::enc_tip_data(record);
                if s[0].lamports == 0 {
                    let min = crate::ledger::spec_minimum_balance(rent, bytes.len());
                    let tip2 = AccountView { lamports: min as u64, data: bytes, ..s[0] };
                    let sender2 = AccountView { lamports: (s[1].lamports - min) as u64, ..s[1] };
                    lemma_total_lamports_update(s, 0, tip2);
                    lemma_total_lamports_update(s.update(0, tip2), 1, sender2);
                } else {
                    let tip2 = AccountView { data: bytes, ..s[0] };
                    lemma_total_lamports_update(s, 0, tip2);
                }
            },
            InstructionView::ExecuteTip { tip_id } => {
                let record = crate::codec::parse_tip_data(s[0].data).unwrap();
                let tip2 = AccountView { lamports: 0u64, ..s[0] };
                let sender2 = AccountView {
                    lamports: (s[1].lamports - record.amount + s[0].lamports) as u64,
                    ..s[1]
                };
                let recipient2 = AccountView {
                    lamports: (s[2].lamports + record.amount) as u64,
                    ..s[2]
                };
                lemma_total_lamports_update(s, 0, tip2);
                lemma_total_lamports_update(s.update(0, tip2), 1, sender2);
                lemma_total_lamports_update(s.update(0, tip2).update(1, sender2), 2, recipient2);
            },
            InstructionView::CancelTip { tip_id } => {
                let tip2 = AccountView { lamports: 0u64, ..s[0] };
                let sender2 = AccountView {
                    lamports: (s[1].lamports + s[0].lamports) as u64,
                    ..s[1]
                };
                lemma_total_lamports_update(s, 0, tip2);
                lemma_total_lamports_update(s.update(0, tip2), 1, sender2);
            },
            InstructionView::CollectFunds { total_amount, airdrop_id } => {
                let created = s[0].lamports == 0;
                let min: int = if created {
                    crate::ledger::spec_minimum_balance(rent, 8)
                } else {
                    0
                };
                let base: u64 = if created {
                    0u64
                } else {
                    crate::codec::counter_of(s[0].data)
                };
                let tail: Seq<u8> = if created {
                    Seq::empty()
                } else {
                    s[0].data.skip(8)
                };
                let esc2 = AccountView {
                    lamports: (s[0].lamports + min + total_amount) as u64,
                    data: crate::codec::enc_u64((base + total_amount) as u64) + tail,
                    ..s[0]
                };
                let sender2 = AccountView {
                    lamports: (s[1].lamports - min - total_amount) as u64,
                    ..s[1]
                };
                lemma_total_lamports_update(s, 0, esc2);
                lemma_total_lamports_update(s.update(0, esc2), 1, sender2);
            },
            InstructionView::DistributeAirdrop {
                airdrop_id,
                recipients,
                fee_wallet,
                fee_percentage,
            } => {
                let total = crate::codec::counter_of(s[0].data);
                let fee = crate::escrow::fee_of(total, fee_percentage);
                let sum = crate::escrow::sum_amounts(recipients);
                let remainder = total - fee - sum;
                let esc2 = AccountView { lamports: 0u64, ..s[0] };
                let sender2 = AccountView {
                    lamports: (s[1].lamports + remainder + (s[0].lamports - total)) as u64,
                    ..s[1]
                };
                let fee2 = AccountView { lamports: (s[2].lamports + fee) as u64, ..s[2] };
                lemma_total_lamports_update(s, 0, esc2);
                lemma_total_lamports_update(s.update(0, esc2), 1, sender2);
                lemma_total_lamports_update(s.update(0, esc2).update(1, sender2), 2, fee2);
            },
            InstructionView::RefundEscrow { airdrop_id } => {
                let esc2 = AccountView { lamports: 0u64, ..s[0] };
                let sender2 = AccountView {
                    lamports: (s[1].lamports + s[0].lamports) as u64,
                    ..s[1]
                };
                lemma_total_lamports_update(s, 0, esc2);
                lemma_total_lamports_update(s.update(0, esc2), 1, sender2);
            },
            InstructionView::ClaimAirdrop { airdrop_id, recipient, amount } => {
                let total = crate::codec::counter_of(s[0].data);
                let esc2 = AccountView {
                    lamports: (s[0].lamports - amount) as u64,
                    data: crate::codec::enc_u64((total - amount) as u64) + s[0].data.skip(8),
                    ..s[0]
                };
                let recipient2 = AccountView {
                    lamports: (s[1].lamports + amount) as u64,
                    ..s[1]
                };
                lemma_total_lamports_update(s, 0, esc2);
                lemma_total_lamports_update(s.update(0, esc2), 1, recipient2);
            },
        },
    }
}

/// Atomicity of a whole invocation: whatever the instruction bytes say, a
/// failed invocation leaves every account unchanged.
pub proof fn lemma_failed_invocation_changes_nothing(
    s: Seq<AccountView>,
    rent: Rent,
    now: i64,
    data: Seq<u8>,
)
    ensures
        spec_process_instruction(s, rent, now, data).0 is Err ==> spec_process_instruction(
            s,
            rent,
            now,
            data,
        ).1 == s,
{
}

} // verus!
