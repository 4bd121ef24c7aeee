//! Binary instruction and record codec.
//!
//! The wire format is deterministic and versionless: one tag byte selects the
//! instruction variant, numeric fields are fixed-width little-endian, and
//! variable-length fields (byte strings, text, recipient lists) carry a
//! 64-bit little-endian length prefix. Decoding rejects buffers with trailing
//! or missing bytes.
//!
//! The format is specified twice: once as a total encoding function on models
//! ([`enc_instruction`]) and once as a deterministic parser
//! ([`parse_instruction`]); [`lemma_instruction_round_trip`] proves that the
//! parser inverts the encoder.

use vstd::prelude::*;
use vstd::bytes::{spec_u64_to_le_bytes, spec_u64_from_le_bytes};
use vstd::utf8::{encode_utf8, decode_utf8, valid_utf8};
use crate::identity::{Address, AddressView};
use crate::ledger::EngineError;

verus! {

/// A pending, uni-directional transfer: the record a tip account stores.
#[derive(Clone, Debug, PartialEq, Eq)]
pub struct TipData {
    pub sender: Address,
    pub recipient: Address,
    pub amount: u64,
    pub timestamp: i64,
}

/// Mathematical model of a [`TipData`].
pub struct TipDataView {
    pub sender: AddressView,
    pub recipient: AddressView,
    pub amount: u64,
    pub timestamp: i64,
}

impl View for TipData {
    type V = TipDataView;

    open spec fn view(&self) -> TipDataView {
        TipDataView {
            sender: self.sender@,
            recipient: self.recipient@,
            amount: self.amount,
            timestamp: self.timestamp,
        }
    }
}

/// One entry of a distribution list: who receives how much.
#[derive(Clone, Debug, PartialEq, Eq)]
pub struct AirdropRecipient {
    pub recipient: Address,
    pub amount: u64,
}

/// Mathematical model of an [`AirdropRecipient`].
pub struct AirdropRecipientView {
    pub recipient: AddressView,
    pub amount: u64,
}

impl View for AirdropRecipient {
    type V = AirdropRecipientView;

    open spec fn view(&self) -> AirdropRecipientView {
        AirdropRecipientView { recipient: self.recipient@, amount: self.amount }
    }
}

/// The models of a distribution list.
pub open spec fn recipient_views(s: Seq<AirdropRecipient>) -> Seq<AirdropRecipientView> {
    s.map_values(|r: AirdropRecipient| r@)
}

/// The closed instruction set.
#[derive(Clone, Debug, PartialEq, Eq)]
pub enum JustTheTipInstruction {
    /// Initialize a user's derived account.
    InitializeUserAccount { user_id: String },
    /// Create a pending tip.
    CreateTip { amount: u64, recipient: Address },
    /// Execute a pending tip.
    ExecuteTip { tip_id: Vec<u8> },
    /// Cancel a pending tip.
    CancelTip { tip_id: Vec<u8> },
    /// Collect funds into the escrow pool of an airdrop.
    CollectFunds { total_amount: u64, airdrop_id: Vec<u8> },
    /// Pay an escrow pool out to a recipient list, with an optional fee.
    DistributeAirdrop {
        airdrop_id: Vec<u8>,
        recipients: Vec<AirdropRecipient>,
        fee_wallet: Address,
        fee_percentage: u8,
    },
    /// Return all remaining escrow funds to the sender.
    RefundEscrow { airdrop_id: Vec<u8> },
    /// Withdraw part of an escrow pool to one recipient.
    ClaimAirdrop { airdrop_id: Vec<u8>, recipient: Address, amount: u64 },
}

/// Mathematical model of a [`JustTheTipInstruction`].
pub enum InstructionView {
    InitializeUserAccount { user_id: Seq<char> },
    CreateTip { amount: u64, recipient: AddressView },
    ExecuteTip { tip_id: Seq<u8> },
    CancelTip { tip_id: Seq<u8> },
    CollectFunds { total_amount: u64, airdrop_id: Seq<u8> },
    DistributeAirdrop {
        airdrop_id: Seq<u8>,
        recipients: Seq<AirdropRecipientView>,
        fee_wallet: AddressView,
        fee_percentage: u8,
    },
    RefundEscrow { airdrop_id: Seq<u8> },
    ClaimAirdrop { airdrop_id: Seq<u8>, recipient: AddressView, amount: u64 },
}

impl View for JustTheTipInstruction {
    type V = InstructionView;

    open spec fn view(&self) -> InstructionView {
        match self {
            JustTheTipInstruction::InitializeUserAccount { user_id } =>
                InstructionView::InitializeUserAccount { user_id: user_id@ },
            JustTheTipInstruction::CreateTip { amount, recipient } =>
                InstructionView::CreateTip { amount: *amount, recipient: recipient@ },
            JustTheTipInstruction::ExecuteTip { tip_id } =>
                InstructionView::ExecuteTip { tip_id: tip_id@ },
            JustTheTipInstruction::CancelTip { tip_id } =>
                InstructionView::CancelTip { tip_id: tip_id@ },
            JustTheTipInstruction::CollectFunds { total_amount, airdrop_id } =>
                InstructionView::CollectFunds {
                    total_amount: *total_amount,
                    airdrop_id: airdrop_id@,
                },
            JustTheTipInstruction::DistributeAirdrop {
                airdrop_id,
                recipients,
                fee_wallet,
                fee_percentage,
            } => InstructionView::DistributeAirdrop {
                airdrop_id: airdrop_id@,
                recipients: recipient_views(recipients@),
                fee_wallet: fee_wallet@,
                fee_percentage: *fee_percentage,
            },
            JustTheTipInstruction::RefundEscrow { airdrop_id } =>
                InstructionView::RefundEscrow { airdrop_id: airdrop_id@ },
            JustTheTipInstruction::ClaimAirdrop { airdrop_id, recipient, amount } =>
                InstructionView::ClaimAirdrop {
                    airdrop_id: airdrop_id@,
                    recipient: recipient@,
                    amount: *amount,
                },
        }
    }
}

// ---------------------------------------------------------------------------
// Two's-complement embedding of timestamps into the unsigned wire type.
// ---------------------------------------------------------------------------

/// The unsigned 64-bit word that carries a signed timestamp on the wire.
pub open spec fn i64_as_u64(x: i64) -> u64 {
    if x >= 0 {
        x as u64
    } else {
        (x + 0x1_0000_0000_0000_0000) as u64
    }
}

/// The signed timestamp carried by an unsigned 64-bit wire word.
pub open spec fn u64_as_i64(x: u64) -> i64 {
    if x <= i64::MAX {
        x as i64
    } else {
        (x - 0x1_0000_0000_0000_0000) as i64
    }
}

/// The two embeddings invert each other.
pub proof fn lemma_i64_u64_round_trip(x: i64)
    ensures
        u64_as_i64(i64_as_u64(x)) == x,
{
}

/// Carries a signed timestamp into its unsigned wire word.
pub fn i64_to_u64(x: i64) -> (r: u64)
    ensures
        r == i64_as_u64(x),
{
    if x >= 0 {
        x as u64
    } else {
        let magnitude: u64 = (-(x + 1)) as u64;
        u64::MAX - magnitude
    }
}

/// Recovers a signed timestamp from its unsigned wire word.
pub fn u64_to_i64(x: u64) -> (r: i64)
    ensures
        r == u64_as_i64(x),
{
    if x <= i64::MAX as u64 {
        x as i64
    } else {
        let magnitude: u64 = u64::MAX - x;
        -(magnitude as i64) - 1
    }
}

// ---------------------------------------------------------------------------
// The encoding, as a function on models.
// ---------------------------------------------------------------------------

/// A 64-bit little-endian word.
pub open spec fn enc_u64(x: u64) -> Seq<u8> {
    spec_u64_to_le_bytes(x)
}

/// A length-prefixed byte string.
pub open spec fn enc_bytes(b: Seq<u8>) -> Seq<u8>
    recommends
        b.len() <= u64::MAX,
{
    enc_u64(b.len() as u64) + b
}

/// A length-prefixed UTF-8 text field; the prefix counts bytes.
pub open spec fn enc_string(s: Seq<char>) -> Seq<u8> {
    enc_bytes(encode_utf8(s))
}

/// An address: a tag byte, then its byte strings.
pub open spec fn enc_address(a: AddressView) -> Seq<u8> {
    match a {
        AddressView::External(bytes) => seq![0u8] + enc_bytes(bytes),
        AddressView::Derived { label, seed } => seq![1u8] + enc_bytes(label) + enc_bytes(seed),
    }
}

/// One distribution-list entry.
pub open spec fn enc_recipient(r: AirdropRecipientView) -> Seq<u8> {
    enc_address(r.recipient) + enc_u64(r.amount)
}

/// The entries of a distribution list, in order.
pub open spec fn enc_recipient_items(rs: Seq<AirdropRecipientView>) -> Seq<u8>
    decreases rs.len(),
{
    if rs.len() == 0 {
        seq![]
    } else {
        enc_recipient(rs[0]) + enc_recipient_items(rs.drop_first())
    }
}

/// A length-prefixed distribution list; the prefix counts entries.
pub open spec fn enc_recipient_list(rs: Seq<AirdropRecipientView>) -> Seq<u8>
    recommends
        rs.len() <= u64::MAX,
{
    enc_u64(rs.len() as u64) + enc_recipient_items(rs)
}

/// A persisted tip record.
pub open spec fn enc_tip_data(t: TipDataView) -> Seq<u8> {
    enc_address(t.sender) + enc_address(t.recipient) + enc_u64(t.amount) + enc_u64(
        i64_as_u64(t.timestamp),
    )
}

/// A whole instruction: one tag byte, then the variant's payload.
pub open spec fn enc_instruction(i: InstructionView) -> Seq<u8> {
    match i {
        InstructionView::InitializeUserAccount { user_id } => seq![0u8] + enc_string(user_id),
        InstructionView::CreateTip { amount, recipient } => seq![1u8] + enc_u64(amount)
            + enc_address(recipient),
        InstructionView::ExecuteTip { tip_id } => seq![2u8] + enc_bytes(tip_id),
        InstructionView::CancelTip { tip_id } => seq![3u8] + enc_bytes(tip_id),
        InstructionView::CollectFunds { total_amount, airdrop_id } => seq![4u8] + enc_u64(
            total_amount,
        ) + enc_bytes(airdrop_id),
        InstructionView::DistributeAirdrop {
            airdrop_id,
            recipients,
            fee_wallet,
            fee_percentage,
        } => seq![5u8] + enc_bytes(airdrop_id) + enc_recipient_list(recipients) + enc_address(
            fee_wallet,
        ) + seq![fee_percentage],
        InstructionView::RefundEscrow { airdrop_id } => seq![6u8] + enc_bytes(airdrop_id),
        InstructionView::ClaimAirdrop { airdrop_id, recipient, amount } => seq![7u8] + enc_bytes(
            airdrop_id,
        ) + enc_address(recipient) + enc_u64(amount),
    }
}

// ---------------------------------------------------------------------------
// The parser, as a deterministic function on byte sequences. Each step
// returns the parsed value and the unconsumed suffix.
// ---------------------------------------------------------------------------

/// Reads a 64-bit little-endian word.
pub open spec fn parse_u64(b: Seq<u8>) -> Option<(u64, Seq<u8>)> {
    if b.len() >= 8 {
        Some((spec_u64_from_le_bytes(b.take(8)), b.skip(8)))
    } else {
        None
    }
}

/// Reads a length-prefixed byte string.
pub open spec fn parse_bytes(b: Seq<u8>) -> Option<(Seq<u8>, Seq<u8>)> {
    match parse_u64(b) {
        Some((n, rest)) => if rest.len() >= n {
            Some((rest.take(n as int), rest.skip(n as int)))
        } else {
            None
        },
        None => None,
    }
}

/// Reads a length-prefixed UTF-8 text field.
pub open spec fn parse_string(b: Seq<u8>) -> Option<(Seq<char>, Seq<u8>)> {
    match parse_bytes(b) {
        Some((seg, rest)) => if valid_utf8(seg) {
            Some((decode_utf8(seg), rest))
        } else {
            None
        },
        None => None,
    }
}

/// Reads an address.
pub open spec fn parse_address(b: Seq<u8>) -> Option<(AddressView, Seq<u8>)> {
    if b.len() < 1 {
        None
    } else if b[0] == 0u8 {
        match parse_bytes(b.skip(1)) {
            Some((bytes, rest)) => Some((AddressView::External(bytes), rest)),
            None => None,
        }
    } else if b[0] == 1u8 {
        match parse_bytes(b.skip(1)) {
            Some((label, rest1)) => match parse_bytes(rest1) {
                Some((seed, rest2)) => Some((AddressView::Derived { label, seed }, rest2)),
                None => None,
            },
            None => None,
        }
    } else {
        None
    }
}

/// Reads one distribution-list entry.
pub open spec fn parse_recipient(b: Seq<u8>) -> Option<(AirdropRecipientView, Seq<u8>)> {
    match parse_address(b) {
        Some((recipient, rest1)) => match parse_u64(rest1) {
            Some((amount, rest2)) => Some((AirdropRecipientView { recipient, amount }, rest2)),
            None => None,
        },
        None => None,
    }
}

/// Reads exactly `n` distribution-list entries.
pub open spec fn parse_recipient_items(b: Seq<u8>, n: nat) -> Option<(
    Seq<AirdropRecipientView>,
    Seq<u8>,
)>
    decreases n,
{
    if n == 0 {
        Some((seq![], b))
    } else {
        match parse_recipient(b) {
            Some((r, rest1)) => match parse_recipient_items(rest1, (n - 1) as nat) {
                Some((rs, rest2)) => Some((seq![r] + rs, rest2)),
                None => None,
            },
            None => None,
        }
    }
}

/// Reads a length-prefixed distribution list.
pub open spec fn parse_recipient_list(b: Seq<u8>) -> Option<(Seq<AirdropRecipientView>, Seq<u8>)> {
    match parse_u64(b) {
        Some((n, rest)) => parse_recipient_items(rest, n as nat),
        None => None,
    }
}

/// Reads a whole persisted tip record; trailing bytes are rejected.
pub open spec fn parse_tip_data(b: Seq<u8>) -> Option<TipDataView> {
    match parse_address(b) {
        Some((sender, rest1)) => match parse_address(rest1) {
            Some((recipient, rest2)) => match parse_u64(rest2) {
                Some((amount, rest3)) => match parse_u64(rest3) {
                    Some((ts, rest4)) => if rest4.len() == 0 {
                        Some(
                            TipDataView {
                                sender,
                                recipient,
                                amount,
                                timestamp: u64_as_i64(ts),
                            },
                        )
                    } else {
                        None
                    },
                    None => None,
                },
                None => None,
            },
            None => None,
        },
        None => None,
    }
}

/// Reads a whole instruction; trailing bytes are rejected.
pub open spec fn parse_instruction(b: Seq<u8>) -> Option<InstructionView> {
    if b.len() < 1 {
        None
    } else {
        let payload = b.skip(1);
        if b[0] == 0u8 {
            match parse_string(payload) {
                Some((user_id, rest)) => if rest.len() == 0 {
                    Some(InstructionView::InitializeUserAccount { user_id })
                } else {
                    None
                },
                None => None,
            }
        } else if b[0] == 1u8 {
            match parse_u64(payload) {
                Some((amount, rest1)) => match parse_address(rest1) {
                    Some((recipient, rest2)) => if rest2.len() == 0 {
                        Some(InstructionView::CreateTip { amount, recipient })
                    } else {
                        None
                    },
                    None => None,
                },
                None => None,
            }
        } else if b[0] == 2u8 {
            match parse_bytes(payload) {
                Some((tip_id, rest)) => if rest.len() == 0 {
                    Some(InstructionView::ExecuteTip { tip_id })
                } else {
                    None
                },
                None => None,
            }
        } else if b[0] == 3u8 {
            match parse_bytes(payload) {
                Some((tip_id, rest)) => if rest.len() == 0 {
                    Some(InstructionView::CancelTip { tip_id })
                } else {
                    None
                },
                None => None,
            }
        } else if b[0] == 4u8 {
            match parse_u64(payload) {
                Some((total_amount, rest1)) => match parse_bytes(rest1) {
                    Some((airdrop_id, rest2)) => if rest2.len() == 0 {
                        Some(InstructionView::CollectFunds { total_amount, airdrop_id })
                    } else {
                        None
                    },
                    None => None,
                },
                None => None,
            }
        } else if b[0] == 5u8 {
            match parse_bytes(payload) {
                Some((airdrop_id, rest1)) => match parse_recipient_list(rest1) {
                    Some((recipients, rest2)) => match parse_address(rest2) {
                        Some((fee_wallet, rest3)) => if rest3.len() == 1 {
                            Some(
                                InstructionView::DistributeAirdrop {
                                    airdrop_id,
                                    recipients,
                                    fee_wallet,
                                    fee_percentage: rest3[0],
                                },
                            )
                        } else {
                            None
                        },
                        None => None,
                    },
                    None => None,
                },
                None => None,
            }
        } else if b[0] == 6u8 {
            match parse_bytes(payload) {
                Some((airdrop_id, rest)) => if rest.len() == 0 {
                    Some(InstructionView::RefundEscrow { airdrop_id })
                } else {
                    None
                },
                None => None,
            }
        } else if b[0] == 7u8 {
            match parse_bytes(payload) {
                Some((airdrop_id, rest1)) => match parse_address(rest1) {
                    Some((recipient, rest2)) => match parse_u64(rest2) {
                        Some((amount, rest3)) => if rest3.len() == 0 {
                            Some(InstructionView::ClaimAirdrop { airdrop_id, recipient, amount })
                        } else {
                            None
                        },
                        None => None,
                    },
                    None => None,
                },
                None => None,
            }
        } else {
            None
        }
    }
}

// ---------------------------------------------------------------------------
// The parser inverts the encoder.
// ---------------------------------------------------------------------------

/// The machine bound a variable-length field must respect to be encodable
/// with a 64-bit length prefix.
pub open spec fn wf_address_view(a: AddressView) -> bool {
    match a {
        AddressView::External(bytes) => bytes.len() <= u64::MAX,
        AddressView::Derived { label, seed } => label.len() <= u64::MAX && seed.len()
            <= u64::MAX,
    }
}

/// The machine bounds an instruction's fields must respect to be encodable.
pub open spec fn wf_instruction_view(i: InstructionView) -> bool {
    match i {
        InstructionView::InitializeUserAccount { user_id } => encode_utf8(user_id).len()
            <= u64::MAX,
        InstructionView::CreateTip { amount, recipient } => wf_address_view(recipient),
        InstructionView::ExecuteTip { tip_id } => tip_id.len() <= u64::MAX,
        InstructionView::CancelTip { tip_id } => tip_id.len() <= u64::MAX,
        InstructionView::CollectFunds { total_amount, airdrop_id } => airdrop_id.len()
            <= u64::MAX,
        InstructionView::DistributeAirdrop {
            airdrop_id,
            recipients,
            fee_wallet,
            fee_percentage,
        } => {
            &&& airdrop_id.len() <= u64::MAX
            &&& recipients.len() <= u64::MAX
            &&& forall|j: int|
                0 <= j < recipients.len() ==> wf_address_view(#[trigger] recipients[j].recipient)
            &&& wf_address_view(fee_wallet)
        },
        InstructionView::RefundEscrow { airdrop_id } => airdrop_id.len() <= u64::MAX,
        InstructionView::ClaimAirdrop { airdrop_id, recipient, amount } => airdrop_id.len()
            <= u64::MAX && wf_address_view(recipient),
    }
}

/// Reading a 64-bit word consumes exactly what encoding one wrote.
pub proof fn lemma_parse_u64_round(x: u64, rest: Seq<u8>)
    ensures
        parse_u64(enc_u64(x) + rest) == Some((x, rest)),
{
    vstd::bytes::lemma_auto_spec_u64_to_from_le_bytes();
    let e = enc_u64(x);
    assert((e + rest).take(8) =~= e);
    assert((e + rest).skip(8) =~= rest);
}

/// Reading a byte string consumes exactly what encoding one wrote.
pub proof fn lemma_parse_bytes_round(b: Seq<u8>, rest: Seq<u8>)
    requires
        b.len() <= u64::MAX,
    ensures
        parse_bytes(enc_bytes(b) + rest) == Some((b, rest)),
{
    let n = b.len() as u64;
    assert(enc_bytes(b) + rest =~= enc_u64(n) + (b + rest));
    lemma_parse_u64_round(n, b + rest);
    assert((b + rest).take(n as int) =~= b);
    assert((b + rest).skip(n as int) =~= rest);
}

/// Reading a text field consumes exactly what encoding one wrote.
pub proof fn lemma_parse_string_round(s: Seq<char>, rest: Seq<u8>)
    requires
        encode_utf8(s).len() <= u64::MAX,
    ensures
        parse_string(enc_string(s) + rest) == Some((s, rest)),
{
    lemma_parse_bytes_round(encode_utf8(s), rest);
    vstd::utf8::encode_utf8_valid_utf8(s);
    vstd::utf8::encode_utf8_decode_utf8(s);
}

/// Reading an address consumes exactly what encoding one wrote.
pub proof fn lemma_parse_address_round(a: AddressView, rest: Seq<u8>)
    requires
        wf_address_view(a),
    ensures
        parse_address(enc_address(a) + rest) == Some((a, rest)),
{
    match a {
        AddressView::External(bytes) => {
            let whole = enc_address(a) + rest;
            assert(whole[0] == 0u8);
            assert(whole.skip(1) =~= enc_bytes(bytes) + rest);
            lemma_parse_bytes_round(bytes, rest);
        },
        AddressView::Derived { label, seed } => {
            let whole = enc_address(a) + rest;
            assert(whole[0] == 1u8);
            assert(whole.skip(1) =~= enc_bytes(label) + (enc_bytes(seed) + rest));
            lemma_parse_bytes_round(label, enc_bytes(seed) + rest);
            lemma_parse_bytes_round(seed, rest);
        },
    }
}

/// Reading one distribution-list entry consumes exactly what encoding one
/// wrote.
pub proof fn lemma_parse_recipient_round(r: AirdropRecipientView, rest: Seq<u8>)
    requires
        wf_address_view(r.recipient),
    ensures
        parse_recipient(enc_recipient(r) + rest) == Some((r, rest)),
{
    assert(enc_recipient(r) + rest =~= enc_address(r.recipient) + (enc_u64(r.amount) + rest));
    lemma_parse_address_round(r.recipient, enc_u64(r.amount) + rest);
    lemma_parse_u64_round(r.amount, rest);
}

/// Reading `n` distribution-list entries consumes exactly what encoding them
/// wrote.
pub proof fn lemma_parse_recipient_items_round(rs: Seq<AirdropRecipientView>, rest: Seq<u8>)
    requires
        forall|j: int| 0 <= j < rs.len() ==> wf_address_view(#[trigger] rs[j].recipient),
    ensures
        parse_recipient_items(enc_recipient_items(rs) + rest, rs.len()) == Some((rs, rest)),
    decreases rs.len(),
{
    if rs.len() == 0 {
        assert(enc_recipient_items(rs) + rest =~= rest);
        assert(rs =~= Seq::<AirdropRecipientView>::empty());
    } else {
        let tail = rs.drop_first();
        assert(enc_recipient_items(rs) + rest =~= enc_recipient(rs[0]) + (enc_recipient_items(tail)
            + rest));
        lemma_parse_recipient_round(rs[0], enc_recipient_items(tail) + rest);
        lemma_parse_recipient_items_round(tail, rest);
        assert(seq![rs[0]] + tail =~= rs);
    }
}

/// Reading a distribution list consumes exactly what encoding one wrote.
pub proof fn lemma_parse_recipient_list_round(rs: Seq<AirdropRecipientView>, rest: Seq<u8>)
    requires
        rs.len() <= u64::MAX,
        forall|j: int| 0 <= j < rs.len() ==> wf_address_view(#[trigger] rs[j].recipient),
    ensures
        parse_recipient_list(enc_recipient_list(rs) + rest) == Some((rs, rest)),
{
    assert(enc_recipient_list(rs) + rest =~= enc_u64(rs.len() as u64) + (enc_recipient_items(rs)
        + rest));
    lemma_parse_u64_round(rs.len() as u64, enc_recipient_items(rs) + rest);
    lemma_parse_recipient_items_round(rs, rest);
}

/// Round trip for persisted tip records: decoding an encoded record yields
/// the record.
pub proof fn lemma_tip_data_round_trip(t: TipDataView)
    requires
        wf_address_view(t.sender),
        wf_address_view(t.recipient),
    ensures
        parse_tip_data(enc_tip_data(t)) == Some(t),
{
    let tail3 = enc_u64(t.amount) + enc_u64(i64_as_u64(t.timestamp));
    let tail2 = enc_address(t.recipient) + tail3;
    assert(enc_tip_data(t) =~= enc_address(t.sender) + tail2);
    lemma_parse_address_round(t.sender, tail2);
    lemma_parse_address_round(t.recipient, tail3);
    lemma_parse_u64_round(t.amount, enc_u64(i64_as_u64(t.timestamp)));
    lemma_parse_u64_round(i64_as_u64(t.timestamp), seq![]);
    assert(enc_u64(i64_as_u64(t.timestamp)) + seq![] =~= enc_u64(i64_as_u64(t.timestamp)));
    lemma_i64_u64_round_trip(t.timestamp);
}

/// Round trip for instructions: decoding an encoded instruction yields the
/// instruction. Together with the exactness of [`parse_instruction`]'s
/// trailing-byte check, this pins the codec down completely.
pub proof fn lemma_instruction_round_trip(i: InstructionView)
    requires
        wf_instruction_view(i),
    ensures
        parse_instruction(enc_instruction(i)) == Some(i),
{
    let whole = enc_instruction(i);
    let empty: Seq<u8> = seq![];
    match i {
        InstructionView::InitializeUserAccount { user_id } => {
            assert(whole[0] == 0u8);
            assert(whole.skip(1) =~= enc_string(user_id) + empty);
            lemma_parse_string_round(user_id, empty);
        },
        InstructionView::CreateTip { amount, recipient } => {
            assert(whole[0] == 1u8);
            assert(whole.skip(1) =~= enc_u64(amount) + (enc_address(recipient) + empty));
            lemma_parse_u64_round(amount, enc_address(recipient) + empty);
            lemma_parse_address_round(recipient, empty);
        },
        InstructionView::ExecuteTip { tip_id } => {
            assert(whole[0] == 2u8);
            assert(whole.skip(1) =~= enc_bytes(tip_id) + empty);
            lemma_parse_bytes_round(tip_id, empty);
        },
        InstructionView::CancelTip { tip_id } => {
            assert(whole[0] == 3u8);
            assert(whole.skip(1) =~= enc_bytes(tip_id) + empty);
            lemma_parse_bytes_round(tip_id, empty);
        },
        InstructionView::CollectFunds { total_amount, airdrop_id } => {
            assert(whole[0] == 4u8);
            assert(whole.skip(1) =~= enc_u64(total_amount) + (enc_bytes(airdrop_id) + empty));
            lemma_parse_u64_round(total_amount, enc_bytes(airdrop_id) + empty);
            lemma_parse_bytes_round(airdrop_id, empty);
        },
        InstructionView::DistributeAirdrop {
            airdrop_id,
            recipients,
            fee_wallet,
            fee_percentage,
        } => {
            assert(whole[0] == 5u8);
            let tail3 = enc_address(fee_wallet) + seq![fee_percentage];
            let tail2 = enc_recipient_list(recipients) + tail3;
            assert(whole.skip(1) =~= enc_bytes(airdrop_id) + tail2);
            lemma_parse_bytes_round(airdrop_id, tail2);
            lemma_parse_recipient_list_round(recipients, tail3);
            lemma_parse_address_round(fee_wallet, seq![fee_percentage]);
        },
        InstructionView::RefundEscrow { airdrop_id } => {
            assert(whole[0] == 6u8);
            assert(whole.skip(1) =~= enc_bytes(airdrop_id) + empty);
            lemma_parse_bytes_round(airdrop_id, empty);
        },
        InstructionView::ClaimAirdrop { airdrop_id, recipient, amount } => {
            assert(whole[0] == 7u8);
            let tail2 = enc_address(recipient) + (enc_u64(amount) + empty);
            assert(whole.skip(1) =~= enc_bytes(airdrop_id) + tail2);
            lemma_parse_bytes_round(airdrop_id, tail2);
            lemma_parse_address_round(recipient, enc_u64(amount) + empty);
            lemma_parse_u64_round(amount, empty);
        },
    }
}

/// A parsed 64-bit word came from exactly its own encoding.
pub proof fn lemma_parse_u64_canonical(b: Seq<u8>)
    ensures
        parse_u64(b) matches Some(v) ==> b == enc_u64(v.0) + v.1,
{
    if b.len() >= 8 {
        vstd::bytes::lemma_auto_spec_u64_to_from_le_bytes();
        assert(b =~= b.take(8) + b.skip(8));
    }
}

/// A parsed byte string came from exactly its own encoding.
pub proof fn lemma_parse_bytes_canonical(b: Seq<u8>)
    ensures
        parse_bytes(b) matches Some(v) ==> b == enc_bytes(v.0) + v.1 && v.0.len() <= u64::MAX,
{
    lemma_parse_u64_canonical(b);
    match parse_u64(b) {
        Some(v1) => {
            let n = v1.0;
            let rest0 = v1.1;
            if rest0.len() >= n {
                assert(rest0 =~= rest0.take(n as int) + rest0.skip(n as int));
                assert(enc_u64(n) + rest0 =~= (enc_u64(n) + rest0.take(n as int)) + rest0.skip(
                    n as int,
                ));
            }
        },
        None => {},
    }
}

/// A parsed text field came from exactly its own encoding.
pub proof fn lemma_parse_string_canonical(b: Seq<u8>)
    ensures
        parse_string(b) matches Some(v) ==> b == enc_string(v.0) + v.1 && encode_utf8(v.0).len()
            <= u64::MAX,
{
    lemma_parse_bytes_canonical(b);
    match parse_bytes(b) {
        Some(v1) => {
            if valid_utf8(v1.0) {
                vstd::utf8::decode_utf8_encode_utf8(v1.0);
            }
        },
        None => {},
    }
}

/// A parsed address came from exactly its own encoding.
pub proof fn lemma_parse_address_canonical(b: Seq<u8>)
    ensures
        parse_address(b) matches Some(v) ==> b == enc_address(v.0) + v.1 && wf_address_view(v.0),
{
    if b.len() >= 1 {
        lemma_parse_bytes_canonical(b.skip(1));
        if b[0] == 1u8 {
            match parse_bytes(b.skip(1)) {
                Some(v1) => {
                    lemma_parse_bytes_canonical(v1.1);
                    match parse_bytes(v1.1) {
                        Some(v2) => {
                            assert(b =~= seq![b[0]] + b.skip(1));
                            assert(seq![1u8] + (enc_bytes(v1.0) + (enc_bytes(v2.0) + v2.1)) =~= (
                            seq![1u8] + enc_bytes(v1.0) + enc_bytes(v2.0)) + v2.1);
                        },
                        None => {},
                    }
                },
                None => {},
            }
        } else if b[0] == 0u8 {
            match parse_bytes(b.skip(1)) {
                Some(v1) => {
                    assert(b =~= seq![b[0]] + b.skip(1));
                    assert(seq![0u8] + (enc_bytes(v1.0) + v1.1) =~= (seq![0u8] + enc_bytes(v1.0))
                        + v1.1);
                },
                None => {},
            }
        }
    }
}

/// A parsed distribution-list entry came from exactly its own encoding.
pub proof fn lemma_parse_recipient_canonical(b: Seq<u8>)
    ensures
        parse_recipient(b) matches Some(v) ==> b == enc_recipient(v.0) + v.1 && wf_address_view(
            v.0.recipient,
        ),
{
    lemma_parse_address_canonical(b);
    match parse_address(b) {
        Some(v1) => {
            lemma_parse_u64_canonical(v1.1);
            match parse_u64(v1.1) {
                Some(v2) => {
                    assert(enc_address(v1.0) + (enc_u64(v2.0) + v2.1) =~= (enc_address(v1.0)
                        + enc_u64(v2.0)) + v2.1);
                },
                None => {},
            }
        },
        None => {},
    }
}

/// Parsed distribution-list entries came from exactly their own encoding.
pub proof fn lemma_parse_recipient_items_canonical(b: Seq<u8>, n: nat)
    ensures
        parse_recipient_items(b, n) matches Some(v) ==> {
            &&& b == enc_recipient_items(v.0) + v.1
            &&& v.0.len() == n
            &&& forall|j: int| 0 <= j < v.0.len() ==> wf_address_view(#[trigger] v.0[j].recipient)
        },
    decreases n,
{
    if n == 0 {
        match parse_recipient_items(b, n) {
            Some(v) => {
                assert(b =~= enc_recipient_items(v.0) + v.1);
            },
            None => {},
        }
    } else {
        lemma_parse_recipient_canonical(b);
        match parse_recipient(b) {
            Some(v0) => {
                lemma_parse_recipient_items_canonical(v0.1, (n - 1) as nat);
                match parse_recipient_items(v0.1, (n - 1) as nat) {
                    Some(v1) => {
                        let vs = seq![v0.0] + v1.0;
                        assert(vs.drop_first() =~= v1.0);
                        assert(vs[0] == v0.0);
                        assert(enc_recipient_items(vs) == enc_recipient(v0.0)
                            + enc_recipient_items(v1.0));
                        assert(enc_recipient(v0.0) + (enc_recipient_items(v1.0) + v1.1) =~= (
                        enc_recipient(v0.0) + enc_recipient_items(v1.0)) + v1.1);
                    },
                    None => {},
                }
            },
            None => {},
        }
    }
}

/// A parsed distribution list came from exactly its own encoding.
pub proof fn lemma_parse_recipient_list_canonical(b: Seq<u8>)
    ensures
        parse_recipient_list(b) matches Some(v) ==> {
            &&& b == enc_recipient_list(v.0) + v.1
            &&& v.0.len() <= u64::MAX
            &&& forall|j: int| 0 <= j < v.0.len() ==> wf_address_view(#[trigger] v.0[j].recipient)
        },
{
    lemma_parse_u64_canonical(b);
    match parse_u64(b) {
        Some(v1) => {
            lemma_parse_recipient_items_canonical(v1.1, v1.0 as nat);
            match parse_recipient_items(v1.1, v1.0 as nat) {
                Some(v2) => {
                    assert(enc_u64(v1.0) + (enc_recipient_items(v2.0) + v2.1) =~= (enc_u64(v1.0)
                        + enc_recipient_items(v2.0)) + v2.1);
                },
                None => {},
            }
        },
        None => {},
    }
}

/// The encoding is canonical: any buffer the parser accepts is exactly the
/// encoding of the instruction it returns. Together with
/// [`lemma_instruction_round_trip`], the parser and encoder are mutually
/// inverse bijections between well-formed instructions and accepted buffers.
#[verifier::rlimit(100)]
#[verifier::spinoff_prover]
pub proof fn lemma_parse_instruction_canonical(b: Seq<u8>)
    ensures
        parse_instruction(b) matches Some(i) ==> b == enc_instruction(i) && wf_instruction_view(i),
{
    if b.len() >= 1 {
        let payload = b.skip(1);
        assert(b =~= seq![b[0]] + payload);
        if b[0] == 0u8 {
            lemma_parse_string_canonical(payload);
            match parse_string(payload) {
                Some(v) => {
                    if v.1.len() == 0 {
                        assert(enc_string(v.0) + v.1 =~= enc_string(v.0));
                    }
                },
                None => {},
            }
        } else if b[0] == 1u8 {
            lemma_parse_u64_canonical(payload);
            match parse_u64(payload) {
                Some(v1) => {
                    lemma_parse_address_canonical(v1.1);
                    match parse_address(v1.1) {
                        Some(v2) => {
                            if v2.1.len() == 0 {
                                assert(enc_u64(v1.0) + (enc_address(v2.0) + v2.1) =~= enc_u64(v1.0)
                                    + enc_address(v2.0));
                            }
                        },
                        None => {},
                    }
                },
                None => {},
            }
        } else if b[0] == 2u8 || b[0] == 3u8 || b[0] == 6u8 {
            lemma_parse_bytes_canonical(payload);
            match parse_bytes(payload) {
                Some(v) => {
                    if v.1.len() == 0 {
                        assert(enc_bytes(v.0) + v.1 =~= enc_bytes(v.0));
                    }
                },
                None => {},
            }
        } else if b[0] == 4u8 {
            lemma_parse_u64_canonical(payload);
            match parse_u64(payload) {
                Some(v1) => {
                    lemma_parse_bytes_canonical(v1.1);
                    match parse_bytes(v1.1) {
                        Some(v2) => {
                            if v2.1.len() == 0 {
                                assert(enc_u64(v1.0) + (enc_bytes(v2.0) + v2.1) =~= enc_u64(v1.0)
                                    + enc_bytes(v2.0));
                            }
                        },
                        None => {},
                    }
                },
                None => {},
            }
        } else if b[0] == 5u8 {
            lemma_parse_bytes_canonical(payload);
            match parse_bytes(payload) {
                Some(v1) => {
                    lemma_parse_recipient_list_canonical(v1.1);
                    match parse_recipient_list(v1.1) {
                        Some(v2) => {
                            lemma_parse_address_canonical(v2.1);
                            match parse_address(v2.1) {
                                Some(v3) => {
                                    if v3.1.len() == 1 {
                                        assert(v3.1 =~= seq![v3.1[0]]);
                                        assert(enc_bytes(v1.0) + (enc_recipient_list(v2.0) + (
                                        enc_address(v3.0) + seq![v3.1[0]])) =~= enc_bytes(v1.0)
                                            + enc_recipient_list(v2.0) + enc_address(v3.0) + seq![
                                            v3.1[0],
                                        ]);
                                    }
                                },
                                None => {},
                            }
                        },
                        None => {},
                    }
                },
                None => {},
            }
        } else if b[0] == 7u8 {
            lemma_parse_bytes_canonical(payload);
            match parse_bytes(payload) {
                Some(v1) => {
                    lemma_parse_address_canonical(v1.1);
                    match parse_address(v1.1) {
                        Some(v2) => {
                            lemma_parse_u64_canonical(v2.1);
                            match parse_u64(v2.1) {
                                Some(v3) => {
                                    if v3.1.len() == 0 {
                                        assert(enc_bytes(v1.0) + (enc_address(v2.0) + (enc_u64(
                                            v3.0,
                                        ) + v3.1)) =~= enc_bytes(v1.0) + enc_address(v2.0)
                                            + enc_u64(v3.0));
                                    }
                                },
                                None => {},
                            }
                        },
                        None => {},
                    }
                },
                None => {},
            }
        }
    }
}

// ---------------------------------------------------------------------------
// Executable encoder.
// ---------------------------------------------------------------------------

/// Every vector's length fits the machine's word, hence the 64-bit length
/// prefix.
proof fn lemma_vec_len_bound<T>(v: &Vec<T>)
    ensures
        v@.len() <= u64::MAX,
{
    vstd::std_specs::vec::axiom_spec_len(v);
}

/// Appends a byte string.
fn append_bytes(out: &mut Vec<u8>, b: &Vec<u8>)
    ensures
        final(out)@ == old(out)@ + b@,
{
    let mut j: usize = 0;
    while j < b.len()
        invariant
            j <= b.len(),
            out@ == old(out)@ + b@.take(j as int),
        decreases b.len() - j,
    {
        out.push(b[j]);
        proof {
            assert(old(out)@ + b@.take(j as int) + seq![b@[j as int]] =~= old(out)@ + b@.take(
                j as int + 1,
            ));
        }
        j += 1;
    }
    proof {
        assert(b@.take(b@.len() as int) =~= b@);
    }
}

/// Appends a 64-bit little-endian word.
fn write_u64(out: &mut Vec<u8>, x: u64)
    ensures
        final(out)@ == old(out)@ + enc_u64(x),
{
    let bytes = vstd::bytes::u64_to_le_bytes(x);
    append_bytes(out, &bytes);
}

/// Appends a length-prefixed byte string.
fn write_lp_bytes(out: &mut Vec<u8>, b: &Vec<u8>)
    ensures
        final(out)@ == old(out)@ + enc_bytes(b@),
        b@.len() <= u64::MAX,
{
    proof {
        lemma_vec_len_bound(b);
    }
    write_u64(out, b.len() as u64);
    append_bytes(out, b);
    proof {
        assert(old(out)@ + enc_u64(b@.len() as u64) + b@ =~= old(out)@ + enc_bytes(b@));
    }
}

/// Appends a length-prefixed UTF-8 text field.
fn write_string(out: &mut Vec<u8>, s: &String)
    ensures
        final(out)@ == old(out)@ + enc_string(s@),
        encode_utf8(s@).len() <= u64::MAX,
{
    let bytes: Vec<u8> = vstd::slice::slice_to_vec(s.as_str().as_bytes());
    write_lp_bytes(out, &bytes);
}

/// Appends an address.
fn write_address(out: &mut Vec<u8>, a: &Address)
    ensures
        final(out)@ == old(out)@ + enc_address(a@),
        wf_address_view(a@),
{
    match a {
        Address::External(bytes) => {
            out.push(0u8);
            write_lp_bytes(out, bytes);
            proof {
                assert(old(out)@ + seq![0u8] + enc_bytes(bytes@) =~= old(out)@ + enc_address(a@));
            }
        },
        Address::Derived { label, seed } => {
            out.push(1u8);
            write_lp_bytes(out, label);
            write_lp_bytes(out, seed);
            proof {
                assert(old(out)@ + seq![1u8] + enc_bytes(label@) + enc_bytes(seed@) =~= old(out)@
                    + enc_address(a@));
            }
        },
    }
}

/// Appends a length-prefixed distribution list.
fn write_recipient_list(out: &mut Vec<u8>, rs: &Vec<AirdropRecipient>)
    ensures
        final(out)@ == old(out)@ + enc_recipient_list(recipient_views(rs@)),
        recipient_views(rs@).len() <= u64::MAX,
        forall|j: int|
            0 <= j < rs@.len() ==> wf_address_view(
                #[trigger] recipient_views(rs@)[j].recipient,
            ),
{
    proof {
        lemma_vec_len_bound(rs);
    }
    write_u64(out, rs.len() as u64);
    let mut j: usize = 0;
    while j < rs.len()
        invariant
            j <= rs.len(),
            out@ == old(out)@ + enc_u64(rs@.len() as u64) + enc_recipient_items(
                recipient_views(rs@).take(j as int),
            ),
            forall|k: int|
                0 <= k < j ==> wf_address_view(#[trigger] recipient_views(rs@)[k].recipient),
        decreases rs.len() - j,
    {
        let ghost prefix = out@;
        write_address(out, &rs[j].recipient);
        write_u64(out, rs[j].amount);
        proof {
            lemma_enc_recipient_items_push(recipient_views(rs@).take(j as int), rs@[j as int]@);
            assert(recipient_views(rs@).take(j as int).push(rs@[j as int]@) =~= recipient_views(
                rs@,
            ).take(j as int + 1));
            assert(out@ =~= old(out)@ + enc_u64(rs@.len() as u64) + enc_recipient_items(
                recipient_views(rs@).take(j as int + 1),
            ));
        }
        j += 1;
    }
    proof {
        assert(recipient_views(rs@).take(rs@.len() as int) =~= recipient_views(rs@));
        assert(old(out)@ + enc_u64(rs@.len() as u64) + enc_recipient_items(recipient_views(rs@))
            =~= old(out)@ + enc_recipient_list(recipient_views(rs@)));
    }
}

/// Appending one entry to a distribution list appends its encoding.
proof fn lemma_enc_recipient_items_push(rs: Seq<AirdropRecipientView>, r: AirdropRecipientView)
    ensures
        enc_recipient_items(rs.push(r)) == enc_recipient_items(rs) + enc_recipient(r),
    decreases rs.len(),
{
    if rs.len() == 0 {
        assert(rs.push(r).drop_first() =~= Seq::<AirdropRecipientView>::empty());
        assert(rs.push(r)[0] == r);
        assert(enc_recipient_items(rs.push(r)) == enc_recipient(r) + enc_recipient_items(
            Seq::<AirdropRecipientView>::empty(),
        ));
        assert(enc_recipient(r) + enc_recipient_items(Seq::<AirdropRecipientView>::empty()) =~=
            enc_recipient_items(rs) + enc_recipient(r));
    } else {
        assert(rs.push(r).drop_first() =~= rs.drop_first().push(r));
        assert(rs.push(r)[0] == rs[0]);
        lemma_enc_recipient_items_push(rs.drop_first(), r);
        assert(enc_recipient_items(rs.push(r)) == enc_recipient(rs[0]) + (enc_recipient_items(
            rs.drop_first(),
        ) + enc_recipient(r)));
        assert(enc_recipient(rs[0]) + (enc_recipient_items(rs.drop_first()) + enc_recipient(r))
            =~= enc_recipient_items(rs) + enc_recipient(r));
    }
}

/// Encodes a tip record for persistence.
pub fn encode_tip_data(t: &TipData) -> (r: Vec<u8>)
    ensures
        r@ == enc_tip_data(t@),
        wf_address_view(t.sender@),
        wf_address_view(t.recipient@),
{
    let mut out: Vec<u8> = Vec::new();
    write_address(&mut out, &t.sender);
    write_address(&mut out, &t.recipient);
    write_u64(&mut out, t.amount);
    write_u64(&mut out, i64_to_u64(t.timestamp));
    proof {
        assert(out@ =~= enc_tip_data(t@));
    }
    out
}

/// Encodes an instruction for submission.
pub fn encode_instruction(i: &JustTheTipInstruction) -> (r: Vec<u8>)
    ensures
        r@ == enc_instruction(i@),
        wf_instruction_view(i@),
{
    let mut out: Vec<u8> = Vec::new();
    match i {
        JustTheTipInstruction::InitializeUserAccount { user_id } => {
            out.push(0u8);
            write_string(&mut out, user_id);
        },
        JustTheTipInstruction::CreateTip { amount, recipient } => {
            out.push(1u8);
            write_u64(&mut out, *amount);
            write_address(&mut out, recipient);
        },
        JustTheTipInstruction::ExecuteTip { tip_id } => {
            out.push(2u8);
            write_lp_bytes(&mut out, tip_id);
        },
        JustTheTipInstruction::CancelTip { tip_id } => {
            out.push(3u8);
            write_lp_bytes(&mut out, tip_id);
        },
        JustTheTipInstruction::CollectFunds { total_amount, airdrop_id } => {
            out.push(4u8);
            write_u64(&mut out, *total_amount);
            write_lp_bytes(&mut out, airdrop_id);
        },
        JustTheTipInstruction::DistributeAirdrop {
            airdrop_id,
            recipients,
            fee_wallet,
            fee_percentage,
        } => {
            out.push(5u8);
            write_lp_bytes(&mut out, airdrop_id);
            write_recipient_list(&mut out, recipients);
            write_address(&mut out, fee_wallet);
            out.push(*fee_percentage);
        },
        JustTheTipInstruction::RefundEscrow { airdrop_id } => {
            out.push(6u8);
            write_lp_bytes(&mut out, airdrop_id);
        },
        JustTheTipInstruction::ClaimAirdrop { airdrop_id, recipient, amount } => {
            out.push(7u8);
            write_lp_bytes(&mut out, airdrop_id);
            write_address(&mut out, recipient);
            write_u64(&mut out, *amount);
        },
    }
    proof {
        assert(out@ =~= enc_instruction(i@));
    }
    out
}

// ---------------------------------------------------------------------------
// Executable decoder.
// ---------------------------------------------------------------------------

/// Relies on std's `String::from_utf8`: it succeeds exactly on valid UTF-8
/// input, and the returned string holds exactly the given bytes, so its
/// characters are their decoding.
#[verifier::external_body]
fn string_from_utf8(bytes: Vec<u8>) -> (r: Option<String>)
    ensures
        r is Some <==> valid_utf8(bytes@),
        r matches Some(s) ==> s@ == decode_utf8(bytes@),
{
    String::from_utf8(bytes).ok()
}

/// Reads a 64-bit little-endian word at `pos`.
fn read_u64(data: &Vec<u8>, pos: usize) -> (r: Option<(u64, usize)>)
    requires
        pos <= data@.len(),
    ensures
        match r {
            Some(v) => {
                &&& pos <= v.1 <= data@.len()
                &&& parse_u64(data@.skip(pos as int)) == Some((v.0, data@.skip(v.1 as int)))
            },
            None => parse_u64(data@.skip(pos as int)) is None,
        },
{
    if data.len() - pos >= 8 {
        let s = vstd::slice::slice_subrange(data.as_slice(), pos, pos + 8);
        let x = vstd::bytes::u64_from_le_bytes(s);
        proof {
            assert(data@.subrange(pos as int, pos as int + 8) =~= data@.skip(pos as int).take(8));
            assert(data@.skip(pos as int).skip(8) =~= data@.skip(pos as int + 8));
        }
        Some((x, pos + 8))
    } else {
        None
    }
}

/// Reads a length-prefixed byte string at `pos`.
fn read_lp_bytes(data: &Vec<u8>, pos: usize) -> (r: Option<(Vec<u8>, usize)>)
    requires
        pos <= data@.len(),
    ensures
        match r {
            Some(v) => {
                &&& pos <= v.1 <= data@.len()
                &&& parse_bytes(data@.skip(pos as int)) == Some((v.0@, data@.skip(v.1 as int)))
            },
            None => parse_bytes(data@.skip(pos as int)) is None,
        },
{
    match read_u64(data, pos) {
        Some((n, p1)) => {
            let remaining: usize = data.len() - p1;
            if n <= remaining as u64 {
                let nlen: usize = n as usize;
                let seg = vstd::slice::slice_to_vec(
                    vstd::slice::slice_subrange(data.as_slice(), p1, p1 + nlen),
                );
                proof {
                    assert(data@.subrange(p1 as int, p1 as int + nlen as int) =~= data@.skip(
                        p1 as int,
                    ).take(n as int));
                    assert(data@.skip(p1 as int).skip(n as int) =~= data@.skip(
                        p1 as int + n as int,
                    ));
                }
                Some((seg, p1 + nlen))
            } else {
                None
            }
        },
        None => None,
    }
}

/// Reads a length-prefixed UTF-8 text field at `pos`.
fn read_string(data: &Vec<u8>, pos: usize) -> (r: Option<(String, usize)>)
    requires
        pos <= data@.len(),
    ensures
        match r {
            Some(v) => {
                &&& pos <= v.1 <= data@.len()
                &&& parse_string(data@.skip(pos as int)) == Some((v.0@, data@.skip(v.1 as int)))
            },
            None => parse_string(data@.skip(pos as int)) is None,
        },
{
    match read_lp_bytes(data, pos) {
        Some((seg, p1)) => match string_from_utf8(seg) {
            Some(s) => Some((s, p1)),
            None => None,
        },
        None => None,
    }
}

/// Reads an address at `pos`.
fn read_address(data: &Vec<u8>, pos: usize) -> (r: Option<(Address, usize)>)
    requires
        pos <= data@.len(),
    ensures
        match r {
            Some(v) => {
                &&& pos <= v.1 <= data@.len()
                &&& parse_address(data@.skip(pos as int)) == Some((v.0@, data@.skip(v.1 as int)))
            },
            None => parse_address(data@.skip(pos as int)) is None,
        },
{
    if pos == data.len() {
        return None;
    }
    let tag = data[pos];
    proof {
        assert(data@.skip(pos as int)[0] == data@[pos as int]);
        assert(data@.skip(pos as int).skip(1) =~= data@.skip(pos as int + 1));
    }
    if tag == 0 {
        match read_lp_bytes(data, pos + 1) {
            Some((bytes, p1)) => Some((Address::External(bytes), p1)),
            None => None,
        }
    } else if tag == 1 {
        match read_lp_bytes(data, pos + 1) {
            Some((label, p1)) => match read_lp_bytes(data, p1) {
                Some((seed, p2)) => Some((Address::Derived { label, seed }, p2)),
                None => None,
            },
            None => None,
        }
    } else {
        None
    }
}

/// Reading `n` entries splits into reading `k` and then the remaining
/// `n - k`.
proof fn lemma_parse_items_split(b: Seq<u8>, k: nat, n: nat)
    requires
        k <= n,
    ensures
        parse_recipient_items(b, n) == (match parse_recipient_items(b, k) {
            Some(v1) => match parse_recipient_items(v1.1, (n - k) as nat) {
                Some(v2) => Some((v1.0 + v2.0, v2.1)),
                None => None::<(Seq<AirdropRecipientView>, Seq<u8>)>,
            },
            None => None::<(Seq<AirdropRecipientView>, Seq<u8>)>,
        }),
    decreases k,
{
    if k == 0 {
        match parse_recipient_items(b, n) {
            Some(v2) => {
                assert(Seq::<AirdropRecipientView>::empty() + v2.0 =~= v2.0);
            },
            None => {},
        }
    } else {
        match parse_recipient(b) {
            Some(v0) => {
                lemma_parse_items_split(v0.1, (k - 1) as nat, (n - 1) as nat);
                match parse_recipient_items(v0.1, (k - 1) as nat) {
                    Some(v1) => {
                        match parse_recipient_items(v1.1, (n - k) as nat) {
                            Some(v2) => {
                                assert(seq![v0.0] + (v1.0 + v2.0) =~= (seq![v0.0] + v1.0) + v2.0);
                            },
                            None => {},
                        }
                    },
                    None => {},
                }
            },
            None => {},
        }
    }
}

/// Reads exactly `n` distribution-list entries at `pos`.
fn read_recipient_items(data: &Vec<u8>, pos: usize, n: u64) -> (r: Option<(
    Vec<AirdropRecipient>,
    usize,
)>)
    requires
        pos <= data@.len(),
    ensures
        match r {
            Some(v) => {
                &&& pos <= v.1 <= data@.len()
                &&& parse_recipient_items(data@.skip(pos as int), n as nat) == Some(
                    (recipient_views(v.0@), data@.skip(v.1 as int)),
                )
            },
            None => parse_recipient_items(data@.skip(pos as int), n as nat) is None,
        },
{
    let mut acc: Vec<AirdropRecipient> = Vec::new();
    let mut cur: usize = pos;
    let mut i: u64 = 0;
    proof {
        assert(recipient_views(acc@) =~= Seq::<AirdropRecipientView>::empty());
    }
    while i < n
        invariant
            pos <= cur <= data@.len(),
            i <= n,
            parse_recipient_items(data@.skip(pos as int), i as nat) == Some(
                (recipient_views(acc@), data@.skip(cur as int)),
            ),
        decreases n - i,
    {
        let step = read_address(data, cur);
        match step {
            Some((addr, p1)) => {
                match read_u64(data, p1) {
                    Some((amount, p2)) => {
                        proof {
                            lemma_parse_items_split(
                                data@.skip(pos as int),
                                i as nat,
                                (i + 1) as nat,
                            );
                            let v = AirdropRecipientView { recipient: addr@, amount };
                            assert(parse_recipient(data@.skip(cur as int)) == Some(
                                (v, data@.skip(p2 as int)),
                            ));
                            assert(seq![v] + Seq::<AirdropRecipientView>::empty() =~= seq![v]);
                            assert(parse_recipient_items(data@.skip(p2 as int), 0nat) == Some(
                                (Seq::<AirdropRecipientView>::empty(), data@.skip(p2 as int)),
                            ));
                            assert(parse_recipient_items(data@.skip(cur as int), 1nat) == Some(
                                (seq![v], data@.skip(p2 as int)),
                            ));
                            assert(recipient_views(acc@).push(v) =~= recipient_views(acc@) + seq![
                                v,
                            ]);
                            assert(recipient_views(
                                acc@.push(AirdropRecipient { recipient: addr, amount }),
                            ) =~= recipient_views(acc@).push(v));
                        }
                        acc.push(AirdropRecipient { recipient: addr, amount });
                        cur = p2;
                        i = i + 1;
                    },
                    None => {
                        proof {
                            lemma_parse_items_split(data@.skip(pos as int), i as nat, n as nat);
                        }
                        return None;
                    },
                }
            },
            None => {
                proof {
                    lemma_parse_items_split(data@.skip(pos as int), i as nat, n as nat);
                }
                return None;
            },
        }
    }
    Some((acc, cur))
}

/// Reads a length-prefixed distribution list at `pos`.
fn read_recipient_list(data: &Vec<u8>, pos: usize) -> (r: Option<(Vec<AirdropRecipient>, usize)>)
    requires
        pos <= data@.len(),
    ensures
        match r {
            Some(v) => {
                &&& pos <= v.1 <= data@.len()
                &&& parse_recipient_list(data@.skip(pos as int)) == Some(
                    (recipient_views(v.0@), data@.skip(v.1 as int)),
                )
            },
            None => parse_recipient_list(data@.skip(pos as int)) is None,
        },
{
    match read_u64(data, pos) {
        Some((n, p1)) => read_recipient_items(data, p1, n),
        None => None,
    }
}

/// Decodes a persisted tip record, rejecting malformed or trailing bytes.
pub fn decode_tip_data(data: &Vec<u8>) -> (r: Result<TipData, EngineError>)
    ensures
        match parse_tip_data(data@) {
            Some(t) => r matches Ok(x) && x@ == t,
            None => r == Result::<TipData, EngineError>::Err(EngineError::Decode),
        },
{
    proof {
        assert(data@.skip(0) =~= data@);
    }
    match read_address(data, 0) {
        Some((sender, p1)) => match read_address(data, p1) {
            Some((recipient, p2)) => match read_u64(data, p2) {
                Some((amount, p3)) => match read_u64(data, p3) {
                    Some((ts, p4)) => {
                        if p4 == data.len() {
                            Ok(TipData { sender, recipient, amount, timestamp: u64_to_i64(ts) })
                        } else {
                            Err(EngineError::Decode)
                        }
                    },
                    None => Err(EngineError::Decode),
                },
                None => Err(EngineError::Decode),
            },
            None => Err(EngineError::Decode),
        },
        None => Err(EngineError::Decode),
    }
}

/// Decodes an instruction, rejecting malformed or trailing bytes.
pub fn decode_instruction(data: &Vec<u8>) -> (r: Result<JustTheTipInstruction, EngineError>)
    ensures
        match parse_instruction(data@) {
            Some(iv) => r matches Ok(x) && x@ == iv,
            None => r == Result::<JustTheTipInstruction, EngineError>::Err(EngineError::Decode),
        },
{
    if data.len() == 0 {
        return Err(EngineError::Decode);
    }
    let tag = data[0];
    proof {
        assert(data@[0] == data@.skip(0).index(0));
    }
    if tag == 0 {
        match read_string(data, 1) {
            Some((user_id, p)) => {
                if p == data.len() {
                    Ok(JustTheTipInstruction::InitializeUserAccount { user_id })
                } else {
                    Err(EngineError::Decode)
                }
            },
            None => Err(EngineError::Decode),
        }
    } else if tag == 1 {
        match read_u64(data, 1) {
            Some((amount, p1)) => match read_address(data, p1) {
                Some((recipient, p2)) => {
                    if p2 == data.len() {
                        Ok(JustTheTipInstruction::CreateTip { amount, recipient })
                    } else {
                        Err(EngineError::Decode)
                    }
                },
                None => Err(EngineError::Decode),
            },
            None => Err(EngineError::Decode),
        }
    } else if tag == 2 {
        match read_lp_bytes(data, 1) {
            Some((tip_id, p)) => {
                if p == data.len() {
                    Ok(JustTheTipInstruction::ExecuteTip { tip_id })
                } else {
                    Err(EngineError::Decode)
                }
            },
            None => Err(EngineError::Decode),
        }
    } else if tag == 3 {
        match read_lp_bytes(data, 1) {
            Some((tip_id, p)) => {
                if p == data.len() {
                    Ok(JustTheTipInstruction::CancelTip { tip_id })
                } else {
                    Err(EngineError::Decode)
                }
            },
            None => Err(EngineError::Decode),
        }
    } else if tag == 4 {
        match read_u64(data, 1) {
            Some((total_amount, p1)) => match read_lp_bytes(data, p1) {
                Some((airdrop_id, p2)) => {
                    if p2 == data.len() {
                        Ok(JustTheTipInstruction::CollectFunds { total_amount, airdrop_id })
                    } else {
                        Err(EngineError::Decode)
                    }
                },
                None => Err(EngineError::Decode),
            },
            None => Err(EngineError::Decode),
        }
    } else if tag == 5 {
        match read_lp_bytes(data, 1) {
            Some((airdrop_id, p1)) => match read_recipient_list(data, p1) {
                Some((recipients, p2)) => match read_address(data, p2) {
                    Some((fee_wallet, p3)) => {
                        if data.len() - p3 == 1 {
                            let fee_percentage = data[p3];
                            proof {
                                assert(data@.skip(p3 as int).len() == 1);
                                assert(data@.skip(p3 as int)[0] == data@[p3 as int]);
                            }
                            Ok(
                                JustTheTipInstruction::DistributeAirdrop {
                                    airdrop_id,
                                    recipients,
                                    fee_wallet,
                                    fee_percentage,
                                },
                            )
                        } else {
                            Err(EngineError::Decode)
                        }
                    },
                    None => Err(EngineError::Decode),
                },
                None => Err(EngineError::Decode),
            },
            None => Err(EngineError::Decode),
        }
    } else if tag == 6 {
        match read_lp_bytes(data, 1) {
            Some((airdrop_id, p)) => {
                if p == data.len() {
                    Ok(JustTheTipInstruction::RefundEscrow { airdrop_id })
                } else {
                    Err(EngineError::Decode)
                }
            },
            None => Err(EngineError::Decode),
        }
    } else if tag == 7 {
        match read_lp_bytes(data, 1) {
            Some((airdrop_id, p1)) => match read_address(data, p1) {
                Some((recipient, p2)) => match read_u64(data, p2) {
                    Some((amount, p3)) => {
                        if p3 == data.len() {
                            Ok(JustTheTipInstruction::ClaimAirdrop { airdrop_id, recipient, amount })
                        } else {
                            Err(EngineError::Decode)
                        }
                    },
                    None => Err(EngineError::Decode),
                },
                None => Err(EngineError::Decode),
            },
            None => Err(EngineError::Decode),
        }
    } else {
        Err(EngineError::Decode)
    }
}

// ---------------------------------------------------------------------------
// The escrow counter record: a single 64-bit word at the head of a pool
// account's storage.
// ---------------------------------------------------------------------------

/// The counter a pool account's first eight bytes store.
pub open spec fn counter_of(data: Seq<u8>) -> u64
    recommends
        data.len() >= 8,
{
    spec_u64_from_le_bytes(data.take(8))
}

/// The counter written over an arbitrary prefix is read back unchanged.
pub proof fn lemma_counter_round(x: u64, rest: Seq<u8>)
    ensures
        counter_of(enc_u64(x) + rest) == x,
{
    vstd::bytes::lemma_auto_spec_u64_to_from_le_bytes();
    assert((enc_u64(x) + rest).take(8) =~= enc_u64(x));
}

/// Reads a pool's counter.
pub fn read_counter(data: &Vec<u8>) -> (r: u64)
    requires
        data@.len() >= 8,
    ensures
        r == counter_of(data@),
{
    let s = vstd::slice::slice_subrange(data.as_slice(), 0, 8);
    proof {
        assert(data@.subrange(0, 8) =~= data@.take(8));
    }
    vstd::bytes::u64_from_le_bytes(s)
}

/// The pool's record with its counter overwritten.
pub fn with_counter(data: &Vec<u8>, x: u64) -> (r: Vec<u8>)
    requires
        data@.len() >= 8,
    ensures
        r@ == enc_u64(x) + data@.skip(8),
        r@.len() == data@.len(),
        counter_of(r@) == x,
{
    let mut out = vstd::bytes::u64_to_le_bytes(x);
    let tail = vstd::slice::slice_to_vec(
        vstd::slice::slice_subrange(data.as_slice(), 8, data.len()),
    );
    append_bytes(&mut out, &tail);
    proof {
        assert(data@.subrange(8, data@.len() as int) =~= data@.skip(8));
        lemma_counter_round(x, data@.skip(8));
    }
    out
}

} // verus!
