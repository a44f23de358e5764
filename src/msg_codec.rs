//! The typed message codec: twelve message shapes, their payload layout, the
//! versioned header and envelope, header checks, content digests, the legacy
//! string layout, and routing by message type.
//!
//! A payload is the message type byte (1 to 12, fixed per shape) followed by
//! the shape's fields in declaration order. Within a payload, integers and
//! the 32-bit length and count prefixes of texts, byte strings and lists are
//! little-endian (see the field layer). An envelope is the 41-byte header
//! (type byte, big-endian version, 32-byte message id, big-endian payload
//! length: the header's fields are the big-endian ones), the payload, then
//! the nonce and timestamp (little-endian) and an optional signature whose
//! length prefix is little-endian like the payload's.
use vstd::prelude::*;
use vstd::pervasive::unreached;
use vstd::utf8::{
    decode_utf8, encode_utf8, encode_utf8_decode_utf8, encode_utf8_valid_utf8, valid_utf8,
};
use crate::field_io::{
    copy_range, keys_view, opt_bytes_view, opt_key_view, push_slice, read_field, read_key,
    utf8_text, writable, write_field, Field,
};
use crate::fields::{
    field_has_kind, fields_bytes, fields_match, lemma_fields_bytes_append,
    lemma_parse_fields_round_trip, lemma_parse_fields_sound, parse_fields, FieldKind,
    FieldValue,
};
use crate::bytes::{
    be_u32, le_i64, le_u64, lemma_be_u32_round_trip, push_i64_le, push_u32_be, push_u64_le,
    read_u32_be, u32_of_le,
};
use crate::errors::{MsgCodecError, ValidationError};
use crate::pubkey::Pubkey;

verus! {

pub const MSG_TYPE_OFFSET: usize = 0;
pub const VERSION_OFFSET: usize = 1;
pub const MESSAGE_ID_OFFSET: usize = 5;
pub const LENGTH_OFFSET: usize = 37;
/// Where the payload starts: the size of the fixed header.
pub const PAYLOAD_OFFSET: usize = 41;

/// Where the legacy layout's 32-byte header starts and where its text starts.
pub const STRING_LENGTH_OFFSET: usize = 0;
pub const STRING_PAYLOAD_OFFSET: usize = 32;

/// The only protocol version this codec speaks.
pub const PROTOCOL_VERSION: u32 = 1;

/// Ceiling of an APY, in basis points (100%).
pub const MAX_APY_BPS: u64 = 10000;
/// Ceiling of a slippage tolerance, in basis points (10%).
pub const MAX_SLIPPAGE_BPS: u64 = 1000;
/// Top of the risk scale of a rate update.
pub const MAX_UPDATE_RISK_SCORE: u8 = 5;
/// Top of the health scale of a position sync.
pub const MAX_POSITION_HEALTH: u8 = 100;
/// How old an envelope may be, in seconds.
pub const MAX_MESSAGE_AGE: i64 = 3600;
/// How far in the future an envelope may be stamped, in seconds.
pub const MAX_CLOCK_SKEW: i64 = 300;

/// What an emergency action does.
#[derive(Clone, Copy, Debug, PartialEq, Eq, Structural)]
pub enum EmergencyActionType {
    Pause,
    Unpause,
    ForceWithdraw,
    HaltDeposits,
    ResumeDeposits,
}

impl EmergencyActionType {
    pub open spec fn index_spec(&self) -> u8 {
        match self {
            EmergencyActionType::Pause => 0u8,
            EmergencyActionType::Unpause => 1u8,
            EmergencyActionType::ForceWithdraw => 2u8,
            EmergencyActionType::HaltDeposits => 3u8,
            EmergencyActionType::ResumeDeposits => 4u8,
        }
    }

    /// The one-byte code of the case.
    pub fn index(&self) -> (r: u8)
        ensures
            r == self.index_spec(),
            r < 5,
    {
        match self {
            EmergencyActionType::Pause => 0,
            EmergencyActionType::Unpause => 1,
            EmergencyActionType::ForceWithdraw => 2,
            EmergencyActionType::HaltDeposits => 3,
            EmergencyActionType::ResumeDeposits => 4,
        }
    }

    pub fn from_index(i: u8) -> (r: EmergencyActionType)
        requires
            i < 5,
        ensures
            r.index_spec() == i,
    {
        match i {
            0 => EmergencyActionType::Pause,
            1 => EmergencyActionType::Unpause,
            2 => EmergencyActionType::ForceWithdraw,
            3 => EmergencyActionType::HaltDeposits,
            _ => EmergencyActionType::ResumeDeposits,
        }
    }
}

/// Which part of a protocol's configuration changes.
#[derive(Clone, Copy, Debug, PartialEq, Eq, Structural)]
pub enum ProtocolConfigType {
    YieldRate,
    FeeStructure,
    RiskParameters,
    CapacityLimits,
    RebalanceThresholds,
}

impl ProtocolConfigType {
    pub open spec fn index_spec(&self) -> u8 {
        match self {
            ProtocolConfigType::YieldRate => 0u8,
            ProtocolConfigType::FeeStructure => 1u8,
            ProtocolConfigType::RiskParameters => 2u8,
            ProtocolConfigType::CapacityLimits => 3u8,
            ProtocolConfigType::RebalanceThresholds => 4u8,
        }
    }

    /// The one-byte code of the case.
    pub fn index(&self) -> (r: u8)
        ensures
            r == self.index_spec(),
            r < 5,
    {
        match self {
            ProtocolConfigType::YieldRate => 0,
            ProtocolConfigType::FeeStructure => 1,
            ProtocolConfigType::RiskParameters => 2,
            ProtocolConfigType::CapacityLimits => 3,
            ProtocolConfigType::RebalanceThresholds => 4,
        }
    }

    pub fn from_index(i: u8) -> (r: ProtocolConfigType)
        requires
            i < 5,
        ensures
            r.index_spec() == i,
    {
        match i {
            0 => ProtocolConfigType::YieldRate,
            1 => ProtocolConfigType::FeeStructure,
            2 => ProtocolConfigType::RiskParameters,
            3 => ProtocolConfigType::CapacityLimits,
            _ => ProtocolConfigType::RebalanceThresholds,
        }
    }
}

/// What a fee was charged for.
#[derive(Clone, Copy, Debug, PartialEq, Eq, Structural)]
pub enum FeeType {
    Performance,
    Management,
    Withdrawal,
    Rebalance,
    Deposit,
}

impl FeeType {
    pub open spec fn index_spec(&self) -> u8 {
        match self {
            FeeType::Performance => 0u8,
            FeeType::Management => 1u8,
            FeeType::Withdrawal => 2u8,
            FeeType::Rebalance => 3u8,
            FeeType::Deposit => 4u8,
        }
    }

    /// The one-byte code of the case.
    pub fn index(&self) -> (r: u8)
        ensures
            r == self.index_spec(),
            r < 5,
    {
        match self {
            FeeType::Performance => 0,
            FeeType::Management => 1,
            FeeType::Withdrawal => 2,
            FeeType::Rebalance => 3,
            FeeType::Deposit => 4,
        }
    }

    pub fn from_index(i: u8) -> (r: FeeType)
        requires
            i < 5,
        ensures
            r.index_spec() == i,
    {
        match i {
            0 => FeeType::Performance,
            1 => FeeType::Management,
            2 => FeeType::Withdrawal,
            3 => FeeType::Rebalance,
            _ => FeeType::Deposit,
        }
    }
}

/// A message as the contracts see it: its type and its payload fields.
pub struct MessageModel {
    pub tag: u8,
    pub fields: Seq<FieldValue>,
}

pub open spec fn fields_view(fs: Seq<Field>) -> Seq<FieldValue> {
    fs.map_values(|f: Field| f@)
}

/// A message the payload layout can hold: a known type whose fields have
/// the kinds of that type, with every length within 32 bits.
pub open spec fn well_formed(m: MessageModel) -> bool {
    &&& 1 <= m.tag <= 12
    &&& fields_match(m.fields, schema(m.tag))
}

/// The payload layout of a message: its type byte, then its fields.
pub open spec fn message_bytes(m: MessageModel) -> Seq<u8> {
    seq![m.tag] + fields_bytes(m.fields)
}

/// Reading a message at the front of `s`.
pub open spec fn parse_message(s: Seq<u8>) -> Option<(MessageModel, int)> {
    if s.len() >= 1 && 1 <= s[0] <= 12 {
        match parse_fields(schema(s[0]), s.skip(1)) {
            None => None,
            Some((fs, n)) => Some((MessageModel { tag: s[0], fields: fs }, n + 1)),
        }
    } else {
        None
    }
}

fn copy_bytes(v: &Vec<u8>) -> (r: Vec<u8>)
    ensures
        r@ == v@,
{
    copy_range(v.as_slice(), 0, v.len())
}

fn copy_keys(v: &Vec<Pubkey>) -> (r: Vec<Pubkey>)
    ensures
        r@ == v@,
{
    let mut r: Vec<Pubkey> = Vec::new();
    let mut i: usize = 0;
    while i < v.len()
        invariant
            0 <= i <= v@.len(),
            r@ == v@.take(i as int),
        decreases v@.len() - i,
    {
        r.push(v[i]);
        i += 1;
        assert(r@ =~= v@.take(i as int));
    }
    assert(v@.take(i as int) =~= v@);
    r
}

fn copy_amounts(v: &Vec<u64>) -> (r: Vec<u64>)
    ensures
        r@ == v@,
{
    let mut r: Vec<u64> = Vec::new();
    let mut i: usize = 0;
    while i < v.len()
        invariant
            0 <= i <= v@.len(),
            r@ == v@.take(i as int),
        decreases v@.len() - i,
    {
        r.push(v[i]);
        i += 1;
        assert(r@ =~= v@.take(i as int));
    }
    assert(v@.take(i as int) =~= v@);
    r
}

/// A cross-ledger message: twelve shapes, each with its own payload.
#[derive(Clone, Debug, PartialEq)]
pub enum YieldMessage {
    /// Cross-ledger deposit request.
    DepositRequest {
        user: Pubkey,
        amount: u64,
        token_mint: Pubkey,
        target_protocol_id: u64,
        min_apy: u64,
        slippage_tolerance: u64,
        deadline: i64,
        referrer: Option<Pubkey>,
    },
    /// Cross-ledger withdrawal request.
    WithdrawRequest {
        user: Pubkey,
        amount: u64,
        token_mint: Pubkey,
        protocol_id: u64,
        target_chain_id: u32,
        destination_address: Vec<u8>,
        withdraw_yield: bool,
        deadline: i64,
    },
    /// Moving a position from one protocol to another.
    RebalanceRequest {
        user: Pubkey,
        from_protocol_id: u64,
        to_protocol_id: u64,
        amount: u64,
        target_chain_id: u32,
        min_output_amount: u64,
        deadline: i64,
    },
    /// New rate and size figures of a protocol.
    YieldUpdate {
        protocol_id: u64,
        protocol_name: String,
        new_apy: u64,
        tvl: u64,
        available_capacity: u64,
        risk_score: u8,
        last_harvest_time: i64,
        update_timestamp: i64,
    },
    /// A user position as another ledger holds it.
    PositionSync {
        user: Pubkey,
        protocol_id: u64,
        principal_amount: u64,
        yield_earned: u64,
        total_shares: u64,
        last_compound_time: i64,
        position_health: u8,
        sync_timestamp: i64,
    },
    /// Yield paid out to a list of users.
    YieldDistribution {
        protocol_id: u64,
        total_yield: u64,
        distribution_rate: u64,
        eligible_users: Vec<Pubkey>,
        per_user_yield: Vec<u64>,
        distribution_timestamp: i64,
    },
    /// Pausing or resuming across ledgers.
    EmergencyAction {
        action_type: EmergencyActionType,
        protocol_id: Option<u64>,
        reason: String,
        initiated_by: Pubkey,
        timestamp: i64,
    },
    /// A configuration change of a protocol.
    ProtocolConfig {
        protocol_id: u64,
        config_type: ProtocolConfigType,
        config_data: Vec<u8>,
        effective_timestamp: i64,
    },
    /// A vote on a proposal.
    GovernanceVote {
        proposal_id: u64,
        voter: Pubkey,
        vote_weight: u64,
        vote_choice: bool,
        voting_power: u64,
        timestamp: i64,
    },
    /// A position that was liquidated.
    LiquidationNotice {
        user: Pubkey,
        protocol_id: u64,
        liquidated_amount: u64,
        liquidation_penalty: u64,
        liquidator: Pubkey,
        timestamp: i64,
    },
    /// Fees taken from a list of payers.
    FeeCollection {
        protocol_id: u64,
        fee_type: FeeType,
        amount: u64,
        token_mint: Pubkey,
        collected_from: Vec<Pubkey>,
        timestamp: i64,
    },
    /// An oracle price.
    PriceUpdate {
        token_mint: Pubkey,
        price: u64,
        confidence: u64,
        timestamp: i64,
        oracle_source: String,
    },
}

/// The field kinds of the payload of message type `tag`, in order.
pub open spec fn schema(tag: u8) -> Seq<FieldKind> {
    match tag {
        1u8 => seq![FieldKind::Key, FieldKind::U64, FieldKind::Key, FieldKind::U64, FieldKind::U64, FieldKind::U64, FieldKind::I64, FieldKind::OptKey],
        2u8 => seq![FieldKind::Key, FieldKind::U64, FieldKind::Key, FieldKind::U64, FieldKind::U32, FieldKind::Bytes, FieldKind::Bool, FieldKind::I64],
        3u8 => seq![FieldKind::Key, FieldKind::U64, FieldKind::U64, FieldKind::U64, FieldKind::U32, FieldKind::U64, FieldKind::I64],
        4u8 => seq![FieldKind::U64, FieldKind::Text, FieldKind::U64, FieldKind::U64, FieldKind::U64, FieldKind::U8, FieldKind::I64, FieldKind::I64],
        5u8 => seq![FieldKind::Key, FieldKind::U64, FieldKind::U64, FieldKind::U64, FieldKind::U64, FieldKind::I64, FieldKind::U8, FieldKind::I64],
        6u8 => seq![FieldKind::U64, FieldKind::U64, FieldKind::U64, FieldKind::Keys, FieldKind::Amounts, FieldKind::I64],
        7u8 => seq![FieldKind::Choice(5), FieldKind::OptU64, FieldKind::Text, FieldKind::Key, FieldKind::I64],
        8u8 => seq![FieldKind::U64, FieldKind::Choice(5), FieldKind::Bytes, FieldKind::I64],
        9u8 => seq![FieldKind::U64, FieldKind::Key, FieldKind::U64, FieldKind::Bool, FieldKind::U64, FieldKind::I64],
        10u8 => seq![FieldKind::Key, FieldKind::U64, FieldKind::U64, FieldKind::U64, FieldKind::Key, FieldKind::I64],
        11u8 => seq![FieldKind::U64, FieldKind::Choice(5), FieldKind::U64, FieldKind::Key, FieldKind::Keys, FieldKind::I64],
        12u8 => seq![FieldKind::Key, FieldKind::U64, FieldKind::U64, FieldKind::I64, FieldKind::Text],
        _ => Seq::empty(),
    }
}

/// The field kinds of the payload of message type `tag`, in order.
pub fn schema_of(tag: u8) -> (r: Vec<FieldKind>)
    ensures
        r@ == schema(tag),
{
    let mut r: Vec<FieldKind> = Vec::new();
    match tag {
        1u8 => {
            r.push(FieldKind::Key);
            r.push(FieldKind::U64);
            r.push(FieldKind::Key);
            r.push(FieldKind::U64);
            r.push(FieldKind::U64);
            r.push(FieldKind::U64);
            r.push(FieldKind::I64);
            r.push(FieldKind::OptKey);
        },
        2u8 => {
            r.push(FieldKind::Key);
            r.push(FieldKind::U64);
            r.push(FieldKind::Key);
            r.push(FieldKind::U64);
            r.push(FieldKind::U32);
            r.push(FieldKind::Bytes);
            r.push(FieldKind::Bool);
            r.push(FieldKind::I64);
        },
        3u8 => {
            r.push(FieldKind::Key);
            r.push(FieldKind::U64);
            r.push(FieldKind::U64);
            r.push(FieldKind::U64);
            r.push(FieldKind::U32);
            r.push(FieldKind::U64);
            r.push(FieldKind::I64);
        },
        4u8 => {
            r.push(FieldKind::U64);
            r.push(FieldKind::Text);
            r.push(FieldKind::U64);
            r.push(FieldKind::U64);
            r.push(FieldKind::U64);
            r.push(FieldKind::U8);
            r.push(FieldKind::I64);
            r.push(FieldKind::I64);
        },
        5u8 => {
            r.push(FieldKind::Key);
            r.push(FieldKind::U64);
            r.push(FieldKind::U64);
            r.push(FieldKind::U64);
            r.push(FieldKind::U64);
            r.push(FieldKind::I64);
            r.push(FieldKind::U8);
            r.push(FieldKind::I64);
        },
        6u8 => {
            r.push(FieldKind::U64);
            r.push(FieldKind::U64);
            r.push(FieldKind::U64);
            r.push(FieldKind::Keys);
            r.push(FieldKind::Amounts);
            r.push(FieldKind::I64);
        },
        7u8 => {
            r.push(FieldKind::Choice(5));
            r.push(FieldKind::OptU64);
            r.push(FieldKind::Text);
            r.push(FieldKind::Key);
            r.push(FieldKind::I64);
        },
        8u8 => {
            r.push(FieldKind::U64);
            r.push(FieldKind::Choice(5));
            r.push(FieldKind::Bytes);
            r.push(FieldKind::I64);
        },
        9u8 => {
            r.push(FieldKind::U64);
            r.push(FieldKind::Key);
            r.push(FieldKind::U64);
            r.push(FieldKind::Bool);
            r.push(FieldKind::U64);
            r.push(FieldKind::I64);
        },
        10u8 => {
            r.push(FieldKind::Key);
            r.push(FieldKind::U64);
            r.push(FieldKind::U64);
            r.push(FieldKind::U64);
            r.push(FieldKind::Key);
            r.push(FieldKind::I64);
        },
        11u8 => {
            r.push(FieldKind::U64);
            r.push(FieldKind::Choice(5));
            r.push(FieldKind::U64);
            r.push(FieldKind::Key);
            r.push(FieldKind::Keys);
            r.push(FieldKind::I64);
        },
        12u8 => {
            r.push(FieldKind::Key);
            r.push(FieldKind::U64);
            r.push(FieldKind::U64);
            r.push(FieldKind::I64);
            r.push(FieldKind::Text);
        },
        _ => {},
    }
    assert(r@ =~= schema(tag));
    r
}

impl View for YieldMessage {
    type V = MessageModel;

    open spec fn view(&self) -> MessageModel {
        match self {
            YieldMessage::DepositRequest { user, amount, token_mint, target_protocol_id, min_apy, slippage_tolerance, deadline, referrer } => MessageModel {
                tag: 1u8,
                fields: seq![
                    FieldValue::Key(user@),
                    FieldValue::U64(*amount),
                    FieldValue::Key(token_mint@),
                    FieldValue::U64(*target_protocol_id),
                    FieldValue::U64(*min_apy),
                    FieldValue::U64(*slippage_tolerance),
                    FieldValue::I64(*deadline),
                    FieldValue::OptKey(opt_key_view(*referrer)),
                ],
            },
            YieldMessage::WithdrawRequest { user, amount, token_mint, protocol_id, target_chain_id, destination_address, withdraw_yield, deadline } => MessageModel {
                tag: 2u8,
                fields: seq![
                    FieldValue::Key(user@),
                    FieldValue::U64(*amount),
                    FieldValue::Key(token_mint@),
                    FieldValue::U64(*protocol_id),
                    FieldValue::U32(*target_chain_id),
                    FieldValue::Bytes(destination_address@),
                    FieldValue::Bool(*withdraw_yield),
                    FieldValue::I64(*deadline),
                ],
            },
            YieldMessage::RebalanceRequest { user, from_protocol_id, to_protocol_id, amount, target_chain_id, min_output_amount, deadline } => MessageModel {
                tag: 3u8,
                fields: seq![
                    FieldValue::Key(user@),
                    FieldValue::U64(*from_protocol_id),
                    FieldValue::U64(*to_protocol_id),
                    FieldValue::U64(*amount),
                    FieldValue::U32(*target_chain_id),
                    FieldValue::U64(*min_output_amount),
                    FieldValue::I64(*deadline),
                ],
            },
            YieldMessage::YieldUpdate { protocol_id, protocol_name, new_apy, tvl, available_capacity, risk_score, last_harvest_time, update_timestamp } => MessageModel {
                tag: 4u8,
                fields: seq![
                    FieldValue::U64(*protocol_id),
                    FieldValue::Text(protocol_name@),
                    FieldValue::U64(*new_apy),
                    FieldValue::U64(*tvl),
                    FieldValue::U64(*available_capacity),
                    FieldValue::U8(*risk_score),
                    FieldValue::I64(*last_harvest_time),
                    FieldValue::I64(*update_timestamp),
                ],
            },
            YieldMessage::PositionSync { user, protocol_id, principal_amount, yield_earned, total_shares, last_compound_time, position_health, sync_timestamp } => MessageModel {
                tag: 5u8,
                fields: seq![
                    FieldValue::Key(user@),
                    FieldValue::U64(*protocol_id),
                    FieldValue::U64(*principal_amount),
                    FieldValue::U64(*yield_earned),
                    FieldValue::U64(*total_shares),
                    FieldValue::I64(*last_compound_time),
                    FieldValue::U8(*position_health),
                    FieldValue::I64(*sync_timestamp),
                ],
            },
            YieldMessage::YieldDistribution { protocol_id, total_yield, distribution_rate, eligible_users, per_user_yield, distribution_timestamp } => MessageModel {
                tag: 6u8,
                fields: seq![
                    FieldValue::U64(*protocol_id),
                    FieldValue::U64(*total_yield),
                    FieldValue::U64(*distribution_rate),
                    FieldValue::Keys(keys_view(eligible_users@)),
                    FieldValue::Amounts(per_user_yield@),
                    FieldValue::I64(*distribution_timestamp),
                ],
            },
            YieldMessage::EmergencyAction { action_type, protocol_id, reason, initiated_by, timestamp } => MessageModel {
                tag: 7u8,
                fields: seq![
                    FieldValue::Choice(action_type.index_spec()),
                    FieldValue::OptU64(*protocol_id),
                    FieldValue::Text(reason@),
                    FieldValue::Key(initiated_by@),
                    FieldValue::I64(*timestamp),
                ],
            },
            YieldMessage::ProtocolConfig { protocol_id, config_type, config_data, effective_timestamp } => MessageModel {
                tag: 8u8,
                fields: seq![
                    FieldValue::U64(*protocol_id),
                    FieldValue::Choice(config_type.index_spec()),
                    FieldValue::Bytes(config_data@),
                    FieldValue::I64(*effective_timestamp),
                ],
            },
            YieldMessage::GovernanceVote { proposal_id, voter, vote_weight, vote_choice, voting_power, timestamp } => MessageModel {
                tag: 9u8,
                fields: seq![
                    FieldValue::U64(*proposal_id),
                    FieldValue::Key(voter@),
                    FieldValue::U64(*vote_weight),
                    FieldValue::Bool(*vote_choice),
                    FieldValue::U64(*voting_power),
                    FieldValue::I64(*timestamp),
                ],
            },
            YieldMessage::LiquidationNotice { user, protocol_id, liquidated_amount, liquidation_penalty, liquidator, timestamp } => MessageModel {
                tag: 10u8,
                fields: seq![
                    FieldValue::Key(user@),
                    FieldValue::U64(*protocol_id),
                    FieldValue::U64(*liquidated_amount),
                    FieldValue::U64(*liquidation_penalty),
                    FieldValue::Key(liquidator@),
                    FieldValue::I64(*timestamp),
                ],
            },
            YieldMessage::FeeCollection { protocol_id, fee_type, amount, token_mint, collected_from, timestamp } => MessageModel {
                tag: 11u8,
                fields: seq![
                    FieldValue::U64(*protocol_id),
                    FieldValue::Choice(fee_type.index_spec()),
                    FieldValue::U64(*amount),
                    FieldValue::Key(token_mint@),
                    FieldValue::Keys(keys_view(collected_from@)),
                    FieldValue::I64(*timestamp),
                ],
            },
            YieldMessage::PriceUpdate { token_mint, price, confidence, timestamp, oracle_source } => MessageModel {
                tag: 12u8,
                fields: seq![
                    FieldValue::Key(token_mint@),
                    FieldValue::U64(*price),
                    FieldValue::U64(*confidence),
                    FieldValue::I64(*timestamp),
                    FieldValue::Text(oracle_source@),
                ],
            },
        }
    }
}

impl YieldMessage {
    /// The message type: the payload's discriminant, 1 to 12.
    pub fn get_message_type(&self) -> (r: u8)
        ensures
            r == self@.tag,
            1 <= r <= 12,
    {
        match self {
            YieldMessage::DepositRequest { .. } => 1,
            YieldMessage::WithdrawRequest { .. } => 2,
            YieldMessage::RebalanceRequest { .. } => 3,
            YieldMessage::YieldUpdate { .. } => 4,
            YieldMessage::PositionSync { .. } => 5,
            YieldMessage::YieldDistribution { .. } => 6,
            YieldMessage::EmergencyAction { .. } => 7,
            YieldMessage::ProtocolConfig { .. } => 8,
            YieldMessage::GovernanceVote { .. } => 9,
            YieldMessage::LiquidationNotice { .. } => 10,
            YieldMessage::FeeCollection { .. } => 11,
            YieldMessage::PriceUpdate { .. } => 12,
        }
    }

    /// The payload as a run of fields.
    pub fn to_fields(&self) -> (r: Vec<Field>)
        ensures
            fields_view(r@) == self@.fields,
    {
        let mut r: Vec<Field> = Vec::new();
        match self {
            YieldMessage::DepositRequest { user, amount, token_mint, target_protocol_id, min_apy, slippage_tolerance, deadline, referrer } => {
                r.push(Field::Key(*user));
                r.push(Field::U64(*amount));
                r.push(Field::Key(*token_mint));
                r.push(Field::U64(*target_protocol_id));
                r.push(Field::U64(*min_apy));
                r.push(Field::U64(*slippage_tolerance));
                r.push(Field::I64(*deadline));
                r.push(Field::OptKey(*referrer));
            },
            YieldMessage::WithdrawRequest { user, amount, token_mint, protocol_id, target_chain_id, destination_address, withdraw_yield, deadline } => {
                r.push(Field::Key(*user));
                r.push(Field::U64(*amount));
                r.push(Field::Key(*token_mint));
                r.push(Field::U64(*protocol_id));
                r.push(Field::U32(*target_chain_id));
                r.push(Field::Bytes(copy_bytes(destination_address)));
                r.push(Field::Bool(*withdraw_yield));
                r.push(Field::I64(*deadline));
            },
            YieldMessage::RebalanceRequest { user, from_protocol_id, to_protocol_id, amount, target_chain_id, min_output_amount, deadline } => {
                r.push(Field::Key(*user));
                r.push(Field::U64(*from_protocol_id));
                r.push(Field::U64(*to_protocol_id));
                r.push(Field::U64(*amount));
                r.push(Field::U32(*target_chain_id));
                r.push(Field::U64(*min_output_amount));
                r.push(Field::I64(*deadline));
            },
            YieldMessage::YieldUpdate { protocol_id, protocol_name, new_apy, tvl, available_capacity, risk_score, last_harvest_time, update_timestamp } => {
                r.push(Field::U64(*protocol_id));
                r.push(Field::Text(protocol_name.clone()));
                r.push(Field::U64(*new_apy));
                r.push(Field::U64(*tvl));
                r.push(Field::U64(*available_capacity));
                r.push(Field::U8(*risk_score));
                r.push(Field::I64(*last_harvest_time));
                r.push(Field::I64(*update_timestamp));
            },
            YieldMessage::PositionSync { user, protocol_id, principal_amount, yield_earned, total_shares, last_compound_time, position_health, sync_timestamp } => {
                r.push(Field::Key(*user));
                r.push(Field::U64(*protocol_id));
                r.push(Field::U64(*principal_amount));
                r.push(Field::U64(*yield_earned));
                r.push(Field::U64(*total_shares));
                r.push(Field::I64(*last_compound_time));
                r.push(Field::U8(*position_health));
                r.push(Field::I64(*sync_timestamp));
            },
            YieldMessage::YieldDistribution { protocol_id, total_yield, distribution_rate, eligible_users, per_user_yield, distribution_timestamp } => {
                r.push(Field::U64(*protocol_id));
                r.push(Field::U64(*total_yield));
                r.push(Field::U64(*distribution_rate));
                r.push(Field::Keys(copy_keys(eligible_users)));
                r.push(Field::Amounts(copy_amounts(per_user_yield)));
                r.push(Field::I64(*distribution_timestamp));
            },
            YieldMessage::EmergencyAction { action_type, protocol_id, reason, initiated_by, timestamp } => {
                r.push(Field::Choice(action_type.index()));
                r.push(Field::OptU64(*protocol_id));
                r.push(Field::Text(reason.clone()));
                r.push(Field::Key(*initiated_by));
                r.push(Field::I64(*timestamp));
            },
            YieldMessage::ProtocolConfig { protocol_id, config_type, config_data, effective_timestamp } => {
                r.push(Field::U64(*protocol_id));
                r.push(Field::Choice(config_type.index()));
                r.push(Field::Bytes(copy_bytes(config_data)));
                r.push(Field::I64(*effective_timestamp));
            },
            YieldMessage::GovernanceVote { proposal_id, voter, vote_weight, vote_choice, voting_power, timestamp } => {
                r.push(Field::U64(*proposal_id));
                r.push(Field::Key(*voter));
                r.push(Field::U64(*vote_weight));
                r.push(Field::Bool(*vote_choice));
                r.push(Field::U64(*voting_power));
                r.push(Field::I64(*timestamp));
            },
            YieldMessage::LiquidationNotice { user, protocol_id, liquidated_amount, liquidation_penalty, liquidator, timestamp } => {
                r.push(Field::Key(*user));
                r.push(Field::U64(*protocol_id));
                r.push(Field::U64(*liquidated_amount));
                r.push(Field::U64(*liquidation_penalty));
                r.push(Field::Key(*liquidator));
                r.push(Field::I64(*timestamp));
            },
            YieldMessage::FeeCollection { protocol_id, fee_type, amount, token_mint, collected_from, timestamp } => {
                r.push(Field::U64(*protocol_id));
                r.push(Field::Choice(fee_type.index()));
                r.push(Field::U64(*amount));
                r.push(Field::Key(*token_mint));
                r.push(Field::Keys(copy_keys(collected_from)));
                r.push(Field::I64(*timestamp));
            },
            YieldMessage::PriceUpdate { token_mint, price, confidence, timestamp, oracle_source } => {
                r.push(Field::Key(*token_mint));
                r.push(Field::U64(*price));
                r.push(Field::U64(*confidence));
                r.push(Field::I64(*timestamp));
                r.push(Field::Text(oracle_source.clone()));
            },
        }
        assert(fields_view(r@) =~= self@.fields);
        r
    }

    /// The message of type `tag` whose payload is `fields`.
    pub fn from_fields(tag: u8, fields: Vec<Field>) -> (r: YieldMessage)
        requires
            1 <= tag <= 12,
            fields_match(fields_view(fields@), schema(tag)),
        ensures
            r@ == (MessageModel { tag, fields: fields_view(fields@) }),
    {
        match tag {
            1u8 => build_deposit_request(fields),
            2u8 => build_withdraw_request(fields),
            3u8 => build_rebalance_request(fields),
            4u8 => build_yield_update(fields),
            5u8 => build_position_sync(fields),
            6u8 => build_yield_distribution(fields),
            7u8 => build_emergency_action(fields),
            8u8 => build_protocol_config(fields),
            9u8 => build_governance_vote(fields),
            10u8 => build_liquidation_notice(fields),
            11u8 => build_fee_collection(fields),
            12u8 => build_price_update(fields),
            _ => unreached(),
        }
    }
}

fn build_deposit_request(fields: Vec<Field>) -> (r: YieldMessage)
    requires
        fields_match(fields_view(fields@), schema(1u8)),
    ensures
        r@ == (MessageModel { tag: 1u8, fields: fields_view(fields@) }),
{
    let ghost all = fields@;
    let ghost tag = 1u8;
    let mut fields = fields;
    assert(field_has_kind(fields_view(all)[7], schema(tag)[7]));
    assert(fields@ =~= all.take(8));
    let referrer = match fields.pop() {
        Some(Field::OptKey(x)) => x,
        _ => unreached(),
    };
    assert(field_has_kind(fields_view(all)[6], schema(tag)[6]));
    assert(fields@ =~= all.take(7));
    let deadline = match fields.pop() {
        Some(Field::I64(x)) => x,
        _ => unreached(),
    };
    assert(field_has_kind(fields_view(all)[5], schema(tag)[5]));
    assert(fields@ =~= all.take(6));
    let slippage_tolerance = match fields.pop() {
        Some(Field::U64(x)) => x,
        _ => unreached(),
    };
    assert(field_has_kind(fields_view(all)[4], schema(tag)[4]));
    assert(fields@ =~= all.take(5));
    let min_apy = match fields.pop() {
        Some(Field::U64(x)) => x,
        _ => unreached(),
    };
    assert(field_has_kind(fields_view(all)[3], schema(tag)[3]));
    assert(fields@ =~= all.take(4));
    let target_protocol_id = match fields.pop() {
        Some(Field::U64(x)) => x,
        _ => unreached(),
    };
    assert(field_has_kind(fields_view(all)[2], schema(tag)[2]));
    assert(fields@ =~= all.take(3));
    let token_mint = match fields.pop() {
        Some(Field::Key(x)) => x,
        _ => unreached(),
    };
    assert(field_has_kind(fields_view(all)[1], schema(tag)[1]));
    assert(fields@ =~= all.take(2));
    let amount = match fields.pop() {
        Some(Field::U64(x)) => x,
        _ => unreached(),
    };
    assert(field_has_kind(fields_view(all)[0], schema(tag)[0]));
    assert(fields@ =~= all.take(1));
    let user = match fields.pop() {
        Some(Field::Key(x)) => x,
        _ => unreached(),
    };
    let r = YieldMessage::DepositRequest { user, amount, token_mint, target_protocol_id, min_apy, slippage_tolerance, deadline, referrer };
    assert(r@.fields =~= fields_view(all));
    r
}

fn build_withdraw_request(fields: Vec<Field>) -> (r: YieldMessage)
    requires
        fields_match(fields_view(fields@), schema(2u8)),
    ensures
        r@ == (MessageModel { tag: 2u8, fields: fields_view(fields@) }),
{
    let ghost all = fields@;
    let ghost tag = 2u8;
    let mut fields = fields;
    assert(field_has_kind(fields_view(all)[7], schema(tag)[7]));
    assert(fields@ =~= all.take(8));
    let deadline = match fields.pop() {
        Some(Field::I64(x)) => x,
        _ => unreached(),
    };
    assert(field_has_kind(fields_view(all)[6], schema(tag)[6]));
    assert(fields@ =~= all.take(7));
    let withdraw_yield = match fields.pop() {
        Some(Field::Bool(x)) => x,
        _ => unreached(),
    };
    assert(field_has_kind(fields_view(all)[5], schema(tag)[5]));
    assert(fields@ =~= all.take(6));
    let destination_address = match fields.pop() {
        Some(Field::Bytes(x)) => x,
        _ => unreached(),
    };
    assert(field_has_kind(fields_view(all)[4], schema(tag)[4]));
    assert(fields@ =~= all.take(5));
    let target_chain_id = match fields.pop() {
        Some(Field::U32(x)) => x,
        _ => unreached(),
    };
    assert(field_has_kind(fields_view(all)[3], schema(tag)[3]));
    assert(fields@ =~= all.take(4));
    let protocol_id = match fields.pop() {
        Some(Field::U64(x)) => x,
        _ => unreached(),
    };
    assert(field_has_kind(fields_view(all)[2], schema(tag)[2]));
    assert(fields@ =~= all.take(3));
    let token_mint = match fields.pop() {
        Some(Field::Key(x)) => x,
        _ => unreached(),
    };
    assert(field_has_kind(fields_view(all)[1], schema(tag)[1]));
    assert(fields@ =~= all.take(2));
    let amount = match fields.pop() {
        Some(Field::U64(x)) => x,
        _ => unreached(),
    };
    assert(field_has_kind(fields_view(all)[0], schema(tag)[0]));
    assert(fields@ =~= all.take(1));
    let user = match fields.pop() {
        Some(Field::Key(x)) => x,
        _ => unreached(),
    };
    let r = YieldMessage::WithdrawRequest { user, amount, token_mint, protocol_id, target_chain_id, destination_address, withdraw_yield, deadline };
    assert(r@.fields =~= fields_view(all));
    r
}

fn build_rebalance_request(fields: Vec<Field>) -> (r: YieldMessage)
    requires
        fields_match(fields_view(fields@), schema(3u8)),
    ensures
        r@ == (MessageModel { tag: 3u8, fields: fields_view(fields@) }),
{
    let ghost all = fields@;
    let ghost tag = 3u8;
    let mut fields = fields;
    assert(field_has_kind(fields_view(all)[6], schema(tag)[6]));
    assert(fields@ =~= all.take(7));
    let deadline = match fields.pop() {
        Some(Field::I64(x)) => x,
        _ => unreached(),
    };
    assert(field_has_kind(fields_view(all)[5], schema(tag)[5]));
    assert(fields@ =~= all.take(6));
    let min_output_amount = match fields.pop() {
        Some(Field::U64(x)) => x,
        _ => unreached(),
    };
    assert(field_has_kind(fields_view(all)[4], schema(tag)[4]));
    assert(fields@ =~= all.take(5));
    let target_chain_id = match fields.pop() {
        Some(Field::U32(x)) => x,
        _ => unreached(),
    };
    assert(field_has_kind(fields_view(all)[3], schema(tag)[3]));
    assert(fields@ =~= all.take(4));
    let amount = match fields.pop() {
        Some(Field::U64(x)) => x,
        _ => unreached(),
    };
    assert(field_has_kind(fields_view(all)[2], schema(tag)[2]));
    assert(fields@ =~= all.take(3));
    let to_protocol_id = match fields.pop() {
        Some(Field::U64(x)) => x,
        _ => unreached(),
    };
    assert(field_has_kind(fields_view(all)[1], schema(tag)[1]));
    assert(fields@ =~= all.take(2));
    let from_protocol_id = match fields.pop() {
        Some(Field::U64(x)) => x,
        _ => unreached(),
    };
    assert(field_has_kind(fields_view(all)[0], schema(tag)[0]));
    assert(fields@ =~= all.take(1));
    let user = match fields.pop() {
        Some(Field::Key(x)) => x,
        _ => unreached(),
    };
    let r = YieldMessage::RebalanceRequest { user, from_protocol_id, to_protocol_id, amount, target_chain_id, min_output_amount, deadline };
    assert(r@.fields =~= fields_view(all));
    r
}

fn build_yield_update(fields: Vec<Field>) -> (r: YieldMessage)
    requires
        fields_match(fields_view(fields@), schema(4u8)),
    ensures
        r@ == (MessageModel { tag: 4u8, fields: fields_view(fields@) }),
{
    let ghost all = fields@;
    let ghost tag = 4u8;
    let mut fields = fields;
    assert(field_has_kind(fields_view(all)[7], schema(tag)[7]));
    assert(fields@ =~= all.take(8));
    let update_timestamp = match fields.pop() {
        Some(Field::I64(x)) => x,
        _ => unreached(),
    };
    assert(field_has_kind(fields_view(all)[6], schema(tag)[6]));
    assert(fields@ =~= all.take(7));
    let last_harvest_time = match fields.pop() {
        Some(Field::I64(x)) => x,
        _ => unreached(),
    };
    assert(field_has_kind(fields_view(all)[5], schema(tag)[5]));
    assert(fields@ =~= all.take(6));
    let risk_score = match fields.pop() {
        Some(Field::U8(x)) => x,
        _ => unreached(),
    };
    assert(field_has_kind(fields_view(all)[4], schema(tag)[4]));
    assert(fields@ =~= all.take(5));
    let available_capacity = match fields.pop() {
        Some(Field::U64(x)) => x,
        _ => unreached(),
    };
    assert(field_has_kind(fields_view(all)[3], schema(tag)[3]));
    assert(fields@ =~= all.take(4));
    let tvl = match fields.pop() {
        Some(Field::U64(x)) => x,
        _ => unreached(),
    };
    assert(field_has_kind(fields_view(all)[2], schema(tag)[2]));
    assert(fields@ =~= all.take(3));
    let new_apy = match fields.pop() {
        Some(Field::U64(x)) => x,
        _ => unreached(),
    };
    assert(field_has_kind(fields_view(all)[1], schema(tag)[1]));
    assert(fields@ =~= all.take(2));
    let protocol_name = match fields.pop() {
        Some(Field::Text(x)) => x,
        _ => unreached(),
    };
    assert(field_has_kind(fields_view(all)[0], schema(tag)[0]));
    assert(fields@ =~= all.take(1));
    let protocol_id = match fields.pop() {
        Some(Field::U64(x)) => x,
        _ => unreached(),
    };
    let r = YieldMessage::YieldUpdate { protocol_id, protocol_name, new_apy, tvl, available_capacity, risk_score, last_harvest_time, update_timestamp };
    assert(r@.fields =~= fields_view(all));
    r
}

fn build_position_sync(fields: Vec<Field>) -> (r: YieldMessage)
    requires
        fields_match(fields_view(fields@), schema(5u8)),
    ensures
        r@ == (MessageModel { tag: 5u8, fields: fields_view(fields@) }),
{
    let ghost all = fields@;
    let ghost tag = 5u8;
    let mut fields = fields;
    assert(field_has_kind(fields_view(all)[7], schema(tag)[7]));
    assert(fields@ =~= all.take(8));
    let sync_timestamp = match fields.pop() {
        Some(Field::I64(x)) => x,
        _ => unreached(),
    };
    assert(field_has_kind(fields_view(all)[6], schema(tag)[6]));
    assert(fields@ =~= all.take(7));
    let position_health = match fields.pop() {
        Some(Field::U8(x)) => x,
        _ => unreached(),
    };
    assert(field_has_kind(fields_view(all)[5], schema(tag)[5]));
    assert(fields@ =~= all.take(6));
    let last_compound_time = match fields.pop() {
        Some(Field::I64(x)) => x,
        _ => unreached(),
    };
    assert(field_has_kind(fields_view(all)[4], schema(tag)[4]));
    assert(fields@ =~= all.take(5));
    let total_shares = match fields.pop() {
        Some(Field::U64(x)) => x,
        _ => unreached(),
    };
    assert(field_has_kind(fields_view(all)[3], schema(tag)[3]));
    assert(fields@ =~= all.take(4));
    let yield_earned = match fields.pop() {
        Some(Field::U64(x)) => x,
        _ => unreached(),
    };
    assert(field_has_kind(fields_view(all)[2], schema(tag)[2]));
    assert(fields@ =~= all.take(3));
    let principal_amount = match fields.pop() {
        Some(Field::U64(x)) => x,
        _ => unreached(),
    };
    assert(field_has_kind(fields_view(all)[1], schema(tag)[1]));
    assert(fields@ =~= all.take(2));
    let protocol_id = match fields.pop() {
        Some(Field::U64(x)) => x,
        _ => unreached(),
    };
    assert(field_has_kind(fields_view(all)[0], schema(tag)[0]));
    assert(fields@ =~= all.take(1));
    let user = match fields.pop() {
        Some(Field::Key(x)) => x,
        _ => unreached(),
    };
    let r = YieldMessage::PositionSync { user, protocol_id, principal_amount, yield_earned, total_shares, last_compound_time, position_health, sync_timestamp };
    assert(r@.fields =~= fields_view(all));
    r
}

fn build_yield_distribution(fields: Vec<Field>) -> (r: YieldMessage)
    requires
        fields_match(fields_view(fields@), schema(6u8)),
    ensures
        r@ == (MessageModel { tag: 6u8, fields: fields_view(fields@) }),
{
    let ghost all = fields@;
    let ghost tag = 6u8;
    let mut fields = fields;
    assert(field_has_kind(fields_view(all)[5], schema(tag)[5]));
    assert(fields@ =~= all.take(6));
    let distribution_timestamp = match fields.pop() {
        Some(Field::I64(x)) => x,
        _ => unreached(),
    };
    assert(field_has_kind(fields_view(all)[4], schema(tag)[4]));
    assert(fields@ =~= all.take(5));
    let per_user_yield = match fields.pop() {
        Some(Field::Amounts(x)) => x,
        _ => unreached(),
    };
    assert(field_has_kind(fields_view(all)[3], schema(tag)[3]));
    assert(fields@ =~= all.take(4));
    let eligible_users = match fields.pop() {
        Some(Field::Keys(x)) => x,
        _ => unreached(),
    };
    assert(field_has_kind(fields_view(all)[2], schema(tag)[2]));
    assert(fields@ =~= all.take(3));
    let distribution_rate = match fields.pop() {
        Some(Field::U64(x)) => x,
        _ => unreached(),
    };
    assert(field_has_kind(fields_view(all)[1], schema(tag)[1]));
    assert(fields@ =~= all.take(2));
    let total_yield = match fields.pop() {
        Some(Field::U64(x)) => x,
        _ => unreached(),
    };
    assert(field_has_kind(fields_view(all)[0], schema(tag)[0]));
    assert(fields@ =~= all.take(1));
    let protocol_id = match fields.pop() {
        Some(Field::U64(x)) => x,
        _ => unreached(),
    };
    let r = YieldMessage::YieldDistribution { protocol_id, total_yield, distribution_rate, eligible_users, per_user_yield, distribution_timestamp };
    assert(r@.fields =~= fields_view(all));
    r
}

fn build_emergency_action(fields: Vec<Field>) -> (r: YieldMessage)
    requires
        fields_match(fields_view(fields@), schema(7u8)),
    ensures
        r@ == (MessageModel { tag: 7u8, fields: fields_view(fields@) }),
{
    let ghost all = fields@;
    let ghost tag = 7u8;
    let mut fields = fields;
    assert(field_has_kind(fields_view(all)[4], schema(tag)[4]));
    assert(fields@ =~= all.take(5));
    let timestamp = match fields.pop() {
        Some(Field::I64(x)) => x,
        _ => unreached(),
    };
    assert(field_has_kind(fields_view(all)[3], schema(tag)[3]));
    assert(fields@ =~= all.take(4));
    let initiated_by = match fields.pop() {
        Some(Field::Key(x)) => x,
        _ => unreached(),
    };
    assert(field_has_kind(fields_view(all)[2], schema(tag)[2]));
    assert(fields@ =~= all.take(3));
    let reason = match fields.pop() {
        Some(Field::Text(x)) => x,
        _ => unreached(),
    };
    assert(field_has_kind(fields_view(all)[1], schema(tag)[1]));
    assert(fields@ =~= all.take(2));
    let protocol_id = match fields.pop() {
        Some(Field::OptU64(x)) => x,
        _ => unreached(),
    };
    assert(field_has_kind(fields_view(all)[0], schema(tag)[0]));
    assert(fields@ =~= all.take(1));
    let action_type = match fields.pop() {
        Some(Field::Choice(c)) => EmergencyActionType::from_index(c),
        _ => unreached(),
    };
    let r = YieldMessage::EmergencyAction { action_type, protocol_id, reason, initiated_by, timestamp };
    assert(r@.fields =~= fields_view(all));
    r
}

fn build_protocol_config(fields: Vec<Field>) -> (r: YieldMessage)
    requires
        fields_match(fields_view(fields@), schema(8u8)),
    ensures
        r@ == (MessageModel { tag: 8u8, fields: fields_view(fields@) }),
{
    let ghost all = fields@;
    let ghost tag = 8u8;
    let mut fields = fields;
    assert(field_has_kind(fields_view(all)[3], schema(tag)[3]));
    assert(fields@ =~= all.take(4));
    let effective_timestamp = match fields.pop() {
        Some(Field::I64(x)) => x,
        _ => unreached(),
    };
    assert(field_has_kind(fields_view(all)[2], schema(tag)[2]));
    assert(fields@ =~= all.take(3));
    let config_data = match fields.pop() {
        Some(Field::Bytes(x)) => x,
        _ => unreached(),
    };
    assert(field_has_kind(fields_view(all)[1], schema(tag)[1]));
    assert(fields@ =~= all.take(2));
    let config_type = match fields.pop() {
        Some(Field::Choice(c)) => ProtocolConfigType::from_index(c),
        _ => unreached(),
    };
    assert(field_has_kind(fields_view(all)[0], schema(tag)[0]));
    assert(fields@ =~= all.take(1));
    let protocol_id = match fields.pop() {
        Some(Field::U64(x)) => x,
        _ => unreached(),
    };
    let r = YieldMessage::ProtocolConfig { protocol_id, config_type, config_data, effective_timestamp };
    assert(r@.fields =~= fields_view(all));
    r
}

fn build_governance_vote(fields: Vec<Field>) -> (r: YieldMessage)
    requires
        fields_match(fields_view(fields@), schema(9u8)),
    ensures
        r@ == (MessageModel { tag: 9u8, fields: fields_view(fields@) }),
{
    let ghost all = fields@;
    let ghost tag = 9u8;
    let mut fields = fields;
    assert(field_has_kind(fields_view(all)[5], schema(tag)[5]));
    assert(fields@ =~= all.take(6));
    let timestamp = match fields.pop() {
        Some(Field::I64(x)) => x,
        _ => unreached(),
    };
    assert(field_has_kind(fields_view(all)[4], schema(tag)[4]));
    assert(fields@ =~= all.take(5));
    let voting_power = match fields.pop() {
        Some(Field::U64(x)) => x,
        _ => unreached(),
    };
    assert(field_has_kind(fields_view(all)[3], schema(tag)[3]));
    assert(fields@ =~= all.take(4));
    let vote_choice = match fields.pop() {
        Some(Field::Bool(x)) => x,
        _ => unreached(),
    };
    assert(field_has_kind(fields_view(all)[2], schema(tag)[2]));
    assert(fields@ =~= all.take(3));
    let vote_weight = match fields.pop() {
        Some(Field::U64(x)) => x,
        _ => unreached(),
    };
    assert(field_has_kind(fields_view(all)[1], schema(tag)[1]));
    assert(fields@ =~= all.take(2));
    let voter = match fields.pop() {
        Some(Field::Key(x)) => x,
        _ => unreached(),
    };
    assert(field_has_kind(fields_view(all)[0], schema(tag)[0]));
    assert(fields@ =~= all.take(1));
    let proposal_id = match fields.pop() {
        Some(Field::U64(x)) => x,
        _ => unreached(),
    };
    let r = YieldMessage::GovernanceVote { proposal_id, voter, vote_weight, vote_choice, voting_power, timestamp };
    assert(r@.fields =~= fields_view(all));
    r
}

fn build_liquidation_notice(fields: Vec<Field>) -> (r: YieldMessage)
    requires
        fields_match(fields_view(fields@), schema(10u8)),
    ensures
        r@ == (MessageModel { tag: 10u8, fields: fields_view(fields@) }),
{
    let ghost all = fields@;
    let ghost tag = 10u8;
    let mut fields = fields;
    assert(field_has_kind(fields_view(all)[5], schema(tag)[5]));
    assert(fields@ =~= all.take(6));
    let timestamp = match fields.pop() {
        Some(Field::I64(x)) => x,
        _ => unreached(),
    };
    assert(field_has_kind(fields_view(all)[4], schema(tag)[4]));
    assert(fields@ =~= all.take(5));
    let liquidator = match fields.pop() {
        Some(Field::Key(x)) => x,
        _ => unreached(),
    };
    assert(field_has_kind(fields_view(all)[3], schema(tag)[3]));
    assert(fields@ =~= all.take(4));
    let liquidation_penalty = match fields.pop() {
        Some(Field::U64(x)) => x,
        _ => unreached(),
    };
    assert(field_has_kind(fields_view(all)[2], schema(tag)[2]));
    assert(fields@ =~= all.take(3));
    let liquidated_amount = match fields.pop() {
        Some(Field::U64(x)) => x,
        _ => unreached(),
    };
    assert(field_has_kind(fields_view(all)[1], schema(tag)[1]));
    assert(fields@ =~= all.take(2));
    let protocol_id = match fields.pop() {
        Some(Field::U64(x)) => x,
        _ => unreached(),
    };
    assert(field_has_kind(fields_view(all)[0], schema(tag)[0]));
    assert(fields@ =~= all.take(1));
    let user = match fields.pop() {
        Some(Field::Key(x)) => x,
        _ => unreached(),
    };
    let r = YieldMessage::LiquidationNotice { user, protocol_id, liquidated_amount, liquidation_penalty, liquidator, timestamp };
    assert(r@.fields =~= fields_view(all));
    r
}

fn build_fee_collection(fields: Vec<Field>) -> (r: YieldMessage)
    requires
        fields_match(fields_view(fields@), schema(11u8)),
    ensures
        r@ == (MessageModel { tag: 11u8, fields: fields_view(fields@) }),
{
    let ghost all = fields@;
    let ghost tag = 11u8;
    let mut fields = fields;
    assert(field_has_kind(fields_view(all)[5], schema(tag)[5]));
    assert(fields@ =~= all.take(6));
    let timestamp = match fields.pop() {
        Some(Field::I64(x)) => x,
        _ => unreached(),
    };
    assert(field_has_kind(fields_view(all)[4], schema(tag)[4]));
    assert(fields@ =~= all.take(5));
    let collected_from = match fields.pop() {
        Some(Field::Keys(x)) => x,
        _ => unreached(),
    };
    assert(field_has_kind(fields_view(all)[3], schema(tag)[3]));
    assert(fields@ =~= all.take(4));
    let token_mint = match fields.pop() {
        Some(Field::Key(x)) => x,
        _ => unreached(),
    };
    assert(field_has_kind(fields_view(all)[2], schema(tag)[2]));
    assert(fields@ =~= all.take(3));
    let amount = match fields.pop() {
        Some(Field::U64(x)) => x,
        _ => unreached(),
    };
    assert(field_has_kind(fields_view(all)[1], schema(tag)[1]));
    assert(fields@ =~= all.take(2));
    let fee_type = match fields.pop() {
        Some(Field::Choice(c)) => FeeType::from_index(c),
        _ => unreached(),
    };
    assert(field_has_kind(fields_view(all)[0], schema(tag)[0]));
    assert(fields@ =~= all.take(1));
    let protocol_id = match fields.pop() {
        Some(Field::U64(x)) => x,
        _ => unreached(),
    };
    let r = YieldMessage::FeeCollection { protocol_id, fee_type, amount, token_mint, collected_from, timestamp };
    assert(r@.fields =~= fields_view(all));
    r
}

fn build_price_update(fields: Vec<Field>) -> (r: YieldMessage)
    requires
        fields_match(fields_view(fields@), schema(12u8)),
    ensures
        r@ == (MessageModel { tag: 12u8, fields: fields_view(fields@) }),
{
    let ghost all = fields@;
    let ghost tag = 12u8;
    let mut fields = fields;
    assert(field_has_kind(fields_view(all)[4], schema(tag)[4]));
    assert(fields@ =~= all.take(5));
    let oracle_source = match fields.pop() {
        Some(Field::Text(x)) => x,
        _ => unreached(),
    };
    assert(field_has_kind(fields_view(all)[3], schema(tag)[3]));
    assert(fields@ =~= all.take(4));
    let timestamp = match fields.pop() {
        Some(Field::I64(x)) => x,
        _ => unreached(),
    };
    assert(field_has_kind(fields_view(all)[2], schema(tag)[2]));
    assert(fields@ =~= all.take(3));
    let confidence = match fields.pop() {
        Some(Field::U64(x)) => x,
        _ => unreached(),
    };
    assert(field_has_kind(fields_view(all)[1], schema(tag)[1]));
    assert(fields@ =~= all.take(2));
    let price = match fields.pop() {
        Some(Field::U64(x)) => x,
        _ => unreached(),
    };
    assert(field_has_kind(fields_view(all)[0], schema(tag)[0]));
    assert(fields@ =~= all.take(1));
    let token_mint = match fields.pop() {
        Some(Field::Key(x)) => x,
        _ => unreached(),
    };
    let r = YieldMessage::PriceUpdate { token_mint, price, confidence, timestamp, oracle_source };
    assert(r@.fields =~= fields_view(all));
    r
}


/// A message is read back from its own layout, whatever follows it.
pub proof fn lemma_parse_message_round_trip(m: MessageModel, rest: Seq<u8>)
    requires
        well_formed(m),
    ensures
        parse_message(message_bytes(m) + rest) == Some((m, message_bytes(m).len() as int)),
{
    let s = message_bytes(m) + rest;
    lemma_parse_fields_round_trip(m.fields, schema(m.tag), rest);
    assert(s.skip(1) =~= fields_bytes(m.fields) + rest);
    assert(s[0] == m.tag);
}

/// What is read as a message is a well-formed message laid out as the bytes
/// it was read from.
pub proof fn lemma_parse_message_sound(s: Seq<u8>)
    requires
        parse_message(s) is Some,
    ensures
        well_formed(parse_message(s).unwrap().0),
        1 <= parse_message(s).unwrap().1 <= s.len(),
        message_bytes(parse_message(s).unwrap().0) == s.subrange(0, parse_message(s).unwrap().1),
{
    lemma_parse_fields_sound(schema(s[0]), s.skip(1));
    let (fs, n) = parse_fields(schema(s[0]), s.skip(1)).unwrap();
    assert(s.subrange(0, n + 1) =~= seq![s[0]] + s.skip(1).subrange(0, n));
}

/// No two well-formed messages share a layout, so decoding what `encode`
/// wrote gives back the message that was encoded.
pub proof fn lemma_decode_encode(m: MessageModel, d: MessageModel)
    requires
        well_formed(m),
        well_formed(d),
        message_bytes(d) == message_bytes(m),
    ensures
        d == m,
{
    lemma_parse_message_round_trip(m, Seq::empty());
    lemma_parse_message_round_trip(d, Seq::empty());
    assert(message_bytes(m) + Seq::<u8>::empty() =~= message_bytes(m));
    assert(message_bytes(d) + Seq::<u8>::empty() =~= message_bytes(d));
}

/// Reads fields of the kinds `ks` one after another from `pos`.
pub fn read_fields(b: &[u8], pos: usize, ks: &Vec<FieldKind>) -> (r: Option<(Vec<Field>, usize)>)
    requires
        pos <= b.len(),
    ensures
        match parse_fields(ks@, b@.subrange(pos as int, b@.len() as int)) {
            None => r is None,
            Some((fs, n)) => r matches Some((v, p)) && fields_view(v@) == fs && p == pos + n,
        },
{
    let ghost s0 = b@.subrange(pos as int, b@.len() as int);
    let mut acc: Vec<Field> = Vec::new();
    let mut p: usize = pos;
    let mut i: usize = 0;
    proof {
        assert(ks@.skip(0) =~= ks@);
        assert(fields_view(acc@) =~= Seq::<FieldValue>::empty());
        assert(b@.subrange(p as int, b@.len() as int) == s0);
        match parse_fields(ks@, s0) {
            Some((fs, m)) => {
                assert(Seq::<FieldValue>::empty() + fs =~= fs);
            },
            None => {},
        }
    }
    while i < ks.len()
        invariant
            0 <= i <= ks@.len(),
            pos <= p <= b@.len(),
            s0 == b@.subrange(pos as int, b@.len() as int),
            parse_fields(ks@, s0) == match parse_fields(
                ks@.skip(i as int),
                b@.subrange(p as int, b@.len() as int),
            ) {
                None => None,
                Some((fs, m)) => Some((fields_view(acc@) + fs, p - pos + m)),
            },
        decreases ks@.len() - i,
    {
        let ghost t = b@.subrange(p as int, b@.len() as int);
        let ghost rest_kinds = ks@.skip(i as int);
        assert(rest_kinds.drop_first() =~= ks@.skip(i + 1));
        assert(rest_kinds[0] == ks@[i as int]);
        match read_field(b, p, ks[i]) {
            None => {
                return None;
            },
            Some((f, q)) => {
                let ghost n = q - p;
                assert(t.skip(n) =~= b@.subrange(q as int, b@.len() as int));
                let ghost before = fields_view(acc@);
                acc.push(f);
                assert(fields_view(acc@) =~= before.push(f@));
                assert forall|fs: Seq<FieldValue>| #[trigger] (before + (seq![f@] + fs)) == fields_view(
                    acc@,
                ) + fs by {
                    assert(before + (seq![f@] + fs) =~= fields_view(acc@) + fs);
                }
                p = q;
                i += 1;
            },
        }
    }
    assert(ks@.skip(i as int) =~= Seq::<FieldKind>::empty());
    assert(fields_view(acc@) + Seq::<FieldValue>::empty() =~= fields_view(acc@));
    Some((acc, p))
}

/// Reads a message at `pos`: the message and the position after it.
pub fn read_message(b: &[u8], pos: usize) -> (r: Option<(YieldMessage, usize)>)
    requires
        pos <= b.len(),
    ensures
        match parse_message(b@.subrange(pos as int, b@.len() as int)) {
            None => r is None,
            Some((v, n)) => r matches Some((m, p)) && m@ == v && p == pos + n,
        },
{
    let ghost s = b@.subrange(pos as int, b@.len() as int);
    if pos >= b.len() {
        return None;
    }
    let tag = b[pos];
    if tag < 1 || tag > 12 {
        return None;
    }
    let kinds = schema_of(tag);
    assert(s.skip(1) =~= b@.subrange(pos + 1, b@.len() as int));
    match read_fields(b, pos + 1, &kinds) {
        None => None,
        Some((fields, p)) => {
            proof {
                lemma_parse_fields_sound(schema(tag), s.skip(1));
            }
            Some((YieldMessage::from_fields(tag, fields), p))
        },
    }
}

/// `f` fits the layout: its lengths and counts fit in 32 bits.
pub fn field_writable(f: &Field) -> (r: bool)
    ensures
        r == writable(f@),
{
    let max = u32::MAX as usize;
    match f {
        Field::Bytes(b) => b.len() <= max,
        Field::Text(t) => t.as_str().as_bytes().len() <= max,
        Field::Keys(ks) => ks.len() <= max,
        Field::Amounts(xs) => xs.len() <= max,
        Field::OptBytes(o) => match o {
            None => true,
            Some(b) => b.len() <= max,
        },
        _ => true,
    }
}

/// Appends the fields of `fs` one after another.
pub fn write_fields(out: &mut Vec<u8>, fs: &Vec<Field>)
    requires
        forall|i: int| 0 <= i < fs@.len() ==> writable(#[trigger] fs@[i]@),
    ensures
        final(out)@ == old(out)@ + fields_bytes(fields_view(fs@)),
{
    let mut i: usize = 0;
    while i < fs.len()
        invariant
            0 <= i <= fs@.len(),
            forall|i: int| 0 <= i < fs@.len() ==> writable(#[trigger] fs@[i]@),
            out@ == old(out)@ + fields_bytes(fields_view(fs@).take(i as int)),
        decreases fs@.len() - i,
    {
        let ghost before = fields_view(fs@).take(i as int);
        write_field(out, &fs[i]);
        proof {
            let one = seq![fs@[i as int]@];
            lemma_fields_bytes_append(before, one);
            assert(fields_bytes(one) =~= crate::fields::field_bytes(fs@[i as int]@) + fields_bytes(
                one.drop_first(),
            ));
            assert(fields_bytes(one.drop_first()) =~= Seq::<u8>::empty());
            assert(fields_view(fs@).take(i + 1) =~= before + one);
        }
        i += 1;
    }
    assert(fields_view(fs@).take(i as int) =~= fields_view(fs@));
}

proof fn lemma_message_kinds(m: YieldMessage)
    ensures
        1 <= m@.tag <= 12,
        m@.fields.len() == schema(m@.tag).len(),
        forall|i: int|
            0 <= i < m@.fields.len() ==> (field_has_kind(m@.fields[i], schema(m@.tag)[i])
                <==> writable(#[trigger] m@.fields[i])),
{
}

impl YieldMessage {
    /// The payload layout of the message: its type byte, then its fields.
    /// Fails only where a length or count does not fit in 32 bits.
    pub fn encode(&self) -> (r: Result<Vec<u8>, MsgCodecError>)
        ensures
            r is Ok <==> well_formed(self@),
            r matches Ok(b) ==> b@ == message_bytes(self@),
            r matches Err(e) ==> e == MsgCodecError::SerializationError,
    {
        let fields = self.to_fields();
        proof {
            lemma_message_kinds(*self);
        }
        let mut i: usize = 0;
        while i < fields.len()
            invariant
                0 <= i <= fields@.len(),
                fields_view(fields@) == self@.fields,
                forall|j: int| 0 <= j < i ==> writable(#[trigger] fields@[j]@),
            decreases fields@.len() - i,
        {
            if !field_writable(&fields[i]) {
                proof {
                    lemma_message_kinds(*self);
                }
                assert(fields_view(fields@)[i as int] == fields@[i as int]@);
                assert(!writable(self@.fields[i as int]));
                assert(!field_has_kind(self@.fields[i as int], schema(self@.tag)[i as int]));
                return Err(MsgCodecError::SerializationError);
            }
            i += 1;
        }
        assert forall|j: int| 0 <= j < self@.fields.len() implies #[trigger] field_has_kind(
            self@.fields[j],
            schema(self@.tag)[j],
        ) by {
            assert(fields_view(fields@)[j] == fields@[j]@);
            assert(writable(fields@[j]@));
        }
        let mut out: Vec<u8> = Vec::new();
        out.push(self.get_message_type());
        write_fields(&mut out, &fields);
        assert(out@ =~= message_bytes(self@));
        Ok(out)
    }

    /// The message whose payload layout is exactly `data`.
    pub fn decode(data: &[u8]) -> (r: Result<YieldMessage, MsgCodecError>)
        ensures
            r matches Ok(m) ==> well_formed(m@) && message_bytes(m@) == data@,
            r matches Err(e) ==> e == MsgCodecError::DeserializationError && forall|v: MessageModel|
                well_formed(v) ==> message_bytes(v) != data@,
    {
        let ghost s = data@.subrange(0, data@.len() as int);
        assert(s =~= data@);
        let r = read_message(data, 0);
        match r {
            Some((m, p)) => {
                if p == data.len() {
                    proof {
                        lemma_parse_message_sound(s);
                    }
                    return Ok(m);
                }
            },
            None => {},
        }
        assert forall|v: MessageModel| well_formed(v) implies message_bytes(v) != data@ by {
            if message_bytes(v) == data@ {
                lemma_parse_message_round_trip(v, Seq::empty());
                assert(message_bytes(v) + Seq::<u8>::empty() =~= data@);
            }
        }
        Err(MsgCodecError::DeserializationError)
    }
}

/// The fixed header in front of a payload.
#[derive(Clone, Copy, Debug)]
pub struct MessageHeader {
    pub msg_type: u8,
    pub version: u32,
    pub message_id: [u8; 32],
    pub payload_length: u32,
}

/// A message with its header and envelope fields.
#[derive(Debug)]
pub struct CrossChainMessage {
    pub header: MessageHeader,
    pub payload: YieldMessage,
    pub nonce: u64,
    pub timestamp: i64,
    pub signature: Option<Vec<u8>>,
}

pub struct EnvelopeModel {
    pub header: MessageHeader,
    pub payload: MessageModel,
    pub nonce: u64,
    pub timestamp: i64,
    pub signature: Option<Seq<u8>>,
}

impl View for CrossChainMessage {
    type V = EnvelopeModel;

    open spec fn view(&self) -> EnvelopeModel {
        EnvelopeModel {
            header: self.header,
            payload: self.payload@,
            nonce: self.nonce,
            timestamp: self.timestamp,
            signature: opt_bytes_view(self.signature),
        }
    }
}

/// The header layout: type byte, big-endian version, 32-byte id, big-endian
/// payload length; 41 bytes.
pub open spec fn header_bytes(h: MessageHeader) -> Seq<u8> {
    seq![h.msg_type] + be_u32(h.version) + h.message_id@ + be_u32(h.payload_length)
}

pub open spec fn tail_kinds() -> Seq<FieldKind> {
    seq![FieldKind::U64, FieldKind::I64, FieldKind::OptBytes]
}

/// The envelope fields that follow the payload: nonce, timestamp, signature.
pub open spec fn envelope_tail(e: EnvelopeModel) -> Seq<FieldValue> {
    seq![FieldValue::U64(e.nonce), FieldValue::I64(e.timestamp), FieldValue::OptBytes(e.signature)]
}

/// An envelope the layout can hold.
pub open spec fn envelope_well_formed(e: EnvelopeModel) -> bool {
    &&& well_formed(e.payload)
    &&& fields_match(envelope_tail(e), tail_kinds())
}

/// The layout of an envelope: header, payload, nonce, timestamp, signature.
pub open spec fn envelope_bytes(e: EnvelopeModel) -> Seq<u8> {
    header_bytes(e.header) + message_bytes(e.payload) + fields_bytes(envelope_tail(e))
}

/// The envelope in which `m` is sent: current version, the payload's type
/// and length in the header, stamped `now`, unsigned.
pub open spec fn outgoing_envelope(m: MessageModel, message_id: [u8; 32], nonce: u64, now: i64) -> EnvelopeModel {
    EnvelopeModel {
        header: MessageHeader {
            msg_type: m.tag,
            version: PROTOCOL_VERSION,
            message_id,
            payload_length: message_bytes(m).len() as u32,
        },
        payload: m,
        nonce,
        timestamp: now,
        signature: None,
    }
}

/// The outcome of checking an envelope's header at time `now`.
pub open spec fn header_check(e: EnvelopeModel, now: i64) -> Result<(), MsgCodecError> {
    if e.header.version != PROTOCOL_VERSION {
        Err(MsgCodecError::UnsupportedVersion)
    } else if e.header.msg_type != e.payload.tag {
        Err(MsgCodecError::UnsupportedMessageType)
    } else if e.timestamp < now - MAX_MESSAGE_AGE || e.timestamp > now + MAX_CLOCK_SKEW {
        Err(MsgCodecError::TimestampOutOfWindow)
    } else {
        Ok(())
    }
}

/// A header check refuses an envelope of another version, one whose type
/// byte does not name its payload's type, and one stamped more than an hour
/// before or more than five minutes after `now`; it accepts every other.
pub proof fn lemma_header_rejections(e: EnvelopeModel, now: i64)
    ensures
        e.header.version != PROTOCOL_VERSION ==> header_check(e, now) == Err::<(), MsgCodecError>(
            MsgCodecError::UnsupportedVersion,
        ),
        e.header.version == PROTOCOL_VERSION && e.header.msg_type != e.payload.tag
            ==> header_check(e, now) == Err::<(), MsgCodecError>(
            MsgCodecError::UnsupportedMessageType,
        ),
        e.timestamp < now - 3600 || e.timestamp > now + 300 ==> header_check(e, now) is Err,
        header_check(e, now) is Ok <==> (e.header.version == PROTOCOL_VERSION && e.header.msg_type
            == e.payload.tag && now - 3600 <= e.timestamp <= now + 300),
{
}

/// What a message id is computed from: nonce and timestamp (little-endian),
/// the type byte, then the payload layout where there is one.
pub open spec fn id_input(e: EnvelopeModel) -> Seq<u8> {
    le_u64(e.nonce) + le_i64(e.timestamp) + seq![e.header.msg_type] + if well_formed(e.payload) {
        message_bytes(e.payload)
    } else {
        Seq::empty()
    }
}

/// The Keccak-256 digest of `data`.
pub uninterp spec fn keccak_of(data: Seq<u8>) -> Seq<u8>;

/// Relies on solana_program::keccak::hash (reached through anchor_lang): the
/// Keccak-256 digest of the input, which depends on the input alone.
#[verifier::external_body]
fn keccak256(data: &[u8]) -> (r: [u8; 32])
    ensures
        r@ == keccak_of(data@),
{
    anchor_lang::solana_program::keccak::hash(data).to_bytes()
}

fn tail_kinds_of() -> (r: Vec<FieldKind>)
    ensures
        r@ == tail_kinds(),
{
    let mut r: Vec<FieldKind> = Vec::new();
    r.push(FieldKind::U64);
    r.push(FieldKind::I64);
    r.push(FieldKind::OptBytes);
    assert(r@ =~= tail_kinds());
    r
}

proof fn lemma_envelope_layout(e: EnvelopeModel)
    requires
        envelope_well_formed(e),
    ensures
        envelope_bytes(e).len() == 41 + message_bytes(e.payload).len() + fields_bytes(
            envelope_tail(e),
        ).len(),
        parse_message(envelope_bytes(e).skip(41)) == Some(
            (e.payload, message_bytes(e.payload).len() as int),
        ),
        parse_fields(
            tail_kinds(),
            envelope_bytes(e).skip(41 + message_bytes(e.payload).len() as int),
        ) == Some((envelope_tail(e), fields_bytes(envelope_tail(e)).len() as int)),
{
    let b = envelope_bytes(e);
    let mb = message_bytes(e.payload);
    let tb = fields_bytes(envelope_tail(e));
    assert(header_bytes(e.header).len() == 41);
    assert(b.skip(41) =~= mb + tb);
    lemma_parse_message_round_trip(e.payload, tb);
    assert(b.skip(41 + mb.len() as int) =~= tb + Seq::<u8>::empty());
    lemma_parse_fields_round_trip(envelope_tail(e), tail_kinds(), Seq::empty());
}

/// No two well-formed envelopes share a layout, so decoding what
/// `encode_with_header` wrote gives back the envelope that was encoded.
pub proof fn lemma_envelope_decode_encode(e: EnvelopeModel, d: EnvelopeModel)
    requires
        envelope_well_formed(e),
        envelope_well_formed(d),
        envelope_bytes(d) == envelope_bytes(e),
    ensures
        d == e,
{
    let b = envelope_bytes(e);
    lemma_envelope_layout(e);
    lemma_envelope_layout(d);
    assert(d.payload == e.payload);
    assert(envelope_tail(d) == envelope_tail(e));
    assert(envelope_tail(d)[0] == envelope_tail(e)[0]);
    assert(envelope_tail(d)[1] == envelope_tail(e)[1]);
    assert(envelope_tail(d)[2] == envelope_tail(e)[2]);
    let he = header_bytes(e.header);
    let hd = header_bytes(d.header);
    assert(b.subrange(0, 41) =~= he);
    assert(b.subrange(0, 41) =~= hd);
    assert(he =~= hd);
    assert(he.subrange(1, 5) =~= be_u32(e.header.version));
    assert(hd.subrange(1, 5) =~= be_u32(d.header.version));
    assert(he.subrange(37, 41) =~= be_u32(e.header.payload_length));
    assert(hd.subrange(37, 41) =~= be_u32(d.header.payload_length));
    lemma_be_u32_round_trip(e.header.version);
    lemma_be_u32_round_trip(d.header.version);
    lemma_be_u32_round_trip(e.header.payload_length);
    lemma_be_u32_round_trip(d.header.payload_length);
    assert(he.subrange(5, 37) =~= e.header.message_id@);
    assert(hd.subrange(5, 37) =~= d.header.message_id@);
    assert(e.header.message_id =~= d.header.message_id);
    assert(he[0] == e.header.msg_type && hd[0] == d.header.msg_type);
}

fn parse_envelope(data: &[u8]) -> (r: Option<CrossChainMessage>)
    requires
        data.len() >= 41,
    ensures
        r matches Some(c) ==> envelope_well_formed(c@) && envelope_bytes(c@) == data@,
        r is None ==> forall|e: EnvelopeModel|
            envelope_well_formed(e) ==> envelope_bytes(e) != data@,
{
    let msg_type = data[0];
    let version = read_u32_be(data, 1);
    let message_id = read_key(data, 5).bytes;
    let payload_length = read_u32_be(data, 37);
    let header = MessageHeader { msg_type, version, message_id, payload_length };
    assert(header_bytes(header) =~= data@.subrange(0, 41));
    let ghost s = data@.subrange(41, data@.len() as int);
    assert(s =~= data@.skip(41));
    if let Some((payload, p)) = read_message(data, 41) {
        proof {
            lemma_parse_message_sound(s);
        }
        let kinds = tail_kinds_of();
        if let Some((tail, q)) = read_fields(data, p, &kinds) {
            if q == data.len() {
                proof {
                    lemma_parse_message_sound(s);
                    lemma_parse_fields_sound(tail_kinds(), data@.subrange(p as int, data@.len() as int));
                }
                let ghost tv = fields_view(tail@);
                assert(field_has_kind(tv[2], tail_kinds()[2]));
                assert(field_has_kind(tv[1], tail_kinds()[1]));
                assert(field_has_kind(tv[0], tail_kinds()[0]));
                let mut tail = tail;
                let signature = match tail.pop() {
                    Some(Field::OptBytes(x)) => x,
                    _ => unreached(),
                };
                let timestamp = match tail.pop() {
                    Some(Field::I64(x)) => x,
                    _ => unreached(),
                };
                let nonce = match tail.pop() {
                    Some(Field::U64(x)) => x,
                    _ => unreached(),
                };
                let c = CrossChainMessage { header, payload, nonce, timestamp, signature };
                assert(envelope_tail(c@) =~= tv);
                assert(envelope_bytes(c@) =~= data@);
                return Some(c);
            }
        }
    }
    assert forall|e: EnvelopeModel| envelope_well_formed(e) implies envelope_bytes(e) != data@ by {
        if envelope_bytes(e) == data@ {
            lemma_envelope_layout(e);
        }
    }
    None
}

impl YieldMessage {
    /// The message in its envelope: header (current version, the payload's
    /// type and length, `message_id`), payload, `nonce`, timestamp `now`, and
    /// no signature. Fails only where the payload cannot be laid out.
    pub fn encode_with_header(&self, message_id: [u8; 32], nonce: u64, now: i64) -> (r: Result<
        Vec<u8>,
        MsgCodecError,
    >)
        ensures
            r is Ok <==> well_formed(self@) && message_bytes(self@).len() <= u32::MAX,
            r matches Ok(b) ==> b@ == envelope_bytes(
                outgoing_envelope(self@, message_id, nonce, now),
            ),
            r matches Err(e) ==> e == MsgCodecError::SerializationError,
    {
        let payload = match self.encode() {
            Ok(p) => p,
            Err(_) => return Err(MsgCodecError::SerializationError),
        };
        if payload.len() > u32::MAX as usize {
            return Err(MsgCodecError::SerializationError);
        }
        let mut out: Vec<u8> = Vec::new();
        out.push(self.get_message_type());
        push_u32_be(&mut out, PROTOCOL_VERSION);
        push_slice(&mut out, message_id.as_slice());
        push_u32_be(&mut out, payload.len() as u32);
        push_slice(&mut out, payload.as_slice());
        let mut tail: Vec<Field> = Vec::new();
        tail.push(Field::U64(nonce));
        tail.push(Field::I64(now));
        tail.push(Field::OptBytes(None));
        let ghost e = outgoing_envelope(self@, message_id, nonce, now);
        assert(fields_view(tail@) =~= envelope_tail(e));
        write_fields(&mut out, &tail);
        assert(out@ =~= envelope_bytes(e));
        Ok(out)
    }

    /// The envelope laid out as exactly `data`; `InvalidLength` where `data`
    /// is shorter than the fixed header.
    pub fn decode_with_header(data: &[u8]) -> (r: Result<CrossChainMessage, MsgCodecError>)
        ensures
            r matches Err(MsgCodecError::InvalidLength) <==> data@.len() < PAYLOAD_OFFSET,
            r matches Ok(c) ==> envelope_well_formed(c@) && envelope_bytes(c@) == data@,
            r matches Err(e) ==> (e == MsgCodecError::InvalidLength || e
                == MsgCodecError::DeserializationError),
            r matches Err(MsgCodecError::DeserializationError) ==> forall|e: EnvelopeModel|
                envelope_well_formed(e) ==> envelope_bytes(e) != data@,
    {
        if data.len() < PAYLOAD_OFFSET {
            return Err(MsgCodecError::InvalidLength);
        }
        match parse_envelope(data) {
            Some(c) => Ok(c),
            None => Err(MsgCodecError::DeserializationError),
        }
    }
}

impl CrossChainMessage {
    /// Checks the header at time `now`: the version, the type byte against
    /// the payload, and the timestamp within an hour back and five minutes
    /// ahead.
    pub fn validate_header(&self, now: i64) -> (r: Result<(), MsgCodecError>)
        ensures
            r == header_check(self@, now),
    {
        if self.header.version != PROTOCOL_VERSION {
            return Err(MsgCodecError::UnsupportedVersion);
        }
        if self.header.msg_type != self.payload.get_message_type() {
            return Err(MsgCodecError::UnsupportedMessageType);
        }
        let ts = self.timestamp as i128;
        let t = now as i128;
        if ts < t - MAX_MESSAGE_AGE as i128 || ts > t + MAX_CLOCK_SKEW as i128 {
            return Err(MsgCodecError::TimestampOutOfWindow);
        }
        Ok(())
    }

    /// The bytes a message id is digested from.
    pub fn message_id_input(&self) -> (r: Vec<u8>)
        ensures
            r@ == id_input(self@),
    {
        let mut out: Vec<u8> = Vec::new();
        push_u64_le(&mut out, self.nonce);
        push_i64_le(&mut out, self.timestamp);
        out.push(self.header.msg_type);
        match self.payload.encode() {
            Ok(p) => push_slice(&mut out, p.as_slice()),
            Err(_) => {},
        }
        assert(out@ =~= id_input(self@));
        out
    }

    /// The content-addressed id of the envelope: the Keccak-256 digest of
    /// its nonce, timestamp, type byte and payload.
    pub fn generate_message_id(&self) -> (r: [u8; 32])
        ensures
            r@ == keccak_of(id_input(self@)),
    {
        let input = self.message_id_input();
        keccak256(input.as_slice())
    }
}

/// The outcome of the content checks of `m` at time `now`: amounts above
/// zero, APYs and slippage within their ceilings, deadlines not passed,
/// scores within their scales. The first failed check names the error.
pub open spec fn validation(m: YieldMessage, now: i64) -> Result<(), ValidationError> {
    match m {
        YieldMessage::DepositRequest { amount, min_apy, slippage_tolerance, deadline, .. } => {
            if amount == 0 {
                Err(ValidationError::ZeroAmount)
            } else if min_apy > MAX_APY_BPS {
                Err(ValidationError::ApyTooHigh)
            } else if slippage_tolerance > MAX_SLIPPAGE_BPS {
                Err(ValidationError::SlippageTooHigh)
            } else if deadline < now {
                Err(ValidationError::DeadlinePassed)
            } else {
                Ok(())
            }
        },
        YieldMessage::WithdrawRequest { amount, deadline, .. } => {
            if amount == 0 {
                Err(ValidationError::ZeroAmount)
            } else if deadline < now {
                Err(ValidationError::DeadlinePassed)
            } else {
                Ok(())
            }
        },
        YieldMessage::RebalanceRequest { amount, min_output_amount, deadline, .. } => {
            if amount == 0 {
                Err(ValidationError::ZeroAmount)
            } else if min_output_amount > amount {
                Err(ValidationError::OutputExceedsAmount)
            } else if deadline < now {
                Err(ValidationError::DeadlinePassed)
            } else {
                Ok(())
            }
        },
        YieldMessage::YieldUpdate { new_apy, risk_score, .. } => {
            if new_apy > MAX_APY_BPS {
                Err(ValidationError::ApyTooHigh)
            } else if risk_score > MAX_UPDATE_RISK_SCORE {
                Err(ValidationError::RiskScoreOutOfRange)
            } else {
                Ok(())
            }
        },
        YieldMessage::PositionSync { position_health, .. } => {
            if position_health > MAX_POSITION_HEALTH {
                Err(ValidationError::HealthOutOfRange)
            } else {
                Ok(())
            }
        },
        _ => Ok(()),
    }
}

impl YieldMessage {
    /// Checks the content of the message at time `now`.
    pub fn validate(&self, now: i64) -> (r: Result<(), ValidationError>)
        ensures
            r == validation(*self, now),
    {
        match self {
            YieldMessage::DepositRequest { amount, min_apy, slippage_tolerance, deadline, .. } => {
                if *amount == 0 {
                    return Err(ValidationError::ZeroAmount);
                }
                if *min_apy > MAX_APY_BPS {
                    return Err(ValidationError::ApyTooHigh);
                }
                if *slippage_tolerance > MAX_SLIPPAGE_BPS {
                    return Err(ValidationError::SlippageTooHigh);
                }
                if *deadline < now {
                    return Err(ValidationError::DeadlinePassed);
                }
            },
            YieldMessage::WithdrawRequest { amount, deadline, .. } => {
                if *amount == 0 {
                    return Err(ValidationError::ZeroAmount);
                }
                if *deadline < now {
                    return Err(ValidationError::DeadlinePassed);
                }
            },
            YieldMessage::RebalanceRequest { amount, min_output_amount, deadline, .. } => {
                if *amount == 0 {
                    return Err(ValidationError::ZeroAmount);
                }
                if *min_output_amount > *amount {
                    return Err(ValidationError::OutputExceedsAmount);
                }
                if *deadline < now {
                    return Err(ValidationError::DeadlinePassed);
                }
            },
            YieldMessage::YieldUpdate { new_apy, risk_score, .. } => {
                if *new_apy > MAX_APY_BPS {
                    return Err(ValidationError::ApyTooHigh);
                }
                if *risk_score > MAX_UPDATE_RISK_SCORE {
                    return Err(ValidationError::RiskScoreOutOfRange);
                }
            },
            YieldMessage::PositionSync { position_health, .. } => {
                if *position_health > MAX_POSITION_HEALTH {
                    return Err(ValidationError::HealthOutOfRange);
                }
            },
            _ => {},
        }
        Ok(())
    }
}

/// The legacy layout of a text: 28 zero bytes, the UTF-8 length as four
/// big-endian bytes, then the UTF-8 bytes.
pub open spec fn legacy_frame(t: Seq<char>) -> Seq<u8> {
    Seq::new(28, |i: int| 0u8) + be_u32(encode_utf8(t).len() as u32) + encode_utf8(t)
}

/// The length a legacy header announces: its last four bytes, big-endian.
pub open spec fn legacy_len(d: Seq<u8>) -> u32 {
    u32_of_le(d[31], d[30], d[29], d[28])
}

/// What decoding `d` in the legacy layout gives.
pub open spec fn legacy_decoded(d: Seq<u8>) -> Result<Seq<char>, MsgCodecError> {
    if d.len() < 32 {
        Err(MsgCodecError::InvalidLength)
    } else if 32 + legacy_len(d) > d.len() {
        Err(MsgCodecError::BodyTooShort)
    } else if !valid_utf8(d.subrange(32, 32 + legacy_len(d))) {
        Err(MsgCodecError::InvalidUtf8)
    } else {
        Ok(decode_utf8(d.subrange(32, 32 + legacy_len(d))))
    }
}

/// A text laid out in the legacy layout decodes to itself.
pub proof fn lemma_legacy_round_trip(t: Seq<char>)
    requires
        encode_utf8(t).len() <= u32::MAX,
    ensures
        legacy_decoded(legacy_frame(t)) == Ok::<Seq<char>, MsgCodecError>(t),
{
    let e = encode_utf8(t);
    let f = legacy_frame(t);
    let n = e.len() as u32;
    lemma_be_u32_round_trip(n);
    assert(f[28] == be_u32(n)[0] && f[29] == be_u32(n)[1] && f[30] == be_u32(n)[2] && f[31]
        == be_u32(n)[3]);
    assert(legacy_len(f) == n);
    assert(f.subrange(32, 32 + e.len() as int) =~= e);
    encode_utf8_valid_utf8(t);
    encode_utf8_decode_utf8(t);
}

/// Legacy encoding of a text: 28 zero bytes, its UTF-8 length as four
/// big-endian bytes, then its UTF-8 bytes.
pub fn encode(string: &str) -> (r: Vec<u8>)
    requires
        encode_utf8(string@).len() <= u32::MAX,
    ensures
        r@ == legacy_frame(string@),
{
    let bytes = string.as_bytes();
    let mut msg: Vec<u8> = Vec::new();
    let mut i: usize = 0;
    while i < 28
        invariant
            0 <= i <= 28,
            msg@ == Seq::new(i as nat, |j: int| 0u8),
        decreases 28 - i,
    {
        msg.push(0u8);
        i += 1;
        assert(msg@ =~= Seq::new(i as nat, |j: int| 0u8));
    }
    push_u32_be(&mut msg, bytes.len() as u32);
    push_slice(&mut msg, bytes);
    assert(msg@ =~= legacy_frame(string@));
    msg
}

/// Legacy decoding: the text after the 32-byte header, of the length the
/// header announces.
pub fn decode(message: &[u8]) -> (r: Result<String, MsgCodecError>)
    ensures
        match legacy_decoded(message@) {
            Ok(t) => r matches Ok(s) && s@ == t,
            Err(e) => r == Err::<String, MsgCodecError>(e),
        },
{
    if message.len() < STRING_PAYLOAD_OFFSET {
        return Err(MsgCodecError::InvalidLength);
    }
    let n = read_u32_be(message, 28);
    proof {
        lemma_be_u32_round_trip(n);
        let d = message@;
        assert(d.subrange(28, 32)[0] == d[28]);
        assert(legacy_len(d) == u32_of_le(be_u32(n)[3], be_u32(n)[2], be_u32(n)[1], be_u32(n)[0]));
    }
    let start: usize = STRING_PAYLOAD_OFFSET;
    let end = match start.checked_add(n as usize) {
        Some(e) => e,
        None => return Err(MsgCodecError::BodyTooShort),
    };
    if end > message.len() {
        return Err(MsgCodecError::BodyTooShort);
    }
    let payload = &message[start..end];
    match utf8_text(payload) {
        Some(s) => Ok(s),
        None => Err(MsgCodecError::InvalidUtf8),
    }
}

/// Deposit, withdraw, rebalance and governance messages go to the position ledger.
pub fn is_user_message(msg_type: u8) -> (r: bool)
    ensures
        r == (msg_type == 1 || msg_type == 2 || msg_type == 3 || msg_type == 9),
{
    msg_type == 1 || msg_type == 2 || msg_type == 3 || msg_type == 9
}

/// Rate updates, distributions, emergency actions, configuration and fee
/// messages go to the protocol registry.
pub fn is_protocol_message(msg_type: u8) -> (r: bool)
    ensures
        r == (msg_type == 4 || msg_type == 6 || msg_type == 7 || msg_type == 8 || msg_type == 11),
{
    msg_type == 4 || msg_type == 6 || msg_type == 7 || msg_type == 8 || msg_type == 11
}

/// Position syncs, liquidations and prices go to the aggregator.
pub fn is_system_message(msg_type: u8) -> (r: bool)
    ensures
        r == (msg_type == 5 || msg_type == 10 || msg_type == 12),
{
    msg_type == 5 || msg_type == 10 || msg_type == 12
}

/// Where a decoded message is routed: user actions to the position ledger,
/// protocol news to the registry, system notices to the aggregator.
#[derive(Clone, Copy, Debug, PartialEq, Eq, Structural)]
pub enum MessageCategory {
    User,
    Protocol,
    System,
}

/// The category of a message type byte, if it names a message type.
pub open spec fn category_spec(msg_type: u8) -> Option<MessageCategory> {
    if msg_type == 1 || msg_type == 2 || msg_type == 3 || msg_type == 9 {
        Some(MessageCategory::User)
    } else if msg_type == 4 || msg_type == 6 || msg_type == 7 || msg_type == 8 || msg_type == 11 {
        Some(MessageCategory::Protocol)
    } else if msg_type == 5 || msg_type == 10 || msg_type == 12 {
        Some(MessageCategory::System)
    } else {
        None
    }
}

impl YieldMessage {
    /// Where the message is routed.
    pub fn category(&self) -> (r: MessageCategory)
        ensures
            category_spec(self@.tag) == Some(r),
    {
        match self {
            YieldMessage::DepositRequest { .. } => MessageCategory::User,
            YieldMessage::WithdrawRequest { .. } => MessageCategory::User,
            YieldMessage::RebalanceRequest { .. } => MessageCategory::User,
            YieldMessage::GovernanceVote { .. } => MessageCategory::User,
            YieldMessage::YieldUpdate { .. } => MessageCategory::Protocol,
            YieldMessage::YieldDistribution { .. } => MessageCategory::Protocol,
            YieldMessage::EmergencyAction { .. } => MessageCategory::Protocol,
            YieldMessage::ProtocolConfig { .. } => MessageCategory::Protocol,
            YieldMessage::FeeCollection { .. } => MessageCategory::Protocol,
            YieldMessage::PositionSync { .. } => MessageCategory::System,
            YieldMessage::LiquidationNotice { .. } => MessageCategory::System,
            YieldMessage::PriceUpdate { .. } => MessageCategory::System,
        }
    }
}

/// Why an inbound message was rejected.
#[derive(Clone, Copy, Debug, PartialEq, Eq, Structural)]
pub enum Rejection {
    /// It did not decode, or its header failed the checks.
    Codec(MsgCodecError),
    /// Its content failed the checks of its type.
    Invalid(ValidationError),
}

/// Takes in an inbound envelope at time `now`: decodes it, checks its
/// header, then checks its content. What passes is ready to be applied;
/// what fails is rejected with the first error met, and nothing is applied.
pub fn accept_inbound(data: &[u8], now: i64) -> (r: Result<CrossChainMessage, Rejection>)
    ensures
        data@.len() < PAYLOAD_OFFSET ==> r == Err::<CrossChainMessage, Rejection>(
            Rejection::Codec(MsgCodecError::InvalidLength),
        ),
        r matches Err(Rejection::Codec(MsgCodecError::InvalidLength)) ==> data@.len()
            < PAYLOAD_OFFSET,
        r matches Ok(c) ==> envelope_well_formed(c@) && envelope_bytes(c@) == data@ && header_check(
            c@,
            now,
        ) is Ok && validation(c.payload, now) is Ok,
        r == Err::<CrossChainMessage, Rejection>(Rejection::Codec(MsgCodecError::DeserializationError))
            ==> forall|e: EnvelopeModel| envelope_well_formed(e) ==> envelope_bytes(e) != data@,
        r matches Err(Rejection::Codec(e)) ==> e == MsgCodecError::InvalidLength || e
            == MsgCodecError::DeserializationError || exists|c: EnvelopeModel|
            envelope_well_formed(c) && envelope_bytes(c) == data@ && header_check(c, now)
                == Err::<(), MsgCodecError>(e),
        r matches Err(Rejection::Invalid(v)) ==> exists|m: YieldMessage, c: EnvelopeModel|
            envelope_well_formed(c) && envelope_bytes(c) == data@ && c.payload == m@ && header_check(
                c,
                now,
            ) is Ok && validation(m, now) == Err::<(), ValidationError>(v),
{
    let c = match YieldMessage::decode_with_header(data) {
        Ok(c) => c,
        Err(e) => return Err(Rejection::Codec(e)),
    };
    match c.validate_header(now) {
        Ok(()) => {},
        Err(e) => return Err(Rejection::Codec(e)),
    }
    match c.payload.validate(now) {
        Ok(()) => Ok(c),
        Err(v) => {
            assert(c@.payload == c.payload@);
            Err(Rejection::Invalid(v))
        },
    }
}

} // verus!
