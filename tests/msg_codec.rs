use my_oapp::errors::{MsgCodecError, ValidationError};
use my_oapp::msg_codec::{
    accept_inbound, decode, encode, MessageCategory, Rejection, is_protocol_message, is_system_message, is_user_message, CrossChainMessage,
    EmergencyActionType, FeeType, MessageHeader, ProtocolConfigType, YieldMessage,
    PAYLOAD_OFFSET, PROTOCOL_VERSION,
};
use my_oapp::pubkey::Pubkey;

fn key(b: u8) -> Pubkey {
    Pubkey::new_from_array([b; 32])
}

fn unique_key() -> Pubkey {
    Pubkey::new_from_array(anchor_lang::prelude::Pubkey::new_unique().to_bytes())
}

fn all_messages() -> Vec<YieldMessage> {
    vec![
        YieldMessage::DepositRequest {
            user: key(1),
            amount: 1_000_000,
            token_mint: key(2),
            target_protocol_id: 7,
            min_apy: 500,
            slippage_tolerance: 100,
            deadline: -5,
            referrer: Some(key(3)),
        },
        YieldMessage::WithdrawRequest {
            user: key(4),
            amount: u64::MAX,
            token_mint: key(5),
            protocol_id: 0,
            target_chain_id: 40168,
            destination_address: vec![9, 8, 7],
            withdraw_yield: true,
            deadline: i64::MAX,
        },
        YieldMessage::RebalanceRequest {
            user: key(6),
            from_protocol_id: 1,
            to_protocol_id: 2,
            amount: 3,
            target_chain_id: u32::MAX,
            min_output_amount: 2,
            deadline: i64::MIN,
        },
        YieldMessage::YieldUpdate {
            protocol_id: 11,
            protocol_name: "marinade \u{00e9}\u{1F600}".to_string(),
            new_apy: 850,
            tvl: 123,
            available_capacity: 456,
            risk_score: 3,
            last_harvest_time: 1_700_000_000,
            update_timestamp: 1_700_000_100,
        },
        YieldMessage::PositionSync {
            user: key(7),
            protocol_id: 12,
            principal_amount: 13,
            yield_earned: 14,
            total_shares: 15,
            last_compound_time: 16,
            position_health: 100,
            sync_timestamp: 17,
        },
        YieldMessage::YieldDistribution {
            protocol_id: 18,
            total_yield: 19,
            distribution_rate: 20,
            eligible_users: vec![key(8), key(9)],
            per_user_yield: vec![1, 2, 3],
            distribution_timestamp: 21,
        },
        YieldMessage::EmergencyAction {
            action_type: EmergencyActionType::HaltDeposits,
            protocol_id: Some(22),
            reason: "oracle failure".to_string(),
            initiated_by: key(10),
            timestamp: 23,
        },
        YieldMessage::ProtocolConfig {
            protocol_id: 24,
            config_type: ProtocolConfigType::RebalanceThresholds,
            config_data: vec![],
            effective_timestamp: 25,
        },
        YieldMessage::GovernanceVote {
            proposal_id: 26,
            voter: key(11),
            vote_weight: 27,
            vote_choice: false,
            voting_power: 28,
            timestamp: 29,
        },
        YieldMessage::LiquidationNotice {
            user: key(12),
            protocol_id: 30,
            liquidated_amount: 31,
            liquidation_penalty: 32,
            liquidator: key(13),
            timestamp: 33,
        },
        YieldMessage::FeeCollection {
            protocol_id: 34,
            fee_type: FeeType::Deposit,
            amount: 35,
            token_mint: key(14),
            collected_from: vec![],
            timestamp: 36,
        },
        YieldMessage::PriceUpdate {
            token_mint: key(15),
            price: 37,
            confidence: 38,
            timestamp: 39,
            oracle_source: String::new(),
        },
    ]
}

#[test]
fn test_legacy_string_encoding() {
    let test_string = "Hello, World!";
    let encoded = encode(test_string);
    let decoded = decode(&encoded).unwrap();
    assert_eq!(test_string, decoded);
}

#[test]
fn test_message_encoding_decoding() {
    let message = YieldMessage::DepositRequest {
        user: unique_key(),
        amount: 1000000,
        token_mint: unique_key(),
        target_protocol_id: 1,
        min_apy: 500,
        slippage_tolerance: 100,
        deadline: 1672531200,
        referrer: None,
    };

    let encoded = message.encode().unwrap();
    let decoded = YieldMessage::decode(&encoded).unwrap();

    assert_eq!(message, decoded);
}

#[test]
fn every_message_shape_round_trips() {
    for (i, m) in all_messages().into_iter().enumerate() {
        assert_eq!(m.get_message_type() as usize, i + 1);
        let bytes = m.encode().unwrap();
        assert_eq!(bytes[0] as usize, i + 1);
        assert_eq!(YieldMessage::decode(&bytes).unwrap(), m);
    }
}

#[test]
fn governance_vote_layout_is_exact() {
    let m = YieldMessage::GovernanceVote {
        proposal_id: 0x0102,
        voter: key(0xAA),
        vote_weight: 1,
        vote_choice: true,
        voting_power: 2,
        timestamp: -1,
    };
    let mut expected = vec![9u8];
    expected.extend_from_slice(&0x0102u64.to_le_bytes());
    expected.extend_from_slice(&[0xAA; 32]);
    expected.extend_from_slice(&1u64.to_le_bytes());
    expected.push(1);
    expected.extend_from_slice(&2u64.to_le_bytes());
    expected.extend_from_slice(&[0xFF; 8]);
    assert_eq!(m.encode().unwrap(), expected);
}

#[test]
fn text_and_lists_carry_length_prefixes() {
    let m = YieldMessage::PriceUpdate {
        token_mint: key(1),
        price: 0,
        confidence: 0,
        timestamp: 0,
        oracle_source: "ab".to_string(),
    };
    let bytes = m.encode().unwrap();
    assert_eq!(bytes.len(), 1 + 32 + 24 + 4 + 2);
    assert_eq!(&bytes[57..], &[2, 0, 0, 0, b'a', b'b']);

    let d = YieldMessage::YieldDistribution {
        protocol_id: 0,
        total_yield: 0,
        distribution_rate: 0,
        eligible_users: vec![key(3)],
        per_user_yield: vec![5, 6],
        distribution_timestamp: 0,
    };
    let bytes = d.encode().unwrap();
    assert_eq!(&bytes[25..29], &[1, 0, 0, 0]);
    assert_eq!(&bytes[29..61], &[3; 32]);
    assert_eq!(&bytes[61..65], &[2, 0, 0, 0]);
    assert_eq!(&bytes[65..73], &5u64.to_le_bytes());
}

#[test]
fn decode_rejects_malformed_input() {
    let good = all_messages()[8].encode().unwrap();
    assert_eq!(YieldMessage::decode(&[]), Err(MsgCodecError::DeserializationError));
    let mut long = good.clone();
    long.push(0);
    assert_eq!(YieldMessage::decode(&long), Err(MsgCodecError::DeserializationError));
    assert_eq!(
        YieldMessage::decode(&good[..good.len() - 1]),
        Err(MsgCodecError::DeserializationError)
    );
    let mut bad_tag = good.clone();
    bad_tag[0] = 0;
    assert_eq!(YieldMessage::decode(&bad_tag), Err(MsgCodecError::DeserializationError));
    bad_tag[0] = 13;
    assert_eq!(YieldMessage::decode(&bad_tag), Err(MsgCodecError::DeserializationError));
    let mut bad_bool = good.clone();
    bad_bool[1 + 8 + 32 + 8] = 2;
    assert_eq!(YieldMessage::decode(&bad_bool), Err(MsgCodecError::DeserializationError));
}

#[test]
fn decode_rejects_bad_choice_and_bad_text() {
    let m = YieldMessage::ProtocolConfig {
        protocol_id: 1,
        config_type: ProtocolConfigType::YieldRate,
        config_data: vec![1],
        effective_timestamp: 2,
    };
    let mut bytes = m.encode().unwrap();
    bytes[9] = 5;
    assert_eq!(YieldMessage::decode(&bytes), Err(MsgCodecError::DeserializationError));

    let p = YieldMessage::PriceUpdate {
        token_mint: key(1),
        price: 0,
        confidence: 0,
        timestamp: 0,
        oracle_source: "ab".to_string(),
    };
    let mut bytes = p.encode().unwrap();
    let n = bytes.len();
    bytes[n - 1] = 0xFF;
    assert_eq!(YieldMessage::decode(&bytes), Err(MsgCodecError::DeserializationError));
}

#[test]
fn envelope_round_trips_with_header() {
    let now = 1_700_000_000;
    for m in all_messages() {
        let payload = m.encode().unwrap();
        let bytes = m.encode_with_header([7u8; 32], 42, now).unwrap();
        assert_eq!(bytes[0], m.get_message_type());
        assert_eq!(&bytes[1..5], &PROTOCOL_VERSION.to_be_bytes());
        assert_eq!(&bytes[5..37], &[7u8; 32]);
        assert_eq!(&bytes[37..41], &(payload.len() as u32).to_be_bytes());
        assert_eq!(&bytes[41..41 + payload.len()], &payload[..]);
        let c = YieldMessage::decode_with_header(&bytes).unwrap();
        assert_eq!(c.header.msg_type, m.get_message_type());
        assert_eq!(c.header.version, PROTOCOL_VERSION);
        assert_eq!(c.header.message_id, [7u8; 32]);
        assert_eq!(c.header.payload_length as usize, payload.len());
        assert_eq!(c.payload, m);
        assert_eq!(c.nonce, 42);
        assert_eq!(c.timestamp, now);
        assert_eq!(c.signature, None);
        assert_eq!(c.validate_header(now), Ok(()));
    }
}

#[test]
fn envelope_decoding_errors() {
    let m = &all_messages()[0];
    let bytes = m.encode_with_header([0u8; 32], 1, 2).unwrap();
    assert_eq!(
        YieldMessage::decode_with_header(&bytes[..PAYLOAD_OFFSET - 1]).err(),
        Some(MsgCodecError::InvalidLength)
    );
    assert_eq!(
        YieldMessage::decode_with_header(&bytes[..PAYLOAD_OFFSET]).err(),
        Some(MsgCodecError::DeserializationError)
    );
    let mut long = bytes.clone();
    long.push(1);
    assert_eq!(
        YieldMessage::decode_with_header(&long).err(),
        Some(MsgCodecError::DeserializationError)
    );
}

fn envelope(version: u32, msg_type: u8, timestamp: i64) -> CrossChainMessage {
    CrossChainMessage {
        header: MessageHeader {
            msg_type,
            version,
            message_id: [0u8; 32],
            payload_length: 0,
        },
        payload: all_messages().remove(8),
        nonce: 5,
        timestamp,
        signature: Some(vec![1, 2, 3]),
    }
}

#[test]
fn header_validation_rejects_version_type_and_stale_or_future_time() {
    let now = 10_000;
    assert_eq!(envelope(1, 9, now).validate_header(now), Ok(()));
    assert_eq!(
        envelope(2, 9, now).validate_header(now),
        Err(MsgCodecError::UnsupportedVersion)
    );
    assert_eq!(
        envelope(1, 1, now).validate_header(now),
        Err(MsgCodecError::UnsupportedMessageType)
    );
    assert_eq!(envelope(1, 9, now - 3600).validate_header(now), Ok(()));
    assert_eq!(
        envelope(1, 9, now - 3601).validate_header(now),
        Err(MsgCodecError::TimestampOutOfWindow)
    );
    assert_eq!(envelope(1, 9, now + 300).validate_header(now), Ok(()));
    assert_eq!(
        envelope(1, 9, now + 301).validate_header(now),
        Err(MsgCodecError::TimestampOutOfWindow)
    );
    assert_eq!(
        envelope(1, 9, i64::MIN).validate_header(i64::MAX),
        Err(MsgCodecError::TimestampOutOfWindow)
    );
}

#[test]
fn signed_envelope_round_trips() {
    let c = envelope(1, 9, 77);
    let mut bytes = vec![9u8];
    bytes.extend_from_slice(&1u32.to_be_bytes());
    bytes.extend_from_slice(&[0u8; 32]);
    let payload = c.payload.encode().unwrap();
    bytes.extend_from_slice(&(payload.len() as u32).to_be_bytes());
    bytes.extend_from_slice(&payload);
    bytes.extend_from_slice(&5u64.to_le_bytes());
    bytes.extend_from_slice(&77i64.to_le_bytes());
    bytes.extend_from_slice(&[1, 3, 0, 0, 0, 1, 2, 3]);
    let d = YieldMessage::decode_with_header(&bytes).unwrap();
    assert_eq!(d.signature, Some(vec![1, 2, 3]));
    assert_eq!(d.timestamp, 77);
    assert_eq!(d.payload, c.payload);
}

#[test]
fn message_id_is_keccak_of_envelope_content() {
    let c = envelope(1, 9, 77);
    let input = c.message_id_input();
    let mut expected = 5u64.to_le_bytes().to_vec();
    expected.extend_from_slice(&77i64.to_le_bytes());
    expected.push(9);
    expected.extend_from_slice(&c.payload.encode().unwrap());
    assert_eq!(input, expected);
    let id = c.generate_message_id();
    assert_eq!(id, anchor_lang::solana_program::keccak::hash(&expected).to_bytes());
    assert_eq!(id, envelope(1, 9, 77).generate_message_id());
    assert_ne!(id, envelope(1, 9, 78).generate_message_id());
}

#[test]
fn validate_checks_each_rule() {
    let now = 1000;
    let deposit = |amount, min_apy, slippage_tolerance, deadline| YieldMessage::DepositRequest {
        user: key(1),
        amount,
        token_mint: key(2),
        target_protocol_id: 1,
        min_apy,
        slippage_tolerance,
        deadline,
        referrer: None,
    };
    assert_eq!(deposit(1, 10000, 1000, now).validate(now), Ok(()));
    assert_eq!(deposit(0, 1, 1, now).validate(now), Err(ValidationError::ZeroAmount));
    assert_eq!(deposit(1, 10001, 1, now).validate(now), Err(ValidationError::ApyTooHigh));
    assert_eq!(deposit(1, 1, 1001, now).validate(now), Err(ValidationError::SlippageTooHigh));
    assert_eq!(deposit(1, 1, 1, now - 1).validate(now), Err(ValidationError::DeadlinePassed));

    let rebalance = YieldMessage::RebalanceRequest {
        user: key(1),
        from_protocol_id: 1,
        to_protocol_id: 2,
        amount: 5,
        target_chain_id: 1,
        min_output_amount: 6,
        deadline: now,
    };
    assert_eq!(rebalance.validate(now), Err(ValidationError::OutputExceedsAmount));

    let withdraw = YieldMessage::WithdrawRequest {
        user: key(1),
        amount: 0,
        token_mint: key(2),
        protocol_id: 1,
        target_chain_id: 1,
        destination_address: vec![],
        withdraw_yield: false,
        deadline: now,
    };
    assert_eq!(withdraw.validate(now), Err(ValidationError::ZeroAmount));

    let update = YieldMessage::YieldUpdate {
        protocol_id: 1,
        protocol_name: "x".to_string(),
        new_apy: 100,
        tvl: 0,
        available_capacity: 0,
        risk_score: 6,
        last_harvest_time: 0,
        update_timestamp: 0,
    };
    assert_eq!(update.validate(now), Err(ValidationError::RiskScoreOutOfRange));

    let sync = YieldMessage::PositionSync {
        user: key(1),
        protocol_id: 1,
        principal_amount: 0,
        yield_earned: 0,
        total_shares: 0,
        last_compound_time: 0,
        position_health: 101,
        sync_timestamp: 0,
    };
    assert_eq!(sync.validate(now), Err(ValidationError::HealthOutOfRange));
    assert_eq!(all_messages()[8].validate(now), Ok(()));
}

#[test]
fn legacy_layout_is_exact() {
    let bytes = encode("hi");
    let mut expected = vec![0u8; 28];
    expected.extend_from_slice(&[0, 0, 0, 2, b'h', b'i']);
    assert_eq!(bytes, expected);
    assert_eq!(decode(&encode("")).unwrap(), "");
    assert_eq!(decode(&encode("h\u{00e9}llo \u{4e16}")).unwrap(), "h\u{00e9}llo \u{4e16}");
}

#[test]
fn legacy_decoding_errors() {
    assert_eq!(decode(&[0u8; 31]), Err(MsgCodecError::InvalidLength));
    let mut short = vec![0u8; 28];
    short.extend_from_slice(&[0, 0, 0, 3, b'a', b'b']);
    assert_eq!(decode(&short), Err(MsgCodecError::BodyTooShort));
    let mut huge = vec![0u8; 28];
    huge.extend_from_slice(&[0xFF, 0xFF, 0xFF, 0xFF]);
    assert_eq!(decode(&huge), Err(MsgCodecError::BodyTooShort));
    let mut bad = vec![0u8; 28];
    bad.extend_from_slice(&[0, 0, 0, 2, 0xC3, 0x28]);
    assert_eq!(decode(&bad), Err(MsgCodecError::InvalidUtf8));
    let mut extra = encode("ok");
    extra.extend_from_slice(b"ignored");
    assert_eq!(decode(&extra).unwrap(), "ok");
}

#[test]
fn routing_partitions_message_types() {
    for t in 0u8..=255 {
        let n = [is_user_message(t), is_protocol_message(t), is_system_message(t)]
            .iter()
            .filter(|b| **b)
            .count();
        assert_eq!(n, if (1..=12).contains(&t) { 1 } else { 0 });
    }
    assert!(is_user_message(1) && is_user_message(9));
    assert!(is_protocol_message(4) && is_protocol_message(11));
    assert!(is_system_message(5) && is_system_message(12));
}

#[test]
fn small_enum_codes() {
    assert_eq!(EmergencyActionType::from_index(3), EmergencyActionType::HaltDeposits);
    assert_eq!(FeeType::Deposit.index(), 4);
}

#[test]
fn categories_follow_the_routing_table() {
    for m in all_messages() {
        let t = m.get_message_type();
        let expected = if is_user_message(t) {
            MessageCategory::User
        } else if is_protocol_message(t) {
            MessageCategory::Protocol
        } else {
            assert!(is_system_message(t));
            MessageCategory::System
        };
        assert_eq!(m.category(), expected);
    }
}

#[test]
fn inbound_pipeline_accepts_and_rejects() {
    let now = 5_000;
    let vote = all_messages().remove(8);
    let bytes = vote.encode_with_header([1u8; 32], 3, now).unwrap();
    let c = accept_inbound(&bytes, now).unwrap();
    assert_eq!(c.payload, vote);
    assert_eq!(
        accept_inbound(&bytes[..10], now).err(),
        Some(Rejection::Codec(MsgCodecError::InvalidLength))
    );
    assert_eq!(
        accept_inbound(&bytes[..50], now).err(),
        Some(Rejection::Codec(MsgCodecError::DeserializationError))
    );
    assert_eq!(
        accept_inbound(&bytes, now + 3601).err(),
        Some(Rejection::Codec(MsgCodecError::TimestampOutOfWindow))
    );
    let mut wrong_version = bytes.clone();
    wrong_version[4] = 2;
    assert_eq!(
        accept_inbound(&wrong_version, now).err(),
        Some(Rejection::Codec(MsgCodecError::UnsupportedVersion))
    );
    let stale_deposit = YieldMessage::DepositRequest {
        user: key(1),
        amount: 10,
        token_mint: key(2),
        target_protocol_id: 1,
        min_apy: 1,
        slippage_tolerance: 1,
        deadline: now - 1,
        referrer: None,
    };
    let bytes = stale_deposit.encode_with_header([0u8; 32], 1, now).unwrap();
    assert_eq!(
        accept_inbound(&bytes, now).err(),
        Some(Rejection::Invalid(ValidationError::DeadlinePassed))
    );
}
