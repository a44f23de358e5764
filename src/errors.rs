//! The error kinds of the codec and of the ledger.
use vstd::prelude::*;

verus! {

/// Failures of the application as a whole.
#[derive(Clone, Copy, Debug, PartialEq, Eq, Structural)]
pub enum MyOAppError {
    InvalidMessageType,
    InsufficientFunds,
    InvalidProtocol,
    ProtocolNotActive,
    PositionNotFound,
    Unauthorized,
    ContractPaused,
    InvalidYieldRate,
    RebalanceNotNeeded,
    MinimumDepositNotMet,
    WithdrawalExceedsBalance,
    ProtocolCapacityExceeded,
    InvalidSlippageTolerance,
    OraclePriceStale,
    CrossChainMessageFailed,
}

/// Failures of encoding, decoding and header checks.
#[derive(Clone, Copy, Debug, PartialEq, Eq, Structural)]
pub enum MsgCodecError {
    /// The buffer is shorter than the fixed header.
    InvalidLength,
    /// The header announces more payload bytes than the buffer holds.
    BodyTooShort,
    InvalidPayload,
    UnsupportedMessageType,
    UnsupportedVersion,
    InvalidMessageId,
    /// A length or count does not fit in its 32-bit prefix.
    SerializationError,
    /// The bytes are not the encoding of any message.
    DeserializationError,
    InvalidUtf8,
    /// The envelope's timestamp is too old or too far in the future.
    TimestampOutOfWindow,
}

/// Failures of the per-type content checks of a message.
#[derive(Clone, Copy, Debug, PartialEq, Eq, Structural)]
pub enum ValidationError {
    ZeroAmount,
    ApyTooHigh,
    SlippageTooHigh,
    DeadlinePassed,
    OutputExceedsAmount,
    RiskScoreOutOfRange,
    HealthOutOfRange,
}

/// Failures of the ledger operations.
#[derive(Clone, Copy, Debug, PartialEq, Eq, Structural)]
pub enum YieldAggregatorError {
    Unauthorized,
    InvalidAmount,
    InvalidRiskScore,
    InvalidProtocolName,
    ProtocolInactive,
    ApyTooLow,
    EmergencyPaused,
    NoYieldToCompound,
    ProtocolCapacityExceeded,
    InvalidChainId,
}

/// A ledger operation fails with an error of either family.
#[derive(Clone, Copy, Debug, PartialEq, Eq, Structural)]
pub enum LedgerError {
    Aggregator(YieldAggregatorError),
    App(MyOAppError),
}

} // verus!
