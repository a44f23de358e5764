//! Accounting core of an omnichain yield aggregator: a versioned binary codec
//! for cross-ledger yield messages, and a ledger of protocols, user positions
//! and aggregate counters that those messages drive.
pub mod bytes;
pub mod errors;
pub mod pubkey;
pub mod fields;
pub mod field_io;
pub mod msg_codec;
pub mod ledger;
pub mod options;
