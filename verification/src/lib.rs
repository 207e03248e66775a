//! Governance operations for a cross-chain relay: decoding, quorum checks and
//! the registry they mutate.

pub mod abi;
pub mod aggregator;
pub mod bytes;
pub mod codec;
pub mod encoder;
pub mod error;
pub mod gov;
pub mod quorum;
pub mod registry;
pub mod seqs;
pub mod signed;
pub mod tournament;
