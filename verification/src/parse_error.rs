//! Errors of program detection and instruction parsing.

use vstd::prelude::*;
use crate::solana_key::AccountKey;

verus! {

/// Why a program's data could not be parsed. The serialization errors of
/// the encoders are carried as their messages.
#[derive(Debug)]
#[allow(inconsistent_fields)]
pub enum ParseError {
    InvalidProgramId { program_id: AccountKey },
    UnsupportedProgram { program_id: AccountKey },
    InvalidInstructionData { reason: String },
    AccountParsingFailed { account: AccountKey, reason: String },
    InsufficientData { expected: usize, actual: usize },
    InvalidDiscriminator { expected: Vec<u8>, actual: Vec<u8> },
    MetadataLookupFailed { mint: AccountKey, reason: String },
    Serialization(String),
    Json(String),
    Network(String),
    Cache(String),
    Timeout { timeout_ms: u64 },
    DetectionFailed { reason: String },
    ParserNotFound { program_id: AccountKey },
    Configuration(String),
    Internal(String),
}

impl ParseError {
    pub fn invalid_program_id(program_id: AccountKey) -> (res: Self)
        ensures
            res == (ParseError::InvalidProgramId { program_id }),
    {
        ParseError::InvalidProgramId { program_id }
    }

    pub fn unsupported_program(program_id: AccountKey) -> (res: Self)
        ensures
            res == (ParseError::UnsupportedProgram { program_id }),
    {
        ParseError::UnsupportedProgram { program_id }
    }

    pub fn invalid_instruction_data(reason: &str) -> (res: Self)
        ensures
            res matches ParseError::InvalidInstructionData { reason: r } && r@ == reason@,
    {
        ParseError::InvalidInstructionData { reason: reason.to_owned() }
    }

    pub fn account_parsing_failed(account: AccountKey, reason: &str) -> (res: Self)
        ensures
            res matches ParseError::AccountParsingFailed { account: a, reason: r } && a == account && r@ == reason@,
    {
        ParseError::AccountParsingFailed { account, reason: reason.to_owned() }
    }

    pub fn insufficient_data(expected: usize, actual: usize) -> (res: Self)
        ensures
            res == (ParseError::InsufficientData { expected, actual }),
    {
        ParseError::InsufficientData { expected, actual }
    }

    pub fn invalid_discriminator(expected: Vec<u8>, actual: Vec<u8>) -> (res: Self)
        ensures
            res matches ParseError::InvalidDiscriminator { expected: e, actual: a } && e@ == expected@ && a@ == actual@,
    {
        ParseError::InvalidDiscriminator { expected, actual }
    }

    pub fn metadata_lookup_failed(mint: AccountKey, reason: &str) -> (res: Self)
        ensures
            res matches ParseError::MetadataLookupFailed { mint: m, reason: r } && m == mint && r@ == reason@,
    {
        ParseError::MetadataLookupFailed { mint, reason: reason.to_owned() }
    }

    pub fn network(reason: &str) -> (res: Self)
        ensures
            res matches ParseError::Network(r) && r@ == reason@,
    {
        ParseError::Network(reason.to_owned())
    }

    pub fn cache(reason: &str) -> (res: Self)
        ensures
            res matches ParseError::Cache(r) && r@ == reason@,
    {
        ParseError::Cache(reason.to_owned())
    }

    pub fn timeout(timeout_ms: u64) -> (res: Self)
        ensures
            res == (ParseError::Timeout { timeout_ms }),
    {
        ParseError::Timeout { timeout_ms }
    }

    pub fn detection_failed(reason: &str) -> (res: Self)
        ensures
            res matches ParseError::DetectionFailed { reason: r } && r@ == reason@,
    {
        ParseError::DetectionFailed { reason: reason.to_owned() }
    }

    pub fn parser_not_found(program_id: AccountKey) -> (res: Self)
        ensures
            res == (ParseError::ParserNotFound { program_id }),
    {
        ParseError::ParserNotFound { program_id }
    }

    pub fn configuration(reason: &str) -> (res: Self)
        ensures
            res matches ParseError::Configuration(r) && r@ == reason@,
    {
        ParseError::Configuration(reason.to_owned())
    }

    pub fn internal(reason: &str) -> (res: Self)
        ensures
            res matches ParseError::Internal(r) && r@ == reason@,
    {
        ParseError::Internal(reason.to_owned())
    }
}

} // verus!
