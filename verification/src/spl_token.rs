//! The SPL Token program: its instructions, decoded by `spl_token`, turned
//! into `SplTokenData` over the instruction's accounts.

use vstd::prelude::*;
use spl_token::instruction::TokenInstruction as TI;
use crate::decimal::{decimal_new, decimal_of};
use crate::parse_error::ParseError;
use crate::program_types::{ParseResult, SplTokenData, SplTokenDataView, SplTokenMetadata, SplTokenMetadataView, SplTokenOperation, UnknownData, UnknownDataView, keys_from, unknown_data};
use crate::text::concat_str;
use crate::solana_key::{AccountKey, new_unique_key};

verus! {

/// An SPL Token instruction as `TokenInstruction::unpack` decodes it, the
/// kinds the parser reads kept apart and the others gathered in `Other`.
#[derive(Debug, Clone, Copy)]
pub enum TokenOp {
    Transfer { amount: u64 },
    TransferChecked { amount: u64, decimals: u8 },
    MintTo { amount: u64 },
    Burn { amount: u64 },
    BurnChecked { amount: u64, decimals: u8 },
    Approve { amount: u64 },
    Revoke,
    InitializeMint { decimals: u8, mint_authority: AccountKey, freeze_authority: Option<AccountKey> },
    InitializeAccount,
    CloseAccount,
    SetAuthority { new_authority: Option<AccountKey> },
    Other,
}

/// What `TokenInstruction::unpack` makes of the bytes: the decoded
/// instruction, or the text of its error.
pub uninterp spec fn spl_token_unpack(data: Seq<u8>) -> Result<TokenOp, Seq<char>>;

#[verifier::external_type_specification]
#[verifier::external_body]
pub struct ExTokenPubkey(spl_token::solana_program::pubkey::Pubkey);

#[verifier::external_type_specification]
#[verifier::external_body]
#[verifier::reject_recursive_types(T)]
pub struct ExTokenCOption<T>(spl_token::solana_program::program_option::COption<T>);

/// `Pubkey::to_bytes`: the key's 32 bytes, as an `AccountKey`. Nothing is
/// stated of them: the key is opaque here.
#[verifier::external_body]
fn key_of(p: spl_token::solana_program::pubkey::Pubkey) -> (res: AccountKey) {
    AccountKey { bytes: p.to_bytes() }
}

/// `Option::from` for a `COption` key, with the key's bytes. Nothing is
/// stated of the result: the value is opaque here.
#[verifier::external_body]
fn opt_key(c: spl_token::solana_program::program_option::COption<spl_token::solana_program::pubkey::Pubkey>) -> (res: Option<AccountKey>) {
    Option::from(c).map(key_of)
}

/// `spl_token::instruction::TokenInstruction::unpack`: decodes instruction
/// bytes. The contract names the result; it does not state the layout.
#[verifier::external_body]
fn unpack_token_instruction(data: &[u8]) -> (res: Result<TokenOp, String>)
    ensures
        match spl_token_unpack(data@) {
            Ok(op) => res == Ok::<TokenOp, String>(op),
            Err(m) => res matches Err(e) && e@ == m,
        },
{
    Ok(match TI::unpack(data).map_err(|e| e.to_string())? {
        TI::Transfer { amount } => TokenOp::Transfer { amount }, TI::MintTo { amount } => TokenOp::MintTo { amount },
        TI::TransferChecked { amount, decimals } => TokenOp::TransferChecked { amount, decimals },
        TI::Burn { amount } => TokenOp::Burn { amount }, TI::Approve { amount } => TokenOp::Approve { amount },
        TI::BurnChecked { amount, decimals } => TokenOp::BurnChecked { amount, decimals },
        TI::InitializeMint { decimals, mint_authority, freeze_authority } => TokenOp::InitializeMint {
            decimals, mint_authority: key_of(mint_authority), freeze_authority: opt_key(freeze_authority) },
        TI::SetAuthority { new_authority, .. } => TokenOp::SetAuthority { new_authority: opt_key(new_authority) },
        TI::Revoke => TokenOp::Revoke, TI::InitializeAccount => TokenOp::InitializeAccount,
        TI::CloseAccount => TokenOp::CloseAccount, _ => TokenOp::Other,
    })
}

/// The scale of the amount that an operation carries, where it carries one.
pub open spec fn op_decimals(op: TokenOp) -> u8 {
    match op {
        TokenOp::TransferChecked { decimals, .. } => decimals,
        TokenOp::BurnChecked { decimals, .. } => decimals,
        _ => 0,
    }
}

/// Whether the operation names no mint among its accounts, so that the
/// parser stands a fresh key in for it.
pub open spec fn needs_fresh_mint(op: TokenOp) -> bool {
    op is Transfer || op is Burn || op is Approve || op is Revoke || op is CloseAccount
}

/// The metadata of a mint the parser knows nothing of.
pub open spec fn default_metadata() -> SplTokenMetadataView {
    SplTokenMetadataView {
        name: None,
        symbol: None,
        logo_uri: None,
        total_supply: None,
        is_initialized: true,
        freeze_authority: None,
        mint_authority: None,
    }
}

/// The data of an operation with default metadata and no symbol.
pub open spec fn spl_view(
    operation_type: SplTokenOperation,
    mint: AccountKey,
    amount: u64,
    decimals: u8,
    from: Option<AccountKey>,
    to: Option<AccountKey>,
    authority: Option<AccountKey>,
    multisig_signers: Seq<AccountKey>,
    parsed_amount: rust_decimal::Decimal,
) -> SplTokenDataView {
    SplTokenDataView {
        operation_type, mint, amount, decimals, from, to, authority, multisig_signers, parsed_amount,
        symbol: None,
        metadata: default_metadata(),
    }
}

/// The fewest accounts each operation needs.
pub open spec fn required_accounts(op: TokenOp) -> nat {
    match op {
        TokenOp::TransferChecked { .. } | TokenOp::BurnChecked { .. } => 4,
        TokenOp::Revoke | TokenOp::SetAuthority { .. } => 2,
        TokenOp::InitializeMint { .. } => 1,
        _ => 3,
    }
}

/// What the parser makes of a decoded operation over the given accounts,
/// with `fresh` standing for the mint where the accounts name none:
/// `Err((expected, actual))` where too few accounts are given.
pub open spec fn spl_token_expected(op: TokenOp, k: Seq<AccountKey>, fresh: AccountKey)
    -> Result<SplTokenDataView, (nat, nat)>
{
    if k.len() < required_accounts(op) {
        Err((required_accounts(op), k.len()))
    } else {
        let zero = decimal_of(0, 0);
        Ok(match op {
            TokenOp::Transfer { amount } => spl_view(SplTokenOperation::Transfer, fresh, amount, 6,
                Some(k[0]), Some(k[1]), Some(k[2]), k.skip(3), decimal_of(amount as i64, 6)),
            TokenOp::TransferChecked { amount, decimals } => spl_view(SplTokenOperation::TransferChecked, k[3], amount, decimals,
                Some(k[0]), Some(k[1]), Some(k[2]), k.skip(4), decimal_of(amount as i64, decimals as u32)),
            TokenOp::MintTo { amount } => spl_view(SplTokenOperation::MintTo, k[0], amount, 6,
                None, Some(k[1]), Some(k[2]), k.skip(3), decimal_of(amount as i64, 6)),
            TokenOp::Burn { amount } => spl_view(SplTokenOperation::Burn, fresh, amount, 6,
                Some(k[0]), None, Some(k[2]), k.skip(3), decimal_of(amount as i64, 6)),
            TokenOp::BurnChecked { amount, decimals } => spl_view(SplTokenOperation::BurnChecked, k[1], amount, decimals,
                Some(k[0]), None, Some(k[2]), k.skip(4), decimal_of(amount as i64, decimals as u32)),
            TokenOp::Approve { amount } => spl_view(SplTokenOperation::Approve, fresh, amount, 6,
                Some(k[0]), Some(k[1]), Some(k[2]), k.skip(3), decimal_of(amount as i64, 6)),
            TokenOp::Revoke => spl_view(SplTokenOperation::Revoke, fresh, 0, 6,
                Some(k[0]), None, Some(k[1]), k.skip(2), zero),
            TokenOp::InitializeMint { decimals, mint_authority, freeze_authority } => SplTokenDataView {
                operation_type: SplTokenOperation::InitializeMint,
                mint: k[0],
                amount: 0,
                decimals,
                from: None,
                to: None,
                authority: Some(mint_authority),
                multisig_signers: Seq::empty(),
                parsed_amount: zero,
                symbol: None,
                metadata: SplTokenMetadataView {
                    name: None,
                    symbol: None,
                    logo_uri: None,
                    total_supply: Some(0),
                    is_initialized: true,
                    freeze_authority,
                    mint_authority: Some(mint_authority),
                },
            },
            TokenOp::InitializeAccount => spl_view(SplTokenOperation::CreateAccount, k[1], 0, 6,
                None, Some(k[0]), Some(k[2]), Seq::empty(), zero),
            TokenOp::CloseAccount => spl_view(SplTokenOperation::CloseAccount, fresh, 0, 6,
                Some(k[0]), Some(k[1]), Some(k[2]), k.skip(3), zero),
            TokenOp::SetAuthority { new_authority } => spl_view(SplTokenOperation::SetAuthority, k[0], 0, 6,
                None, new_authority, Some(k[1]), k.skip(2), zero),
            TokenOp::Other => spl_view(SplTokenOperation::Transfer, fresh, 0, 0,
                None, None, None, Seq::empty(), zero),
        })
    }
}

/// The outcome of parsing: the SPL Token data, or the error that reports
/// too few accounts.
pub open spec fn spl_outcome_matches(
    res: Result<SplTokenData, ParseError>,
    expected: Result<SplTokenDataView, (nat, nat)>,
) -> bool {
    match expected {
        Ok(v) => res matches Ok(d) && d@ == v,
        Err(p) => res matches Err(ParseError::InsufficientData { expected, actual })
            && expected as nat == p.0 && actual as nat == p.1,
    }
}

/// Parses the instructions and accounts of the SPL Token program.
pub struct SplTokenParser;

fn default_metadata_value() -> (res: SplTokenMetadata)
    ensures
        res@ == default_metadata(),
{
    SplTokenMetadata {
        name: None,
        symbol: None,
        logo_uri: None,
        total_supply: None,
        is_initialized: true,
        freeze_authority: None,
        mint_authority: None,
    }
}

fn too_few(expected: usize, actual: usize) -> (res: Result<SplTokenData, ParseError>)
    ensures
        res matches Err(ParseError::InsufficientData { expected: e, actual: a }) && e == expected && a == actual,
{
    Err(ParseError::insufficient_data(expected, actual))
}

#[allow(clippy::too_many_arguments)]
fn spl_data(
    operation_type: SplTokenOperation,
    mint: AccountKey,
    amount: u64,
    decimals: u8,
    from: Option<AccountKey>,
    to: Option<AccountKey>,
    authority: Option<AccountKey>,
    multisig_signers: Vec<AccountKey>,
    parsed_amount: rust_decimal::Decimal,
) -> (res: SplTokenData)
    ensures
        res@ == spl_view(operation_type, mint, amount, decimals, from, to, authority, multisig_signers@, parsed_amount),
{
    SplTokenData {
        operation_type, mint, amount, decimals, from, to, authority, multisig_signers, parsed_amount,
        symbol: None,
        metadata: default_metadata_value(),
    }
}

/// The result for an SPL Token instruction the parser does not read.
pub open spec fn unsupported_spl_view(program_id: AccountKey, data: Seq<u8>, keys: Seq<AccountKey>) -> UnknownDataView {
    UnknownDataView {
        program_id,
        instruction_data: data,
        accounts: keys,
        suspected_program_type: Some("SPL Token"@),
        confidence_percent: 80,
        raw_bytes: data,
        parsing_hints: seq!["Unsupported SPL Token instruction"@],
    }
}

/// The outcome of parsing a decoded instruction, with `fresh` standing for
/// the mint where the accounts name none.
pub open spec fn spl_parse_outcome(
    res: Result<ParseResult, ParseError>,
    program_id: AccountKey,
    data: Seq<u8>,
    keys: Seq<AccountKey>,
    op: TokenOp,
    fresh: AccountKey,
) -> bool {
    if op is Other {
        res matches Ok(ParseResult::Unknown(u)) && u@ == unsupported_spl_view(program_id, data, keys)
    } else {
        match spl_token_expected(op, keys, fresh) {
            Ok(v) => res matches Ok(ParseResult::SplToken(d)) && d@ == v,
            Err(p) => res matches Err(ParseError::InsufficientData { expected, actual })
                && expected as nat == p.0 && actual as nat == p.1,
        }
    }
}

/// What parsing SPL Token instruction bytes comes to: empty data and data
/// that does not decode are errors, and so is a checked amount whose scale
/// exceeds 28; otherwise the decoded instruction is parsed with some fresh
/// key standing for the mint where the accounts name none.
pub open spec fn spl_parse_holds(
    res: Result<ParseResult, ParseError>,
    program_id: AccountKey,
    data: Seq<u8>,
    keys: Seq<AccountKey>,
) -> bool {
    &&& data.len() == 0 ==> (res matches Err(ParseError::InsufficientData { expected: 1, actual: 0 }))
    &&& data.len() > 0 ==> match spl_token_unpack(data) {
        Err(m) => res matches Err(ParseError::InvalidInstructionData { reason })
            && reason@ == "SPL Token unpack error: "@ + m,
        Ok(op) => if op_decimals(op) > 28 {
            res matches Err(ParseError::InvalidInstructionData { reason })
                && reason@ == "SPL Token decimals exceed the supported scale"@
        } else {
            exists|fresh: AccountKey| #[trigger] spl_parse_outcome(res, program_id, data, keys, op, fresh)
        },
    }
}


/// The accounts of a parsed SPL Token instruction and their roles: for
/// each instruction kind the parser reads, which account is the source,
/// the destination, the authority and the mint, and how many accounts it
/// needs (too few is an `InsufficientData` error naming both counts).
pub proof fn law_spl_account_roles(res: Result<ParseResult, ParseError>, program_id: AccountKey, data: Seq<u8>, k: Seq<AccountKey>)
    requires
        spl_parse_holds(res, program_id, data, k),
    ensures
        spl_token_unpack(data) matches Ok(TokenOp::Transfer { amount }) ==> (data.len() > 0 ==> if k.len() >= 3 {
            res matches Ok(ParseResult::SplToken(d)) && d.operation_type == SplTokenOperation::Transfer && d.from == Some(k[0]) && d.to == Some(k[1]) && d.authority == Some(k[2]) && d.amount == amount
        } else {
            res matches Err(ParseError::InsufficientData { expected, actual }) && expected == 3 && actual == k.len()
        }),
        spl_token_unpack(data) matches Ok(TokenOp::TransferChecked { amount, decimals }) ==> (data.len() > 0 && decimals <= 28 ==> if k.len() >= 4 {
            res matches Ok(ParseResult::SplToken(d)) && d.operation_type == SplTokenOperation::TransferChecked && d.from == Some(k[0]) && d.to == Some(k[1]) && d.authority == Some(k[2]) && d.mint == k[3] && d.amount == amount && d.decimals == decimals
        } else {
            res matches Err(ParseError::InsufficientData { expected, actual }) && expected == 4 && actual == k.len()
        }),
        spl_token_unpack(data) matches Ok(TokenOp::MintTo { amount }) ==> (data.len() > 0 ==> if k.len() >= 3 {
            res matches Ok(ParseResult::SplToken(d)) && d.operation_type == SplTokenOperation::MintTo && d.from == None::<AccountKey> && d.to == Some(k[1]) && d.authority == Some(k[2]) && d.mint == k[0] && d.amount == amount
        } else {
            res matches Err(ParseError::InsufficientData { expected, actual }) && expected == 3 && actual == k.len()
        }),
        spl_token_unpack(data) matches Ok(TokenOp::Burn { amount }) ==> (data.len() > 0 ==> if k.len() >= 3 {
            res matches Ok(ParseResult::SplToken(d)) && d.operation_type == SplTokenOperation::Burn && d.from == Some(k[0]) && d.to == None::<AccountKey> && d.authority == Some(k[2]) && d.amount == amount
        } else {
            res matches Err(ParseError::InsufficientData { expected, actual }) && expected == 3 && actual == k.len()
        }),
        spl_token_unpack(data) matches Ok(TokenOp::BurnChecked { amount, decimals }) ==> (data.len() > 0 && decimals <= 28 ==> if k.len() >= 4 {
            res matches Ok(ParseResult::SplToken(d)) && d.operation_type == SplTokenOperation::BurnChecked && d.from == Some(k[0]) && d.to == None::<AccountKey> && d.authority == Some(k[2]) && d.mint == k[1] && d.amount == amount && d.decimals == decimals
        } else {
            res matches Err(ParseError::InsufficientData { expected, actual }) && expected == 4 && actual == k.len()
        }),
        spl_token_unpack(data) matches Ok(TokenOp::Approve { amount }) ==> (data.len() > 0 ==> if k.len() >= 3 {
            res matches Ok(ParseResult::SplToken(d)) && d.operation_type == SplTokenOperation::Approve && d.from == Some(k[0]) && d.to == Some(k[1]) && d.authority == Some(k[2]) && d.amount == amount
        } else {
            res matches Err(ParseError::InsufficientData { expected, actual }) && expected == 3 && actual == k.len()
        }),
        spl_token_unpack(data) matches Ok(TokenOp::Revoke) ==> (data.len() > 0 ==> if k.len() >= 2 {
            res matches Ok(ParseResult::SplToken(d)) && d.operation_type == SplTokenOperation::Revoke && d.from == Some(k[0]) && d.to == None::<AccountKey> && d.authority == Some(k[1])
        } else {
            res matches Err(ParseError::InsufficientData { expected, actual }) && expected == 2 && actual == k.len()
        }),
        spl_token_unpack(data) matches Ok(TokenOp::InitializeMint { decimals, mint_authority, freeze_authority }) ==> (data.len() > 0 ==> if k.len() >= 1 {
            res matches Ok(ParseResult::SplToken(d)) && d.operation_type == SplTokenOperation::InitializeMint && d.from == None::<AccountKey> && d.to == None::<AccountKey> && d.authority == Some(mint_authority) && d.mint == k[0] && d.decimals == decimals
        } else {
            res matches Err(ParseError::InsufficientData { expected, actual }) && expected == 1 && actual == k.len()
        }),
        spl_token_unpack(data) matches Ok(TokenOp::InitializeAccount) ==> (data.len() > 0 ==> if k.len() >= 3 {
            res matches Ok(ParseResult::SplToken(d)) && d.operation_type == SplTokenOperation::CreateAccount && d.from == None::<AccountKey> && d.to == Some(k[0]) && d.authority == Some(k[2]) && d.mint == k[1]
        } else {
            res matches Err(ParseError::InsufficientData { expected, actual }) && expected == 3 && actual == k.len()
        }),
        spl_token_unpack(data) matches Ok(TokenOp::CloseAccount) ==> (data.len() > 0 ==> if k.len() >= 3 {
            res matches Ok(ParseResult::SplToken(d)) && d.operation_type == SplTokenOperation::CloseAccount && d.from == Some(k[0]) && d.to == Some(k[1]) && d.authority == Some(k[2])
        } else {
            res matches Err(ParseError::InsufficientData { expected, actual }) && expected == 3 && actual == k.len()
        }),
        spl_token_unpack(data) matches Ok(TokenOp::SetAuthority { new_authority }) ==> (data.len() > 0 ==> if k.len() >= 2 {
            res matches Ok(ParseResult::SplToken(d)) && d.operation_type == SplTokenOperation::SetAuthority && d.from == None::<AccountKey> && d.to == new_authority && d.authority == Some(k[1]) && d.mint == k[0]
        } else {
            res matches Err(ParseError::InsufficientData { expected, actual }) && expected == 2 && actual == k.len()
        }),
{
    if data.len() > 0 {
        if let Ok(op) = spl_token_unpack(data) {
            if op_decimals(op) <= 28 {
                let fresh = choose|fresh: AccountKey| #[trigger] spl_parse_outcome(res, program_id, data, k, op, fresh);
                assert(spl_parse_outcome(res, program_id, data, k, op, fresh));
            }
        }
    }
}

/// The data reported for a mint or token account, whose contents the
/// parser does not read.
pub open spec fn spl_account_view(operation_type: SplTokenOperation, fresh: AccountKey) -> SplTokenDataView {
    spl_view(operation_type, fresh, 0, 6, None, None, None, Seq::empty(), decimal_of(0, 0))
}

impl SplTokenParser {
    pub fn new() -> (res: Self) {
        SplTokenParser
    }

    /// Turns a decoded instruction and its accounts into the parse result;
    /// `fresh` stands for the mint where the accounts name none.
    pub fn parse_decoded(
        &self,
        program_id: AccountKey,
        instruction_data: &[u8],
        account_keys: &[AccountKey],
        op: TokenOp,
        fresh: AccountKey,
    ) -> (res: Result<ParseResult, ParseError>)
        requires
            op_decimals(op) <= 28,
        ensures
            spl_parse_outcome(res, program_id, instruction_data@, account_keys@, op, fresh),
    {
        let parsed = match op {
            TokenOp::Transfer { amount } => self.parse_transfer(amount, account_keys, fresh),
            TokenOp::TransferChecked { amount, decimals } => self.parse_transfer_checked(amount, decimals, account_keys),
            TokenOp::MintTo { amount } => self.parse_mint_to(amount, account_keys),
            TokenOp::Burn { amount } => self.parse_burn(amount, account_keys, fresh),
            TokenOp::BurnChecked { amount, decimals } => self.parse_burn_checked(amount, decimals, account_keys),
            TokenOp::Approve { amount } => self.parse_approve(amount, account_keys, fresh),
            TokenOp::Revoke => self.parse_revoke(account_keys, fresh),
            TokenOp::InitializeMint { decimals, mint_authority, freeze_authority } =>
                self.parse_initialize_mint(decimals, Some(mint_authority), freeze_authority, account_keys),
            TokenOp::InitializeAccount => self.parse_initialize_account(account_keys),
            TokenOp::CloseAccount => self.parse_close_account(account_keys, fresh),
            TokenOp::SetAuthority { new_authority } => self.parse_set_authority(new_authority, account_keys),
            TokenOp::Other => {
                return Ok(ParseResult::Unknown(unknown_data(
                    program_id,
                    instruction_data,
                    account_keys,
                    Some("SPL Token"),
                    80,
                    instruction_data,
                    "Unsupported SPL Token instruction",
                )));
            },
        };
        match parsed {
            Ok(d) => Ok(ParseResult::SplToken(d)),
            Err(e) => Err(e),
        }
    }

    /// Decodes an SPL Token instruction with `spl_token` and parses it over
    /// its accounts. Empty data and data that does not decode are errors;
    /// so is a checked amount whose scale exceeds 28, which `Decimal` cannot
    /// hold.
    pub fn parse(
        &self,
        program_id: AccountKey,
        instruction_data: &[u8],
        account_keys: &[AccountKey],
    ) -> (res: Result<ParseResult, ParseError>)
        ensures
            spl_parse_holds(res, program_id, instruction_data@, account_keys@),
            spl_token_unpack(instruction_data@) matches Ok(TokenOp::Transfer { amount }) ==> (instruction_data@.len() > 0 ==> if account_keys@.len() >= 3 {
                res matches Ok(ParseResult::SplToken(d)) && d.operation_type == SplTokenOperation::Transfer && d.from == Some(account_keys@[0]) && d.to == Some(account_keys@[1]) && d.authority == Some(account_keys@[2]) && d.amount == amount
            } else {
                res matches Err(ParseError::InsufficientData { expected, actual }) && expected == 3 && actual == account_keys@.len()
            }),
            spl_token_unpack(instruction_data@) matches Ok(TokenOp::TransferChecked { amount, decimals }) ==> (instruction_data@.len() > 0 && decimals <= 28 ==> if account_keys@.len() >= 4 {
                res matches Ok(ParseResult::SplToken(d)) && d.operation_type == SplTokenOperation::TransferChecked && d.from == Some(account_keys@[0]) && d.to == Some(account_keys@[1]) && d.authority == Some(account_keys@[2]) && d.mint == account_keys@[3] && d.amount == amount && d.decimals == decimals
            } else {
                res matches Err(ParseError::InsufficientData { expected, actual }) && expected == 4 && actual == account_keys@.len()
            }),
            spl_token_unpack(instruction_data@) matches Ok(TokenOp::MintTo { amount }) ==> (instruction_data@.len() > 0 ==> if account_keys@.len() >= 3 {
                res matches Ok(ParseResult::SplToken(d)) && d.operation_type == SplTokenOperation::MintTo && d.from == None::<AccountKey> && d.to == Some(account_keys@[1]) && d.authority == Some(account_keys@[2]) && d.mint == account_keys@[0] && d.amount == amount
            } else {
                res matches Err(ParseError::InsufficientData { expected, actual }) && expected == 3 && actual == account_keys@.len()
            }),
            spl_token_unpack(instruction_data@) matches Ok(TokenOp::Burn { amount }) ==> (instruction_data@.len() > 0 ==> if account_keys@.len() >= 3 {
                res matches Ok(ParseResult::SplToken(d)) && d.operation_type == SplTokenOperation::Burn && d.from == Some(account_keys@[0]) && d.to == None::<AccountKey> && d.authority == Some(account_keys@[2]) && d.amount == amount
            } else {
                res matches Err(ParseError::InsufficientData { expected, actual }) && expected == 3 && actual == account_keys@.len()
            }),
            spl_token_unpack(instruction_data@) matches Ok(TokenOp::BurnChecked { amount, decimals }) ==> (instruction_data@.len() > 0 && decimals <= 28 ==> if account_keys@.len() >= 4 {
                res matches Ok(ParseResult::SplToken(d)) && d.operation_type == SplTokenOperation::BurnChecked && d.from == Some(account_keys@[0]) && d.to == None::<AccountKey> && d.authority == Some(account_keys@[2]) && d.mint == account_keys@[1] && d.amount == amount && d.decimals == decimals
            } else {
                res matches Err(ParseError::InsufficientData { expected, actual }) && expected == 4 && actual == account_keys@.len()
            }),
            spl_token_unpack(instruction_data@) matches Ok(TokenOp::Approve { amount }) ==> (instruction_data@.len() > 0 ==> if account_keys@.len() >= 3 {
                res matches Ok(ParseResult::SplToken(d)) && d.operation_type == SplTokenOperation::Approve && d.from == Some(account_keys@[0]) && d.to == Some(account_keys@[1]) && d.authority == Some(account_keys@[2]) && d.amount == amount
            } else {
                res matches Err(ParseError::InsufficientData { expected, actual }) && expected == 3 && actual == account_keys@.len()
            }),
            spl_token_unpack(instruction_data@) matches Ok(TokenOp::Revoke) ==> (instruction_data@.len() > 0 ==> if account_keys@.len() >= 2 {
                res matches Ok(ParseResult::SplToken(d)) && d.operation_type == SplTokenOperation::Revoke && d.from == Some(account_keys@[0]) && d.to == None::<AccountKey> && d.authority == Some(account_keys@[1])
            } else {
                res matches Err(ParseError::InsufficientData { expected, actual }) && expected == 2 && actual == account_keys@.len()
            }),
            spl_token_unpack(instruction_data@) matches Ok(TokenOp::InitializeMint { decimals, mint_authority, freeze_authority }) ==> (instruction_data@.len() > 0 ==> if account_keys@.len() >= 1 {
                res matches Ok(ParseResult::SplToken(d)) && d.operation_type == SplTokenOperation::InitializeMint && d.from == None::<AccountKey> && d.to == None::<AccountKey> && d.authority == Some(mint_authority) && d.mint == account_keys@[0] && d.decimals == decimals
            } else {
                res matches Err(ParseError::InsufficientData { expected, actual }) && expected == 1 && actual == account_keys@.len()
            }),
            spl_token_unpack(instruction_data@) matches Ok(TokenOp::InitializeAccount) ==> (instruction_data@.len() > 0 ==> if account_keys@.len() >= 3 {
                res matches Ok(ParseResult::SplToken(d)) && d.operation_type == SplTokenOperation::CreateAccount && d.from == None::<AccountKey> && d.to == Some(account_keys@[0]) && d.authority == Some(account_keys@[2]) && d.mint == account_keys@[1]
            } else {
                res matches Err(ParseError::InsufficientData { expected, actual }) && expected == 3 && actual == account_keys@.len()
            }),
            spl_token_unpack(instruction_data@) matches Ok(TokenOp::CloseAccount) ==> (instruction_data@.len() > 0 ==> if account_keys@.len() >= 3 {
                res matches Ok(ParseResult::SplToken(d)) && d.operation_type == SplTokenOperation::CloseAccount && d.from == Some(account_keys@[0]) && d.to == Some(account_keys@[1]) && d.authority == Some(account_keys@[2])
            } else {
                res matches Err(ParseError::InsufficientData { expected, actual }) && expected == 3 && actual == account_keys@.len()
            }),
            spl_token_unpack(instruction_data@) matches Ok(TokenOp::SetAuthority { new_authority }) ==> (instruction_data@.len() > 0 ==> if account_keys@.len() >= 2 {
                res matches Ok(ParseResult::SplToken(d)) && d.operation_type == SplTokenOperation::SetAuthority && d.from == None::<AccountKey> && d.to == new_authority && d.authority == Some(account_keys@[1]) && d.mint == account_keys@[0]
            } else {
                res matches Err(ParseError::InsufficientData { expected, actual }) && expected == 2 && actual == account_keys@.len()
            }),
    {
        let res = self.parse_checked_input(program_id, instruction_data, account_keys);
        proof { law_spl_account_roles(res, program_id, instruction_data@, account_keys@); }
        res
    }

    fn parse_checked_input(
        &self,
        program_id: AccountKey,
        instruction_data: &[u8],
        account_keys: &[AccountKey],
    ) -> (res: Result<ParseResult, ParseError>)
        ensures
            spl_parse_holds(res, program_id, instruction_data@, account_keys@),
    {
        if instruction_data.len() == 0 {
            return Err(ParseError::insufficient_data(1, 0));
        }
        let op = match unpack_token_instruction(instruction_data) {
            Ok(op) => op,
            Err(e) => {
                let reason = concat_str("SPL Token unpack error: ", e.as_str());
                return Err(ParseError::InvalidInstructionData { reason });
            },
        };
        let scale_ok = match op {
            TokenOp::TransferChecked { decimals, .. } => decimals <= 28,
            TokenOp::BurnChecked { decimals, .. } => decimals <= 28,
            _ => true,
        };
        if !scale_ok {
            return Err(ParseError::invalid_instruction_data("SPL Token decimals exceed the supported scale"));
        }
        let fresh_needed = match op {
            TokenOp::Transfer { .. } | TokenOp::Burn { .. } | TokenOp::Approve { .. } | TokenOp::Revoke
            | TokenOp::CloseAccount => true,
            _ => false,
        };
        let fresh = if fresh_needed { new_unique_key() } else { AccountKey::new_from_array([0u8; 32]) };
        let res = self.parse_decoded(program_id, instruction_data, account_keys, op, fresh);
        assert(spl_parse_outcome(res, program_id, instruction_data@, account_keys@, op, fresh));
        res
    }

    /// Parses a mint (82 bytes) or token account (165 bytes); other sizes
    /// are an error. The contents are not read: the result names a fresh
    /// mint.
    pub fn parse_account(&self, account_data: &[u8]) -> (res: Result<ParseResult, ParseError>)
        ensures
            account_data@.len() == 82 ==> (res matches Ok(ParseResult::SplToken(d))
                && d@ == spl_account_view(SplTokenOperation::InitializeMint, d.mint)),
            account_data@.len() == 165 ==> (res matches Ok(ParseResult::SplToken(d))
                && d@ == spl_account_view(SplTokenOperation::CreateAccount, d.mint)),
            account_data@.len() != 82 && account_data@.len() != 165 ==>
                (res matches Err(ParseError::InvalidInstructionData { reason })
                && reason@ == "Invalid SPL Token account size"@),
    {
        if account_data.len() == 82 {
            self.parse_mint_account(account_data)
        } else if account_data.len() == 165 {
            self.parse_token_account(account_data)
        } else {
            Err(ParseError::invalid_instruction_data("Invalid SPL Token account size"))
        }
    }

    fn parse_mint_account(&self, account_data: &[u8]) -> (res: Result<ParseResult, ParseError>)
        ensures
            account_data@.len() == 82 ==> (res matches Ok(ParseResult::SplToken(d))
                && d@ == spl_account_view(SplTokenOperation::InitializeMint, d.mint)),
            account_data@.len() != 82 ==> (res matches Err(ParseError::InsufficientData { expected: 82, actual })
                && actual == account_data@.len()),
    {
        if account_data.len() != 82 {
            return Err(ParseError::insufficient_data(82, account_data.len()));
        }
        let fresh = new_unique_key();
        let d = spl_data(SplTokenOperation::InitializeMint, fresh, 0, 6, None, None, None, Vec::new(), decimal_new(0, 0));
        assert(d@ == spl_account_view(SplTokenOperation::InitializeMint, fresh));
        Ok(ParseResult::SplToken(d))
    }

    fn parse_token_account(&self, account_data: &[u8]) -> (res: Result<ParseResult, ParseError>)
        ensures
            account_data@.len() == 165 ==> (res matches Ok(ParseResult::SplToken(d))
                && d@ == spl_account_view(SplTokenOperation::CreateAccount, d.mint)),
            account_data@.len() != 165 ==> (res matches Err(ParseError::InsufficientData { expected: 165, actual })
                && actual == account_data@.len()),
    {
        if account_data.len() != 165 {
            return Err(ParseError::insufficient_data(165, account_data.len()));
        }
        let fresh = new_unique_key();
        let d = spl_data(SplTokenOperation::CreateAccount, fresh, 0, 6, None, None, None, Vec::new(), decimal_new(0, 0));
        assert(d@ == spl_account_view(SplTokenOperation::CreateAccount, fresh));
        Ok(ParseResult::SplToken(d))
    }

    fn parse_transfer(&self, amount: u64, keys: &[AccountKey], fresh: AccountKey) -> (res: Result<SplTokenData, ParseError>)
        ensures
            spl_outcome_matches(res, spl_token_expected(TokenOp::Transfer { amount }, keys@, fresh)),
    {
        if keys.len() < 3 {
            return too_few(3, keys.len());
        }
        Ok(spl_data(SplTokenOperation::Transfer, fresh, amount, 6, Some(keys[0]), Some(keys[1]), Some(keys[2]),
            keys_from(keys, 3), decimal_new(amount as i64, 6)))
    }

    fn parse_transfer_checked(&self, amount: u64, decimals: u8, keys: &[AccountKey]) -> (res: Result<SplTokenData, ParseError>)
        requires
            decimals <= 28,
        ensures
            forall|fresh: AccountKey| spl_outcome_matches(res,
                spl_token_expected(TokenOp::TransferChecked { amount, decimals }, keys@, fresh)),
    {
        if keys.len() < 4 {
            return too_few(4, keys.len());
        }
        Ok(spl_data(SplTokenOperation::TransferChecked, keys[3], amount, decimals, Some(keys[0]), Some(keys[1]),
            Some(keys[2]), keys_from(keys, 4), decimal_new(amount as i64, decimals as u32)))
    }

    fn parse_mint_to(&self, amount: u64, keys: &[AccountKey]) -> (res: Result<SplTokenData, ParseError>)
        ensures
            forall|fresh: AccountKey| spl_outcome_matches(res, spl_token_expected(TokenOp::MintTo { amount }, keys@, fresh)),
    {
        if keys.len() < 3 {
            return too_few(3, keys.len());
        }
        Ok(spl_data(SplTokenOperation::MintTo, keys[0], amount, 6, None, Some(keys[1]), Some(keys[2]),
            keys_from(keys, 3), decimal_new(amount as i64, 6)))
    }

    fn parse_burn(&self, amount: u64, keys: &[AccountKey], fresh: AccountKey) -> (res: Result<SplTokenData, ParseError>)
        ensures
            spl_outcome_matches(res, spl_token_expected(TokenOp::Burn { amount }, keys@, fresh)),
    {
        if keys.len() < 3 {
            return too_few(3, keys.len());
        }
        Ok(spl_data(SplTokenOperation::Burn, fresh, amount, 6, Some(keys[0]), None, Some(keys[2]),
            keys_from(keys, 3), decimal_new(amount as i64, 6)))
    }

    fn parse_burn_checked(&self, amount: u64, decimals: u8, keys: &[AccountKey]) -> (res: Result<SplTokenData, ParseError>)
        requires
            decimals <= 28,
        ensures
            forall|fresh: AccountKey| spl_outcome_matches(res,
                spl_token_expected(TokenOp::BurnChecked { amount, decimals }, keys@, fresh)),
    {
        if keys.len() < 4 {
            return too_few(4, keys.len());
        }
        Ok(spl_data(SplTokenOperation::BurnChecked, keys[1], amount, decimals, Some(keys[0]), None, Some(keys[2]),
            keys_from(keys, 4), decimal_new(amount as i64, decimals as u32)))
    }

    fn parse_approve(&self, amount: u64, keys: &[AccountKey], fresh: AccountKey) -> (res: Result<SplTokenData, ParseError>)
        ensures
            spl_outcome_matches(res, spl_token_expected(TokenOp::Approve { amount }, keys@, fresh)),
    {
        if keys.len() < 3 {
            return too_few(3, keys.len());
        }
        Ok(spl_data(SplTokenOperation::Approve, fresh, amount, 6, Some(keys[0]), Some(keys[1]), Some(keys[2]),
            keys_from(keys, 3), decimal_new(amount as i64, 6)))
    }

    fn parse_revoke(&self, keys: &[AccountKey], fresh: AccountKey) -> (res: Result<SplTokenData, ParseError>)
        ensures
            spl_outcome_matches(res, spl_token_expected(TokenOp::Revoke, keys@, fresh)),
    {
        if keys.len() < 2 {
            return too_few(2, keys.len());
        }
        Ok(spl_data(SplTokenOperation::Revoke, fresh, 0, 6, Some(keys[0]), None, Some(keys[1]),
            keys_from(keys, 2), decimal_new(0, 0)))
    }

    fn parse_initialize_mint(
        &self,
        decimals: u8,
        mint_authority: Option<AccountKey>,
        freeze_authority: Option<AccountKey>,
        keys: &[AccountKey],
    ) -> (res: Result<SplTokenData, ParseError>)
        requires
            mint_authority is Some,
        ensures
            forall|fresh: AccountKey| spl_outcome_matches(res, spl_token_expected(
                TokenOp::InitializeMint { decimals, mint_authority: mint_authority->0, freeze_authority }, keys@, fresh)),
    {
        if keys.len() == 0 {
            return too_few(1, 0);
        }
        Ok(SplTokenData {
            operation_type: SplTokenOperation::InitializeMint,
            mint: keys[0],
            amount: 0,
            decimals,
            from: None,
            to: None,
            authority: mint_authority,
            multisig_signers: Vec::new(),
            parsed_amount: decimal_new(0, 0),
            symbol: None,
            metadata: SplTokenMetadata {
                name: None,
                symbol: None,
                logo_uri: None,
                total_supply: Some(0),
                is_initialized: true,
                freeze_authority,
                mint_authority,
            },
        })
    }

    fn parse_initialize_account(&self, keys: &[AccountKey]) -> (res: Result<SplTokenData, ParseError>)
        ensures
            forall|fresh: AccountKey| spl_outcome_matches(res, spl_token_expected(TokenOp::InitializeAccount, keys@, fresh)),
    {
        if keys.len() < 3 {
            return too_few(3, keys.len());
        }
        Ok(spl_data(SplTokenOperation::CreateAccount, keys[1], 0, 6, None, Some(keys[0]), Some(keys[2]),
            Vec::new(), decimal_new(0, 0)))
    }

    fn parse_close_account(&self, keys: &[AccountKey], fresh: AccountKey) -> (res: Result<SplTokenData, ParseError>)
        ensures
            spl_outcome_matches(res, spl_token_expected(TokenOp::CloseAccount, keys@, fresh)),
    {
        if keys.len() < 3 {
            return too_few(3, keys.len());
        }
        Ok(spl_data(SplTokenOperation::CloseAccount, fresh, 0, 6, Some(keys[0]), Some(keys[1]), Some(keys[2]),
            keys_from(keys, 3), decimal_new(0, 0)))
    }

    fn parse_set_authority(&self, new_authority: Option<AccountKey>, keys: &[AccountKey]) -> (res: Result<SplTokenData, ParseError>)
        ensures
            forall|fresh: AccountKey| spl_outcome_matches(res,
                spl_token_expected(TokenOp::SetAuthority { new_authority }, keys@, fresh)),
    {
        if keys.len() < 2 {
            return too_few(2, keys.len());
        }
        Ok(spl_data(SplTokenOperation::SetAuthority, keys[0], 0, 6, None, new_authority, Some(keys[1]),
            keys_from(keys, 2), decimal_new(0, 0)))
    }
}

} // verus!
