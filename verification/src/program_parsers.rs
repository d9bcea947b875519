//! The parsers of the Metaplex, Jupiter, Raydium, Orca, Serum, Solend,
//! Marinade and Anchor programs. They do not decode the instruction yet:
//! each but the Anchor parser reports a fixed sample operation of its
//! program under fresh keys; the Anchor parser reports the instruction's
//! discriminator and names its accounts.

use vstd::prelude::*;
use crate::parse_error::ParseError;
use crate::program_types::{
    AnchorAccount, AnchorAccountView, AnchorData, AnchorDataView, Creator, JupiterData, JupiterDataView,
    JupiterOperation, LiquidityInfo, MarinadeData, MarinadeDataView, MarinadeOperation, MetaplexData,
    MetaplexDataView, MetaplexOperation, OrcaData, OrcaDataView, OrcaOperation, OrderSide, ParseResult,
    RaydiumData, RaydiumFees, RaydiumOperation, SerumData, SerumFees, SerumOperation, SolendData,
    SolendOperation, bytes_to_vec,
};
use crate::solana_key::{AccountKey, new_unique_key};
use crate::text::{concat_str, decimal, u64_to_decimal};

verus! {

/// The sample NFT mint that the Metaplex parser reports: "Demo NFT"
/// ("DEMO", five per cent royalties), without creators, collection, uses
/// or attributes, not compressed.
pub open spec fn metaplex_demo(d: MetaplexDataView) -> bool {
    &&& d.operation_type == MetaplexOperation::MintNft
    &&& d.name == "Demo NFT"@
    &&& d.symbol == "DEMO"@
    &&& d.uri == "https://example.com/nft.json"@
    &&& d.creators.len() == 0
    &&& d.seller_fee_basis_points == 500
    &&& d.collection is None
    &&& d.uses is None
    &&& !d.is_compressed
    &&& d.tree_authority is None
    &&& d.leaf_id is None
    &&& d.attributes.len() == 0
}

/// The sample mint of the demonstration data: "Cool NFT #123" ("COOL",
/// five per cent royalties) with one verified creator holding the whole
/// share.
pub open spec fn metaplex_mock(d: MetaplexDataView) -> bool {
    &&& d.operation_type == MetaplexOperation::MintNft
    &&& d.name == "Cool NFT #123"@
    &&& d.symbol == "COOL"@
    &&& d.uri == "https://example.com/nft/123.json"@
    &&& d.creators.len() == 1
    &&& d.creators[0].verified
    &&& d.creators[0].share == 100
    &&& d.seller_fee_basis_points == 500
    &&& d.collection is None
    &&& d.uses is None
    &&& !d.is_compressed
    &&& d.tree_authority is None
    &&& d.leaf_id is None
    &&& d.attributes.len() == 0
}

/// The sample Whirlpool swap the Orca parser reports.
pub open spec fn orca_demo(d: OrcaDataView) -> bool {
    &&& d.operation_type == OrcaOperation::Swap
    &&& d.position is None
    &&& d.tick_current_index == 1000
    &&& d.tick_lower_index is None
    &&& d.tick_upper_index is None
    &&& d.liquidity == 1000000
    &&& d.fee_tier == 3000
    &&& d.rewards.len() == 0
}

/// The sample bid the Serum parser reports.
pub open spec fn serum_demo(d: SerumData) -> bool {
    &&& d.operation_type == SerumOperation::PlaceOrder
    &&& d.side == OrderSide::Bid
    &&& d.price == 10000
    &&& d.quantity == 1000
    &&& d.order_id == Some(12345u128)
    &&& d.client_order_id == Some(67890u64)
    &&& d.fees.base_fee == 100
    &&& d.fees.quote_fee == 50
    &&& d.fees.referrer_rebate is None
}

/// The sample swap the Jupiter parser reports: no route or fees, ten basis
/// points of price impact, no referrer.
pub open spec fn jupiter_demo(d: JupiterDataView) -> bool {
    &&& d.operation_type == JupiterOperation::Swap
    &&& d.input_amount == 1000000
    &&& d.output_amount == 995000
    &&& d.minimum_output_amount == 990000
    &&& d.slippage_bps == 50
    &&& d.route.len() == 0
    &&& d.fees.len() == 0
    &&& d.price_impact_bps == Some(10u64)
    &&& d.referrer is None
}

/// The sample swap the Raydium parser reports.
pub open spec fn raydium_demo(d: RaydiumData) -> bool {
    &&& d.operation_type == RaydiumOperation::Swap
    &&& d.token_a_amount == 1000000
    &&& d.token_b_amount == 2000000
    &&& d.pool_token_amount is None
    &&& d.liquidity_info == (LiquidityInfo {
        total_supply: 1000000,
        reserve_a: 500000,
        reserve_b: 500000,
        price_a_to_b_bps: 20000,
        price_b_to_a_bps: 5000,
    })
    &&& d.fees == (RaydiumFees { trade_fee_rate: 25, protocol_fee_rate: 5, fund_fee_rate: 5 })
}

/// The sample deposit the Solend parser reports.
pub open spec fn solend_demo(d: SolendData) -> bool {
    &&& d.operation_type == SolendOperation::DepositReserveLiquidity
    &&& d.amount == 1000000
    &&& d.health_factor_bps == Some(15000u64)
    &&& d.ltv_bps == Some(7500u64)
    &&& d.liquidation_threshold_bps == Some(8500u64)
}

/// The sample deposit the Marinade parser reports.
pub open spec fn marinade_demo(d: MarinadeDataView) -> bool {
    &&& d.operation_type == MarinadeOperation::Deposit
    &&& d.sol_amount == Some(1000000000u64)
    &&& d.msol_amount == Some(950000000u64)
    &&& d.exchange_rate_bps == 9500
    &&& d.validator_list is None
}

/// What the Anchor parser reports of an instruction: the program, an
/// unknown instruction name, the first eight bytes of the data as the
/// discriminator (none where the data is shorter), each account under the
/// name `account_<index>` and no flags, and no arguments, IDL version or
/// program name.
pub open spec fn anchor_view(program_id: AccountKey, data: Seq<u8>, keys: Seq<AccountKey>) -> AnchorDataView {
    AnchorDataView {
        program_id,
        instruction_name: "unknown"@,
        instruction_discriminator: if data.len() >= 8 { data.subrange(0, 8) } else { Seq::empty() },
        accounts: Seq::new(keys.len(), |i: int| AnchorAccountView {
            name: "account_"@ + decimal(i as nat),
            pubkey: keys[i],
            is_signer: false,
            is_writable: false,
            is_optional: false,
        }),
        instruction_data: Seq::empty(),
        idl_version: None,
        program_name: None,
    }
}

/// The parser of the Metaplex token-metadata program.
pub struct MetaplexParser;

impl MetaplexParser {
    pub fn new() -> (res: Self) {
        MetaplexParser
    }

    /// The sample NFT mint, under a fresh mint and metadata account.
    pub fn parse(&self, program_id: &AccountKey, instruction_data: &[u8], account_keys: &[AccountKey])
        -> (res: Result<ParseResult, ParseError>)
        ensures
            res matches Ok(ParseResult::Metaplex(d)) && metaplex_demo(d@),
    {
        let d = MetaplexData {
            operation_type: MetaplexOperation::MintNft,
            mint: new_unique_key(),
            metadata_account: new_unique_key(),
            name: "Demo NFT".to_owned(),
            symbol: "DEMO".to_owned(),
            uri: "https://example.com/nft.json".to_owned(),
            creators: Vec::new(),
            seller_fee_basis_points: 500,
            collection: None,
            uses: None,
            is_compressed: false,
            tree_authority: None,
            leaf_id: None,
            attributes: Vec::new(),
        };
        proof {
            assert(d@.attributes =~= Seq::<(Seq<char>, Seq<char>)>::empty());
        }
        Ok(ParseResult::Metaplex(d))
    }

    /// Metaplex accounts are not read: always the error saying so.
    pub fn parse_account(&self, account_data: &[u8]) -> (res: Result<ParseResult, ParseError>)
        ensures
            res matches Err(ParseError::Internal(r)) && r@ == "Metaplex account parsing not implemented"@,
    {
        Err(ParseError::internal("Metaplex account parsing not implemented"))
    }
}

/// The sample NFT mint of the demonstration data, under fresh keys.
pub fn mock_metaplex_data() -> (res: MetaplexData)
    ensures
        metaplex_mock(res@),
{
    let mut creators: Vec<Creator> = Vec::new();
    creators.push(Creator { address: new_unique_key(), verified: true, share: 100 });
    let d = MetaplexData {
        operation_type: MetaplexOperation::MintNft,
        mint: new_unique_key(),
        metadata_account: new_unique_key(),
        name: "Cool NFT #123".to_owned(),
        symbol: "COOL".to_owned(),
        uri: "https://example.com/nft/123.json".to_owned(),
        creators,
        seller_fee_basis_points: 500,
        collection: None,
        uses: None,
        is_compressed: false,
        tree_authority: None,
        leaf_id: None,
        attributes: Vec::new(),
    };
    proof {
        assert(d@.attributes =~= Seq::<(Seq<char>, Seq<char>)>::empty());
    }
    d
}

/// The parser of the Orca Whirlpool program.
pub struct OrcaParser;

impl OrcaParser {
    pub fn new() -> (res: Self) {
        OrcaParser
    }

    /// The sample Whirlpool swap, under fresh keys.
    pub fn parse(&self, program_id: &AccountKey, instruction_data: &[u8], account_keys: &[AccountKey])
        -> (res: Result<ParseResult, ParseError>)
        ensures
            res matches Ok(ParseResult::Orca(d)) && orca_demo(d@),
    {
        Ok(ParseResult::Orca(OrcaData {
            operation_type: OrcaOperation::Swap,
            whirlpool: new_unique_key(),
            position: None,
            token_a: new_unique_key(),
            token_b: new_unique_key(),
            tick_current_index: 1000,
            tick_lower_index: None,
            tick_upper_index: None,
            liquidity: 1000000,
            fee_tier: 3000,
            rewards: Vec::new(),
        }))
    }
}

/// The parser of the Serum order-book program.
pub struct SerumParser;

impl SerumParser {
    pub fn new() -> (res: Self) {
        SerumParser
    }

    /// The sample bid, under fresh keys.
    pub fn parse(&self, program_id: &AccountKey, instruction_data: &[u8], account_keys: &[AccountKey])
        -> (res: Result<ParseResult, ParseError>)
        ensures
            res matches Ok(ParseResult::Serum(d)) && serum_demo(d),
    {
        Ok(ParseResult::Serum(SerumData {
            operation_type: SerumOperation::PlaceOrder,
            market: new_unique_key(),
            base_mint: new_unique_key(),
            quote_mint: new_unique_key(),
            side: OrderSide::Bid,
            price: 10000,
            quantity: 1000,
            order_id: Some(12345),
            client_order_id: Some(67890),
            fees: SerumFees { base_fee: 100, quote_fee: 50, referrer_rebate: None },
        }))
    }
}

/// The parser of the Jupiter aggregator.
pub struct JupiterParser;

impl JupiterParser {
    pub fn new() -> (res: Self) {
        JupiterParser
    }

    /// The sample swap, under fresh keys.
    pub fn parse(&self, program_id: &AccountKey, instruction_data: &[u8], account_keys: &[AccountKey])
        -> (res: Result<ParseResult, ParseError>)
        ensures
            res matches Ok(ParseResult::Jupiter(d)) && jupiter_demo(d@),
    {
        let d = JupiterData {
            operation_type: JupiterOperation::Swap,
            input_mint: new_unique_key(),
            output_mint: new_unique_key(),
            input_amount: 1000000,
            output_amount: 995000,
            minimum_output_amount: 990000,
            slippage_bps: 50,
            route: Vec::new(),
            fees: Vec::new(),
            price_impact_bps: Some(10),
            user_wallet: new_unique_key(),
            referrer: None,
        };
        Ok(ParseResult::Jupiter(d))
    }
}

/// The parser of the Raydium AMM.
pub struct RaydiumParser;

impl RaydiumParser {
    pub fn new() -> (res: Self) {
        RaydiumParser
    }

    /// The sample swap, under fresh keys.
    pub fn parse(&self, program_id: &AccountKey, instruction_data: &[u8], account_keys: &[AccountKey])
        -> (res: Result<ParseResult, ParseError>)
        ensures
            res matches Ok(ParseResult::Raydium(d)) && raydium_demo(d),
    {
        Ok(ParseResult::Raydium(RaydiumData {
            operation_type: RaydiumOperation::Swap,
            amm_id: new_unique_key(),
            token_a_mint: new_unique_key(),
            token_b_mint: new_unique_key(),
            token_a_amount: 1000000,
            token_b_amount: 2000000,
            pool_token_amount: None,
            user_wallet: new_unique_key(),
            liquidity_info: LiquidityInfo {
                total_supply: 1000000,
                reserve_a: 500000,
                reserve_b: 500000,
                price_a_to_b_bps: 20000,
                price_b_to_a_bps: 5000,
            },
            fees: RaydiumFees { trade_fee_rate: 25, protocol_fee_rate: 5, fund_fee_rate: 5 },
        }))
    }
}

/// The parser of the Solend lending program.
pub struct SolendParser;

impl SolendParser {
    pub fn new() -> (res: Self) {
        SolendParser
    }

    /// The sample deposit, under fresh keys.
    pub fn parse(&self, program_id: &AccountKey, instruction_data: &[u8], account_keys: &[AccountKey])
        -> (res: Result<ParseResult, ParseError>)
        ensures
            res matches Ok(ParseResult::Solend(d)) && solend_demo(d),
    {
        Ok(ParseResult::Solend(SolendData {
            operation_type: SolendOperation::DepositReserveLiquidity,
            lending_market: new_unique_key(),
            reserve: new_unique_key(),
            collateral_mint: new_unique_key(),
            liquidity_mint: new_unique_key(),
            amount: 1000000,
            user_wallet: new_unique_key(),
            health_factor_bps: Some(15000),
            ltv_bps: Some(7500),
            liquidation_threshold_bps: Some(8500),
        }))
    }
}

/// The parser of the Marinade staking program.
pub struct MarinadeParser;

impl MarinadeParser {
    pub fn new() -> (res: Self) {
        MarinadeParser
    }

    /// The sample deposit, under fresh keys.
    pub fn parse(&self, program_id: &AccountKey, instruction_data: &[u8], account_keys: &[AccountKey])
        -> (res: Result<ParseResult, ParseError>)
        ensures
            res matches Ok(ParseResult::Marinade(d)) && marinade_demo(d@),
    {
        Ok(ParseResult::Marinade(MarinadeData {
            operation_type: MarinadeOperation::Deposit,
            marinade_state: new_unique_key(),
            msol_mint: new_unique_key(),
            sol_amount: Some(1000000000),
            msol_amount: Some(950000000),
            exchange_rate_bps: 9500,
            user_wallet: new_unique_key(),
            validator_list: None,
        }))
    }
}

/// The parser of programs built with the Anchor framework.
pub struct AnchorParser;

impl AnchorParser {
    pub fn new() -> (res: Self) {
        AnchorParser
    }

    /// The discriminator and the named accounts of the instruction.
    pub fn parse(&self, program_id: &AccountKey, instruction_data: &[u8], account_keys: &[AccountKey])
        -> (res: Result<ParseResult, ParseError>)
        ensures
            res matches Ok(ParseResult::Anchor(d)) && d@ == anchor_view(*program_id, instruction_data@, account_keys@),
    {
        let discriminator: Vec<u8> = if instruction_data.len() >= 8 {
            let mut v: Vec<u8> = Vec::new();
            let mut i: usize = 0;
            while i < 8
                invariant
                    i <= 8,
                    8 <= instruction_data@.len(),
                    v@ == instruction_data@.subrange(0, i as int),
                decreases 8 - i,
            {
                v.push(instruction_data[i]);
                i = i + 1;
            }
            v
        } else {
            Vec::new()
        };
        let mut accounts: Vec<AnchorAccount> = Vec::new();
        let mut i: usize = 0;
        while i < account_keys.len()
            invariant
                i <= account_keys@.len(),
                accounts@.len() == i,
                forall|j: int| 0 <= j < i ==> (#[trigger] accounts@[j])@ == (AnchorAccountView {
                    name: "account_"@ + decimal(j as nat),
                    pubkey: account_keys@[j],
                    is_signer: false,
                    is_writable: false,
                    is_optional: false,
                }),
            decreases account_keys@.len() - i,
        {
            let index_text = u64_to_decimal(i as u64);
            accounts.push(AnchorAccount {
                name: concat_str("account_", index_text.as_str()),
                pubkey: account_keys[i],
                is_signer: false,
                is_writable: false,
                is_optional: false,
            });
            i = i + 1;
        }
        let d = AnchorData {
            program_id: *program_id,
            instruction_name: "unknown".to_owned(),
            instruction_discriminator: discriminator,
            accounts,
            instruction_data: Vec::new(),
            idl_version: None,
            program_name: None,
        };
        proof {
            let w = anchor_view(*program_id, instruction_data@, account_keys@);
            assert(d@.accounts =~= w.accounts);
            assert(d@.instruction_discriminator =~= w.instruction_discriminator);
            assert(d@.instruction_data =~= w.instruction_data);
            assert(d@ == w);
        }
        Ok(ParseResult::Anchor(d))
    }
}

} // verus!
