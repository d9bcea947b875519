//! The values that program detection and instruction parsing produce.

use vstd::prelude::*;
use rust_decimal::Decimal;
use crate::solana_key::AccountKey;

verus! {

/// The programs the parser knows.
#[derive(Debug, Clone, Copy, PartialEq, Eq, Hash, Structural)]
pub enum ProgramType {
    SplToken,
    Metaplex,
    Jupiter,
    Raydium,
    Orca,
    Serum,
    Solend,
    Marinade,
    Anchor,
    System,
    Unknown,
}

/// How a program type was found.
#[derive(Debug, Clone, Copy, PartialEq, Eq, Structural)]
pub enum DetectionMethod {
    ProgramId,
    InstructionPattern,
    AccountStructure,
    DataSignature,
    Heuristic,
}

/// The detected program type, how sure the detector is (in percent), how
/// it found it, and notes as key/value pairs.
#[derive(Debug, Clone)]
pub struct DetectionResult {
    pub program_type: ProgramType,
    pub confidence_percent: u8,
    pub detection_method: DetectionMethod,
    pub metadata: Vec<(String, String)>,
}

/// The SPL Token operations the parser reports.
#[derive(Debug, Clone, Copy, PartialEq, Eq, Structural)]
pub enum SplTokenOperation {
    Transfer,
    Mint,
    Burn,
    Approve,
    Revoke,
    CreateAccount,
    CloseAccount,
    InitializeMint,
    SetAuthority,
    MintTo,
    BurnChecked,
    TransferChecked,
}

/// What is known of a token mint.
#[derive(Debug)]
pub struct SplTokenMetadata {
    pub name: Option<String>,
    pub symbol: Option<String>,
    pub logo_uri: Option<String>,
    pub total_supply: Option<u64>,
    pub is_initialized: bool,
    pub freeze_authority: Option<AccountKey>,
    pub mint_authority: Option<AccountKey>,
}

/// An SPL Token operation with its accounts and amounts.
#[derive(Debug)]
pub struct SplTokenData {
    pub operation_type: SplTokenOperation,
    pub mint: AccountKey,
    pub amount: u64,
    pub decimals: u8,
    pub from: Option<AccountKey>,
    pub to: Option<AccountKey>,
    pub authority: Option<AccountKey>,
    pub multisig_signers: Vec<AccountKey>,
    pub parsed_amount: Decimal,
    pub symbol: Option<String>,
    pub metadata: SplTokenMetadata,
}

/// Instruction or account data of a program the parser could not read,
/// with the parser's guess (confidence in percent) and hints.
#[derive(Debug)]
pub struct UnknownData {
    pub program_id: AccountKey,
    pub instruction_data: Vec<u8>,
    pub accounts: Vec<AccountKey>,
    pub suspected_program_type: Option<String>,
    pub confidence_percent: u8,
    pub raw_bytes: Vec<u8>,
    pub parsing_hints: Vec<String>,
}

/// A parse result of the programs the library reads itself.
#[derive(Debug)]
pub enum ParseResult {
    SplToken(SplTokenData),
    Metaplex(MetaplexData),
    Jupiter(JupiterData),
    Raydium(RaydiumData),
    Orca(OrcaData),
    Serum(SerumData),
    Solend(SolendData),
    Marinade(MarinadeData),
    Anchor(AnchorData),
    Unknown(UnknownData),
}

/// The Metaplex operations.
#[derive(Debug, Clone, Copy, PartialEq, Eq, Structural)]
pub enum MetaplexOperation {
    CreateMetadata,
    UpdateMetadata,
    MintNft,
    TransferNft,
    BurnNft,
    VerifyCreator,
    UnverifyCreator,
    VerifyCollection,
    UnverifyCollection,
    MintToCollectionV1,
    TransferV1,
    BurnV1,
    DecompressV1,
}

/// A creator of an NFT and its share of royalties.
#[derive(Debug, Clone, Copy)]
pub struct Creator {
    pub address: AccountKey,
    pub verified: bool,
    pub share: u8,
}

/// The collection an NFT belongs to.
#[derive(Debug, Clone, Copy)]
pub struct Collection {
    pub verified: bool,
    pub key: AccountKey,
}

/// How the uses of an NFT are spent.
#[derive(Debug, Clone, Copy, PartialEq, Eq, Structural)]
pub enum UseMethod {
    Burn,
    Multiple,
    Single,
}

/// The uses of an NFT.
#[derive(Debug, Clone, Copy, PartialEq, Eq, Structural)]
pub struct Uses {
    pub use_method: UseMethod,
    pub remaining: u64,
    pub total: u64,
}

/// A Metaplex operation on an NFT and its metadata.
#[derive(Debug)]
pub struct MetaplexData {
    pub operation_type: MetaplexOperation,
    pub mint: AccountKey,
    pub metadata_account: AccountKey,
    pub name: String,
    pub symbol: String,
    pub uri: String,
    pub creators: Vec<Creator>,
    pub seller_fee_basis_points: u16,
    pub collection: Option<Collection>,
    pub uses: Option<Uses>,
    pub is_compressed: bool,
    pub tree_authority: Option<AccountKey>,
    pub leaf_id: Option<u32>,
    pub attributes: Vec<(String, String)>,
}

/// The Orca Whirlpool operations.
#[derive(Debug, Clone, Copy, PartialEq, Eq, Structural)]
pub enum OrcaOperation {
    Swap,
    OpenPosition,
    ClosePosition,
    IncreaseLiquidity,
    DecreaseLiquidity,
    CollectFees,
    CollectReward,
}

/// A reward of a Whirlpool.
#[derive(Debug, Clone, Copy)]
pub struct RewardInfo {
    pub mint: AccountKey,
    pub amount: u64,
    pub decimals: u8,
}

/// An Orca Whirlpool operation.
#[derive(Debug)]
pub struct OrcaData {
    pub operation_type: OrcaOperation,
    pub whirlpool: AccountKey,
    pub position: Option<AccountKey>,
    pub token_a: AccountKey,
    pub token_b: AccountKey,
    pub tick_current_index: i32,
    pub tick_lower_index: Option<i32>,
    pub tick_upper_index: Option<i32>,
    pub liquidity: u128,
    pub fee_tier: u16,
    pub rewards: Vec<RewardInfo>,
}

/// The Serum order-book operations.
#[derive(Debug, Clone, Copy, PartialEq, Eq, Structural)]
pub enum SerumOperation {
    PlaceOrder,
    CancelOrder,
    MatchOrders,
    ConsumeEvents,
    SettleFunds,
}

/// The side of an order.
#[derive(Debug, Clone, Copy, PartialEq, Eq, Structural)]
pub enum OrderSide {
    Bid,
    Ask,
}

/// The fees of a Serum operation.
#[derive(Debug, Clone, Copy, PartialEq, Eq, Structural)]
pub struct SerumFees {
    pub base_fee: u64,
    pub quote_fee: u64,
    pub referrer_rebate: Option<u64>,
}

/// A Serum order-book operation.
#[derive(Debug, Clone, Copy)]
pub struct SerumData {
    pub operation_type: SerumOperation,
    pub market: AccountKey,
    pub base_mint: AccountKey,
    pub quote_mint: AccountKey,
    pub side: OrderSide,
    pub price: u64,
    pub quantity: u64,
    pub order_id: Option<u128>,
    pub client_order_id: Option<u64>,
    pub fees: SerumFees,
}

/// The Jupiter aggregator operations.
#[derive(Debug, Clone, Copy, PartialEq, Eq, Structural)]
pub enum JupiterOperation {
    Swap,
    ExactInSwap,
    ExactOutSwap,
    SetTokenLedger,
    Route,
}

/// One hop of a Jupiter route.
#[derive(Debug)]
pub struct RouteStep {
    pub program_id: AccountKey,
    pub program_name: String,
    pub input_mint: AccountKey,
    pub output_mint: AccountKey,
    pub input_amount: u64,
    pub output_amount: u64,
    pub fee_amount: u64,
}

/// Who a Jupiter fee goes to.
#[derive(Debug, Clone, Copy, PartialEq, Eq, Structural)]
pub enum FeeType {
    Platform,
    Referrer,
    Protocol,
    Router,
}

/// A fee of a Jupiter swap.
#[derive(Debug, Clone, Copy)]
pub struct FeeInfo {
    pub fee_type: FeeType,
    pub amount: u64,
    pub mint: AccountKey,
    pub recipient: AccountKey,
}

/// A Jupiter swap; the price impact is in basis points.
#[derive(Debug)]
pub struct JupiterData {
    pub operation_type: JupiterOperation,
    pub input_mint: AccountKey,
    pub output_mint: AccountKey,
    pub input_amount: u64,
    pub output_amount: u64,
    pub minimum_output_amount: u64,
    pub slippage_bps: u16,
    pub route: Vec<RouteStep>,
    pub fees: Vec<FeeInfo>,
    pub price_impact_bps: Option<u64>,
    pub user_wallet: AccountKey,
    pub referrer: Option<AccountKey>,
}

/// The Raydium AMM operations.
#[derive(Debug, Clone, Copy, PartialEq, Eq, Structural)]
pub enum RaydiumOperation {
    Swap,
    AddLiquidity,
    RemoveLiquidity,
    CreatePool,
    Harvest,
}

/// The state of a Raydium pool; prices are in basis points.
#[derive(Debug, Clone, Copy, PartialEq, Eq, Structural)]
pub struct LiquidityInfo {
    pub total_supply: u64,
    pub reserve_a: u64,
    pub reserve_b: u64,
    pub price_a_to_b_bps: u64,
    pub price_b_to_a_bps: u64,
}

/// The fee rates of a Raydium pool.
#[derive(Debug, Clone, Copy, PartialEq, Eq, Structural)]
pub struct RaydiumFees {
    pub trade_fee_rate: u64,
    pub protocol_fee_rate: u64,
    pub fund_fee_rate: u64,
}

/// A Raydium AMM operation.
#[derive(Debug, Clone, Copy)]
pub struct RaydiumData {
    pub operation_type: RaydiumOperation,
    pub amm_id: AccountKey,
    pub token_a_mint: AccountKey,
    pub token_b_mint: AccountKey,
    pub token_a_amount: u64,
    pub token_b_amount: u64,
    pub pool_token_amount: Option<u64>,
    pub user_wallet: AccountKey,
    pub liquidity_info: LiquidityInfo,
    pub fees: RaydiumFees,
}

/// The Solend lending operations.
#[derive(Debug, Clone, Copy, PartialEq, Eq, Structural)]
pub enum SolendOperation {
    DepositReserveLiquidity,
    WithdrawReserveLiquidity,
    BorrowReserveLiquidity,
    RepayReserveLiquidity,
    LiquidateObligation,
    RefreshObligation,
}

/// A Solend lending operation; the ratios are in basis points.
#[derive(Debug, Clone, Copy)]
pub struct SolendData {
    pub operation_type: SolendOperation,
    pub lending_market: AccountKey,
    pub reserve: AccountKey,
    pub collateral_mint: AccountKey,
    pub liquidity_mint: AccountKey,
    pub amount: u64,
    pub user_wallet: AccountKey,
    pub health_factor_bps: Option<u64>,
    pub ltv_bps: Option<u64>,
    pub liquidation_threshold_bps: Option<u64>,
}

/// The Marinade staking operations.
#[derive(Debug, Clone, Copy, PartialEq, Eq, Structural)]
pub enum MarinadeOperation {
    Deposit,
    DepositStakeAccount,
    LiquidUnstake,
    DelayedUnstake,
    Claim,
    UpdateState,
}

/// A Marinade staking operation; the exchange rate is in basis points.
#[derive(Debug)]
pub struct MarinadeData {
    pub operation_type: MarinadeOperation,
    pub marinade_state: AccountKey,
    pub msol_mint: AccountKey,
    pub sol_amount: Option<u64>,
    pub msol_amount: Option<u64>,
    pub exchange_rate_bps: u64,
    pub user_wallet: AccountKey,
    pub validator_list: Option<Vec<AccountKey>>,
}

/// An account of an Anchor instruction.
#[derive(Debug)]
pub struct AnchorAccount {
    pub name: String,
    pub pubkey: AccountKey,
    pub is_signer: bool,
    pub is_writable: bool,
    pub is_optional: bool,
}

/// An instruction of an Anchor program; its arguments are pairs of a name
/// and a JSON text.
#[derive(Debug)]
pub struct AnchorData {
    pub program_id: AccountKey,
    pub instruction_name: String,
    pub instruction_discriminator: Vec<u8>,
    pub accounts: Vec<AnchorAccount>,
    pub instruction_data: Vec<(String, String)>,
    pub idl_version: Option<String>,
    pub program_name: Option<String>,
}

/// Switches of the parser.
#[derive(Debug, Clone, Copy)]
pub struct ParseConfig {
    pub enable_metadata_lookup: bool,
    pub enable_price_lookup: bool,
    pub cache_results: bool,
    pub max_cache_size: usize,
    pub cache_ttl_seconds: u64,
    pub parallel_parsing: bool,
    pub max_retries: u32,
}

impl ParseConfig {
    /// The default configuration as a value.
    pub open spec fn default_spec() -> ParseConfig {
        ParseConfig {
            enable_metadata_lookup: true,
            enable_price_lookup: false,
            cache_results: true,
            max_cache_size: 10000,
            cache_ttl_seconds: 300,
            parallel_parsing: true,
            max_retries: 3,
        }
    }
}

impl Default for ParseConfig {
    fn default() -> (res: Self)
        ensures
            res == ParseConfig::default_spec(),
    {
        ParseConfig {
            enable_metadata_lookup: true,
            enable_price_lookup: false,
            cache_results: true,
            max_cache_size: 10000,
            cache_ttl_seconds: 300,
            parallel_parsing: true,
            max_retries: 3,
        }
    }
}

/// The text of an optional string.
pub open spec fn opt_text(s: Option<String>) -> Option<Seq<char>> {
    match s {
        Some(t) => Some(t@),
        None => None,
    }
}

/// Token metadata as values.
pub struct SplTokenMetadataView {
    pub name: Option<Seq<char>>,
    pub symbol: Option<Seq<char>>,
    pub logo_uri: Option<Seq<char>>,
    pub total_supply: Option<u64>,
    pub is_initialized: bool,
    pub freeze_authority: Option<AccountKey>,
    pub mint_authority: Option<AccountKey>,
}

impl View for SplTokenMetadata {
    type V = SplTokenMetadataView;

    open spec fn view(&self) -> SplTokenMetadataView {
        SplTokenMetadataView {
            name: opt_text(self.name),
            symbol: opt_text(self.symbol),
            logo_uri: opt_text(self.logo_uri),
            total_supply: self.total_supply,
            is_initialized: self.is_initialized,
            freeze_authority: self.freeze_authority,
            mint_authority: self.mint_authority,
        }
    }
}

/// An SPL Token operation as values.
pub struct SplTokenDataView {
    pub operation_type: SplTokenOperation,
    pub mint: AccountKey,
    pub amount: u64,
    pub decimals: u8,
    pub from: Option<AccountKey>,
    pub to: Option<AccountKey>,
    pub authority: Option<AccountKey>,
    pub multisig_signers: Seq<AccountKey>,
    pub parsed_amount: Decimal,
    pub symbol: Option<Seq<char>>,
    pub metadata: SplTokenMetadataView,
}

impl View for SplTokenData {
    type V = SplTokenDataView;

    open spec fn view(&self) -> SplTokenDataView {
        SplTokenDataView {
            operation_type: self.operation_type,
            mint: self.mint,
            amount: self.amount,
            decimals: self.decimals,
            from: self.from,
            to: self.to,
            authority: self.authority,
            multisig_signers: self.multisig_signers@,
            parsed_amount: self.parsed_amount,
            symbol: opt_text(self.symbol),
            metadata: self.metadata@,
        }
    }
}

/// The texts of a list of strings.
pub open spec fn texts(v: Seq<String>) -> Seq<Seq<char>> {
    Seq::new(v.len(), |i: int| v[i]@)
}

/// Unreadable program data as values.
pub struct UnknownDataView {
    pub program_id: AccountKey,
    pub instruction_data: Seq<u8>,
    pub accounts: Seq<AccountKey>,
    pub suspected_program_type: Option<Seq<char>>,
    pub confidence_percent: u8,
    pub raw_bytes: Seq<u8>,
    pub parsing_hints: Seq<Seq<char>>,
}

impl View for UnknownData {
    type V = UnknownDataView;

    open spec fn view(&self) -> UnknownDataView {
        UnknownDataView {
            program_id: self.program_id,
            instruction_data: self.instruction_data@,
            accounts: self.accounts@,
            suspected_program_type: opt_text(self.suspected_program_type),
            confidence_percent: self.confidence_percent,
            raw_bytes: self.raw_bytes@,
            parsing_hints: texts(self.parsing_hints@),
        }
    }
}

/// A copy of a byte slice.
pub fn bytes_to_vec(data: &[u8]) -> (res: Vec<u8>)
    ensures
        res@ == data@,
{
    let mut v: Vec<u8> = Vec::new();
    let mut i: usize = 0;
    while i < data.len()
        invariant
            i <= data@.len(),
            v@ == data@.subrange(0, i as int),
        decreases data@.len() - i,
    {
        v.push(data[i]);
        i = i + 1;
    }
    v
}

/// A copy of the keys from index `start` on (none where `start` is past
/// the end).
pub fn keys_from(keys: &[AccountKey], start: usize) -> (res: Vec<AccountKey>)
    ensures
        start <= keys@.len() ==> res@ == keys@.subrange(start as int, keys@.len() as int),
        start > keys@.len() ==> res@.len() == 0,
{
    let mut v: Vec<AccountKey> = Vec::new();
    let mut i: usize = start;
    if start > keys.len() {
        return v;
    }
    while i < keys.len()
        invariant
            start <= i <= keys@.len(),
            v@ == keys@.subrange(start as int, i as int),
        decreases keys@.len() - i,
    {
        v.push(keys[i]);
        i = i + 1;
    }
    v
}

/// The result of an unreadable instruction or account: the data, the keys,
/// a suspected program, a confidence and one hint.
pub fn unknown_data(
    program_id: AccountKey,
    instruction_data: &[u8],
    accounts: &[AccountKey],
    suspected: Option<&str>,
    confidence_percent: u8,
    raw_bytes: &[u8],
    hint: &str,
) -> (res: UnknownData)
    ensures
        res@.program_id == program_id,
        res@.instruction_data == instruction_data@,
        res@.accounts == accounts@,
        res@.suspected_program_type == (match suspected { Some(s) => Some(s@), None => None::<Seq<char>> }),
        res@.confidence_percent == confidence_percent,
        res@.raw_bytes == raw_bytes@,
        res@.parsing_hints == seq![hint@],
{
    let mut hints: Vec<String> = Vec::new();
    hints.push(hint.to_owned());
    let suspected_program_type = match suspected {
        Some(s) => Some(s.to_owned()),
        None => None,
    };
    let mut acc: Vec<AccountKey> = Vec::new();
    let mut i: usize = 0;
    while i < accounts.len()
        invariant
            i <= accounts@.len(),
            acc@ == accounts@.subrange(0, i as int),
        decreases accounts@.len() - i,
    {
        acc.push(accounts[i]);
        i = i + 1;
    }
    let res = UnknownData {
        program_id,
        instruction_data: bytes_to_vec(instruction_data),
        accounts: acc,
        suspected_program_type,
        confidence_percent,
        raw_bytes: bytes_to_vec(raw_bytes),
        parsing_hints: hints,
    };
    proof {
        assert(texts(res.parsing_hints@) =~= seq![hint@]);
    }
    res
}

/// A Metaplex operation as values.
pub struct MetaplexDataView {
    pub operation_type: MetaplexOperation,
    pub mint: AccountKey,
    pub metadata_account: AccountKey,
    pub name: Seq<char>,
    pub symbol: Seq<char>,
    pub uri: Seq<char>,
    pub creators: Seq<Creator>,
    pub seller_fee_basis_points: u16,
    pub collection: Option<Collection>,
    pub uses: Option<Uses>,
    pub is_compressed: bool,
    pub tree_authority: Option<AccountKey>,
    pub leaf_id: Option<u32>,
    pub attributes: Seq<(Seq<char>, Seq<char>)>,
}

/// The texts of a list of pairs of strings.
pub open spec fn text_pairs(v: Seq<(String, String)>) -> Seq<(Seq<char>, Seq<char>)> {
    Seq::new(v.len(), |i: int| (v[i].0@, v[i].1@))
}

impl View for MetaplexData {
    type V = MetaplexDataView;

    open spec fn view(&self) -> MetaplexDataView {
        MetaplexDataView {
            operation_type: self.operation_type,
            mint: self.mint,
            metadata_account: self.metadata_account,
            name: self.name@,
            symbol: self.symbol@,
            uri: self.uri@,
            creators: self.creators@,
            seller_fee_basis_points: self.seller_fee_basis_points,
            collection: self.collection,
            uses: self.uses,
            is_compressed: self.is_compressed,
            tree_authority: self.tree_authority,
            leaf_id: self.leaf_id,
            attributes: text_pairs(self.attributes@),
        }
    }
}

/// An Orca operation as values.
pub struct OrcaDataView {
    pub operation_type: OrcaOperation,
    pub whirlpool: AccountKey,
    pub position: Option<AccountKey>,
    pub token_a: AccountKey,
    pub token_b: AccountKey,
    pub tick_current_index: i32,
    pub tick_lower_index: Option<i32>,
    pub tick_upper_index: Option<i32>,
    pub liquidity: u128,
    pub fee_tier: u16,
    pub rewards: Seq<RewardInfo>,
}

impl View for OrcaData {
    type V = OrcaDataView;

    open spec fn view(&self) -> OrcaDataView {
        OrcaDataView {
            operation_type: self.operation_type,
            whirlpool: self.whirlpool,
            position: self.position,
            token_a: self.token_a,
            token_b: self.token_b,
            tick_current_index: self.tick_current_index,
            tick_lower_index: self.tick_lower_index,
            tick_upper_index: self.tick_upper_index,
            liquidity: self.liquidity,
            fee_tier: self.fee_tier,
            rewards: self.rewards@,
        }
    }
}

/// A hop of a Jupiter route as values.
pub struct RouteStepView {
    pub program_id: AccountKey,
    pub program_name: Seq<char>,
    pub input_mint: AccountKey,
    pub output_mint: AccountKey,
    pub input_amount: u64,
    pub output_amount: u64,
    pub fee_amount: u64,
}

impl View for RouteStep {
    type V = RouteStepView;

    open spec fn view(&self) -> RouteStepView {
        RouteStepView {
            program_id: self.program_id,
            program_name: self.program_name@,
            input_mint: self.input_mint,
            output_mint: self.output_mint,
            input_amount: self.input_amount,
            output_amount: self.output_amount,
            fee_amount: self.fee_amount,
        }
    }
}

/// A Jupiter swap as values.
pub struct JupiterDataView {
    pub operation_type: JupiterOperation,
    pub input_mint: AccountKey,
    pub output_mint: AccountKey,
    pub input_amount: u64,
    pub output_amount: u64,
    pub minimum_output_amount: u64,
    pub slippage_bps: u16,
    pub route: Seq<RouteStepView>,
    pub fees: Seq<FeeInfo>,
    pub price_impact_bps: Option<u64>,
    pub user_wallet: AccountKey,
    pub referrer: Option<AccountKey>,
}

impl View for JupiterData {
    type V = JupiterDataView;

    open spec fn view(&self) -> JupiterDataView {
        JupiterDataView {
            operation_type: self.operation_type,
            input_mint: self.input_mint,
            output_mint: self.output_mint,
            input_amount: self.input_amount,
            output_amount: self.output_amount,
            minimum_output_amount: self.minimum_output_amount,
            slippage_bps: self.slippage_bps,
            route: Seq::new(self.route@.len(), |i: int| self.route@[i]@),
            fees: self.fees@,
            price_impact_bps: self.price_impact_bps,
            user_wallet: self.user_wallet,
            referrer: self.referrer,
        }
    }
}

/// A Marinade staking operation as values.
pub struct MarinadeDataView {
    pub operation_type: MarinadeOperation,
    pub marinade_state: AccountKey,
    pub msol_mint: AccountKey,
    pub sol_amount: Option<u64>,
    pub msol_amount: Option<u64>,
    pub exchange_rate_bps: u64,
    pub user_wallet: AccountKey,
    pub validator_list: Option<Seq<AccountKey>>,
}

impl View for MarinadeData {
    type V = MarinadeDataView;

    open spec fn view(&self) -> MarinadeDataView {
        MarinadeDataView {
            operation_type: self.operation_type,
            marinade_state: self.marinade_state,
            msol_mint: self.msol_mint,
            sol_amount: self.sol_amount,
            msol_amount: self.msol_amount,
            exchange_rate_bps: self.exchange_rate_bps,
            user_wallet: self.user_wallet,
            validator_list: match self.validator_list {
                Some(v) => Some(v@),
                None => None,
            },
        }
    }
}

/// An account of an Anchor instruction as values.
pub struct AnchorAccountView {
    pub name: Seq<char>,
    pub pubkey: AccountKey,
    pub is_signer: bool,
    pub is_writable: bool,
    pub is_optional: bool,
}

impl View for AnchorAccount {
    type V = AnchorAccountView;

    open spec fn view(&self) -> AnchorAccountView {
        AnchorAccountView {
            name: self.name@,
            pubkey: self.pubkey,
            is_signer: self.is_signer,
            is_writable: self.is_writable,
            is_optional: self.is_optional,
        }
    }
}

/// An Anchor instruction as values.
pub struct AnchorDataView {
    pub program_id: AccountKey,
    pub instruction_name: Seq<char>,
    pub instruction_discriminator: Seq<u8>,
    pub accounts: Seq<AnchorAccountView>,
    pub instruction_data: Seq<(Seq<char>, Seq<char>)>,
    pub idl_version: Option<Seq<char>>,
    pub program_name: Option<Seq<char>>,
}

impl View for AnchorData {
    type V = AnchorDataView;

    open spec fn view(&self) -> AnchorDataView {
        AnchorDataView {
            program_id: self.program_id,
            instruction_name: self.instruction_name@,
            instruction_discriminator: self.instruction_discriminator@,
            accounts: Seq::new(self.accounts@.len(), |i: int| self.accounts@[i]@),
            instruction_data: text_pairs(self.instruction_data@),
            idl_version: opt_text(self.idl_version),
            program_name: opt_text(self.program_name),
        }
    }
}

/// A parse result as values.
pub enum ParseResultView {
    SplToken(SplTokenDataView),
    Metaplex(MetaplexDataView),
    Jupiter(JupiterDataView),
    Raydium(RaydiumData),
    Orca(OrcaDataView),
    Serum(SerumData),
    Solend(SolendData),
    Marinade(MarinadeDataView),
    Anchor(AnchorDataView),
    Unknown(UnknownDataView),
}

impl View for ParseResult {
    type V = ParseResultView;

    open spec fn view(&self) -> ParseResultView {
        match self {
            ParseResult::SplToken(d) => ParseResultView::SplToken(d@),
            ParseResult::Metaplex(d) => ParseResultView::Metaplex(d@),
            ParseResult::Jupiter(d) => ParseResultView::Jupiter(d@),
            ParseResult::Raydium(d) => ParseResultView::Raydium(*d),
            ParseResult::Orca(d) => ParseResultView::Orca(d@),
            ParseResult::Serum(d) => ParseResultView::Serum(*d),
            ParseResult::Solend(d) => ParseResultView::Solend(*d),
            ParseResult::Marinade(d) => ParseResultView::Marinade(d@),
            ParseResult::Anchor(d) => ParseResultView::Anchor(d@),
            ParseResult::Unknown(d) => ParseResultView::Unknown(d@),
        }
    }
}

/// A copy of a list of values that are copied.
pub fn copy_items<T: Copy>(v: &Vec<T>) -> (res: Vec<T>)
    ensures
        res@ == v@,
{
    let mut out: Vec<T> = Vec::new();
    let mut i: usize = 0;
    while i < v.len()
        invariant
            i <= v@.len(),
            out@ == v@.subrange(0, i as int),
        decreases v@.len() - i,
    {
        out.push(v[i]);
        i = i + 1;
    }
    assert(out@ =~= v@);
    out
}

/// A copy of a list of pairs of strings.
pub fn clone_text_pairs(v: &Vec<(String, String)>) -> (res: Vec<(String, String)>)
    ensures
        text_pairs(res@) == text_pairs(v@),
{
    let mut out: Vec<(String, String)> = Vec::new();
    let mut i: usize = 0;
    while i < v.len()
        invariant
            i <= v@.len(),
            out@.len() == i,
            forall|j: int| 0 <= j < i ==> (#[trigger] out@[j]).0@ == v@[j].0@ && out@[j].1@ == v@[j].1@,
        decreases v@.len() - i,
    {
        out.push((v[i].0.clone(), v[i].1.clone()));
        i = i + 1;
    }
    assert(text_pairs(out@) =~= text_pairs(v@));
    out
}

impl Clone for MetaplexData {
    fn clone(&self) -> (res: Self)
        ensures
            res@ == self@,
    {
        MetaplexData {
            operation_type: self.operation_type,
            mint: self.mint,
            metadata_account: self.metadata_account,
            name: self.name.clone(),
            symbol: self.symbol.clone(),
            uri: self.uri.clone(),
            creators: copy_items(&self.creators),
            seller_fee_basis_points: self.seller_fee_basis_points,
            collection: self.collection,
            uses: self.uses,
            is_compressed: self.is_compressed,
            tree_authority: self.tree_authority,
            leaf_id: self.leaf_id,
            attributes: clone_text_pairs(&self.attributes),
        }
    }
}

impl Clone for OrcaData {
    fn clone(&self) -> (res: Self)
        ensures
            res@ == self@,
    {
        OrcaData {
            operation_type: self.operation_type,
            whirlpool: self.whirlpool,
            position: self.position,
            token_a: self.token_a,
            token_b: self.token_b,
            tick_current_index: self.tick_current_index,
            tick_lower_index: self.tick_lower_index,
            tick_upper_index: self.tick_upper_index,
            liquidity: self.liquidity,
            fee_tier: self.fee_tier,
            rewards: copy_items(&self.rewards),
        }
    }
}

/// A copy of an optional text.
pub fn clone_opt_text(s: &Option<String>) -> (res: Option<String>)
    ensures
        opt_text(res) == opt_text(*s),
{
    match s {
        Some(t) => Some(t.clone()),
        None => None,
    }
}

/// A copy of a list of texts.
pub fn clone_texts(v: &Vec<String>) -> (res: Vec<String>)
    ensures
        texts(res@) == texts(v@),
{
    let mut out: Vec<String> = Vec::new();
    let mut i: usize = 0;
    while i < v.len()
        invariant
            i <= v@.len(),
            out@.len() == i,
            forall|j: int| 0 <= j < i ==> (#[trigger] out@[j])@ == v@[j]@,
        decreases v@.len() - i,
    {
        out.push(v[i].clone());
        i = i + 1;
    }
    assert(texts(out@) =~= texts(v@));
    out
}

/// A copy of a list of keys.
pub fn copy_keys(v: &Vec<AccountKey>) -> (res: Vec<AccountKey>)
    ensures
        res@ == v@,
{
    let mut out: Vec<AccountKey> = Vec::new();
    let mut i: usize = 0;
    while i < v.len()
        invariant
            i <= v@.len(),
            out@ == v@.subrange(0, i as int),
        decreases v@.len() - i,
    {
        out.push(v[i]);
        i = i + 1;
    }
    assert(out@ =~= v@);
    out
}

impl Clone for SplTokenMetadata {
    fn clone(&self) -> (res: Self)
        ensures
            res@ == self@,
    {
        SplTokenMetadata {
            name: clone_opt_text(&self.name),
            symbol: clone_opt_text(&self.symbol),
            logo_uri: clone_opt_text(&self.logo_uri),
            total_supply: self.total_supply,
            is_initialized: self.is_initialized,
            freeze_authority: self.freeze_authority,
            mint_authority: self.mint_authority,
        }
    }
}

impl Clone for SplTokenData {
    fn clone(&self) -> (res: Self)
        ensures
            res@ == self@,
    {
        SplTokenData {
            operation_type: self.operation_type,
            mint: self.mint,
            amount: self.amount,
            decimals: self.decimals,
            from: self.from,
            to: self.to,
            authority: self.authority,
            multisig_signers: copy_keys(&self.multisig_signers),
            parsed_amount: self.parsed_amount.clone(),
            symbol: clone_opt_text(&self.symbol),
            metadata: self.metadata.clone(),
        }
    }
}

impl Clone for UnknownData {
    fn clone(&self) -> (res: Self)
        ensures
            res@ == self@,
    {
        UnknownData {
            program_id: self.program_id,
            instruction_data: self.instruction_data.clone(),
            accounts: copy_keys(&self.accounts),
            suspected_program_type: clone_opt_text(&self.suspected_program_type),
            confidence_percent: self.confidence_percent,
            raw_bytes: self.raw_bytes.clone(),
            parsing_hints: clone_texts(&self.parsing_hints),
        }
    }
}

impl Clone for RouteStep {
    fn clone(&self) -> (res: Self)
        ensures
            res@ == self@,
    {
        RouteStep {
            program_id: self.program_id,
            program_name: self.program_name.clone(),
            input_mint: self.input_mint,
            output_mint: self.output_mint,
            input_amount: self.input_amount,
            output_amount: self.output_amount,
            fee_amount: self.fee_amount,
        }
    }
}

impl Clone for JupiterData {
    fn clone(&self) -> (res: Self)
        ensures
            res@ == self@,
    {
        let mut route: Vec<RouteStep> = Vec::new();
        let mut i: usize = 0;
        while i < self.route.len()
            invariant
                i <= self.route@.len(),
                route@.len() == i,
                forall|j: int| 0 <= j < i ==> (#[trigger] route@[j])@ == self.route@[j]@,
            decreases self.route@.len() - i,
        {
            route.push(self.route[i].clone());
            i = i + 1;
        }
        let res = JupiterData {
            operation_type: self.operation_type,
            input_mint: self.input_mint,
            output_mint: self.output_mint,
            input_amount: self.input_amount,
            output_amount: self.output_amount,
            minimum_output_amount: self.minimum_output_amount,
            slippage_bps: self.slippage_bps,
            route,
            fees: copy_items(&self.fees),
            price_impact_bps: self.price_impact_bps,
            user_wallet: self.user_wallet,
            referrer: self.referrer,
        };
        assert(res@.route =~= self@.route);
        res
    }
}

impl Clone for MarinadeData {
    fn clone(&self) -> (res: Self)
        ensures
            res@ == self@,
    {
        MarinadeData {
            operation_type: self.operation_type,
            marinade_state: self.marinade_state,
            msol_mint: self.msol_mint,
            sol_amount: self.sol_amount,
            msol_amount: self.msol_amount,
            exchange_rate_bps: self.exchange_rate_bps,
            user_wallet: self.user_wallet,
            validator_list: match &self.validator_list {
                Some(v) => Some(copy_keys(v)),
                None => None,
            },
        }
    }
}

impl Clone for AnchorAccount {
    fn clone(&self) -> (res: Self)
        ensures
            res@ == self@,
    {
        AnchorAccount {
            name: self.name.clone(),
            pubkey: self.pubkey,
            is_signer: self.is_signer,
            is_writable: self.is_writable,
            is_optional: self.is_optional,
        }
    }
}

impl Clone for AnchorData {
    fn clone(&self) -> (res: Self)
        ensures
            res@ == self@,
    {
        let mut accounts: Vec<AnchorAccount> = Vec::new();
        let mut i: usize = 0;
        while i < self.accounts.len()
            invariant
                i <= self.accounts@.len(),
                accounts@.len() == i,
                forall|j: int| 0 <= j < i ==> (#[trigger] accounts@[j])@ == self.accounts@[j]@,
            decreases self.accounts@.len() - i,
        {
            accounts.push(self.accounts[i].clone());
            i = i + 1;
        }
        let res = AnchorData {
            program_id: self.program_id,
            instruction_name: self.instruction_name.clone(),
            instruction_discriminator: self.instruction_discriminator.clone(),
            accounts,
            instruction_data: clone_text_pairs(&self.instruction_data),
            idl_version: clone_opt_text(&self.idl_version),
            program_name: clone_opt_text(&self.program_name),
        };
        assert(res@.accounts =~= self@.accounts);
        res
    }
}

impl Clone for ParseResult {
    fn clone(&self) -> (res: Self)
        ensures
            res@ == self@,
    {
        match self {
            ParseResult::SplToken(d) => ParseResult::SplToken(d.clone()),
            ParseResult::Metaplex(d) => ParseResult::Metaplex(d.clone()),
            ParseResult::Jupiter(d) => ParseResult::Jupiter(d.clone()),
            ParseResult::Raydium(d) => ParseResult::Raydium(*d),
            ParseResult::Orca(d) => ParseResult::Orca(d.clone()),
            ParseResult::Serum(d) => ParseResult::Serum(*d),
            ParseResult::Solend(d) => ParseResult::Solend(*d),
            ParseResult::Marinade(d) => ParseResult::Marinade(d.clone()),
            ParseResult::Anchor(d) => ParseResult::Anchor(d.clone()),
            ParseResult::Unknown(d) => ParseResult::Unknown(d.clone()),
        }
    }
}

} // verus!
