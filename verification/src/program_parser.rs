//! The program parser: detects the program of an instruction, hands it to
//! the parser of that program, and counts what came of it.

use vstd::prelude::*;
use std::hash::{Hash, Hasher};
use solana_sdk::pubkey::Pubkey;
use crate::parse_cache::{ParseCache, ParseEntryView, live};
use crate::text::{concat_str, decimal, u64_to_decimal};
use crate::detector::{ProgramDetector, detection_spec, known_program_table, decoded_entries, lookup_last};
use crate::parse_error::ParseError;
use crate::program_types::{ParseResult, ParseConfig, ProgramType, SplTokenOperation, SplTokenDataView, SplTokenMetadata, SplTokenData, UnknownData, UnknownDataView, unknown_data};
use crate::solana_key::{AccountKey, new_unique_key};
use crate::decimal::{decimal_new, decimal_of};
use crate::spl_token::{SplTokenParser, spl_parse_holds, spl_account_view};
use crate::program_parsers::{
    AnchorParser, JupiterParser, MarinadeParser, MetaplexParser, OrcaParser, RaydiumParser, SerumParser, SolendParser,
    anchor_view, jupiter_demo, marinade_demo, metaplex_demo, metaplex_mock, mock_metaplex_data, orca_demo,
    raydium_demo, serum_demo, solend_demo,
};

verus! {

/// Counters of the parser.
#[derive(Debug, Clone)]
pub struct ParseStats {
    pub total_parsed: u64,
    pub successful_parses: u64,
    pub failed_parses: u64,
    pub cache_hits: u64,
    pub cache_misses: u64,
    pub programs_detected: Vec<(ProgramType, u64)>,
}

/// A counter one up, wrapping at the top of its range.
pub open spec fn bump(x: u64) -> u64 {
    if x == u64::MAX { 0 } else { (x + 1) as u64 }
}

/// The count recorded for a program type.
pub open spec fn detected_count(s: Seq<(ProgramType, u64)>, t: ProgramType) -> u64
    decreases s.len(),
{
    if s.len() == 0 {
        0
    } else if s.last().0 == t {
        s.last().1
    } else {
        detected_count(s.drop_last(), t)
    }
}

/// No program type is recorded twice.
pub open spec fn distinct_types(s: Seq<(ProgramType, u64)>) -> bool {
    forall|i: int, j: int| 0 <= i < j < s.len() ==> s[i].0 != s[j].0
}

/// The program type a result reports.
pub open spec fn result_type(r: ParseResult) -> ProgramType {
    match r {
        ParseResult::SplToken(_) => ProgramType::SplToken,
        ParseResult::Metaplex(_) => ProgramType::Metaplex,
        ParseResult::Jupiter(_) => ProgramType::Jupiter,
        ParseResult::Raydium(_) => ProgramType::Raydium,
        ParseResult::Orca(_) => ProgramType::Orca,
        ParseResult::Serum(_) => ProgramType::Serum,
        ParseResult::Solend(_) => ProgramType::Solend,
        ParseResult::Marinade(_) => ProgramType::Marinade,
        ParseResult::Anchor(_) => ProgramType::Anchor,
        ParseResult::Unknown(_) => ProgramType::Unknown,
    }
}

/// The result for the System program.
pub open spec fn system_view(program_id: AccountKey, data: Seq<u8>, keys: Seq<AccountKey>) -> UnknownDataView {
    UnknownDataView {
        program_id,
        instruction_data: data,
        accounts: keys,
        suspected_program_type: Some("System"@),
        confidence_percent: 100,
        raw_bytes: data,
        parsing_hints: seq!["System program operations"@],
    }
}

/// The result for a program the detector could not name.
pub open spec fn undetected_view(program_id: AccountKey, data: Seq<u8>, keys: Seq<AccountKey>) -> UnknownDataView {
    UnknownDataView {
        program_id,
        instruction_data: data,
        accounts: keys,
        suspected_program_type: None,
        confidence_percent: 0,
        raw_bytes: data,
        parsing_hints: seq!["Could not determine program type"@],
    }
}

/// The result for account data of a program whose accounts the parser
/// does not read.
pub open spec fn unread_account_view(program_id: AccountKey, data: Seq<u8>) -> UnknownDataView {
    UnknownDataView {
        program_id,
        instruction_data: Seq::empty(),
        accounts: Seq::empty(),
        suspected_program_type: None,
        confidence_percent: 0,
        raw_bytes: data,
        parsing_hints: seq!["Account parsing not implemented for this program"@],
    }
}

/// The 64-bit hash, with the standard library's `DefaultHasher::new()` and
/// its fixed keys, of a program id, instruction data and account keys fed
/// in that order, each key as `Pubkey` feeds its 32 bytes.
pub uninterp spec fn parse_key_hash(program_id: AccountKey, data: Seq<u8>, keys: Seq<AccountKey>) -> u64;

/// Hashes the program id, the data and the keys with one fresh
/// `DefaultHasher`, the keys as `solana_sdk::pubkey::Pubkey` values.
#[verifier::external_body]
fn hash_parse_inputs(program_id: &AccountKey, instruction_data: &[u8], account_keys: &[AccountKey]) -> (res: u64)
    ensures
        res == parse_key_hash(*program_id, instruction_data@, account_keys@),
{
    let pid = Pubkey::new_from_array(program_id.bytes);
    let keys: Vec<Pubkey> = account_keys.iter().map(|k| Pubkey::new_from_array(k.bytes)).collect();
    let mut hasher = std::collections::hash_map::DefaultHasher::new();
    pid.hash(&mut hasher);
    instruction_data.hash(&mut hasher);
    keys.as_slice().hash(&mut hasher);
    hasher.finish()
}

/// The cache key of a parse: `parse_` and the decimal hash of its inputs.
pub open spec fn parse_key_text(program_id: AccountKey, data: Seq<u8>, keys: Seq<AccountKey>) -> Seq<char> {
    "parse_"@ + decimal(parse_key_hash(program_id, data, keys) as nat)
}

/// The cache key under which a parse of these inputs is kept.
pub fn parse_cache_key(program_id: &AccountKey, instruction_data: &[u8], account_keys: &[AccountKey]) -> (res: String)
    ensures
        res@ == parse_key_text(*program_id, instruction_data@, account_keys@),
{
    let h = hash_parse_inputs(program_id, instruction_data, account_keys);
    let t = u64_to_decimal(h);
    concat_str("parse_", t.as_str())
}

/// Detects programs, hands instructions to the parser of their program,
/// caches the results and keeps counters.
pub struct ProgramParser {
    detector: ProgramDetector,
    cache: ParseCache,
    config: ParseConfig,
    stats: ParseStats,
}

impl ProgramParser {
    pub closed spec fn wf(&self) -> bool {
        &&& self.detector.wf()
        &&& distinct_types(self.stats.programs_detected@)
    }

    pub closed spec fn spec_config(&self) -> ParseConfig {
        self.config
    }

    pub closed spec fn spec_stats(&self) -> ParseStats {
        self.stats
    }

    /// The cached results, by key.
    pub closed spec fn spec_cache(&self) -> Map<Seq<char>, ParseEntryView> {
        self.cache.contents()
    }

    /// How many results the cache keeps.
    pub closed spec fn spec_cache_capacity(&self) -> usize {
        self.cache.spec_max_size()
    }

    pub closed spec fn known_programs(&self) -> Seq<(AccountKey, ProgramType)> {
        self.detector.known()
    }

    /// A parser with the default configuration.
    pub fn new() -> (res: Self)
        ensures
            res.wf(),
            res.spec_config() == ParseConfig::default_spec(),
            res.known_programs() == decoded_entries(known_program_table()),
            res.spec_stats().total_parsed == 0,
            res.spec_stats().successful_parses == 0,
            res.spec_stats().failed_parses == 0,
            res.spec_stats().cache_hits == 0,
            res.spec_stats().cache_misses == 0,
            res.spec_stats().programs_detected@.len() == 0,
            res.spec_cache() == Map::<Seq<char>, ParseEntryView>::empty(),
            res.spec_cache_capacity() == ParseConfig::default_spec().max_cache_size,
    {
        Self::with_config(ParseConfig::default())
    }

    /// A parser with the given configuration and zeroed counters.
    pub fn with_config(config: ParseConfig) -> (res: Self)
        ensures
            res.wf(),
            res.spec_config() == config,
            res.known_programs() == decoded_entries(known_program_table()),
            res.spec_stats().total_parsed == 0,
            res.spec_stats().successful_parses == 0,
            res.spec_stats().failed_parses == 0,
            res.spec_stats().cache_hits == 0,
            res.spec_stats().cache_misses == 0,
            res.spec_stats().programs_detected@.len() == 0,
            res.spec_cache() == Map::<Seq<char>, ParseEntryView>::empty(),
            res.spec_cache_capacity() == config.max_cache_size,
    {
        ProgramParser {
            detector: ProgramDetector::new(),
            cache: ParseCache::new(config.max_cache_size),
            config,
            stats: ParseStats {
                total_parsed: 0,
                successful_parses: 0,
                failed_parses: 0,
                cache_hits: 0,
                cache_misses: 0,
                programs_detected: Vec::new(),
            },
        }
    }

    /// Empties the cache of parse results.
    pub fn clear_cache(&mut self)
        requires
            old(self).wf(),
        ensures
            final(self).wf(),
            final(self).spec_cache() == Map::<Seq<char>, ParseEntryView>::empty(),
            final(self).spec_cache_capacity() == old(self).spec_cache_capacity(),
            final(self).spec_stats() == old(self).spec_stats(),
            final(self).spec_config() == old(self).spec_config(),
            final(self).known_programs() == old(self).known_programs(),
    {
        self.cache.clear();
    }

    /// The counters.
    pub fn get_stats(&self) -> (res: &ParseStats)
        ensures
            *res == self.spec_stats(),
    {
        &self.stats
    }

    /// The configuration.
    pub fn config(&self) -> (res: &ParseConfig)
        ensures
            *res == self.spec_config(),
    {
        &self.config
    }

    /// Counts one more detection of a program type.
    fn count_type(&mut self, t: ProgramType)
        requires
            distinct_types(old(self).stats.programs_detected@),
        ensures
            distinct_types(final(self).stats.programs_detected@),
            forall|u: ProgramType| #[trigger] detected_count(final(self).stats.programs_detected@, u)
                == if u == t { bump(detected_count(old(self).stats.programs_detected@, u)) }
                   else { detected_count(old(self).stats.programs_detected@, u) },
            final(self).detector == old(self).detector,
            final(self).cache == old(self).cache,
            final(self).config == old(self).config,
            final(self).stats.total_parsed == old(self).stats.total_parsed,
            final(self).stats.successful_parses == old(self).stats.successful_parses,
            final(self).stats.failed_parses == old(self).stats.failed_parses,
            final(self).stats.cache_hits == old(self).stats.cache_hits,
            final(self).stats.cache_misses == old(self).stats.cache_misses,
    {
        let ghost s0 = self.stats.programs_detected@;
        let mut i: usize = 0;
        while i < self.stats.programs_detected.len()
            invariant
                self.stats.programs_detected@ == s0,
                s0 == old(self).stats.programs_detected@,
                distinct_types(s0),
                self.detector == old(self).detector,
                self.cache == old(self).cache,
                self.config == old(self).config,
                self.stats.total_parsed == old(self).stats.total_parsed,
                self.stats.successful_parses == old(self).stats.successful_parses,
                self.stats.failed_parses == old(self).stats.failed_parses,
                self.stats.cache_hits == old(self).stats.cache_hits,
                self.stats.cache_misses == old(self).stats.cache_misses,
                i <= s0.len(),
                forall|j: int| 0 <= j < i ==> s0[j].0 != t,
            decreases s0.len() - i,
        {
            if self.stats.programs_detected[i].0 == t {
                let c = self.stats.programs_detected[i].1;
                let n = c.wrapping_add(1);
                assert(n == bump(c));
                self.stats.programs_detected.set(i, (t, n));
                proof {
                    lemma_count_update(s0, i as int, t, n);
                }
                return;
            }
            i = i + 1;
        }
        self.stats.programs_detected.push((t, 1));
        proof {
            lemma_count_absent(s0, t);
            assert(self.stats.programs_detected@.drop_last() =~= s0);
        }
    }

    /// Counts a parse: one more parse, and one more success (with its
    /// program type) or failure.
    fn update_stats(&mut self, ok_type: Option<ProgramType>)
        requires
            distinct_types(old(self).stats.programs_detected@),
        ensures
            distinct_types(final(self).stats.programs_detected@),
            final(self).detector == old(self).detector,
            final(self).cache == old(self).cache,
            final(self).config == old(self).config,
            final(self).stats.total_parsed == bump(old(self).stats.total_parsed),
            final(self).stats.successful_parses == if ok_type is Some { bump(old(self).stats.successful_parses) }
                else { old(self).stats.successful_parses },
            final(self).stats.failed_parses == if ok_type is None { bump(old(self).stats.failed_parses) }
                else { old(self).stats.failed_parses },
            final(self).stats.cache_hits == old(self).stats.cache_hits,
            final(self).stats.cache_misses == old(self).stats.cache_misses,
            forall|u: ProgramType| #[trigger] detected_count(final(self).stats.programs_detected@, u)
                == if ok_type == Some(u) { bump(detected_count(old(self).stats.programs_detected@, u)) }
                   else { detected_count(old(self).stats.programs_detected@, u) },
    {
        self.stats.total_parsed = self.stats.total_parsed.wrapping_add(1);
        match ok_type {
            Some(t) => {
                self.stats.successful_parses = self.stats.successful_parses.wrapping_add(1);
                self.count_type(t);
            },
            None => {
                self.stats.failed_parses = self.stats.failed_parses.wrapping_add(1);
            },
        }
    }

    /// Parses an instruction of a program. Where caching is on, a result
    /// still living in the cache under the key of the inputs is handed back
    /// as it is (a cache hit). Otherwise the program is detected and its
    /// instruction parsed by the parser of its program; the System program
    /// and programs that go undetected give an `Unknown` result. Each parse
    /// is counted, and where caching is on a successful result is cached.
    pub fn parse_instruction(
        &mut self,
        program_id: &AccountKey,
        instruction_data: &[u8],
        account_keys: &[AccountKey],
        now_ms: u64,
    ) -> (res: Result<ParseResult, ParseError>)
        requires
            old(self).wf(),
        ensures
            final(self).wf(),
            final(self).known_programs() == old(self).known_programs(),
            final(self).spec_config() == old(self).spec_config(),
            final(self).spec_cache_capacity() == old(self).spec_cache_capacity(),
            instruction_outcome(*old(self), *final(self), res, *program_id, instruction_data@, account_keys@, now_ms),
    {
        let ghost key_text = parse_key_text(*program_id, instruction_data@, account_keys@);
        let mut key_opt: Option<String> = None;
        if self.config.cache_results {
            let key = parse_cache_key(program_id, instruction_data, account_keys);
            let ghost c0 = self.cache.contents();
            match self.cache.get(key.as_str(), now_ms) {
                Some(r) => {
                    self.stats.cache_hits = self.stats.cache_hits.wrapping_add(1);
                    return Ok(r);
                },
                None => {
                    proof {
                        if !c0.contains_key(key_text) {
                            assert(c0.remove(key_text) =~= c0);
                        }
                    }
                    self.stats.cache_misses = self.stats.cache_misses.wrapping_add(1);
                },
            }
            key_opt = Some(key);
        }
        let ghost mid = *self;
        let detection = match self.detector.detect_program(program_id, instruction_data, account_keys) {
            Ok(d) => d,
            Err(e) => return Err(e),
        };
        let parsed: Result<ParseResult, ParseError> = match detection.program_type {
            ProgramType::SplToken => SplTokenParser::new().parse(*program_id, instruction_data, account_keys),
            ProgramType::Metaplex => MetaplexParser::new().parse(program_id, instruction_data, account_keys),
            ProgramType::Orca => OrcaParser::new().parse(program_id, instruction_data, account_keys),
            ProgramType::Serum => SerumParser::new().parse(program_id, instruction_data, account_keys),
            ProgramType::System => Ok(ParseResult::Unknown(unknown_data(
                *program_id,
                instruction_data,
                account_keys,
                Some("System"),
                100,
                instruction_data,
                "System program operations",
            ))),
            ProgramType::Unknown => Ok(ParseResult::Unknown(unknown_data(
                *program_id,
                instruction_data,
                account_keys,
                None,
                0,
                instruction_data,
                "Could not determine program type",
            ))),
            ProgramType::Jupiter => JupiterParser::new().parse(program_id, instruction_data, account_keys),
            ProgramType::Raydium => RaydiumParser::new().parse(program_id, instruction_data, account_keys),
            ProgramType::Solend => SolendParser::new().parse(program_id, instruction_data, account_keys),
            ProgramType::Marinade => MarinadeParser::new().parse(program_id, instruction_data, account_keys),
            ProgramType::Anchor => AnchorParser::new().parse(program_id, instruction_data, account_keys),
        };
        let ok_type = parse_outcome_type(&parsed);
        self.update_stats(ok_type);
        match parsed {
            Ok(p) => {
                match key_opt {
                    Some(key) => {
                        let copy = p.clone();
                        self.cache.insert(key, copy, now_ms);
                    },
                    None => {},
                }
                Ok(p)
            },
            Err(e) => Err(e),
        }
    }

    /// Parses account data: SPL Token accounts are read here; Metaplex
    /// accounts are not read (an error says so); accounts of other
    /// programs give an `Unknown` result.
    pub fn parse_account_data(&self, program_id: &AccountKey, account_data: &[u8]) -> (res: Result<ParseResult, ParseError>)
        requires
            self.wf(),
        ensures
            match lookup_last(self.known_programs(), *program_id) {
                Some(ProgramType::SplToken) => {
                    &&& account_data@.len() == 82 ==> (res matches Ok(ParseResult::SplToken(d))
                        && d@ == spl_account_view(SplTokenOperation::InitializeMint, d.mint))
                    &&& account_data@.len() == 165 ==> (res matches Ok(ParseResult::SplToken(d))
                        && d@ == spl_account_view(SplTokenOperation::CreateAccount, d.mint))
                    &&& account_data@.len() != 82 && account_data@.len() != 165 ==>
                        (res matches Err(ParseError::InvalidInstructionData { reason })
                        && reason@ == "Invalid SPL Token account size"@)
                },
                Some(ProgramType::Metaplex) => res matches Err(ParseError::Internal(r))
                    && r@ == "Metaplex account parsing not implemented"@,
                _ => res matches Ok(ParseResult::Unknown(u))
                    && u@ == unread_account_view(*program_id, account_data@),
            },
    {
        match self.detector.lookup_known(program_id) {
            Some(ProgramType::SplToken) => {
                match SplTokenParser::new().parse_account(account_data) {
                    Ok(p) => Ok(p),
                    Err(e) => Err(e),
                }
            },
            Some(ProgramType::Metaplex) => match MetaplexParser::new().parse_account(account_data) {
                Ok(p) => Ok(p),
                Err(e) => Err(e),
            },
            _ => {
                let empty: Vec<u8> = Vec::new();
                let no_keys: Vec<AccountKey> = Vec::new();
                Ok(ParseResult::Unknown(unknown_data(
                    *program_id,
                    empty.as_slice(),
                    no_keys.as_slice(),
                    None,
                    0,
                    account_data,
                    "Account parsing not implemented for this program",
                )))
            },
        }
    }

    /// Parses demonstration transaction data, whose first byte names the
    /// program: 0 gives SPL Token sample data, 1 the sample Metaplex mint,
    /// 2 the sample Jupiter swap, any other byte gives an `Unknown` result;
    /// empty data is an error. Each parse is counted.
    pub fn parse_transaction_data(&mut self, data: &[u8]) -> (res: Result<ParseResult, ParseError>)
        requires
            old(self).wf(),
        ensures
            final(self).wf(),
            final(self).spec_cache() == old(self).spec_cache(),
            final(self).spec_cache_capacity() == old(self).spec_cache_capacity(),
            final(self).known_programs() == old(self).known_programs(),
            final(self).spec_config() == old(self).spec_config(),
            data@.len() == 0 ==> (res matches Err(ParseError::InsufficientData { expected: 1, actual: 0 })),
            data@.len() > 0 && data@[0] == 0 ==> (res matches Ok(ParseResult::SplToken(d))
                && mock_spl_token(d@)),
            data@.len() > 0 && data@[0] == 1 ==> (res matches Ok(ParseResult::Metaplex(d))
                && metaplex_mock(d@)),
            data@.len() > 0 && data@[0] == 2 ==> (res matches Ok(ParseResult::Jupiter(d)) && jupiter_demo(d@)),
            data@.len() > 0 && data@[0] > 2 ==> (res matches Ok(ParseResult::Unknown(u))
                && u@ == unknown_mock_view(u.program_id, data@)),
            counted(old(self).spec_stats(), final(self).spec_stats(), outcome_type(res))
                && final(self).spec_stats().cache_hits == old(self).spec_stats().cache_hits
                && final(self).spec_stats().cache_misses == old(self).spec_stats().cache_misses,
    {
        let result = if data.len() == 0 {
            Err(ParseError::insufficient_data(1, 0))
        } else if data[0] == 0 {
            Ok(ParseResult::SplToken(self.create_mock_spl_token_data()))
        } else if data[0] == 1 {
            Ok(ParseResult::Metaplex(mock_metaplex_data()))
        } else if data[0] == 2 {
            let no_keys: Vec<AccountKey> = Vec::new();
            JupiterParser::new().parse(&new_unique_key(), data, no_keys.as_slice())
        } else {
            let no_keys: Vec<AccountKey> = Vec::new();
            Ok(ParseResult::Unknown(unknown_data(
                new_unique_key(),
                data,
                no_keys.as_slice(),
                None,
                0,
                data,
                "Unknown program type",
            )))
        };
        let ok_type = parse_outcome_type(&result);
        self.update_stats(ok_type);
        match result {
            Ok(p) => Ok(p),
            Err(e) => Err(e),
        }
    }

    /// Sample SPL Token transfer data with USDC metadata and fresh keys.
    fn create_mock_spl_token_data(&self) -> (res: SplTokenData)
        ensures
            mock_spl_token(res@),
    {
        let signers: Vec<AccountKey> = Vec::new();
        SplTokenData {
            operation_type: SplTokenOperation::Transfer,
            mint: new_unique_key(),
            amount: 1000000,
            decimals: 6,
            from: Some(new_unique_key()),
            to: Some(new_unique_key()),
            authority: Some(new_unique_key()),
            multisig_signers: signers,
            parsed_amount: decimal_new(1000000, 6),
            symbol: Some("USDC".to_owned()),
            metadata: SplTokenMetadata {
                name: Some("USD Coin".to_owned()),
                symbol: Some("USDC".to_owned()),
                logo_uri: Some("https://example.com/usdc.png".to_owned()),
                total_supply: Some(1000000000000),
                is_initialized: true,
                freeze_authority: None,
                mint_authority: Some(new_unique_key()),
            },
        }
    }
}

/// The sample SPL Token data: a transfer of 1000000 at six decimals with
/// USDC metadata, its keys left open.
pub open spec fn mock_spl_token(d: SplTokenDataView) -> bool {
    &&& d.operation_type == SplTokenOperation::Transfer
    &&& d.amount == 1000000
    &&& d.decimals == 6
    &&& d.from is Some && d.to is Some && d.authority is Some
    &&& d.multisig_signers.len() == 0
    &&& d.parsed_amount == decimal_of(1000000, 6)
    &&& d.symbol == Some("USDC"@)
    &&& d.metadata.name == Some("USD Coin"@)
    &&& d.metadata.symbol == Some("USDC"@)
    &&& d.metadata.logo_uri == Some("https://example.com/usdc.png"@)
    &&& d.metadata.total_supply == Some(1000000000000u64)
    &&& d.metadata.is_initialized
    &&& d.metadata.freeze_authority is None
    &&& d.metadata.mint_authority is Some
}

/// The result for demonstration data of an unknown program.
pub open spec fn unknown_mock_view(program_id: AccountKey, data: Seq<u8>) -> UnknownDataView {
    UnknownDataView {
        program_id,
        instruction_data: data,
        accounts: Seq::empty(),
        suspected_program_type: None,
        confidence_percent: 0,
        raw_bytes: data,
        parsing_hints: seq!["Unknown program type"@],
    }
}

/// The counters after a parse: one more parse, one more success (with the
/// result's program type) or failure.
pub open spec fn counted(before: ParseStats, after: ParseStats, ok_type: Option<ProgramType>) -> bool {
    &&& after.total_parsed == bump(before.total_parsed)
    &&& after.successful_parses == if ok_type is Some { bump(before.successful_parses) } else { before.successful_parses }
    &&& after.failed_parses == if ok_type is None { bump(before.failed_parses) } else { before.failed_parses }
    &&& forall|u: ProgramType| #[trigger] detected_count(after.programs_detected@, u)
            == if ok_type == Some(u) { bump(detected_count(before.programs_detected@, u)) }
               else { detected_count(before.programs_detected@, u) }
}

/// The program type a parse reports, `None` for an error.
pub open spec fn outcome_type(r: Result<ParseResult, ParseError>) -> Option<ProgramType> {
    match r {
        Ok(p) => Some(result_type(p)),
        Err(_) => None,
    }
}

/// The program type a parse reports, `None` for an error.
fn parse_outcome_type(r: &Result<ParseResult, ParseError>) -> (res: Option<ProgramType>)
    ensures
        res == outcome_type(*r),
{
    match r {
        Ok(ParseResult::SplToken(_)) => Some(ProgramType::SplToken),
        Ok(ParseResult::Metaplex(_)) => Some(ProgramType::Metaplex),
        Ok(ParseResult::Jupiter(_)) => Some(ProgramType::Jupiter),
        Ok(ParseResult::Raydium(_)) => Some(ProgramType::Raydium),
        Ok(ParseResult::Orca(_)) => Some(ProgramType::Orca),
        Ok(ParseResult::Serum(_)) => Some(ProgramType::Serum),
        Ok(ParseResult::Solend(_)) => Some(ProgramType::Solend),
        Ok(ParseResult::Marinade(_)) => Some(ProgramType::Marinade),
        Ok(ParseResult::Anchor(_)) => Some(ProgramType::Anchor),
        Ok(ParseResult::Unknown(_)) => Some(ProgramType::Unknown),
        Err(_) => None,
    }
}

/// What parsing an instruction comes to, and what it does to the counters.
pub open spec fn instruction_outcome(
    before: ProgramParser,
    after: ProgramParser,
    res: Result<ParseResult, ParseError>,
    program_id: AccountKey,
    data: Seq<u8>,
    keys: Seq<AccountKey>,
    now_ms: u64,
) -> bool {
    let b = before.spec_stats();
    let a = after.spec_stats();
    let key = parse_key_text(program_id, data, keys);
    let caching = before.spec_config().cache_results;
    if caching && before.spec_cache().contains_key(key) && live(before.spec_cache()[key], now_ms) {
        let e = before.spec_cache()[key];
        &&& res matches Ok(r) && r@ == e.result
        &&& after.spec_cache() == before.spec_cache().insert(key,
            ParseEntryView { access_count: e.access_count.wrapping_add(1), ..e })
        &&& a.cache_hits == bump(b.cache_hits)
        &&& a.cache_misses == b.cache_misses
        &&& a.total_parsed == b.total_parsed
        &&& a.successful_parses == b.successful_parses
        &&& a.failed_parses == b.failed_parses
        &&& a.programs_detected == b.programs_detected
    } else {
        let t = detection_spec(before.known_programs(), program_id, data, keys).0;
        &&& !caching ==> after.spec_cache() == before.spec_cache()
        &&& caching && res is Err ==> after.spec_cache() == before.spec_cache().remove(key)
        &&& caching && res is Ok ==> after.spec_cache().contains_key(key)
            && after.spec_cache()[key].result == res->Ok_0@
            && after.spec_cache()[key].created_ms == now_ms
            && after.spec_cache()[key].access_count == 0
        &&& a.cache_hits == b.cache_hits
        &&& a.cache_misses == if before.spec_config().cache_results { bump(b.cache_misses) } else { b.cache_misses }
        &&& if t == ProgramType::SplToken {
            &&& res matches Ok(p) ==> spl_parse_holds(Ok(p), program_id, data, keys)
            &&& res matches Err(e) ==> spl_parse_holds(Err(e), program_id, data, keys)
            &&& counted(b, a, outcome_type(res))
        } else if t == ProgramType::System {
            &&& res matches Ok(ParseResult::Unknown(u)) && u@ == system_view(program_id, data, keys)
            &&& counted(b, a, Some(ProgramType::Unknown))
        } else if t == ProgramType::Unknown {
            &&& res matches Ok(ParseResult::Unknown(u)) && u@ == undetected_view(program_id, data, keys)
            &&& counted(b, a, Some(ProgramType::Unknown))
        } else if t == ProgramType::Metaplex {
            &&& res matches Ok(ParseResult::Metaplex(d)) && metaplex_demo(d@)
            &&& counted(b, a, Some(ProgramType::Metaplex))
        } else if t == ProgramType::Orca {
            &&& res matches Ok(ParseResult::Orca(d)) && orca_demo(d@)
            &&& counted(b, a, Some(ProgramType::Orca))
        } else if t == ProgramType::Serum {
            &&& res matches Ok(ParseResult::Serum(d)) && serum_demo(d)
            &&& counted(b, a, Some(ProgramType::Serum))
        } else if t == ProgramType::Jupiter {
            &&& res matches Ok(ParseResult::Jupiter(d)) && jupiter_demo(d@)
            &&& counted(b, a, Some(ProgramType::Jupiter))
        } else if t == ProgramType::Raydium {
            &&& res matches Ok(ParseResult::Raydium(d)) && raydium_demo(d)
            &&& counted(b, a, Some(ProgramType::Raydium))
        } else if t == ProgramType::Solend {
            &&& res matches Ok(ParseResult::Solend(d)) && solend_demo(d)
            &&& counted(b, a, Some(ProgramType::Solend))
        } else if t == ProgramType::Marinade {
            &&& res matches Ok(ParseResult::Marinade(d)) && marinade_demo(d@)
            &&& counted(b, a, Some(ProgramType::Marinade))
        } else {
            &&& res matches Ok(ParseResult::Anchor(d)) && d@ == anchor_view(program_id, data, keys)
            &&& counted(b, a, Some(ProgramType::Anchor))
        }
    }
}

proof fn lemma_count_update(s: Seq<(ProgramType, u64)>, i: int, t: ProgramType, n: u64)
    requires
        distinct_types(s),
        0 <= i < s.len(),
        s[i].0 == t,
    ensures
        distinct_types(s.update(i, (t, n))),
        detected_count(s, t) == s[i].1,
        forall|u: ProgramType| #[trigger] detected_count(s.update(i, (t, n)), u)
            == if u == t { n } else { detected_count(s, u) },
    decreases s.len(),
{
    let s2 = s.update(i, (t, n));
    if i == s.len() - 1 {
        assert(s2.drop_last() =~= s.drop_last());
        assert forall|u: ProgramType| #[trigger] detected_count(s2, u) == if u == t { n } else { detected_count(s, u) } by {
            assert(s2.last() == (t, n));
            assert(s.last().0 == t);
        }
    } else {
        assert(s2.drop_last() =~= s.drop_last().update(i, (t, n)));
        lemma_count_update(s.drop_last(), i, t, n);
        assert(s[s.len() - 1].0 != s[i].0);
        assert(s.last().0 != t);
        assert(s2.last() == s.last());
        assert forall|u: ProgramType| #[trigger] detected_count(s2, u) == if u == t { n } else { detected_count(s, u) } by {
            assert(detected_count(s2.drop_last(), u) == if u == t { n } else { detected_count(s.drop_last(), u) });
        }
    }
}

proof fn lemma_count_absent(s: Seq<(ProgramType, u64)>, t: ProgramType)
    requires
        forall|j: int| 0 <= j < s.len() ==> s[j].0 != t,
    ensures
        detected_count(s, t) == 0,
    decreases s.len(),
{
    if s.len() > 0 {
        lemma_count_absent(s.drop_last(), t);
    }
}

} // verus!
