//! Hardforks, and the parts of the execution environment that the gas
//! accounting reads.

use vstd::prelude::*;

verus! {

/// The hardforks, in the order in which they were activated.
#[allow(non_camel_case_types)]
#[derive(Clone, Copy, Debug, PartialEq, Eq, Structural)]
pub enum SpecId {
    FRONTIER,
    FRONTIER_THAWING,
    HOMESTEAD,
    DAO_FORK,
    TANGERINE,
    SPURIOUS_DRAGON,
    BYZANTIUM,
    CONSTANTINOPLE,
    PETERSBURG,
    ISTANBUL,
    MUIR_GLACIER,
    BERLIN,
    LONDON,
    ARROW_GLACIER,
    GRAY_GLACIER,
    MERGE,
    BEDROCK,
    REGOLITH,
    SHANGHAI,
    CANCUN,
    LATEST,
}

/// Position of a hardfork in the activation order.
pub open spec fn spec_id_rank(id: SpecId) -> nat {
    match id {
        SpecId::FRONTIER => 0,
        SpecId::FRONTIER_THAWING => 1,
        SpecId::HOMESTEAD => 2,
        SpecId::DAO_FORK => 3,
        SpecId::TANGERINE => 4,
        SpecId::SPURIOUS_DRAGON => 5,
        SpecId::BYZANTIUM => 6,
        SpecId::CONSTANTINOPLE => 7,
        SpecId::PETERSBURG => 8,
        SpecId::ISTANBUL => 9,
        SpecId::MUIR_GLACIER => 10,
        SpecId::BERLIN => 11,
        SpecId::LONDON => 12,
        SpecId::ARROW_GLACIER => 13,
        SpecId::GRAY_GLACIER => 14,
        SpecId::MERGE => 15,
        SpecId::BEDROCK => 16,
        SpecId::REGOLITH => 17,
        SpecId::SHANGHAI => 18,
        SpecId::CANCUN => 19,
        SpecId::LATEST => 255,
    }
}

/// The rules of `feature` apply under `current` when `current` is
/// `feature` or a later hardfork.
pub open spec fn is_enabled_in(current: SpecId, feature: SpecId) -> bool {
    spec_id_rank(current) >= spec_id_rank(feature)
}

impl SpecId {
    /// Position of the hardfork in the activation order.
    pub fn rank(&self) -> (r: u8)
        ensures
            r == spec_id_rank(*self),
    {
        match self {
            SpecId::FRONTIER => 0,
            SpecId::FRONTIER_THAWING => 1,
            SpecId::HOMESTEAD => 2,
            SpecId::DAO_FORK => 3,
            SpecId::TANGERINE => 4,
            SpecId::SPURIOUS_DRAGON => 5,
            SpecId::BYZANTIUM => 6,
            SpecId::CONSTANTINOPLE => 7,
            SpecId::PETERSBURG => 8,
            SpecId::ISTANBUL => 9,
            SpecId::MUIR_GLACIER => 10,
            SpecId::BERLIN => 11,
            SpecId::LONDON => 12,
            SpecId::ARROW_GLACIER => 13,
            SpecId::GRAY_GLACIER => 14,
            SpecId::MERGE => 15,
            SpecId::BEDROCK => 16,
            SpecId::REGOLITH => 17,
            SpecId::SHANGHAI => 18,
            SpecId::CANCUN => 19,
            SpecId::LATEST => 255,
        }
    }

    /// Whether the rules of `other` apply under this hardfork.
    pub fn enabled(our: SpecId, other: SpecId) -> (r: bool)
        ensures
            r == is_enabled_in(our, other),
    {
        our.rank() >= other.rank()
    }
}

/// A hardfork fixed at compile time.
pub trait Spec {
    /// The hardfork this type stands for.
    spec fn hardfork() -> SpecId;

    fn spec_id() -> (r: SpecId)
        ensures
            r == Self::hardfork(),
    ;

    /// Whether the rules of `spec_id` apply under this hardfork.
    fn enabled(spec_id: SpecId) -> (r: bool)
        ensures
            r == is_enabled_in(Self::hardfork(), spec_id),
    {
        SpecId::enabled(Self::spec_id(), spec_id)
    }
}

pub struct FrontierSpec;
pub struct HomesteadSpec;
pub struct TangerineSpec;
pub struct SpuriousDragonSpec;
pub struct ByzantiumSpec;
pub struct PetersburgSpec;
pub struct IstanbulSpec;
pub struct BerlinSpec;
pub struct LondonSpec;
pub struct MergeSpec;
pub struct BedrockSpec;
pub struct RegolithSpec;
pub struct ShanghaiSpec;
pub struct CancunSpec;
pub struct LatestSpec;

impl Spec for FrontierSpec {
    open spec fn hardfork() -> SpecId { SpecId::FRONTIER }
    fn spec_id() -> SpecId { SpecId::FRONTIER }
}

impl Spec for HomesteadSpec {
    open spec fn hardfork() -> SpecId { SpecId::HOMESTEAD }
    fn spec_id() -> SpecId { SpecId::HOMESTEAD }
}

impl Spec for TangerineSpec {
    open spec fn hardfork() -> SpecId { SpecId::TANGERINE }
    fn spec_id() -> SpecId { SpecId::TANGERINE }
}

impl Spec for SpuriousDragonSpec {
    open spec fn hardfork() -> SpecId { SpecId::SPURIOUS_DRAGON }
    fn spec_id() -> SpecId { SpecId::SPURIOUS_DRAGON }
}

impl Spec for ByzantiumSpec {
    open spec fn hardfork() -> SpecId { SpecId::BYZANTIUM }
    fn spec_id() -> SpecId { SpecId::BYZANTIUM }
}

impl Spec for PetersburgSpec {
    open spec fn hardfork() -> SpecId { SpecId::PETERSBURG }
    fn spec_id() -> SpecId { SpecId::PETERSBURG }
}

impl Spec for IstanbulSpec {
    open spec fn hardfork() -> SpecId { SpecId::ISTANBUL }
    fn spec_id() -> SpecId { SpecId::ISTANBUL }
}

impl Spec for BerlinSpec {
    open spec fn hardfork() -> SpecId { SpecId::BERLIN }
    fn spec_id() -> SpecId { SpecId::BERLIN }
}

impl Spec for LondonSpec {
    open spec fn hardfork() -> SpecId { SpecId::LONDON }
    fn spec_id() -> SpecId { SpecId::LONDON }
}

impl Spec for MergeSpec {
    open spec fn hardfork() -> SpecId { SpecId::MERGE }
    fn spec_id() -> SpecId { SpecId::MERGE }
}

impl Spec for BedrockSpec {
    open spec fn hardfork() -> SpecId { SpecId::BEDROCK }
    fn spec_id() -> SpecId { SpecId::BEDROCK }
}

impl Spec for RegolithSpec {
    open spec fn hardfork() -> SpecId { SpecId::REGOLITH }
    fn spec_id() -> SpecId { SpecId::REGOLITH }
}

impl Spec for ShanghaiSpec {
    open spec fn hardfork() -> SpecId { SpecId::SHANGHAI }
    fn spec_id() -> SpecId { SpecId::SHANGHAI }
}

impl Spec for CancunSpec {
    open spec fn hardfork() -> SpecId { SpecId::CANCUN }
    fn spec_id() -> SpecId { SpecId::CANCUN }
}

impl Spec for LatestSpec {
    open spec fn hardfork() -> SpecId { SpecId::LATEST }
    fn spec_id() -> SpecId { SpecId::LATEST }
}

/// A 32-byte hash.
#[derive(Clone, Copy, Debug, PartialEq, Eq)]
pub struct B256 {
    pub bytes: [u8; 32],
}

impl B256 {
    /// The hash of all zero bytes.
    pub fn zero() -> (r: B256)
        ensures
            forall|i: int| 0 <= i < 32 ==> #[trigger] r.bytes[i] == 0,
    {
        B256 { bytes: [0u8; 32] }
    }
}

/// Chain configuration.
#[derive(Clone, Debug)]
pub struct CfgEnv {
    /// Whether the chain follows the Optimism rules.
    pub optimism: bool,
    /// Whether gas refunds are switched off for every transaction.
    pub disable_gas_refund: bool,
}

impl CfgEnv {
    pub fn is_gas_refund_disabled(&self) -> (r: bool)
        ensures
            r == self.disable_gas_refund,
    {
        self.disable_gas_refund
    }
}

impl Default for CfgEnv {
    fn default() -> (r: CfgEnv)
        ensures
            !r.optimism,
            !r.disable_gas_refund,
    {
        CfgEnv { optimism: false, disable_gas_refund: false }
    }
}

/// The Optimism fields of a transaction.
#[derive(Clone, Debug)]
pub struct OptimismFields {
    /// Set on deposit transactions only.
    pub source_hash: Option<B256>,
    /// Value minted on L2 by a deposit.
    pub mint: Option<u128>,
    /// Whether a deposit is a system transaction.
    pub is_system_transaction: Option<bool>,
    /// The encoded transaction, whose size the L1 fee is charged on.
    pub enveloped_tx: Option<Vec<u8>>,
}

impl Default for OptimismFields {
    fn default() -> (r: OptimismFields)
        ensures
            r.source_hash is None,
            r.mint is None,
            r.is_system_transaction is None,
            r.enveloped_tx is None,
    {
        OptimismFields { source_hash: None, mint: None, is_system_transaction: None, enveloped_tx: None }
    }
}

/// The transaction being executed.
#[derive(Clone, Debug)]
pub struct TxEnv {
    pub gas_limit: u64,
    pub optimism: OptimismFields,
}

impl Default for TxEnv {
    fn default() -> (r: TxEnv)
        ensures
            r.gas_limit == u64::MAX,
            r.optimism.source_hash is None,
            r.optimism.mint is None,
            r.optimism.is_system_transaction is None,
            r.optimism.enveloped_tx is None,
    {
        TxEnv { gas_limit: u64::MAX, optimism: OptimismFields::default() }
    }
}

/// The environment a transaction runs in.
#[derive(Clone, Debug)]
pub struct Env {
    pub cfg: CfgEnv,
    pub tx: TxEnv,
}

impl Default for Env {
    fn default() -> (r: Env)
        ensures
            !r.cfg.optimism,
            !r.cfg.disable_gas_refund,
            r.tx.gas_limit == u64::MAX,
            r.tx.optimism.source_hash is None,
            r.tx.optimism.mint is None,
            r.tx.optimism.is_system_transaction is None,
            r.tx.optimism.enveloped_tx is None,
    {
        Env { cfg: CfgEnv::default(), tx: TxEnv::default() }
    }
}

/// The hardforks are ranked in activation order, each strictly after the
/// one before it.
pub proof fn law_hardfork_order()
    ensures
        spec_id_rank(SpecId::FRONTIER) < spec_id_rank(SpecId::FRONTIER_THAWING),
        spec_id_rank(SpecId::FRONTIER_THAWING) < spec_id_rank(SpecId::HOMESTEAD),
        spec_id_rank(SpecId::HOMESTEAD) < spec_id_rank(SpecId::DAO_FORK),
        spec_id_rank(SpecId::DAO_FORK) < spec_id_rank(SpecId::TANGERINE),
        spec_id_rank(SpecId::TANGERINE) < spec_id_rank(SpecId::SPURIOUS_DRAGON),
        spec_id_rank(SpecId::SPURIOUS_DRAGON) < spec_id_rank(SpecId::BYZANTIUM),
        spec_id_rank(SpecId::BYZANTIUM) < spec_id_rank(SpecId::CONSTANTINOPLE),
        spec_id_rank(SpecId::CONSTANTINOPLE) < spec_id_rank(SpecId::PETERSBURG),
        spec_id_rank(SpecId::PETERSBURG) < spec_id_rank(SpecId::ISTANBUL),
        spec_id_rank(SpecId::ISTANBUL) < spec_id_rank(SpecId::MUIR_GLACIER),
        spec_id_rank(SpecId::MUIR_GLACIER) < spec_id_rank(SpecId::BERLIN),
        spec_id_rank(SpecId::BERLIN) < spec_id_rank(SpecId::LONDON),
        spec_id_rank(SpecId::LONDON) < spec_id_rank(SpecId::ARROW_GLACIER),
        spec_id_rank(SpecId::ARROW_GLACIER) < spec_id_rank(SpecId::GRAY_GLACIER),
        spec_id_rank(SpecId::GRAY_GLACIER) < spec_id_rank(SpecId::MERGE),
        spec_id_rank(SpecId::MERGE) < spec_id_rank(SpecId::BEDROCK),
        spec_id_rank(SpecId::BEDROCK) < spec_id_rank(SpecId::REGOLITH),
        spec_id_rank(SpecId::REGOLITH) < spec_id_rank(SpecId::SHANGHAI),
        spec_id_rank(SpecId::SHANGHAI) < spec_id_rank(SpecId::CANCUN),
        spec_id_rank(SpecId::CANCUN) < spec_id_rank(SpecId::LATEST),
{
}

/// A feature stays enabled in every later hardfork, a hardfork enables its
/// own features, and a feature is not enabled before its hardfork.
pub proof fn law_enabled_monotone(a: SpecId, b: SpecId, c: SpecId)
    ensures
        is_enabled_in(a, a),
        is_enabled_in(c, b) && is_enabled_in(b, a) ==> is_enabled_in(c, a),
        a != b ==> (is_enabled_in(a, b) <==> !is_enabled_in(b, a)),
{
}

/// The hardforks from Constantinople on, and only those, enable the
/// Constantinople rules (such as the EIP-145 shifts).
pub proof fn law_constantinople_rules(h: SpecId)
    ensures
        is_enabled_in(h, SpecId::CONSTANTINOPLE) <==> !(h == SpecId::FRONTIER || h
            == SpecId::FRONTIER_THAWING || h == SpecId::HOMESTEAD || h == SpecId::DAO_FORK || h
            == SpecId::TANGERINE || h == SpecId::SPURIOUS_DRAGON || h == SpecId::BYZANTIUM),
{
}

/// Each hardfork type stands for the hardfork it is named after.
pub proof fn law_spec_types()
    ensures
        FrontierSpec::hardfork() == SpecId::FRONTIER,
        HomesteadSpec::hardfork() == SpecId::HOMESTEAD,
        TangerineSpec::hardfork() == SpecId::TANGERINE,
        SpuriousDragonSpec::hardfork() == SpecId::SPURIOUS_DRAGON,
        ByzantiumSpec::hardfork() == SpecId::BYZANTIUM,
        PetersburgSpec::hardfork() == SpecId::PETERSBURG,
        IstanbulSpec::hardfork() == SpecId::ISTANBUL,
        BerlinSpec::hardfork() == SpecId::BERLIN,
        LondonSpec::hardfork() == SpecId::LONDON,
        MergeSpec::hardfork() == SpecId::MERGE,
        BedrockSpec::hardfork() == SpecId::BEDROCK,
        RegolithSpec::hardfork() == SpecId::REGOLITH,
        ShanghaiSpec::hardfork() == SpecId::SHANGHAI,
        CancunSpec::hardfork() == SpecId::CANCUN,
        LatestSpec::hardfork() == SpecId::LATEST,
{
}

} // verus!
