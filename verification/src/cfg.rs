//! The configuration value and the capability trait the engine queries.

use vstd::prelude::*;

verus! {

/// Contract code-size ceiling from EIP-170: the byte length that deployed
/// bytecode may not exceed unless the policy carries an override.
pub const MAX_CODE_SIZE: usize = 0x6000;

/// Default hard bound on execution memory, 2^32 - 1 bytes, after EIP-1985.
pub const DEFAULT_MEMORY_LIMIT: u64 = 0xFFFF_FFFF;

/// What bytecode analysis to perform on bytecode created with
/// CREATE/CREATE2.
#[derive(Clone, Copy, Debug, PartialEq, Eq, Hash, Structural)]
pub enum AnalysisKind {
    /// Do not perform bytecode analysis.
    Raw,
    /// Perform bytecode analysis and precompute the jump table.
    Analyse,
}

impl Default for AnalysisKind {
    /// Analysing created bytecode pays off whenever the code runs more
    /// than once, so it is the default.
    fn default() -> (r: Self)
        ensures
            r == AnalysisKind::Analyse,
    {
        AnalysisKind::Analyse
    }
}

/// Which trusted-setup parameters the point-evaluation precompile is to
/// use. The parameters themselves live with the precompile; the policy
/// only records the selection.
#[derive(Clone, Copy, Debug, PartialEq, Eq, Hash, Structural)]
pub enum EnvKzgSettings {
    /// The Ethereum mainnet trusted setup bundled with the engine.
    Mainnet,
    /// A setup supplied by the caller and installed outside this crate.
    Custom,
}

impl Default for EnvKzgSettings {
    fn default() -> (r: Self)
        ensures
            r == EnvKzgSettings::Mainnet,
    {
        EnvKzgSettings::Mainnet
    }
}

/// EVM configuration: one value per execution context, holding every
/// relaxable validation rule the engine consults.
///
/// A field of `Option` type stands for a toggle that a build may leave
/// out: `None` means the toggle is absent, and the corresponding query
/// then reports the strict default, so absence of a toggle never turns a
/// protocol rule off.
#[derive(Clone, Debug, Eq)]
#[verifier::ext_equal]
#[non_exhaustive]
pub struct CfgEnv {
    /// Chain ID of the EVM; compared to the transaction's chain ID
    /// (EIP-155).
    pub chain_id: u64,
    /// Trusted-setup selection for the point-evaluation precompile, when
    /// one is compiled in. Never serialized.
    pub kzg_settings: Option<EnvKzgSettings>,
    /// Whether bytecode created with CREATE/CREATE2 is analysed and given
    /// a jump table. Default: `Analyse`.
    pub perf_analyse_created_bytecodes: AnalysisKind,
    /// Override for the EIP-170 contract code-size limit; `None` means
    /// the protocol constant `MAX_CODE_SIZE` applies.
    pub limit_contract_code_size: Option<usize>,
    /// Skips the nonce validation against the account's nonce. Always
    /// present.
    pub disable_nonce_check: bool,
    /// Hard memory limit in bytes beyond which execution memory may not
    /// grow, when memory limiting is compiled in.
    pub memory_limit: Option<u64>,
    /// Skips balance checks when `Some(true)`.
    pub disable_balance_check: Option<bool>,
    /// Allows a transaction gas limit above the block gas limit when
    /// `Some(true)`.
    pub disable_block_gas_limit: Option<bool>,
    /// Allows transactions from senders with deployed code (EIP-3607
    /// relaxation) when `Some(true)`.
    pub disable_eip3607: Option<bool>,
    /// Disables all gas refunds (EIP-3298 rationale) when `Some(true)`.
    pub disable_gas_refund: Option<bool>,
    /// Disables base-fee checks for EIP-1559 transactions when
    /// `Some(true)`.
    pub disable_base_fee: Option<bool>,
}

/// The policy questions the execution engine may ask, independent of the
/// concrete policy value in use. The engine is written once against these
/// eight queries; a query whose backing toggle is absent reports the
/// strict default, never a relaxed one.
pub trait Cfg {
    /// The configured chain identifier.
    spec fn spec_chain_id(&self) -> u64;

    /// The effective contract code-size ceiling.
    spec fn spec_max_code_size(&self) -> usize;

    /// Whether the engine must skip the EIP-3607 sender-has-code check.
    spec fn spec_eip3607_disabled(&self) -> bool;

    /// Whether the engine must skip the balance check.
    spec fn spec_balance_check_disabled(&self) -> bool;

    /// Whether the engine must skip gas refunds.
    spec fn spec_gas_refund_disabled(&self) -> bool;

    /// Whether the engine must skip the block-gas-limit check.
    spec fn spec_block_gas_limit_disabled(&self) -> bool;

    /// Whether the engine must skip the nonce check.
    spec fn spec_nonce_check_disabled(&self) -> bool;

    /// Whether the engine must skip the base-fee check.
    spec fn spec_base_fee_check_disabled(&self) -> bool;

    /// Returns the chain identifier the engine compares transaction
    /// chain IDs against.
    fn chain_id(&self) -> (r: u64)
        ensures
            r == self.spec_chain_id(),
    ;

    /// Returns the code-size ceiling the engine must enforce on deployed
    /// code.
    fn max_code_size(&self) -> (r: usize)
        ensures
            r == self.spec_max_code_size(),
    ;

    /// `true` means the engine must skip the EIP-3607 check.
    fn is_eip3607_disabled(&self) -> (r: bool)
        ensures
            r == self.spec_eip3607_disabled(),
    ;

    /// `true` means the engine must skip the balance check.
    fn is_balance_check_disabled(&self) -> (r: bool)
        ensures
            r == self.spec_balance_check_disabled(),
    ;

    /// `true` means the engine must apply no gas refunds.
    fn is_gas_refund_disabled(&self) -> (r: bool)
        ensures
            r == self.spec_gas_refund_disabled(),
    ;

    /// `true` means the engine must not hold the transaction gas limit
    /// under the block gas limit.
    fn is_block_gas_limit_disabled(&self) -> (r: bool)
        ensures
            r == self.spec_block_gas_limit_disabled(),
    ;

    /// `true` means the engine must skip the nonce check.
    fn is_nonce_check_disabled(&self) -> (r: bool)
        ensures
            r == self.spec_nonce_check_disabled(),
    ;

    /// `true` means the engine must skip the base-fee check.
    fn is_base_fee_check_disabled(&self) -> (r: bool)
        ensures
            r == self.spec_base_fee_check_disabled(),
    ;
}

impl CfgEnv {
    /// The documented default of every field: mainnet chain id, analysis
    /// on, no code-size override, every check enforced, and the bundled
    /// trusted setup.
    pub open spec fn spec_default() -> CfgEnv {
        CfgEnv {
            chain_id: 1,
            kzg_settings: Some(EnvKzgSettings::Mainnet),
            perf_analyse_created_bytecodes: AnalysisKind::Analyse,
            limit_contract_code_size: None,
            disable_nonce_check: false,
            memory_limit: Some(DEFAULT_MEMORY_LIMIT),
            disable_balance_check: Some(false),
            disable_block_gas_limit: Some(false),
            disable_eip3607: Some(false),
            disable_gas_refund: Some(false),
            disable_base_fee: Some(false),
        }
    }

    /// Returns the same policy with the chain id replaced; every other
    /// field, and so every other query, is unchanged.
    pub fn with_chain_id(self, chain_id: u64) -> (r: Self)
        ensures
            r.chain_id == chain_id,
            r.spec_chain_id() == chain_id,
            r.kzg_settings == self.kzg_settings,
            r.perf_analyse_created_bytecodes == self.perf_analyse_created_bytecodes,
            r.limit_contract_code_size == self.limit_contract_code_size,
            r.disable_nonce_check == self.disable_nonce_check,
            r.memory_limit == self.memory_limit,
            r.disable_balance_check == self.disable_balance_check,
            r.disable_block_gas_limit == self.disable_block_gas_limit,
            r.disable_eip3607 == self.disable_eip3607,
            r.disable_gas_refund == self.disable_gas_refund,
            r.disable_base_fee == self.disable_base_fee,
            r.spec_max_code_size() == self.spec_max_code_size(),
            r.spec_eip3607_disabled() == self.spec_eip3607_disabled(),
            r.spec_balance_check_disabled() == self.spec_balance_check_disabled(),
            r.spec_gas_refund_disabled() == self.spec_gas_refund_disabled(),
            r.spec_block_gas_limit_disabled() == self.spec_block_gas_limit_disabled(),
            r.spec_nonce_check_disabled() == self.spec_nonce_check_disabled(),
            r.spec_base_fee_check_disabled() == self.spec_base_fee_check_disabled(),
    {
        let mut r = self;
        r.chain_id = chain_id;
        r
    }
}

impl Cfg for CfgEnv {
    open spec fn spec_chain_id(&self) -> u64 {
        self.chain_id
    }

    open spec fn spec_max_code_size(&self) -> usize {
        match self.limit_contract_code_size {
            Some(v) => v,
            None => MAX_CODE_SIZE,
        }
    }

    open spec fn spec_eip3607_disabled(&self) -> bool {
        self.disable_eip3607 == Some(true)
    }

    open spec fn spec_balance_check_disabled(&self) -> bool {
        self.disable_balance_check == Some(true)
    }

    open spec fn spec_gas_refund_disabled(&self) -> bool {
        self.disable_gas_refund == Some(true)
    }

    open spec fn spec_block_gas_limit_disabled(&self) -> bool {
        self.disable_block_gas_limit == Some(true)
    }

    open spec fn spec_nonce_check_disabled(&self) -> bool {
        self.disable_nonce_check
    }

    open spec fn spec_base_fee_check_disabled(&self) -> bool {
        self.disable_base_fee == Some(true)
    }

    fn chain_id(&self) -> (r: u64) {
        self.chain_id
    }

    fn max_code_size(&self) -> (r: usize) {
        match self.limit_contract_code_size {
            Some(v) => v,
            None => MAX_CODE_SIZE,
        }
    }

    fn is_eip3607_disabled(&self) -> (r: bool) {
        match self.disable_eip3607 {
            Some(b) => b,
            None => false,
        }
    }

    fn is_balance_check_disabled(&self) -> (r: bool) {
        match self.disable_balance_check {
            Some(b) => b,
            None => false,
        }
    }

    fn is_gas_refund_disabled(&self) -> (r: bool) {
        match self.disable_gas_refund {
            Some(b) => b,
            None => false,
        }
    }

    fn is_block_gas_limit_disabled(&self) -> (r: bool) {
        match self.disable_block_gas_limit {
            Some(b) => b,
            None => false,
        }
    }

    fn is_nonce_check_disabled(&self) -> (r: bool) {
        self.disable_nonce_check
    }

    fn is_base_fee_check_disabled(&self) -> (r: bool) {
        match self.disable_base_fee {
            Some(b) => b,
            None => false,
        }
    }
}

impl Default for CfgEnv {
    /// Builds the policy with every field at its documented default.
    fn default() -> (r: Self)
        ensures
            r == CfgEnv::spec_default(),
    {
        CfgEnv {
            chain_id: 1,
            kzg_settings: Some(EnvKzgSettings::Mainnet),
            perf_analyse_created_bytecodes: AnalysisKind::Analyse,
            limit_contract_code_size: None,
            disable_nonce_check: false,
            memory_limit: Some(DEFAULT_MEMORY_LIMIT),
            disable_balance_check: Some(false),
            disable_block_gas_limit: Some(false),
            disable_eip3607: Some(false),
            disable_gas_refund: Some(false),
            disable_base_fee: Some(false),
        }
    }
}

fn opt_bool_eq(a: Option<bool>, b: Option<bool>) -> (r: bool)
    ensures
        r == (a == b),
{
    match (a, b) {
        (Some(x), Some(y)) => x == y,
        (None, None) => true,
        _ => false,
    }
}

fn opt_u64_eq(a: Option<u64>, b: Option<u64>) -> (r: bool)
    ensures
        r == (a == b),
{
    match (a, b) {
        (Some(x), Some(y)) => x == y,
        (None, None) => true,
        _ => false,
    }
}

fn opt_usize_eq(a: Option<usize>, b: Option<usize>) -> (r: bool)
    ensures
        r == (a == b),
{
    match (a, b) {
        (Some(x), Some(y)) => x == y,
        (None, None) => true,
        _ => false,
    }
}

fn opt_kzg_eq(a: Option<EnvKzgSettings>, b: Option<EnvKzgSettings>) -> (r: bool)
    ensures
        r == (a == b),
{
    match (a, b) {
        (Some(x), Some(y)) => x == y,
        (None, None) => true,
        _ => false,
    }
}

impl PartialEq for CfgEnv {
    /// Exact and total over all fields: two policy values compare equal
    /// iff every field compares equal, so equal values answer every
    /// query alike.
    fn eq(&self, other: &Self) -> (r: bool) {
        let r = self.chain_id == other.chain_id
            && opt_kzg_eq(self.kzg_settings, other.kzg_settings)
            && self.perf_analyse_created_bytecodes == other.perf_analyse_created_bytecodes
            && opt_usize_eq(self.limit_contract_code_size, other.limit_contract_code_size)
            && self.disable_nonce_check == other.disable_nonce_check
            && opt_u64_eq(self.memory_limit, other.memory_limit)
            && opt_bool_eq(self.disable_balance_check, other.disable_balance_check)
            && opt_bool_eq(self.disable_block_gas_limit, other.disable_block_gas_limit)
            && opt_bool_eq(self.disable_eip3607, other.disable_eip3607)
            && opt_bool_eq(self.disable_gas_refund, other.disable_gas_refund)
            && opt_bool_eq(self.disable_base_fee, other.disable_base_fee);
        proof {
            if r {
                assert(*self =~= *other);
            }
        }
        r
    }
}

impl vstd::std_specs::cmp::PartialEqSpecImpl for CfgEnv {
    open spec fn obeys_eq_spec() -> bool {
        true
    }

    open spec fn eq_spec(&self, other: &CfgEnv) -> bool {
        *self == *other
    }
}

/// A suppression flag whose build toggle is absent reports as enforced:
/// no query turns a protocol rule off merely because the toggle does not
/// exist, whatever the other fields hold.
pub proof fn lemma_absent_toggle_is_enforced(c: CfgEnv)
    ensures
        c.disable_eip3607 is None ==> !c.spec_eip3607_disabled(),
        c.disable_balance_check is None ==> !c.spec_balance_check_disabled(),
        c.disable_gas_refund is None ==> !c.spec_gas_refund_disabled(),
        c.disable_block_gas_limit is None ==> !c.spec_block_gas_limit_disabled(),
        c.disable_base_fee is None ==> !c.spec_base_fee_check_disabled(),
{
}

/// Equality of two policy values is exactly fieldwise equality over all
/// fields, in both directions.
pub proof fn lemma_eq_is_fieldwise(a: CfgEnv, b: CfgEnv)
    ensures
        (a == b) <==> (a.chain_id == b.chain_id && a.kzg_settings == b.kzg_settings
            && a.perf_analyse_created_bytecodes == b.perf_analyse_created_bytecodes
            && a.limit_contract_code_size == b.limit_contract_code_size
            && a.disable_nonce_check == b.disable_nonce_check
            && a.memory_limit == b.memory_limit
            && a.disable_balance_check == b.disable_balance_check
            && a.disable_block_gas_limit == b.disable_block_gas_limit
            && a.disable_eip3607 == b.disable_eip3607 && a.disable_gas_refund == b.disable_gas_refund
            && a.disable_base_fee == b.disable_base_fee),
{
    if a.chain_id == b.chain_id && a.kzg_settings == b.kzg_settings
        && a.perf_analyse_created_bytecodes == b.perf_analyse_created_bytecodes
        && a.limit_contract_code_size == b.limit_contract_code_size
        && a.disable_nonce_check == b.disable_nonce_check && a.memory_limit == b.memory_limit
        && a.disable_balance_check == b.disable_balance_check
        && a.disable_block_gas_limit == b.disable_block_gas_limit
        && a.disable_eip3607 == b.disable_eip3607 && a.disable_gas_refund == b.disable_gas_refund
        && a.disable_base_fee == b.disable_base_fee {
        assert(a =~= b);
    }
}

/// The analysis-mode enumeration is closed: every value is one of its
/// two variants.
pub proof fn lemma_analysis_kind_closed(k: AnalysisKind)
    ensures
        k == AnalysisKind::Raw || k == AnalysisKind::Analyse,
{
    match k {
        AnalysisKind::Raw => {
        },
        AnalysisKind::Analyse => {
        },
    }
}

} // verus!
