use evm_cfg::AnalysisKind;
use evm_cfg::Cfg;
use evm_cfg::CfgEnv;
use evm_cfg::EnvKzgSettings;
use evm_cfg::DEFAULT_MEMORY_LIMIT;
use evm_cfg::MAX_CODE_SIZE;

fn queries<C: Cfg>(c: &C) -> (u64, usize, bool, bool, bool, bool, bool, bool) {
    (
        c.chain_id(),
        c.max_code_size(),
        c.is_eip3607_disabled(),
        c.is_balance_check_disabled(),
        c.is_gas_refund_disabled(),
        c.is_block_gas_limit_disabled(),
        c.is_nonce_check_disabled(),
        c.is_base_fee_check_disabled(),
    )
}

#[test]
fn default_values() {
    let c = CfgEnv::default();
    assert_eq!(c.chain_id(), 1);
    assert_eq!(c.max_code_size(), 24576);
    assert_eq!(c.max_code_size(), MAX_CODE_SIZE);
    assert!(!c.is_eip3607_disabled());
    assert!(!c.is_balance_check_disabled());
    assert!(!c.is_gas_refund_disabled());
    assert!(!c.is_block_gas_limit_disabled());
    assert!(!c.is_nonce_check_disabled());
    assert!(!c.is_base_fee_check_disabled());
    assert_eq!(c.perf_analyse_created_bytecodes, AnalysisKind::Analyse);
    assert_eq!(c.limit_contract_code_size, None);
    assert_eq!(c.memory_limit, Some(DEFAULT_MEMORY_LIMIT));
    assert_eq!(c.memory_limit, Some(0xFFFF_FFFF));
    assert_eq!(c.kzg_settings, Some(EnvKzgSettings::Mainnet));
    assert_eq!(AnalysisKind::default(), AnalysisKind::Analyse);
    assert_eq!(EnvKzgSettings::default(), EnvKzgSettings::Mainnet);
}

#[test]
fn absent_toggle_reports_false() {
    // every suppression toggle absent, every other field made unusual:
    // the queries must still enforce the rules
    let mut c = CfgEnv::default();
    c.chain_id = 999;
    c.perf_analyse_created_bytecodes = AnalysisKind::Raw;
    c.limit_contract_code_size = Some(1);
    c.memory_limit = None;
    c.kzg_settings = None;
    c.disable_balance_check = None;
    c.disable_block_gas_limit = None;
    c.disable_eip3607 = None;
    c.disable_gas_refund = None;
    c.disable_base_fee = None;
    assert!(!c.is_eip3607_disabled());
    assert!(!c.is_balance_check_disabled());
    assert!(!c.is_gas_refund_disabled());
    assert!(!c.is_block_gas_limit_disabled());
    assert!(!c.is_base_fee_check_disabled());
}

#[test]
fn present_toggle_is_honoured() {
    let mut c = CfgEnv::default();
    c.disable_balance_check = Some(true);
    c.disable_eip3607 = Some(true);
    c.disable_gas_refund = Some(false);
    c.disable_block_gas_limit = Some(true);
    c.disable_base_fee = Some(true);
    c.disable_nonce_check = true;
    assert!(c.is_balance_check_disabled());
    assert!(c.is_eip3607_disabled());
    assert!(!c.is_gas_refund_disabled());
    assert!(c.is_block_gas_limit_disabled());
    assert!(c.is_base_fee_check_disabled());
    assert!(c.is_nonce_check_disabled());
}

#[test]
fn max_code_size_override() {
    let mut c = CfgEnv::default();
    assert_eq!(c.max_code_size(), 24576);
    c.limit_contract_code_size = Some(100000);
    assert_eq!(c.max_code_size(), 100000);
    c.limit_contract_code_size = Some(0);
    assert_eq!(c.max_code_size(), 0);
    c.limit_contract_code_size = None;
    assert_eq!(c.max_code_size(), 24576);
}

#[test]
fn with_chain_id_changes_only_chain_id() {
    let base = CfgEnv::default();
    let before = queries(&base);
    let updated = base.clone().with_chain_id(42);
    let after = queries(&updated);
    assert_eq!(before.0, 1);
    assert_eq!(after.0, 42);
    assert_eq!(before.1, after.1);
    assert_eq!(before.2, after.2);
    assert_eq!(before.3, after.3);
    assert_eq!(before.4, after.4);
    assert_eq!(before.5, after.5);
    assert_eq!(before.6, after.6);
    assert_eq!(before.7, after.7);
    assert_eq!(updated.kzg_settings, base.kzg_settings);
    assert_eq!(updated.memory_limit, base.memory_limit);
    assert_eq!(
        updated.perf_analyse_created_bytecodes,
        base.perf_analyse_created_bytecodes
    );
}

#[test]
fn chained_construction() {
    let c = CfgEnv::default().with_chain_id(7).with_chain_id(11);
    assert_eq!(c.chain_id(), 11);
}

#[test]
fn default_values_are_equal() {
    assert_eq!(CfgEnv::default(), CfgEnv::default());
}

#[test]
fn any_single_field_change_breaks_equality() {
    let base = CfgEnv::default();

    let mut c = base.clone();
    c.chain_id = 2;
    assert_ne!(c, base);

    let mut c = base.clone();
    c.kzg_settings = Some(EnvKzgSettings::Custom);
    assert_ne!(c, base);

    let mut c = base.clone();
    c.kzg_settings = None;
    assert_ne!(c, base);

    let mut c = base.clone();
    c.perf_analyse_created_bytecodes = AnalysisKind::Raw;
    assert_ne!(c, base);

    let mut c = base.clone();
    c.limit_contract_code_size = Some(24576);
    assert_ne!(c, base);

    let mut c = base.clone();
    c.disable_nonce_check = true;
    assert_ne!(c, base);

    let mut c = base.clone();
    c.memory_limit = None;
    assert_ne!(c, base);

    let mut c = base.clone();
    c.memory_limit = Some(DEFAULT_MEMORY_LIMIT - 1);
    assert_ne!(c, base);

    let mut c = base.clone();
    c.disable_balance_check = Some(true);
    assert_ne!(c, base);

    let mut c = base.clone();
    c.disable_balance_check = None;
    assert_ne!(c, base);

    let mut c = base.clone();
    c.disable_block_gas_limit = Some(true);
    assert_ne!(c, base);

    let mut c = base.clone();
    c.disable_eip3607 = Some(true);
    assert_ne!(c, base);

    let mut c = base.clone();
    c.disable_gas_refund = Some(true);
    assert_ne!(c, base);

    let mut c = base.clone();
    c.disable_base_fee = Some(true);
    assert_ne!(c, base);
}

#[test]
fn equality_is_restored_by_restoring_the_field() {
    let base = CfgEnv::default();
    let mut c = base.clone();
    c.chain_id = 5;
    c.chain_id = 1;
    assert_eq!(c, base);
}

#[test]
fn analysis_kind_has_two_variants() {
    let raw = AnalysisKind::Raw;
    let analyse = AnalysisKind::Analyse;
    assert_ne!(raw, analyse);
    // every value of the enumeration is one of the two variants
    for k in [raw, analyse] {
        assert!(matches!(k, AnalysisKind::Raw | AnalysisKind::Analyse));
    }
}
