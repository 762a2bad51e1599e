use evm_cfg::AnalysisKind;
use evm_cfg::CfgEnv;
use evm_cfg::EnvKzgSettings;

#[test]
fn round_trip_default() {
    let c = CfgEnv::default();
    let bytes = c.encode();
    let decoded = CfgEnv::decode(&bytes);
    assert_eq!(decoded, Some(c));
}

#[test]
fn round_trip_with_every_field_set() {
    let mut c = CfgEnv::default();
    c.chain_id = 42;
    c.perf_analyse_created_bytecodes = AnalysisKind::Raw;
    c.limit_contract_code_size = Some(100000);
    c.disable_nonce_check = true;
    c.memory_limit = Some(123456789);
    c.disable_balance_check = Some(true);
    c.disable_block_gas_limit = Some(false);
    c.disable_eip3607 = Some(true);
    c.disable_gas_refund = Some(true);
    c.disable_base_fee = Some(false);
    let bytes = c.encode();
    let decoded = CfgEnv::decode(&bytes);
    assert_eq!(decoded, Some(c));
}

#[test]
fn round_trip_with_every_toggle_absent() {
    let mut c = CfgEnv::default();
    c.limit_contract_code_size = None;
    c.memory_limit = None;
    c.disable_balance_check = None;
    c.disable_block_gas_limit = None;
    c.disable_eip3607 = None;
    c.disable_gas_refund = None;
    c.disable_base_fee = None;
    let bytes = c.encode();
    // three required fields only: 9 + 2 + 2 bytes, nothing for the rest
    assert_eq!(bytes.len(), 13);
    let decoded = CfgEnv::decode(&bytes);
    assert_eq!(decoded, Some(c));
}

#[test]
fn round_trip_extreme_values() {
    let mut c = CfgEnv::default();
    c.chain_id = u64::MAX;
    c.limit_contract_code_size = Some(0);
    c.memory_limit = Some(u64::MAX);
    let bytes = c.encode();
    let decoded = CfgEnv::decode(&bytes);
    assert_eq!(decoded, Some(c));
}

#[test]
fn trusted_setup_selection_is_never_encoded() {
    let mainnet = CfgEnv::default();
    let mut custom = CfgEnv::default();
    custom.kzg_settings = Some(EnvKzgSettings::Custom);
    let mut absent = CfgEnv::default();
    absent.kzg_settings = None;
    let bytes = mainnet.encode();
    assert_eq!(custom.encode(), bytes);
    assert_eq!(absent.encode(), bytes);
    // decoding restores the default selection, whatever was configured
    let decoded = CfgEnv::decode(&custom.encode()).unwrap();
    assert_eq!(decoded.kzg_settings, Some(EnvKzgSettings::Mainnet));
    assert_eq!(decoded, mainnet);
}

#[test]
fn encoding_layout_of_default() {
    let bytes = CfgEnv::default().encode();
    let expected: Vec<u8> = vec![
        1, 1, 0, 0, 0, 0, 0, 0, 0, // chain id 1, little endian
        2, 1, // analysis mode: Analyse
        3, 0, // nonce check enforced
        5, 0xFF, 0xFF, 0xFF, 0xFF, 0, 0, 0, 0, // memory limit 2^32 - 1
        6, 0, // balance check enforced
        7, 0, // block gas limit enforced
        8, 0, // EIP-3607 enforced
        9, 0, // gas refunds applied
        10, 0, // base fee enforced
    ];
    assert_eq!(bytes, expected);
}

#[test]
fn encoding_layout_with_code_size_override() {
    let mut c = CfgEnv::default();
    c.limit_contract_code_size = Some(100000);
    let bytes = c.encode();
    // the override sits between the nonce flag and the memory limit
    assert_eq!(bytes[13], 4);
    assert_eq!(&bytes[14..22], &[0xA0, 0x86, 0x01, 0, 0, 0, 0, 0]);
    assert_eq!(bytes[22], 5);
}

#[test]
fn decode_rejects_empty_input() {
    assert_eq!(CfgEnv::decode(&Vec::new()), None);
}

#[test]
fn decode_rejects_cuts_inside_a_field() {
    let bytes = CfgEnv::default().encode();
    // field boundaries of the default encoding
    let boundaries = [0, 9, 11, 13, 22, 24, 26, 28, 30, 32];
    for cut in 1..bytes.len() {
        if !boundaries.contains(&cut) {
            let shorter: Vec<u8> = bytes[..cut].to_vec();
            assert_eq!(CfgEnv::decode(&shorter), None);
        }
    }
    // cuts between the required fields still leave the record incomplete
    for cut in [9, 11] {
        let shorter: Vec<u8> = bytes[..cut].to_vec();
        assert_eq!(CfgEnv::decode(&shorter), None);
    }
}

#[test]
fn decode_treats_a_cut_at_a_toggle_boundary_as_absence() {
    let bytes = CfgEnv::default().encode();
    // dropping the trailing flag fields yields a record whose toggles
    // are absent, and absent toggles decode as absent, not as false
    let shorter: Vec<u8> = bytes[..22].to_vec();
    let decoded = CfgEnv::decode(&shorter).unwrap();
    assert_eq!(decoded.memory_limit, Some(0xFFFF_FFFF));
    assert_eq!(decoded.disable_balance_check, None);
    assert_eq!(decoded.disable_block_gas_limit, None);
    assert_eq!(decoded.disable_eip3607, None);
    assert_eq!(decoded.disable_gas_refund, None);
    assert_eq!(decoded.disable_base_fee, None);
}

#[test]
fn decode_rejects_trailing_bytes() {
    let mut bytes = CfgEnv::default().encode();
    bytes.push(0);
    assert_eq!(CfgEnv::decode(&bytes), None);
}

#[test]
fn decode_rejects_wrong_leading_tag() {
    let mut bytes = CfgEnv::default().encode();
    bytes[0] = 2;
    assert_eq!(CfgEnv::decode(&bytes), None);
}

#[test]
fn decode_rejects_invalid_flag_byte() {
    let mut bytes = CfgEnv::default().encode();
    // the nonce flag byte sits at offset 12
    bytes[12] = 2;
    assert_eq!(CfgEnv::decode(&bytes), None);
}

#[test]
fn decode_rejects_unknown_tag() {
    let mut c = CfgEnv::default();
    c.disable_base_fee = None;
    let mut bytes = c.encode();
    bytes.push(11);
    bytes.push(0);
    assert_eq!(CfgEnv::decode(&bytes), None);
}

#[test]
fn decode_rejects_fields_out_of_order() {
    let mut c = CfgEnv::default();
    c.memory_limit = None;
    c.disable_balance_check = None;
    let mut bytes = c.encode();
    // a balance flag after the block-gas flag breaks the tag order
    let n = bytes.len();
    bytes.insert(n - 6, 0);
    bytes.insert(n - 6, 6);
    assert_eq!(CfgEnv::decode(&bytes), None);
}

#[test]
fn decode_rejects_duplicate_field() {
    let mut bytes = CfgEnv::default().encode();
    bytes.push(10);
    bytes.push(0);
    assert_eq!(CfgEnv::decode(&bytes), None);
}

#[test]
fn decode_accepts_a_hand_written_record() {
    let bytes: Vec<u8> = vec![
        1, 42, 0, 0, 0, 0, 0, 0, 0, // chain id 42
        2, 0, // analysis mode: Raw
        3, 1, // nonce check skipped
        4, 16, 39, 0, 0, 0, 0, 0, 0, // code-size override 10000
        10, 1, // base-fee check skipped
    ];
    let decoded = CfgEnv::decode(&bytes).unwrap();
    assert_eq!(decoded.chain_id, 42);
    assert_eq!(decoded.perf_analyse_created_bytecodes, AnalysisKind::Raw);
    assert!(decoded.disable_nonce_check);
    assert_eq!(decoded.limit_contract_code_size, Some(10000));
    assert_eq!(decoded.memory_limit, None);
    assert_eq!(decoded.disable_balance_check, None);
    assert_eq!(decoded.disable_block_gas_limit, None);
    assert_eq!(decoded.disable_eip3607, None);
    assert_eq!(decoded.disable_gas_refund, None);
    assert_eq!(decoded.disable_base_fee, Some(true));
    assert_eq!(decoded.kzg_settings, Some(EnvKzgSettings::Mainnet));
}
