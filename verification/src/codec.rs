//! A self-describing byte encoding of the policy value.
//!
//! The encoding is a field-tagged record: each field that is present is
//! written as its one-byte tag followed by its value (eight
//! little-endian bytes for an integer, one byte for a flag or a mode),
//! in ascending tag order. A toggle that is absent contributes nothing
//! at all, so a decoder on a build without that toggle never reads a
//! fabricated value for it. The trusted-setup selection is never part
//! of the encoding.

use vstd::prelude::*;

use vstd::bytes::lemma_auto_spec_u64_to_from_le_bytes;
use vstd::seq_lib::lemma_seq_skip_of_skip;
use vstd::bytes::spec_u64_to_le_bytes;
use vstd::bytes::u64_from_le_bytes;
use vstd::bytes::u64_to_le_bytes;
use vstd::slice::slice_subrange;

use crate::cfg::AnalysisKind;
use crate::cfg::CfgEnv;
use crate::cfg::EnvKzgSettings;

verus! {

broadcast use vstd::seq::group_seq_axioms;

/// Field tag of the chain identifier.
pub const FIELD_CHAIN_ID: u8 = 1;

/// Field tag of the bytecode-analysis mode.
pub const FIELD_ANALYSIS: u8 = 2;

/// Field tag of the nonce-check suppression flag.
pub const FIELD_NONCE_CHECK: u8 = 3;

/// Field tag of the code-size override.
pub const FIELD_CODE_SIZE: u8 = 4;

/// Field tag of the memory limit.
pub const FIELD_MEMORY_LIMIT: u8 = 5;

/// Field tag of the balance-check suppression flag.
pub const FIELD_BALANCE: u8 = 6;

/// Field tag of the block-gas-limit suppression flag.
pub const FIELD_BLOCK_GAS: u8 = 7;

/// Field tag of the EIP-3607 suppression flag.
pub const FIELD_EIP3607: u8 = 8;

/// Field tag of the gas-refund suppression flag.
pub const FIELD_GAS_REFUND: u8 = 9;

/// Field tag of the base-fee suppression flag.
pub const FIELD_BASE_FEE: u8 = 10;

/// The byte that stands for a flag value.
pub open spec fn spec_bool_byte(b: bool) -> u8 {
    if b {
        1u8
    } else {
        0u8
    }
}

/// The byte that stands for an analysis mode.
pub open spec fn spec_kind_byte(k: AnalysisKind) -> u8 {
    match k {
        AnalysisKind::Raw => 0u8,
        AnalysisKind::Analyse => 1u8,
    }
}

/// A tagged integer field: the tag, then eight little-endian bytes.
pub open spec fn spec_u64_field(tag: u8, v: u64) -> Seq<u8> {
    seq![tag] + spec_u64_to_le_bytes(v)
}

/// A tagged one-byte field.
pub open spec fn spec_byte_field(tag: u8, b: u8) -> Seq<u8> {
    seq![tag, b]
}

/// An optional tagged integer field: absent toggles contribute nothing.
pub open spec fn spec_opt_u64_field(tag: u8, f: Option<u64>) -> Seq<u8> {
    match f {
        Some(v) => spec_u64_field(tag, v),
        None => Seq::<u8>::empty(),
    }
}

/// An optional tagged flag field: absent toggles contribute nothing.
pub open spec fn spec_opt_bool_field(tag: u8, f: Option<bool>) -> Seq<u8> {
    match f {
        Some(b) => spec_byte_field(tag, spec_bool_byte(b)),
        None => Seq::<u8>::empty(),
    }
}

/// An optional size widened to the integer the encoding carries.
pub open spec fn spec_opt_usize_word(f: Option<usize>) -> Option<u64> {
    match f {
        Some(v) => Some(v as u64),
        None => None,
    }
}

/// The code-size override widened to the integer the encoding carries.
pub open spec fn spec_code_size_word(c: CfgEnv) -> Option<u64> {
    spec_opt_usize_word(c.limit_contract_code_size)
}

/// The encoding from the base-fee field on.
pub open spec fn spec_encode_from_base_fee(c: CfgEnv) -> Seq<u8> {
    spec_opt_bool_field(FIELD_BASE_FEE, c.disable_base_fee)
}

/// The encoding from the gas-refund field on.
pub open spec fn spec_encode_from_gas_refund(c: CfgEnv) -> Seq<u8> {
    spec_opt_bool_field(FIELD_GAS_REFUND, c.disable_gas_refund) + spec_encode_from_base_fee(c)
}

/// The encoding from the EIP-3607 field on.
pub open spec fn spec_encode_from_eip3607(c: CfgEnv) -> Seq<u8> {
    spec_opt_bool_field(FIELD_EIP3607, c.disable_eip3607) + spec_encode_from_gas_refund(c)
}

/// The encoding from the block-gas-limit field on.
pub open spec fn spec_encode_from_block_gas(c: CfgEnv) -> Seq<u8> {
    spec_opt_bool_field(FIELD_BLOCK_GAS, c.disable_block_gas_limit) + spec_encode_from_eip3607(c)
}

/// The encoding from the balance-check field on.
pub open spec fn spec_encode_from_balance(c: CfgEnv) -> Seq<u8> {
    spec_opt_bool_field(FIELD_BALANCE, c.disable_balance_check) + spec_encode_from_block_gas(c)
}

/// The encoding from the memory-limit field on.
pub open spec fn spec_encode_from_memory_limit(c: CfgEnv) -> Seq<u8> {
    spec_opt_u64_field(FIELD_MEMORY_LIMIT, c.memory_limit) + spec_encode_from_balance(c)
}

/// The encoding from the code-size override on.
pub open spec fn spec_encode_from_code_size(c: CfgEnv) -> Seq<u8> {
    spec_opt_u64_field(FIELD_CODE_SIZE, spec_code_size_word(c)) + spec_encode_from_memory_limit(c)
}

/// The encoding from the nonce-check field on.
pub open spec fn spec_encode_from_nonce(c: CfgEnv) -> Seq<u8> {
    spec_byte_field(FIELD_NONCE_CHECK, spec_bool_byte(c.disable_nonce_check))
        + spec_encode_from_code_size(c)
}

/// The encoding from the analysis-mode field on.
pub open spec fn spec_encode_from_analysis(c: CfgEnv) -> Seq<u8> {
    spec_byte_field(FIELD_ANALYSIS, spec_kind_byte(c.perf_analyse_created_bytecodes))
        + spec_encode_from_nonce(c)
}

/// The full encoding of a policy value. The trusted-setup selection
/// does not occur in it.
pub open spec fn spec_encode(c: CfgEnv) -> Seq<u8> {
    spec_u64_field(FIELD_CHAIN_ID, c.chain_id) + spec_encode_from_analysis(c)
}

/// Two policy values that differ at most in their trusted-setup
/// selection have the same encoding: the selection is never written.
pub proof fn lemma_encode_ignores_kzg(a: CfgEnv, b: CfgEnv)
    requires
        a.chain_id == b.chain_id,
        a.perf_analyse_created_bytecodes == b.perf_analyse_created_bytecodes,
        a.limit_contract_code_size == b.limit_contract_code_size,
        a.disable_nonce_check == b.disable_nonce_check,
        a.memory_limit == b.memory_limit,
        a.disable_balance_check == b.disable_balance_check,
        a.disable_block_gas_limit == b.disable_block_gas_limit,
        a.disable_eip3607 == b.disable_eip3607,
        a.disable_gas_refund == b.disable_gas_refund,
        a.disable_base_fee == b.disable_base_fee,
    ensures
        spec_encode(a) == spec_encode(b),
{
}

fn encode_from_base_fee(c: &CfgEnv) -> (r: Vec<u8>)
    ensures
        r@ == spec_encode_from_base_fee(*c),
{
    let mut out: Vec<u8> = Vec::new();
    match c.disable_base_fee {
        Some(b) => {
            out.push(FIELD_BASE_FEE);
            out.push(if b { 1 } else { 0 });
            proof {
                assert(out@ =~= spec_encode_from_base_fee(*c));
            }
        },
        None => {
            proof {
                assert(out@ =~= spec_encode_from_base_fee(*c));
            }
        },
    }
    out
}

fn encode_from_gas_refund(c: &CfgEnv) -> (r: Vec<u8>)
    ensures
        r@ == spec_encode_from_gas_refund(*c),
{
    let mut out: Vec<u8> = Vec::new();
    match c.disable_gas_refund {
        Some(b) => {
            out.push(FIELD_GAS_REFUND);
            out.push(if b { 1 } else { 0 });
        },
        None => {},
    }
    proof {
        assert(out@ =~= spec_opt_bool_field(FIELD_GAS_REFUND, c.disable_gas_refund));
    }
    let mut tail = encode_from_base_fee(c);
    out.append(&mut tail);
    out
}

fn encode_from_eip3607(c: &CfgEnv) -> (r: Vec<u8>)
    ensures
        r@ == spec_encode_from_eip3607(*c),
{
    let mut out: Vec<u8> = Vec::new();
    match c.disable_eip3607 {
        Some(b) => {
            out.push(FIELD_EIP3607);
            out.push(if b { 1 } else { 0 });
        },
        None => {},
    }
    proof {
        assert(out@ =~= spec_opt_bool_field(FIELD_EIP3607, c.disable_eip3607));
    }
    let mut tail = encode_from_gas_refund(c);
    out.append(&mut tail);
    out
}

fn encode_from_block_gas(c: &CfgEnv) -> (r: Vec<u8>)
    ensures
        r@ == spec_encode_from_block_gas(*c),
{
    let mut out: Vec<u8> = Vec::new();
    match c.disable_block_gas_limit {
        Some(b) => {
            out.push(FIELD_BLOCK_GAS);
            out.push(if b { 1 } else { 0 });
        },
        None => {},
    }
    proof {
        assert(out@ =~= spec_opt_bool_field(FIELD_BLOCK_GAS, c.disable_block_gas_limit));
    }
    let mut tail = encode_from_eip3607(c);
    out.append(&mut tail);
    out
}

fn encode_from_balance(c: &CfgEnv) -> (r: Vec<u8>)
    ensures
        r@ == spec_encode_from_balance(*c),
{
    let mut out: Vec<u8> = Vec::new();
    match c.disable_balance_check {
        Some(b) => {
            out.push(FIELD_BALANCE);
            out.push(if b { 1 } else { 0 });
        },
        None => {},
    }
    proof {
        assert(out@ =~= spec_opt_bool_field(FIELD_BALANCE, c.disable_balance_check));
    }
    let mut tail = encode_from_block_gas(c);
    out.append(&mut tail);
    out
}

fn encode_from_memory_limit(c: &CfgEnv) -> (r: Vec<u8>)
    ensures
        r@ == spec_encode_from_memory_limit(*c),
{
    let mut out: Vec<u8> = Vec::new();
    match c.memory_limit {
        Some(v) => {
            out.push(FIELD_MEMORY_LIMIT);
            let mut w = u64_to_le_bytes(v);
            out.append(&mut w);
        },
        None => {},
    }
    proof {
        lemma_auto_spec_u64_to_from_le_bytes();
        assert(out@ =~= spec_opt_u64_field(FIELD_MEMORY_LIMIT, c.memory_limit));
    }
    let mut tail = encode_from_balance(c);
    out.append(&mut tail);
    out
}

fn encode_from_code_size(c: &CfgEnv) -> (r: Vec<u8>)
    ensures
        r@ == spec_encode_from_code_size(*c),
{
    let mut out: Vec<u8> = Vec::new();
    match c.limit_contract_code_size {
        Some(v) => {
            out.push(FIELD_CODE_SIZE);
            let mut w = u64_to_le_bytes(v as u64);
            out.append(&mut w);
        },
        None => {},
    }
    proof {
        lemma_auto_spec_u64_to_from_le_bytes();
        assert(out@ =~= spec_opt_u64_field(FIELD_CODE_SIZE, spec_code_size_word(*c)));
    }
    let mut tail = encode_from_memory_limit(c);
    out.append(&mut tail);
    out
}

fn encode_from_nonce(c: &CfgEnv) -> (r: Vec<u8>)
    ensures
        r@ == spec_encode_from_nonce(*c),
{
    let mut out: Vec<u8> = Vec::new();
    out.push(FIELD_NONCE_CHECK);
    out.push(if c.disable_nonce_check { 1 } else { 0 });
    proof {
        assert(out@ =~= spec_byte_field(FIELD_NONCE_CHECK, spec_bool_byte(c.disable_nonce_check)));
    }
    let mut tail = encode_from_code_size(c);
    out.append(&mut tail);
    out
}

fn encode_from_analysis(c: &CfgEnv) -> (r: Vec<u8>)
    ensures
        r@ == spec_encode_from_analysis(*c),
{
    let mut out: Vec<u8> = Vec::new();
    out.push(FIELD_ANALYSIS);
    let kb: u8 = match c.perf_analyse_created_bytecodes {
        AnalysisKind::Raw => 0,
        AnalysisKind::Analyse => 1,
    };
    out.push(kb);
    proof {
        assert(out@ =~= spec_byte_field(
            FIELD_ANALYSIS,
            spec_kind_byte(c.perf_analyse_created_bytecodes),
        ));
    }
    let mut tail = encode_from_nonce(c);
    out.append(&mut tail);
    out
}

impl CfgEnv {
    /// Encodes the policy as a field-tagged byte record. Every present
    /// field except the trusted-setup selection is written; absent
    /// toggles are not represented at all.
    pub fn encode(&self) -> (r: Vec<u8>)
        ensures
            r@ == spec_encode(*self),
    {
        let mut out: Vec<u8> = Vec::new();
        out.push(FIELD_CHAIN_ID);
        let mut w = u64_to_le_bytes(self.chain_id);
        out.append(&mut w);
        proof {
            lemma_auto_spec_u64_to_from_le_bytes();
            assert(out@ =~= spec_u64_field(FIELD_CHAIN_ID, self.chain_id));
        }
        let mut tail = encode_from_analysis(self);
        out.append(&mut tail);
        out
    }
}

proof fn lemma_first_from_base_fee(c: CfgEnv)
    ensures
        spec_encode_from_base_fee(c).len() == 0 || spec_encode_from_base_fee(c)[0]
            >= FIELD_BASE_FEE,
{
    match c.disable_base_fee {
        Some(b) => {
            assert(spec_encode_from_base_fee(c)[0] == FIELD_BASE_FEE);
        },
        None => {
        },
    }
}

proof fn lemma_first_from_gas_refund(c: CfgEnv)
    ensures
        spec_encode_from_gas_refund(c).len() == 0 || spec_encode_from_gas_refund(c)[0]
            >= FIELD_GAS_REFUND,
{
    lemma_first_from_base_fee(c);
    match c.disable_gas_refund {
        Some(b) => {
            assert(spec_encode_from_gas_refund(c)[0] == FIELD_GAS_REFUND);
        },
        None => {
            assert(spec_encode_from_gas_refund(c) =~= spec_encode_from_base_fee(c));
        },
    }
}

proof fn lemma_first_from_eip3607(c: CfgEnv)
    ensures
        spec_encode_from_eip3607(c).len() == 0 || spec_encode_from_eip3607(c)[0] >= FIELD_EIP3607,
{
    lemma_first_from_gas_refund(c);
    match c.disable_eip3607 {
        Some(b) => {
            assert(spec_encode_from_eip3607(c)[0] == FIELD_EIP3607);
        },
        None => {
            assert(spec_encode_from_eip3607(c) =~= spec_encode_from_gas_refund(c));
        },
    }
}

proof fn lemma_first_from_block_gas(c: CfgEnv)
    ensures
        spec_encode_from_block_gas(c).len() == 0 || spec_encode_from_block_gas(c)[0]
            >= FIELD_BLOCK_GAS,
{
    lemma_first_from_eip3607(c);
    match c.disable_block_gas_limit {
        Some(b) => {
            assert(spec_encode_from_block_gas(c)[0] == FIELD_BLOCK_GAS);
        },
        None => {
            assert(spec_encode_from_block_gas(c) =~= spec_encode_from_eip3607(c));
        },
    }
}

proof fn lemma_first_from_balance(c: CfgEnv)
    ensures
        spec_encode_from_balance(c).len() == 0 || spec_encode_from_balance(c)[0] >= FIELD_BALANCE,
{
    lemma_first_from_block_gas(c);
    match c.disable_balance_check {
        Some(b) => {
            assert(spec_encode_from_balance(c)[0] == FIELD_BALANCE);
        },
        None => {
            assert(spec_encode_from_balance(c) =~= spec_encode_from_block_gas(c));
        },
    }
}

proof fn lemma_first_from_memory_limit(c: CfgEnv)
    ensures
        spec_encode_from_memory_limit(c).len() == 0 || spec_encode_from_memory_limit(c)[0]
            >= FIELD_MEMORY_LIMIT,
{
    lemma_first_from_balance(c);
    lemma_auto_spec_u64_to_from_le_bytes();
    match c.memory_limit {
        Some(v) => {
            assert(spec_encode_from_memory_limit(c)[0] == FIELD_MEMORY_LIMIT);
        },
        None => {
            assert(spec_encode_from_memory_limit(c) =~= spec_encode_from_balance(c));
        },
    }
}

fn parse_req_u64(bytes: &Vec<u8>, i: usize, tag: u8) -> (r: Option<(u64, usize)>)
    requires
        i <= bytes@.len(),
    ensures
        match r {
            Some((v, j)) => j == i + 9 && i + 9 <= bytes@.len() && bytes@[i as int] == tag
                && bytes@.subrange(i as int + 1, i as int + 9) == spec_u64_to_le_bytes(v),
            None => !(i < bytes@.len() && bytes@[i as int] == tag && i + 9 <= bytes@.len()),
        },
{
    if i < bytes.len() && bytes[i] == tag && bytes.len() - i >= 9 {
        let s = slice_subrange(bytes.as_slice(), i + 1, i + 9);
        let v = u64_from_le_bytes(s);
        proof {
            lemma_auto_spec_u64_to_from_le_bytes();
            assert(bytes@.subrange(i as int + 1, i as int + 9) == spec_u64_to_le_bytes(v));
        }
        Some((v, i + 9))
    } else {
        None
    }
}

fn parse_req_bool(bytes: &Vec<u8>, i: usize, tag: u8) -> (r: Option<(bool, usize)>)
    requires
        i <= bytes@.len(),
    ensures
        match r {
            Some((b, j)) => j == i + 2 && i + 2 <= bytes@.len() && bytes@[i as int] == tag
                && bytes@[i as int + 1] == spec_bool_byte(b),
            None => !(i + 2 <= bytes@.len() && bytes@[i as int] == tag && (bytes@[i as int + 1]
                == 0 || bytes@[i as int + 1] == 1)),
        },
{
    if i < bytes.len() && bytes[i] == tag && bytes.len() - i >= 2 {
        let b = bytes[i + 1];
        if b == 0 {
            Some((false, i + 2))
        } else if b == 1 {
            Some((true, i + 2))
        } else {
            None
        }
    } else {
        None
    }
}

fn parse_req_kind(bytes: &Vec<u8>, i: usize, tag: u8) -> (r: Option<(AnalysisKind, usize)>)
    requires
        i <= bytes@.len(),
    ensures
        match r {
            Some((k, j)) => j == i + 2 && i + 2 <= bytes@.len() && bytes@[i as int] == tag
                && bytes@[i as int + 1] == spec_kind_byte(k),
            None => !(i + 2 <= bytes@.len() && bytes@[i as int] == tag && (bytes@[i as int + 1]
                == 0 || bytes@[i as int + 1] == 1)),
        },
{
    if i < bytes.len() && bytes[i] == tag && bytes.len() - i >= 2 {
        let b = bytes[i + 1];
        if b == 0 {
            Some((AnalysisKind::Raw, i + 2))
        } else if b == 1 {
            Some((AnalysisKind::Analyse, i + 2))
        } else {
            None
        }
    } else {
        None
    }
}

fn parse_opt_bool(bytes: &Vec<u8>, i: usize, tag: u8) -> (r: Option<(Option<bool>, usize)>)
    requires
        i <= bytes@.len(),
    ensures
        match r {
            Some((f, j)) => match f {
                Some(b) => j == i + 2 && i + 2 <= bytes@.len() && bytes@[i as int] == tag
                    && bytes@[i as int + 1] == spec_bool_byte(b),
                None => j == i && (i == bytes@.len() || bytes@[i as int] != tag),
            },
            None => i < bytes@.len() && bytes@[i as int] == tag && !(i + 2 <= bytes@.len() && (
            bytes@[i as int + 1] == 0 || bytes@[i as int + 1] == 1)),
        },
{
    if i < bytes.len() && bytes[i] == tag {
        if bytes.len() - i >= 2 {
            let b = bytes[i + 1];
            if b == 0 {
                Some((Some(false), i + 2))
            } else if b == 1 {
                Some((Some(true), i + 2))
            } else {
                None
            }
        } else {
            None
        }
    } else {
        Some((None, i))
    }
}

fn parse_opt_u64(bytes: &Vec<u8>, i: usize, tag: u8) -> (r: Option<(Option<u64>, usize)>)
    requires
        i <= bytes@.len(),
    ensures
        match r {
            Some((f, j)) => match f {
                Some(v) => j == i + 9 && i + 9 <= bytes@.len() && bytes@[i as int] == tag
                    && bytes@.subrange(i as int + 1, i as int + 9) == spec_u64_to_le_bytes(v),
                None => j == i && (i == bytes@.len() || bytes@[i as int] != tag),
            },
            None => i < bytes@.len() && bytes@[i as int] == tag && i + 9 > bytes@.len(),
        },
{
    if i < bytes.len() && bytes[i] == tag {
        if bytes.len() - i >= 9 {
            let s = slice_subrange(bytes.as_slice(), i + 1, i + 9);
            let v = u64_from_le_bytes(s);
            proof {
                lemma_auto_spec_u64_to_from_le_bytes();
                assert(bytes@.subrange(i as int + 1, i as int + 9) == spec_u64_to_le_bytes(v));
            }
            Some((Some(v), i + 9))
        } else {
            None
        }
    } else {
        Some((None, i))
    }
}

/// Unfolds one optional-flag field of the encoding at position `i`.
#[verifier::spinoff_prover]
proof fn lemma_step_balance(bytes: Seq<u8>, i: int, c: CfgEnv)
    requires
        0 <= i <= bytes.len(),
        bytes.skip(i) == spec_encode_from_balance(c),
    ensures
        match c.disable_balance_check {
            Some(b) => i + 2 <= bytes.len() && bytes[i] == FIELD_BALANCE && bytes[i + 1] == spec_bool_byte(
                b,
            ) && bytes.skip(i + 2) == spec_encode_from_block_gas(c),
            None => bytes.skip(i) == spec_encode_from_block_gas(c) && (i == bytes.len() || bytes[i]
                >= FIELD_BLOCK_GAS),
        },
{
    lemma_first_from_block_gas(c);
    match c.disable_balance_check {
        Some(b) => {
            assert(bytes.skip(i).len() >= 2);
            assert(bytes.skip(i)[0] == bytes[i]);
            assert(bytes.skip(i)[0] == FIELD_BALANCE);
            assert(bytes.skip(i)[1] == bytes[i + 1]);
            assert(bytes.skip(i)[1] == spec_bool_byte(b));
            assert(spec_encode_from_balance(c).skip(2) =~= spec_encode_from_block_gas(c));
            lemma_seq_skip_of_skip::<u8>(bytes, i, 2);
            assert(bytes.skip(i + 2) == spec_encode_from_block_gas(c));
        },
        None => {
            assert(bytes.skip(i) =~= spec_encode_from_block_gas(c));
            if i < bytes.len() {
                assert(bytes.skip(i)[0] == bytes[i]);
            }
        },
    }
}

/// Unfolds one optional-flag field of the encoding at position `i`.
#[verifier::spinoff_prover]
proof fn lemma_step_block_gas(bytes: Seq<u8>, i: int, c: CfgEnv)
    requires
        0 <= i <= bytes.len(),
        bytes.skip(i) == spec_encode_from_block_gas(c),
    ensures
        match c.disable_block_gas_limit {
            Some(b) => i + 2 <= bytes.len() && bytes[i] == FIELD_BLOCK_GAS && bytes[i + 1] == spec_bool_byte(
                b,
            ) && bytes.skip(i + 2) == spec_encode_from_eip3607(c),
            None => bytes.skip(i) == spec_encode_from_eip3607(c) && (i == bytes.len() || bytes[i]
                >= FIELD_EIP3607),
        },
{
    lemma_first_from_eip3607(c);
    match c.disable_block_gas_limit {
        Some(b) => {
            assert(bytes.skip(i).len() >= 2);
            assert(bytes.skip(i)[0] == bytes[i]);
            assert(bytes.skip(i)[0] == FIELD_BLOCK_GAS);
            assert(bytes.skip(i)[1] == bytes[i + 1]);
            assert(bytes.skip(i)[1] == spec_bool_byte(b));
            assert(spec_encode_from_block_gas(c).skip(2) =~= spec_encode_from_eip3607(c));
            lemma_seq_skip_of_skip::<u8>(bytes, i, 2);
            assert(bytes.skip(i + 2) == spec_encode_from_eip3607(c));
        },
        None => {
            assert(bytes.skip(i) =~= spec_encode_from_eip3607(c));
            if i < bytes.len() {
                assert(bytes.skip(i)[0] == bytes[i]);
            }
        },
    }
}

/// Unfolds one optional-flag field of the encoding at position `i`.
#[verifier::spinoff_prover]
proof fn lemma_step_eip3607(bytes: Seq<u8>, i: int, c: CfgEnv)
    requires
        0 <= i <= bytes.len(),
        bytes.skip(i) == spec_encode_from_eip3607(c),
    ensures
        match c.disable_eip3607 {
            Some(b) => i + 2 <= bytes.len() && bytes[i] == FIELD_EIP3607 && bytes[i + 1] == spec_bool_byte(
                b,
            ) && bytes.skip(i + 2) == spec_encode_from_gas_refund(c),
            None => bytes.skip(i) == spec_encode_from_gas_refund(c) && (i == bytes.len() || bytes[i]
                >= FIELD_GAS_REFUND),
        },
{
    lemma_first_from_gas_refund(c);
    match c.disable_eip3607 {
        Some(b) => {
            assert(bytes.skip(i).len() >= 2);
            assert(bytes.skip(i)[0] == bytes[i]);
            assert(bytes.skip(i)[0] == FIELD_EIP3607);
            assert(bytes.skip(i)[1] == bytes[i + 1]);
            assert(bytes.skip(i)[1] == spec_bool_byte(b));
            assert(spec_encode_from_eip3607(c).skip(2) =~= spec_encode_from_gas_refund(c));
            lemma_seq_skip_of_skip::<u8>(bytes, i, 2);
            assert(bytes.skip(i + 2) == spec_encode_from_gas_refund(c));
        },
        None => {
            assert(bytes.skip(i) =~= spec_encode_from_gas_refund(c));
            if i < bytes.len() {
                assert(bytes.skip(i)[0] == bytes[i]);
            }
        },
    }
}

/// Unfolds one optional-flag field of the encoding at position `i`.
#[verifier::spinoff_prover]
proof fn lemma_step_gas_refund(bytes: Seq<u8>, i: int, c: CfgEnv)
    requires
        0 <= i <= bytes.len(),
        bytes.skip(i) == spec_encode_from_gas_refund(c),
    ensures
        match c.disable_gas_refund {
            Some(b) => i + 2 <= bytes.len() && bytes[i] == FIELD_GAS_REFUND && bytes[i + 1] == spec_bool_byte(
                b,
            ) && bytes.skip(i + 2) == spec_encode_from_base_fee(c),
            None => bytes.skip(i) == spec_encode_from_base_fee(c) && (i == bytes.len() || bytes[i]
                >= FIELD_BASE_FEE),
        },
{
    lemma_first_from_base_fee(c);
    match c.disable_gas_refund {
        Some(b) => {
            assert(bytes.skip(i).len() >= 2);
            assert(bytes.skip(i)[0] == bytes[i]);
            assert(bytes.skip(i)[0] == FIELD_GAS_REFUND);
            assert(bytes.skip(i)[1] == bytes[i + 1]);
            assert(bytes.skip(i)[1] == spec_bool_byte(b));
            assert(spec_encode_from_gas_refund(c).skip(2) =~= spec_encode_from_base_fee(c));
            lemma_seq_skip_of_skip::<u8>(bytes, i, 2);
            assert(bytes.skip(i + 2) == spec_encode_from_base_fee(c));
        },
        None => {
            assert(bytes.skip(i) =~= spec_encode_from_base_fee(c));
            if i < bytes.len() {
                assert(bytes.skip(i)[0] == bytes[i]);
            }
        },
    }
}

/// Unfolds the base-fee field, the last of the encoding, at position `i`.
#[verifier::spinoff_prover]
proof fn lemma_step_base_fee(bytes: Seq<u8>, i: int, c: CfgEnv)
    requires
        0 <= i <= bytes.len(),
        bytes.skip(i) == spec_encode_from_base_fee(c),
    ensures
        match c.disable_base_fee {
            Some(b) => i + 2 == bytes.len() && bytes[i] == FIELD_BASE_FEE && bytes[i + 1]
                == spec_bool_byte(b),
            None => i == bytes.len(),
        },
{
    match c.disable_base_fee {
        Some(b) => {
            assert(bytes.skip(i).len() == 2);
            assert(bytes.skip(i)[0] == bytes[i]);
            assert(bytes.skip(i)[1] == bytes[i + 1]);
        },
        None => {
            assert(bytes.skip(i).len() == 0);
        },
    }
}

/// Unfolds one optional-integer field of the encoding at position `i`.
#[verifier::spinoff_prover]
proof fn lemma_step_memory_limit(bytes: Seq<u8>, i: int, c: CfgEnv)
    requires
        0 <= i <= bytes.len(),
        bytes.skip(i) == spec_encode_from_memory_limit(c),
    ensures
        match c.memory_limit {
            Some(v) => i + 9 <= bytes.len() && bytes[i] == FIELD_MEMORY_LIMIT && bytes.subrange(
                i + 1,
                i + 9,
            ) == spec_u64_to_le_bytes(v) && bytes.skip(i + 9) == spec_encode_from_balance(c),
            None => bytes.skip(i) == spec_encode_from_balance(c) && (i == bytes.len() || bytes[i]
                >= FIELD_BALANCE),
        },
{
    lemma_auto_spec_u64_to_from_le_bytes();
    lemma_first_from_balance(c);
    match c.memory_limit {
        Some(v) => {
            assert(spec_u64_field(FIELD_MEMORY_LIMIT, v).len() == 9);
            assert(bytes.skip(i).len() >= 9);
            assert(bytes.skip(i)[0] == bytes[i]);
            assert(bytes.skip(i)[0] == FIELD_MEMORY_LIMIT);
            assert(spec_encode_from_memory_limit(c).subrange(1, 9) =~= spec_u64_to_le_bytes(v));
            assert(bytes.subrange(i + 1, i + 9) =~= bytes.skip(i).subrange(1, 9));
            assert(bytes.subrange(i + 1, i + 9) == spec_u64_to_le_bytes(v));
            assert(spec_encode_from_memory_limit(c).skip(9) =~= spec_encode_from_balance(c));
            lemma_seq_skip_of_skip::<u8>(bytes, i, 9);
            assert(bytes.skip(i + 9) == spec_encode_from_balance(c));
        },
        None => {
            assert(bytes.skip(i) =~= spec_encode_from_balance(c));
            if i < bytes.len() {
                assert(bytes.skip(i)[0] == bytes[i]);
            }
        },
    }
}

/// Unfolds the code-size field of the encoding, which sits at position
/// 13, right after the required fields.
#[verifier::spinoff_prover]
proof fn lemma_step_code_size(bytes: Seq<u8>, c: CfgEnv)
    requires
        13 <= bytes.len(),
        bytes.skip(13) == spec_encode_from_code_size(c),
    ensures
        match c.limit_contract_code_size {
            Some(v) => 22 <= bytes.len() && bytes[13] == FIELD_CODE_SIZE && bytes.subrange(14, 22)
                == spec_u64_to_le_bytes(v as u64) && bytes.skip(22)
                == spec_encode_from_memory_limit(c),
            None => bytes.skip(13) == spec_encode_from_memory_limit(c) && (13 == bytes.len()
                || bytes[13] >= FIELD_MEMORY_LIMIT),
        },
{
    lemma_auto_spec_u64_to_from_le_bytes();
    lemma_first_from_memory_limit(c);
    match c.limit_contract_code_size {
        Some(v) => {
            assert(spec_u64_field(FIELD_CODE_SIZE, v as u64).len() == 9);
            assert(bytes.skip(13).len() >= 9);
            assert(bytes.skip(13)[0] == bytes[13]);
            assert(bytes.skip(13)[0] == FIELD_CODE_SIZE);
            assert(spec_encode_from_code_size(c).subrange(1, 9) =~= spec_u64_to_le_bytes(
                v as u64,
            ));
            assert(bytes.subrange(14, 22) =~= bytes.skip(13).subrange(1, 9));
            assert(bytes.subrange(14, 22) == spec_u64_to_le_bytes(v as u64));
            assert(spec_encode_from_code_size(c).skip(9) =~= spec_encode_from_memory_limit(c));
            lemma_seq_skip_of_skip::<u8>(bytes, 13, 9);
            assert(bytes.skip(22) == spec_encode_from_memory_limit(c));
        },
        None => {
            assert(bytes.skip(13) =~= spec_encode_from_memory_limit(c));
            if 13 < bytes.len() {
                assert(bytes.skip(13)[0] == bytes[13]);
            }
        },
    }
}

/// Unfolds the three required fields at the head of every encoding.
#[verifier::spinoff_prover]
proof fn lemma_header_structure(bytes: Seq<u8>, c: CfgEnv)
    requires
        bytes == spec_encode(c),
    ensures
        13 <= bytes.len(),
        bytes[0] == FIELD_CHAIN_ID,
        bytes.subrange(1, 9) == spec_u64_to_le_bytes(c.chain_id),
        bytes[9] == FIELD_ANALYSIS,
        bytes[10] == spec_kind_byte(c.perf_analyse_created_bytecodes),
        bytes[11] == FIELD_NONCE_CHECK,
        bytes[12] == spec_bool_byte(c.disable_nonce_check),
        bytes.skip(13) == spec_encode_from_code_size(c),
{
    lemma_auto_spec_u64_to_from_le_bytes();
    assert(spec_u64_field(FIELD_CHAIN_ID, c.chain_id).len() == 9);
    assert(bytes.skip(9) =~= spec_encode_from_analysis(c));
    assert(bytes.skip(11) =~= spec_encode_from_nonce(c));
    assert(bytes.skip(13) =~= spec_encode_from_code_size(c));
    assert(bytes.subrange(1, 9) =~= spec_u64_to_le_bytes(c.chain_id));
    assert(bytes[0] == spec_u64_field(FIELD_CHAIN_ID, c.chain_id)[0]);
    assert(bytes[9] == bytes.skip(9)[0]);
    assert(bytes[10] == bytes.skip(9)[1]);
    assert(bytes[11] == bytes.skip(11)[0]);
    assert(bytes[12] == bytes.skip(11)[1]);
}

#[verifier::rlimit(60)]
#[verifier::spinoff_prover]
fn decode_header(bytes: &Vec<u8>) -> (r: Option<(u64, AnalysisKind, bool)>)
    ensures
        match r {
            Some((cid, k, nb)) => {
                &&& 13 <= bytes@.len()
                &&& bytes@.subrange(0, 9) == spec_u64_field(FIELD_CHAIN_ID, cid)
                &&& bytes@.subrange(9, 11) == spec_byte_field(FIELD_ANALYSIS, spec_kind_byte(k))
                &&& bytes@.subrange(11, 13) == spec_byte_field(
                    FIELD_NONCE_CHECK,
                    spec_bool_byte(nb),
                )
                &&& forall|c: CfgEnv| #[trigger] spec_encode(c) == bytes@ ==> bytes@.skip(13)
                    == spec_encode_from_code_size(c)
            },
            None => forall|c: CfgEnv| bytes@ != spec_encode(c),
        },
{
    proof {
        lemma_auto_spec_u64_to_from_le_bytes();
    }
    let (chain_id, i1) = match parse_req_u64(bytes, 0, FIELD_CHAIN_ID) {
        Some(p) => p,
        None => {
            proof {
                assert forall|c: CfgEnv| bytes@ != spec_encode(c) by {
                    if bytes@ == spec_encode(c) {
                        lemma_header_structure(bytes@, c);
                        assert(false);
                    }
                }
            }
            return None;
        },
    };
    let (analysis, i2) = match parse_req_kind(bytes, i1, FIELD_ANALYSIS) {
        Some(p) => p,
        None => {
            proof {
                assert forall|c: CfgEnv| bytes@ != spec_encode(c) by {
                    if bytes@ == spec_encode(c) {
                        lemma_header_structure(bytes@, c);
                        assert(false);
                    }
                }
            }
            return None;
        },
    };
    let (nonce, i3) = match parse_req_bool(bytes, i2, FIELD_NONCE_CHECK) {
        Some(p) => p,
        None => {
            proof {
                assert forall|c: CfgEnv| bytes@ != spec_encode(c) by {
                    if bytes@ == spec_encode(c) {
                        lemma_header_structure(bytes@, c);
                        assert(false);
                    }
                }
            }
            return None;
        },
    };
    proof {
        assert forall|c: CfgEnv| #![trigger spec_encode(c)]
            spec_encode(c) == bytes@ implies bytes@.skip(13) == spec_encode_from_code_size(c) by {
            lemma_header_structure(bytes@, c);
        }
        assert(bytes@.subrange(0, 9) =~= spec_u64_field(FIELD_CHAIN_ID, chain_id));
        assert(bytes@.subrange(9, 11) =~= spec_byte_field(
            FIELD_ANALYSIS,
            spec_kind_byte(analysis),
        ));
        assert(bytes@.subrange(11, 13) =~= spec_byte_field(
            FIELD_NONCE_CHECK,
            spec_bool_byte(nonce),
        ));
    }
    Some((chain_id, analysis, nonce))
}

#[verifier::rlimit(60)]
#[verifier::spinoff_prover]
fn decode_code_size(bytes: &Vec<u8>) -> (r: Option<(Option<usize>, usize)>)
    requires
        13 <= bytes@.len(),
        forall|c: CfgEnv| #[trigger] spec_encode(c) == bytes@ ==> bytes@.skip(13)
            == spec_encode_from_code_size(c),
    ensures
        match r {
            Some((f, j)) => {
                &&& 13 <= j <= bytes@.len()
                &&& bytes@.subrange(13, j as int) == spec_opt_u64_field(
                    FIELD_CODE_SIZE,
                    spec_opt_usize_word(f),
                )
                &&& forall|c: CfgEnv| #[trigger] spec_encode(c) == bytes@ ==> bytes@.skip(
                    j as int,
                ) == spec_encode_from_memory_limit(c)
            },
            None => forall|c: CfgEnv| bytes@ != spec_encode(c),
        },
{
    proof {
        lemma_auto_spec_u64_to_from_le_bytes();
    }
    let (cs_word, j) = match parse_opt_u64(bytes, 13, FIELD_CODE_SIZE) {
        Some(p) => p,
        None => {
            proof {
                assert forall|c: CfgEnv| bytes@ != spec_encode(c) by {
                    if bytes@ == spec_encode(c) {
                        assert(bytes@.skip(13) == spec_encode_from_code_size(c));
                        lemma_step_code_size(bytes@, c);
                        assert(false);
                    }
                }
            }
            return None;
        },
    };
    proof {
        assert forall|c: CfgEnv| #![trigger spec_encode(c)]
            spec_encode(c) == bytes@ implies bytes@.skip(j as int)
            == spec_encode_from_memory_limit(c) by {
            assert(bytes@.skip(13) == spec_encode_from_code_size(c));
            lemma_step_code_size(bytes@, c);
        }
    }
    let f: Option<usize> = match cs_word {
        Some(w) => {
            if w <= usize::MAX as u64 {
                Some(w as usize)
            } else {
                proof {
                    assert forall|c: CfgEnv| bytes@ != spec_encode(c) by {
                        if bytes@ == spec_encode(c) {
                            assert(bytes@.skip(13) == spec_encode_from_code_size(c));
                            lemma_step_code_size(bytes@, c);
                            match c.limit_contract_code_size {
                                Some(v) => {
                                    assert(bytes@.subrange(14, 22) == spec_u64_to_le_bytes(
                                        v as u64,
                                    ));
                                    assert(w == v as u64);
                                    assert((v as u64) <= usize::MAX as u64);
                                    assert(false);
                                },
                                None => {
                                    assert(false);
                                },
                            }
                        }
                    }
                }
                return None;
            }
        },
        None => None,
    };
    proof {
        assert(bytes@.subrange(13, j as int) =~= spec_opt_u64_field(
            FIELD_CODE_SIZE,
            spec_opt_usize_word(f),
        ));
    }
    Some((f, j))
}

#[verifier::rlimit(60)]
#[verifier::spinoff_prover]
fn decode_memory_limit(bytes: &Vec<u8>, i: usize) -> (r: Option<(Option<u64>, usize)>)
    requires
        i <= bytes@.len(),
        forall|c: CfgEnv| #[trigger] spec_encode(c) == bytes@ ==> bytes@.skip(i as int)
            == spec_encode_from_memory_limit(c),
    ensures
        match r {
            Some((f, j)) => {
                &&& i <= j <= bytes@.len()
                &&& bytes@.subrange(i as int, j as int) == spec_opt_u64_field(
                    FIELD_MEMORY_LIMIT,
                    f,
                )
                &&& forall|c: CfgEnv| #[trigger] spec_encode(c) == bytes@ ==> bytes@.skip(
                    j as int,
                ) == spec_encode_from_balance(c)
            },
            None => forall|c: CfgEnv| bytes@ != spec_encode(c),
        },
{
    proof {
        lemma_auto_spec_u64_to_from_le_bytes();
    }
    let (f, j) = match parse_opt_u64(bytes, i, FIELD_MEMORY_LIMIT) {
        Some(p) => p,
        None => {
            proof {
                assert forall|c: CfgEnv| bytes@ != spec_encode(c) by {
                    if bytes@ == spec_encode(c) {
                        assert(bytes@.skip(i as int) == spec_encode_from_memory_limit(c));
                        lemma_step_memory_limit(bytes@, i as int, c);
                        assert(false);
                    }
                }
            }
            return None;
        },
    };
    proof {
        assert forall|c: CfgEnv| #![trigger spec_encode(c)]
            spec_encode(c) == bytes@ implies bytes@.skip(j as int) == spec_encode_from_balance(
            c,
        ) by {
            assert(bytes@.skip(i as int) == spec_encode_from_memory_limit(c));
            lemma_step_memory_limit(bytes@, i as int, c);
        }
        assert(bytes@.subrange(i as int, j as int) =~= spec_opt_u64_field(
            FIELD_MEMORY_LIMIT,
            f,
        ));
    }
    Some((f, j))
}

#[verifier::rlimit(60)]
#[verifier::spinoff_prover]
fn decode_balance(bytes: &Vec<u8>, i: usize) -> (r: Option<(Option<bool>, usize)>)
    requires
        i <= bytes@.len(),
        forall|c: CfgEnv| #[trigger] spec_encode(c) == bytes@ ==> bytes@.skip(i as int)
            == spec_encode_from_balance(c),
    ensures
        match r {
            Some((f, j)) => {
                &&& i <= j <= bytes@.len()
                &&& bytes@.subrange(i as int, j as int) == spec_opt_bool_field(FIELD_BALANCE, f)
                &&& forall|c: CfgEnv| #[trigger] spec_encode(c) == bytes@ ==> bytes@.skip(
                    j as int,
                ) == spec_encode_from_block_gas(c)
            },
            None => forall|c: CfgEnv| bytes@ != spec_encode(c),
        },
{
    let (f, j) = match parse_opt_bool(bytes, i, FIELD_BALANCE) {
        Some(p) => p,
        None => {
            proof {
                assert forall|c: CfgEnv| bytes@ != spec_encode(c) by {
                    if bytes@ == spec_encode(c) {
                        assert(bytes@.skip(i as int) == spec_encode_from_balance(c));
                        lemma_step_balance(bytes@, i as int, c);
                        assert(false);
                    }
                }
            }
            return None;
        },
    };
    proof {
        assert forall|c: CfgEnv| #![trigger spec_encode(c)]
            spec_encode(c) == bytes@ implies bytes@.skip(j as int) == spec_encode_from_block_gas(
            c,
        ) by {
            assert(bytes@.skip(i as int) == spec_encode_from_balance(c));
            lemma_step_balance(bytes@, i as int, c);
        }
        assert(bytes@.subrange(i as int, j as int) =~= spec_opt_bool_field(FIELD_BALANCE, f));
    }
    Some((f, j))
}

#[verifier::rlimit(60)]
#[verifier::spinoff_prover]
fn decode_block_gas(bytes: &Vec<u8>, i: usize) -> (r: Option<(Option<bool>, usize)>)
    requires
        i <= bytes@.len(),
        forall|c: CfgEnv| #[trigger] spec_encode(c) == bytes@ ==> bytes@.skip(i as int)
            == spec_encode_from_block_gas(c),
    ensures
        match r {
            Some((f, j)) => {
                &&& i <= j <= bytes@.len()
                &&& bytes@.subrange(i as int, j as int) == spec_opt_bool_field(FIELD_BLOCK_GAS, f)
                &&& forall|c: CfgEnv| #[trigger] spec_encode(c) == bytes@ ==> bytes@.skip(
                    j as int,
                ) == spec_encode_from_eip3607(c)
            },
            None => forall|c: CfgEnv| bytes@ != spec_encode(c),
        },
{
    let (f, j) = match parse_opt_bool(bytes, i, FIELD_BLOCK_GAS) {
        Some(p) => p,
        None => {
            proof {
                assert forall|c: CfgEnv| bytes@ != spec_encode(c) by {
                    if bytes@ == spec_encode(c) {
                        assert(bytes@.skip(i as int) == spec_encode_from_block_gas(c));
                        lemma_step_block_gas(bytes@, i as int, c);
                        assert(false);
                    }
                }
            }
            return None;
        },
    };
    proof {
        assert forall|c: CfgEnv| #![trigger spec_encode(c)]
            spec_encode(c) == bytes@ implies bytes@.skip(j as int) == spec_encode_from_eip3607(
            c,
        ) by {
            assert(bytes@.skip(i as int) == spec_encode_from_block_gas(c));
            lemma_step_block_gas(bytes@, i as int, c);
        }
        assert(bytes@.subrange(i as int, j as int) =~= spec_opt_bool_field(FIELD_BLOCK_GAS, f));
    }
    Some((f, j))
}

#[verifier::rlimit(60)]
#[verifier::spinoff_prover]
fn decode_eip3607(bytes: &Vec<u8>, i: usize) -> (r: Option<(Option<bool>, usize)>)
    requires
        i <= bytes@.len(),
        forall|c: CfgEnv| #[trigger] spec_encode(c) == bytes@ ==> bytes@.skip(i as int)
            == spec_encode_from_eip3607(c),
    ensures
        match r {
            Some((f, j)) => {
                &&& i <= j <= bytes@.len()
                &&& bytes@.subrange(i as int, j as int) == spec_opt_bool_field(FIELD_EIP3607, f)
                &&& forall|c: CfgEnv| #[trigger] spec_encode(c) == bytes@ ==> bytes@.skip(
                    j as int,
                ) == spec_encode_from_gas_refund(c)
            },
            None => forall|c: CfgEnv| bytes@ != spec_encode(c),
        },
{
    let (f, j) = match parse_opt_bool(bytes, i, FIELD_EIP3607) {
        Some(p) => p,
        None => {
            proof {
                assert forall|c: CfgEnv| bytes@ != spec_encode(c) by {
                    if bytes@ == spec_encode(c) {
                        assert(bytes@.skip(i as int) == spec_encode_from_eip3607(c));
                        lemma_step_eip3607(bytes@, i as int, c);
                        assert(false);
                    }
                }
            }
            return None;
        },
    };
    proof {
        assert forall|c: CfgEnv| #![trigger spec_encode(c)]
            spec_encode(c) == bytes@ implies bytes@.skip(j as int) == spec_encode_from_gas_refund(
            c,
        ) by {
            assert(bytes@.skip(i as int) == spec_encode_from_eip3607(c));
            lemma_step_eip3607(bytes@, i as int, c);
        }
        assert(bytes@.subrange(i as int, j as int) =~= spec_opt_bool_field(FIELD_EIP3607, f));
    }
    Some((f, j))
}

#[verifier::rlimit(60)]
#[verifier::spinoff_prover]
fn decode_gas_refund(bytes: &Vec<u8>, i: usize) -> (r: Option<(Option<bool>, usize)>)
    requires
        i <= bytes@.len(),
        forall|c: CfgEnv| #[trigger] spec_encode(c) == bytes@ ==> bytes@.skip(i as int)
            == spec_encode_from_gas_refund(c),
    ensures
        match r {
            Some((f, j)) => {
                &&& i <= j <= bytes@.len()
                &&& bytes@.subrange(i as int, j as int) == spec_opt_bool_field(FIELD_GAS_REFUND, f)
                &&& forall|c: CfgEnv| #[trigger] spec_encode(c) == bytes@ ==> bytes@.skip(
                    j as int,
                ) == spec_encode_from_base_fee(c)
            },
            None => forall|c: CfgEnv| bytes@ != spec_encode(c),
        },
{
    let (f, j) = match parse_opt_bool(bytes, i, FIELD_GAS_REFUND) {
        Some(p) => p,
        None => {
            proof {
                assert forall|c: CfgEnv| bytes@ != spec_encode(c) by {
                    if bytes@ == spec_encode(c) {
                        assert(bytes@.skip(i as int) == spec_encode_from_gas_refund(c));
                        lemma_step_gas_refund(bytes@, i as int, c);
                        assert(false);
                    }
                }
            }
            return None;
        },
    };
    proof {
        assert forall|c: CfgEnv| #![trigger spec_encode(c)]
            spec_encode(c) == bytes@ implies bytes@.skip(j as int) == spec_encode_from_base_fee(
            c,
        ) by {
            assert(bytes@.skip(i as int) == spec_encode_from_gas_refund(c));
            lemma_step_gas_refund(bytes@, i as int, c);
        }
        assert(bytes@.subrange(i as int, j as int) =~= spec_opt_bool_field(FIELD_GAS_REFUND, f));
    }
    Some((f, j))
}

#[verifier::rlimit(60)]
#[verifier::spinoff_prover]
fn decode_base_fee(bytes: &Vec<u8>, i: usize) -> (r: Option<(Option<bool>, usize)>)
    requires
        i <= bytes@.len(),
        forall|c: CfgEnv| #[trigger] spec_encode(c) == bytes@ ==> bytes@.skip(i as int)
            == spec_encode_from_base_fee(c),
    ensures
        match r {
            Some((f, j)) => {
                &&& i <= j <= bytes@.len()
                &&& bytes@.subrange(i as int, j as int) == spec_opt_bool_field(FIELD_BASE_FEE, f)
                &&& forall|c: CfgEnv| #[trigger] spec_encode(c) == bytes@ ==> bytes@.len() == j
            },
            None => forall|c: CfgEnv| bytes@ != spec_encode(c),
        },
{
    let (f, j) = match parse_opt_bool(bytes, i, FIELD_BASE_FEE) {
        Some(p) => p,
        None => {
            proof {
                assert forall|c: CfgEnv| bytes@ != spec_encode(c) by {
                    if bytes@ == spec_encode(c) {
                        assert(bytes@.skip(i as int) == spec_encode_from_base_fee(c));
                        lemma_step_base_fee(bytes@, i as int, c);
                        assert(false);
                    }
                }
            }
            return None;
        },
    };
    proof {
        assert forall|c: CfgEnv| #![trigger spec_encode(c)]
            spec_encode(c) == bytes@ implies bytes@.len() == j by {
            assert(bytes@.skip(i as int) == spec_encode_from_base_fee(c));
            lemma_step_base_fee(bytes@, i as int, c);
        }
        assert(bytes@.subrange(i as int, j as int) =~= spec_opt_bool_field(FIELD_BASE_FEE, f));
    }
    Some((f, j))
}

proof fn lemma_inj_from_base_fee(bytes: Seq<u8>, i: int, a: CfgEnv, b: CfgEnv)
    requires
        0 <= i <= bytes.len(),
        bytes.skip(i) == spec_encode_from_base_fee(a),
        bytes.skip(i) == spec_encode_from_base_fee(b),
    ensures
        a.disable_base_fee == b.disable_base_fee,
{
    lemma_step_base_fee(bytes, i, a);
    lemma_step_base_fee(bytes, i, b);
    match (a.disable_base_fee, b.disable_base_fee) {
        (Some(x), Some(y)) => {
            assert(spec_bool_byte(x) == spec_bool_byte(y));
            assert(x == y);
        },
        (None, None) => {
        },
        (Some(x), None) => {
            assert(false);
        },
        (None, Some(y)) => {
            assert(false);
        },
    }
}

proof fn lemma_inj_from_gas_refund(bytes: Seq<u8>, i: int, a: CfgEnv, b: CfgEnv)
    requires
        0 <= i <= bytes.len(),
        bytes.skip(i) == spec_encode_from_gas_refund(a),
        bytes.skip(i) == spec_encode_from_gas_refund(b),
    ensures
        a.disable_gas_refund == b.disable_gas_refund,
        a.disable_base_fee == b.disable_base_fee,
{
    lemma_step_gas_refund(bytes, i, a);
    lemma_step_gas_refund(bytes, i, b);
    match (a.disable_gas_refund, b.disable_gas_refund) {
        (Some(x), Some(y)) => {
            assert(spec_bool_byte(x) == spec_bool_byte(y));
            assert(x == y);
            lemma_inj_from_base_fee(bytes, i + 2, a, b);
        },
        (None, None) => {
            lemma_inj_from_base_fee(bytes, i, a, b);
        },
        (Some(x), None) => {
            assert(false);
        },
        (None, Some(y)) => {
            assert(false);
        },
    }
}

proof fn lemma_inj_from_eip3607(bytes: Seq<u8>, i: int, a: CfgEnv, b: CfgEnv)
    requires
        0 <= i <= bytes.len(),
        bytes.skip(i) == spec_encode_from_eip3607(a),
        bytes.skip(i) == spec_encode_from_eip3607(b),
    ensures
        a.disable_eip3607 == b.disable_eip3607,
        a.disable_gas_refund == b.disable_gas_refund,
        a.disable_base_fee == b.disable_base_fee,
{
    lemma_step_eip3607(bytes, i, a);
    lemma_step_eip3607(bytes, i, b);
    match (a.disable_eip3607, b.disable_eip3607) {
        (Some(x), Some(y)) => {
            assert(spec_bool_byte(x) == spec_bool_byte(y));
            assert(x == y);
            lemma_inj_from_gas_refund(bytes, i + 2, a, b);
        },
        (None, None) => {
            lemma_inj_from_gas_refund(bytes, i, a, b);
        },
        (Some(x), None) => {
            assert(false);
        },
        (None, Some(y)) => {
            assert(false);
        },
    }
}

proof fn lemma_inj_from_block_gas(bytes: Seq<u8>, i: int, a: CfgEnv, b: CfgEnv)
    requires
        0 <= i <= bytes.len(),
        bytes.skip(i) == spec_encode_from_block_gas(a),
        bytes.skip(i) == spec_encode_from_block_gas(b),
    ensures
        a.disable_block_gas_limit == b.disable_block_gas_limit,
        a.disable_eip3607 == b.disable_eip3607,
        a.disable_gas_refund == b.disable_gas_refund,
        a.disable_base_fee == b.disable_base_fee,
{
    lemma_step_block_gas(bytes, i, a);
    lemma_step_block_gas(bytes, i, b);
    match (a.disable_block_gas_limit, b.disable_block_gas_limit) {
        (Some(x), Some(y)) => {
            assert(spec_bool_byte(x) == spec_bool_byte(y));
            assert(x == y);
            lemma_inj_from_eip3607(bytes, i + 2, a, b);
        },
        (None, None) => {
            lemma_inj_from_eip3607(bytes, i, a, b);
        },
        (Some(x), None) => {
            assert(false);
        },
        (None, Some(y)) => {
            assert(false);
        },
    }
}

proof fn lemma_inj_from_balance(bytes: Seq<u8>, i: int, a: CfgEnv, b: CfgEnv)
    requires
        0 <= i <= bytes.len(),
        bytes.skip(i) == spec_encode_from_balance(a),
        bytes.skip(i) == spec_encode_from_balance(b),
    ensures
        a.disable_balance_check == b.disable_balance_check,
        a.disable_block_gas_limit == b.disable_block_gas_limit,
        a.disable_eip3607 == b.disable_eip3607,
        a.disable_gas_refund == b.disable_gas_refund,
        a.disable_base_fee == b.disable_base_fee,
{
    lemma_step_balance(bytes, i, a);
    lemma_step_balance(bytes, i, b);
    match (a.disable_balance_check, b.disable_balance_check) {
        (Some(x), Some(y)) => {
            assert(spec_bool_byte(x) == spec_bool_byte(y));
            assert(x == y);
            lemma_inj_from_block_gas(bytes, i + 2, a, b);
        },
        (None, None) => {
            lemma_inj_from_block_gas(bytes, i, a, b);
        },
        (Some(x), None) => {
            assert(false);
        },
        (None, Some(y)) => {
            assert(false);
        },
    }
}

proof fn lemma_inj_from_memory_limit(bytes: Seq<u8>, i: int, a: CfgEnv, b: CfgEnv)
    requires
        0 <= i <= bytes.len(),
        bytes.skip(i) == spec_encode_from_memory_limit(a),
        bytes.skip(i) == spec_encode_from_memory_limit(b),
    ensures
        a.memory_limit == b.memory_limit,
        a.disable_balance_check == b.disable_balance_check,
        a.disable_block_gas_limit == b.disable_block_gas_limit,
        a.disable_eip3607 == b.disable_eip3607,
        a.disable_gas_refund == b.disable_gas_refund,
        a.disable_base_fee == b.disable_base_fee,
{
    lemma_auto_spec_u64_to_from_le_bytes();
    lemma_step_memory_limit(bytes, i, a);
    lemma_step_memory_limit(bytes, i, b);
    match (a.memory_limit, b.memory_limit) {
        (Some(x), Some(y)) => {
            assert(spec_u64_to_le_bytes(x) == spec_u64_to_le_bytes(y));
            assert(x == y);
            lemma_inj_from_balance(bytes, i + 9, a, b);
        },
        (None, None) => {
            lemma_inj_from_balance(bytes, i, a, b);
        },
        (Some(x), None) => {
            assert(false);
        },
        (None, Some(y)) => {
            assert(false);
        },
    }
}

proof fn lemma_inj_from_code_size(bytes: Seq<u8>, a: CfgEnv, b: CfgEnv)
    requires
        13 <= bytes.len(),
        bytes.skip(13) == spec_encode_from_code_size(a),
        bytes.skip(13) == spec_encode_from_code_size(b),
    ensures
        a.limit_contract_code_size == b.limit_contract_code_size,
        a.memory_limit == b.memory_limit,
        a.disable_balance_check == b.disable_balance_check,
        a.disable_block_gas_limit == b.disable_block_gas_limit,
        a.disable_eip3607 == b.disable_eip3607,
        a.disable_gas_refund == b.disable_gas_refund,
        a.disable_base_fee == b.disable_base_fee,
{
    lemma_auto_spec_u64_to_from_le_bytes();
    lemma_step_code_size(bytes, a);
    lemma_step_code_size(bytes, b);
    match (a.limit_contract_code_size, b.limit_contract_code_size) {
        (Some(x), Some(y)) => {
            assert(spec_u64_to_le_bytes(x as u64) == spec_u64_to_le_bytes(y as u64));
            assert(x as u64 == y as u64);
            assert(x == y);
            lemma_inj_from_memory_limit(bytes, 22, a, b);
        },
        (None, None) => {
            lemma_inj_from_memory_limit(bytes, 13, a, b);
        },
        (Some(x), None) => {
            assert(false);
        },
        (None, Some(y)) => {
            assert(false);
        },
    }
}

/// The encoding determines every field but the trusted-setup selection:
/// two policy values with the same encoding agree on all serialized
/// fields. Together with `lemma_encode_ignores_kzg` this says a decoded
/// value reproduces the encoded one exactly, up to that selection.
pub proof fn lemma_encode_injective(a: CfgEnv, b: CfgEnv)
    requires
        spec_encode(a) == spec_encode(b),
    ensures
        a.chain_id == b.chain_id,
        a.perf_analyse_created_bytecodes == b.perf_analyse_created_bytecodes,
        a.limit_contract_code_size == b.limit_contract_code_size,
        a.disable_nonce_check == b.disable_nonce_check,
        a.memory_limit == b.memory_limit,
        a.disable_balance_check == b.disable_balance_check,
        a.disable_block_gas_limit == b.disable_block_gas_limit,
        a.disable_eip3607 == b.disable_eip3607,
        a.disable_gas_refund == b.disable_gas_refund,
        a.disable_base_fee == b.disable_base_fee,
{
    let bytes = spec_encode(a);
    lemma_auto_spec_u64_to_from_le_bytes();
    lemma_header_structure(bytes, a);
    lemma_header_structure(bytes, b);
    assert(spec_u64_to_le_bytes(a.chain_id) == spec_u64_to_le_bytes(b.chain_id));
    assert(a.chain_id == b.chain_id);
    match (a.perf_analyse_created_bytecodes, b.perf_analyse_created_bytecodes) {
        (AnalysisKind::Raw, AnalysisKind::Analyse) => {
            assert(false);
        },
        (AnalysisKind::Analyse, AnalysisKind::Raw) => {
            assert(false);
        },
        _ => {
        },
    }
    assert(spec_bool_byte(a.disable_nonce_check) == spec_bool_byte(b.disable_nonce_check));
    assert(a.disable_nonce_check == b.disable_nonce_check);
    lemma_inj_from_code_size(bytes, a, b);
}

impl CfgEnv {
    /// Decodes a field-tagged byte record. Returns `Some` exactly for
    /// the byte strings that [`CfgEnv::encode`] can produce, and then
    /// returns the encoded policy; the trusted-setup selection is never
    /// encoded, so the decoded value carries the default selection.
    #[verifier::rlimit(100)]
    pub fn decode(bytes: &Vec<u8>) -> (r: Option<CfgEnv>)
        ensures
            match r {
                Some(c) => bytes@ == spec_encode(c) && c.kzg_settings == Some(
                    EnvKzgSettings::Mainnet,
                ),
                None => forall|c: CfgEnv| bytes@ != spec_encode(c),
            },
    {
        proof {
            lemma_auto_spec_u64_to_from_le_bytes();
        }
        let (chain_id, analysis, nonce) = match decode_header(bytes) {
            Some(t) => t,
            None => {
                return None;
            },
        };
        let (limit_code_size, i4) = match decode_code_size(bytes) {
            Some(t) => t,
            None => {
                return None;
            },
        };
        let (f_ml, i5) = match decode_memory_limit(bytes, i4) {
            Some(t) => t,
            None => {
                return None;
            },
        };
        let (f_bal, i6) = match decode_balance(bytes, i5) {
            Some(t) => t,
            None => {
                return None;
            },
        };
        let (f_bgl, i7) = match decode_block_gas(bytes, i6) {
            Some(t) => t,
            None => {
                return None;
            },
        };
        let (f_eip, i8) = match decode_eip3607(bytes, i7) {
            Some(t) => t,
            None => {
                return None;
            },
        };
        let (f_gr, i9) = match decode_gas_refund(bytes, i8) {
            Some(t) => t,
            None => {
                return None;
            },
        };
        let (f_bf, i10) = match decode_base_fee(bytes, i9) {
            Some(t) => t,
            None => {
                return None;
            },
        };
        if i10 == bytes.len() {
            let res = CfgEnv {
                chain_id,
                kzg_settings: Some(EnvKzgSettings::Mainnet),
                perf_analyse_created_bytecodes: analysis,
                limit_contract_code_size: limit_code_size,
                disable_nonce_check: nonce,
                memory_limit: f_ml,
                disable_balance_check: f_bal,
                disable_block_gas_limit: f_bgl,
                disable_eip3607: f_eip,
                disable_gas_refund: f_gr,
                disable_base_fee: f_bf,
            };
            proof {
                assert(bytes@.skip(i9 as int) =~= bytes@.subrange(i9 as int, i10 as int));
                assert(bytes@.skip(i9 as int) == spec_encode_from_base_fee(res));
                assert(bytes@.skip(i8 as int) =~= spec_opt_bool_field(FIELD_GAS_REFUND, f_gr)
                    + spec_encode_from_base_fee(res));
                assert(bytes@.skip(i8 as int) == spec_encode_from_gas_refund(res));
                assert(bytes@.skip(i7 as int) =~= spec_opt_bool_field(FIELD_EIP3607, f_eip)
                    + spec_encode_from_gas_refund(res));
                assert(bytes@.skip(i7 as int) == spec_encode_from_eip3607(res));
                assert(bytes@.skip(i6 as int) =~= spec_opt_bool_field(FIELD_BLOCK_GAS, f_bgl)
                    + spec_encode_from_eip3607(res));
                assert(bytes@.skip(i6 as int) == spec_encode_from_block_gas(res));
                assert(bytes@.skip(i5 as int) =~= spec_opt_bool_field(FIELD_BALANCE, f_bal)
                    + spec_encode_from_block_gas(res));
                assert(bytes@.skip(i5 as int) == spec_encode_from_balance(res));
                assert(bytes@.skip(i4 as int) =~= spec_opt_u64_field(FIELD_MEMORY_LIMIT, f_ml)
                    + spec_encode_from_balance(res));
                assert(bytes@.skip(i4 as int) == spec_encode_from_memory_limit(res));
                assert(bytes@.skip(13) =~= spec_opt_u64_field(
                    FIELD_CODE_SIZE,
                    spec_opt_usize_word(limit_code_size),
                ) + spec_encode_from_memory_limit(res));
                assert(bytes@.skip(13) == spec_encode_from_code_size(res));
                assert(bytes@.skip(11) =~= spec_byte_field(
                    FIELD_NONCE_CHECK,
                    spec_bool_byte(nonce),
                ) + spec_encode_from_code_size(res));
                assert(bytes@.skip(11) == spec_encode_from_nonce(res));
                assert(bytes@.skip(9) =~= spec_byte_field(
                    FIELD_ANALYSIS,
                    spec_kind_byte(analysis),
                ) + spec_encode_from_nonce(res));
                assert(bytes@.skip(9) == spec_encode_from_analysis(res));
                assert(bytes@ =~= spec_u64_field(FIELD_CHAIN_ID, chain_id)
                    + spec_encode_from_analysis(res));
                assert(bytes@ == spec_encode(res));
            }
            Some(res)
        } else {
            proof {
                assert forall|c: CfgEnv| bytes@ != spec_encode(c) by {
                    if bytes@ == spec_encode(c) {
                        assert(bytes@.len() == i10);
                        assert(false);
                    }
                }
            }
            None
        }
    }
}


} // verus!
