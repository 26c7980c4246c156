use std::collections::hash_map::DefaultHasher;
use std::hash::Hasher;

use zendoo::boundary::{zendoo_deserialize_field, zendoo_verify_sc_proof};
use zendoo::certificate::{
    assemble_public_inputs, compute_sysdata_hash, verify_sc_proof, BackwardTransfer, VerificationError,
};
use zendoo::error::{
    set_general_error, zendoo_clear_error, zendoo_get_category_name, zendoo_get_last_error, ErrorSlot,
    NullPointerError, CRYPTO_ERROR, GENERAL_ERROR, IO_ERROR,
};
use zendoo::field::{
    deserialize_from_buffer, read_field_element_from_buffer_with_padding, read_field_element_from_u64,
    FieldElement,
};
use zendoo::merkle::{get_ginger_merkle_root, new_ginger_merkle_tree};

fn toy_hash(inputs: Vec<FieldElement>) -> Option<FieldElement> {
    let mut out = [0u8; 96];
    for k in 0..11u64 {
        let mut hasher = DefaultHasher::new();
        hasher.write_u64(k);
        hasher.write_u64(inputs.len() as u64);
        for fe in &inputs {
            hasher.write(&fe.to_bytes());
        }
        let word = hasher.finish().to_le_bytes();
        out[(k as usize) * 8..(k as usize) * 8 + 8].copy_from_slice(&word);
    }
    Some(deserialize_from_buffer(&out).unwrap())
}

const END_EPOCH: [u8; 32] = [
    48, 202, 96, 61, 206, 20, 30, 152, 124, 86, 199, 13, 154, 135, 39, 58, 53, 150, 69, 169,
    123, 71, 0, 29, 62, 97, 198, 19, 5, 184, 196, 31,
];

const PREV_END_EPOCH: [u8; 32] = [
    241, 72, 150, 254, 135, 196, 102, 189, 247, 180, 78, 56, 187, 156, 23, 190, 23, 27, 165,
    52, 6, 74, 221, 100, 220, 174, 251, 72, 134, 19, 158, 238,
];

const CONSTANT: [u8; 96] = [
    218, 197, 230, 227, 177, 215, 180, 32, 249, 205, 103, 89, 92, 233, 4, 105, 201, 216, 112,
    32, 168, 129, 18, 94, 199, 130, 168, 130, 150, 128, 178, 170, 98, 98, 118, 187, 73, 126, 4,
    218, 2, 240, 197, 4, 236, 226, 238, 149, 151, 108, 163, 148, 180, 175, 38, 59, 87, 38, 42,
    213, 100, 214, 12, 117, 186, 161, 114, 100, 120, 85, 6, 211, 34, 173, 106, 43, 111, 104,
    185, 243, 108, 0, 126, 16, 190, 8, 113, 39, 195, 175, 189, 138, 132, 104, 0, 0,
];

fn zero_transfers(n: usize) -> Vec<BackwardTransfer> {
    vec![BackwardTransfer { pk_dest: [0u8; 32], amount: 0 }; n]
}

/// The public input that the circuit expects, computed step by step.
fn expected_inputs(bts: &[BackwardTransfer], quality: u64, constant: &FieldElement) -> Vec<[u8; 96]> {
    let leaves: Vec<FieldElement> = bts.iter().map(|bt| bt.to_field_element().unwrap()).collect();
    let tree = new_ginger_merkle_tree(&leaves, &toy_hash).unwrap();
    let root = get_ginger_merkle_root(&tree);
    let q = read_field_element_from_u64(quality);
    let prev = read_field_element_from_buffer_with_padding(&PREV_END_EPOCH).unwrap();
    let end = read_field_element_from_buffer_with_padding(&END_EPOCH).unwrap();
    let data = toy_hash(vec![q, root, prev, end]).unwrap();
    vec![constant.to_bytes(), data.to_bytes()]
}

#[test]
fn transfer_leaf_is_key_then_amount() {
    let mut pk = [0u8; 32];
    pk[0] = 9;
    pk[31] = 4;
    let bt = BackwardTransfer { pk_dest: pk, amount: 0x0102 };
    let fe = bt.to_field_element().unwrap();
    let mut expected = [0u8; 96];
    expected[..32].copy_from_slice(&pk);
    expected[32] = 2;
    expected[33] = 1;
    assert_eq!(fe.to_bytes(), expected);
}

#[test]
fn public_inputs_in_all_four_shapes() {
    let c = read_field_element_from_u64(1);
    let p = read_field_element_from_u64(2);
    let d = read_field_element_from_u64(3);
    let bytes = |v: Vec<FieldElement>| v.iter().map(|f| f.to_bytes()).collect::<Vec<_>>();
    assert_eq!(bytes(assemble_public_inputs(Some(&c), Some(&p), &d)), bytes(vec![c, p, d]));
    assert_eq!(bytes(assemble_public_inputs(Some(&c), None, &d)), bytes(vec![c, d]));
    assert_eq!(bytes(assemble_public_inputs(None, Some(&p), &d)), bytes(vec![p, d]));
    assert_eq!(bytes(assemble_public_inputs(None, None, &d)), bytes(vec![d]));
}

#[test]
fn sysdata_hash_keeps_its_order() {
    let q = read_field_element_from_u64(2);
    let r = read_field_element_from_u64(3);
    let p = read_field_element_from_u64(4);
    let e = read_field_element_from_u64(5);
    let h = compute_sysdata_hash(&q, &r, &p, &e, &toy_hash).unwrap();
    assert!(h.equals(&toy_hash(vec![q, r, p, e]).unwrap()));
    assert!(!h.equals(&toy_hash(vec![q, r, e, p]).unwrap()));
}

#[test]
fn proof_is_checked_against_the_assembled_input() {
    let constant = deserialize_from_buffer(&CONSTANT).unwrap();
    let bts = zero_transfers(10);
    let expected = expected_inputs(&bts, 2, &constant);
    let verify = |inputs: Vec<FieldElement>| -> Option<bool> {
        Some(inputs.iter().map(|f| f.to_bytes()).collect::<Vec<_>>() == expected)
    };
    let ok = verify_sc_proof(&END_EPOCH, &PREV_END_EPOCH, &bts, 2, Some(&constant), None, &toy_hash, &verify);
    assert_eq!(ok, Ok(true));
    let other = verify_sc_proof(&END_EPOCH, &PREV_END_EPOCH, &bts, 1, Some(&constant), None, &toy_hash, &verify);
    assert_eq!(other, Ok(false));
    let mut slot = ErrorSlot::new();
    assert!(zendoo_verify_sc_proof(&mut slot, &END_EPOCH, &PREV_END_EPOCH, &bts, 2, Some(&constant), None, &toy_hash, &verify));
    assert!(!zendoo_verify_sc_proof(&mut slot, &END_EPOCH, &PREV_END_EPOCH, &bts, 1, Some(&constant), None, &toy_hash, &verify));
    assert!(zendoo_get_last_error(&slot).msg.is_empty());
}

#[test]
fn too_many_transfers_are_refused() {
    let bts = zero_transfers(513);
    let verify = |_inputs: Vec<FieldElement>| -> Option<bool> { Some(true) };
    let r = verify_sc_proof(&END_EPOCH, &PREV_END_EPOCH, &bts, 2, None, None, &toy_hash, &verify);
    assert_eq!(r, Err(VerificationError::TreeOverflow));
    let mut slot = ErrorSlot::new();
    assert!(!zendoo_verify_sc_proof(&mut slot, &END_EPOCH, &PREV_END_EPOCH, &bts, 2, None, None, &toy_hash, &verify));
    let e = zendoo_get_last_error(&slot);
    assert!(!e.msg.is_empty());
    assert_eq!(e.category, CRYPTO_ERROR);
}

#[test]
fn verifier_failure_is_a_crypto_error() {
    let bts = zero_transfers(1);
    let verify = |_inputs: Vec<FieldElement>| -> Option<bool> { None };
    let r = verify_sc_proof(&END_EPOCH, &PREV_END_EPOCH, &bts, 2, None, None, &toy_hash, &verify);
    assert_eq!(r, Err(VerificationError::Crypto));
}

#[test]
fn error_slot_reports_and_clears() {
    let mut slot = ErrorSlot::new();
    let e = zendoo_get_last_error(&slot);
    assert!(e.msg.is_empty());
    assert_eq!(e.category, GENERAL_ERROR);

    assert!(zendoo_deserialize_field(&mut slot, &[0xffu8; 96]).is_none());
    let e = zendoo_get_last_error(&slot);
    assert!(!e.msg.is_empty());
    assert_eq!(e.category, IO_ERROR);

    zendoo_clear_error(&mut slot);
    let e = zendoo_get_last_error(&slot);
    assert!(e.msg.is_empty());
    assert_eq!(e.category, GENERAL_ERROR);

    set_general_error(&mut slot, NullPointerError("leaf is absent".to_string()).0);
    let e = zendoo_get_last_error(&slot);
    assert_eq!(e.msg, "leaf is absent");
    assert_eq!(e.category, GENERAL_ERROR);
    assert!(zendoo_deserialize_field(&mut slot, &CONSTANT).is_some());
    assert_eq!(zendoo_get_last_error(&slot).msg, "leaf is absent");
}

#[test]
fn category_names() {
    assert_eq!(zendoo_get_category_name(GENERAL_ERROR), "General");
    assert_eq!(zendoo_get_category_name(IO_ERROR), "Unable to read/write");
    assert_eq!(zendoo_get_category_name(CRYPTO_ERROR), "Crypto error");
    assert_eq!(zendoo_get_category_name(7), "Unknown");
}
