//! The operations offered to a foreign caller. Each owned value handed out is
//! released by moving it into the matching `free` operation, so it is
//! released exactly once; a failure is reported by an absent result or
//! `false`, with a message and a category left in the caller's error slot.
use vstd::prelude::*;
use crate::field::{
    FieldElement, FIELD_SIZE, is_canonical, deserialize_from_buffer, field_from_random_bytes,
};
use crate::poseidon::{views, hashes_as, callable, compute_poseidon_hash, SpecHash};
use crate::merkle::{
    GingerMerkleTree, GingerMerkleTreePath, MERKLE_LEAVES, tree_layers, path_in,
    fold_path, new_ginger_merkle_tree, get_ginger_merkle_root, get_ginger_merkle_path,
    verify_ginger_merkle_path, MERKLE_HEIGHT,
};
use crate::certificate::{
    BackwardTransfer, GROTH_PROOF_SIZE, verifies_as, certificate_public_inputs, opt_view,
    verify_sc_proof,
};
use crate::error::{ErrorSlot, set_last_error, IO_ERROR, CRYPTO_ERROR};

verus! {

/// `slot` holds a non-empty message of `category`.
pub open spec fn failed_with(slot: ErrorSlot, category: u32) -> bool {
    match slot.spec_last() {
        Some((m, c)) => m.len() > 0 && c == category,
        None => false,
    }
}

fn record(slot: &mut ErrorSlot, msg: &str, category: u32)
    requires
        msg@.len() > 0,
    ensures
        failed_with(*final(slot), category),
{
    set_last_error(slot, msg.to_owned(), category);
}

/// Size in bytes of an encoded field element.
pub fn zendoo_get_field_size_in_bytes() -> (r: u32)
    ensures
        r == FIELD_SIZE,
{
    FIELD_SIZE as u32
}

/// Writes the encoding of `field_element` into `result`.
pub fn zendoo_serialize_field(field_element: &FieldElement, result: &mut [u8; 96])
    ensures
        final(result)@ == field_element@,
{
    *result = field_element.to_bytes();
}

/// The element encoded by `field_bytes`; absent, with an I/O error
/// recorded, where the bytes are not canonical.
pub fn zendoo_deserialize_field(slot: &mut ErrorSlot, field_bytes: &[u8; 96]) -> (r: Option<FieldElement>)
    ensures
        is_canonical(field_bytes@) ==> r is Some && r->Some_0@ == field_bytes@
            && final(slot).spec_last() == old(slot).spec_last(),
        !is_canonical(field_bytes@) ==> r is None && failed_with(*final(slot), IO_ERROR),
{
    match deserialize_from_buffer(field_bytes.as_slice()) {
        Ok(f) => Some(f),
        Err(_) => {
            proof {
                reveal_strlit("unable to read a field element from buffer");
            }
            record(slot, "unable to read a field element from buffer", IO_ERROR);
            None
        },
    }
}

/// Releases a field element.
pub fn zendoo_field_free(field: FieldElement) {
}

/// Size in bytes of an encoded proof.
pub fn zendoo_get_sc_proof_size() -> (r: u32)
    ensures
        r == GROTH_PROOF_SIZE,
{
    GROTH_PROOF_SIZE as u32
}

/// Checks a certificate proof, as `verify_sc_proof` does; `false` where the
/// proof is rejected, and also where the check failed, which records a
/// crypto error.
pub fn zendoo_verify_sc_proof<H: Fn(Vec<FieldElement>) -> Option<FieldElement>, V: Fn(Vec<FieldElement>) -> Option<bool>>(
    slot: &mut ErrorSlot,
    end_epoch_mc_b_hash: &[u8; 32],
    prev_end_epoch_mc_b_hash: &[u8; 32],
    bt_list: &Vec<BackwardTransfer>,
    quality: u64,
    constant: Option<&FieldElement>,
    proofdata: Option<&FieldElement>,
    hash: &H,
    verify: &V,
) -> (r: bool)
    requires
        callable(*hash),
        forall|x: Vec<FieldElement>| #[trigger] verify.requires((x,)),
    ensures
        bt_list@.len() > MERKLE_LEAVES ==> !r && failed_with(*final(slot), CRYPTO_ERROR),
        final(slot).spec_last() == old(slot).spec_last() || (!r && failed_with(*final(slot), CRYPTO_ERROR)),
        forall|h: SpecHash, v: spec_fn(Seq<Seq<u8>>) -> Option<bool>|
            #[trigger] hashes_as(*hash, h) && #[trigger] verifies_as(*verify, v) && bt_list@.len() <= MERKLE_LEAVES
            ==> match v(certificate_public_inputs(h, end_epoch_mc_b_hash@, prev_end_epoch_mc_b_hash@, bt_list@, quality, opt_view(constant), opt_view(proofdata))) {
                Some(b) => r == b && final(slot).spec_last() == old(slot).spec_last(),
                None => !r && failed_with(*final(slot), CRYPTO_ERROR),
            },
{
    match verify_sc_proof(end_epoch_mc_b_hash, prev_end_epoch_mc_b_hash, bt_list, quality, constant, proofdata, hash, verify) {
        Ok(b) => b,
        Err(_) => {
            proof {
                reveal_strlit("unable to verify the certificate proof");
            }
            record(slot, "unable to verify the certificate proof", CRYPTO_ERROR);
            false
        },
    }
}

/// The field hash of `input`; absent, with a crypto error recorded, where
/// the hash failed.
pub fn zendoo_compute_poseidon_hash<H: Fn(Vec<FieldElement>) -> Option<FieldElement>>(
    slot: &mut ErrorSlot,
    input: &Vec<FieldElement>,
    hash: &H,
) -> (r: Option<FieldElement>)
    requires
        callable(*hash),
    ensures
        r is Some ==> final(slot).spec_last() == old(slot).spec_last(),
        r is None ==> failed_with(*final(slot), CRYPTO_ERROR),
        forall|h: SpecHash| #[trigger] hashes_as(*hash, h) ==> r is Some && r->Some_0@ == h(views(input@)),
{
    match compute_poseidon_hash(input, hash) {
        Ok(e) => Some(e),
        Err(_) => {
            proof {
                reveal_strlit("unable to compute the field hash");
            }
            record(slot, "unable to compute the field hash", CRYPTO_ERROR);
            None
        },
    }
}

/// The tree over `leaves`; absent, with a crypto error recorded, where there
/// are more than 512 leaves or the hash failed.
pub fn ginger_mt_new<H: Fn(Vec<FieldElement>) -> Option<FieldElement>>(
    slot: &mut ErrorSlot,
    leaves: &Vec<FieldElement>,
    hash: &H,
) -> (r: Option<GingerMerkleTree>)
    requires
        callable(*hash),
    ensures
        leaves@.len() > MERKLE_LEAVES ==> r is None,
        r is Some ==> r->Some_0.wf() && r->Some_0.spec_leaves() == views(leaves@)
            && final(slot).spec_last() == old(slot).spec_last(),
        r is None ==> failed_with(*final(slot), CRYPTO_ERROR),
        forall|h: SpecHash| #[trigger] hashes_as(*hash, h) && leaves@.len() <= MERKLE_LEAVES
            ==> r is Some && r->Some_0.spec_layers() == tree_layers(h, views(leaves@)),
{
    match new_ginger_merkle_tree(leaves, hash) {
        Ok(t) => Some(t),
        Err(_) => {
            proof {
                reveal_strlit("unable to build the Merkle tree");
            }
            record(slot, "unable to build the Merkle tree", CRYPTO_ERROR);
            None
        },
    }
}

/// The root of `tree`.
pub fn ginger_mt_get_root(tree: &GingerMerkleTree) -> (r: FieldElement)
    requires
        tree.wf(),
    ensures
        r@ == tree.spec_layers()[MERKLE_HEIGHT as int][0],
{
    get_ginger_merkle_root(tree)
}

/// The path of `leaf` at `leaf_index` in `tree`; absent, with a crypto error
/// recorded, where the index is past the leaves or the leaf there differs.
pub fn ginger_mt_get_merkle_path(
    slot: &mut ErrorSlot,
    leaf: &FieldElement,
    leaf_index: usize,
    tree: &GingerMerkleTree,
) -> (r: Option<GingerMerkleTreePath>)
    requires
        tree.wf(),
    ensures
        leaf_index < tree.spec_leaves().len() && leaf@ == tree.spec_leaves()[leaf_index as int]
            ==> r is Some && r->Some_0.spec_path() == path_in(tree.spec_layers(), leaf_index as int)
            && final(slot).spec_last() == old(slot).spec_last(),
        !(leaf_index < tree.spec_leaves().len() && leaf@ == tree.spec_leaves()[leaf_index as int])
            ==> r is None && failed_with(*final(slot), CRYPTO_ERROR),
{
    match get_ginger_merkle_path(leaf, leaf_index, tree) {
        Ok(p) => Some(p),
        Err(_) => {
            proof {
                reveal_strlit("unable to make the Merkle path of this leaf");
            }
            record(slot, "unable to make the Merkle path of this leaf", CRYPTO_ERROR);
            None
        },
    }
}

/// Whether `path` leads from `leaf` to `merkle_root`; `false`, with a crypto
/// error recorded, where the hash failed.
pub fn ginger_mt_verify_merkle_path<H: Fn(Vec<FieldElement>) -> Option<FieldElement>>(
    slot: &mut ErrorSlot,
    leaf: &FieldElement,
    merkle_root: &FieldElement,
    path: &GingerMerkleTreePath,
    hash: &H,
) -> (r: bool)
    requires
        callable(*hash),
    ensures
        final(slot).spec_last() == old(slot).spec_last() || (!r && failed_with(*final(slot), CRYPTO_ERROR)),
        forall|h: SpecHash| #[trigger] hashes_as(*hash, h)
            ==> r == (fold_path(h, leaf@, path.spec_path()) == merkle_root@)
            && final(slot).spec_last() == old(slot).spec_last(),
{
    match verify_ginger_merkle_path(path, merkle_root, leaf, hash) {
        Ok(b) => b,
        Err(_) => {
            proof {
                reveal_strlit("unable to verify the Merkle path");
            }
            record(slot, "unable to verify the Merkle path", CRYPTO_ERROR);
            false
        },
    }
}

/// Releases a tree.
pub fn ginger_mt_free(tree: GingerMerkleTree) {
}

/// Releases a path.
pub fn ginger_mt_path_free(path: GingerMerkleTreePath) {
}

/// Number of draws that `zendoo_get_random_field` makes at most.
pub const RANDOM_FIELD_DRAWS: usize = 64;

/// Relies on rand's `OsRng::try_fill_bytes`: 96 bytes from the operating
/// system's generator, or none where the generator failed.
#[verifier::external_body]
fn os_random_bytes() -> (r: Option<[u8; 96]>) {
    let mut bytes = [0u8; 96];
    match rand::RngCore::try_fill_bytes(&mut rand::rngs::OsRng, &mut bytes) {
        Ok(()) => Some(bytes),
        Err(_) => None,
    }
}

/// A uniformly random field element, drawn from the operating system's
/// generator until the bits drawn are below the modulus; absent where the
/// generator failed, or no draw of `RANDOM_FIELD_DRAWS` succeeded, each of
/// which fails with a chance under one in eight.
pub fn zendoo_get_random_field() -> (r: Option<FieldElement>)
    ensures
        r is Some ==> is_canonical(r->Some_0@),
{
    let mut n: usize = 0;
    while n < RANDOM_FIELD_DRAWS
        decreases RANDOM_FIELD_DRAWS - n,
    {
        match os_random_bytes() {
            Some(bytes) => {
                match field_from_random_bytes(bytes) {
                    Some(f) => {
                        return Some(f);
                    },
                    None => {},
                }
            },
            None => {
                return None;
            },
        }
        n = n + 1;
    }
    None
}

/// Whether two elements are the same.
pub fn zendoo_field_assert_eq(field_1: &FieldElement, field_2: &FieldElement) -> (r: bool)
    ensures
        r == (field_1@ == field_2@),
{
    field_1.equals(field_2)
}

} // verus!
