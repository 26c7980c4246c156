//! Checking a sidechain certificate proof: the backward transfers are
//! committed to by a Merkle root, which is hashed with the quality and the
//! two epoch hashes into the public input of the proof.
use vstd::prelude::*;
use crate::field::{
    FieldElement, CodecError, zero_padded, u64_le_bytes, read_field_element_from_buffer_with_padding,
    read_field_element_from_u64,
};
use crate::poseidon::{views, hashes_as, callable, compute_poseidon_hash, HashError, SpecHash};
use crate::merkle::{
    merkle_root, new_ginger_merkle_tree, get_ginger_merkle_root, MerkleError, MERKLE_LEAVES,
    MERKLE_HEIGHT,
};

verus! {

/// Size in bytes of an encoded proof.
pub const GROTH_PROOF_SIZE: usize = 771;

/// A payment out of the sidechain: the hash of the receiving key and an amount.
#[derive(Debug, Clone, Copy)]
pub struct BackwardTransfer {
    pub pk_dest: [u8; 32],
    pub amount: u64,
}

/// The leaf of a backward transfer: the key hash, then the amount in
/// little-endian bytes, zero-padded to a field element.
pub open spec fn bt_leaf(bt: BackwardTransfer) -> Seq<u8> {
    zero_padded(bt.pk_dest@ + u64_le_bytes(bt.amount))
}

/// The leaves of a list of backward transfers, in order.
pub open spec fn bt_leaves(bts: Seq<BackwardTransfer>) -> Seq<Seq<u8>> {
    Seq::new(bts.len(), |i: int| bt_leaf(bts[i]))
}

impl BackwardTransfer {
    /// The field element that stands for this transfer in the Merkle tree.
    pub fn to_field_element(&self) -> (r: Result<FieldElement, CodecError>)
        ensures
            r is Ok && r->Ok_0@ == bt_leaf(*self),
    {
        let mut buffer: Vec<u8> = Vec::new();
        let mut i: usize = 0;
        while i < 32
            invariant
                i <= 32,
                buffer@ == self.pk_dest@.subrange(0, i as int),
            decreases 32 - i,
        {
            buffer.push(self.pk_dest[i]);
            i = i + 1;
        }
        let mut j: usize = 0;
        while j < 8
            invariant
                j <= 8,
                buffer@ == self.pk_dest@ + u64_le_bytes(self.amount).subrange(0, j as int),
            decreases 8 - j,
        {
            buffer.push(((self.amount >> (8 * j) as u64) & 0xff) as u8);
            assert(u64_le_bytes(self.amount).subrange(0, j + 1 as int) =~= u64_le_bytes(self.amount).subrange(0, j as int).push(((self.amount >> (8 * j) as u64) & 0xff) as u8));
            j = j + 1;
        }
        assert(u64_le_bytes(self.amount).subrange(0, 8) =~= u64_le_bytes(self.amount));
        read_field_element_from_buffer_with_padding(buffer.as_slice())
    }
}

/// The encodings of the optional elements and the last one, in order.
pub open spec fn public_inputs(constant: Option<Seq<u8>>, proofdata: Option<Seq<u8>>, last: Seq<u8>) -> Seq<Seq<u8>> {
    let c = match constant {
        Some(x) => seq![x],
        None => Seq::empty(),
    };
    let p = match proofdata {
        Some(x) => seq![x],
        None => Seq::empty(),
    };
    c + p + seq![last]
}

/// The encoding of an optional element.
pub open spec fn opt_view(o: Option<&FieldElement>) -> Option<Seq<u8>> {
    match o {
        Some(x) => Some(x@),
        None => None,
    }
}

/// The public input of a proof: the constant if there is one, then the proof
/// data if there is, then the hash of the certificate's data, always last.
pub fn assemble_public_inputs(
    constant: Option<&FieldElement>,
    proofdata: Option<&FieldElement>,
    data_hash: &FieldElement,
) -> (r: Vec<FieldElement>)
    ensures
        views(r@) == public_inputs(opt_view(constant), opt_view(proofdata), data_hash@),
{
    let mut r: Vec<FieldElement> = Vec::new();
    match constant {
        Some(c) => {
            r.push(*c);
        },
        None => {},
    }
    match proofdata {
        Some(p) => {
            r.push(*p);
        },
        None => {},
    }
    r.push(*data_hash);
    assert(views(r@) =~= public_inputs(opt_view(constant), opt_view(proofdata), data_hash@));
    r
}

/// The hash of a certificate's data, over its four parts in this order.
pub open spec fn sysdata_hash(
    h: SpecHash,
    quality: Seq<u8>,
    bt_root: Seq<u8>,
    prev_end_epoch: Seq<u8>,
    end_epoch: Seq<u8>,
) -> Seq<u8> {
    h(seq![quality, bt_root, prev_end_epoch, end_epoch])
}

/// Hashes the quality, the root of the backward transfers and the hashes of
/// the blocks that end the previous and this epoch, in that order.
pub fn compute_sysdata_hash<H: Fn(Vec<FieldElement>) -> Option<FieldElement>>(
    quality: &FieldElement,
    bt_root: &FieldElement,
    prev_end_epoch: &FieldElement,
    end_epoch: &FieldElement,
    hash: &H,
) -> (r: Result<FieldElement, HashError>)
    requires
        callable(*hash),
    ensures
        forall|h: SpecHash| #[trigger] hashes_as(*hash, h) ==> r is Ok && r->Ok_0@ == sysdata_hash(
            h,
            quality@,
            bt_root@,
            prev_end_epoch@,
            end_epoch@,
        ),
{
    let input: Vec<FieldElement> = vec![*quality, *bt_root, *prev_end_epoch, *end_epoch];
    assert(views(input@) =~= seq![quality@, bt_root@, prev_end_epoch@, end_epoch@]);
    compute_poseidon_hash(&input, hash)
}

/// `verify` can always be called, and answers the function `v` of the
/// encodings of the public input it is given.
pub open spec fn verifies_as<V: Fn(Vec<FieldElement>) -> Option<bool>>(
    verify: V,
    v: spec_fn(Seq<Seq<u8>>) -> Option<bool>,
) -> bool {
    &&& forall|x: Vec<FieldElement>| #[trigger] verify.requires((x,))
    &&& forall|x: Vec<FieldElement>, o: Option<bool>| #[trigger]
        verify.ensures((x,), o) ==> o == v(views(x@))
}

/// The public input that a certificate's proof is checked against.
pub open spec fn certificate_public_inputs(
    h: SpecHash,
    end_epoch_mc_b_hash: Seq<u8>,
    prev_end_epoch_mc_b_hash: Seq<u8>,
    bt_list: Seq<BackwardTransfer>,
    quality: u64,
    constant: Option<Seq<u8>>,
    proofdata: Option<Seq<u8>>,
) -> Seq<Seq<u8>> {
    public_inputs(
        constant,
        proofdata,
        sysdata_hash(
            h,
            zero_padded(u64_le_bytes(quality)),
            merkle_root(h, bt_leaves(bt_list)),
            zero_padded(prev_end_epoch_mc_b_hash),
            zero_padded(end_epoch_mc_b_hash),
        ),
    )
}

/// Why a certificate proof could not be checked.
#[derive(Debug, Clone, Copy, PartialEq, Eq, Structural)]
pub enum VerificationError {
    /// More backward transfers than the tree has leaf slots.
    TreeOverflow,
    /// The field hash or the proof verifier reported a failure.
    Crypto,
}

/// Checks a certificate proof: commits to the backward transfers by their
/// Merkle root, hashes it with the quality and the two epoch hashes, and
/// hands the resulting public input to `verify`, which holds the proof and
/// the verifying key.
pub fn verify_sc_proof<H: Fn(Vec<FieldElement>) -> Option<FieldElement>, V: Fn(Vec<FieldElement>) -> Option<bool>>(
    end_epoch_mc_b_hash: &[u8; 32],
    prev_end_epoch_mc_b_hash: &[u8; 32],
    bt_list: &Vec<BackwardTransfer>,
    quality: u64,
    constant: Option<&FieldElement>,
    proofdata: Option<&FieldElement>,
    hash: &H,
    verify: &V,
) -> (r: Result<bool, VerificationError>)
    requires
        callable(*hash),
        forall|x: Vec<FieldElement>| #[trigger] verify.requires((x,)),
    ensures
        bt_list@.len() > MERKLE_LEAVES ==> r == Err::<bool, VerificationError>(VerificationError::TreeOverflow),
        bt_list@.len() <= MERKLE_LEAVES && r is Err ==> r->Err_0 == VerificationError::Crypto,
        forall|h: SpecHash, v: spec_fn(Seq<Seq<u8>>) -> Option<bool>|
            #[trigger] hashes_as(*hash, h) && #[trigger] verifies_as(*verify, v) && bt_list@.len() <= MERKLE_LEAVES
            ==> r == match v(certificate_public_inputs(h, end_epoch_mc_b_hash@, prev_end_epoch_mc_b_hash@, bt_list@, quality, opt_view(constant), opt_view(proofdata))) {
                Some(b) => Ok::<bool, VerificationError>(b),
                None => Err::<bool, VerificationError>(VerificationError::Crypto),
            },
{
    let end_epoch = match read_field_element_from_buffer_with_padding(end_epoch_mc_b_hash.as_slice()) {
        Ok(f) => f,
        Err(_) => {
            return Err(VerificationError::Crypto);
        },
    };
    let prev_end_epoch = match read_field_element_from_buffer_with_padding(prev_end_epoch_mc_b_hash.as_slice()) {
        Ok(f) => f,
        Err(_) => {
            return Err(VerificationError::Crypto);
        },
    };
    let quality_fe = read_field_element_from_u64(quality);
    let mut leaves: Vec<FieldElement> = Vec::new();
    let mut i: usize = 0;
    while i < bt_list.len()
        invariant
            i <= bt_list@.len(),
            leaves@.len() == i,
            forall|j: int| 0 <= j < i ==> #[trigger] leaves@[j]@ == bt_leaf(bt_list@[j]),
        decreases bt_list@.len() - i,
    {
        match bt_list[i].to_field_element() {
            Ok(f) => {
                leaves.push(f);
            },
            Err(_) => {
                return Err(VerificationError::Crypto);
            },
        }
        i = i + 1;
    }
    assert(views(leaves@) =~= bt_leaves(bt_list@));
    let tree = match new_ginger_merkle_tree(&leaves, hash) {
        Ok(t) => t,
        Err(MerkleError::TreeOverflow) => {
            return Err(VerificationError::TreeOverflow);
        },
        Err(_) => {
            return Err(VerificationError::Crypto);
        },
    };
    let bt_root = get_ginger_merkle_root(&tree);
    let data_hash = match compute_sysdata_hash(&quality_fe, &bt_root, &prev_end_epoch, &end_epoch, hash) {
        Ok(d) => d,
        Err(_) => {
            return Err(VerificationError::Crypto);
        },
    };
    let inputs = assemble_public_inputs(constant, proofdata, &data_hash);
    let ghost inputs_view = views(inputs@);
    let answer = verify(inputs);
    proof {
        assert forall|h: SpecHash| #[trigger] hashes_as(*hash, h) && bt_list@.len() <= MERKLE_LEAVES
            implies inputs_view == certificate_public_inputs(h, end_epoch_mc_b_hash@, prev_end_epoch_mc_b_hash@, bt_list@, quality, opt_view(constant), opt_view(proofdata)) by {
            assert(bt_root@ == merkle_root(h, bt_leaves(bt_list@)));
        }
    }
    match answer {
        Some(b) => Ok(b),
        None => Err(VerificationError::Crypto),
    }
}

} // verus!
