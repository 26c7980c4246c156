//! A binary Merkle tree of fixed height over field elements, with the field
//! hash of two elements as its compression function.
use vstd::prelude::*;
use crate::field::{FieldElement, zero_bytes, FIELD_SIZE};
use crate::poseidon::{views, hashes_as, callable, injective, SpecHash};

verus! {

/// Height of every tree: its leaves sit nine levels below the root.
pub const MERKLE_HEIGHT: usize = 9;

/// Number of leaf slots of a tree.
pub const MERKLE_LEAVES: usize = 512;

/// The parameters of the trees built here: their height, and the field hash
/// as the compression function.
pub struct FieldBasedMerkleTreeParams;

impl FieldBasedMerkleTreeParams {
    /// Height of the trees.
    pub fn height() -> (r: usize)
        ensures
            r == MERKLE_HEIGHT,
    {
        MERKLE_HEIGHT
    }
}


/// The leaf slots: the leaves, then the zero element in every slot left.
pub open spec fn padded_leaves(leaves: Seq<Seq<u8>>) -> Seq<Seq<u8>> {
    Seq::new(MERKLE_LEAVES as nat, |i: int| if i < leaves.len() { leaves[i] } else { zero_bytes() })
}

/// The level above `layer`: each node is the hash of its two children.
pub open spec fn parent_layer(h: SpecHash, layer: Seq<Seq<u8>>) -> Seq<Seq<u8>> {
    Seq::new(layer.len() / 2, |j: int| h(seq![layer[2 * j], layer[2 * j + 1]]))
}

/// Level `k` of the tree over `leaves`, the leaf slots being level 0.
pub open spec fn tree_layer(h: SpecHash, leaves: Seq<Seq<u8>>, k: nat) -> Seq<Seq<u8>>
    decreases k,
{
    if k == 0 {
        padded_leaves(leaves)
    } else {
        parent_layer(h, tree_layer(h, leaves, (k - 1) as nat))
    }
}

/// All ten levels of the tree over `leaves`, from the leaf slots up to the root.
pub open spec fn tree_layers(h: SpecHash, leaves: Seq<Seq<u8>>) -> Seq<Seq<Seq<u8>>> {
    Seq::new((MERKLE_HEIGHT + 1) as nat, |k: int| tree_layer(h, leaves, k as nat))
}

/// The root of the tree over `leaves`.
pub open spec fn merkle_root(h: SpecHash, leaves: Seq<Seq<u8>>) -> Seq<u8> {
    tree_layer(h, leaves, MERKLE_HEIGHT as nat)[0]
}

/// Number of nodes at level `k`.
pub open spec fn layer_len(k: nat) -> nat
    decreases k,
{
    if k == 0 {
        MERKLE_LEAVES as nat
    } else {
        layer_len((k - 1) as nat) / 2
    }
}

/// Index at level `k` of the node above leaf slot `i`.
pub open spec fn position(i: int, k: nat) -> int
    decreases k,
{
    if k == 0 {
        i
    } else {
        position(i, (k - 1) as nat) / 2
    }
}

/// Index of the other child of the parent of node `p`.
pub open spec fn sibling(p: int) -> int {
    if p % 2 == 0 {
        p + 1
    } else {
        p - 1
    }
}

/// The path of leaf slot `i` in the levels `layers`: at each level from the
/// leaves up, the sibling of the node above `i`, and whether that node is a
/// right child.
pub open spec fn path_in(layers: Seq<Seq<Seq<u8>>>, i: int) -> Seq<(Seq<u8>, bool)> {
    Seq::new(
        MERKLE_HEIGHT as nat,
        |k: int| (layers[k][sibling(position(i, k as nat))], position(i, k as nat) % 2 == 1),
    )
}

/// The path of leaf `i` in the tree over `leaves`.
pub open spec fn merkle_path(h: SpecHash, leaves: Seq<Seq<u8>>, i: int) -> Seq<(Seq<u8>, bool)> {
    path_in(tree_layers(h, leaves), i)
}

/// The root that `path` leads to from `leaf`: at each step the node so far is
/// hashed with the sibling, on the side that the step records.
pub open spec fn fold_path(h: SpecHash, leaf: Seq<u8>, path: Seq<(Seq<u8>, bool)>) -> Seq<u8>
    decreases path.len(),
{
    if path.len() == 0 {
        leaf
    } else {
        let below = fold_path(h, leaf, path.drop_last());
        let (s, is_right) = path.last();
        if is_right {
            h(seq![s, below])
        } else {
            h(seq![below, s])
        }
    }
}

/// Why a tree or a path could not be made.
#[derive(Debug, Clone, Copy, PartialEq, Eq, Structural)]
pub enum MerkleError {
    /// More leaves than the tree has slots.
    TreeOverflow,
    /// A leaf index at or past the number of leaves.
    IndexOutOfRange,
    /// The leaf given is not the one at that index.
    LeafMismatch,
    /// The field hash reported a failure.
    HashFailure,
}

/// A built tree: every level, from the leaf slots up to the root.
pub struct GingerMerkleTree {
    layers: Vec<Vec<FieldElement>>,
    leaves: Vec<FieldElement>,
}

/// A Merkle path: from the leaf up, each sibling and whether the node on the
/// path is a right child.
pub struct GingerMerkleTreePath {
    pub path: Vec<(FieldElement, bool)>,
}

impl GingerMerkleTreePath {
    /// The path as encodings and side bits.
    pub open spec fn spec_path(&self) -> Seq<(Seq<u8>, bool)> {
        Seq::new(self.path@.len(), |k: int| (self.path@[k].0@, self.path@[k].1))
    }
}

impl GingerMerkleTree {
    /// The levels of the tree, as encodings.
    pub closed spec fn spec_layers(&self) -> Seq<Seq<Seq<u8>>> {
        Seq::new(self.layers@.len(), |k: int| views(self.layers@[k]@))
    }

    /// The leaves that the tree was built from.
    pub closed spec fn spec_leaves(&self) -> Seq<Seq<u8>> {
        views(self.leaves@)
    }

    /// The tree has ten levels, level `k` holding `layer_len(k)` nodes.
    pub closed spec fn wf(&self) -> bool {
        &&& self.layers@.len() == MERKLE_HEIGHT + 1
        &&& forall|k: int| 0 <= k <= MERKLE_HEIGHT ==> #[trigger] self.layers@[k]@.len() == layer_len(k as nat)
        &&& self.leaves@.len() <= MERKLE_LEAVES
    }
}

proof fn lemma_layer_len(k: nat)
    requires
        k <= MERKLE_HEIGHT,
    ensures
        layer_len(k) >= 1,
        k < MERKLE_HEIGHT ==> layer_len(k) == 2 * layer_len(k + 1),
        k == MERKLE_HEIGHT ==> layer_len(k) == 1,
    decreases k,
{
    reveal_with_fuel(layer_len, 10);
}

proof fn lemma_tree_layer_len(h: SpecHash, leaves: Seq<Seq<u8>>, k: nat)
    ensures
        tree_layer(h, leaves, k).len() == layer_len(k),
    decreases k,
{
    if k > 0 {
        lemma_tree_layer_len(h, leaves, (k - 1) as nat);
    }
}

/// Builds the tree over `leaves` with the field hash `hash`.
pub fn new_ginger_merkle_tree<H: Fn(Vec<FieldElement>) -> Option<FieldElement>>(
    leaves: &Vec<FieldElement>,
    hash: &H,
) -> (r: Result<GingerMerkleTree, MerkleError>)
    requires
        callable(*hash),
    ensures
        leaves@.len() > MERKLE_LEAVES ==> r == Err::<GingerMerkleTree, MerkleError>(MerkleError::TreeOverflow),
        leaves@.len() <= MERKLE_LEAVES && r is Err ==> r->Err_0 == MerkleError::HashFailure,
        r is Ok ==> r->Ok_0.wf() && r->Ok_0.spec_leaves() == views(leaves@),
        forall|h: SpecHash| #[trigger] hashes_as(*hash, h) && leaves@.len() <= MERKLE_LEAVES
            ==> r is Ok && r->Ok_0.spec_layers() == tree_layers(h, views(leaves@)),
{
    if leaves.len() > MERKLE_LEAVES {
        return Err(MerkleError::TreeOverflow);
    }
    let ghost lv = views(leaves@);
    let mut kept: Vec<FieldElement> = Vec::new();
    let mut cur: Vec<FieldElement> = Vec::new();
    let mut i: usize = 0;
    while i < MERKLE_LEAVES
        invariant
            leaves@.len() <= MERKLE_LEAVES,
            lv == views(leaves@),
            i <= MERKLE_LEAVES,
            i <= leaves@.len() ==> kept@ == leaves@.subrange(0, i as int),
            i > leaves@.len() ==> kept@ == leaves@,
            cur@.len() == i,
            forall|j: int| 0 <= j < i ==> #[trigger] cur@[j]@ == padded_leaves(lv)[j],
        decreases MERKLE_LEAVES - i,
    {
        if i < leaves.len() {
            cur.push(leaves[i]);
            kept.push(leaves[i]);
        } else {
            cur.push(FieldElement::zero());
        }
        i = i + 1;
    }
    assert(kept@ =~= leaves@);
    assert(views(cur@) =~= padded_leaves(lv));
    let mut layers: Vec<Vec<FieldElement>> = Vec::new();
    let mut k: usize = 0;
    while k < MERKLE_HEIGHT
        invariant
            k <= MERKLE_HEIGHT,
            callable(*hash),
            leaves@.len() <= MERKLE_LEAVES,
            cur@.len() <= MERKLE_LEAVES,
            layers@.len() == k,
            cur@.len() == layer_len(k as nat),
            forall|m: int| 0 <= m < k ==> #[trigger] layers@[m]@.len() == layer_len(m as nat),
            forall|h: SpecHash| #[trigger] hashes_as(*hash, h) ==> views(cur@) == tree_layer(h, lv, k as nat)
                && forall|m: int| 0 <= m < k ==> #[trigger] views(layers@[m]@) == tree_layer(h, lv, m as nat),
        decreases MERKLE_HEIGHT - k,
    {
        proof {
            lemma_layer_len(k as nat);
        }
        let half = cur.len() / 2;
        let mut next: Vec<FieldElement> = Vec::new();
        let mut j: usize = 0;
        while j < half
            invariant
                callable(*hash),
                leaves@.len() <= MERKLE_LEAVES,
                cur@.len() <= MERKLE_LEAVES,
                half == cur@.len() / 2,
                j <= half,
                next@.len() == j,
                forall|h: SpecHash| #[trigger] hashes_as(*hash, h) ==> forall|q: int| 0 <= q < j ==>
                    #[trigger] next@[q]@ == h(seq![cur@[2 * q]@, cur@[2 * q + 1]@]),
            decreases half - j,
        {
            let pair: Vec<FieldElement> = vec![cur[2 * j], cur[2 * j + 1]];
            let ghost pv = seq![cur@[2 * j as int]@, cur@[2 * j + 1]@];
            assert(views(pair@) =~= pv);
            match hash(pair) {
                Some(e) => {
                    next.push(e);
                },
                None => {
                    return Err(MerkleError::HashFailure);
                },
            }
            j = j + 1;
        }
        proof {
            assert forall|h: SpecHash| #[trigger] hashes_as(*hash, h) implies views(next@) == tree_layer(h, lv, (k + 1) as nat) by {
                assert(views(cur@) == tree_layer(h, lv, k as nat));
                assert(views(next@) =~= parent_layer(h, views(cur@)));
            }
        }
        layers.push(cur);
        cur = next;
        k = k + 1;
    }
    proof {
        lemma_layer_len(MERKLE_HEIGHT as nat);
    }
    layers.push(cur);
    let tree = GingerMerkleTree { layers, leaves: kept };
    proof {
        assert forall|h: SpecHash| #[trigger] hashes_as(*hash, h) implies tree.spec_layers() == tree_layers(h, lv) by {
            assert(tree.spec_layers() =~= tree_layers(h, lv));
        }
    }
    Ok(tree)
}

impl GingerMerkleTree {
    /// Number of leaves the tree was built from.
    pub fn leaves_len(&self) -> (r: usize)
        ensures
            r == self.spec_leaves().len(),
    {
        self.leaves.len()
    }
}

/// The root of `tree`.
pub fn get_ginger_merkle_root(tree: &GingerMerkleTree) -> (r: FieldElement)
    requires
        tree.wf(),
    ensures
        r@ == tree.spec_layers()[MERKLE_HEIGHT as int][0],
{
    proof {
        lemma_layer_len(MERKLE_HEIGHT as nat);
    }
    tree.layers[MERKLE_HEIGHT][0]
}

proof fn lemma_position_bound(i: int, k: nat)
    requires
        0 <= i < MERKLE_LEAVES,
        k <= MERKLE_HEIGHT,
    ensures
        0 <= position(i, k) < layer_len(k),
        k < MERKLE_HEIGHT ==> 0 <= sibling(position(i, k)) < layer_len(k),
    decreases k,
{
    lemma_layer_len(k);
    if k > 0 {
        lemma_position_bound(i, (k - 1) as nat);
        lemma_layer_len((k - 1) as nat);
    }
    if k < MERKLE_HEIGHT {
        lemma_layer_len(k);
    }
}

/// The path of the leaf at `leaf_index`, which must be `leaf`.
pub fn get_ginger_merkle_path(leaf: &FieldElement, leaf_index: usize, tree: &GingerMerkleTree) -> (r: Result<
    GingerMerkleTreePath,
    MerkleError,
>)
    requires
        tree.wf(),
    ensures
        leaf_index >= tree.spec_leaves().len() ==> r == Err::<GingerMerkleTreePath, MerkleError>(MerkleError::IndexOutOfRange),
        leaf_index < tree.spec_leaves().len() && leaf@ != tree.spec_leaves()[leaf_index as int]
            ==> r == Err::<GingerMerkleTreePath, MerkleError>(MerkleError::LeafMismatch),
        leaf_index < tree.spec_leaves().len() && leaf@ == tree.spec_leaves()[leaf_index as int]
            ==> r is Ok && r->Ok_0.spec_path() == path_in(tree.spec_layers(), leaf_index as int),
{
    if leaf_index >= tree.leaves.len() {
        return Err(MerkleError::IndexOutOfRange);
    }
    if !leaf.equals(&tree.leaves[leaf_index]) {
        return Err(MerkleError::LeafMismatch);
    }
    let ghost layers = tree.spec_layers();
    let mut path: Vec<(FieldElement, bool)> = Vec::new();
    let mut p: usize = leaf_index;
    let mut k: usize = 0;
    while k < MERKLE_HEIGHT
        invariant
            tree.wf(),
            layers == tree.spec_layers(),
            leaf_index < MERKLE_LEAVES,
            k <= MERKLE_HEIGHT,
            p == position(leaf_index as int, k as nat),
            path@.len() == k,
            forall|m: int| 0 <= m < k ==> (#[trigger] path@[m]).0@ == path_in(layers, leaf_index as int)[m].0
                && path@[m].1 == path_in(layers, leaf_index as int)[m].1,
        decreases MERKLE_HEIGHT - k,
    {
        proof {
            lemma_position_bound(leaf_index as int, k as nat);
        }
        let s = if p % 2 == 0 {
            p + 1
        } else {
            p - 1
        };
        let node = tree.layers[k][s];
        path.push((node, p % 2 == 1));
        p = p / 2;
        k = k + 1;
    }
    let r = GingerMerkleTreePath { path };
    assert(r.spec_path() =~= path_in(layers, leaf_index as int));
    Ok(r)
}

/// Whether `path` leads from `leaf` to `merkle_root`.
pub fn verify_ginger_merkle_path<H: Fn(Vec<FieldElement>) -> Option<FieldElement>>(
    path: &GingerMerkleTreePath,
    merkle_root: &FieldElement,
    leaf: &FieldElement,
    hash: &H,
) -> (r: Result<bool, MerkleError>)
    requires
        callable(*hash),
    ensures
        r is Err ==> r->Err_0 == MerkleError::HashFailure,
        forall|h: SpecHash| #[trigger] hashes_as(*hash, h)
            ==> r == Ok::<bool, MerkleError>(fold_path(h, leaf@, path.spec_path()) == merkle_root@),
{
    let ghost sp = path.spec_path();
    let mut cur: FieldElement = *leaf;
    let mut k: usize = 0;
    while k < path.path.len()
        invariant
            callable(*hash),
            sp == path.spec_path(),
            k <= sp.len(),
            forall|h: SpecHash| #[trigger] hashes_as(*hash, h) ==> cur@ == fold_path(h, leaf@, sp.subrange(0, k as int)),
        decreases sp.len() - k,
    {
        let (s, is_right) = path.path[k];
        let pair: Vec<FieldElement> = if is_right {
            vec![s, cur]
        } else {
            vec![cur, s]
        };
        let ghost below = cur@;
        let ghost pv = if is_right { seq![s@, below] } else { seq![below, s@] };
        assert(views(pair@) =~= pv);
        match hash(pair) {
            Some(e) => {
                proof {
                    assert(sp.subrange(0, k + 1 as int).drop_last() =~= sp.subrange(0, k as int));
                }
                cur = e;
            },
            None => {
                return Err(MerkleError::HashFailure);
            },
        }
        k = k + 1;
    }
    assert(sp.subrange(0, sp.len() as int) =~= sp);
    Ok(cur.equals(merkle_root))
}

proof fn lemma_fold_prefix(h: SpecHash, leaves: Seq<Seq<u8>>, i: int, k: nat)
    requires
        k <= MERKLE_HEIGHT,
        0 <= i < leaves.len() <= MERKLE_LEAVES,
    ensures
        fold_path(h, leaves[i], merkle_path(h, leaves, i).subrange(0, k as int)) == tree_layer(h, leaves, k)[position(i, k)],
    decreases k,
{
    let path = merkle_path(h, leaves, i);
    if k == 0 {
        assert(path.subrange(0, 0).len() == 0);
    } else {
        let k0 = (k - 1) as nat;
        lemma_fold_prefix(h, leaves, i, k0);
        lemma_position_bound(i, k0);
        lemma_tree_layer_len(h, leaves, k0);
        lemma_layer_len(k0);
        let p = position(i, k0);
        let layer = tree_layer(h, leaves, k0);
        assert(path.subrange(0, k as int).drop_last() =~= path.subrange(0, k0 as int));
        assert(path[k0 as int] == (layer[sibling(p)], p % 2 == 1));
        assert(tree_layer(h, leaves, k) == parent_layer(h, layer));
        if p % 2 == 1 {
            assert(seq![layer[sibling(p)], layer[p]] == seq![layer[2 * (p / 2)], layer[2 * (p / 2) + 1]]);
        } else {
            assert(seq![layer[p], layer[sibling(p)]] == seq![layer[2 * (p / 2)], layer[2 * (p / 2) + 1]]);
        }
    }
}

/// Every leaf of a tree of at most 512 leaves is proved by its path: the
/// path leads from the leaf to the root.
pub proof fn lemma_merkle_inclusion(h: SpecHash, leaves: Seq<Seq<u8>>, i: int)
    requires
        leaves.len() <= MERKLE_LEAVES,
        0 <= i < leaves.len(),
    ensures
        fold_path(h, leaves[i], merkle_path(h, leaves, i)) == merkle_root(h, leaves),
{
    let path = merkle_path(h, leaves, i);
    lemma_fold_prefix(h, leaves, i, MERKLE_HEIGHT as nat);
    lemma_position_bound(i, MERKLE_HEIGHT as nat);
    lemma_layer_len(MERKLE_HEIGHT as nat);
    assert(path.subrange(0, MERKLE_HEIGHT as int) =~= path);
}

/// The same, said of a tree built by `new_ginger_merkle_tree` with a hash
/// that behaves as `h`: the path that `get_ginger_merkle_path` gives for a
/// leaf leads, as `verify_ginger_merkle_path` folds it, to the root that
/// `get_ginger_merkle_root` gives.
pub proof fn lemma_built_tree_inclusion(h: SpecHash, tree: &GingerMerkleTree, i: int)
    requires
        tree.wf(),
        tree.spec_layers() == tree_layers(h, tree.spec_leaves()),
        0 <= i < tree.spec_leaves().len(),
    ensures
        fold_path(h, tree.spec_leaves()[i], path_in(tree.spec_layers(), i))
            == tree.spec_layers()[MERKLE_HEIGHT as int][0],
{
    lemma_merkle_inclusion(h, tree.spec_leaves(), i);
}

/// With a hash free of collisions, a path binds its leaf and its siblings:
/// two folds that reach the same root along the same sides start from the
/// same leaf and pass the same siblings.
pub proof fn lemma_path_binding(
    h: SpecHash,
    leaf1: Seq<u8>,
    path1: Seq<(Seq<u8>, bool)>,
    leaf2: Seq<u8>,
    path2: Seq<(Seq<u8>, bool)>,
)
    requires
        injective(h),
        path1.len() == path2.len(),
        forall|k: int| 0 <= k < path1.len() ==> (#[trigger] path1[k]).1 == path2[k].1,
        fold_path(h, leaf1, path1) == fold_path(h, leaf2, path2),
    ensures
        leaf1 == leaf2,
        path1 == path2,
    decreases path1.len(),
{
    if path1.len() > 0 {
        let (s1, r1) = path1.last();
        let (s2, r2) = path2.last();
        let b1 = fold_path(h, leaf1, path1.drop_last());
        let b2 = fold_path(h, leaf2, path2.drop_last());
        assert(path1[path1.len() - 1].1 == path2[path2.len() - 1].1);
        if r1 {
            assert(seq![s1, b1][0] == seq![s2, b2][0] && seq![s1, b1][1] == seq![s2, b2][1]);
        } else {
            assert(seq![b1, s1][0] == seq![b2, s2][0] && seq![b1, s1][1] == seq![b2, s2][1]);
        }
        assert forall|k: int| 0 <= k < path1.drop_last().len() implies (#[trigger] path1.drop_last()[k]).1
            == path2.drop_last()[k].1 by {
            assert(path1[k].1 == path2[k].1);
        }
        lemma_path_binding(h, leaf1, path1.drop_last(), leaf2, path2.drop_last());
        assert(s1 == s2 && r1 == r2);
        assert forall|k: int| 0 <= k < path1.len() implies path1[k] == path2[k] by {
            if k < path1.len() - 1 {
                assert(path1[k] == path1.drop_last()[k]);
                assert(path2[k] == path2.drop_last()[k]);
            }
        }
        assert(path1 =~= path2);
    }
}

/// With a hash free of collisions, a path checked against the root that it
/// leads to fails for any other leaf, and for any change of its siblings.
pub proof fn lemma_tamper_detected(
    h: SpecHash,
    leaf: Seq<u8>,
    path: Seq<(Seq<u8>, bool)>,
    other_leaf: Seq<u8>,
    other_path: Seq<(Seq<u8>, bool)>,
)
    requires
        injective(h),
        other_path.len() == path.len(),
        forall|k: int| 0 <= k < path.len() ==> (#[trigger] path[k]).1 == other_path[k].1,
        other_leaf != leaf || other_path != path,
    ensures
        fold_path(h, other_leaf, other_path) != fold_path(h, leaf, path),
{
    if fold_path(h, other_leaf, other_path) == fold_path(h, leaf, path) {
        lemma_path_binding(h, leaf, path, other_leaf, other_path);
    }
}

} // verus!
