use vstd::prelude::*;
use vstd::slice::slice_to_vec;
use vstd::string::*;
use vstd::arithmetic::div_mod::lemma_mod_breakdown;
use vstd::arithmetic::power2::{lemma2_to64, lemma_pow2_pos, lemma_pow2_unfold, pow2};
use crate::hashing::{double_sha256, double_sha256_spec};

verus! {

/// The root hash of a Merkle tree.
pub type MerkleRoot = [u8; 32];

/// The sibling hashes on the path from a leaf to the root, lowest level first.
pub type MerkleProof = Vec<[u8; 32]>;

/// The hashes of a level, each as a byte sequence.
pub open spec fn hashes_view(s: Seq<[u8; 32]>) -> Seq<Seq<u8>> {
    s.map_values(|h: [u8; 32]| h@)
}

/// The levels of a tree, each as a sequence of byte sequences.
pub open spec fn tree_view(t: Seq<Vec<[u8; 32]>>) -> Seq<Seq<Seq<u8>>> {
    t.map_values(|l: Vec<[u8; 32]>| hashes_view(l@))
}

/// The parent of two nodes: the double SHA-256 of their concatenation.
pub open spec fn hash_pair_spec(left: Seq<u8>, right: Seq<u8>) -> Seq<u8> {
    double_sha256_spec(left + right)
}

/// The node paired with node `i` (an even index) of a level: its right neighbour,
/// or the node itself where it is the last one.
pub open spec fn pair_partner(level: Seq<Seq<u8>>, i: int) -> Seq<u8> {
    if i + 1 < level.len() {
        level[i + 1]
    } else {
        level[i]
    }
}

/// The level above `level`: node `j` hashes nodes `2j` and its partner.
pub open spec fn next_level(level: Seq<Seq<u8>>) -> Seq<Seq<u8>> {
    Seq::new(
        ((level.len() + 1) / 2) as nat,
        |j: int| hash_pair_spec(level[2 * j], pair_partner(level, 2 * j)),
    )
}

/// All levels from `level` up to the level of a single node.
pub open spec fn tree_levels(level: Seq<Seq<u8>>) -> Seq<Seq<Seq<u8>>>
    decreases level.len(),
{
    if level.len() <= 1 {
        seq![level]
    } else {
        seq![level] + tree_levels(next_level(level))
    }
}

/// Thirty-two zero bytes: the root of a tree without leaves.
pub open spec fn zero_hash() -> Seq<u8> {
    Seq::new(32, |i: int| 0u8)
}

/// The Merkle root of a sequence of leaf hashes.
pub open spec fn merkle_root_spec(leaves: Seq<Seq<u8>>) -> Seq<u8>
    decreases leaves.len(),
{
    if leaves.len() == 0 {
        zero_hash()
    } else if leaves.len() == 1 {
        leaves[0]
    } else {
        merkle_root_spec(next_level(leaves))
    }
}

/// The levels of the Merkle tree of `leaves`; no level at all when there is no leaf.
pub open spec fn merkle_tree_spec(leaves: Seq<Seq<u8>>) -> Seq<Seq<Seq<u8>>> {
    if leaves.len() == 0 {
        seq![]
    } else {
        tree_levels(leaves)
    }
}

/// The index of the sibling of node `i` in a level of `len` nodes.
pub open spec fn sibling_index(i: int, len: int) -> int {
    if i % 2 == 0 {
        if i + 1 < len {
            i + 1
        } else {
            i
        }
    } else {
        i - 1
    }
}

/// The siblings met on the way from node `i` of the lowest level to the top level.
pub open spec fn proof_path(levels: Seq<Seq<Seq<u8>>>, i: int) -> Seq<Seq<u8>>
    decreases levels.len(),
{
    if levels.len() <= 1 {
        seq![]
    } else {
        seq![levels[0][sibling_index(i, levels[0].len() as int)]] + proof_path(
            levels.drop_first(),
            i / 2,
        )
    }
}

/// Every sibling met on the way from node `i` up exists in its level.
pub open spec fn path_in_bounds(levels: Seq<Seq<Seq<u8>>>, i: int) -> bool
    decreases levels.len(),
{
    levels.len() <= 1 || (0 <= sibling_index(i, levels[0].len() as int) < levels[0].len()
        && path_in_bounds(levels.drop_first(), i / 2))
}

/// The hash reached from `h` at position `i` by combining it with the siblings of `proof`.
pub open spec fn fold_proof(h: Seq<u8>, i: int, proof: Seq<Seq<u8>>) -> Seq<u8>
    decreases proof.len(),
{
    if proof.len() == 0 {
        h
    } else {
        fold_proof(
            if i % 2 == 0 {
                hash_pair_spec(h, proof[0])
            } else {
                hash_pair_spec(proof[0], h)
            },
            i / 2,
            proof.drop_first(),
        )
    }
}

fn hash_pair(left: &[u8; 32], right: &[u8; 32]) -> (res: [u8; 32])
    ensures
        res@ == hash_pair_spec(left@, right@),
{
    let mut combined: Vec<u8> = Vec::with_capacity(64);
    let mut i: usize = 0;
    while i < 32
        invariant
            i <= 32,
            left@.len() == 32,
            combined@ =~= left@.take(i as int),
        decreases 32 - i,
    {
        combined.push(left[i]);
        i += 1;
    }
    let mut j: usize = 0;
    while j < 32
        invariant
            j <= 32,
            left@.len() == 32,
            right@.len() == 32,
            combined@ =~= left@ + right@.take(j as int),
        decreases 32 - j,
    {
        combined.push(right[j]);
        j += 1;
    }
    assert(right@.take(32) =~= right@);
    double_sha256(combined.as_slice())
}

pub(crate) fn hashes_equal(a: &[u8; 32], b: &[u8; 32]) -> (res: bool)
    ensures
        res == (a@ == b@),
{
    let mut i: usize = 0;
    while i < 32
        invariant
            i <= 32,
            a@.len() == 32,
            b@.len() == 32,
            forall|k: int| 0 <= k < i ==> a@[k] == b@[k],
        decreases 32 - i,
    {
        if a[i] != b[i] {
            return false;
        }
        i += 1;
    }
    assert(a@ =~= b@);
    true
}

/// The level above `level`, pairing nodes from the left.
fn compute_next_level(level: &Vec<[u8; 32]>) -> (res: Vec<[u8; 32]>)
    ensures
        hashes_view(res@) == next_level(hashes_view(level@)),
{
    let n = level.len();
    let half = n / 2 + n % 2;
    let ghost lv = hashes_view(level@);
    let mut next: Vec<[u8; 32]> = Vec::new();
    let mut j: usize = 0;
    while j < half
        invariant
            n == level@.len(),
            half == (n + 1) / 2,
            lv == hashes_view(level@),
            j <= half,
            hashes_view(next@) =~= next_level(lv).take(j as int),
        decreases half - j,
    {
        let left = level[2 * j];
        let right = if 2 * j + 1 < n {
            level[2 * j + 1]
        } else {
            level[2 * j]
        };
        let h = hash_pair(&left, &right);
        proof {
            assert(lv[2 * j as int] == left@);
            assert(pair_partner(lv, 2 * j as int) == right@);
            assert(next_level(lv)[j as int] == h@);
        }
        let ghost before = next@;
        next.push(h);
        proof {
            assert(hashes_view(next@) =~= hashes_view(before).push(h@));
            assert(next_level(lv).take(j + 1) =~= next_level(lv).take(j as int).push(h@));
        }
        j += 1;
    }
    assert(next_level(lv).take(half as int) =~= next_level(lv));
    next
}

proof fn lemma_next_level_shorter(level: Seq<Seq<u8>>)
    requires
        level.len() > 1,
    ensures
        1 <= next_level(level).len() < level.len(),
{
}

/// The Merkle root of `tx_hashes`: zero bytes for no leaf, the leaf itself for one,
/// else the single node reached by pairing levels upward.
pub fn calculate_merkle_root(tx_hashes: &[[u8; 32]]) -> (res: MerkleRoot)
    ensures
        res@ == merkle_root_spec(hashes_view(tx_hashes@)),
{
    if tx_hashes.len() == 0 {
        let zero = [0u8; 32];
        assert(zero@ =~= zero_hash());
        return zero;
    }
    if tx_hashes.len() == 1 {
        return tx_hashes[0];
    }
    let mut current = slice_to_vec(tx_hashes);
    while current.len() > 1
        invariant
            current@.len() >= 1,
            merkle_root_spec(hashes_view(current@)) == merkle_root_spec(hashes_view(tx_hashes@)),
        decreases current@.len(),
    {
        let next = compute_next_level(&current);
        proof {
            lemma_next_level_shorter(hashes_view(current@));
        }
        current = next;
    }
    current[0]
}


proof fn lemma_tree_levels_first(level: Seq<Seq<u8>>)
    ensures
        tree_levels(level).len() >= 1,
        tree_levels(level)[0] == level,
    decreases level.len(),
{
    if level.len() > 1 {
        lemma_next_level_shorter(level);
        lemma_tree_levels_first(next_level(level));
    }
}

/// The Merkle tree of `tx_hashes`: its root and all its levels, leaves first.
/// No leaf gives zero bytes and no level; one leaf gives that leaf and one level.
pub fn build_merkle_tree(tx_hashes: &[[u8; 32]]) -> (res: (MerkleRoot, Vec<Vec<[u8; 32]>>))
    ensures
        res.0@ == merkle_root_spec(hashes_view(tx_hashes@)),
        tree_view(res.1@) == merkle_tree_spec(hashes_view(tx_hashes@)),
        tx_hashes@.len() > 0 ==> res.1@.len() > 0 && res.1@[0]@.len() == tx_hashes@.len(),
{
    let ghost leaves = hashes_view(tx_hashes@);
    if tx_hashes.len() == 0 {
        let zero = [0u8; 32];
        assert(zero@ =~= zero_hash());
        let empty: Vec<Vec<[u8; 32]>> = Vec::new();
        assert(tree_view(empty@) =~= merkle_tree_spec(leaves));
        return (zero, empty);
    }
    if tx_hashes.len() == 1 {
        let leaf = tx_hashes[0];
        let mut only: Vec<[u8; 32]> = Vec::new();
        only.push(leaf);
        let mut tree: Vec<Vec<[u8; 32]>> = Vec::new();
        tree.push(only);
        proof {
            assert(hashes_view(only@) =~= leaves);
            assert(tree_view(tree@) =~= seq![leaves]);
        }
        return (leaf, tree);
    }
    let mut tree: Vec<Vec<[u8; 32]>> = Vec::new();
    let mut current = slice_to_vec(tx_hashes);
    tree.push(slice_to_vec(tx_hashes));
    proof {
        lemma_tree_levels_first(leaves);
        assert(tree_view(tree@) + tree_levels(hashes_view(current@)).drop_first() =~= tree_levels(
            leaves,
        ));
    }
    while current.len() > 1
        invariant
            current@.len() >= 1,
            leaves == hashes_view(tx_hashes@),
            merkle_root_spec(hashes_view(current@)) == merkle_root_spec(leaves),
            tree_view(tree@) + tree_levels(hashes_view(current@)).drop_first() == tree_levels(
                leaves,
            ),
        decreases current@.len(),
    {
        let next = compute_next_level(&current);
        let ghost cur = hashes_view(current@);
        let ghost before = tree@;
        proof {
            lemma_next_level_shorter(cur);
            lemma_tree_levels_first(next_level(cur));
        }
        tree.push(slice_to_vec(next.as_slice()));
        proof {
            assert(tree_view(tree@) =~= tree_view(before).push(hashes_view(next@)));
            assert(tree_levels(cur).drop_first() =~= tree_levels(next_level(cur)));
            assert(tree_levels(next_level(cur)) =~= seq![next_level(cur)] + tree_levels(
                next_level(cur),
            ).drop_first());
            assert(tree_view(tree@) + tree_levels(hashes_view(next@)).drop_first() =~= tree_view(
                before,
            ) + tree_levels(cur).drop_first());
        }
        current = next;
    }
    proof {
        assert(tree_levels(hashes_view(current@)).drop_first() =~= Seq::<Seq<Seq<u8>>>::empty());
        assert(tree_view(tree@) =~= tree_levels(leaves));
        lemma_tree_levels_first(leaves);
        assert(tree_view(tree@)[0] == hashes_view(tree@[0]@));
    }
    (current[0], tree)
}

/// The sibling hashes for leaf `tx_index` of `tree`, lowest level first; an error for a
/// tree without levels or an index past the leaves.
pub fn generate_proof(tree: &[Vec<[u8; 32]>], tx_index: usize) -> (res: Result<MerkleProof, String>)
    requires
        tree@.len() > 0 && tx_index < tree@[0]@.len() ==> path_in_bounds(
            tree_view(tree@),
            tx_index as int,
        ),
    ensures
        tree@.len() == 0 ==> (res matches Err(msg) && msg@ == "Empty tree"@),
        tree@.len() > 0 && tx_index >= tree@[0]@.len() ==> (res matches Err(msg) && msg@
            == "Transaction index out of bounds"@),
        tree@.len() > 0 && tx_index < tree@[0]@.len() ==> (res matches Ok(proof) && hashes_view(
            proof@,
        ) == proof_path(tree_view(tree@), tx_index as int)),
{
    if tree.len() == 0 {
        return Err(String::from_str("Empty tree"));
    }
    if tx_index >= tree[0].len() {
        return Err(String::from_str("Transaction index out of bounds"));
    }
    let ghost levels = tree_view(tree@);
    let mut proof: Vec<[u8; 32]> = Vec::new();
    let mut index = tx_index;
    let last = tree.len() - 1;
    let mut k: usize = 0;
    proof {
        assert(levels.skip(0) =~= levels);
        assert(hashes_view(proof@) + proof_path(levels, tx_index as int) =~= proof_path(
            levels,
            tx_index as int,
        ));
    }
    while k < last
        invariant
            last == tree@.len() - 1,
            levels == tree_view(tree@),
            k <= last,
            path_in_bounds(levels.skip(k as int), index as int),
            hashes_view(proof@) + proof_path(levels.skip(k as int), index as int) == proof_path(
                levels,
                tx_index as int,
            ),
        decreases last - k,
    {
        let level = &tree[k];
        let ghost rest = levels.skip(k as int);
        proof {
            assert(rest[0] == hashes_view(level@));
            assert(rest.drop_first() =~= levels.skip(k + 1));
        }
        let sibling_index = if index % 2 == 0 {
            if index + 1 < level.len() {
                index + 1
            } else {
                index
            }
        } else {
            index - 1
        };
        let sibling = level[sibling_index];
        let ghost before = proof@;
        proof.push(sibling);
        proof {
            assert(hashes_view(proof@) =~= hashes_view(before).push(sibling@));
            assert(proof_path(rest, index as int) =~= seq![sibling@] + proof_path(
                levels.skip(k + 1),
                index as int / 2,
            ));
            assert(hashes_view(proof@) + proof_path(levels.skip(k + 1), index as int / 2)
                =~= hashes_view(before) + proof_path(rest, index as int));
        }
        index = index / 2;
        k += 1;
    }
    proof {
        assert(levels.skip(last as int).len() == 1);
        assert(proof_path(levels.skip(last as int), index as int) =~= Seq::<Seq<u8>>::empty());
        assert(hashes_view(proof@) =~= proof_path(levels, tx_index as int));
    }
    Ok(proof)
}

/// Whether combining `tx_hash` at position `tx_index` with the siblings of `proof`
/// reaches `merkle_root`.
pub fn verify_proof(
    tx_hash: &[u8; 32],
    tx_index: usize,
    proof: &[[u8; 32]],
    merkle_root: &[u8; 32],
) -> (res: bool)
    ensures
        res == (fold_proof(tx_hash@, tx_index as int, hashes_view(proof@)) == merkle_root@),
{
    let mut current_hash = *tx_hash;
    let mut index = tx_index;
    let ghost siblings = hashes_view(proof@);
    let mut k: usize = 0;
    proof {
        assert(siblings.skip(0) =~= siblings);
    }
    while k < proof.len()
        invariant
            k <= proof@.len(),
            siblings == hashes_view(proof@),
            fold_proof(current_hash@, index as int, siblings.skip(k as int)) == fold_proof(
                tx_hash@,
                tx_index as int,
                siblings,
            ),
        decreases proof@.len() - k,
    {
        let sibling_hash = &proof[k];
        let ghost rest = siblings.skip(k as int);
        proof {
            assert(rest[0] == sibling_hash@);
            assert(rest.drop_first() =~= siblings.skip(k + 1));
        }
        current_hash = if index % 2 == 0 {
            hash_pair(&current_hash, sibling_hash)
        } else {
            hash_pair(sibling_hash, &current_hash)
        };
        index = index / 2;
        k += 1;
    }
    proof {
        assert(siblings.skip(k as int) =~= Seq::<Seq<u8>>::empty());
    }
    hashes_equal(&current_hash, merkle_root)
}


proof fn lemma_step_reaches_parent(level: Seq<Seq<u8>>, i: int)
    requires
        level.len() > 1,
        0 <= i < level.len(),
    ensures
        0 <= sibling_index(i, level.len() as int) < level.len(),
        i / 2 < next_level(level).len(),
        (if i % 2 == 0 {
            hash_pair_spec(level[i], level[sibling_index(i, level.len() as int)])
        } else {
            hash_pair_spec(level[sibling_index(i, level.len() as int)], level[i])
        }) == next_level(level)[i / 2],
{
    if i % 2 == 0 {
        assert(2 * (i / 2) == i);
    } else {
        assert(2 * (i / 2) == i - 1);
    }
}

/// Completeness of Merkle proofs: for every leaf of a tree, the proof path that the tree
/// gives for that leaf exists in the tree, and folding the leaf with it reaches the root.
pub proof fn lemma_merkle_proof_complete(leaves: Seq<Seq<u8>>, i: int)
    requires
        0 <= i < leaves.len(),
    ensures
        path_in_bounds(merkle_tree_spec(leaves), i),
        fold_proof(leaves[i], i, proof_path(merkle_tree_spec(leaves), i)) == merkle_root_spec(
            leaves,
        ),
    decreases leaves.len(),
{
    if leaves.len() > 1 {
        let nl = next_level(leaves);
        lemma_next_level_shorter(leaves);
        lemma_step_reaches_parent(leaves, i);
        lemma_merkle_proof_complete(nl, i / 2);
        lemma_tree_levels_first(nl);
        let levels = tree_levels(leaves);
        assert(levels.drop_first() =~= tree_levels(nl));
        let path = proof_path(levels, i);
        assert(path.drop_first() =~= proof_path(tree_levels(nl), i / 2));
    }
}


/// The top level of the Merkle tree of a non-empty sequence of leaves holds exactly one
/// node, the Merkle root; so `build_merkle_tree` and `calculate_merkle_root` agree on it.
pub proof fn lemma_root_is_top_level(leaves: Seq<Seq<u8>>)
    requires
        leaves.len() > 0,
    ensures
        merkle_tree_spec(leaves).last() == seq![merkle_root_spec(leaves)],
    decreases leaves.len(),
{
    if leaves.len() == 1 {
        assert(leaves =~= seq![leaves[0]]);
    } else {
        let nl = next_level(leaves);
        lemma_next_level_shorter(leaves);
        lemma_root_is_top_level(nl);
        assert(tree_levels(leaves).last() == tree_levels(nl).last());
    }
}

/// Only the lowest `proof.len()` bits of the index matter when a proof is folded: the bit
/// taken at each step says on which side that level's sibling stands, so an index and its
/// remainder modulo 2 to the power of the proof's length fold to the same hash.
pub proof fn lemma_fold_proof_low_bits(h: Seq<u8>, i: int, proof: Seq<Seq<u8>>)
    requires
        0 <= i,
    ensures
        fold_proof(h, i, proof) == fold_proof(h, i % (pow2(proof.len()) as int), proof),
    decreases proof.len(),
{
    if proof.len() > 0 {
        let m = pow2((proof.len() - 1) as nat) as int;
        lemma_pow2_unfold(proof.len());
        lemma_pow2_pos((proof.len() - 1) as nat);
        lemma_mod_breakdown(i, 2, m);
        let j = i % (2 * m);
        assert(j == 2 * ((i / 2) % m) + i % 2);
        assert(j % 2 == i % 2 && j / 2 == (i / 2) % m);
        let up = if i % 2 == 0 {
            hash_pair_spec(h, proof[0])
        } else {
            hash_pair_spec(proof[0], h)
        };
        lemma_fold_proof_low_bits(up, i / 2, proof.drop_first());
        assert(fold_proof(h, j, proof) == fold_proof(up, j / 2, proof.drop_first()));
    }
}

/// A proof path through `levels` has one sibling per level below the top.
proof fn lemma_proof_path_len(levels: Seq<Seq<Seq<u8>>>, i: int)
    requires
        levels.len() >= 1,
    ensures
        proof_path(levels, i).len() == levels.len() - 1,
    decreases levels.len(),
{
    if levels.len() > 1 {
        lemma_proof_path_len(levels.drop_first(), i / 2);
    }
}

/// A tree built up from `level` has `k` levels above it, where `k` is the least with
/// 2 to the `k` at least `level.len()`.
proof fn lemma_tree_height(level: Seq<Seq<u8>>)
    requires
        level.len() >= 1,
    ensures
        ({
            let k = (tree_levels(level).len() - 1) as nat;
            &&& tree_levels(level).len() >= 1
            &&& pow2(k) >= level.len()
            &&& level.len() == 1 ==> k == 0
            &&& level.len() > 1 ==> k >= 1 && pow2((k - 1) as nat) < level.len()
        }),
    decreases level.len(),
{
    lemma2_to64();
    if level.len() > 1 {
        let nl = next_level(level);
        lemma_next_level_shorter(level);
        lemma_tree_height(nl);
        lemma_tree_levels_first(nl);
        let k = (tree_levels(level).len() - 1) as nat;
        assert(tree_levels(level).len() == 1 + tree_levels(nl).len());
        lemma_pow2_unfold(k);
        if nl.len() > 1 {
            lemma_pow2_unfold((k - 1) as nat);
        }
    }
}

/// A proof for any leaf of a tree of `n` leaves holds ceil(log2 n) siblings: none for a
/// single leaf, otherwise the `k` with 2 to the `k - 1` below `n` and 2 to the `k` at
/// least `n`.
pub proof fn lemma_proof_length(leaves: Seq<Seq<u8>>, i: int)
    requires
        leaves.len() >= 1,
    ensures
        ({
            let k = proof_path(merkle_tree_spec(leaves), i).len();
            &&& leaves.len() == 1 ==> k == 0
            &&& pow2(k) >= leaves.len()
            &&& leaves.len() > 1 ==> k >= 1 && pow2((k - 1) as nat) < leaves.len()
        }),
{
    lemma_tree_height(leaves);
    lemma_proof_path_len(tree_levels(leaves), i);
}

} // verus!
