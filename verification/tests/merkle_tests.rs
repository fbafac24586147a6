use blockchain::merkle::{build_merkle_tree, calculate_merkle_root, generate_proof, verify_proof};
use sha2::{Digest, Sha256};

fn leaf(n: u8) -> [u8; 32] {
    let mut h = [0u8; 32];
    h[0] = n;
    h[31] = n.wrapping_mul(7);
    h
}

fn double_sha(data: &[u8]) -> [u8; 32] {
    let first = Sha256::digest(data);
    Sha256::digest(first).into()
}

fn pair(l: &[u8; 32], r: &[u8; 32]) -> [u8; 32] {
    let mut v = Vec::new();
    v.extend_from_slice(l);
    v.extend_from_slice(r);
    double_sha(&v)
}

#[test]
fn empty_tree_has_zero_root_and_no_levels() {
    let (root, tree) = build_merkle_tree(&[]);
    assert_eq!(root, [0u8; 32]);
    assert!(tree.is_empty());
    assert_eq!(calculate_merkle_root(&[]), [0u8; 32]);
}

#[test]
fn single_leaf_is_its_own_root() {
    let l = leaf(5);
    let (root, tree) = build_merkle_tree(&[l]);
    assert_eq!(root, l);
    assert_eq!(tree, vec![vec![l]]);
    assert_eq!(calculate_merkle_root(&[l]), l);
}

#[test]
fn two_leaves_hash_to_double_sha_of_their_concatenation() {
    let a = leaf(1);
    let b = leaf(2);
    let expected = pair(&a, &b);
    assert_eq!(calculate_merkle_root(&[a, b]), expected);
    assert_ne!(expected, a);
}

#[test]
fn odd_level_pairs_last_node_with_itself() {
    let leaves = [leaf(1), leaf(2), leaf(3)];
    let (root, tree) = build_merkle_tree(&leaves);
    let left = pair(&leaves[0], &leaves[1]);
    let right = pair(&leaves[2], &leaves[2]);
    assert_eq!(tree.len(), 3);
    assert_eq!(tree[1], vec![left, right]);
    assert_eq!(root, pair(&left, &right));
    assert_eq!(calculate_merkle_root(&leaves), root);
}

#[test]
fn proof_errors() {
    assert_eq!(generate_proof(&[], 0), Err("Empty tree".to_string()));
    let (_, tree) = build_merkle_tree(&[leaf(1), leaf(2)]);
    assert_eq!(
        generate_proof(&tree, 2),
        Err("Transaction index out of bounds".to_string())
    );
}

#[test]
fn every_leaf_proof_verifies() {
    for n in 1..=9u8 {
        let leaves: Vec<[u8; 32]> = (0..n).map(leaf).collect();
        let (root, tree) = build_merkle_tree(&leaves);
        assert_eq!(root, calculate_merkle_root(&leaves));
        for (i, l) in leaves.iter().enumerate() {
            let proof = generate_proof(&tree, i).unwrap();
            assert_eq!(proof.len(), tree.len() - 1);
            assert!(verify_proof(l, i, &proof, &root));
        }
    }
}

#[test]
fn proof_for_another_leaf_fails() {
    let leaves: Vec<[u8; 32]> = (0..4).map(leaf).collect();
    let (root, tree) = build_merkle_tree(&leaves);
    let proof = generate_proof(&tree, 0).unwrap();
    assert!(!verify_proof(&leaves[1], 0, &proof, &root));
    assert!(!verify_proof(&leaves[0], 1, &proof, &root));
}

#[test]
fn proof_length_is_ceil_log2_of_leaf_count() {
    let expected = [(1usize, 0usize), (2, 1), (3, 2), (4, 2), (5, 3), (8, 3), (9, 4)];
    for (n, k) in expected {
        let leaves: Vec<[u8; 32]> = (0..n as u8).map(leaf).collect();
        let (_, tree) = build_merkle_tree(&leaves);
        for i in 0..n {
            assert_eq!(generate_proof(&tree, i).unwrap().len(), k);
        }
    }
}

#[test]
fn only_low_index_bits_matter() {
    let leaves: Vec<[u8; 32]> = (0..5u8).map(leaf).collect();
    let (root, tree) = build_merkle_tree(&leaves);
    for i in 0..5usize {
        let proof = generate_proof(&tree, i).unwrap();
        let span = 1usize << proof.len();
        assert!(verify_proof(&leaves[i], i, &proof, &root));
        assert!(verify_proof(&leaves[i], i + span, &proof, &root));
        assert!(verify_proof(&leaves[i], i + 3 * span, &proof, &root));
    }
    let first = generate_proof(&tree, 0).unwrap();
    assert!(!verify_proof(&leaves[0], 1, &first, &root));
}
