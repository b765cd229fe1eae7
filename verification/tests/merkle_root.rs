use anchor_lang::solana_program::keccak::hashv;
use cpop::{compute_root, hash_sorted_pair, order_pair, verify_proof};

const ONES_THEN_TWOS: [u8; 32] = [
    52, 109, 140, 150, 162, 69, 66, 19, 252, 192, 218, 255, 60, 150, 173, 3, 152, 20, 129, 129,
    185, 250, 100, 136, 247, 174, 44, 10, 245, 178, 10, 160,
];

const TWOS_THEN_ONES: [u8; 32] = [
    92, 213, 63, 22, 214, 153, 232, 68, 83, 198, 247, 105, 185, 165, 188, 30, 146, 124, 97, 142,
    59, 97, 33, 67, 205, 90, 231, 222, 225, 206, 48, 135,
];

const ZERO_PAIR: [u8; 32] = [
    0xad, 0x32, 0x28, 0xb6, 0x76, 0xf7, 0xd3, 0xcd, 0x42, 0x84, 0xa5, 0x44, 0x3f, 0x17, 0xf1,
    0x96, 0x2b, 0x36, 0xe4, 0x91, 0xb3, 0x0a, 0x40, 0xb2, 0x40, 0x58, 0x49, 0xe5, 0x97, 0xba,
    0x5f, 0xb5,
];

const TWO_LEVELS: [u8; 32] = [
    29, 97, 79, 163, 200, 222, 98, 147, 139, 9, 72, 151, 36, 148, 249, 163, 133, 133, 117, 219,
    105, 206, 29, 52, 199, 121, 38, 243, 7, 50, 201, 129,
];

fn digest_of(tag: u8) -> [u8; 32] {
    hashv(&[&[tag]]).0
}

#[test]
fn order_pair_puts_the_smaller_first() {
    let a = [1u8; 32];
    let b = [2u8; 32];
    assert_eq!(order_pair(a, b), (a, b));
    assert_eq!(order_pair(b, a), (a, b));
    assert_eq!(order_pair(a, a), (a, a));
}

#[test]
fn pair_of_zero_digests_has_the_known_keccak_value() {
    assert_eq!(hash_sorted_pair([0u8; 32], [0u8; 32]), ZERO_PAIR);
}

#[test]
fn pair_is_hashed_smaller_first() {
    let a = [1u8; 32];
    let b = [2u8; 32];
    assert_eq!(hash_sorted_pair(a, b), ONES_THEN_TWOS);
    assert_eq!(hash_sorted_pair(b, a), ONES_THEN_TWOS);
    assert_ne!(hash_sorted_pair(b, a), TWOS_THEN_ONES);
}

#[test]
fn pair_hash_is_neither_operand() {
    let a = [1u8; 32];
    let b = [2u8; 32];
    let parent = hash_sorted_pair(a, b);
    assert_ne!(parent, a);
    assert_ne!(parent, b);
}

#[test]
fn pair_hash_is_commutative() {
    for x in 0u8..12 {
        for y in 0u8..12 {
            let a = digest_of(x);
            let b = digest_of(y);
            assert_eq!(hash_sorted_pair(a, b), hash_sorted_pair(b, a));
            let expected = if a <= b { hashv(&[&a, &b]).0 } else { hashv(&[&b, &a]).0 };
            assert_eq!(hash_sorted_pair(a, b), expected);
        }
    }
}

#[test]
fn empty_proof_leaves_the_leaf() {
    let leaf = digest_of(42);
    assert_eq!(compute_root(&Vec::new(), leaf), leaf);
    assert!(verify_proof(&leaf, &Vec::new(), leaf));
    assert!(!verify_proof(&digest_of(43), &Vec::new(), leaf));
}

#[test]
fn one_sibling_gives_the_pair_hash() {
    assert_eq!(compute_root(&vec![[2u8; 32]], [1u8; 32]), ONES_THEN_TWOS);
    assert_eq!(compute_root(&vec![[1u8; 32]], [2u8; 32]), ONES_THEN_TWOS);
}

#[test]
fn siblings_are_folded_leaf_side_first() {
    let proof = vec![[2u8; 32], [3u8; 32]];
    assert_eq!(compute_root(&proof, [1u8; 32]), TWO_LEVELS);
    assert!(verify_proof(&TWO_LEVELS, &proof, [1u8; 32]));

    let swapped = vec![[3u8; 32], [2u8; 32]];
    assert_ne!(compute_root(&swapped, [1u8; 32]), TWO_LEVELS);
    assert!(!verify_proof(&TWO_LEVELS, &swapped, [1u8; 32]));
}

#[test]
fn proof_leads_to_one_root_only() {
    let proof = vec![[2u8; 32], [3u8; 32]];
    let mut other = TWO_LEVELS;
    other[31] ^= 1;
    assert!(verify_proof(&TWO_LEVELS, &proof, [1u8; 32]));
    assert!(!verify_proof(&other, &proof, [1u8; 32]));
}
