use nomad_home::accumulator::{hash_concat, Accumulator, TREE_DEPTH};
use nomad_home::primitives::H256;

fn hex(s: &str) -> H256 {
    let mut out = [0u8; 32];
    let bytes = s.as_bytes();
    for i in 0..32 {
        let hi = (bytes[2 * i] as char).to_digit(16).unwrap() as u8;
        let lo = (bytes[2 * i + 1] as char).to_digit(16).unwrap() as u8;
        out[i] = hi * 16 + lo;
    }
    H256(out)
}

fn leaf(n: u8) -> H256 {
    let mut bytes = [0u8; 32];
    bytes[0] = n;
    bytes[31] = 0xa5;
    H256(bytes)
}

/// The root of the full tree, computed level by level.
fn root_by_levels(leaves: &[H256]) -> H256 {
    let mut level: Vec<H256> = leaves.to_vec();
    let mut empty = H256::zero();
    for _ in 0..TREE_DEPTH {
        let mut above = Vec::new();
        let mut i = 0;
        while i < level.len() {
            let right = if i + 1 < level.len() { level[i + 1] } else { empty };
            above.push(hash_concat(&level[i], &right));
            i += 2;
        }
        empty = hash_concat(&empty, &empty);
        level = above;
    }
    if level.is_empty() { empty } else { level[0] }
}

#[test]
fn empty_tree_has_the_known_root() {
    let tree = Accumulator::new();
    assert_eq!(tree.count(), 0);
    assert_eq!(
        tree.root(),
        hex("27ae5ba08d7291c96c8cbddcc148bf48a6d68c7974b94356f53754ef6171d757")
    );
}

#[test]
fn hash_of_two_zero_nodes() {
    let zero = H256::zero();
    assert_eq!(
        hash_concat(&zero, &zero),
        hex("ad3228b676f7d3cd4284a5443f17f1962b36e491b30a40b2405849e597ba5fb5")
    );
}

#[test]
fn hash_concat_orders_its_arguments() {
    let a = leaf(1);
    let b = leaf(2);
    assert_ne!(hash_concat(&a, &b), hash_concat(&b, &a));
    assert_ne!(hash_concat(&a, &b), a);
    assert_ne!(hash_concat(&a, &b), b);
}

#[test]
fn ingest_returns_the_root_and_the_count() {
    let mut tree = Accumulator::new();
    let (root, count) = tree.ingest(leaf(1)).unwrap();
    assert_eq!(count, 1);
    assert_eq!(root, tree.root());
    assert_eq!(tree.count(), 1);
    assert_ne!(root, Accumulator::new().root());
    let (root, count) = tree.ingest(leaf(2)).unwrap();
    assert_eq!(count, 2);
    assert_eq!(root, tree.root());
}

#[test]
fn root_of_one_leaf_is_the_chain_over_empty_siblings() {
    let mut tree = Accumulator::new();
    let (root, _) = tree.ingest(leaf(9)).unwrap();
    let mut node = leaf(9);
    let mut empty = H256::zero();
    for _ in 0..32 {
        node = hash_concat(&node, &empty);
        empty = hash_concat(&empty, &empty);
    }
    assert_eq!(root, node);
}

#[test]
fn root_agrees_with_the_full_tree() {
    let mut tree = Accumulator::new();
    let mut leaves = Vec::new();
    assert_eq!(tree.root(), root_by_levels(&leaves));
    for n in 0..40u8 {
        leaves.push(leaf(n));
        let (root, count) = tree.ingest(leaf(n)).unwrap();
        assert_eq!(count as usize, leaves.len());
        assert_eq!(root, root_by_levels(&leaves));
        assert_eq!(tree.root(), root);
    }
}

#[test]
fn root_is_determined_by_the_leaves() {
    let mut first = Accumulator::new();
    let mut second = Accumulator::new();
    for n in 0..11u8 {
        first.ingest(leaf(n)).unwrap();
    }
    for n in 0..11u8 {
        second.ingest(leaf(n)).unwrap();
        let _ = second.root();
    }
    assert_eq!(first.root(), second.root());
    assert_eq!(first.root(), first.root());
}

#[test]
fn root_depends_on_the_order_of_the_leaves() {
    let mut first = Accumulator::new();
    first.ingest(leaf(1)).unwrap();
    first.ingest(leaf(2)).unwrap();
    let mut second = Accumulator::new();
    second.ingest(leaf(2)).unwrap();
    second.ingest(leaf(1)).unwrap();
    assert_ne!(first.root(), second.root());
}
