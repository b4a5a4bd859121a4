//! An append-only hash tree of fixed depth that commits to a sequence of
//! leaves with one root digest.
//!
//! The tree has `2^32` leaf positions. Positions that hold no leaf yet count
//! as the zero digest, and a parent is the Keccak-256 digest of its two
//! children, left before right. The accumulator keeps one node per level and
//! the number of leaves, which is enough to append a leaf and to compute the
//! root.

use crate::keccak::{keccak256, keccak256_of};
use crate::primitives::{append_bytes, H256};
use vstd::prelude::*;

verus! {

/// The number of levels between a leaf and the root.
pub const TREE_DEPTH: usize = 32;

/// The parent of two nodes.
pub open spec fn hash_pair(left: H256, right: H256) -> H256 {
    H256(keccak256(left@ + right@))
}

/// The number of leaf positions under a node at `height`.
pub open spec fn span(height: nat) -> nat
    decreases height,
{
    if height == 0 {
        1
    } else {
        2 * span((height - 1) as nat)
    }
}

/// The root of a subtree of `height` in which no position holds a leaf.
pub open spec fn zero_hash(height: nat) -> H256
    decreases height,
{
    if height == 0 {
        H256::spec_zero()
    } else {
        hash_pair(zero_hash((height - 1) as nat), zero_hash((height - 1) as nat))
    }
}

/// The node at `height` whose leftmost leaf position is `start`, in the tree
/// that holds `leaves` from position 0 on.
pub open spec fn subtree_root(leaves: Seq<H256>, height: nat, start: nat) -> H256
    decreases height,
{
    if height == 0 {
        if start < leaves.len() {
            leaves[start as int]
        } else {
            H256::spec_zero()
        }
    } else {
        let below = (height - 1) as nat;
        hash_pair(
            subtree_root(leaves, below, start),
            subtree_root(leaves, below, start + span(below)),
        )
    }
}

/// The root of the tree that holds `leaves`.
pub open spec fn merkle_root(leaves: Seq<H256>) -> H256 {
    subtree_root(leaves, 32, 0)
}

/// `n` without its `i` lowest binary digits.
spec fn shifted(n: nat, i: nat) -> nat
    decreases i,
{
    if i == 0 {
        n
    } else {
        shifted(n, (i - 1) as nat) / 2
    }
}

/// `n` with its `i` lowest binary digits set to zero.
spec fn cleared(n: nat, i: nat) -> int
    decreases i,
{
    if i == 0 {
        n as int
    } else {
        let j = (i - 1) as nat;
        if shifted(n, j) % 2 == 1 {
            cleared(n, j) - span(j)
        } else {
            cleared(n, j)
        }
    }
}

/// Every node has at least one leaf position under it.
proof fn lemma_span_positive(height: nat)
    ensures
        span(height) >= 1,
    decreases height,
{
    if height > 0 {
        lemma_span_positive((height - 1) as nat);
    }
}

/// The tree has `2^32` leaf positions.
proof fn lemma_span_depth()
    ensures
        span(32) == 0x1_0000_0000,
{
    reveal_with_fuel(span, 33);
}

/// `n` with its `i` lowest digits cleared is the multiple of `span(i)` next
/// below or at `n`.
proof fn lemma_cleared_bounds(n: nat, i: nat)
    ensures
        cleared(n, i) == shifted(n, i) * span(i),
        0 <= cleared(n, i) <= n < cleared(n, i) + span(i),
    decreases i,
{
    lemma_span_positive(i);
    if i > 0 {
        let j = (i - 1) as nat;
        lemma_cleared_bounds(n, j);
        let s = shifted(n, j) as int;
        let p = span(j) as int;
        let q = s / 2;
        let r = s % 2;
        assert(q * (2 * p) == s * p - r * p) by (nonlinear_arith)
            requires
                s == 2 * q + r,
        ;
        assert(r * p == if r == 1 { p } else { 0 }) by (nonlinear_arith)
            requires
                r == 0 || r == 1,
        ;
        assert(q * (2 * p) >= 0) by (nonlinear_arith)
            requires
                q >= 0,
                p >= 0,
        ;
    }
}

/// Zero has no binary digit 1.
proof fn lemma_zero_has_no_digits(i: nat)
    ensures
        shifted(0, i) == 0,
    decreases i,
{
    if i > 0 {
        lemma_zero_has_no_digits((i - 1) as nat);
    }
}

/// Two numbers that agree from digit `from` on agree from every higher
/// digit on.
proof fn lemma_same_above(a: nat, b: nat, from: nat, i: nat)
    requires
        from <= i,
        shifted(a, from) == shifted(b, from),
        cleared(a, from) == cleared(b, from),
    ensures
        shifted(a, i) == shifted(b, i),
        cleared(a, i) == cleared(b, i),
    decreases i,
{
    if i > from {
        lemma_same_above(a, b, from, (i - 1) as nat);
    }
}

/// A subtree that starts past the last leaf is an empty subtree.
pub proof fn lemma_empty_subtree(leaves: Seq<H256>, height: nat, start: nat)
    requires
        start >= leaves.len(),
    ensures
        subtree_root(leaves, height, start) == zero_hash(height),
    decreases height,
{
    if height > 0 {
        let below = (height - 1) as nat;
        lemma_empty_subtree(leaves, below, start);
        lemma_empty_subtree(leaves, below, start + span(below));
    }
}

/// A subtree whose positions all hold leaves does not change when a leaf is
/// appended.
pub proof fn lemma_full_subtree(leaves: Seq<H256>, leaf: H256, height: nat, start: nat)
    requires
        start + span(height) <= leaves.len(),
    ensures
        subtree_root(leaves.push(leaf), height, start) == subtree_root(leaves, height, start),
    decreases height,
{
    if height > 0 {
        let below = (height - 1) as nat;
        lemma_full_subtree(leaves, leaf, below, start);
        lemma_full_subtree(leaves, leaf, below, start + span(below));
    }
}

/// The digest of two nodes, left before right.
pub fn hash_concat(left: &H256, right: &H256) -> (parent: H256)
    ensures
        parent == hash_pair(*left, *right),
{
    let mut buf: Vec<u8> = Vec::new();
    append_bytes(&mut buf, left.0.as_slice());
    append_bytes(&mut buf, right.0.as_slice());
    assert(buf@ =~= left@ + right@);
    H256(keccak256_of(buf.as_slice()))
}

/// Why a leaf could not be appended.
#[derive(Clone, Copy, Debug, PartialEq, Eq, Structural)]
pub enum IngestionError {
    /// Every position that the tree may fill holds a leaf.
    MerkleTreeFull,
}

/// The append-only tree.
pub struct Accumulator {
    /// For each level, the last node at that level whose positions all hold
    /// leaves and which is a left child.
    branch: Vec<H256>,
    /// For each level, the root of an empty subtree.
    zeroes: Vec<H256>,
    /// The number of leaves.
    count: u32,
    /// The leaves, in the order in which they came.
    leaves: Ghost<Seq<H256>>,
}

impl Accumulator {
    /// The leaves that were appended, oldest first.
    pub closed spec fn leaves(&self) -> Seq<H256> {
        self.leaves@
    }

    /// What holds of every accumulator that this module hands out.
    pub closed spec fn wf(&self) -> bool {
        &&& self.branch@.len() == 32
        &&& self.zeroes@.len() == 32
        &&& self.leaves@.len() == self.count
        &&& forall|i: int| 0 <= i < 32 ==> #[trigger] self.zeroes@[i] == zero_hash(i as nat)
        &&& branch_holds(self.branch@, self.leaves@)
    }

    /// An accumulator without leaves.
    pub fn new() -> (acc: Accumulator)
        ensures
            acc.wf(),
            acc.leaves() == Seq::<H256>::empty(),
    {
        let mut branch: Vec<H256> = Vec::new();
        let mut zeroes: Vec<H256> = Vec::new();
        let mut zero = H256::zero();
        let mut i: usize = 0;
        while i < TREE_DEPTH
            invariant
                i <= 32,
                branch@.len() == i,
                zeroes@.len() == i,
                zero == zero_hash(i as nat),
                forall|j: int| 0 <= j < i ==> #[trigger] zeroes@[j] == zero_hash(j as nat),
            decreases 32 - i,
        {
            branch.push(H256::zero());
            zeroes.push(zero);
            zero = hash_concat(&zero, &zero);
            i += 1;
        }
        let acc = Accumulator { branch, zeroes, count: 0, leaves: Ghost(Seq::empty()) };
        proof {
            assert forall|j: int|
                0 <= j < 32 && shifted(0, j as nat) % 2 == 1 implies #[trigger] acc.branch@[j]
                == subtree_root(acc.leaves@, j as nat, cleared(0, (j + 1) as nat) as nat) by {
                lemma_zero_has_no_digits(j as nat);
            }
        }
        acc
    }

    /// The number of leaves.
    pub fn count(&self) -> (n: u32)
        requires
            self.wf(),
        ensures
            n == self.leaves().len(),
    {
        self.count
    }

    /// The root of the tree that holds the leaves appended so far.
    pub fn root(&self) -> (root: H256)
        requires
            self.wf(),
        ensures
            root == merkle_root(self.leaves()),
    {
        let ghost n = self.count as nat;
        let mut node = H256::zero();
        let mut size = self.count;
        let mut i: usize = 0;
        while i < TREE_DEPTH
            invariant
                i <= 32,
                self.wf(),
                n == self.count,
                size == shifted(n, i as nat),
                cleared(n, i as nat) >= 0,
                node == subtree_root(self.leaves@, i as nat, cleared(n, i as nat) as nat),
            decreases 32 - i,
        {
            proof {
                lemma_cleared_bounds(n, i as nat);
                lemma_cleared_bounds(n, (i + 1) as nat);
            }
            if size % 2 == 1 {
                node = hash_concat(&self.branch[i], &node);
            } else {
                proof {
                    lemma_empty_subtree(
                        self.leaves@,
                        i as nat,
                        (cleared(n, i as nat) + span(i as nat)) as nat,
                    );
                }
                node = hash_concat(&node, &self.zeroes[i]);
            }
            size = size / 2;
            i += 1;
        }
        proof {
            lemma_cleared_bounds(n, 32);
            lemma_span_depth();
        }
        node
    }

    /// Appends `leaf` and returns the new root with the new number of
    /// leaves. Fails, and changes nothing, when the tree already holds
    /// `2^32 - 1` leaves.
    pub fn ingest(&mut self, leaf: H256) -> (res: Result<(H256, u32), IngestionError>)
        requires
            old(self).wf(),
        ensures
            final(self).wf(),
            match res {
                Ok((root, count)) => {
                    &&& old(self).leaves().len() < u32::MAX
                    &&& final(self).leaves() == old(self).leaves().push(leaf)
                    &&& root == merkle_root(final(self).leaves())
                    &&& count == final(self).leaves().len()
                },
                Err(e) => {
                    &&& old(self).leaves().len() == u32::MAX
                    &&& e == IngestionError::MerkleTreeFull
                    &&& *final(self) == *old(self)
                },
            },
    {
        if self.count == u32::MAX {
            return Err(IngestionError::MerkleTreeFull);
        }
        let ghost n = self.count as nat;
        let ghost before = self.leaves@;
        let ghost after = self.leaves@.push(leaf);
        let ghost branch_before = self.branch@;
        let count = self.count + 1;
        let mut node = leaf;
        let mut size = count;
        let mut i: usize = 0;
        while i < TREE_DEPTH
            invariant
                i <= 32,
                *self == *old(self),
                self.wf(),
                n == self.count,
                count == n + 1,
                before == self.leaves@,
                after == before.push(leaf),
                branch_before == self.branch@,
                size == shifted(n + 1, i as nat),
                shifted(n, i as nat) + 1 == size,
                cleared(n + 1, i as nat) == n + 1,
                cleared(n, i as nat) + span(i as nat) == n + 1,
                forall|j: nat| j < i ==> #[trigger] shifted(n + 1, j) % 2 == 0,
                node == subtree_root(after, i as nat, (n + 1 - span(i as nat)) as nat),
            decreases 32 - i,
        {
            proof {
                lemma_cleared_bounds(n, i as nat);
                lemma_span_positive(i as nat);
            }
            if size % 2 == 1 {
                self.branch[i] = node;
                self.count = count;
                self.leaves = Ghost(after);
                proof {
                    lemma_branch_after_ingest(branch_before, before, leaf, i as nat, node);
                }
                let root = self.root();
                return Ok((root, count));
            }
            proof {
                lemma_cleared_bounds(n, (i + 1) as nat);
                let left = cleared(n, (i + 1) as nat);
                assert(shifted(n, i as nat) % 2 == 1);
                assert(left == n + 1 - span((i + 1) as nat));
                assert(self.branch@[i as int] == subtree_root(before, i as nat, left as nat));
                lemma_full_subtree(before, leaf, i as nat, left as nat);
            }
            node = hash_concat(&self.branch[i], &node);
            size = size / 2;
            i += 1;
        }
        proof {
            lemma_cleared_bounds(n + 1, 32);
            lemma_span_depth();
            assert(false);
        }
        Err(IngestionError::MerkleTreeFull)
    }
}

/// Whether `branch` holds, for each binary digit 1 of the number of leaves,
/// the node that covers the leaves which that digit counts.
spec fn branch_holds(branch: Seq<H256>, leaves: Seq<H256>) -> bool {
    forall|i: int|
        0 <= i < 32 && shifted(leaves.len(), i as nat) % 2 == 1 ==> #[trigger] branch[i]
            == subtree_root(leaves, i as nat, cleared(leaves.len(), (i + 1) as nat) as nat)
}

/// Writing the node that covers the newest leaves at the level of the
/// lowest digit 1 of the new count makes `branch` hold for the new leaves.
proof fn lemma_branch_after_ingest(
    branch: Seq<H256>,
    leaves: Seq<H256>,
    leaf: H256,
    i: nat,
    node: H256,
)
    requires
        branch.len() == 32,
        branch_holds(branch, leaves),
        i < 32,
        forall|j: nat| j < i ==> #[trigger] shifted(leaves.len() + 1, j) % 2 == 0,
        shifted(leaves.len() + 1, i) % 2 == 1,
        shifted(leaves.len(), i) + 1 == shifted(leaves.len() + 1, i),
        cleared(leaves.len() + 1, i) == leaves.len() + 1,
        cleared(leaves.len(), i) + span(i) == leaves.len() + 1,
        node == subtree_root(leaves.push(leaf), i, (leaves.len() + 1 - span(i)) as nat),
    ensures
        branch_holds(branch.update(i as int, node), leaves.push(leaf)),
{
    let n = leaves.len();
    let after = leaves.push(leaf);
    let updated = branch.update(i as int, node);
    assert forall|j: int| 0 <= j < 32 && shifted(after.len(), j as nat) % 2 == 1 implies updated[j]
        == subtree_root(after, j as nat, cleared(after.len(), (j + 1) as nat) as nat) by {
        if j > i {
            lemma_same_above(n + 1, n, i + 1, j as nat);
            lemma_same_above(n + 1, n, i + 1, (j + 1) as nat);
            lemma_cleared_bounds(n, j as nat);
            lemma_cleared_bounds(n, (j + 1) as nat);
            lemma_full_subtree(leaves, leaf, j as nat, cleared(n, (j + 1) as nat) as nat);
        }
    }
}

} // verus!
