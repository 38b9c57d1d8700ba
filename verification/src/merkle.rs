//! Inclusion proofs over a block's transaction hashes.
//!
//! The relay proves to the ledger that the transactions it pushes are part of
//! the confirmed block. The block's merkle tree is built level by level: each
//! level pairs its nodes up, an odd tail node paired with itself, and the
//! single node of the top level is the root. The proof for the relevant
//! subset carries, per flagged transaction, its position, its hash and its
//! authentication path — the sibling at every level — and verifying folds
//! each path back to the root. Proofs are built for exactly the flagged
//! positions of the relevance mask, which is aligned to the hash list.

use vstd::prelude::*;

use crate::filter::queued_of;
use crate::hashing::append_bytes;
use crate::hashing::dhash_of;
use crate::hashing::dsha256;
use crate::types::BtcHash;

verus! {

/// Combining two tree nodes: the double hash of their concatenation, left
/// first.
pub open spec fn node_of(l: Seq<u8>, r: Seq<u8>) -> Seq<u8> {
    dhash_of(l + r)
}

/// Combine two nodes of the tree.
fn combine(l: &BtcHash, r: &BtcHash) -> (h: BtcHash)
    ensures
        h@ == node_of(l@, r@),
        h@.len() == 32,
{
    let mut buf: Vec<u8> = Vec::new();
    append_bytes(&mut buf, &l.bytes);
    append_bytes(&mut buf, &r.bytes);
    proof {
        assert(buf@ =~= l@ + r@);
    }
    dsha256(&buf)
}

/// The byte sequences of a list of hashes.
pub open spec fn hash_views(v: Seq<BtcHash>) -> Seq<Seq<u8>> {
    v.map_values(|h: BtcHash| h@)
}

/// The level above a level: adjacent nodes combined, an odd tail combined
/// with itself.
pub open spec fn next_level(level: Seq<Seq<u8>>) -> Seq<Seq<u8>> {
    Seq::new(
        (level.len() + 1) / 2,
        |i: int|
            node_of(
                level[2 * i],
                if 2 * i + 1 < level.len() {
                    level[2 * i + 1]
                } else {
                    level[2 * i]
                },
            ),
    )
}

/// The tree's level `h`, counted from the leaves.
pub open spec fn level_at(leaves: Seq<Seq<u8>>, h: nat) -> Seq<Seq<u8>>
    decreases h,
{
    if h == 0 {
        leaves
    } else {
        next_level(level_at(leaves, (h - 1) as nat))
    }
}

/// How many times a level of `n` nodes is paired up until one node is left.
pub open spec fn tree_height(n: nat) -> nat
    decreases n,
{
    if n <= 1 {
        0
    } else {
        (1 + tree_height((n + 1) / 2)) as nat
    }
}

/// The root of the merkle tree over the given leaves.
pub open spec fn merkle_root_of(leaves: Seq<Seq<u8>>) -> Seq<u8> {
    level_at(leaves, tree_height(leaves.len()))[0]
}

/// The sibling of position `j` in a level of `len` nodes: its pair neighbour,
/// or itself as the odd tail.
pub open spec fn sibling_index(j: int, len: int) -> int {
    if j % 2 == 0 {
        if j + 1 < len {
            j + 1
        } else {
            j
        }
    } else {
        j - 1
    }
}

/// The authentication path of position `j`: its sibling at each of the `h`
/// levels above the given one.
pub open spec fn path_of(level: Seq<Seq<u8>>, j: int, h: nat) -> Seq<Seq<u8>>
    decreases h,
{
    if h == 0 {
        Seq::empty()
    } else {
        seq![level[sibling_index(j, level.len() as int)]] + path_of(
            next_level(level),
            j / 2,
            (h - 1) as nat,
        )
    }
}

/// Folding an authentication path from a start node: at each level the
/// current node is combined with the path's sibling, on the side the
/// position's parity dictates.
pub open spec fn fold_path(cur: Seq<u8>, j: int, path: Seq<Seq<u8>>) -> Seq<u8>
    decreases path.len(),
{
    if path.len() == 0 {
        cur
    } else {
        let step = if j % 2 == 0 {
            node_of(cur, path[0])
        } else {
            node_of(path[0], cur)
        };
        fold_path(step, j / 2, path.subrange(1, path.len() as int))
    }
}

/// Position `j` after `h` halvings.
pub open spec fn halve(j: int, h: nat) -> int
    decreases h,
{
    if h == 0 {
        j
    } else {
        halve(j / 2, (h - 1) as nat)
    }
}

/// Halving once more halves the result: the position above level `h + 1` is
/// half the position above level `h`.
proof fn lemma_halve_snoc(j: int, h: nat)
    ensures
        halve(j, h + 1) == halve(j, h) / 2,
    decreases h,
{
    if h > 0 {
        lemma_halve_snoc(j / 2, (h - 1) as nat);
        assert(halve(j, h + 1) == halve(j / 2, h));
        assert(halve(j, h) == halve(j / 2, (h - 1) as nat));
    } else {
        assert(halve(j, 1) == halve(j / 2, 0));
    }
}

/// Pairing up commutes with iterating: the level above level `h` is level `h`
/// of the paired-up leaves.
proof fn lemma_level_at_shift(leaves: Seq<Seq<u8>>, h: nat)
    ensures
        next_level(level_at(leaves, h)) == level_at(next_level(leaves), h),
    decreases h,
{
    if h > 0 {
        lemma_level_at_shift(leaves, (h - 1) as nat);
    }
}

/// Folding the authentication path of position `j` from the node at `j`
/// climbs the tree: it yields the node above `j` at level `h`.
proof fn lemma_fold_climbs(level: Seq<Seq<u8>>, j: int, h: nat)
    requires
        0 <= j < level.len(),
    ensures
        0 <= halve(j, h) < level_at(level, h).len(),
        fold_path(level[j], j, path_of(level, j, h)) == level_at(level, h)[halve(j, h)],
    decreases h,
{
    if h == 0 {
    } else {
        let len = level.len() as int;
        let sib = sibling_index(j, len);
        let up = next_level(level);
        let step = if j % 2 == 0 {
            node_of(level[j], level[sib])
        } else {
            node_of(level[sib], level[j])
        };
        assert(up.len() == (level.len() + 1) / 2);
        assert(0 <= j / 2 < up.len());
        assert(up[j / 2] == step) by {
            if j % 2 == 0 {
                assert(2 * (j / 2) == j);
            } else {
                assert(2 * (j / 2) == j - 1);
                assert(2 * (j / 2) + 1 == j);
            }
        }
        let path = path_of(level, j, h);
        let rest = path_of(up, j / 2, (h - 1) as nat);
        assert(path == seq![level[sib]] + rest);
        assert(path[0] == level[sib]);
        assert(path.subrange(1, path.len() as int) =~= rest);
        lemma_fold_climbs(up, j / 2, (h - 1) as nat);
        lemma_level_at_shift(level, (h - 1) as nat);
        assert(level_at(level, h) == next_level(level_at(level, (h - 1) as nat)));
        assert(level_at(up, (h - 1) as nat) == level_at(level, h));
    }
}

/// A tree's top level holds the one node that is its root.
proof fn lemma_top_level_is_root(leaves: Seq<Seq<u8>>)
    requires
        leaves.len() >= 1,
    ensures
        level_at(leaves, tree_height(leaves.len())).len() == 1,
    decreases leaves.len(),
{
    if leaves.len() > 1 {
        lemma_top_level_is_root(next_level(leaves));
        lemma_level_at_shift(leaves, (tree_height(leaves.len()) - 1) as nat);
    }
}

/// The tree over `n` leaves is at most `n` levels high.
proof fn lemma_tree_height_le(n: nat)
    ensures
        tree_height(n) <= n,
    decreases n,
{
    if n > 1 {
        lemma_tree_height_le((n + 1) / 2);
    }
}

/// Law: a constructed proof verifies inclusion of exactly the flagged leaves
/// against the tree's root — for every leaf the mask flags true, folding its
/// authentication path from its own hash yields the merkle root of the whole
/// leaf list. (The proof carries no path for an unflagged leaf: the built
/// entries are exactly the flagged positions.)
pub proof fn lemma_proof_round_trip(leaves: Seq<Seq<u8>>, mask: Seq<bool>)
    requires
        leaves.len() >= 1,
        mask.len() == leaves.len(),
    ensures
        forall|j: int|
            0 <= j < mask.len() && mask[j] ==> fold_path(
                leaves[j],
                j,
                path_of(leaves, j, tree_height(leaves.len())),
            ) == merkle_root_of(leaves),
{
    let h = tree_height(leaves.len());
    lemma_top_level_is_root(leaves);
    assert forall|j: int| 0 <= j < mask.len() && mask[j] implies fold_path(
        leaves[j],
        j,
        path_of(leaves, j, h),
    ) == merkle_root_of(leaves) by {
        lemma_fold_climbs(leaves, j, h);
        assert(halve(j, h) == 0);
    }
}

/// One flagged transaction's evidence: its block position, its hash, and its
/// authentication path.
pub struct ProofEntry {
    /// The transaction's position in the block.
    pub index: usize,
    /// The transaction's hash.
    pub hash: BtcHash,
    /// The sibling at each level, from the leaves up.
    pub path: Vec<BtcHash>,
}

/// The compact inclusion proof of a block's relevant transactions.
pub struct InclusionProof {
    /// How many transactions the block holds.
    pub leaf_count: usize,
    /// One entry per relevant transaction, in block order.
    pub entries: Vec<ProofEntry>,
}

/// The evidence bundle attached to one pushed transaction.
pub struct RelayedTxInfo {
    /// The confirmed block's hash.
    pub block_hash: BtcHash,
    /// The inclusion proof of the block's relevant transactions.
    pub merkle_proof: InclusionProof,
}

/// Whether one proof entry stands: its position is in the block, its path
/// spans the whole tree, and folding it from the entry's hash yields the
/// root.
pub open spec fn entry_ok(e: ProofEntry, root: Seq<u8>, n: nat) -> bool {
    &&& e.index < n
    &&& e.path@.len() == tree_height(n)
    &&& fold_path(e.hash@, e.index as int, hash_views(e.path@)) == root
}

/// Copy a list of hashes.
fn clone_hashes(v: &Vec<BtcHash>) -> (r: Vec<BtcHash>)
    ensures
        r@.len() == v@.len(),
        hash_views(r@) =~= hash_views(v@),
{
    let mut r: Vec<BtcHash> = Vec::new();
    let mut i: usize = 0;
    while i < v.len()
        invariant
            0 <= i <= v@.len(),
            r@.len() == i,
            forall|k: int| 0 <= k < i ==> r@[k]@ == v@[k]@,
        decreases v@.len() - i,
    {
        r.push(v[i].clone());
        i += 1;
    }
    proof {
        assert(hash_views(r@) =~= hash_views(v@));
    }
    r
}

/// Pair a level up into the level above it.
fn next_level_exec(level: &Vec<BtcHash>) -> (r: Vec<BtcHash>)
    requires
        level@.len() >= 1,
    ensures
        hash_views(r@) =~= next_level(hash_views(level@)),
{
    let n = level.len();
    let half = n / 2 + n % 2;
    let mut r: Vec<BtcHash> = Vec::new();
    let mut i: usize = 0;
    while i < half
        invariant
            0 <= i <= half,
            half == (level@.len() + 1) / 2,
            n == level@.len(),
            r@.len() == i,
            forall|k: int| 0 <= k < i ==> r@[k]@ == next_level(hash_views(level@))[k],
        decreases half - i,
    {
        let left = &level[2 * i];
        let right = if 2 * i + 1 < n {
            &level[2 * i + 1]
        } else {
            &level[2 * i]
        };
        let node = combine(left, right);
        r.push(node);
        i += 1;
    }
    proof {
        assert(hash_views(r@) =~= next_level(hash_views(level@)));
    }
    r
}

/// The merkle root over a block's transaction hashes.
pub fn merkle_root(hashes: &Vec<BtcHash>) -> (r: BtcHash)
    requires
        hashes@.len() >= 1,
    ensures
        r@ == merkle_root_of(hash_views(hashes@)),
{
    let ghost leaves = hash_views(hashes@);
    let mut cur = clone_hashes(hashes);
    let ghost mut h: nat = 0nat;
    while cur.len() > 1
        invariant
            cur@.len() >= 1,
            hash_views(cur@) == level_at(leaves, h),
            leaves.len() >= 1,
            tree_height(leaves.len()) == h + tree_height(cur@.len()),
        decreases cur@.len(),
    {
        let next = next_level_exec(&cur);
        proof {
            h = h + 1;
        }
        cur = next;
    }
    let root = cur[0].clone();
    proof {
        assert(tree_height(cur@.len()) == 0);
        assert(hash_views(cur@)[0] == cur@[0]@);
    }
    root
}

/// Build the inclusion proof over a block's aligned hash list and relevance
/// mask: one entry, with its authentication path, for exactly each flagged
/// position, in block order.
pub fn build_inclusion_proof(hashes: &Vec<BtcHash>, mask: &Vec<bool>) -> (p: InclusionProof)
    requires
        hashes@.len() >= 1,
        mask@.len() == hashes@.len(),
    ensures
        p.leaf_count == hashes@.len(),
        p.entries@.map_values(|e: ProofEntry| e.index as int) == queued_of(mask@),
        forall|k: int|
            0 <= k < p.entries@.len() ==> {
                let e = #[trigger] p.entries@[k];
                &&& e.index < hashes@.len()
                &&& e.hash@ == hash_views(hashes@)[e.index as int]
                &&& hash_views(e.path@) == path_of(
                    hash_views(hashes@),
                    e.index as int,
                    tree_height(hashes@.len()),
                )
            },
{
    let ghost leaves = hash_views(hashes@);
    let n = hashes.len();

    // Build and keep every level of the tree.
    let mut levels: Vec<Vec<BtcHash>> = Vec::new();
    let mut cur = clone_hashes(hashes);
    while cur.len() > 1
        invariant
            cur@.len() >= 1,
            leaves.len() >= 1,
            hash_views(cur@) == level_at(leaves, levels@.len() as nat),
            forall|t: int|
                0 <= t < levels@.len() ==> hash_views(#[trigger] levels@[t]@) == level_at(
                    leaves,
                    t as nat,
                ) && levels@[t]@.len() >= 2,
            tree_height(leaves.len()) == levels@.len() + tree_height(cur@.len()),
        decreases cur@.len(),
    {
        let next = next_level_exec(&cur);
        levels.push(cur);
        cur = next;
    }
    let ghost height = levels@.len() as nat;
    proof {
        assert(tree_height(cur@.len()) == 0);
        assert(tree_height(leaves.len()) == height);
    }

    // One entry per flagged position.
    let mut entries: Vec<ProofEntry> = Vec::new();
    let mut j: usize = 0;
    while j < n
        invariant
            0 <= j <= n,
            n == hashes@.len(),
            n == mask@.len(),
            leaves == hash_views(hashes@),
            leaves.len() == n,
            height == tree_height(leaves.len()),
            levels@.len() == height,
            forall|t: int|
                0 <= t < levels@.len() ==> hash_views(#[trigger] levels@[t]@) == level_at(
                    leaves,
                    t as nat,
                ) && levels@[t]@.len() >= 2,
            entries@.map_values(|e: ProofEntry| e.index as int) == queued_of(mask@.take(j as int)),
            forall|k: int|
                0 <= k < entries@.len() ==> {
                    let e = #[trigger] entries@[k];
                    &&& e.index < n
                    &&& e.hash@ == leaves[e.index as int]
                    &&& hash_views(e.path@) == path_of(leaves, e.index as int, height)
                },
        decreases n - j,
    {
        if mask[j] {
            // Walk the levels, collecting the sibling at each.
            let mut path: Vec<BtcHash> = Vec::new();
            let mut pos = j;
            let mut t: usize = 0;
            while t < levels.len()
                invariant
                    0 <= t <= levels@.len(),
                    levels@.len() == height,
                    leaves.len() >= 1,
                    j < leaves.len(),
                    forall|u: int|
                        0 <= u < levels@.len() ==> hash_views(#[trigger] levels@[u]@) == level_at(
                            leaves,
                            u as nat,
                        ) && levels@[u]@.len() >= 2,
                    pos == halve(j as int, t as nat),
                    0 <= pos < level_at(leaves, t as nat).len(),
                    path_of(leaves, j as int, height) == hash_views(path@) + path_of(
                        level_at(leaves, t as nat),
                        pos as int,
                        (height - t) as nat,
                    ),
                decreases levels@.len() - t,
            {
                let level = &levels[t];
                let len = level.len();
                let sib = if pos % 2 == 0 {
                    if pos + 1 < len {
                        pos + 1
                    } else {
                        pos
                    }
                } else {
                    pos - 1
                };
                let ghost old_path = path@;
                path.push(level[sib].clone());
                proof {
                    let lv = level_at(leaves, t as nat);
                    assert(sib as int == sibling_index(pos as int, lv.len() as int));
                    assert(path_of(lv, pos as int, (height - t) as nat) == seq![
                        lv[sib as int],
                    ] + path_of(next_level(lv), pos as int / 2, (height - t - 1) as nat));
                    assert(next_level(lv) == level_at(leaves, (t + 1) as nat));
                    assert(hash_views(path@) =~= hash_views(old_path).push(lv[sib as int]));
                    assert(hash_views(path@) + path_of(
                        level_at(leaves, (t + 1) as nat),
                        pos as int / 2,
                        (height - t - 1) as nat,
                    ) =~= hash_views(old_path) + path_of(lv, pos as int, (height - t) as nat));
                    assert(0 <= pos as int / 2 < next_level(lv).len());
                    lemma_halve_snoc(j as int, t as nat);
                }
                pos = pos / 2;
                t += 1;
            }
            proof {
                assert(path_of(leaves, j as int, height) =~= hash_views(path@) + path_of(
                    level_at(leaves, height),
                    pos as int,
                    0nat,
                ));
                assert(path_of(level_at(leaves, height), pos as int, 0nat) =~= Seq::<
                    Seq<u8>,
                >::empty());
                assert(path_of(leaves, j as int, height) =~= hash_views(path@));
            }
            let ghost old_entries = entries@;
            let entry = ProofEntry { index: j, hash: hashes[j].clone(), path };
            entries.push(entry);
            proof {
                assert(mask@.take(j + 1).drop_last() =~= mask@.take(j as int));
                assert(entries@.map_values(|e: ProofEntry| e.index as int) =~= queued_of(
                    mask@.take(j + 1),
                ));
            }
        } else {
            proof {
                assert(mask@.take(j + 1).drop_last() =~= mask@.take(j as int));
                assert(entries@.map_values(|e: ProofEntry| e.index as int) =~= queued_of(
                    mask@.take(j + 1),
                ));
            }
        }
        j += 1;
    }
    proof {
        assert(mask@.take(n as int) =~= mask@);
    }
    InclusionProof { leaf_count: n, entries }
}

/// Fold one entry's path from its hash up to a root candidate.
fn fold_entry(e: &ProofEntry) -> (r: BtcHash)
    ensures
        r@ == fold_path(e.hash@, e.index as int, hash_views(e.path@)),
{
    let mut cur = e.hash.clone();
    let mut pos = e.index;
    let mut k: usize = 0;
    let ghost full = hash_views(e.path@);
    proof {
        assert(full.skip(0) =~= full);
    }
    while k < e.path.len()
        invariant
            0 <= k <= e.path@.len(),
            full == hash_views(e.path@),
            fold_path(e.hash@, e.index as int, full) == fold_path(
                cur@,
                pos as int,
                full.skip(k as int),
            ),
        decreases e.path@.len() - k,
    {
        let sib = &e.path[k];
        let ghost rem = full.skip(k as int);
        let next = if pos % 2 == 0 {
            combine(&cur, sib)
        } else {
            combine(sib, &cur)
        };
        proof {
            assert(rem[0] == full[k as int]);
            assert(full[k as int] == e.path@[k as int]@);
            assert(rem.subrange(1, rem.len() as int) =~= full.skip(k + 1));
        }
        cur = next;
        pos = pos / 2;
        k += 1;
    }
    proof {
        assert(full.skip(k as int) =~= Seq::<Seq<u8>>::empty());
    }
    cur
}

/// The height of the tree over `n` leaves.
fn tree_height_exec(n: usize) -> (h: usize)
    requires
        n >= 1,
    ensures
        h == tree_height(n as nat),
{
    let mut m = n;
    let mut h: usize = 0;
    proof {
        lemma_tree_height_le(n as nat);
    }
    while m > 1
        invariant
            1 <= m <= n,
            tree_height(n as nat) == h + tree_height(m as nat),
            tree_height(n as nat) <= n,
        decreases m,
    {
        proof {
            assert(tree_height(m as nat) == 1 + tree_height(((m + 1) / 2) as nat));
            assert((m + 1) / 2 == m / 2 + m % 2);
        }
        m = m / 2 + m % 2;
        h += 1;
    }
    h
}

/// Verify an inclusion proof against a root: every entry must name a position
/// in the block, span the whole tree, and fold back to the root.
pub fn verify_inclusion_proof(proof: &InclusionProof, root: &BtcHash) -> (r: bool)
    requires
        proof.leaf_count >= 1,
    ensures
        r == forall|k: int|
            0 <= k < proof.entries@.len() ==> entry_ok(
                #[trigger] proof.entries@[k],
                root@,
                proof.leaf_count as nat,
            ),
{
    let height = tree_height_exec(proof.leaf_count);
    let mut k: usize = 0;
    while k < proof.entries.len()
        invariant
            0 <= k <= proof.entries@.len(),
            height == tree_height(proof.leaf_count as nat),
            forall|t: int|
                0 <= t < k ==> entry_ok(
                    #[trigger] proof.entries@[t],
                    root@,
                    proof.leaf_count as nat,
                ),
        decreases proof.entries@.len() - k,
    {
        let e = &proof.entries[k];
        if e.index >= proof.leaf_count {
            return false;
        }
        if e.path.len() != height {
            return false;
        }
        let folded = fold_entry(e);
        if !folded.equals(root) {
            return false;
        }
        k += 1;
    }
    true
}

} // verus!
