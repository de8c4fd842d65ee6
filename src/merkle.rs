//! The Merkle tree over leaf hashes: levels, roots, inclusion paths and their check.
//!
//! A parent's hash is the digest of the concatenated hex text of its two children.
//! An odd node at the end of a level is paired with itself.
use vstd::prelude::*;
use vstd::string::StringExecFns;
use crate::hashing::{hash_text, text_digest};
use crate::inclusion::{MerkleProof, string_views};

verus! {

/// Hash of an internal node with children `l` and `r`.
pub open spec fn combine(l: Seq<char>, r: Seq<char>) -> Seq<char> {
    text_digest(l + r)
}

/// Right partner of the `i`-th pair of a level: the node itself when it stands alone.
pub open spec fn pair_right(level: Seq<Seq<char>>, i: int) -> Seq<char> {
    if 2 * i + 1 < level.len() {
        level[2 * i + 1]
    } else {
        level[2 * i]
    }
}

/// The level above `level`.
pub open spec fn next_level(level: Seq<Seq<char>>) -> Seq<Seq<char>> {
    Seq::new(((level.len() + 1) / 2) as nat, |i: int| combine(level[2 * i], pair_right(level, i)))
}

/// The root of the tree whose lowest level is `level` (which must not be empty).
pub open spec fn root_of(level: Seq<Seq<char>>) -> Seq<char>
    decreases level.len(),
{
    if level.len() <= 1 {
        level[0]
    } else {
        root_of(next_level(level))
    }
}

/// The number of levels of the tree whose lowest level is `level`.
pub open spec fn height_of(level: Seq<Seq<char>>) -> nat
    decreases level.len(),
{
    if level.len() <= 1 {
        1
    } else {
        1 + height_of(next_level(level))
    }
}

/// The neighbour of position `i`, or the node itself past the end of the level.
pub open spec fn sibling(level: Seq<Seq<char>>, i: int) -> Seq<char> {
    if i % 2 == 0 {
        if i + 1 < level.len() {
            level[i + 1]
        } else {
            level[i]
        }
    } else {
        level[i - 1]
    }
}

/// Sibling hashes met on the way from position `i` to the root.
pub open spec fn path_hashes(level: Seq<Seq<char>>, i: int) -> Seq<Seq<char>>
    decreases level.len(),
{
    if level.len() <= 1 {
        Seq::empty()
    } else {
        seq![sibling(level, i)] + path_hashes(next_level(level), i / 2)
    }
}

/// For each sibling on the way from position `i` to the root, whether it stands on the right.
pub open spec fn path_dirs(level: Seq<Seq<char>>, i: int) -> Seq<bool>
    decreases level.len(),
{
    if level.len() <= 1 {
        Seq::empty()
    } else {
        seq![i % 2 == 0] + path_dirs(next_level(level), i / 2)
    }
}

/// Every hash of the tree whose lowest level is `level`, level by level from the leaves up.
pub open spec fn tree_hashes(level: Seq<Seq<char>>) -> Seq<Seq<char>>
    decreases level.len(),
{
    if level.len() <= 1 {
        level
    } else {
        level + tree_hashes(next_level(level))
    }
}

/// The leaves open the list of a tree's hashes.
pub proof fn lemma_tree_hashes_start(level: Seq<Seq<char>>)
    ensures
        tree_hashes(level).len() >= level.len(),
        forall|i: int| 0 <= i < level.len() ==> #[trigger] tree_hashes(level)[i] == level[i],
{
    if level.len() > 1 {
        assert(tree_hashes(level) == level + tree_hashes(next_level(level)));
    }
}

/// One step of proof checking.
pub open spec fn fold_step(cur: Seq<char>, sib: Seq<char>, right: bool) -> Seq<char> {
    if right {
        combine(cur, sib)
    } else {
        combine(sib, cur)
    }
}

/// The hash reached from `cur` by folding in the siblings; extra entries of the longer
/// list are ignored.
pub open spec fn fold_path(cur: Seq<char>, hashes: Seq<Seq<char>>, dirs: Seq<bool>) -> Seq<char>
    decreases hashes.len(),
{
    if hashes.len() == 0 || dirs.len() == 0 {
        cur
    } else {
        fold_path(fold_step(cur, hashes[0], dirs[0]), hashes.drop_first(), dirs.drop_first())
    }
}

/// Whether a proof checks out.
pub open spec fn proof_holds(p: MerkleProof) -> bool {
    fold_path(p.leaf_hash@, string_views(p.proof_hashes@), p.proof_directions@) == p.root_hash@
}

/// The proof that the generator gives for position `i` of the leaves `level`.
pub open spec fn proof_matches(p: MerkleProof, level: Seq<Seq<char>>, i: int) -> bool {
    &&& p.leaf_hash@ == level[i]
    &&& p.root_hash@ == root_of(level)
    &&& string_views(p.proof_hashes@) == path_hashes(level, i)
    &&& p.proof_directions@ == path_dirs(level, i)
    &&& p.leaf_index == i
}

proof fn lemma_next_level_shorter(level: Seq<Seq<char>>)
    requires
        level.len() > 1,
    ensures
        next_level(level).len() < level.len(),
        next_level(level).len() >= 1,
{
}

/// The number of levels never exceeds the number of leaves.
pub proof fn lemma_height_bounded(level: Seq<Seq<char>>)
    requires
        level.len() >= 1,
    ensures
        height_of(level) <= level.len(),
    decreases level.len(),
{
    if level.len() > 1 {
        lemma_next_level_shorter(level);
        lemma_height_bounded(next_level(level));
    }
}

/// Folding the generated path from any leaf reaches the root.
pub proof fn lemma_path_reaches_root(level: Seq<Seq<char>>, i: int)
    requires
        0 <= i < level.len(),
    ensures
        fold_path(level[i], path_hashes(level, i), path_dirs(level, i)) == root_of(level),
    decreases level.len(),
{
    if level.len() > 1 {
        let nl = next_level(level);
        lemma_next_level_shorter(level);
        assert(fold_step(level[i], sibling(level, i), i % 2 == 0) == nl[i / 2]);
        lemma_path_reaches_root(nl, i / 2);
        assert(path_hashes(level, i).drop_first() =~= path_hashes(nl, i / 2));
        assert(path_dirs(level, i).drop_first() =~= path_dirs(nl, i / 2));
    }
}

/// Every proof produced for a leaf of the tree verifies.
pub proof fn lemma_generated_proof_verifies(p: MerkleProof, level: Seq<Seq<char>>, i: int)
    requires
        0 <= i < level.len(),
        proof_matches(p, level, i),
    ensures
        proof_holds(p),
{
    lemma_path_reaches_root(level, i);
}

/// A proof that verifies against one root fails against every other root.
pub proof fn lemma_other_root_fails(p: MerkleProof, q: MerkleProof)
    requires
        proof_holds(p),
        q.leaf_hash@ == p.leaf_hash@,
        q.proof_hashes@ == p.proof_hashes@,
        q.proof_directions@ == p.proof_directions@,
        q.root_hash@ != p.root_hash@,
    ensures
        !proof_holds(q),
{
}

/// Computes the hash of an internal node from its children.
pub fn node_hash(left: &String, right: &String) -> (r: String)
    ensures
        r@ == combine(left@, right@),
        r@.len() == 64,
{
    let mut c = left.clone();
    c.append(right.as_str());
    hash_text(c.as_str())
}

/// Verifies a proof: folds each sibling hash into the running hash, on the side its
/// direction gives, and compares the result with the root.
pub fn verify_proof(proof: &MerkleProof) -> (r: bool)
    ensures
        r == proof_holds(*proof),
{
    let ghost hs = string_views(proof.proof_hashes@);
    let ghost ds = proof.proof_directions@;
    let mut current = proof.leaf_hash.clone();
    let mut i: usize = 0;
    assert(hs.subrange(0, hs.len() as int) =~= hs);
    assert(ds.subrange(0, ds.len() as int) =~= ds);
    while i < proof.proof_hashes.len() && i < proof.proof_directions.len()
        invariant
            i <= hs.len(),
            i <= ds.len(),
            hs == string_views(proof.proof_hashes@),
            ds == proof.proof_directions@,
            fold_path(proof.leaf_hash@, hs, ds) == fold_path(
                current@,
                hs.subrange(i as int, hs.len() as int),
                ds.subrange(i as int, ds.len() as int),
            ),
        decreases hs.len() - i,
    {
        let ghost rest_h = hs.subrange(i as int, hs.len() as int);
        let ghost rest_d = ds.subrange(i as int, ds.len() as int);
        let sib = &proof.proof_hashes[i];
        let next = if proof.proof_directions[i] {
            node_hash(&current, sib)
        } else {
            node_hash(sib, &current)
        };
        assert(rest_h.drop_first() =~= hs.subrange(i + 1, hs.len() as int));
        assert(rest_d.drop_first() =~= ds.subrange(i + 1, ds.len() as int));
        current = next;
        i = i + 1;
    }
    let ghost rest_h = hs.subrange(i as int, hs.len() as int);
    let ghost rest_d = ds.subrange(i as int, ds.len() as int);
    assert(rest_h.len() == 0 || rest_d.len() == 0);
    current == proof.root_hash
}

/// Copies a list of strings.
pub fn copy_strings(v: &Vec<String>) -> (r: Vec<String>)
    ensures
        r@.len() == v@.len(),
        string_views(r@) == string_views(v@),
{
    let mut r: Vec<String> = Vec::new();
    let mut i: usize = 0;
    while i < v.len()
        invariant
            i <= v@.len(),
            r@.len() == i,
            forall|k: int| 0 <= k < i ==> (#[trigger] r@[k])@ == v@[k]@,
        decreases v@.len() - i,
    {
        r.push(v[i].clone());
        i = i + 1;
    }
    assert(string_views(r@) =~= string_views(v@));
    r
}

/// Computes the level above `level`, pairing an odd last node with itself.
pub fn build_next_level(level: &Vec<String>) -> (r: Vec<String>)
    ensures
        r@.len() == (level@.len() + 1) / 2,
        string_views(r@) == next_level(string_views(level@)),
        forall|k: int| 0 <= k < r@.len() ==> (#[trigger] r@[k])@.len() == 64,
{
    let ghost lv = string_views(level@);
    let n = level.len();
    let mut next: Vec<String> = Vec::new();
    let mut i: usize = 0;
    while i < n
        invariant
            n == level@.len(),
            lv == string_views(level@),
            i <= n,
            i % 2 == 0 || i == n,
            next@.len() == (i + 1) / 2,
            forall|k: int|
                0 <= k < next@.len() ==> (#[trigger] next@[k])@ == combine(
                    lv[2 * k],
                    pair_right(lv, k),
                ) && next@[k]@.len() == 64,
        decreases n - i,
    {
        let h = if n - i > 1 {
            node_hash(&level[i], &level[i + 1])
        } else {
            node_hash(&level[i], &level[i])
        };
        next.push(h);
        if n - i > 1 {
            i = i + 2;
        } else {
            i = n;
        }
    }
    assert(string_views(next@) =~= next_level(lv));
    next
}

/// Builds the inclusion proof for position `leaf_index` of `leaves`.
pub fn build_proof(leaves: &Vec<String>, leaf_index: usize) -> (p: MerkleProof)
    requires
        leaf_index < leaves@.len(),
    ensures
        proof_matches(p, string_views(leaves@), leaf_index as int),
{
    let ghost lv0 = string_views(leaves@);
    let mut level = copy_strings(leaves);
    let mut idx = leaf_index;
    let mut hashes: Vec<String> = Vec::new();
    let mut dirs: Vec<bool> = Vec::new();
    while level.len() > 1
        invariant
            idx < level@.len(),
            path_hashes(lv0, leaf_index as int) == string_views(hashes@) + path_hashes(
                string_views(level@),
                idx as int,
            ),
            path_dirs(lv0, leaf_index as int) == dirs@ + path_dirs(string_views(level@), idx as int),
            root_of(lv0) == root_of(string_views(level@)),
        decreases level@.len(),
    {
        let ghost lv = string_views(level@);
        let sib = if idx % 2 == 0 {
            if idx + 1 < level.len() {
                level[idx + 1].clone()
            } else {
                level[idx].clone()
            }
        } else {
            level[idx - 1].clone()
        };
        assert(sib@ == sibling(lv, idx as int));
        let ghost old_hashes = string_views(hashes@);
        hashes.push(sib);
        dirs.push(idx % 2 == 0);
        let next = build_next_level(&level);
        proof {
            lemma_next_level_shorter(lv);
            assert(string_views(hashes@) =~= old_hashes.push(sibling(lv, idx as int)));
        }
        level = next;
        idx = idx / 2;
    }
    assert(path_hashes(string_views(level@), idx as int) =~= Seq::<Seq<char>>::empty());
    assert(string_views(hashes@) + Seq::<Seq<char>>::empty() =~= string_views(hashes@));
    assert(dirs@ + Seq::<bool>::empty() =~= dirs@);
    MerkleProof {
        leaf_hash: leaves[leaf_index].clone(),
        root_hash: level[0].clone(),
        proof_hashes: hashes,
        proof_directions: dirs,
        leaf_index,
    }
}

} // verus!
