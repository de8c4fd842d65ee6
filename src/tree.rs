//! The append-only Merkle log: nodes, root state, commits and proofs.
use vstd::prelude::*;
use vstd::string::StringExecFns;
use crate::hashing::{hash_text, text_digest};
use crate::inclusion::{MerkleProof, string_views};
use crate::merkle::{
    build_next_level, build_proof, combine, copy_strings, height_of, lemma_height_bounded,
    lemma_tree_hashes_start, next_level, proof_holds, proof_matches, root_of, tree_hashes,
    verify_proof,
};
use crate::text::str_equals;

verus! {

/// The two kinds of Merkle node.
#[derive(Debug, Clone, Copy, PartialEq, Eq, Structural)]
pub enum MerkleNodeType {
    Leaf,
    Internal,
}

impl MerkleNodeType {
    /// The stored name of the node type.
    pub open spec fn name(self) -> Seq<char> {
        match self {
            MerkleNodeType::Leaf => seq!['l', 'e', 'a', 'f'],
            MerkleNodeType::Internal => seq!['i', 'n', 't', 'e', 'r', 'n', 'a', 'l'],
        }
    }

    /// Returns "leaf" or "internal".
    pub fn as_str(&self) -> (r: &'static str)
        ensures
            r@ == self.name(),
    {
        proof {
            reveal_strlit("leaf");
            reveal_strlit("internal");
        }
        match self {
            MerkleNodeType::Leaf => "leaf",
            MerkleNodeType::Internal => "internal",
        }
    }

    /// Parses "leaf" or "internal"; any other text gives `None`.
    pub fn from_str(s: &str) -> (r: Option<MerkleNodeType>)
        ensures
            r matches Some(t) ==> t.name() == s@,
            r is None ==> s@ != MerkleNodeType::Leaf.name() && s@ != MerkleNodeType::Internal.name(),
    {
        proof {
            reveal_strlit("leaf");
            reveal_strlit("internal");
            assert("leaf"@ =~= MerkleNodeType::Leaf.name());
            assert("internal"@ =~= MerkleNodeType::Internal.name());
        }
        if str_equals(s, "leaf") {
            Some(MerkleNodeType::Leaf)
        } else if str_equals(s, "internal") {
            Some(MerkleNodeType::Internal)
        } else {
            None
        }
    }
}

/// A node of the tree, addressed by its hash.
#[derive(Debug)]
pub struct MerkleNode {
    pub hash: String,
    pub node_type: MerkleNodeType,
    pub left_child: Option<String>,
    pub right_child: Option<String>,
    pub payload: Option<String>,
    pub created_at: String,
}

/// The root record of the tree.
#[derive(Debug)]
pub struct MerkleRootState {
    pub root_hash: Option<String>,
    pub tree_height: u32,
    pub leaf_count: u32,
    pub updated_at: String,
}

/// Errors of the Merkle log.
#[derive(Debug)]
pub enum MerkleError {
    /// The persistent store failed.
    Database(String),
    /// A payload could not be encoded or decoded.
    Json(String),
    /// No node or leaf has the given hash.
    NodeNotFound(String),
    /// An operation's precondition on the tree failed.
    InvalidState(String),
}

/// Outcome of a commit.
#[derive(Debug)]
pub struct LeafCommit {
    pub leaf_hash: String,
    pub root_hash: String,
    pub proof: MerkleProof,
    pub tree_height: u32,
    pub leaf_count: u32,
}

/// Summary of the tree.
#[derive(Debug)]
pub struct TreeStats {
    pub root_hash: Option<String>,
    pub height: u32,
    pub leaf_count: u32,
}

/// An optional string's view.
pub open spec fn opt_view(o: Option<String>) -> Option<Seq<char>> {
    match o {
        Some(s) => Some(s@),
        None => None,
    }
}

/// The leaves after committing a leaf with hash `h`: unchanged when already present.
pub open spec fn after_commit(leaves: Seq<Seq<char>>, h: Seq<char>) -> Seq<Seq<char>> {
    if leaves.contains(h) {
        leaves
    } else {
        leaves.push(h)
    }
}

/// The hash of the leaf that holds `payload`.
pub open spec fn leaf_hash_of(payload: Seq<char>) -> Seq<char> {
    text_digest(payload)
}

/// What a successful commit of `payload` reports, given the leaves before and after it.
pub open spec fn commit_outcome(
    before: Seq<Seq<char>>,
    payload: Seq<char>,
    c: LeafCommit,
    after: Seq<Seq<char>>,
) -> bool {
    let h = leaf_hash_of(payload);
    &&& c.leaf_hash@ == h
    &&& after == after_commit(before, h)
    &&& c.leaf_count as nat == after.len()
    &&& c.root_hash@ == root_of(after)
    &&& c.tree_height as nat == height_of(after)
}

/// Committing the same payload a second time changes no leaf and reports the same leaf
/// hash, root hash, leaf count and height as the first time.
pub proof fn lemma_commit_idempotent(
    l0: Seq<Seq<char>>,
    payload: Seq<char>,
    c1: LeafCommit,
    l1: Seq<Seq<char>>,
    c2: LeafCommit,
    l2: Seq<Seq<char>>,
)
    requires
        commit_outcome(l0, payload, c1, l1),
        commit_outcome(l1, payload, c2, l2),
    ensures
        l2 == l1,
        c2.leaf_hash@ == c1.leaf_hash@,
        c2.root_hash@ == c1.root_hash@,
        c2.leaf_count == c1.leaf_count,
        c2.tree_height == c1.tree_height,
{
    let h = leaf_hash_of(payload);
    if !l0.contains(h) {
        assert(l1[l0.len() as int] == h);
    }
    assert(l1.contains(h));
}

/// A commit keeps every earlier leaf at its position.
pub proof fn lemma_commit_keeps_leaves(leaves: Seq<Seq<char>>, h: Seq<char>)
    ensures
        leaves.len() <= after_commit(leaves, h).len(),
        forall|i: int| 0 <= i < leaves.len() ==> after_commit(leaves, h)[i] == leaves[i],
{
}

/// A stored node's contents agree with its type and hash: a leaf holds a payload, has no
/// children and is addressed by the payload's digest; an internal node holds no payload,
/// has a left child and is addressed by the digest of its children's hashes, the left
/// one standing in for a missing right one.
pub open spec fn node_ok(n: MerkleNode) -> bool {
    match n.node_type {
        MerkleNodeType::Leaf => {
            &&& n.left_child is None
            &&& n.right_child is None
            &&& n.payload matches Some(p) && n.hash@ == leaf_hash_of(p@)
        },
        MerkleNodeType::Internal => {
            &&& n.payload is None
            &&& n.left_child matches Some(l) && n.hash@ == combine(
                l@,
                match n.right_child {
                    Some(r) => r@,
                    None => l@,
                },
            )
        },
    }
}

/// Copies an optional string.
pub fn copy_opt(o: &Option<String>) -> (r: Option<String>)
    ensures
        opt_view(r) == opt_view(*o),
{
    match o {
        Some(s) => Some(s.clone()),
        None => None,
    }
}

/// Two nodes with the same contents.
pub open spec fn same_node(a: MerkleNode, b: MerkleNode) -> bool {
    &&& a.hash@ == b.hash@
    &&& a.node_type == b.node_type
    &&& opt_view(a.left_child) == opt_view(b.left_child)
    &&& opt_view(a.right_child) == opt_view(b.right_child)
    &&& opt_view(a.payload) == opt_view(b.payload)
    &&& a.created_at@ == b.created_at@
}

/// Copies a node.
pub fn copy_node(n: &MerkleNode) -> (r: MerkleNode)
    ensures
        same_node(r, *n),
{
    MerkleNode {
        hash: n.hash.clone(),
        node_type: n.node_type,
        left_child: copy_opt(&n.left_child),
        right_child: copy_opt(&n.right_child),
        payload: copy_opt(&n.payload),
        created_at: n.created_at.clone(),
    }
}

/// A node stays findable when every earlier node is kept.
pub proof fn lemma_kept_has_node(a: MerkleTree, b: MerkleTree, h: Seq<char>)
    requires
        a.nodes_kept_in(&b),
        a.has_node(h),
    ensures
        b.has_node(h),
{
    let i = choose|i: int| 0 <= i < a.node_seq().len() && (#[trigger] a.node_seq()[i]).hash@ == h;
    assert(b.node_seq()[i] == a.node_seq()[i]);
}

/// Stored hashes stay stored when every earlier node is kept.
pub proof fn lemma_kept_stores_all(a: MerkleTree, b: MerkleTree, hs: Seq<Seq<char>>)
    requires
        a.nodes_kept_in(&b),
        a.stores_all(hs),
    ensures
        b.stores_all(hs),
{
    assert forall|i: int| 0 <= i < hs.len() implies #[trigger] b.has_node(hs[i]) by {
        lemma_kept_has_node(a, b, hs[i]);
    }
}

/// Two stored lists make a stored list.
pub proof fn lemma_stores_all_concat(t: MerkleTree, xs: Seq<Seq<char>>, ys: Seq<Seq<char>>)
    requires
        t.stores_all(xs),
        t.stores_all(ys),
    ensures
        t.stores_all(xs + ys),
{
    assert forall|i: int| 0 <= i < (xs + ys).len() implies #[trigger] t.has_node((xs + ys)[i]) by {
        if i < xs.len() {
            assert((xs + ys)[i] == xs[i]);
        } else {
            assert((xs + ys)[i] == ys[i - xs.len()]);
        }
    }
}

/// The Merkle log with its nodes, its leaves in insertion order and its root record.
pub struct MerkleTree {
    nodes: Vec<MerkleNode>,
    leaves: Vec<String>,
    root: MerkleRootState,
}

impl MerkleTree {
    /// The stored nodes, in insertion order.
    pub closed spec fn node_seq(&self) -> Seq<MerkleNode> {
        self.nodes@
    }

    /// The leaf hashes, in insertion order.
    pub closed spec fn leaf_seq(&self) -> Seq<Seq<char>> {
        string_views(self.leaves@)
    }

    /// The current root hash, if any.
    pub closed spec fn root_view(&self) -> Option<Seq<char>> {
        opt_view(self.root.root_hash)
    }

    /// The recorded height.
    pub closed spec fn height_view(&self) -> u32 {
        self.root.tree_height
    }

    /// The recorded number of leaves.
    pub closed spec fn count_view(&self) -> u32 {
        self.root.leaf_count
    }

    /// Whether some node has hash `h`.
    pub open spec fn has_node(&self, h: Seq<char>) -> bool {
        exists|i: int| 0 <= i < self.node_seq().len() && (#[trigger] self.node_seq()[i]).hash@ == h
    }

    /// Whether `later` holds every node of `self`, unchanged and at the same position.
    pub open spec fn nodes_kept_in(&self, later: &MerkleTree) -> bool {
        &&& self.node_seq().len() <= later.node_seq().len()
        &&& forall|i: int|
            0 <= i < self.node_seq().len() ==> (#[trigger] later.node_seq()[i]) == self.node_seq()[i]
    }

    /// Every hash in `hs` has a stored node.
    pub open spec fn stores_all(&self, hs: Seq<Seq<char>>) -> bool {
        forall|i: int| 0 <= i < hs.len() ==> #[trigger] self.has_node(hs[i])
    }

    /// No two stored nodes share a hash.
    pub open spec fn nodes_distinct(&self) -> bool {
        forall|i: int, j: int|
            0 <= i < j < self.node_seq().len() ==> (#[trigger] self.node_seq()[i]).hash@
                != (#[trigger] self.node_seq()[j]).hash@
    }

    /// Node hashes are distinct and every node's contents agree with its type and hash.
    pub open spec fn nodes_valid(&self) -> bool {
        &&& self.nodes_distinct()
        &&& forall|i: int| 0 <= i < self.node_seq().len() ==> node_ok(#[trigger] self.node_seq()[i])
    }

    /// The root record agrees with the leaves; leaf hashes are distinct, 64 hex digits
    /// long, and so is the root; nodes are valid; and every hash of the tree is stored.
    pub open spec fn wf(&self) -> bool {
        &&& self.leaf_seq().len() == self.count_view() as nat
        &&& self.leaf_seq().no_duplicates()
        &&& (self.leaf_seq().len() == 0 ==> self.root_view() is None && self.height_view() == 0)
        &&& (self.leaf_seq().len() > 0 ==> {
            &&& self.root_view() == Some(root_of(self.leaf_seq()))
            &&& self.height_view() as nat == height_of(self.leaf_seq())
        })
        &&& forall|i: int, j: int|
            0 <= i < j < self.node_seq().len() ==> (#[trigger] self.node_seq()[i]).hash@
                != (#[trigger] self.node_seq()[j]).hash@
        &&& self.nodes_valid()
        &&& forall|i: int| 0 <= i < self.leaf_seq().len() ==> (#[trigger] self.leaf_seq()[i]).len() == 64
        &&& (self.leaf_seq().len() > 0 ==> root_of(self.leaf_seq()).len() == 64)
        &&& self.stores_all(tree_hashes(self.leaf_seq()))
    }

    /// An empty log.
    pub fn new() -> (r: MerkleTree)
        ensures
            r.wf(),
            r.node_seq().len() == 0,
            r.leaf_seq().len() == 0,
    {
        let r = MerkleTree {
            nodes: Vec::new(),
            leaves: Vec::new(),
            root: MerkleRootState {
                root_hash: None,
                tree_height: 0,
                leaf_count: 0,
                updated_at: String::new(),
            },
        };
        assert(r.leaf_seq() =~= Seq::<Seq<char>>::empty());
        assert(tree_hashes(r.leaf_seq()) =~= Seq::<Seq<char>>::empty());
        r
    }

    /// Position of the node with hash `h`, if any.
    fn find_node(&self, h: &String) -> (r: Option<usize>)
        ensures
            r matches Some(i) ==> i < self.node_seq().len() && self.node_seq()[i as int].hash@ == h@,
            r is None ==> !self.has_node(h@),
    {
        let mut i: usize = 0;
        while i < self.nodes.len()
            invariant
                i <= self.nodes@.len(),
                forall|k: int| 0 <= k < i ==> (#[trigger] self.nodes@[k]).hash@ != h@,
            decreases self.nodes@.len() - i,
        {
            if self.nodes[i].hash == *h {
                return Some(i);
            }
            i = i + 1;
        }
        None
    }

    /// Position of the leaf with hash `h`, if any.
    fn find_leaf(&self, h: &String) -> (r: Option<usize>)
        ensures
            r matches Some(i) ==> i < self.leaf_seq().len() && self.leaf_seq()[i as int] == h@,
            r is None ==> !self.leaf_seq().contains(h@),
    {
        let mut i: usize = 0;
        while i < self.leaves.len()
            invariant
                i <= self.leaves@.len(),
                forall|k: int| 0 <= k < i ==> (#[trigger] self.leaves@[k])@ != h@,
            decreases self.leaves@.len() - i,
        {
            if self.leaves[i] == *h {
                return Some(i);
            }
            i = i + 1;
        }
        None
    }

    /// Whether a node with hash `hash` is stored.
    pub fn node_exists(&self, hash: &str) -> (r: bool)
        ensures
            r == self.has_node(hash@),
    {
        let h = String::from_str(hash);
        self.find_node(&h).is_some()
    }

    /// Appends a node whose hash is not yet stored.
    fn push_node(&mut self, node: MerkleNode)
        requires
            old(self).nodes_valid(),
            !old(self).has_node(node.hash@),
            node_ok(node),
        ensures
            final(self).nodes_valid(),
            final(self).node_seq() == old(self).node_seq().push(node),
            old(self).nodes_kept_in(final(self)),
            final(self).has_node(node.hash@),
            final(self).leaf_seq() == old(self).leaf_seq(),
            final(self).root_view() == old(self).root_view(),
            final(self).height_view() == old(self).height_view(),
            final(self).count_view() == old(self).count_view(),
    {
        let ghost before = self.nodes@;
        self.nodes.push(node);
        proof {
            assert forall|i: int, j: int|
                0 <= i < j < self.node_seq().len() implies (#[trigger] self.node_seq()[i]).hash@
                != (#[trigger] self.node_seq()[j]).hash@ by {
                if j == before.len() {
                    assert(self.node_seq()[i] == before[i]);
                }
            }
            assert(self.node_seq()[before.len() as int].hash@ == self.node_seq().last().hash@);
            assert forall|i: int| 0 <= i < self.node_seq().len() implies node_ok(#[trigger] self.node_seq()[i]) by {
                if i < before.len() {
                    assert(self.node_seq()[i] == before[i]);
                }
            }
        }
    }

    /// Stores the internal nodes that join `level` into `next`, skipping those present.
    fn store_level(&mut self, level: &Vec<String>, next: &Vec<String>, now: &String)
        requires
            old(self).nodes_valid(),
            string_views(next@) == next_level(string_views(level@)),
            next@.len() == (level@.len() + 1) / 2,
        ensures
            final(self).nodes_valid(),
            old(self).nodes_kept_in(final(self)),
            final(self).stores_all(string_views(next@)),
            final(self).leaf_seq() == old(self).leaf_seq(),
            final(self).root_view() == old(self).root_view(),
            final(self).height_view() == old(self).height_view(),
            final(self).count_view() == old(self).count_view(),
    {
        let ghost lv = string_views(level@);
        let ghost nv = string_views(next@);
        let n = level.len();
        let mut k: usize = 0;
        while k < next.len()
            invariant
                n == level@.len(),
                self.nodes_valid(),
                old(self).nodes_kept_in(self),
                self.stores_all(nv.subrange(0, k as int)),
                self.leaf_seq() == old(self).leaf_seq(),
                self.root_view() == old(self).root_view(),
                self.height_view() == old(self).height_view(),
                self.count_view() == old(self).count_view(),
                lv == string_views(level@),
                nv == string_views(next@),
                nv == next_level(lv),
                next@.len() == (level@.len() + 1) / 2,
                k <= next@.len(),
            decreases next@.len() - k,
        {
            let ghost snap = *self;
            assert(nv[k as int] == next@[k as int]@);
            match self.find_node(&next[k]) {
                Some(j) => {
                    assert(self.node_seq()[j as int].hash@ == nv[k as int]);
                },
                None => {
                    let left = level[2 * k].clone();
                    let right = if n - 2 * k > 1 {
                        Some(level[2 * k + 1].clone())
                    } else {
                        None
                    };
                    let node = MerkleNode {
                        hash: next[k].clone(),
                        node_type: MerkleNodeType::Internal,
                        left_child: Some(left),
                        right_child: right,
                        payload: None,
                        created_at: now.clone(),
                    };
                    self.push_node(node);
                },
            }
            proof {
                assert(snap.nodes_kept_in(self));
                assert(self.has_node(nv[k as int]));
                lemma_kept_stores_all(snap, *self, nv.subrange(0, k as int));
                assert(nv.subrange(0, k + 1) =~= nv.subrange(0, k as int).push(nv[k as int]));
                assert forall|i: int| 0 <= i < k + 1 implies #[trigger] self.has_node(
                    nv.subrange(0, k + 1)[i],
                ) by {
                    if i < k {
                        assert(nv.subrange(0, k + 1)[i] == nv.subrange(0, k as int)[i]);
                    }
                }
                assert forall|i: int| 0 <= i < old(self).node_seq().len() implies (#[trigger] self.node_seq()[i]) == old(self).node_seq()[i] by {
                    assert(snap.node_seq()[i] == old(self).node_seq()[i]);
                }
            }
            k = k + 1;
        }
        assert(nv.subrange(0, k as int) =~= nv);
    }

    /// Rebuilds the tree over all leaves, storing missing internal nodes; gives the root
    /// hash and the number of levels.
    fn build_tree(&mut self, now: &String) -> (r: (String, u32))
        requires
            old(self).nodes_valid(),
            old(self).stores_all(old(self).leaf_seq()),
            forall|i: int| 0 <= i < old(self).leaf_seq().len() ==> (#[trigger] old(self).leaf_seq()[i]).len() == 64,
            old(self).leaf_seq().len() >= 1,
            old(self).leaf_seq().len() < u32::MAX,
        ensures
            final(self).nodes_valid(),
            old(self).nodes_kept_in(final(self)),
            final(self).stores_all(tree_hashes(old(self).leaf_seq())),
            final(self).leaf_seq() == old(self).leaf_seq(),
            final(self).root_view() == old(self).root_view(),
            final(self).height_view() == old(self).height_view(),
            final(self).count_view() == old(self).count_view(),
            r.0@ == root_of(old(self).leaf_seq()),
            r.0@.len() == 64,
            r.1 as nat == height_of(old(self).leaf_seq()),
    {
        let ghost lv0 = self.leaf_seq();
        proof {
            lemma_height_bounded(lv0);
        }
        let mut level = copy_strings(&self.leaves);
        assert forall|k: int| 0 <= k < level@.len() implies (#[trigger] level@[k])@.len() == 64 by {
            assert(string_views(level@)[k] == level@[k]@);
            assert(lv0[k] == string_views(level@)[k]);
        }
        let mut height: u32 = 1;
        let ghost mut seen: Seq<Seq<char>> = Seq::empty();
        assert(tree_hashes(lv0) =~= seen + tree_hashes(string_views(level@)));
        while level.len() > 1
            invariant
                self.nodes_valid(),
                old(self).nodes_kept_in(self),
                self.leaf_seq() == lv0,
                lv0 == old(self).leaf_seq(),
                self.root_view() == old(self).root_view(),
                self.height_view() == old(self).height_view(),
                self.count_view() == old(self).count_view(),
                level@.len() >= 1,
                root_of(lv0) == root_of(string_views(level@)),
                height as nat + height_of(string_views(level@)) == height_of(lv0) + 1,
                height_of(lv0) <= lv0.len(),
                lv0.len() < u32::MAX,
                tree_hashes(lv0) == seen + tree_hashes(string_views(level@)),
                self.stores_all(seen),
                self.stores_all(string_views(level@)),
                forall|k: int| 0 <= k < level@.len() ==> (#[trigger] level@[k])@.len() == 64,
            decreases level@.len(),
        {
            let ghost lv = string_views(level@);
            let ghost snap = *self;
            let next = build_next_level(&level);
            self.store_level(&level, &next, now);
            proof {
                lemma_kept_stores_all(snap, *self, seen);
                lemma_kept_stores_all(snap, *self, lv);
                lemma_stores_all_concat(*self, seen, lv);
                assert(tree_hashes(lv) == lv + tree_hashes(next_level(lv)));
                assert(tree_hashes(lv0) =~= (seen + lv) + tree_hashes(string_views(next@)));
                seen = seen + lv;
                assert forall|i: int| 0 <= i < old(self).node_seq().len() implies (#[trigger] self.node_seq()[i]) == old(self).node_seq()[i] by {
                    assert(snap.node_seq()[i] == old(self).node_seq()[i]);
                }
            }
            level = next;
            height = height + 1;
        }
        proof {
            let lv = string_views(level@);
            assert(tree_hashes(lv) == lv);
            lemma_stores_all_concat(*self, seen, lv);
        }
        (level[0].clone(), height)
    }

    /// Commits a payload as a leaf. When a leaf with the same hash exists, nothing changes
    /// and the current state is reported; otherwise the leaf is appended, the tree is
    /// rebuilt over all leaves and the root record is replaced. Fails when the hash is
    /// held by an internal node, or when the leaf count would overflow.
    pub fn commit_payload(&mut self, payload: &str, now: &str) -> (r: Result<LeafCommit, MerkleError>)
        requires
            old(self).wf(),
        ensures
            final(self).wf(),
            old(self).nodes_kept_in(final(self)),
            r is Ok <==> (old(self).leaf_seq().contains(leaf_hash_of(payload@)) || (
            !old(self).has_node(leaf_hash_of(payload@)) && old(self).leaf_seq().len() + 1
                < u32::MAX)),
            r is Err ==> (r matches Err(MerkleError::InvalidState(_))),
            r is Err ==> final(self).leaf_seq() == old(self).leaf_seq() && final(self).node_seq()
                == old(self).node_seq(),
            r matches Ok(c) ==> commit_outcome(old(self).leaf_seq(), payload@, c, final(self).leaf_seq()),
            r matches Ok(c) ==> c.proof.leaf_hash@ == leaf_hash_of(payload@),
            old(self).leaf_seq().contains(leaf_hash_of(payload@)) ==> {
                &&& final(self).node_seq() == old(self).node_seq()
                &&& final(self).root_view() == old(self).root_view()
                &&& final(self).height_view() == old(self).height_view()
                &&& final(self).count_view() == old(self).count_view()
            },
            r matches Ok(c) ==> {
                let h = leaf_hash_of(payload@);
                let lv = final(self).leaf_seq();
                &&& c.leaf_hash@ == h
                &&& lv == after_commit(old(self).leaf_seq(), h)
                &&& c.leaf_count as nat == lv.len()
                &&& c.root_hash@ == root_of(lv)
                &&& c.tree_height as nat == height_of(lv)
                &&& final(self).root_view() == Some(root_of(lv))
                &&& c.proof.leaf_index < lv.len()
                &&& proof_matches(c.proof, lv, c.proof.leaf_index as int)
                &&& (!old(self).leaf_seq().contains(h) ==> {
                    &&& c.proof.leaf_index == old(self).leaf_seq().len()
                    &&& final(self).node_seq()[old(self).node_seq().len() as int].hash@ == h
                    &&& final(self).node_seq()[old(self).node_seq().len() as int].node_type
                        == MerkleNodeType::Leaf
                    &&& opt_view(final(self).node_seq()[old(self).node_seq().len() as int].payload)
                        == Some(payload@)
                })
            },
    {
        let leaf_hash = hash_text(payload);
        match self.find_leaf(&leaf_hash) {
            Some(i) => {
                let proof = build_proof(&self.leaves, i);
                let c = LeafCommit {
                    leaf_hash,
                    root_hash: proof.root_hash.clone(),
                    proof,
                    tree_height: self.root.tree_height,
                    leaf_count: self.root.leaf_count,
                };
                return Ok(c);
            },
            None => {},
        }
        if self.find_node(&leaf_hash).is_some() {
            return Err(MerkleError::InvalidState(String::from_str("hash already held by a node")));
        }
        if self.leaves.len() >= 4294967294 {
            return Err(MerkleError::InvalidState(String::from_str("leaf count limit reached")));
        }
        let ghost old_leaves = self.leaf_seq();
        let ghost old_len = self.nodes@.len();
        let ghost snap = *self;
        let node = MerkleNode {
            hash: leaf_hash.clone(),
            node_type: MerkleNodeType::Leaf,
            left_child: None,
            right_child: None,
            payload: Some(String::from_str(payload)),
            created_at: String::from_str(now),
        };
        self.push_node(node);
        self.leaves.push(leaf_hash.clone());
        let ghost lv = self.leaf_seq();
        proof {
            assert(lv =~= old_leaves.push(leaf_hash@));
            assert forall|i: int, j: int| 0 <= i < j < lv.len() implies lv[i] != lv[j] by {
                if j == old_leaves.len() {
                    assert(old_leaves.contains(old_leaves[i]));
                }
            }
            lemma_height_bounded(lv);
        }
        assert(self.leaf_seq().len() < u32::MAX);
        proof {
            lemma_tree_hashes_start(old_leaves);
            assert(snap.stores_all(old_leaves)) by {
                assert forall|i: int| 0 <= i < old_leaves.len() implies #[trigger] snap.has_node(old_leaves[i]) by {
                    assert(tree_hashes(old_leaves)[i] == old_leaves[i]);
                }
            }
            lemma_kept_stores_all(snap, *self, old_leaves);
            assert forall|i: int| 0 <= i < lv.len() implies #[trigger] self.has_node(lv[i]) by {
                if i < old_leaves.len() {
                    assert(lv[i] == old_leaves[i]);
                } else {
                    assert(lv[i] == leaf_hash@);
                }
            }
        }
        let now_s = String::from_str(now);
        let (root_hash, height) = self.build_tree(&now_s);
        let ghost built = *self;
        self.root = MerkleRootState {
            root_hash: Some(root_hash.clone()),
            tree_height: height,
            leaf_count: self.leaves.len() as u32,
            updated_at: now_s,
        };
        proof {
            assert(built.nodes_kept_in(self));
            lemma_kept_stores_all(built, *self, tree_hashes(lv));
        }
        let idx = self.leaves.len() - 1;
        let proof = build_proof(&self.leaves, idx);
        Ok(LeafCommit {
            leaf_hash,
            root_hash,
            proof,
            tree_height: height,
            leaf_count: self.leaves.len() as u32,
        })
    }

    /// Builds the inclusion proof for the leaf with hash `leaf_hash`. Fails with
    /// `InvalidState` on an empty tree and with `NodeNotFound` when no leaf has that hash.
    pub fn generate_proof(&self, leaf_hash: &str) -> (r: Result<MerkleProof, MerkleError>)
        requires
            self.wf(),
        ensures
            self.leaf_seq().len() == 0 ==> (r matches Err(MerkleError::InvalidState(_))),
            self.leaf_seq().len() > 0 && !self.leaf_seq().contains(leaf_hash@) ==> (r matches Err(
                MerkleError::NodeNotFound(_),
            )),
            self.leaf_seq().contains(leaf_hash@) ==> (r matches Ok(p) && p.leaf_index
                < self.leaf_seq().len() && proof_matches(p, self.leaf_seq(), p.leaf_index as int)),
            r matches Ok(p) ==> p.leaf_hash@ == leaf_hash@ && p.leaf_index < self.leaf_seq().len()
                && self.leaf_seq()[p.leaf_index as int] == leaf_hash@,
            r matches Err(MerkleError::NodeNotFound(s)) ==> s@ == leaf_hash@,
    {
        if self.root.root_hash.is_none() {
            return Err(MerkleError::InvalidState(String::from_str("tree has no root")));
        }
        let h = String::from_str(leaf_hash);
        match self.find_leaf(&h) {
            Some(i) => Ok(build_proof(&self.leaves, i)),
            None => Err(MerkleError::NodeNotFound(h)),
        }
    }

    /// Checks a proof; the same as the free function `verify_proof`.
    pub fn verify_proof(&self, proof: &MerkleProof) -> (r: bool)
        ensures
            r == proof_holds(*proof),
    {
        verify_proof(proof)
    }

    /// The current root hash.
    pub fn get_root_hash(&self) -> (r: Option<String>)
        ensures
            opt_view(r) == self.root_view(),
    {
        copy_opt(&self.root.root_hash)
    }

    /// Root hash, height and leaf count.
    pub fn get_stats(&self) -> (r: TreeStats)
        ensures
            opt_view(r.root_hash) == self.root_view(),
            r.height == self.height_view(),
            r.leaf_count == self.count_view(),
    {
        TreeStats {
            root_hash: copy_opt(&self.root.root_hash),
            height: self.root.tree_height,
            leaf_count: self.root.leaf_count,
        }
    }

    /// The payload of the node with hash `hash`: `None` when no node has that hash or the
    /// node is internal.
    pub fn get_leaf_payload(&self, hash: &str) -> (r: Option<String>)
        requires
            self.nodes_distinct(),
        ensures
            !self.has_node(hash@) ==> r is None,
            forall|i: int|
                0 <= i < self.node_seq().len() && (#[trigger] self.node_seq()[i]).hash@ == hash@
                    ==> opt_view(r) == opt_view(self.node_seq()[i].payload),
    {
        let h = String::from_str(hash);
        match self.find_node(&h) {
            Some(i) => {
                proof {
                    assert forall|j: int|
                        0 <= j < self.node_seq().len() && (#[trigger] self.node_seq()[j]).hash@ == hash@
                            implies j == i by {
                        if j < i {
                            assert(self.node_seq()[j].hash@ != self.node_seq()[i as int].hash@);
                        } else if j > i {
                            assert(self.node_seq()[i as int].hash@ != self.node_seq()[j].hash@);
                        }
                    }
                }
                copy_opt(&self.nodes[i].payload)
            },
            None => None,
        }
    }

    /// The node with hash `hash`, if stored.
    pub fn get_node(&self, hash: &str) -> (r: Option<MerkleNode>)
        requires
            self.nodes_distinct(),
        ensures
            r is Some <==> self.has_node(hash@),
            r matches Some(n) ==> forall|i: int|
                0 <= i < self.node_seq().len() && (#[trigger] self.node_seq()[i]).hash@ == hash@
                    ==> same_node(n, self.node_seq()[i]),
    {
        let h = String::from_str(hash);
        match self.find_node(&h) {
            Some(i) => {
                proof {
                    assert forall|j: int|
                        0 <= j < self.node_seq().len() && (#[trigger] self.node_seq()[j]).hash@ == hash@
                            implies j == i by {
                        if j < i {
                            assert(self.node_seq()[j].hash@ != self.node_seq()[i as int].hash@);
                        } else if j > i {
                            assert(self.node_seq()[i as int].hash@ != self.node_seq()[j].hash@);
                        }
                    }
                }
                Some(copy_node(&self.nodes[i]))
            },
            None => None,
        }
    }

    /// Position of the node with hash `hash` in insertion order, if stored.
    pub fn position_of(&self, hash: &str) -> (r: Option<usize>)
        ensures
            r matches Some(i) ==> i < self.node_seq().len() && self.node_seq()[i as int].hash@ == hash@,
            r is None ==> !self.has_node(hash@),
    {
        let h = String::from_str(hash);
        self.find_node(&h)
    }

    /// Number of stored nodes.
    pub fn node_count(&self) -> (r: usize)
        ensures
            r == self.node_seq().len(),
    {
        self.nodes.len()
    }

    /// A copy of the `i`-th stored node, in insertion order.
    pub fn node_at(&self, i: usize) -> (r: MerkleNode)
        requires
            i < self.node_seq().len(),
        ensures
            same_node(r, self.node_seq()[i as int]),
    {
        copy_node(&self.nodes[i])
    }

    /// The leaf hashes in insertion order.
    pub fn get_all_leaf_hashes(&self) -> (r: Vec<String>)
        ensures
            string_views(r@) == self.leaf_seq(),
    {
        copy_strings(&self.leaves)
    }
}

} // verus!
