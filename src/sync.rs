//! Root-driven exchange of Merkle nodes with the practice system, and catalog deltas.
use vstd::prelude::*;
use vstd::string::StringExecFns;
use crate::inclusion::string_views;
use crate::merkle::{build_next_level, copy_strings, next_level, tree_hashes};
use crate::tree::{MerkleError, MerkleNode, MerkleTree, copy_opt, opt_view};

verus! {

/// Request that opens a sync: the local root and its shape.
#[derive(Debug)]
pub struct SyncRequest {
    pub root_hash: String,
    pub tree_height: u32,
    pub leaf_count: u32,
}

/// The peer's answer: the nodes it lacks, and its own root.
#[derive(Debug)]
pub struct SyncResponse {
    pub missing_hashes: Vec<String>,
    pub server_root_hash: Option<String>,
}

/// The nodes sent to the peer, and the root they should produce.
#[derive(Debug)]
pub struct SyncPayload {
    pub nodes: Vec<SyncNode>,
    pub expected_root: String,
}

/// A node as sent over the wire.
#[derive(Debug)]
pub struct SyncNode {
    pub hash: String,
    pub node_type: String,
    pub left_child: Option<String>,
    pub right_child: Option<String>,
    pub payload: Option<String>,
}

/// The peer's acknowledgment.
#[derive(Debug)]
pub struct SyncAck {
    pub success: bool,
    pub new_root: Option<String>,
    pub error: Option<String>,
}

/// A set of nodes exported for audit or cold storage.
#[derive(Debug)]
pub struct TreeExport {
    pub exported_at: String,
    pub root_hash: String,
    pub tree_height: u32,
    pub leaf_count: u32,
    pub nodes: Vec<SyncNode>,
}

/// Request for catalog changes since a point in time.
#[derive(Debug)]
pub struct CatalogSyncRequest {
    pub since: Option<String>,
}

/// Catalog changes sent by the peer.
#[derive(Debug)]
pub struct CatalogDelta {
    pub items: Vec<CatalogSyncItem>,
    pub deactivated_skus: Vec<String>,
    pub timestamp: String,
}

/// A catalog item as sent by the peer.
#[derive(Debug)]
pub struct CatalogSyncItem {
    pub sku: String,
    pub name: String,
    pub aliases: Vec<String>,
    pub concentration: Option<String>,
    pub package_size: Option<String>,
    pub species: Vec<String>,
    pub routes: Vec<String>,
    pub active: bool,
    pub server_id: String,
}

/// A node in wire form: the same fields, its type written as "leaf" or "internal".
pub open spec fn wire_of(w: SyncNode, n: MerkleNode) -> bool {
    &&& w.hash@ == n.hash@
    &&& w.node_type@ == n.node_type.name()
    &&& opt_view(w.left_child) == opt_view(n.left_child)
    &&& opt_view(w.right_child) == opt_view(n.right_child)
    &&& opt_view(w.payload) == opt_view(n.payload)
}

/// Whether `w` is the wire form of a stored node whose hash is among `hs`.
pub open spec fn is_sent(w: SyncNode, nodes: Seq<MerkleNode>, hs: Seq<Seq<char>>) -> bool {
    exists|i: int| 0 <= i < nodes.len() && hs.contains(nodes[i].hash@) && wire_of(w, nodes[i])
}

/// Whether the wire form of `n` is among `ws`.
pub open spec fn is_listed(n: MerkleNode, ws: Seq<SyncNode>) -> bool {
    exists|k: int| 0 <= k < ws.len() && wire_of(ws[k], n)
}

impl SyncNode {
    /// The wire form of a node.
    pub fn from_node(n: &MerkleNode) -> (r: SyncNode)
        ensures
            wire_of(r, *n),
    {
        SyncNode {
            hash: n.hash.clone(),
            node_type: String::from_str(n.node_type.as_str()),
            left_child: copy_opt(&n.left_child),
            right_child: copy_opt(&n.right_child),
            payload: copy_opt(&n.payload),
        }
    }
}

/// A stored value that is present and not empty.
pub open spec fn present(o: Option<Seq<char>>) -> Option<Seq<char>> {
    match o {
        Some(s) => if s.len() == 0 {
            None
        } else {
            Some(s)
        },
        None => None,
    }
}

/// Whether a tree with root `root` has changes beyond the synced root `synced`.
pub open spec fn unsynced(root: Option<Seq<char>>, synced: Option<Seq<char>>) -> bool {
    match root {
        None => false,
        Some(r) => match synced {
            None => true,
            Some(s) => r != s,
        },
    }
}

/// Whether `v` holds a string with view `s`.
pub fn contains_string(v: &Vec<String>, s: &String) -> (r: bool)
    ensures
        r == string_views(v@).contains(s@),
{
    let mut i: usize = 0;
    while i < v.len()
        invariant
            i <= v@.len(),
            forall|k: int| 0 <= k < i ==> (#[trigger] v@[k])@ != s@,
        decreases v@.len() - i,
    {
        if v[i] == *s {
            assert(string_views(v@)[i as int] == s@);
            return true;
        }
        i = i + 1;
    }
    assert forall|k: int| 0 <= k < string_views(v@).len() implies string_views(v@)[k] != s@ by {
        assert(string_views(v@)[k] == v@[k]@);
    }
    false
}

/// Copies a string that may be empty into an option that holds only non-empty text.
fn non_empty(o: &Option<String>) -> (r: Option<String>)
    ensures
        opt_view(r) == present(opt_view(*o)),
{
    match o {
        Some(s) => if s.as_str().is_empty() {
            None
        } else {
            Some(s.clone())
        },
        None => None,
    }
}

/// The sync state: the last root the peer acknowledged and the sync timestamps.
pub struct SyncManager {
    last_synced_root: Option<String>,
    encounters_last_sync: Option<String>,
    catalog_last_sync: Option<String>,
}

impl SyncManager {
    /// The stored last synced root, as written.
    pub closed spec fn synced_view(&self) -> Option<Seq<char>> {
        opt_view(self.last_synced_root)
    }

    /// The stored time of the last encounter sync.
    pub closed spec fn encounters_view(&self) -> Option<Seq<char>> {
        opt_view(self.encounters_last_sync)
    }

    /// The stored time of the last catalog sync.
    pub closed spec fn catalog_view(&self) -> Option<Seq<char>> {
        opt_view(self.catalog_last_sync)
    }

    /// A sync state with nothing recorded.
    pub fn new() -> (r: SyncManager)
        ensures
            r.synced_view() is None,
            r.encounters_view() is None,
            r.catalog_view() is None,
    {
        SyncManager { last_synced_root: None, encounters_last_sync: None, catalog_last_sync: None }
    }

    /// The request that opens a sync; `None` when the tree is empty.
    pub fn create_sync_request(&self, tree: &MerkleTree) -> (r: Option<SyncRequest>)
        ensures
            r is None <==> tree.root_view() is None,
            r matches Some(q) ==> Some(q.root_hash@) == tree.root_view() && q.tree_height
                == tree.height_view() && q.leaf_count == tree.count_view(),
    {
        let stats = tree.get_stats();
        match stats.root_hash {
            Some(root_hash) => Some(
                SyncRequest { root_hash, tree_height: stats.height, leaf_count: stats.leaf_count },
            ),
            None => None,
        }
    }

    /// The nodes the peer asked for that are stored, in insertion order, and the current
    /// root. Fails with `InvalidState` when the tree is empty.
    pub fn process_sync_response(&self, tree: &MerkleTree, response: &SyncResponse) -> (r: Result<
        SyncPayload,
        MerkleError,
    >)
        requires
            tree.nodes_distinct(),
        ensures
            r is Err <==> tree.root_view() is None,
            r is Err ==> (r matches Err(MerkleError::InvalidState(_))),
            r matches Ok(p) ==> {
                &&& Some(p.expected_root@) == tree.root_view()
                &&& forall|k: int|
                    0 <= k < p.nodes@.len() ==> is_sent(
                        #[trigger] p.nodes@[k],
                        tree.node_seq(),
                        string_views(response.missing_hashes@),
                    )
                &&& forall|i: int|
                    0 <= i < tree.node_seq().len() && string_views(
                        response.missing_hashes@,
                    ).contains(#[trigger] tree.node_seq()[i].hash@) ==> is_listed(
                        tree.node_seq()[i],
                        p.nodes@,
                    )
            },
    {
        let n = tree.node_count();
        let ghost hs = string_views(response.missing_hashes@);
        let mut nodes: Vec<SyncNode> = Vec::new();
        let ghost mut idx: Seq<int> = Seq::empty();
        let mut i: usize = 0;
        while i < n
            invariant
                n == tree.node_seq().len(),
                hs == string_views(response.missing_hashes@),
                i <= n,
                idx.len() == nodes@.len(),
                forall|k: int|
                    0 <= k < nodes@.len() ==> 0 <= #[trigger] idx[k] < i && hs.contains(
                        tree.node_seq()[idx[k]].hash@,
                    ) && wire_of(nodes@[k], tree.node_seq()[idx[k]]),
                forall|j: int|
                    0 <= j < i && hs.contains(#[trigger] tree.node_seq()[j].hash@) ==> is_listed(
                        tree.node_seq()[j],
                        nodes@,
                    ),
            decreases n - i,
        {
            let node = tree.node_at(i);
            if contains_string(&response.missing_hashes, &node.hash) {
                let w = SyncNode::from_node(&node);
                let ghost before = nodes@;
                nodes.push(w);
                proof {
                    idx = idx.push(i as int);
                    assert(wire_of(nodes@[before.len() as int], tree.node_seq()[i as int]));
                    assert forall|j: int|
                        0 <= j < i + 1 && hs.contains(#[trigger] tree.node_seq()[j].hash@) implies is_listed(
                        tree.node_seq()[j],
                        nodes@,
                    ) by {
                        if j < i {
                            let k = choose|k: int| 0 <= k < before.len() && wire_of(before[k], tree.node_seq()[j]);
                            assert(nodes@[k] == before[k]);
                        } else {
                            assert(wire_of(nodes@[before.len() as int], tree.node_seq()[j]));
                        }
                    }
                }
            }
            i = i + 1;
        }
        proof {
            assert forall|k: int| 0 <= k < nodes@.len() implies is_sent(
                #[trigger] nodes@[k],
                tree.node_seq(),
                hs,
            ) by {
                let j = idx[k];
                assert(0 <= j < tree.node_seq().len() && hs.contains(tree.node_seq()[j].hash@)
                    && wire_of(nodes@[k], tree.node_seq()[j]));
            }
        }
        match tree.get_root_hash() {
            Some(expected_root) => Ok(SyncPayload { nodes, expected_root }),
            None => Err(MerkleError::InvalidState(String::from_str("no root hash"))),
        }
    }

    /// Records a successful acknowledgment that names a root: the root becomes the last
    /// synced root and `now` the time of the last encounter sync. Other acknowledgments
    /// change nothing.
    pub fn handle_sync_ack(&mut self, ack: &SyncAck, now: &str)
        ensures
            ack.success && ack.new_root is Some ==> final(self).synced_view() == opt_view(
                ack.new_root,
            ) && final(self).encounters_view() == Some(now@),
            !(ack.success && ack.new_root is Some) ==> final(self).synced_view()
                == old(self).synced_view() && final(self).encounters_view()
                == old(self).encounters_view(),
            final(self).catalog_view() == old(self).catalog_view(),
    {
        if ack.success {
            match &ack.new_root {
                Some(root) => {
                    self.last_synced_root = Some(root.clone());
                    self.encounters_last_sync = Some(String::from_str(now));
                },
                None => {},
            }
        }
    }

    /// The last synced root, when one is recorded and not empty.
    pub fn get_last_synced_root(&self) -> (r: Option<String>)
        ensures
            opt_view(r) == present(self.synced_view()),
    {
        non_empty(&self.last_synced_root)
    }

    /// Whether the tree has a root that differs from the last synced root.
    pub fn has_unsynced_changes(&self, tree: &MerkleTree) -> (r: bool)
        ensures
            r == unsynced(tree.root_view(), present(self.synced_view())),
    {
        let current = tree.get_root_hash();
        let last = self.get_last_synced_root();
        match current {
            None => false,
            Some(c) => match last {
                None => true,
                Some(l) => c != l,
            },
        }
    }

    /// The request for catalog changes since the last recorded catalog sync.
    pub fn create_catalog_sync_request(&self) -> (r: CatalogSyncRequest)
        ensures
            opt_view(r.since) == present(self.catalog_view()),
    {
        CatalogSyncRequest { since: non_empty(&self.catalog_last_sync) }
    }

    /// Records that the catalog has been brought up to `delta`'s timestamp.
    pub fn record_catalog_delta(&mut self, delta: &CatalogDelta)
        ensures
            final(self).catalog_view() == Some(delta.timestamp@),
            final(self).synced_view() == old(self).synced_view(),
            final(self).encounters_view() == old(self).encounters_view(),
    {
        self.catalog_last_sync = Some(delta.timestamp.clone());
    }
}

/// Some node in `ws` has hash `h`.
pub open spec fn hash_exported(ws: Seq<SyncNode>, h: Seq<char>) -> bool {
    exists|k: int| 0 <= k < ws.len() && (#[trigger] ws[k]).hash@ == h
}

/// `ws` holds the wire form of each stored node whose hash is among `hs`, and nothing
/// else.
pub open spec fn exports_exactly(ws: Seq<SyncNode>, nodes: Seq<MerkleNode>, hs: Seq<Seq<char>>) -> bool {
    &&& forall|k: int| 0 <= k < ws.len() ==> is_sent(#[trigger] ws[k], nodes, hs)
    &&& forall|i: int|
        0 <= i < nodes.len() && hs.contains(#[trigger] nodes[i].hash@) ==> is_listed(nodes[i], ws)
}

/// Appends the wire form of the stored node with hash `h`, if there is one.
fn export_hash(tree: &MerkleTree, h: &String, out: &mut Vec<SyncNode>, Ghost(hs): Ghost<Seq<Seq<char>>>)
    requires
        tree.nodes_distinct(),
        hs.contains(h@),
        forall|k: int| 0 <= k < old(out)@.len() ==> is_sent(#[trigger] old(out)@[k], tree.node_seq(), hs),
    ensures
        forall|k: int| 0 <= k < final(out)@.len() ==> is_sent(#[trigger] final(out)@[k], tree.node_seq(), hs),
        forall|i: int|
            0 <= i < tree.node_seq().len() && #[trigger] tree.node_seq()[i].hash@ == h@ ==> is_listed(
                tree.node_seq()[i],
                final(out)@,
            ),
        forall|i: int|
            0 <= i < tree.node_seq().len() && is_listed(tree.node_seq()[i], old(out)@) ==> is_listed(
                #[trigger] tree.node_seq()[i],
                final(out)@,
            ),
{
    match tree.get_node(h.as_str()) {
        Some(n) => {
            let ghost before = out@;
            let w = SyncNode::from_node(&n);
            out.push(w);
            proof {
                let j = choose|j: int| 0 <= j < tree.node_seq().len() && (#[trigger] tree.node_seq()[j]).hash@ == h@;
                assert(crate::tree::same_node(n, tree.node_seq()[j]));
                assert(wire_of(out@[before.len() as int], tree.node_seq()[j]));
                assert(is_sent(out@[before.len() as int], tree.node_seq(), hs));
                assert forall|k: int| 0 <= k < out@.len() implies is_sent(#[trigger] out@[k], tree.node_seq(), hs) by {
                    if k < before.len() {
                        assert(out@[k] == before[k]);
                    }
                }
                assert forall|i: int|
                    0 <= i < tree.node_seq().len() && #[trigger] tree.node_seq()[i].hash@ == h@ implies is_listed(
                        tree.node_seq()[i],
                        out@,
                    ) by {
                    if i != j {
                        assert(tree.node_seq()[i].hash@ == tree.node_seq()[j].hash@);
                        if i < j {
                            assert(tree.node_seq()[i].hash@ != tree.node_seq()[j].hash@);
                        } else {
                            assert(tree.node_seq()[j].hash@ != tree.node_seq()[i].hash@);
                        }
                    }
                    assert(wire_of(out@[before.len() as int], tree.node_seq()[i]));
                }
                assert forall|i: int|
                    0 <= i < tree.node_seq().len() && is_listed(tree.node_seq()[i], before) implies is_listed(
                        #[trigger] tree.node_seq()[i],
                        out@,
                    ) by {
                    let k = choose|k: int| 0 <= k < before.len() && wire_of(before[k], tree.node_seq()[i]);
                    assert(out@[k] == before[k]);
                }
            }
        },
        None => {},
    }
}

impl SyncManager {
    /// Exports every stored node of the current tree, level by level from the leaves up.
    /// Fails with `InvalidState` when the tree is empty.
    pub fn export_full_tree(&self, tree: &MerkleTree, exported_at: &str) -> (r: Result<TreeExport, MerkleError>)
        requires
            tree.wf(),
        ensures
            r is Err <==> tree.root_view() is None,
            r is Err ==> (r matches Err(MerkleError::InvalidState(_))),
            r matches Ok(e) ==> {
                &&& Some(e.root_hash@) == tree.root_view()
                &&& e.tree_height == tree.height_view()
                &&& e.leaf_count == tree.count_view()
                &&& e.exported_at@ == exported_at@
                &&& exports_exactly(e.nodes@, tree.node_seq(), tree_hashes(tree.leaf_seq()))
                &&& forall|i: int|
                    0 <= i < tree_hashes(tree.leaf_seq()).len() ==> #[trigger] hash_exported(
                        e.nodes@,
                        tree_hashes(tree.leaf_seq())[i],
                    )
            },
    {
        let root_hash = match tree.get_root_hash() {
            Some(h) => h,
            None => {
                return Err(MerkleError::InvalidState(String::from_str("no root hash")));
            },
        };
        let ghost all = tree_hashes(tree.leaf_seq());
        let leaves = tree.get_all_leaf_hashes();
        let mut level = copy_strings(&leaves);
        let mut out: Vec<SyncNode> = Vec::new();
        let ghost mut seen: Seq<Seq<char>> = Seq::empty();
        proof {
            assert(all == seen + tree_hashes(crate::inclusion::string_views(level@)));
        }
        loop
            invariant_except_break
                all == seen + tree_hashes(crate::inclusion::string_views(level@)),
                forall|i: int|
                    0 <= i < tree.node_seq().len() && seen.contains(#[trigger] tree.node_seq()[i].hash@) ==> is_listed(
                        tree.node_seq()[i],
                        out@,
                    ),
            invariant
                tree.wf(),
                level@.len() >= 1,
                all == tree_hashes(tree.leaf_seq()),
                forall|k: int| 0 <= k < out@.len() ==> is_sent(#[trigger] out@[k], tree.node_seq(), all),
            ensures
                forall|i: int|
                    0 <= i < tree.node_seq().len() && all.contains(#[trigger] tree.node_seq()[i].hash@) ==> is_listed(
                        tree.node_seq()[i],
                        out@,
                    ),
            decreases level@.len(),
        {
            let ghost lv = crate::inclusion::string_views(level@);
            let mut k: usize = 0;
            while k < level.len()
                invariant
                    tree.wf(),
                    lv == crate::inclusion::string_views(level@),
                    all == seen + tree_hashes(lv),
                    k <= level@.len(),
                    level@.len() >= 1,
                    forall|q: int| 0 <= q < out@.len() ==> is_sent(#[trigger] out@[q], tree.node_seq(), all),
                    forall|i: int|
                        0 <= i < tree.node_seq().len() && (seen + lv.subrange(0, k as int)).contains(
                            #[trigger] tree.node_seq()[i].hash@,
                        ) ==> is_listed(tree.node_seq()[i], out@),
                decreases level@.len() - k,
            {
                proof {
                    assert(tree_hashes(lv).len() >= lv.len()) by {
                        if lv.len() > 1 {
                            assert(tree_hashes(lv) == lv + tree_hashes(next_level(lv)));
                        }
                    }
                    assert(tree_hashes(lv)[k as int] == lv[k as int]) by {
                        if lv.len() > 1 {
                            assert(tree_hashes(lv) == lv + tree_hashes(next_level(lv)));
                        }
                    }
                    assert(all[seen.len() + k] == lv[k as int]);
                    assert(lv[k as int] == level@[k as int]@);
                }
                let ghost before = out@;
                export_hash(tree, &level[k], &mut out, Ghost(all));
                proof {
                    let pre = seen + lv.subrange(0, k as int);
                    let post = seen + lv.subrange(0, k + 1);
                    assert(post =~= pre.push(lv[k as int]));
                    assert forall|i: int|
                        0 <= i < tree.node_seq().len() && post.contains(#[trigger] tree.node_seq()[i].hash@) implies is_listed(
                            tree.node_seq()[i],
                            out@,
                        ) by {
                        let x = tree.node_seq()[i].hash@;
                        let m = choose|m: int| 0 <= m < post.len() && post[m] == x;
                        if m < pre.len() {
                            assert(pre[m] == x);
                            assert(pre.contains(x));
                            assert(is_listed(tree.node_seq()[i], before));
                        } else {
                            assert(x == level@[k as int]@);
                        }
                    }
                }
                k = k + 1;
            }
            proof {
                assert(lv.subrange(0, lv.len() as int) =~= lv);
            }
            if level.len() <= 1 {
                proof {
                    assert(tree_hashes(lv) == lv);
                    assert(all =~= seen + lv);
                }
                break;
            }
            let next = build_next_level(&level);
            proof {
                assert(tree_hashes(lv) == lv + tree_hashes(next_level(lv)));
                assert(all =~= (seen + lv) + tree_hashes(next_level(lv)));
                seen = seen + lv;
            }
            level = next;
        }
        proof {
            assert forall|i: int| 0 <= i < all.len() implies #[trigger] hash_exported(out@, all[i]) by {
                assert(tree.has_node(all[i]));
                let j = choose|j: int| 0 <= j < tree.node_seq().len() && (#[trigger] tree.node_seq()[j]).hash@ == all[i];
                assert(all.contains(tree.node_seq()[j].hash@));
                assert(is_listed(tree.node_seq()[j], out@));
                let k = choose|k: int| 0 <= k < out@.len() && wire_of(out@[k], tree.node_seq()[j]);
                assert(out@[k].hash@ == all[i]);
            }
        }
        let stats = tree.get_stats();
        Ok(TreeExport {
            exported_at: String::from_str(exported_at),
            root_hash,
            tree_height: stats.height,
            leaf_count: stats.leaf_count,
            nodes: out,
        })
    }

    /// Exports the nodes stored after the node with hash `since_root`, in insertion
    /// order; without such a node, exports the full tree. Fails with `InvalidState` when
    /// the tree is empty.
    pub fn export_since(&self, tree: &MerkleTree, since_root: Option<&str>, exported_at: &str) -> (r: Result<
        TreeExport,
        MerkleError,
    >)
        requires
            tree.wf(),
        ensures
            r is Err <==> tree.root_view() is None,
            r is Err ==> (r matches Err(MerkleError::InvalidState(_))),
            r matches Ok(e) ==> {
                &&& Some(e.root_hash@) == tree.root_view()
                &&& e.tree_height == tree.height_view()
                &&& e.leaf_count == tree.count_view()
                &&& e.exported_at@ == exported_at@
                &&& match since_root {
                    Some(h) if tree.has_node(h@) => exists|p: int|
                        0 <= p < tree.node_seq().len() && tree.node_seq()[p].hash@ == h@
                            && e.nodes@.len() == tree.node_seq().len() - p - 1 && forall|k: int|
                            0 <= k < e.nodes@.len() ==> wire_of(
                                #[trigger] e.nodes@[k],
                                tree.node_seq()[p + 1 + k],
                            ),
                    _ => exports_exactly(e.nodes@, tree.node_seq(), tree_hashes(tree.leaf_seq())),
                }
            },
    {
        let pos = match since_root {
            Some(h) => tree.position_of(h),
            None => None,
        };
        match pos {
            None => self.export_full_tree(tree, exported_at),
            Some(p) => {
                let root_hash = match tree.get_root_hash() {
                    Some(h) => h,
                    None => {
                        return Err(MerkleError::InvalidState(String::from_str("no root hash")));
                    },
                };
                let n = tree.node_count();
                let mut out: Vec<SyncNode> = Vec::new();
                let mut i: usize = p + 1;
                while i < n
                    invariant
                        n == tree.node_seq().len(),
                        p < n,
                        p + 1 <= i <= n,
                        out@.len() == i - p - 1,
                        forall|k: int|
                            0 <= k < out@.len() ==> wire_of(#[trigger] out@[k], tree.node_seq()[p + 1 + k]),
                    decreases n - i,
                {
                    let node = tree.node_at(i);
                    out.push(SyncNode::from_node(&node));
                    i = i + 1;
                }
                let stats = tree.get_stats();
                Ok(TreeExport {
                    exported_at: String::from_str(exported_at),
                    root_hash,
                    tree_height: stats.height,
                    leaf_count: stats.leaf_count,
                    nodes: out,
                })
            },
        }
    }
}

/// After the peer acknowledges the current root, `has_unsynced_changes` is false; once a
/// later commit has moved the root elsewhere, it is true again.
pub proof fn lemma_sync_liveness(m: SyncManager, tree: MerkleTree, later: MerkleTree)
    requires
        tree.wf(),
        tree.root_view() is Some,
        m.synced_view() == tree.root_view(),
        later.root_view() is Some,
        later.root_view() != tree.root_view(),
    ensures
        !unsynced(tree.root_view(), present(m.synced_view())),
        unsynced(later.root_view(), present(m.synced_view())),
{
    assert(tree.leaf_seq().len() > 0);
}

} // verus!
