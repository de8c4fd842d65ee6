//! Inclusion proofs and their compliance rendering.
use vstd::prelude::*;
use vstd::string::StringExecFns;

verus! {

/// An inclusion proof: the sibling hashes from a leaf up to the root.
#[derive(Debug, Clone)]
pub struct MerkleProof {
    /// Hash of the leaf being proven.
    pub leaf_hash: String,
    /// Root hash at the time the proof was generated.
    pub root_hash: String,
    /// Sibling hashes, from the leaf's level upward.
    pub proof_hashes: Vec<String>,
    /// For each sibling, whether it stands on the right.
    pub proof_directions: Vec<bool>,
    /// Position of the leaf in insertion order.
    pub leaf_index: usize,
}

/// A proof in the layout of a compliance export.
#[derive(Debug, Clone)]
pub struct ComplianceProof {
    pub version: String,
    pub algorithm: String,
    pub leaf_hash: String,
    pub root_hash: String,
    pub audit_path: Vec<AuditPathEntry>,
    pub leaf_index: usize,
}

/// One step of an audit path.
#[derive(Debug, Clone)]
pub struct AuditPathEntry {
    /// Sibling hash.
    pub hash: String,
    /// Where the sibling stands: "left" or "right".
    pub position: String,
}

/// Metadata of a single compliance export.
#[derive(Debug, Clone)]
pub struct ExportMetadata {
    pub exported_at: String,
    pub format_version: String,
    pub system_id: Option<String>,
}

/// Views of a sequence of strings.
pub open spec fn string_views(v: Seq<String>) -> Seq<Seq<char>> {
    Seq::new(v.len(), |i: int| v[i]@)
}

/// The position word for a sibling direction.
pub open spec fn position_word(right: bool) -> Seq<char> {
    if right {
        seq!['r', 'i', 'g', 'h', 't']
    } else {
        seq!['l', 'e', 'f', 't']
    }
}

fn position_string(right: bool) -> (r: String)
    ensures
        r@ == position_word(right),
{
    proof {
        reveal_strlit("right");
        reveal_strlit("left");
    }
    if right {
        String::from_str("right")
    } else {
        String::from_str("left")
    }
}

/// `c` is the compliance rendering of `p`.
pub open spec fn compliance_of(p: MerkleProof, c: ComplianceProof) -> bool {
    &&& c.version@ == seq!['1', '.', '0']
    &&& c.algorithm@ == seq!['S', 'H', 'A', '-', '2', '5', '6']
    &&& c.leaf_hash@ == p.leaf_hash@
    &&& c.root_hash@ == p.root_hash@
    &&& c.leaf_index == p.leaf_index
    &&& c.audit_path@.len() == vstd::math::min(
        p.proof_hashes@.len() as int,
        p.proof_directions@.len() as int,
    )
    &&& forall|i: int|
        0 <= i < c.audit_path@.len() ==> {
            &&& (#[trigger] c.audit_path@[i]).hash@ == p.proof_hashes@[i]@
            &&& c.audit_path@[i].position@ == position_word(p.proof_directions@[i])
        }
}

impl MerkleProof {
    /// Renders the proof with format version "1.0", algorithm "SHA-256", and one
    /// audit-path entry per pair of sibling hash and direction.
    pub fn to_compliance_format(&self) -> (r: ComplianceProof)
        ensures
            compliance_of(*self, r),
    {
        proof {
            reveal_strlit("1.0");
            reveal_strlit("SHA-256");
            assert("1.0"@ =~= seq!['1', '.', '0']);
            assert("SHA-256"@ =~= seq!['S', 'H', 'A', '-', '2', '5', '6']);
        }
        let n: usize = if self.proof_hashes.len() < self.proof_directions.len() {
            self.proof_hashes.len()
        } else {
            self.proof_directions.len()
        };
        let mut audit_path: Vec<AuditPathEntry> = Vec::new();
        let mut i: usize = 0;
        while i < n
            invariant
                n <= self.proof_hashes@.len(),
                n <= self.proof_directions@.len(),
                i <= n,
                audit_path@.len() == i,
                forall|j: int|
                    0 <= j < i ==> {
                        &&& (#[trigger] audit_path@[j]).hash@ == self.proof_hashes@[j]@
                        &&& audit_path@[j].position@ == position_word(self.proof_directions@[j])
                    },
            decreases n - i,
        {
            let entry = AuditPathEntry {
                hash: self.proof_hashes[i].clone(),
                position: position_string(self.proof_directions[i]),
            };
            audit_path.push(entry);
            i = i + 1;
        }
        ComplianceProof {
            version: String::from_str("1.0"),
            algorithm: String::from_str("SHA-256"),
            leaf_hash: self.leaf_hash.clone(),
            root_hash: self.root_hash.clone(),
            audit_path,
            leaf_index: self.leaf_index,
        }
    }
}

} // verus!
