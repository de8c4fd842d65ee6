//! Billing and compliance export: CSV fields and rows, metadata, and proof checks.
use vstd::prelude::*;
use vstd::string::StringExecFns;
use crate::inclusion::{AuditPathEntry, ComplianceProof, MerkleProof, compliance_of, position_word, string_views};
use crate::merkle::{proof_holds, verify_proof};
use crate::text::{contains_char, push_char, str_equals};

verus! {

/// Metadata of a billing export.
#[derive(Debug)]
pub struct BillingMetadata {
    pub draft_id: String,
    pub patient_id: String,
    pub patient_server_id: Option<String>,
    pub reviewed_by: String,
    pub reviewed_at: String,
    pub exported_at: String,
    pub merkle_leaf_hash: String,
}

/// Metadata of a single compliance export.
#[derive(Debug)]
pub struct ComplianceMetadata {
    pub format_version: String,
    pub exported_at: String,
    pub hash_algorithm: String,
    pub system_id: Option<String>,
}

/// Metadata of a batch compliance export.
#[derive(Debug)]
pub struct BatchComplianceMetadata {
    pub format_version: String,
    pub exported_at: String,
    pub hash_algorithm: String,
    pub root_hash: String,
    pub tree_height: u32,
    pub leaf_count: u32,
    pub system_id: Option<String>,
}

/// Outcome of checking one exported proof.
#[derive(Debug)]
pub struct ProofVerification {
    pub draft_id: String,
    pub leaf_hash: String,
    pub is_valid: bool,
}

/// Whether a CSV field must be quoted: it holds a comma, a quote or a newline.
pub open spec fn needs_quoting(s: Seq<char>) -> bool {
    s.contains(',') || s.contains('"') || s.contains('\n')
}

/// The text with every quote doubled.
pub open spec fn double_quotes(s: Seq<char>) -> Seq<char>
    decreases s.len(),
{
    if s.len() == 0 {
        Seq::empty()
    } else {
        double_quotes(s.drop_last()) + if s.last() == '"' {
            seq!['"', '"']
        } else {
            seq![s.last()]
        }
    }
}

/// A CSV field: quoted, with quotes doubled, when it needs quoting; else as it is.
pub open spec fn csv_field(s: Seq<char>) -> Seq<char> {
    if needs_quoting(s) {
        seq!['"'] + double_quotes(s) + seq!['"']
    } else {
        s
    }
}

/// Escapes a value for CSV output.
pub fn escape_csv(s: &str) -> (r: String)
    ensures
        r@ == csv_field(s@),
{
    if contains_char(s, ',') || contains_char(s, '"') || contains_char(s, '\n') {
        let mut out = String::new();
        push_char(&mut out, '"');
        let n = s.unicode_len();
        let mut i: usize = 0;
        while i < n
            invariant
                n == s@.len(),
                i <= n,
                out@ == seq!['"'] + double_quotes(s@.subrange(0, i as int)),
            decreases n - i,
        {
            let c = s.get_char(i);
            assert(s@.subrange(0, i + 1).drop_last() =~= s@.subrange(0, i as int));
            push_char(&mut out, c);
            if c == '"' {
                push_char(&mut out, '"');
            }
            assert(out@ =~= seq!['"'] + double_quotes(s@.subrange(0, i + 1)));
            i = i + 1;
        }
        assert(s@.subrange(0, n as int) =~= s@);
        push_char(&mut out, '"');
        out
    } else {
        String::from_str(s)
    }
}

/// The values of one billing CSV row, as text.
pub struct BillingRow {
    pub draft_id: String,
    pub patient_id: String,
    pub sku: String,
    pub description: String,
    pub quantity: String,
    pub unit: String,
    pub route: Option<String>,
    pub reviewed_by: String,
    pub reviewed_at: String,
    pub merkle_leaf_hash: String,
}

/// The header line of a billing CSV.
pub open spec fn billing_header() -> Seq<char> {
    "draft_id,patient_id,sku,description,quantity,unit,route,reviewed_by,reviewed_at,merkle_hash\n"@
}

/// A row's line: fields separated by commas and ended by a newline, each escaped as a CSV
/// field but the quantity, which is a number; an absent route is written as nothing.
pub open spec fn billing_line(r: BillingRow) -> Seq<char> {
    csv_field(r.draft_id@) + ","@ + csv_field(r.patient_id@) + ","@ + csv_field(r.sku@) + ","@
        + csv_field(r.description@) + ","@ + r.quantity@ + ","@ + csv_field(r.unit@) + ","@
        + match r.route {
        Some(x) => csv_field(x@),
        None => Seq::empty(),
    } + ","@ + csv_field(r.reviewed_by@) + ","@ + csv_field(r.reviewed_at@) + ","@ + csv_field(
        r.merkle_leaf_hash@,
    ) + "\n"@
}

/// The lines of a CSV made of `rows`, after the header.
pub open spec fn billing_lines(rows: Seq<BillingRow>) -> Seq<char>
    decreases rows.len(),
{
    if rows.len() == 0 {
        Seq::empty()
    } else {
        billing_lines(rows.drop_last()) + billing_line(rows.last())
    }
}

fn append_field(out: &mut String, s: &String)
    ensures
        final(out)@ == old(out)@ + csv_field(s@) + ","@,
{
    let f = escape_csv(s.as_str());
    out.append(f.as_str());
    out.append(",");
}

/// Writes one row's line.
pub fn billing_csv_line(row: &BillingRow) -> (r: String)
    ensures
        r@ == billing_line(*row),
{
    let mut line = escape_csv(row.draft_id.as_str());
    line.append(",");
    append_field(&mut line, &row.patient_id);
    append_field(&mut line, &row.sku);
    append_field(&mut line, &row.description);
    line.append(row.quantity.as_str());
    line.append(",");
    append_field(&mut line, &row.unit);
    let ghost before_route = line@;
    match &row.route {
        Some(x) => {
            let e = escape_csv(x.as_str());
            line.append(e.as_str());
        },
        None => {
            assert(before_route + Seq::<char>::empty() =~= before_route);
        },
    }
    line.append(",");
    append_field(&mut line, &row.reviewed_by);
    append_field(&mut line, &row.reviewed_at);
    let f = escape_csv(row.merkle_leaf_hash.as_str());
    line.append(f.as_str());
    line.append("\n");
    line
}

/// Writes a billing CSV: the header, then one line per row.
pub fn billing_csv(rows: &Vec<BillingRow>) -> (r: String)
    ensures
        r@ == billing_header() + billing_lines(rows@),
{
    let mut out = String::from_str(
        "draft_id,patient_id,sku,description,quantity,unit,route,reviewed_by,reviewed_at,merkle_hash\n",
    );
    assert(billing_lines(rows@.subrange(0, 0)) =~= Seq::<char>::empty());
    assert(out@ =~= billing_header() + Seq::<char>::empty());
    let mut i: usize = 0;
    while i < rows.len()
        invariant
            i <= rows@.len(),
            out@ == billing_header() + billing_lines(rows@.subrange(0, i as int)),
        decreases rows@.len() - i,
    {
        let line = billing_csv_line(&rows[i]);
        out.append(line.as_str());
        proof {
            assert(rows@.subrange(0, i + 1).drop_last() =~= rows@.subrange(0, i as int));
            assert(rows@.subrange(0, i + 1).last() == rows@[i as int]);
            assert(out@ =~= billing_header() + billing_lines(rows@.subrange(0, i + 1)));
        }
        i = i + 1;
    }
    assert(rows@.subrange(0, i as int) =~= rows@);
    out
}

/// The proof that an audit path describes: a sibling is on the right exactly when its
/// position reads "right".
pub open spec fn proof_of_path(p: ComplianceProof, q: MerkleProof) -> bool {
    &&& q.leaf_hash@ == p.leaf_hash@
    &&& q.root_hash@ == p.root_hash@
    &&& q.leaf_index == p.leaf_index
    &&& q.proof_hashes@.len() == p.audit_path@.len()
    &&& q.proof_directions@.len() == p.audit_path@.len()
    &&& forall|i: int|
        0 <= i < p.audit_path@.len() ==> {
            &&& (#[trigger] q.proof_hashes@[i])@ == p.audit_path@[i].hash@
            &&& q.proof_directions@[i] == (p.audit_path@[i].position@ == "right"@)
        }
}

/// Reads a compliance proof back into an inclusion proof.
pub fn proof_from_compliance(p: &ComplianceProof) -> (r: MerkleProof)
    ensures
        proof_of_path(*p, r),
{
    let mut hashes: Vec<String> = Vec::new();
    let mut dirs: Vec<bool> = Vec::new();
    let mut i: usize = 0;
    while i < p.audit_path.len()
        invariant
            i <= p.audit_path@.len(),
            hashes@.len() == i,
            dirs@.len() == i,
            forall|k: int|
                0 <= k < i ==> {
                    &&& (#[trigger] hashes@[k])@ == p.audit_path@[k].hash@
                    &&& dirs@[k] == (p.audit_path@[k].position@ == "right"@)
                },
        decreases p.audit_path@.len() - i,
    {
        let e: &AuditPathEntry = &p.audit_path[i];
        hashes.push(e.hash.clone());
        dirs.push(str_equals(e.position.as_str(), "right"));
        i = i + 1;
    }
    MerkleProof {
        leaf_hash: p.leaf_hash.clone(),
        root_hash: p.root_hash.clone(),
        proof_hashes: hashes,
        proof_directions: dirs,
        leaf_index: p.leaf_index,
    }
}

/// Checks an exported proof for the encounter `draft_id`.
pub fn verify_compliance_proof(draft_id: &String, p: &ComplianceProof) -> (r: ProofVerification)
    ensures
        r.draft_id@ == draft_id@,
        r.leaf_hash@ == p.leaf_hash@,
        r.is_valid == exists|q: MerkleProof| proof_of_path(*p, q) && proof_holds(q),
{
    let q = proof_from_compliance(p);
    let ok = verify_proof(&q);
    proof {
        if !ok {
            assert forall|q2: MerkleProof| proof_of_path(*p, q2) implies !proof_holds(q2) by {
                assert forall|i: int| 0 <= i < q.proof_hashes@.len() implies string_views(
                    q2.proof_hashes@,
                )[i] == string_views(q.proof_hashes@)[i] by {
                    assert(q2.proof_hashes@[i]@ == p.audit_path@[i].hash@);
                    assert(q.proof_hashes@[i]@ == p.audit_path@[i].hash@);
                }
                assert(string_views(q2.proof_hashes@) =~= string_views(q.proof_hashes@));
                assert forall|i: int| 0 <= i < q.proof_directions@.len() implies q2.proof_directions@[i]
                    == q.proof_directions@[i] by {
                    assert(q2.proof_hashes@[i]@ == p.audit_path@[i].hash@);
                    assert(q.proof_hashes@[i]@ == p.audit_path@[i].hash@);
                }
                assert(q2.proof_directions@ =~= q.proof_directions@);
            }
        }
    }
    ProofVerification { draft_id: draft_id.clone(), leaf_hash: p.leaf_hash.clone(), is_valid: ok }
}

/// A proof whose hash and direction lists have the same length reads back from its
/// compliance rendering unchanged, so the rendering verifies exactly when the proof does.
pub proof fn lemma_compliance_round_trip(p: MerkleProof, c: ComplianceProof)
    requires
        compliance_of(p, c),
        p.proof_hashes@.len() == p.proof_directions@.len(),
    ensures
        proof_of_path(c, p),
        (exists|q: MerkleProof| proof_of_path(c, q) && proof_holds(q)) <==> proof_holds(p),
{
    reveal_strlit("right");
    assert("right"@ =~= position_word(true));
    assert forall|i: int| 0 <= i < c.audit_path@.len() implies {
        &&& (#[trigger] p.proof_hashes@[i])@ == c.audit_path@[i].hash@
        &&& p.proof_directions@[i] == (c.audit_path@[i].position@ == "right"@)
    } by {
        if !p.proof_directions@[i] {
            assert(position_word(false).len() != "right"@.len());
        }
    }
    assert forall|q: MerkleProof| proof_of_path(c, q) implies (proof_holds(q) <==> proof_holds(p)) by {
        assert forall|i: int| 0 <= i < q.proof_hashes@.len() implies string_views(q.proof_hashes@)[i]
            == string_views(p.proof_hashes@)[i] by {
            assert(q.proof_hashes@[i]@ == c.audit_path@[i].hash@);
            assert(p.proof_hashes@[i]@ == c.audit_path@[i].hash@);
        }
        assert(string_views(q.proof_hashes@) =~= string_views(p.proof_hashes@));
        assert forall|i: int| 0 <= i < q.proof_directions@.len() implies q.proof_directions@[i]
            == p.proof_directions@[i] by {
            assert(q.proof_hashes@[i]@ == c.audit_path@[i].hash@);
            assert(p.proof_hashes@[i]@ == c.audit_path@[i].hash@);
        }
        assert(q.proof_directions@ =~= p.proof_directions@);
    }
}

} // verus!
