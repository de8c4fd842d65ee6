//! Draft lifecycle and review status.
use vstd::prelude::*;
use vstd::string::StringExecFns;
use crate::text::str_equals;

verus! {

/// Where a draft stands. A draft only ever moves forward through these, in this order.
#[derive(Debug, Clone, Copy, PartialEq, Eq, Structural)]
pub enum DraftStatus {
    Recording,
    Transcribed,
    PendingReview,
    Reviewed,
    Committed,
}

impl DraftStatus {
    /// Position of the status in the lifecycle.
    pub open spec fn rank(self) -> nat {
        match self {
            DraftStatus::Recording => 0,
            DraftStatus::Transcribed => 1,
            DraftStatus::PendingReview => 2,
            DraftStatus::Reviewed => 3,
            DraftStatus::Committed => 4,
        }
    }

    /// The stored name of the status.
    pub open spec fn name(self) -> Seq<char> {
        match self {
            DraftStatus::Recording => "recording"@,
            DraftStatus::Transcribed => "transcribed"@,
            DraftStatus::PendingReview => "pending_review"@,
            DraftStatus::Reviewed => "reviewed"@,
            DraftStatus::Committed => "committed"@,
        }
    }

    /// The status that follows this one; `None` after `Committed`.
    pub fn next(&self) -> (r: Option<DraftStatus>)
        ensures
            r matches Some(n) ==> n.rank() == self.rank() + 1,
            r is None <==> *self == DraftStatus::Committed,
    {
        match self {
            DraftStatus::Recording => Some(DraftStatus::Transcribed),
            DraftStatus::Transcribed => Some(DraftStatus::PendingReview),
            DraftStatus::PendingReview => Some(DraftStatus::Reviewed),
            DraftStatus::Reviewed => Some(DraftStatus::Committed),
            DraftStatus::Committed => None,
        }
    }

    /// Whether a draft may move from this status to `to`: forward by one step only.
    pub fn can_move_to(&self, to: DraftStatus) -> (r: bool)
        ensures
            r == (to.rank() == self.rank() + 1),
    {
        match self.next() {
            Some(n) => n == to,
            None => false,
        }
    }
}

/// The stored name of a draft status.
pub fn status_to_string(status: &DraftStatus) -> (r: &'static str)
    ensures
        r@ == status.name(),
{
    match status {
        DraftStatus::Recording => "recording",
        DraftStatus::Transcribed => "transcribed",
        DraftStatus::PendingReview => "pending_review",
        DraftStatus::Reviewed => "reviewed",
        DraftStatus::Committed => "committed",
    }
}

/// Parses a stored draft status; an unknown name gives an error that quotes it.
pub fn string_to_status(s: &str) -> (r: Result<DraftStatus, String>)
    ensures
        r matches Ok(st) ==> st.name() == s@,
        r is Err ==> forall|st: DraftStatus| st.name() != s@,
{
    if str_equals(s, "recording") {
        Ok(DraftStatus::Recording)
    } else if str_equals(s, "transcribed") {
        Ok(DraftStatus::Transcribed)
    } else if str_equals(s, "pending_review") {
        Ok(DraftStatus::PendingReview)
    } else if str_equals(s, "reviewed") {
        Ok(DraftStatus::Reviewed)
    } else if str_equals(s, "committed") {
        Ok(DraftStatus::Committed)
    } else {
        assert forall|st: DraftStatus| st.name() != s@ by {
            match st {
                DraftStatus::Recording => {},
                DraftStatus::Transcribed => {},
                DraftStatus::PendingReview => {},
                DraftStatus::Reviewed => {},
                DraftStatus::Committed => {},
            }
        }
        let mut msg = String::from_str("Unknown draft status: ");
        msg.append(s);
        Err(msg)
    }
}

/// The outcome of a clinician's review of one resolved item.
#[derive(Debug, Clone)]
pub enum ResolutionStatus {
    PendingReview,
    Approved,
    AlternativeSelected { selected_sku: String },
    ManualOverride { override_sku: String },
    Rejected,
}

impl ResolutionStatus {
    /// Whether the item still awaits review.
    pub fn needs_review(&self) -> (r: bool)
        ensures
            r == (*self is PendingReview),
    {
        match self {
            ResolutionStatus::PendingReview => true,
            _ => false,
        }
    }

    /// The SKU the review settled on, given the top candidate's SKU: the top candidate
    /// when approved, the chosen SKU for an alternative or an override, and none while
    /// pending or when rejected.
    pub fn final_sku(&self, top_sku: &String) -> (r: Option<String>)
        ensures
            match *self {
                ResolutionStatus::Approved => r matches Some(s) && s@ == top_sku@,
                ResolutionStatus::AlternativeSelected { selected_sku } => r matches Some(s) && s@
                    == selected_sku@,
                ResolutionStatus::ManualOverride { override_sku } => r matches Some(s) && s@
                    == override_sku@,
                _ => r is None,
            },
    {
        match self {
            ResolutionStatus::Approved => Some(top_sku.clone()),
            ResolutionStatus::AlternativeSelected { selected_sku } => Some(selected_sku.clone()),
            ResolutionStatus::ManualOverride { override_sku } => Some(override_sku.clone()),
            _ => None,
        }
    }
}

/// The number of items still pending review.
pub open spec fn pending_count(s: Seq<ResolutionStatus>) -> nat
    decreases s.len(),
{
    if s.len() == 0 {
        0
    } else {
        pending_count(s.drop_last()) + if s.last() is PendingReview {
            1nat
        } else {
            0nat
        }
    }
}

/// Counts the items still pending review.
pub fn pending_review_count(statuses: &Vec<ResolutionStatus>) -> (r: usize)
    ensures
        r == pending_count(statuses@),
{
    let mut n: usize = 0;
    let mut i: usize = 0;
    while i < statuses.len()
        invariant
            i <= statuses@.len(),
            n == pending_count(statuses@.subrange(0, i as int)),
            n <= i,
        decreases statuses@.len() - i,
    {
        assert(statuses@.subrange(0, i + 1).drop_last() =~= statuses@.subrange(0, i as int));
        if statuses[i].needs_review() {
            n = n + 1;
        }
        i = i + 1;
    }
    assert(statuses@.subrange(0, i as int) =~= statuses@);
    n
}

/// Whether no item is pending review.
pub fn all_reviewed(statuses: &Vec<ResolutionStatus>) -> (r: bool)
    ensures
        r == forall|i: int| 0 <= i < statuses@.len() ==> !(#[trigger] statuses@[i] is PendingReview),
{
    let mut i: usize = 0;
    while i < statuses.len()
        invariant
            i <= statuses@.len(),
            forall|k: int| 0 <= k < i ==> !(#[trigger] statuses@[k] is PendingReview),
        decreases statuses@.len() - i,
    {
        if statuses[i].needs_review() {
            return false;
        }
        i = i + 1;
    }
    true
}

/// How a reviewed item's SKU was settled.
#[derive(Debug, Clone, Copy, PartialEq, Eq, Structural)]
pub enum MethodKind {
    SystemApproved,
    AlternativeSelected,
    ManualOverride,
}

/// A reviewed item that becomes a line of the encounter.
#[derive(Debug)]
pub struct LineDecision {
    /// Position of the item among the draft's items.
    pub index: usize,
    /// The SKU the review settled on.
    pub sku: String,
    pub method: MethodKind,
}

/// The line an item becomes, given its top candidate's SKU; none when rejected or pending.
pub open spec fn decision_of(st: ResolutionStatus, top: Seq<char>) -> Option<(Seq<char>, MethodKind)> {
    match st {
        ResolutionStatus::Approved => Some((top, MethodKind::SystemApproved)),
        ResolutionStatus::AlternativeSelected { selected_sku } => Some(
            (selected_sku@, MethodKind::AlternativeSelected),
        ),
        ResolutionStatus::ManualOverride { override_sku } => Some(
            (override_sku@, MethodKind::ManualOverride),
        ),
        _ => None,
    }
}

/// The lines of the first `n` items, in order, each with its position.
pub open spec fn decisions(sts: Seq<ResolutionStatus>, tops: Seq<Seq<char>>, n: int) -> Seq<(int, Seq<char>, MethodKind)>
    decreases n,
{
    if n <= 0 {
        Seq::empty()
    } else {
        let prev = decisions(sts, tops, n - 1);
        match decision_of(sts[n - 1], tops[n - 1]) {
            Some((sku, m)) => prev.push((n - 1, sku, m)),
            None => prev,
        }
    }
}

/// View of a list of line decisions.
pub open spec fn decision_view(v: Seq<LineDecision>) -> Seq<(int, Seq<char>, MethodKind)> {
    Seq::new(v.len(), |i: int| (v[i].index as int, v[i].sku@, v[i].method))
}

/// The lines of a reviewed encounter: `None` while any item is pending review; else one
/// line per approved, alternative or overridden item, in order, rejected items left out.
pub fn review_decisions(statuses: &Vec<ResolutionStatus>, top_skus: &Vec<String>) -> (r: Option<Vec<LineDecision>>)
    requires
        statuses@.len() == top_skus@.len(),
    ensures
        r is None <==> exists|i: int| 0 <= i < statuses@.len() && (#[trigger] statuses@[i]) is PendingReview,
        r matches Some(v) ==> decision_view(v@) == decisions(
            statuses@,
            crate::search::views(top_skus@),
            statuses@.len() as int,
        ),
{
    if !all_reviewed(statuses) {
        return None;
    }
    let ghost tops = crate::search::views(top_skus@);
    let mut out: Vec<LineDecision> = Vec::new();
    let mut i: usize = 0;
    while i < statuses.len()
        invariant
            i <= statuses@.len(),
            statuses@.len() == top_skus@.len(),
            tops == crate::search::views(top_skus@),
            decision_view(out@) == decisions(statuses@, tops, i as int),
        decreases statuses@.len() - i,
    {
        let ghost before = decision_view(out@);
        assert(tops[i as int] == top_skus@[i as int]@);
        match statuses[i].final_sku(&top_skus[i]) {
            Some(sku) => {
                let method = match &statuses[i] {
                    ResolutionStatus::Approved => MethodKind::SystemApproved,
                    ResolutionStatus::AlternativeSelected { .. } => MethodKind::AlternativeSelected,
                    _ => MethodKind::ManualOverride,
                };
                out.push(LineDecision { index: i, sku, method });
                assert(decision_view(out@) =~= before.push((i as int, out@.last().sku@, method)));
            },
            None => {
                assert(decision_view(out@) =~= before);
            },
        }
        i = i + 1;
    }
    Some(out)
}

/// Errors of resolution.
#[derive(Debug)]
pub enum ResolverError {
    /// The store failed.
    Database(String),
    /// No catalog item qualified for the mention.
    NoCandidates(String),
}

/// Errors at the library's outer boundary.
#[derive(Debug)]
pub enum FuzzyDrugsError {
    DatabaseError(String),
    NotFound(String),
    InvalidInput(String),
    SerializationError(String),
    SyncError(String),
}

} // verus!
