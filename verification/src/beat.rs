//! The seven beats of a tick, the status of one beat and the phase a
//! tick lands in.

use vstd::prelude::*;

verus! {

/// One of the seven beats in the tick.
#[derive(Clone, Copy, Debug, PartialEq, Eq, Structural)]
pub enum Beat {
    Observe,
    Diff,
    Classify,
    Decide,
    Act,
    Attest,
    Tick,
}

/// The seven beats in canonical order.
pub open spec fn canonical_beats() -> Seq<Beat> {
    seq![Beat::Observe, Beat::Diff, Beat::Classify, Beat::Decide, Beat::Act, Beat::Attest, Beat::Tick]
}

/// No beat stands twice in the canonical order.
pub proof fn lemma_canonical_distinct(i: int, j: int)
    requires
        0 <= i < 7,
        0 <= j < 7,
        canonical_beats()[i] == canonical_beats()[j],
    ensures
        i == j,
{
    let c = canonical_beats();
    assert(c[0] == Beat::Observe && c[1] == Beat::Diff && c[2] == Beat::Classify && c[3] == Beat::Decide);
    assert(c[4] == Beat::Act && c[5] == Beat::Attest && c[6] == Beat::Tick);
}

impl Beat {
    /// The beat's name as it appears in receipts and telemetry.
    pub open spec fn name(self) -> Seq<char> {
        match self {
            Beat::Observe => "Observe"@,
            Beat::Diff => "Diff"@,
            Beat::Classify => "Classify"@,
            Beat::Decide => "Decide"@,
            Beat::Act => "Act"@,
            Beat::Attest => "Attest"@,
            Beat::Tick => "Tick"@,
        }
    }

    pub fn as_str(self) -> (s: &'static str)
        ensures
            s@ == self.name(),
    {
        match self {
            Beat::Observe => "Observe",
            Beat::Diff => "Diff",
            Beat::Classify => "Classify",
            Beat::Decide => "Decide",
            Beat::Act => "Act",
            Beat::Attest => "Attest",
            Beat::Tick => "Tick",
        }
    }

    /// The seven beats in canonical order.
    pub fn canonical_order() -> (order: [Beat; 7])
        ensures
            order@ == canonical_beats(),
    {
        let order = [Beat::Observe, Beat::Diff, Beat::Classify, Beat::Decide, Beat::Act, Beat::Attest, Beat::Tick];
        assert(order@ =~= canonical_beats());
        order
    }
}

/// What one beat came to.
#[derive(Clone, Copy, Debug, PartialEq, Eq, Structural)]
pub enum BeatStatus {
    Succeeded,
    Skipped,
    Failed,
}

/// The terminal phase one tick lands in.
#[derive(Clone, Copy, Debug, PartialEq, Eq, Structural)]
pub enum TickPhase {
    /// No drift, no work needed.
    Stable,
    /// Drift detected; action taken or scheduled.
    Reconverging,
    /// Drift detected; held for operator approval.
    HoldingForApproval,
    /// Anomaly escalated to a notify target.
    Escalated,
    /// A beat returned a typed error.
    Failed,
}

impl TickPhase {
    pub open spec fn name(self) -> Seq<char> {
        match self {
            TickPhase::Stable => "Stable"@,
            TickPhase::Reconverging => "Reconverging"@,
            TickPhase::HoldingForApproval => "HoldingForApproval"@,
            TickPhase::Escalated => "Escalated"@,
            TickPhase::Failed => "Failed"@,
        }
    }

    pub fn as_str(self) -> (s: &'static str)
        ensures
            s@ == self.name(),
    {
        match self {
            TickPhase::Stable => "Stable",
            TickPhase::Reconverging => "Reconverging",
            TickPhase::HoldingForApproval => "HoldingForApproval",
            TickPhase::Escalated => "Escalated",
            TickPhase::Failed => "Failed",
        }
    }
}

} // verus!
