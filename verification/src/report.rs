//! The record of one tick: what each beat came to, and where the tick
//! landed.

use vstd::prelude::*;
use crate::address::ResourceAddress;
use crate::anomaly::RoutingDecision;
use crate::beat::{canonical_beats, Beat, BeatStatus, TickPhase};

verus! {

/// What one beat returned, which beat ran, and when.
#[derive(Clone, Debug, PartialEq, Eq)]
pub struct BeatOutcome {
    pub beat: Beat,
    /// Nanoseconds since the epoch.
    pub started_at: i128,
    /// Nanoseconds since the epoch.
    pub ended_at: i128,
    pub status: BeatStatus,
    pub message: Option<String>,
}

/// Full record of one tick.
#[derive(Clone, Debug, PartialEq, Eq)]
pub struct TickReport {
    /// Nanoseconds since the epoch.
    pub started_at: i128,
    /// Nanoseconds since the epoch.
    pub ended_at: i128,
    pub source: ResourceAddress,
    pub beats: Vec<BeatOutcome>,
    pub final_phase: TickPhase,
    pub decision: Option<RoutingDecision>,
}

/// Some outcome in `beats` records beat `b` as having run.
pub open spec fn visits(beats: Seq<BeatOutcome>, b: Beat) -> bool {
    exists|i: int| 0 <= i < beats.len() && #[trigger] beats[i].beat == b && beats[i].status == BeatStatus::Succeeded
}

/// Every one of the seven beats ran at least once.
pub open spec fn visits_every_beat(beats: Seq<BeatOutcome>) -> bool {
    forall|b: Beat| #[trigger] visits(beats, b)
}

/// Every beat is one of the seven in canonical order.
pub proof fn lemma_beat_is_canonical(b: Beat)
    ensures
        exists|k: int| 0 <= k < 7 && canonical_beats()[k] == b,
{
    match b {
        Beat::Observe => assert(canonical_beats()[0] == b),
        Beat::Diff => assert(canonical_beats()[1] == b),
        Beat::Classify => assert(canonical_beats()[2] == b),
        Beat::Decide => assert(canonical_beats()[3] == b),
        Beat::Act => assert(canonical_beats()[4] == b),
        Beat::Attest => assert(canonical_beats()[5] == b),
        Beat::Tick => assert(canonical_beats()[6] == b),
    }
}

/// Whether every beat ran depends only on which outcomes a report
/// records: when every outcome of `beats` is also in `more` and every
/// beat ran in `beats`, every beat ran in `more`. So recording more
/// outcomes keeps it true.
pub proof fn law_every_beat_ran_survives_more_outcomes(beats: Seq<BeatOutcome>, more: Seq<BeatOutcome>)
    requires
        forall|o: BeatOutcome| beats.contains(o) ==> more.contains(o),
        visits_every_beat(beats),
    ensures
        visits_every_beat(more),
{
    assert forall|b: Beat| #[trigger] visits(more, b) by {
        assert(visits(beats, b));
        let i = choose|i: int| 0 <= i < beats.len() && #[trigger] beats[i].beat == b && beats[i].status == BeatStatus::Succeeded;
        assert(beats.contains(beats[i]));
        let j = choose|j: int| 0 <= j < more.len() && more[j] == beats[i];
        assert(more[j].beat == b);
    }
}

/// Appending outcomes to a report on which every beat ran keeps every
/// beat run.
pub proof fn law_every_beat_ran_survives_appending(beats: Seq<BeatOutcome>, extra: Seq<BeatOutcome>)
    requires
        visits_every_beat(beats),
    ensures
        visits_every_beat(beats + extra),
{
    assert forall|o: BeatOutcome| beats.contains(o) implies (beats + extra).contains(o) by {
        let i = choose|i: int| 0 <= i < beats.len() && beats[i] == o;
        assert((beats + extra)[i] == o);
    }
    law_every_beat_ran_survives_more_outcomes(beats, beats + extra);
}

/// Reordering a report's outcomes does not change whether every beat
/// ran.
pub proof fn law_every_beat_ran_ignores_order(beats: Seq<BeatOutcome>, reordered: Seq<BeatOutcome>)
    requires
        beats.to_multiset() == reordered.to_multiset(),
    ensures
        visits_every_beat(beats) <==> visits_every_beat(reordered),
{
    beats.to_multiset_ensures();
    reordered.to_multiset_ensures();
    assert forall|o: BeatOutcome| beats.contains(o) <==> reordered.contains(o) by {
        assert(beats.contains(o) <==> beats.to_multiset().count(o) > 0);
        assert(reordered.contains(o) <==> reordered.to_multiset().count(o) > 0);
    }
    if visits_every_beat(beats) {
        law_every_beat_ran_survives_more_outcomes(beats, reordered);
    }
    if visits_every_beat(reordered) {
        law_every_beat_ran_survives_more_outcomes(reordered, beats);
    }
}

/// A report with no outcomes has not every beat run.
pub proof fn law_no_outcomes_no_beat_ran()
    ensures
        !visits_every_beat(Seq::<BeatOutcome>::empty()),
{
    assert(!visits(Seq::<BeatOutcome>::empty(), Beat::Observe));
}

impl TickReport {
    /// Wall-clock time the tick took, in nanoseconds.
    pub fn duration(&self) -> (d: i128)
        requires
            i128::MIN <= self.ended_at - self.started_at <= i128::MAX,
        ensures
            d == self.ended_at - self.started_at,
    {
        self.ended_at - self.started_at
    }

    /// Did every beat run? True when each of the seven beats has an
    /// outcome that succeeded.
    pub fn visited_every_beat(&self) -> (b: bool)
        ensures
            b == visits_every_beat(self.beats@),
    {
        let order = Beat::canonical_order();
        let mut k: usize = 0;
        while k < 7
            invariant
                k <= 7,
                order@ == canonical_beats(),
                forall|j: int| 0 <= j < k ==> visits(self.beats@, #[trigger] canonical_beats()[j]),
            decreases 7 - k,
        {
            let wanted = order[k];
            let mut found = false;
            let mut i: usize = 0;
            while i < self.beats.len()
                invariant
                    i <= self.beats@.len(),
                    found ==> visits(self.beats@, wanted),
                    !found ==> forall|j: int|
                        0 <= j < i ==> !(#[trigger] self.beats@[j].beat == wanted && self.beats@[j].status == BeatStatus::Succeeded),
                decreases self.beats@.len() - i,
            {
                if self.beats[i].beat == wanted && self.beats[i].status == BeatStatus::Succeeded {
                    found = true;
                }
                i = i + 1;
            }
            if !found {
                assert(!visits(self.beats@, wanted));
                return false;
            }
            k = k + 1;
        }
        assert forall|b: Beat| #[trigger] visits(self.beats@, b) by {
            lemma_beat_is_canonical(b);
        }
        true
    }
}

} // verus!
