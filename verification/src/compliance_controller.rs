//! The compliance controller: reads every arm of a Compliance promessa
//! through the observer seam, marks the two decision beats that are not
//! wired with typed design markers, and builds the payload a tick
//! attests on the outcome chain.

use vstd::prelude::*;
use vstd::string::*;
use crate::compliance::{
    ArmObservation, ArmOutcome, ArmVerdict, CompliancePayload, CompliancePromessa,
};
use crate::hash::{hex_lower, ContentHash};

verus! {

/// An arm observation failure.
#[derive(Debug)]
pub enum ObserveError {
    Backend { arm: String, reason: String },
}

impl ObserveError {
    /// The error's display text.
    pub open spec fn text(self) -> Seq<char> {
        match self {
            ObserveError::Backend { arm, reason } => "observe arm `"@ + arm@ + "`: "@ + reason@,
        }
    }

    pub fn message(&self) -> (s: String)
        ensures
            s@ == self.text(),
    {
        match self {
            ObserveError::Backend { arm, reason } => String::from_str("observe arm `").concat(arm.as_str()).concat(
                "`: ",
            ).concat(reason.as_str()),
        }
    }
}

/// The side-effect seam of the Observe beat: reads one arm against its
/// declared source.
pub trait ComplianceObserver {
    fn observe_arm(&self, arm_tag: &str, observation: Option<&ArmObservation>) -> Result<(ArmVerdict, Option<String>), ObserveError>;
}

/// The observer that reads no live source: every arm comes back
/// `NotYetObserved`.
#[derive(Clone, Copy, Debug, Default)]
pub struct ScaffoldObserver;

impl ComplianceObserver for ScaffoldObserver {
    fn observe_arm(&self, _arm_tag: &str, _observation: Option<&ArmObservation>) -> (r: Result<(ArmVerdict, Option<String>), ObserveError>)
        ensures
            r matches Ok((verdict, Some(detail))) && verdict == ArmVerdict::NotYetObserved
                && detail@ == "scaffold observer — no live source wired"@,
    {
        Ok((ArmVerdict::NotYetObserved, Some(String::from_str("scaffold observer — no live source wired"))))
    }
}

/// What a beat that is not wired would do, returned in place of a
/// fabricated success.
#[derive(Debug, PartialEq, Eq)]
pub enum BeatIntent {
    Design { beat: &'static str, note: &'static str },
}

impl Clone for BeatIntent {
    fn clone(&self) -> (c: Self)
        ensures
            c == *self,
    {
        match self {
            BeatIntent::Design { beat, note } => BeatIntent::Design { beat, note },
        }
    }
}

/// The Decide beat's design marker.
pub open spec fn is_decide_marker(i: BeatIntent) -> bool {
    i matches BeatIntent::Design { beat, note } && beat@ == "Decide"@
        && note@ == "compliance-violation → RemediationPolicy → RoutingDecision mapping is a NAMED GATE (not wired). No decision is fabricated."@
}

/// The Act beat's design marker.
pub open spec fn is_act_marker(i: BeatIntent) -> bool {
    i matches BeatIntent::Design { beat, note } && beat@ == "Act"@
        && note@ == "auto-correct of a control violation (GitOps mTLS-enforce / image-pin bump) is a NAMED GATE (not wired). No action is taken."@
}

impl BeatIntent {
    pub fn decide_pending() -> (i: BeatIntent)
        ensures
            is_decide_marker(i),
    {
        BeatIntent::Design {
            beat: "Decide",
            note: "compliance-violation → RemediationPolicy → RoutingDecision mapping is a NAMED GATE (not wired). No decision is fabricated.",
        }
    }

    pub fn act_pending() -> (i: BeatIntent)
        ensures
            is_act_marker(i),
    {
        BeatIntent::Design {
            beat: "Act",
            note: "auto-correct of a control violation (GitOps mTLS-enforce / image-pin bump) is a NAMED GATE (not wired). No action is taken.",
        }
    }
}


/// A failure to attest a tick.
#[derive(Debug)]
pub enum AttestError {
    SpecHash(String),
    Append(String),
}

impl AttestError {
    pub open spec fn text(self) -> Seq<char> {
        match self {
            AttestError::SpecHash(d) => "spec-hash: "@ + d@,
            AttestError::Append(d) => "append: "@ + d@,
        }
    }

    pub fn message(&self) -> (s: String)
        ensures
            s@ == self.text(),
    {
        match self {
            AttestError::SpecHash(d) => String::from_str("spec-hash: ").concat(d.as_str()),
            AttestError::Append(d) => String::from_str("append: ").concat(d.as_str()),
        }
    }
}

/// A failure of one compliance tick.
#[derive(Debug)]
pub enum ComplianceTickError {
    Observe(ObserveError),
    Attest(AttestError),
}

impl ComplianceTickError {
    /// The inner error's display text.
    pub open spec fn text(self) -> Seq<char> {
        match self {
            ComplianceTickError::Observe(e) => e.text(),
            ComplianceTickError::Attest(e) => e.text(),
        }
    }

    pub fn message(&self) -> (s: String)
        ensures
            s@ == self.text(),
    {
        match self {
            ComplianceTickError::Observe(e) => e.message(),
            ComplianceTickError::Attest(e) => e.message(),
        }
    }
}

/// One outcome per arm, in the arms' order, each naming its arm and
/// carrying its controls.
pub open spec fn outcomes_follow_arms(outcomes: Seq<ArmOutcome>, arms: Seq<crate::compliance::ComplianceArm>) -> bool {
    &&& outcomes.len() == arms.len()
    &&& forall|i: int|
        0 <= i < outcomes.len() ==> #[trigger] outcomes[i].arm == arms[i].arm && outcomes[i].controls@ == arms[i].controls@
}

/// Some arm came back unobserved.
pub open spec fn any_unobserved(outcomes: Seq<ArmOutcome>) -> bool {
    exists|i: int| 0 <= i < outcomes.len() && #[trigger] outcomes[i].verdict == ArmVerdict::NotYetObserved
}

/// `obs` refers to the observation an arm declares.
pub open spec fn refers_to(obs: Option<&ArmObservation>, declared: Option<ArmObservation>) -> bool {
    &&& (obs is Some <==> declared is Some)
    &&& obs is Some ==> *obs->0 == declared->0
}

/// Asked about arm `a` (its tag and its declared observation), the
/// observer may answer `answer`.
pub open spec fn may_answer<O: ComplianceObserver>(
    observer: O,
    a: crate::compliance::ComplianceArm,
    answer: Result<(ArmVerdict, Option<String>), ObserveError>,
) -> bool {
    exists|tag: &str, obs: Option<&ArmObservation>|
        #![trigger call_ensures(O::observe_arm, (&observer, tag, obs), answer)]
        tag@ == a.arm@ && refers_to(obs, a.observation) && call_ensures(O::observe_arm, (&observer, tag, obs), answer)
}

/// Asked about arm `a`, the observer may answer with a verdict.
pub open spec fn answers_ok<O: ComplianceObserver>(observer: O, a: crate::compliance::ComplianceArm) -> bool {
    exists|p: (ArmVerdict, Option<String>)| #[trigger] may_answer(observer, a, Ok(p))
}

/// Asked about the arms in order, the observer may answer each arm
/// before `k` with a verdict and arm `k` with error `e`.
pub open spec fn fails_at<O: ComplianceObserver>(
    observer: O,
    arms: Seq<crate::compliance::ComplianceArm>,
    k: int,
    e: ObserveError,
) -> bool {
    &&& 0 <= k < arms.len()
    &&& may_answer(observer, arms[k], Err(e))
    &&& forall|i: int| 0 <= i < k ==> #[trigger] answers_ok(observer, arms[i])
}

/// The compliance controller: owns the promessa declaration and the
/// Observe seam.
pub struct ComplianceController<O: ComplianceObserver> {
    promessa: CompliancePromessa,
    observer: O,
}

impl<O: ComplianceObserver> ComplianceController<O> {
    /// The declaration this controller ticks.
    pub closed spec fn declared(self) -> CompliancePromessa {
        self.promessa
    }

    /// The observer this controller reads arms through.
    pub closed spec fn observer_of(self) -> O {
        self.observer
    }

    pub fn new(promessa: CompliancePromessa, observer: O) -> (c: Self)
        ensures
            c.declared() == promessa,
            c.observer_of() == observer,
    {
        ComplianceController { promessa, observer }
    }

    pub fn promessa(&self) -> (p: &CompliancePromessa)
        ensures
            *p == self.declared(),
    {
        &self.promessa
    }

    /// Observe beat: reads every arm through the observer, in order.
    /// Returns one outcome per arm and whether the tick is a scaffold
    /// tick (some arm unobserved); the first observation failure ends
    /// the beat.
    pub fn observe_arms(&self) -> (r: Result<(Vec<ArmOutcome>, bool), ObserveError>)
        ensures
            match r {
                Ok((outcomes, scaffold)) => {
                    &&& outcomes_follow_arms(outcomes@, self.declared().arms@)
                    &&& scaffold == any_unobserved(outcomes@)
                    &&& forall|i: int|
                        0 <= i < outcomes@.len() ==> may_answer(
                            self.observer_of(),
                            self.declared().arms@[i],
                            Ok((#[trigger] outcomes@[i].verdict, outcomes@[i].detail)),
                        )
                },
                Err(e) => exists|k: int| #[trigger] fails_at(self.observer_of(), self.declared().arms@, k, e),
            },
    {
        let arms = &self.promessa.arms;
        let mut outcomes: Vec<ArmOutcome> = Vec::new();
        let mut scaffold = false;
        let mut k: usize = 0;
        while k < arms.len()
            invariant
                arms == self.promessa.arms,
                k <= arms@.len(),
                outcomes@.len() == k,
                forall|i: int|
                    0 <= i < k ==> #[trigger] outcomes@[i].arm == arms@[i].arm && outcomes@[i].controls@
                        == arms@[i].controls@,
                scaffold == any_unobserved(outcomes@),
                forall|i: int|
                    0 <= i < k ==> may_answer(self.observer, arms@[i], Ok((#[trigger] outcomes@[i].verdict, outcomes@[i].detail))),
            decreases arms@.len() - k,
        {
            let arm = &arms[k];
            let tag = arm.arm.as_str();
            let obs = arm.observation.as_ref();
            let answer = self.observer.observe_arm(tag, obs);
            assert(may_answer(self.observer, arms@[k as int], answer));
            let (verdict, detail) = match answer {
                Ok(pair) => pair,
                Err(e) => {
                    proof {
                        assert forall|i: int| 0 <= i < k implies #[trigger] answers_ok(self.observer, arms@[i]) by {
                            assert(may_answer(self.observer, arms@[i], Ok((outcomes@[i].verdict, outcomes@[i].detail))));
                        }
                        assert(fails_at(self.observer_of(), self.declared().arms@, k as int, e));
                    }
                    let failed: Result<(Vec<ArmOutcome>, bool), ObserveError> = Err(e);
                    assert(failed is Err && failed->Err_0 == e);
                    return failed;
                },
            };
            if verdict == ArmVerdict::NotYetObserved {
                scaffold = true;
            }
            let controls = arm.controls.clone();
            assert(controls@ =~= arm.controls@);
            let ghost before = outcomes@;
            outcomes.push(ArmOutcome { arm: arm.arm.clone(), controls, verdict, detail });
            proof {
                assert forall|i: int| 0 <= i < k implies #[trigger] outcomes@[i] == before[i] by {}
                if any_unobserved(before) {
                    let i = choose|i: int| 0 <= i < before.len() && #[trigger] before[i].verdict == ArmVerdict::NotYetObserved;
                    assert(outcomes@[i].verdict == ArmVerdict::NotYetObserved);
                }
                if verdict == ArmVerdict::NotYetObserved {
                    assert(outcomes@[k as int].verdict == ArmVerdict::NotYetObserved);
                }
                if any_unobserved(outcomes@) {
                    let i = choose|i: int| 0 <= i < outcomes@.len() && #[trigger] outcomes@[i].verdict == ArmVerdict::NotYetObserved;
                    if i < k {
                        assert(before[i].verdict == ArmVerdict::NotYetObserved);
                    }
                }
            }
            k = k + 1;
        }
        Ok((outcomes, scaffold))
    }

    /// Decide beat: not wired; returns its design marker.
    pub fn decide_intent(&self) -> (i: BeatIntent)
        ensures
            is_decide_marker(i),
    {
        BeatIntent::decide_pending()
    }

    /// Act beat: not wired; returns its design marker.
    pub fn act_intent(&self) -> (i: BeatIntent)
        ensures
            is_act_marker(i),
    {
        BeatIntent::act_pending()
    }

    /// Attest beat: builds the payload this tick appends to the outcome
    /// chain, bound to the declaration's canonical encoding (or the
    /// failure to produce it).
    pub fn attest_tick(
        &self,
        canonical_spec: Result<Vec<u8>, String>,
        tick_index: u64,
        arm_outcomes: Vec<ArmOutcome>,
        scaffold: bool,
    ) -> (r: Result<CompliancePayload, AttestError>)
        ensures
            match canonical_spec {
                Ok(bytes) => r matches Ok(p) && {
                    &&& p.promessa_name == self.declared().name
                    &&& p.baseline == self.declared().baseline
                    &&& p.spec_hash.0@ == crate::hash::blake3_digest(bytes@)
                    &&& p.tick_index == tick_index
                    &&& p.arm_outcomes == arm_outcomes
                    &&& p.scaffold == scaffold
                },
                Err(d) => r == Err::<CompliancePayload, AttestError>(AttestError::SpecHash(d)),
            },
    {
        let spec_hash = match canonical_spec {
            Ok(bytes) => CompliancePromessa::spec_hash(bytes.as_slice()),
            Err(d) => return Err(AttestError::SpecHash(d)),
        };
        Ok(CompliancePayload {
            promessa_name: self.promessa.name.clone(),
            baseline: self.promessa.baseline,
            spec_hash,
            tick_index,
            arm_outcomes,
            scaffold,
        })
    }

    /// One scaffold tick up to its receipt: Observe, the Decide and Act
    /// design markers, and the payload Attest appends.
    pub fn scaffold_tick(&self, canonical_spec: Result<Vec<u8>, String>, tick_index: u64) -> (r: Result<ScaffoldTick, ComplianceTickError>)
        ensures
            match r {
                Ok(t) => {
                    &&& outcomes_follow_arms(t.payload.arm_outcomes@, self.declared().arms@)
                    &&& t.payload.scaffold == any_unobserved(t.payload.arm_outcomes@)
                    &&& forall|i: int|
                        0 <= i < t.payload.arm_outcomes@.len() ==> may_answer(
                            self.observer_of(),
                            self.declared().arms@[i],
                            Ok((#[trigger] t.payload.arm_outcomes@[i].verdict, t.payload.arm_outcomes@[i].detail)),
                        )
                    &&& t.payload.promessa_name == self.declared().name
                    &&& t.payload.baseline == self.declared().baseline
                    &&& t.payload.tick_index == tick_index
                    &&& canonical_spec matches Ok(bytes) && t.payload.spec_hash.0@ == crate::hash::blake3_digest(bytes@)
                    &&& is_decide_marker(t.decide)
                    &&& is_act_marker(t.act)
                },
                Err(ComplianceTickError::Observe(e)) => exists|k: int| #[trigger] fails_at(self.observer_of(), self.declared().arms@, k, e),
                Err(ComplianceTickError::Attest(e)) => canonical_spec matches Err(d) && e == AttestError::SpecHash(d),
            },
    {
        let (outcomes, scaffold) = match self.observe_arms() {
            Ok(pair) => pair,
            Err(e) => {
                let failed: Result<ScaffoldTick, ComplianceTickError> = Err(ComplianceTickError::Observe(e));
                assert(failed matches Err(ComplianceTickError::Observe(f)) && f == e);
                return failed;
            },
        };
        let decide = self.decide_intent();
        let act = self.act_intent();
        let payload = match self.attest_tick(canonical_spec, tick_index, outcomes, scaffold) {
            Ok(p) => p,
            Err(e) => return Err(ComplianceTickError::Attest(e)),
        };
        Ok(ScaffoldTick { payload, decide, act })
    }
}

/// A scaffold tick observed and assembled, awaiting its receipt.
#[derive(Debug)]
pub struct ScaffoldTick {
    /// The payload to append to the outcome chain.
    pub payload: CompliancePayload,
    /// The Decide beat's design marker.
    pub decide: BeatIntent,
    /// The Act beat's design marker.
    pub act: BeatIntent,
}

/// The result of one scaffold tick: the receipt's provenance plus the
/// markers of the two beats that are not wired.
#[derive(Debug)]
pub struct ScaffoldTickReport {
    /// Hex of the sealed receipt's BLAKE3 content hash.
    pub receipt_hash_hex: String,
    /// The receipt's chain sequence number.
    pub sequence: u64,
    /// Whether this tick is a scaffold tick (some arm unobserved).
    pub scaffold: bool,
    pub decide: BeatIntent,
    pub act: BeatIntent,
}

impl Clone for ScaffoldTickReport {
    fn clone(&self) -> (c: Self)
        ensures
            c == *self,
    {
        ScaffoldTickReport {
            receipt_hash_hex: self.receipt_hash_hex.clone(),
            sequence: self.sequence,
            scaffold: self.scaffold,
            decide: self.decide.clone(),
            act: self.act.clone(),
        }
    }
}

impl ScaffoldTick {
    /// Seals the tick with the receipt the chain returned for its payload.
    pub fn seal(self, sequence: u64, content_hash: ContentHash) -> (r: ScaffoldTickReport)
        ensures
            r.receipt_hash_hex@ == hex_lower(content_hash.0@),
            r.sequence == sequence,
            r.scaffold == self.payload.scaffold,
            r.decide == self.decide,
            r.act == self.act,
    {
        ScaffoldTickReport {
            receipt_hash_hex: content_hash.hex(),
            sequence,
            scaffold: self.payload.scaffold,
            decide: self.decide,
            act: self.act,
        }
    }
}

} // verus!
