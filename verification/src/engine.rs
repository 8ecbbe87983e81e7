//! The controller seam every lava controller implements, and the engine
//! that drives one tick through the seven beats in canonical order.

use vstd::prelude::*;
use vstd::string::*;
use indexmap::IndexMap;
use crate::address::ResourceAddress;
use crate::anomaly::{AnomalyKind, AnomalyRouter, LavaAnomaly, RemediationAction, RemediationPolicy, RouterError, RoutingDecision};
use crate::beat::{canonical_beats, Beat, BeatStatus, TickPhase};
use crate::drift::{DriftReport, Severity};
use crate::report::{lemma_beat_is_canonical, visits, visits_every_beat, BeatOutcome, TickReport};
use crate::clock::{is_clock_reading, now_from, reads_after};
use crate::text::{decimal, i128_to_decimal, signed_decimal, u128_to_decimal};

verus! {

/// `indexmap::IndexMap`, the bindings map a tick hands to the Observe and
/// Diff beats; the engine carries it without reading it.
#[verifier::external_type_specification]
#[verifier::external_body]
#[verifier::reject_recursive_types(K)]
#[verifier::reject_recursive_types(V)]
#[verifier::reject_recursive_types(S)]
pub struct ExIndexMap<K, V, S>(IndexMap<K, V, S>);

/// A typed error returned by one beat.
#[derive(Debug)]
pub enum ViggyError {
    Observe(String),
    Diff(String),
    Decide(String),
    Act(String),
    Attest(String),
}

impl ViggyError {
    /// The error's display text: the beat's name in lowercase, a colon
    /// and the detail.
    pub open spec fn text(self) -> Seq<char> {
        match self {
            ViggyError::Observe(d) => "observe: "@ + d@,
            ViggyError::Diff(d) => "diff: "@ + d@,
            ViggyError::Decide(d) => "decide: "@ + d@,
            ViggyError::Act(d) => "act: "@ + d@,
            ViggyError::Attest(d) => "attest: "@ + d@,
        }
    }

    pub fn message(&self) -> (s: String)
        ensures
            s@ == self.text(),
    {
        match self {
            ViggyError::Observe(d) => String::from_str("observe: ").concat(d.as_str()),
            ViggyError::Diff(d) => String::from_str("diff: ").concat(d.as_str()),
            ViggyError::Decide(d) => String::from_str("decide: ").concat(d.as_str()),
            ViggyError::Act(d) => String::from_str("act: ").concat(d.as_str()),
            ViggyError::Attest(d) => String::from_str("attest: ").concat(d.as_str()),
        }
    }
}

/// The severity a report classifies to by default: its maximum
/// severity, or `Cosmetic` on a clean report.
pub open spec fn severity_of(max_severity: Option<Severity>) -> Severity {
    match max_severity {
        Some(s) => s,
        None => Severity::Cosmetic,
    }
}

/// The phase the default Act beat lands in for an action.
pub open spec fn phase_for(action: RemediationAction) -> TickPhase {
    match action {
        RemediationAction::NoOp => TickPhase::Stable,
        RemediationAction::Alert => TickPhase::Stable,
        RemediationAction::AutoCorrect => TickPhase::Reconverging,
        RemediationAction::RequireApproval => TickPhase::HoldingForApproval,
        RemediationAction::Escalate => TickPhase::Escalated,
    }
}

/// The note the default Act beat records for an action.
pub open spec fn act_note(action: RemediationAction) -> Option<Seq<char>> {
    match action {
        RemediationAction::NoOp => None,
        RemediationAction::Alert => None,
        RemediationAction::AutoCorrect => Some("auto-correct enqueued"@),
        RemediationAction::RequireApproval => Some("awaiting LavaApproval CR"@),
        RemediationAction::Escalate => Some("escalation notified"@),
    }
}

/// The message of the anomaly the default Decide beat raises.
pub open spec fn drift_detected_text(count: nat) -> Seq<char> {
    "drift detected: "@ + decimal(count) + " field(s)"@
}

/// The anomaly the default Decide beat raises: drift detected at the
/// given severity on the source, naming how many fields drifted, with
/// no extension kind and no metadata.
pub open spec fn drift_anomaly(anomaly: LavaAnomaly, severity: Severity, source: ResourceAddress, count: nat) -> bool {
    &&& anomaly.kind == AnomalyKind::DriftDetected
    &&& anomaly.extension_kind is None
    &&& anomaly.severity == severity
    &&& anomaly.source == source
    &&& anomaly.message@ == drift_detected_text(count)
    &&& anomaly.metadata@.len() == 0
}

/// The note the Diff beat records.
pub open spec fn drifted_fields_text(count: nat) -> Seq<char> {
    decimal(count) + " drifted field(s)"@
}

/// Whole seconds of a span of nanoseconds, truncated toward zero.
pub open spec fn whole_seconds(nanos: int) -> int {
    if nanos >= 0 {
        nanos / 1_000_000_000
    } else {
        -((-nanos) / 1_000_000_000)
    }
}

/// The note the Tick beat records for a requeue delay.
pub open spec fn requeue_text(nanos: int) -> Seq<char> {
    "requeue in "@ + signed_decimal(whole_seconds(nanos)) + "s"@
}

/// The outcome carries exactly this message.
pub open spec fn message_is(o: BeatOutcome, text: Seq<char>) -> bool {
    o.message matches Some(m) && m@ == text
}

/// Under the default remediation policy (cosmetic alerts, functional
/// auto-corrects, critical requires approval), when the router picks the
/// policy's action for the drift's severity, the default Act beat lands
/// cosmetic drift `Stable`, functional drift `Reconverging` and critical
/// drift `HoldingForApproval`.
pub proof fn law_default_policy_phase(policy: RemediationPolicy, severity: Severity)
    requires
        policy.cosmetic == RemediationAction::Alert,
        policy.functional == RemediationAction::AutoCorrect,
        policy.critical == RemediationAction::RequireApproval,
    ensures
        phase_for(policy.action_for(severity)) == match severity {
            Severity::Cosmetic => TickPhase::Stable,
            Severity::Functional => TickPhase::Reconverging,
            Severity::Critical => TickPhase::HoldingForApproval,
        },
{
}

/// The default Act beat lands a tick according to what the decided
/// action does: an action that takes no step of its own (NoOp suppresses
/// the anomaly, Alert only notifies) lands `Stable` with no note;
/// AutoCorrect lands `Reconverging`, RequireApproval `HoldingForApproval`
/// and Escalate `Escalated`, each with a note; no action lands `Failed`.
pub proof fn law_default_act_phase(action: RemediationAction)
    ensures
        phase_for(action) == TickPhase::Stable <==> (action == RemediationAction::NoOp || action == RemediationAction::Alert),
        phase_for(action) == TickPhase::Stable <==> act_note(action) is None,
        phase_for(action) == TickPhase::Reconverging <==> action == RemediationAction::AutoCorrect,
        phase_for(action) == TickPhase::HoldingForApproval <==> action == RemediationAction::RequireApproval,
        phase_for(action) == TickPhase::Escalated <==> action == RemediationAction::Escalate,
        phase_for(action) != TickPhase::Failed,
{
}

/// The anomaly the default Decide beat raises names how many fields
/// drifted: reports with different counts give different messages, and
/// the message reads `drift detected: `, the count's decimal digits and
/// ` field(s)`, the digits being those of the count.
pub proof fn law_drift_message_names_the_count(n: nat, m: nat)
    ensures
        drift_detected_text(n) == drift_detected_text(m) <==> n == m,
        drifted_fields_text(n) == drifted_fields_text(m) <==> n == m,
        drift_detected_text(n) == "drift detected: "@ + decimal(n) + " field(s)"@,
{
    let p = "drift detected: "@;
    let q = " field(s)"@;
    if drift_detected_text(n) == drift_detected_text(m) {
        let a = drift_detected_text(n);
        let b = drift_detected_text(m);
        assert(a.len() == p.len() + decimal(n).len() + q.len());
        assert(b.len() == p.len() + decimal(m).len() + q.len());
        assert(decimal(n).len() == decimal(m).len());
        assert(decimal(n) =~= a.subrange(p.len() as int, (p.len() + decimal(n).len()) as int));
        assert(decimal(m) =~= b.subrange(p.len() as int, (p.len() + decimal(m).len()) as int));
        crate::text::law_decimal_injective(n, m);
    }
    if drifted_fields_text(n) == drifted_fields_text(m) {
        let a = drifted_fields_text(n);
        let b = drifted_fields_text(m);
        let r = " drifted field(s)"@;
        assert(a.len() == decimal(n).len() + r.len());
        assert(b.len() == decimal(m).len() + r.len());
        assert(decimal(n).len() == decimal(m).len());
        assert(decimal(n) =~= a.subrange(0, decimal(n).len() as int));
        assert(decimal(m) =~= b.subrange(0, decimal(m).len() as int));
        crate::text::law_decimal_injective(n, m);
    }
}

/// Every lava controller implements this seam: one method per beat.
/// Observe and Diff are the controller's own; the other beats have
/// default behaviour that a controller may override. `R` is the router
/// the Decide beat routes through; a controller implements the seam for
/// every router it accepts, most often for all of them.
pub trait PromessaController<R: AnomalyRouter> {
    /// Per-tick context the controller carries between beats.
    type Context;

    /// Reads live state.
    fn observe(&self, source: &ResourceAddress, bindings: &IndexMap<String, String>) -> Result<Self::Context, ViggyError>;

    /// Computes the drift report from the observed state.
    fn diff(&self, ctx: &Self::Context, bindings: &IndexMap<String, String>) -> Result<DriftReport, ViggyError>;

    /// Classifies severity: by default the report's maximum severity,
    /// or `Cosmetic` on a clean report.
    fn classify(&self, report: &DriftReport) -> (severity: Severity)
        default_ensures
            severity == severity_of(report.max_severity),
    {
        match report.max_severity {
            Some(s) => s,
            None => Severity::Cosmetic,
        }
    }

    /// Decides what to do: by default raises a drift anomaly for the
    /// source at the given severity and routes it through the router,
    /// returning the router's decision, or its error text as a Decide
    /// error. The anomaly is stamped with the clock (see `clock::now`).
    fn decide(
        &self,
        router: &R,
        policy: &RemediationPolicy,
        source: ResourceAddress,
        severity: Severity,
        report: &DriftReport,
    ) -> (res: Result<(RoutingDecision, LavaAnomaly), ViggyError>)
        default_ensures
            match res {
                Ok((decision, anomaly)) => {
                    &&& drift_anomaly(anomaly, severity, source, report.drifted_fields@.len())
                    &&& call_ensures(R::route, (router, &anomaly, policy), Ok(decision))
                },
                Err(e) => exists|anomaly: LavaAnomaly, re: RouterError|
                    #![trigger call_ensures(R::route, (router, &anomaly, policy), Err(re))]
                    {
                        &&& drift_anomaly(anomaly, severity, source, report.drifted_fields@.len())
                        &&& call_ensures(R::route, (router, &anomaly, policy), Err(re))
                        &&& e matches ViggyError::Decide(d) && d@ == re.text()
                    },
            },
    {
        let count = report.count();
        let message = String::from_str("drift detected: ").concat(u128_to_decimal(count as u128).as_str()).concat(" field(s)");
        let anomaly = LavaAnomaly::new(AnomalyKind::DriftDetected, severity, source, message);
        let routed = router.route(&anomaly, policy);
        match routed {
            Ok(decision) => Ok((decision, anomaly)),
            Err(e) => {
                let d = e.message();
                assert(call_ensures(R::route, (router, &anomaly, policy), Err(e)));
                let failed: Result<(RoutingDecision, LavaAnomaly), ViggyError> = Err(ViggyError::Decide(d));
                assert(failed matches Err(ViggyError::Decide(m)) && m@ == e.text());
                failed
            },
        }
    }

    /// Takes the action: by default maps the decided action to a phase
    /// and a note.
    fn act(&self, ctx: &Self::Context, decision: &RoutingDecision, report: &DriftReport) -> (res: Result<(TickPhase, Option<String>), ViggyError>)
        default_ensures
            res matches Ok((phase, note)) && phase == phase_for(decision.action) && match act_note(decision.action) {
                Some(t) => note matches Some(n) && n@ == t,
                None => note is None,
            },
    {
        match decision.action {
            RemediationAction::NoOp => Ok((TickPhase::Stable, None)),
            RemediationAction::Alert => Ok((TickPhase::Stable, None)),
            RemediationAction::AutoCorrect => Ok((TickPhase::Reconverging, Some(String::from_str("auto-correct enqueued")))),
            RemediationAction::RequireApproval => Ok((TickPhase::HoldingForApproval, Some(String::from_str("awaiting LavaApproval CR")))),
            RemediationAction::Escalate => Ok((TickPhase::Escalated, Some(String::from_str("escalation notified")))),
        }
    }

    /// Persists attestation: by default does nothing.
    fn attest(&self, report: &TickReport) -> (res: Result<(), ViggyError>)
        default_ensures
            res is Ok,
    {
        Ok(())
    }

    /// Schedules the next tick, in nanoseconds: by default the
    /// decision's requeue delay.
    fn tick_after(&self, decision: &RoutingDecision) -> (delay: i128)
        default_ensures
            delay == decision.requeue_after,
    {
        decision.requeue_after
    }
}


/// A beat that succeeded, ending now.
fn beat_ok(beat: Beat, started_at: i128, message: Option<String>) -> (o: BeatOutcome)
    ensures
        o.beat == beat,
        o.started_at == started_at,
        o.status == BeatStatus::Succeeded,
        o.message == message,
        reads_after(o.ended_at, started_at),
{
    BeatOutcome { beat, started_at, ended_at: now_from(started_at), status: BeatStatus::Succeeded, message }
}

/// A beat that failed with a message, ending now.
fn beat_failed(beat: Beat, started_at: i128, message: String) -> (o: BeatOutcome)
    ensures
        o.beat == beat,
        o.started_at == started_at,
        o.status == BeatStatus::Failed,
        o.message == Some(message),
        reads_after(o.ended_at, started_at),
{
    BeatOutcome { beat, started_at, ended_at: now_from(started_at), status: BeatStatus::Failed, message: Some(message) }
}

/// The outcome records a skipped beat: no message, no time spent.
pub open spec fn skipped(o: BeatOutcome) -> bool {
    &&& o.status == BeatStatus::Skipped
    &&& o.message is None
    &&& o.started_at == o.ended_at
}

/// Records every beat from canonical position `from` on as skipped, all
/// stamped with one instant no earlier than `floor`, which it returns.
fn skip_remaining(beats: &mut Vec<BeatOutcome>, from: usize, floor: i128) -> (now: i128)
    requires
        from <= 7,
    ensures
        reads_after(now, floor),
        final(beats)@.len() == old(beats)@.len() + 7 - from,
        forall|i: int| 0 <= i < old(beats)@.len() ==> final(beats)@[i] == old(beats)@[i],
        forall|i: int|
            old(beats)@.len() <= i < final(beats)@.len() ==> {
                let o = #[trigger] final(beats)@[i];
                &&& o.beat == canonical_beats()[from + i - old(beats)@.len()]
                &&& skipped(o)
                &&& o.started_at == now
            },
{
    let now = now_from(floor);
    let order = Beat::canonical_order();
    let ghost start = beats@.len();
    let mut k = from;
    while k < 7
        invariant
            from <= k <= 7,
            order@ == canonical_beats(),
            start == old(beats)@.len(),
            beats@.len() == start + k - from,
            forall|i: int| 0 <= i < start ==> beats@[i] == old(beats)@[i],
            forall|i: int|
                start <= i < beats@.len() ==> {
                    let o = #[trigger] beats@[i];
                    &&& o.beat == canonical_beats()[from + i - start]
                    &&& skipped(o)
                    &&& o.started_at == now
                },
        decreases 7 - k,
    {
        beats.push(BeatOutcome { beat: order[k], started_at: now, ended_at: now, status: BeatStatus::Skipped, message: None });
        k = k + 1;
    }
    now
}

/// Every beat after position `k` was skipped, all at one instant.
pub open spec fn skipped_after(beats: Seq<BeatOutcome>, k: int) -> bool {
    &&& forall|i: int| k < i < 7 ==> skipped(#[trigger] beats[i])
    &&& forall|i: int| k < i < 7 ==> #[trigger] beats[i].started_at == beats[k + 1].started_at
}

/// Records what beat `k` of a tick came to, given what the controller
/// returned for it: the note of a beat that succeeded, or the error of a
/// beat that failed. A failed beat carries the error's text, the tick
/// halts there and every later beat is recorded as skipped. Returns
/// whether the tick halted.
pub fn record_beat(beats: &mut Vec<BeatOutcome>, k: usize, started_at: i128, result: Result<Option<String>, &ViggyError>) -> (halted: bool)
    requires
        k < 7,
        old(beats)@.len() == k,
    ensures
        forall|i: int| 0 <= i < k ==> final(beats)@[i] == old(beats)@[i],
        final(beats)@[k as int].beat == canonical_beats()[k as int],
        final(beats)@[k as int].started_at == started_at,
        reads_after(final(beats)@[k as int].ended_at, started_at),
        match result {
            Ok(note) => {
                &&& !halted
                &&& final(beats)@.len() == k + 1
                &&& final(beats)@[k as int].status == BeatStatus::Succeeded
                &&& final(beats)@[k as int].message == note
            },
            Err(e) => {
                &&& halted
                &&& final(beats)@.len() == 7
                &&& final(beats)@[k as int].status == BeatStatus::Failed
                &&& message_is(final(beats)@[k as int], e.text())
                &&& forall|i: int| k < i < 7 ==> #[trigger] final(beats)@[i].beat == canonical_beats()[i]
                &&& skipped_after(final(beats)@, k as int)
                &&& k < 6 ==> reads_after(final(beats)@[k + 1].started_at, final(beats)@[k as int].ended_at)
            },
        },
{
    let order = Beat::canonical_order();
    let beat = order[k];
    match result {
        Ok(note) => {
            beats.push(beat_ok(beat, started_at, note));
            false
        },
        Err(e) => {
            let failed = beat_failed(beat, started_at, e.message());
            let ended = failed.ended_at;
            beats.push(failed);
            let ghost pushed = beats@;
            skip_remaining(beats, k + 1, ended);
            assert forall|i: int| k < i < 7 implies #[trigger] beats@[i].beat == canonical_beats()[i] && skipped(beats@[i])
                && beats@[i].started_at == beats@[k + 1].started_at by {
                assert(pushed.len() == k + 1);
            }
            true
        },
    }
}

/// The note the Diff beat records: how many fields drifted.
pub fn diff_note(report: &DriftReport) -> (s: String)
    ensures
        s@ == drifted_fields_text(report.drifted_fields@.len()),
{
    u128_to_decimal(report.count() as u128).concat(" drifted field(s)")
}

/// The note the Tick beat records: the requeue delay in whole seconds.
pub fn requeue_note(delay: i128) -> (s: String)
    ensures
        s@ == requeue_text(delay as int),
{
    let secs = seconds_of(delay);
    String::from_str("requeue in ").concat(i128_to_decimal(secs).as_str()).concat("s")
}

/// Seals the report, ending now, no earlier than `floor`.
fn finish_report(
    started_at: i128,
    source: ResourceAddress,
    beats: Vec<BeatOutcome>,
    final_phase: TickPhase,
    decision: Option<RoutingDecision>,
    floor: i128,
) -> (r: TickReport)
    ensures
        reads_after(r.ended_at, floor),
        r.started_at == started_at,
        r.source == source,
        r.beats == beats,
        r.final_phase == final_phase,
        r.decision == decision,
{
    TickReport { started_at, ended_at: now_from(floor), source, beats, final_phase, decision }
}

/// Whole seconds of a span of nanoseconds, truncated toward zero.
fn seconds_of(nanos: i128) -> (s: i128)
    ensures
        s == whole_seconds(nanos as int),
{
    if nanos >= 0 {
        nanos / 1_000_000_000
    } else {
        let magnitude: u128 = if nanos == i128::MIN {
            0x8000_0000_0000_0000_0000_0000_0000_0000u128
        } else {
            (-nanos) as u128
        };
        let q = magnitude / 1_000_000_000;
        -(q as i128)
    }
}

/// The beats are the seven beats in canonical order.
pub open spec fn in_canonical_order(beats: Seq<BeatOutcome>) -> bool {
    &&& beats.len() == 7
    &&& forall|i: int| 0 <= i < 7 ==> #[trigger] beats[i].beat == canonical_beats()[i]
}

/// Every beat before position `k` succeeded, beat `k` failed with the
/// text of an error, and every beat after it was skipped, all at one
/// instant.
pub open spec fn halted_at(beats: Seq<BeatOutcome>, k: int) -> bool {
    &&& forall|i: int| 0 <= i < k ==> #[trigger] beats[i].status == BeatStatus::Succeeded
    &&& beats[k].status == BeatStatus::Failed
    &&& exists|e: ViggyError| message_is(beats[k], #[trigger] e.text())
    &&& skipped_after(beats, k)
}

/// Every beat ran and succeeded.
pub open spec fn ran_through(beats: Seq<BeatOutcome>) -> bool {
    forall|i: int| 0 <= i < 7 ==> #[trigger] beats[i].status == BeatStatus::Succeeded
}

/// The shape every tick report has: the seven beats in canonical order;
/// a tick halts at its first failed beat (Classify and Tick cannot
/// fail), skipping the rest and landing `Failed`, with a decision
/// recorded once Decide succeeded; otherwise every beat succeeded and a
/// decision is recorded.
pub open spec fn tick_shape(r: TickReport) -> bool {
    let b = r.beats@;
    &&& in_canonical_order(b)
    &&& {
        ||| halted_at(b, 0) && r.decision is None
        ||| halted_at(b, 1) && r.decision is None
        ||| halted_at(b, 3) && r.decision is None
        ||| halted_at(b, 4) && r.decision is Some
        ||| halted_at(b, 5) && r.decision is Some
        ||| ran_through(b) && r.decision is Some
    }
    &&& !ran_through(b) ==> r.final_phase == TickPhase::Failed
}

/// A prefix of `k` successful beats, a failed beat `k`, and the rest
/// skipped in canonical order, is a report halted at `k`.
proof fn lemma_halted(beats: Seq<BeatOutcome>, k: int)
    requires
        0 <= k < 7,
        beats.len() == 7,
        forall|i: int| 0 <= i < k ==> #[trigger] beats[i].beat == canonical_beats()[i] && beats[i].status == BeatStatus::Succeeded,
        beats[k].beat == canonical_beats()[k],
        beats[k].status == BeatStatus::Failed,
        exists|e: ViggyError| message_is(beats[k], #[trigger] e.text()),
        forall|i: int| k < i < 7 ==> #[trigger] beats[i].beat == canonical_beats()[i],
        skipped_after(beats, k),
    ensures
        in_canonical_order(beats),
        halted_at(beats, k),
        !ran_through(beats),
{
    assert forall|i: int| 0 <= i < 7 implies #[trigger] beats[i].beat == canonical_beats()[i] by {
        if i < k {
        } else if i == k {
        } else {
        }
    }
    assert forall|i: int| 0 <= i < k implies #[trigger] beats[i].status == BeatStatus::Succeeded by {
        assert(beats[i].beat == canonical_beats()[i]);
    }
}

/// In a report of the seven beats in canonical order, every beat ran
/// exactly when every recorded beat succeeded.
pub proof fn lemma_visits_every_beat_iff_ran_through(beats: Seq<BeatOutcome>)
    requires
        in_canonical_order(beats),
    ensures
        visits_every_beat(beats) <==> ran_through(beats),
{
    if ran_through(beats) {
        assert forall|b: Beat| #[trigger] visits(beats, b) by {
            lemma_beat_is_canonical(b);
            let k = choose|k: int| 0 <= k < 7 && canonical_beats()[k] == b;
            assert(beats[k].beat == b);
            assert(beats[k].status == BeatStatus::Succeeded);
        }
    }
    if visits_every_beat(beats) {
        assert forall|i: int| 0 <= i < 7 implies #[trigger] beats[i].status == BeatStatus::Succeeded by {
            let b = canonical_beats()[i];
            assert(visits(beats, b));
            let j = choose|j: int| 0 <= j < beats.len() && #[trigger] beats[j].beat == b && beats[j].status == BeatStatus::Succeeded;
            assert(beats[j].beat == canonical_beats()[j]);
            crate::beat::lemma_canonical_distinct(i, j);
        }
    }
}

/// The report's instants run forward and are readings of the system
/// clock: the tick's start, taken before the first beat, then each
/// beat's start and end in canonical order, then the tick's end. So the
/// tick's duration covers every beat's own span.
pub open spec fn timed(r: TickReport) -> bool {
    let b = r.beats@;
    &&& is_clock_reading(r.started_at)
    &&& r.started_at <= b[0].started_at <= b[0].ended_at <= b[1].started_at <= b[1].ended_at
    &&& b[1].ended_at <= b[2].started_at <= b[2].ended_at <= b[3].started_at <= b[3].ended_at
    &&& b[3].ended_at <= b[4].started_at <= b[4].ended_at <= b[5].started_at <= b[5].ended_at
    &&& b[5].ended_at <= b[6].started_at <= b[6].ended_at <= r.ended_at
    &&& forall|i: int|
        #![trigger b[i]]
        0 <= i < 7 ==> is_clock_reading(b[i].started_at) && is_clock_reading(b[i].ended_at)
    &&& is_clock_reading(r.ended_at)
}

/// Instants each read no earlier than the one before, starting from a
/// clock reading, run forward and are all clock readings.
proof fn lemma_timed(r: TickReport)
    requires
        r.beats@.len() == 7,
        is_clock_reading(r.started_at),
        reads_after(r.beats@[0].started_at, r.started_at),
        reads_after(r.beats@[0].ended_at, r.beats@[0].started_at),
        reads_after(r.beats@[1].started_at, r.beats@[0].ended_at),
        reads_after(r.beats@[1].ended_at, r.beats@[1].started_at),
        reads_after(r.beats@[2].started_at, r.beats@[1].ended_at),
        reads_after(r.beats@[2].ended_at, r.beats@[2].started_at),
        reads_after(r.beats@[3].started_at, r.beats@[2].ended_at),
        reads_after(r.beats@[3].ended_at, r.beats@[3].started_at),
        reads_after(r.beats@[4].started_at, r.beats@[3].ended_at),
        reads_after(r.beats@[4].ended_at, r.beats@[4].started_at),
        reads_after(r.beats@[5].started_at, r.beats@[4].ended_at),
        reads_after(r.beats@[5].ended_at, r.beats@[5].started_at),
        reads_after(r.beats@[6].started_at, r.beats@[5].ended_at),
        reads_after(r.beats@[6].ended_at, r.beats@[6].started_at),
        reads_after(r.ended_at, r.beats@[6].ended_at),
    ensures
        timed(r),
{
    let b = r.beats@;
    assert(is_clock_reading(b[0].started_at));
    assert(is_clock_reading(b[0].ended_at));
    assert(is_clock_reading(b[1].started_at));
    assert(is_clock_reading(b[1].ended_at));
    assert(is_clock_reading(b[2].started_at));
    assert(is_clock_reading(b[2].ended_at));
    assert(is_clock_reading(b[3].started_at));
    assert(is_clock_reading(b[3].ended_at));
    assert(is_clock_reading(b[4].started_at));
    assert(is_clock_reading(b[4].ended_at));
    assert(is_clock_reading(b[5].started_at));
    assert(is_clock_reading(b[5].ended_at));
    assert(is_clock_reading(b[6].started_at));
    assert(is_clock_reading(b[6].ended_at));
    assert forall|i: int| #![trigger b[i]] 0 <= i < 7 implies is_clock_reading(b[i].started_at) && is_clock_reading(b[i].ended_at) by {
        if i == 0 {} else if i == 1 {} else if i == 2 {} else if i == 3 {} else if i == 4 {} else if i == 5 {} else {}
    }
}

/// Composes a controller, a router and a remediation policy. One
/// `tick()` drives every beat in canonical order.
pub struct ViggyEngine<C: PromessaController<R>, R: AnomalyRouter> {
    pub controller: C,
    pub router: R,
    pub policy: RemediationPolicy,
}

impl<C: PromessaController<R>, R: AnomalyRouter> ViggyEngine<C, R> {
    /// Observe, asked about `source` and `bindings`, may answer `out`.
    pub open spec fn observe_answers(
        self,
        source: ResourceAddress,
        bindings: IndexMap<String, String>,
        out: Result<C::Context, ViggyError>,
    ) -> bool {
        call_ensures(C::observe, (&self.controller, &source, &bindings), out)
    }

    /// Observe failed with `e`, whose text beat 0 carries.
    pub open spec fn observe_failed(self, source: ResourceAddress, bindings: IndexMap<String, String>, b: Seq<BeatOutcome>, e: ViggyError) -> bool {
        &&& self.observe_answers(source, bindings, Err(e))
        &&& message_is(b[0], e.text())
    }

    /// Observe answered `ctx` (beat 0 carries no note) and Diff, handed
    /// `ctx` and `bindings`, answered `out`.
    pub open spec fn diff_answers(
        self,
        source: ResourceAddress,
        bindings: IndexMap<String, String>,
        b: Seq<BeatOutcome>,
        ctx: C::Context,
        out: Result<DriftReport, ViggyError>,
    ) -> bool {
        &&& self.observe_answers(source, bindings, Ok(ctx))
        &&& b[0].message is None
        &&& call_ensures(C::diff, (&self.controller, &ctx, &bindings), out)
    }

    /// Diff failed with `e`, whose text beat 1 carries.
    pub open spec fn diff_failed(
        self,
        source: ResourceAddress,
        bindings: IndexMap<String, String>,
        b: Seq<BeatOutcome>,
        ctx: C::Context,
        e: ViggyError,
    ) -> bool {
        &&& self.diff_answers(source, bindings, b, ctx, Err(e))
        &&& message_is(b[1], e.text())
    }

    /// Diff answered `report`, whose count beat 1 carries, and Classify,
    /// handed `report`, answered `severity`, whose name beat 2 carries.
    pub open spec fn classified(
        self,
        source: ResourceAddress,
        bindings: IndexMap<String, String>,
        b: Seq<BeatOutcome>,
        ctx: C::Context,
        report: DriftReport,
        severity: Severity,
    ) -> bool {
        &&& self.diff_answers(source, bindings, b, ctx, Ok(report))
        &&& message_is(b[1], drifted_fields_text(report.drifted_fields@.len()))
        &&& call_ensures(C::classify, (&self.controller, &report), severity)
        &&& message_is(b[2], severity.name())
    }

    /// Decide, handed the router, the policy, the source, `severity` and
    /// `report`, answered `out`.
    pub open spec fn decide_answers(
        self,
        source: ResourceAddress,
        severity: Severity,
        report: DriftReport,
        out: Result<(RoutingDecision, LavaAnomaly), ViggyError>,
    ) -> bool {
        call_ensures(C::decide, (&self.controller, &self.router, &self.policy, source, severity, &report), out)
    }

    /// Decide failed with `e`, whose text beat 3 carries.
    pub open spec fn decide_failed(
        self,
        source: ResourceAddress,
        bindings: IndexMap<String, String>,
        b: Seq<BeatOutcome>,
        ctx: C::Context,
        report: DriftReport,
        severity: Severity,
        e: ViggyError,
    ) -> bool {
        &&& self.classified(source, bindings, b, ctx, report, severity)
        &&& self.decide_answers(source, severity, report, Err(e))
        &&& message_is(b[3], e.text())
    }

    /// Decide answered `decision` (whose action beat 3 carries) and
    /// `anomaly`.
    pub open spec fn decided(
        self,
        source: ResourceAddress,
        bindings: IndexMap<String, String>,
        b: Seq<BeatOutcome>,
        ctx: C::Context,
        report: DriftReport,
        severity: Severity,
        decision: RoutingDecision,
        anomaly: LavaAnomaly,
    ) -> bool {
        &&& self.classified(source, bindings, b, ctx, report, severity)
        &&& self.decide_answers(source, severity, report, Ok((decision, anomaly)))
        &&& message_is(b[3], decision.action.name())
    }

    /// Act failed with `e`, whose text beat 4 carries.
    pub open spec fn act_failed(
        self,
        source: ResourceAddress,
        bindings: IndexMap<String, String>,
        b: Seq<BeatOutcome>,
        ctx: C::Context,
        report: DriftReport,
        severity: Severity,
        decision: RoutingDecision,
        anomaly: LavaAnomaly,
        e: ViggyError,
    ) -> bool {
        &&& self.decided(source, bindings, b, ctx, report, severity, decision, anomaly)
        &&& call_ensures(C::act, (&self.controller, &ctx, &decision, &report), Err(e))
        &&& message_is(b[4], e.text())
    }

    /// Act, handed `ctx`, `decision` and `report`, answered `phase` and
    /// `note`, which beat 4 carries.
    pub open spec fn acted(
        self,
        source: ResourceAddress,
        bindings: IndexMap<String, String>,
        b: Seq<BeatOutcome>,
        ctx: C::Context,
        report: DriftReport,
        severity: Severity,
        decision: RoutingDecision,
        anomaly: LavaAnomaly,
        phase: TickPhase,
        note: Option<String>,
    ) -> bool {
        &&& self.decided(source, bindings, b, ctx, report, severity, decision, anomaly)
        &&& call_ensures(C::act, (&self.controller, &ctx, &decision, &report), Ok((phase, note)))
        &&& b[4].message == note
    }

    /// Attest, handed the report as it stood after Act (its first five
    /// beats, the source, `phase` and `decision`), answered `out`.
    pub open spec fn attest_answers(
        self,
        source: ResourceAddress,
        b: Seq<BeatOutcome>,
        phase: TickPhase,
        decision: RoutingDecision,
        out: Result<(), ViggyError>,
    ) -> bool {
        exists|pre: TickReport|
            #![trigger call_ensures(C::attest, (&self.controller, &pre), out)]
            pre.beats@ == b.take(5) && pre.source == source && pre.final_phase == phase && pre.decision == Some(decision)
                && call_ensures(C::attest, (&self.controller, &pre), out)
    }

    /// Attest failed with `e`, whose text beat 5 carries.
    pub open spec fn attest_failed(
        self,
        source: ResourceAddress,
        bindings: IndexMap<String, String>,
        b: Seq<BeatOutcome>,
        ctx: C::Context,
        report: DriftReport,
        severity: Severity,
        decision: RoutingDecision,
        anomaly: LavaAnomaly,
        phase: TickPhase,
        note: Option<String>,
        e: ViggyError,
    ) -> bool {
        &&& self.acted(source, bindings, b, ctx, report, severity, decision, anomaly, phase, note)
        &&& self.attest_answers(source, b, phase, decision, Err(e))
        &&& message_is(b[5], e.text())
    }

    /// Every beat answered: Attest succeeded (beat 5 carries no note) and
    /// Tick, handed `decision`, scheduled the next tick after `delay`
    /// nanoseconds, which beat 6 carries in whole seconds.
    pub open spec fn ran_with(
        self,
        source: ResourceAddress,
        bindings: IndexMap<String, String>,
        b: Seq<BeatOutcome>,
        ctx: C::Context,
        report: DriftReport,
        severity: Severity,
        decision: RoutingDecision,
        anomaly: LavaAnomaly,
        phase: TickPhase,
        note: Option<String>,
        delay: i128,
    ) -> bool {
        &&& self.acted(source, bindings, b, ctx, report, severity, decision, anomaly, phase, note)
        &&& self.attest_answers(source, b, phase, decision, Ok(()))
        &&& b[5].message is None
        &&& call_ensures(C::tick_after, (&self.controller, &decision), delay)
        &&& message_is(b[6], requeue_text(delay as int))
    }

    /// What the report records follows from what the controller and the
    /// router answered: the error of the beat it halted at, or, when
    /// every beat ran, Act's phase, Decide's decision and each beat's
    /// note; what each beat was handed is what the beats before it
    /// returned.
    pub open spec fn follows_answers(self, source: ResourceAddress, bindings: IndexMap<String, String>, r: TickReport) -> bool {
        let b = r.beats@;
        &&& halted_at(b, 0) ==> exists|e: ViggyError| #[trigger] self.observe_failed(source, bindings, b, e)
        &&& halted_at(b, 1) ==> exists|ctx: C::Context, e: ViggyError| #[trigger] self.diff_failed(source, bindings, b, ctx, e)
        &&& halted_at(b, 3) ==> exists|ctx: C::Context, report: DriftReport, severity: Severity, e: ViggyError|
            #[trigger] self.decide_failed(source, bindings, b, ctx, report, severity, e)
        &&& halted_at(b, 4) ==> exists|
            ctx: C::Context,
            report: DriftReport,
            severity: Severity,
            decision: RoutingDecision,
            anomaly: LavaAnomaly,
            e: ViggyError,
        |
            #[trigger] self.act_failed(source, bindings, b, ctx, report, severity, decision, anomaly, e) && r.decision == Some(decision)
        &&& halted_at(b, 5) ==> exists|
            ctx: C::Context,
            report: DriftReport,
            severity: Severity,
            decision: RoutingDecision,
            anomaly: LavaAnomaly,
            phase: TickPhase,
            note: Option<String>,
            e: ViggyError,
        |
            #[trigger] self.attest_failed(source, bindings, b, ctx, report, severity, decision, anomaly, phase, note, e)
                && r.decision == Some(decision)
        &&& ran_through(b) ==> exists|
            ctx: C::Context,
            report: DriftReport,
            severity: Severity,
            decision: RoutingDecision,
            anomaly: LavaAnomaly,
            note: Option<String>,
            delay: i128,
        |
            #[trigger] self.ran_with(source, bindings, b, ctx, report, severity, decision, anomaly, r.final_phase, note, delay)
                && r.decision == Some(decision)
    }

    pub fn new(controller: C, router: R, policy: RemediationPolicy) -> (e: Self)
        ensures
            e.controller == controller,
            e.router == router,
            e.policy == policy,
    {
        ViggyEngine { controller, router, policy }
    }

    /// Runs one tick: walks the seven beats in canonical order; on the
    /// first failed beat the remaining beats are recorded as skipped and
    /// the tick lands `Failed`. Otherwise the tick lands in the phase
    /// Act returned.
    ///
    /// Every timestamp in the report is a reading of the system clock
    /// (see `clock::now`), taken in turn: the tick's start before the
    /// first beat, each beat's start and end, then the tick's end. A
    /// reading earlier than the one before it (a clock set back) is
    /// raised to that one, so the instants never run backwards.
    pub fn tick(&self, source: ResourceAddress, bindings: IndexMap<String, String>) -> (r: TickReport)
        ensures
            tick_shape(r),
            r.source == source,
            self.follows_answers(source, bindings, r),
            visits_every_beat(r.beats@) <==> ran_through(r.beats@),
            timed(r),
    {
        let ghost src = source;
        let started_at = crate::clock::now();
        let mut beats: Vec<BeatOutcome> = Vec::new();

        // Observe.
        let observe_started = now_from(started_at);
        let observed = self.controller.observe(&source, &bindings);
        let ctx = match observed {
            Ok(ctx) => {
                record_beat(&mut beats, 0, observe_started, Ok(None));
                ctx
            },
            Err(e) => {
                record_beat(&mut beats, 0, observe_started, Err(&e));
                let last = beats[6].ended_at;
                let r = finish_report(started_at, source, beats, TickPhase::Failed, None, last);
                proof {
                    lemma_timed(r);
                    lemma_halted(r.beats@, 0);
                    assert(self.observe_failed(src, bindings, r.beats@, e));
                    lemma_visits_every_beat_iff_ran_through(r.beats@);
                }
                return r;
            },
        };
        let ghost b0 = beats@[0];

        // Diff.
        let diff_started = now_from(beats[0].ended_at);
        let diffed = self.controller.diff(&ctx, &bindings);
        let report = match diffed {
            Ok(report) => {
                record_beat(&mut beats, 1, diff_started, Ok(Some(diff_note(&report))));
                report
            },
            Err(e) => {
                record_beat(&mut beats, 1, diff_started, Err(&e));
                let last = beats[6].ended_at;
                let r = finish_report(started_at, source, beats, TickPhase::Failed, None, last);
                proof {
                    assert(r.beats@[0] == b0);
                    lemma_timed(r);
                    lemma_halted(r.beats@, 1);
                    assert(r.beats@[0] == b0);
                    assert(self.diff_failed(src, bindings, r.beats@, ctx, e));
                    lemma_visits_every_beat_iff_ran_through(r.beats@);
                }
                return r;
            },
        };
        let ghost b1 = beats@[1];
        assert(message_is(b1, drifted_fields_text(report.drifted_fields@.len())));

        // Classify.
        let classify_started = now_from(beats[1].ended_at);
        let severity = self.controller.classify(&report);
        record_beat(&mut beats, 2, classify_started, Ok(Some(String::from_str(severity.as_str()))));
        let ghost b2 = beats@[2];
        assert(message_is(b2, severity.name()));

        // Decide.
        let decide_started = now_from(beats[2].ended_at);
        let decide_source = source.clone();
        let decided = self.controller.decide(&self.router, &self.policy, decide_source, severity, &report);
        let (rd, anomaly) = match decided {
            Ok((rd, anomaly)) => {
                record_beat(&mut beats, 3, decide_started, Ok(Some(String::from_str(rd.action.as_str()))));
                (rd, anomaly)
            },
            Err(e) => {
                record_beat(&mut beats, 3, decide_started, Err(&e));
                let last = beats[6].ended_at;
                let r = finish_report(started_at, source, beats, TickPhase::Failed, None, last);
                proof {
                    assert(r.beats@[0] == b0);
                    assert(r.beats@[1] == b1);
                    assert(r.beats@[2] == b2);
                    lemma_timed(r);
                    lemma_halted(r.beats@, 3);
                    assert(r.beats@[0] == b0);
                    assert(r.beats@[1] == b1);
                    assert(r.beats@[2] == b2);
                    assert(self.decide_failed(src, bindings, r.beats@, ctx, report, severity, e));
                    lemma_visits_every_beat_iff_ran_through(r.beats@);
                }
                return r;
            },
        };
        let ghost b3 = beats@[3];
        let ghost anomaly_ghost = anomaly;

        // Act.
        let act_started = now_from(beats[3].ended_at);
        let acted = self.controller.act(&ctx, &rd, &report);
        let (final_phase, note) = match acted {
            Ok(pair) => pair,
            Err(e) => {
                record_beat(&mut beats, 4, act_started, Err(&e));
                let last = beats[6].ended_at;
                let r = finish_report(started_at, source, beats, TickPhase::Failed, Some(rd), last);
                proof {
                    assert(r.beats@[0] == b0);
                    assert(r.beats@[1] == b1);
                    assert(r.beats@[2] == b2);
                    assert(r.beats@[3] == b3);
                    lemma_timed(r);
                    lemma_halted(r.beats@, 4);
                    assert(r.beats@[0] == b0);
                    assert(r.beats@[1] == b1);
                    assert(r.beats@[2] == b2);
                    assert(r.beats@[3] == b3);
                    assert(self.act_failed(src, bindings, r.beats@, ctx, report, severity, rd, anomaly_ghost, e));
                    lemma_visits_every_beat_iff_ran_through(r.beats@);
                }
                return r;
            },
        };
        let ghost note_ghost = note;
        record_beat(&mut beats, 4, act_started, Ok(note));
        let ghost b4 = beats@[4];
        let ghost after_act = beats@;
        let ghost rd_ghost = rd;

        // Attest: the controller sees the report as it stands.
        let attest_started = now_from(beats[4].ended_at);
        let pre_report = TickReport {
            started_at,
            ended_at: now_from(attest_started),
            source,
            beats,
            final_phase,
            decision: Some(rd),
        };
        let attested = self.controller.attest(&pre_report);
        let ghost pre_ghost = pre_report;
        assert(call_ensures(C::attest, (&self.controller, &pre_ghost), attested));
        let TickReport { source, mut beats, decision, .. } = pre_report;
        match attested {
            Ok(u) => {
                assert(attested == Ok::<(), ViggyError>(u));
                record_beat(&mut beats, 5, attest_started, Ok(None));
            },
            Err(e) => {
                record_beat(&mut beats, 5, attest_started, Err(&e));
                let last = beats[6].ended_at;
                let r = finish_report(started_at, source, beats, TickPhase::Failed, decision, last);
                proof {
                    assert(r.beats@[0] == b0);
                    assert(r.beats@[1] == b1);
                    assert(r.beats@[2] == b2);
                    assert(r.beats@[3] == b3);
                    assert(r.beats@[4] == b4);
                    lemma_timed(r);
                    lemma_halted(r.beats@, 5);
                    assert(r.beats@[0] == b0);
                    assert(r.beats@[1] == b1);
                    assert(r.beats@[2] == b2);
                    assert(r.beats@[3] == b3);
                    assert(r.beats@[4] == b4);
                    assert(r.beats@.take(5) =~= after_act);
                    assert(self.attest_answers(src, r.beats@, final_phase, rd_ghost, Err(e)));
                    assert(self.attest_failed(src, bindings, r.beats@, ctx, report, severity, rd_ghost, anomaly_ghost, final_phase, note_ghost, e));
                    lemma_visits_every_beat_iff_ran_through(r.beats@);
                }
                return r;
            },
        }

        // Tick: record the requeue delay.
        let tick_started = now_from(beats[5].ended_at);
        let chosen = decision.as_ref().unwrap();
        let delay = self.controller.tick_after(chosen);
        record_beat(&mut beats, 6, tick_started, Ok(Some(requeue_note(delay))));
        let last = beats[6].ended_at;
        let r = finish_report(started_at, source, beats, final_phase, decision, last);
        proof {
            assert(r.beats@[0] == b0);
            assert(r.beats@[1] == b1);
            assert(r.beats@[2] == b2);
            assert(r.beats@[3] == b3);
            assert(r.beats@[4] == b4);
            lemma_timed(r);
            assert(r.beats@[0] == b0);
            assert(r.beats@[1] == b1);
            assert(r.beats@[2] == b2);
            assert(r.beats@[3] == b3);
            assert(r.beats@[4] == b4);
            assert(r.beats@.take(5) =~= after_act);
            assert(in_canonical_order(r.beats@));
            assert(ran_through(r.beats@));
            assert(attested == Ok::<(), ViggyError>(()));
            assert(self.attest_answers(src, r.beats@, final_phase, rd_ghost, Ok(())));
            assert(self.ran_with(src, bindings, r.beats@, ctx, report, severity, rd_ghost, anomaly_ghost, final_phase, note_ghost, delay));
            lemma_visits_every_beat_iff_ran_through(r.beats@);
        }
        r
    }
}

} // verus!
