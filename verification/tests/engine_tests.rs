use indexmap::IndexMap;
use lava_anomaly::AnomalyRouter as _;
use lava_drift::{ChangeKind, DriftDetector, DriftFinding, MockPlanner};
use lava_viggy::address::ResourceAddress;
use lava_viggy::anomaly::{
    AnomalyKind, AnomalyRouter, EscalationLadder, EscalationTier, LavaAnomaly, NotifyTarget,
    RemediationAction, RemediationPolicy, RouterError, RoutingDecision,
};
use lava_viggy::drift::{DriftReport, DriftedField, Severity};
use lava_viggy::hash::ContentHash;
use lava_viggy::{Beat, BeatStatus, PromessaController, TickPhase, TickReport, ViggyEngine, ViggyError};

// ── conversions between the lava crates' values and the library's ──

fn nanos(t: chrono::DateTime<chrono::Utc>) -> i128 {
    i128::from(t.timestamp()) * 1_000_000_000 + i128::from(t.timestamp_subsec_nanos())
}

fn span_nanos(d: chrono::Duration) -> i128 {
    i128::from(d.num_seconds()) * 1_000_000_000 + i128::from(d.subsec_nanos())
}

fn span(n: i128) -> chrono::Duration {
    let secs = n.div_euclid(1_000_000_000) as i64;
    let sub = n.rem_euclid(1_000_000_000) as i64;
    chrono::Duration::seconds(secs) + chrono::Duration::nanoseconds(sub)
}

fn severity_from(s: lava_drift::Severity) -> Severity {
    match s {
        lava_drift::Severity::Cosmetic => Severity::Cosmetic,
        lava_drift::Severity::Functional => Severity::Functional,
        lava_drift::Severity::Critical => Severity::Critical,
    }
}

fn severity_to(s: Severity) -> lava_drift::Severity {
    match s {
        Severity::Cosmetic => lava_drift::Severity::Cosmetic,
        Severity::Functional => lava_drift::Severity::Functional,
        Severity::Critical => lava_drift::Severity::Critical,
    }
}

fn report_from(r: lava_drift::DriftReport) -> DriftReport {
    DriftReport {
        spec_hash: ContentHash(r.spec_hash.0),
        scanned_at: nanos(r.scanned_at),
        drifted_fields: r
            .drifted_fields
            .into_iter()
            .map(|f| DriftedField {
                address: f.address,
                attribute: f.attribute,
                observed: f.observed,
                declared: f.declared,
                severity: severity_from(f.severity),
            })
            .collect(),
        max_severity: r.max_severity.map(severity_from),
    }
}

fn action_to(a: RemediationAction) -> lava_anomaly::RemediationAction {
    match a {
        RemediationAction::NoOp => lava_anomaly::RemediationAction::NoOp,
        RemediationAction::Alert => lava_anomaly::RemediationAction::Alert,
        RemediationAction::AutoCorrect => lava_anomaly::RemediationAction::AutoCorrect,
        RemediationAction::RequireApproval => lava_anomaly::RemediationAction::RequireApproval,
        RemediationAction::Escalate => lava_anomaly::RemediationAction::Escalate,
    }
}

fn action_from(a: lava_anomaly::RemediationAction) -> RemediationAction {
    match a {
        lava_anomaly::RemediationAction::NoOp => RemediationAction::NoOp,
        lava_anomaly::RemediationAction::Alert => RemediationAction::Alert,
        lava_anomaly::RemediationAction::AutoCorrect => RemediationAction::AutoCorrect,
        lava_anomaly::RemediationAction::RequireApproval => RemediationAction::RequireApproval,
        lava_anomaly::RemediationAction::Escalate => RemediationAction::Escalate,
    }
}

fn target_to(t: &NotifyTarget) -> lava_anomaly::NotifyTarget {
    match t {
        NotifyTarget::Slack { webhook_secret_ref } => {
            lava_anomaly::NotifyTarget::Slack { webhook_secret_ref: webhook_secret_ref.clone() }
        }
        NotifyTarget::Ntfy { topic } => lava_anomaly::NotifyTarget::Ntfy { topic: topic.clone() },
        NotifyTarget::Pagerduty { service_key_secret_ref } => lava_anomaly::NotifyTarget::Pagerduty {
            service_key_secret_ref: service_key_secret_ref.clone(),
        },
        NotifyTarget::Email { address } => lava_anomaly::NotifyTarget::Email { address: address.clone() },
        NotifyTarget::Webhook { url, secret_ref } => {
            lava_anomaly::NotifyTarget::Webhook { url: url.clone(), secret_ref: secret_ref.clone() }
        }
        NotifyTarget::Custom { name, params } => lava_anomaly::NotifyTarget::Custom {
            name: name.clone(),
            params: params.iter().cloned().collect(),
        },
    }
}

fn target_from(t: lava_anomaly::NotifyTarget) -> NotifyTarget {
    match t {
        lava_anomaly::NotifyTarget::Slack { webhook_secret_ref } => NotifyTarget::Slack { webhook_secret_ref },
        lava_anomaly::NotifyTarget::Ntfy { topic } => NotifyTarget::Ntfy { topic },
        lava_anomaly::NotifyTarget::Pagerduty { service_key_secret_ref } => {
            NotifyTarget::Pagerduty { service_key_secret_ref }
        }
        lava_anomaly::NotifyTarget::Email { address } => NotifyTarget::Email { address },
        lava_anomaly::NotifyTarget::Webhook { url, secret_ref } => NotifyTarget::Webhook { url, secret_ref },
        lava_anomaly::NotifyTarget::Custom { name, params } => {
            NotifyTarget::Custom { name, params: params.into_iter().collect() }
        }
    }
}

fn policy_to(p: &RemediationPolicy) -> lava_anomaly::RemediationPolicy {
    lava_anomaly::RemediationPolicy {
        cosmetic: action_to(p.cosmetic),
        functional: action_to(p.functional),
        critical: action_to(p.critical),
        escalation: p.escalation.as_ref().map(|l| lava_anomaly::EscalationLadder {
            tiers: l
                .tiers
                .iter()
                .map(|t| lava_anomaly::EscalationTier {
                    target: target_to(&t.target),
                    wait_before_next: span(t.wait_before_next),
                })
                .collect(),
        }),
    }
}

fn kind_to(k: AnomalyKind) -> lava_anomaly::AnomalyKind {
    match k {
        AnomalyKind::DriftDetected => lava_anomaly::AnomalyKind::DriftDetected,
        AnomalyKind::SynthesisFailure => lava_anomaly::AnomalyKind::SynthesisFailure,
        AnomalyKind::ApplyFailure => lava_anomaly::AnomalyKind::ApplyFailure,
        AnomalyKind::DependencyBlocked => lava_anomaly::AnomalyKind::DependencyBlocked,
        AnomalyKind::PolicyViolation => lava_anomaly::AnomalyKind::PolicyViolation,
        AnomalyKind::Custom => lava_anomaly::AnomalyKind::Custom,
    }
}

/// Routes through `lava_anomaly::PolicyRouter`.
struct PolicyRouter;

impl AnomalyRouter for PolicyRouter {
    fn route(&self, anomaly: &LavaAnomaly, policy: &RemediationPolicy) -> Result<RoutingDecision, RouterError> {
        let source = lava_outcome_chain::ResourceAddress::new(
            anomaly.source.cluster.clone(),
            anomaly.source.namespace.clone(),
            anomaly.source.name.clone(),
        );
        let lava = lava_anomaly::LavaAnomaly::new(
            kind_to(anomaly.kind),
            severity_to(anomaly.severity),
            source,
            anomaly.message.clone(),
        );
        match lava_anomaly::PolicyRouter.route(&lava, &policy_to(policy)) {
            Ok(d) => Ok(RoutingDecision {
                action: action_from(d.action),
                requeue_after: span_nanos(d.requeue_after),
                escalation: d.escalation.map(|t| EscalationTier {
                    target: target_from(t.target),
                    wait_before_next: span_nanos(t.wait_before_next),
                }),
            }),
            Err(lava_anomaly::RouterError::Escalation(s)) => Err(RouterError::Escalation(s)),
        }
    }
}

// ── the test controller ──

struct TestController {
    detector_findings: Vec<DriftFinding>,
    observe_fails: bool,
}

impl<R: AnomalyRouter> PromessaController<R> for TestController {
    type Context = ();

    fn observe(&self, _source: &ResourceAddress, _bindings: &IndexMap<String, String>) -> Result<(), ViggyError> {
        if self.observe_fails {
            Err(ViggyError::Observe("simulated outage".into()))
        } else {
            Ok(())
        }
    }

    fn diff(&self, _ctx: &(), bindings: &IndexMap<String, String>) -> Result<DriftReport, ViggyError> {
        let detector = DriftDetector::new(MockPlanner::new(self.detector_findings.clone()));
        detector
            .scan("src", bindings)
            .map(report_from)
            .map_err(|e| ViggyError::Diff(e.to_string()))
    }
}

fn finding(kind: ChangeKind, attr: &str) -> DriftFinding {
    DriftFinding {
        address: "aws_vpc.main".into(),
        attribute: attr.into(),
        change: kind,
        observed: None,
        declared: None,
    }
}

fn engine(findings: Vec<DriftFinding>, observe_fails: bool) -> ViggyEngine<TestController, PolicyRouter> {
    ViggyEngine::new(
        TestController { detector_findings: findings, observe_fails },
        PolicyRouter,
        RemediationPolicy::default(),
    )
}

fn address() -> ResourceAddress {
    ResourceAddress::new("rio".to_string(), "n".to_string(), "x".to_string())
}

fn tick(findings: Vec<DriftFinding>, observe_fails: bool) -> TickReport {
    engine(findings, observe_fails).tick(address(), IndexMap::new())
}

#[test]
fn clean_tick_visits_every_beat_and_lands_stable() {
    let report = tick(vec![], false);
    assert!(report.visited_every_beat());
    assert_eq!(report.final_phase, TickPhase::Stable);
}

#[test]
fn functional_drift_tick_lands_reconverging() {
    let report = tick(vec![finding(ChangeKind::Update, "cidr_block")], false);
    assert_eq!(report.final_phase, TickPhase::Reconverging);
}

#[test]
fn critical_drift_tick_lands_holding_for_approval() {
    let report = tick(vec![finding(ChangeKind::Delete, "*")], false);
    assert_eq!(report.final_phase, TickPhase::HoldingForApproval);
}

#[test]
fn observe_failure_short_circuits_and_marks_remaining_skipped() {
    let report = tick(vec![], true);
    assert_eq!(report.final_phase, TickPhase::Failed);
    assert_eq!(report.beats[0].beat, Beat::Observe);
    assert_eq!(report.beats[0].status, BeatStatus::Failed);
    let skipped: Vec<_> = report
        .beats
        .iter()
        .filter(|b| b.status == BeatStatus::Skipped)
        .map(|b| b.beat)
        .collect();
    assert_eq!(skipped.len(), 6);
}

#[test]
fn tick_duration_is_non_negative() {
    let report = tick(vec![], false);
    assert!(report.duration() >= 0);
}

#[test]
fn tick_notes_record_what_each_beat_did() {
    let report = tick(vec![finding(ChangeKind::Update, "cidr_block"), finding(ChangeKind::NoOp, "x")], false);
    let notes: Vec<Option<&str>> = report.beats.iter().map(|b| b.message.as_deref()).collect();
    assert_eq!(
        notes,
        vec![
            None,
            Some("1 drifted field(s)"),
            Some("functional"),
            Some("AutoCorrect"),
            Some("auto-correct enqueued"),
            None,
            Some("requeue in 30s"),
        ]
    );
    let beats: Vec<Beat> = report.beats.iter().map(|b| b.beat).collect();
    assert_eq!(beats, Beat::canonical_order().to_vec());
    assert_eq!(report.decision.as_ref().unwrap().action, RemediationAction::AutoCorrect);
    assert_eq!(report.source.cluster, "rio");
}

#[test]
fn observe_failure_records_the_error_text() {
    let report = tick(vec![], true);
    assert_eq!(report.beats[0].message.as_deref(), Some("observe: simulated outage"));
    assert!(report.decision.is_none());
    assert!(!report.visited_every_beat());
}

#[test]
fn escalate_without_ladder_fails_at_decide() {
    let mut policy = RemediationPolicy::default();
    policy.critical = RemediationAction::Escalate;
    let engine = ViggyEngine::new(
        TestController { detector_findings: vec![finding(ChangeKind::Delete, "*")], observe_fails: false },
        PolicyRouter,
        policy,
    );
    let report = engine.tick(address(), IndexMap::new());
    assert_eq!(report.final_phase, TickPhase::Failed);
    assert_eq!(report.beats[3].status, BeatStatus::Failed);
    assert_eq!(report.beats[3].message.as_deref(), Some("decide: escalation: Escalate set but no ladder"));
    let statuses: Vec<BeatStatus> = report.beats.iter().map(|b| b.status).collect();
    assert_eq!(
        statuses,
        vec![
            BeatStatus::Succeeded,
            BeatStatus::Succeeded,
            BeatStatus::Succeeded,
            BeatStatus::Failed,
            BeatStatus::Skipped,
            BeatStatus::Skipped,
            BeatStatus::Skipped,
        ]
    );
}

#[test]
fn escalate_with_ladder_lands_escalated() {
    let mut policy = RemediationPolicy::default();
    policy.critical = RemediationAction::Escalate;
    policy.escalation = Some(EscalationLadder {
        tiers: vec![EscalationTier {
            target: NotifyTarget::Ntfy { topic: "tier-0".into() },
            wait_before_next: 900_000_000_000,
        }],
    });
    let engine = ViggyEngine::new(
        TestController { detector_findings: vec![finding(ChangeKind::Replace, "*")], observe_fails: false },
        PolicyRouter,
        policy,
    );
    let report = engine.tick(address(), IndexMap::new());
    assert_eq!(report.final_phase, TickPhase::Escalated);
    assert_eq!(report.beats[6].message.as_deref(), Some("requeue in 60s"));
}

/// Attests only a report as it stands after Act: five beats that
/// succeeded, the decision and Act's phase.
struct CheckingAttest;

impl<R: AnomalyRouter> PromessaController<R> for CheckingAttest {
    type Context = ();

    fn observe(&self, _source: &ResourceAddress, _bindings: &IndexMap<String, String>) -> Result<(), ViggyError> {
        Ok(())
    }

    fn diff(&self, _ctx: &(), _bindings: &IndexMap<String, String>) -> Result<DriftReport, ViggyError> {
        Ok(report_from(DriftDetector::new(MockPlanner::empty()).scan("src", &IndexMap::new()).unwrap()))
    }

    fn attest(&self, report: &TickReport) -> Result<(), ViggyError> {
        let ok = report.beats.len() == 5
            && report.beats.iter().all(|b| b.status == BeatStatus::Succeeded)
            && report.decision.as_ref().map(|d| d.action) == Some(RemediationAction::Alert)
            && report.final_phase == TickPhase::Stable
            && report.source.cluster == "rio";
        if ok { Ok(()) } else { Err(ViggyError::Attest("unexpected report".into())) }
    }
}

#[test]
fn attest_sees_the_report_as_it_stands_after_act() {
    let engine = ViggyEngine::new(CheckingAttest, PolicyRouter, RemediationPolicy::default());
    let report = engine.tick(address(), IndexMap::new());
    assert_eq!(report.beats[5].status, BeatStatus::Succeeded);
    assert!(report.visited_every_beat());
    assert_eq!(report.final_phase, TickPhase::Stable);
}

struct FailingAttest;

impl<R: AnomalyRouter> PromessaController<R> for FailingAttest {
    type Context = ();

    fn observe(&self, _source: &ResourceAddress, _bindings: &IndexMap<String, String>) -> Result<(), ViggyError> {
        Ok(())
    }

    fn diff(&self, _ctx: &(), _bindings: &IndexMap<String, String>) -> Result<DriftReport, ViggyError> {
        Ok(report_from(DriftDetector::new(MockPlanner::empty()).scan("src", &IndexMap::new()).unwrap()))
    }

    fn attest(&self, _report: &TickReport) -> Result<(), ViggyError> {
        Err(ViggyError::Attest("chain offline".into()))
    }
}

#[test]
fn attest_failure_halts_the_tick_and_skips_tick() {
    let engine = ViggyEngine::new(FailingAttest, PolicyRouter, RemediationPolicy::default());
    let report = engine.tick(address(), IndexMap::new());
    assert_eq!(report.beats[5].status, BeatStatus::Failed);
    assert_eq!(report.beats[5].message.as_deref(), Some("attest: chain offline"));
    assert_eq!(report.beats[6].status, BeatStatus::Skipped);
    assert!(report.beats[6].message.is_none());
    assert_eq!(report.final_phase, TickPhase::Failed);
    assert_eq!(report.decision.as_ref().unwrap().action, RemediationAction::Alert);
    assert!(!report.visited_every_beat());
}

#[test]
fn default_decide_raises_a_drift_anomaly() {
    let controller = TestController { detector_findings: vec![], observe_fails: false };
    let report = PromessaController::<PolicyRouter>::diff(&controller, &(), &IndexMap::new()).unwrap();
    let (decision, anomaly) = controller
        .decide(&PolicyRouter, &RemediationPolicy::default(), address(), Severity::Critical, &report)
        .unwrap();
    assert_eq!(anomaly.kind, AnomalyKind::DriftDetected);
    assert_eq!(anomaly.severity, Severity::Critical);
    assert_eq!(anomaly.message, "drift detected: 0 field(s)");
    assert_eq!(decision.action, RemediationAction::RequireApproval);
    assert_eq!(PromessaController::<PolicyRouter>::classify(&controller, &report), Severity::Cosmetic);
    assert_eq!(PromessaController::<PolicyRouter>::tick_after(&controller, &decision), 120_000_000_000);
}

#[test]
fn default_decide_returns_the_routers_error_text() {
    let controller = TestController { detector_findings: vec![], observe_fails: false };
    let report = PromessaController::<PolicyRouter>::diff(&controller, &(), &IndexMap::new()).unwrap();
    let mut policy = RemediationPolicy::default();
    policy.functional = RemediationAction::Escalate;
    match controller.decide(&PolicyRouter, &policy, address(), Severity::Functional, &report) {
        Err(ViggyError::Decide(d)) => assert_eq!(d, "escalation: Escalate set but no ladder"),
        _ => panic!("expected a Decide error"),
    }
}

#[test]
fn visited_every_beat_is_false_when_a_beat_is_missing() {
    let mut report = tick(vec![], false);
    report.beats.retain(|b| b.beat != Beat::Attest);
    assert!(!report.visited_every_beat());
}

struct FailingDiff;

impl<R: AnomalyRouter> PromessaController<R> for FailingDiff {
    type Context = ();

    fn observe(&self, _source: &ResourceAddress, _bindings: &IndexMap<String, String>) -> Result<(), ViggyError> {
        Ok(())
    }

    fn diff(&self, _ctx: &(), _bindings: &IndexMap<String, String>) -> Result<DriftReport, ViggyError> {
        Err(ViggyError::Diff("planner unreachable".into()))
    }
}

#[test]
fn diff_failure_halts_the_tick_before_classify() {
    let engine = ViggyEngine::new(FailingDiff, PolicyRouter, RemediationPolicy::default());
    let report = engine.tick(address(), IndexMap::new());
    assert_eq!(report.final_phase, TickPhase::Failed);
    let statuses: Vec<BeatStatus> = report.beats.iter().map(|b| b.status).collect();
    assert_eq!(
        statuses,
        vec![
            BeatStatus::Succeeded,
            BeatStatus::Failed,
            BeatStatus::Skipped,
            BeatStatus::Skipped,
            BeatStatus::Skipped,
            BeatStatus::Skipped,
            BeatStatus::Skipped,
        ]
    );
    assert_eq!(report.beats[1].message.as_deref(), Some("diff: planner unreachable"));
    assert!(report.decision.is_none());
    for b in &report.beats[2..] {
        assert!(b.message.is_none());
        assert_eq!(b.started_at, b.ended_at);
    }
}

struct FailingAct;

impl<R: AnomalyRouter> PromessaController<R> for FailingAct {
    type Context = ();

    fn observe(&self, _source: &ResourceAddress, _bindings: &IndexMap<String, String>) -> Result<(), ViggyError> {
        Ok(())
    }

    fn diff(&self, _ctx: &(), _bindings: &IndexMap<String, String>) -> Result<DriftReport, ViggyError> {
        Ok(report_from(DriftDetector::new(MockPlanner::empty()).scan("src", &IndexMap::new()).unwrap()))
    }

    fn act(
        &self,
        _ctx: &(),
        _decision: &RoutingDecision,
        _report: &DriftReport,
    ) -> Result<(TickPhase, Option<String>), ViggyError> {
        Err(ViggyError::Act("gitops push rejected".into()))
    }
}

#[test]
fn act_failure_keeps_the_decision_and_skips_attest_and_tick() {
    let engine = ViggyEngine::new(FailingAct, PolicyRouter, RemediationPolicy::default());
    let report = engine.tick(address(), IndexMap::new());
    assert_eq!(report.final_phase, TickPhase::Failed);
    assert_eq!(report.beats[4].status, BeatStatus::Failed);
    assert_eq!(report.beats[4].message.as_deref(), Some("act: gitops push rejected"));
    assert_eq!(report.beats[5].status, BeatStatus::Skipped);
    assert_eq!(report.beats[6].status, BeatStatus::Skipped);
    assert_eq!(report.decision.as_ref().unwrap().action, RemediationAction::Alert);
}

#[test]
fn cosmetic_drift_tick_lands_stable() {
    let report = tick(vec![finding(ChangeKind::Update, "tags.Environment")], false);
    assert_eq!(report.final_phase, TickPhase::Stable);
    assert_eq!(report.beats[2].message.as_deref(), Some("cosmetic"));
    assert_eq!(report.beats[3].message.as_deref(), Some("Alert"));
    assert_eq!(report.beats[6].message.as_deref(), Some("requeue in 300s"));
}

#[test]
fn record_beat_halts_on_every_failure() {
    let mut beats = Vec::new();
    let halted = lava_viggy::engine::record_beat(&mut beats, 0, 5, Err(&ViggyError::Observe("down".into())));
    assert!(halted);
    assert_eq!(beats.len(), 7);
    assert_eq!(beats[0].message.as_deref(), Some("observe: down"));
    assert!(beats[1..].iter().all(|b| b.status == BeatStatus::Skipped));
    let instant = beats[1].started_at;
    assert!(beats[1..].iter().all(|b| b.started_at == instant && b.ended_at == instant));

    let mut beats = tick(vec![], false).beats;
    beats.truncate(5);
    let halted = lava_viggy::engine::record_beat(&mut beats, 5, 9, Err(&ViggyError::Attest("x".into())));
    assert!(halted);
    assert_eq!(beats.len(), 7);
    assert_eq!(beats[5].status, BeatStatus::Failed);
    assert_eq!(beats[5].started_at, 9);
    assert_eq!(beats[6].beat, Beat::Tick);
    assert_eq!(beats[6].status, BeatStatus::Skipped);

    let mut beats = Vec::new();
    let halted = lava_viggy::engine::record_beat(&mut beats, 0, 3, Ok(None));
    assert!(!halted);
    assert_eq!(beats.len(), 1);
    assert_eq!(beats[0].status, BeatStatus::Succeeded);
}

#[test]
fn requeue_note_truncates_toward_zero() {
    assert_eq!(lava_viggy::engine::requeue_note(1_500_000_000), "requeue in 1s");
    assert_eq!(lava_viggy::engine::requeue_note(-1_500_000_000), "requeue in -1s");
    assert_eq!(lava_viggy::engine::requeue_note(0), "requeue in 0s");
}

#[test]
fn visited_every_beat_ignores_order_grows_with_outcomes_and_is_false_when_empty() {
    let report = tick(vec![], false);
    assert!(report.visited_every_beat());
    let mut reordered = report.clone();
    reordered.beats.reverse();
    assert!(reordered.visited_every_beat());
    let mut more = report.clone();
    let failed = tick(vec![], true).beats;
    more.beats.extend(failed);
    assert!(more.visited_every_beat());
    let mut empty = report.clone();
    empty.beats.clear();
    assert!(!empty.visited_every_beat());
}

#[test]
fn clock_reads_near_the_system_time() {
    let before = nanos(chrono::Utc::now());
    let t = lava_viggy::clock::now();
    let after = nanos(chrono::Utc::now());
    assert!(before <= t && t <= after);
}

#[test]
fn a_new_anomaly_has_no_metadata() {
    let a = LavaAnomaly::new(AnomalyKind::DriftDetected, Severity::Cosmetic, address(), "m".to_string());
    assert!(a.metadata.is_empty());
    assert!(a.extension_kind.is_none());
}
