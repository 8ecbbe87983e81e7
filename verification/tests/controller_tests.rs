use std::collections::HashMap;

use lava_viggy::compliance::{ArmObservation, ArmVerdict, ComplianceBaseline, CompliancePromessa};
use lava_viggy::compliance_controller::{
    BeatIntent, ComplianceController, ComplianceObserver, ComplianceTickError, ObserveError,
    ScaffoldObserver,
};
use lava_viggy::hash::ContentHash;

/// A deterministic mock observer: returns a canned verdict per arm.
struct MockObserver {
    verdicts: HashMap<String, ArmVerdict>,
}

impl MockObserver {
    fn holding_all() -> Self {
        let mut verdicts = HashMap::new();
        for tag in ["sc-8", "ra-5", "audit"] {
            verdicts.insert(tag.to_string(), ArmVerdict::Holding);
        }
        Self { verdicts }
    }
}

impl ComplianceObserver for MockObserver {
    fn observe_arm(
        &self,
        arm_tag: &str,
        _observation: Option<&ArmObservation>,
    ) -> Result<(ArmVerdict, Option<String>), ObserveError> {
        Ok((
            self.verdicts.get(arm_tag).copied().unwrap_or(ArmVerdict::NotYetObserved),
            None,
        ))
    }
}

/// An observer whose backend is down for one arm.
struct FailingObserver;

impl ComplianceObserver for FailingObserver {
    fn observe_arm(
        &self,
        arm_tag: &str,
        _observation: Option<&ArmObservation>,
    ) -> Result<(ArmVerdict, Option<String>), ObserveError> {
        if arm_tag == "ra-5" {
            Err(ObserveError::Backend { arm: arm_tag.to_string(), reason: "offline".to_string() })
        } else {
            Ok((ArmVerdict::Holding, None))
        }
    }
}

fn controller_with<O: ComplianceObserver>(obs: O) -> ComplianceController<O> {
    ComplianceController::new(CompliancePromessa::camelot_fedramp_high("compliance".to_string()), obs)
}

fn spec_bytes() -> Result<Vec<u8>, String> {
    Ok(b"{\"name\":\"camelot-fedramp-high\"}".to_vec())
}

#[test]
fn scaffold_observer_records_notyetobserved_and_flags_the_tick() {
    let ctrl = controller_with(ScaffoldObserver);
    let tick = ctrl.scaffold_tick(spec_bytes(), 0).expect("tick");
    assert!(tick.payload.scaffold);
    for outcome in &tick.payload.arm_outcomes {
        assert_eq!(outcome.verdict, ArmVerdict::NotYetObserved);
    }
    let report = tick.seal(0, ContentHash::of(b"receipt"));
    assert!(report.scaffold);
}

#[test]
fn holding_observer_is_not_a_scaffold_tick() {
    let ctrl = controller_with(MockObserver::holding_all());
    let (outcomes, scaffold) = ctrl.observe_arms().expect("observe");
    assert!(!scaffold);
    let tags: Vec<&str> = outcomes.iter().map(|o| o.arm.as_str()).collect();
    assert_eq!(tags, vec!["sc-8", "ra-5", "audit"]);
    assert_eq!(outcomes[0].controls, ctrl.promessa().arms[0].controls);
}

#[test]
fn decide_beat_returns_the_typed_design_marker_not_a_fake_ok() {
    let ctrl = controller_with(ScaffoldObserver);
    let intent = ctrl.decide_intent();
    match intent {
        BeatIntent::Design { beat, .. } => assert_eq!(beat, "Decide"),
    }
}

#[test]
fn act_beat_returns_the_typed_design_marker_not_a_fake_ok() {
    let ctrl = controller_with(ScaffoldObserver);
    let intent = ctrl.act_intent();
    match intent {
        BeatIntent::Design { beat, .. } => assert_eq!(beat, "Act"),
    }
}

#[test]
fn scaffold_tick_surfaces_both_design_markers() {
    let ctrl = controller_with(ScaffoldObserver);
    let report = ctrl.scaffold_tick(spec_bytes(), 0).expect("tick").seal(0, ContentHash::genesis());
    assert_eq!(report.decide, BeatIntent::decide_pending());
    assert_eq!(report.act, BeatIntent::act_pending());
}

#[test]
fn baseline_carries_onto_the_receipt() {
    let ctrl = controller_with(MockObserver::holding_all());
    let tick = ctrl.scaffold_tick(spec_bytes(), 0).unwrap();
    assert_eq!(tick.payload.baseline, ComplianceBaseline::FedrampHigh);
    assert_eq!(tick.payload.promessa_name, "camelot-fedramp-high");
    assert_eq!(tick.payload.tick_index, 0);
}

#[test]
fn payload_binds_the_spec_hash_of_the_encoding() {
    let ctrl = controller_with(MockObserver::holding_all());
    let bytes = spec_bytes().unwrap();
    let tick = ctrl.scaffold_tick(Ok(bytes.clone()), 2).unwrap();
    assert_eq!(tick.payload.spec_hash, CompliancePromessa::spec_hash(&bytes));
    assert_eq!(tick.payload.tick_index, 2);
}

#[test]
fn seal_hex_encodes_the_receipt_hash() {
    let ctrl = controller_with(ScaffoldObserver);
    let hash = ContentHash::of(b"receipt");
    let report = ctrl.scaffold_tick(spec_bytes(), 5).unwrap().seal(5, hash);
    assert_eq!(report.sequence, 5);
    assert_eq!(report.receipt_hash_hex, lava_outcome_chain::ContentHash::of(b"receipt").hex());
}

#[test]
fn observe_failure_ends_the_tick() {
    let ctrl = controller_with(FailingObserver);
    match ctrl.scaffold_tick(spec_bytes(), 0) {
        Err(ComplianceTickError::Observe(e)) => assert_eq!(e.message(), "observe arm `ra-5`: offline"),
        other => panic!("expected an observe error, got {other:?}"),
    }
}

#[test]
fn spec_hash_failure_is_an_attest_error() {
    let ctrl = controller_with(MockObserver::holding_all());
    match ctrl.scaffold_tick(Err("bad encoding".to_string()), 0) {
        Err(e @ ComplianceTickError::Attest(_)) => assert_eq!(e.message(), "spec-hash: bad encoding"),
        other => panic!("expected an attest error, got {other:?}"),
    }
}

#[test]
fn scaffold_observer_detail_is_honest() {
    let (verdict, detail) = ScaffoldObserver.observe_arm("sc-8", None).unwrap();
    assert_eq!(verdict, ArmVerdict::NotYetObserved);
    assert_eq!(detail.as_deref(), Some("scaffold observer — no live source wired"));
}
