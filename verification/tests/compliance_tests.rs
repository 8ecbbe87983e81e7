use lava_viggy::lexical::{str_is_blank, str_less};
use lava_viggy::compliance::{
    ArmObservation, ArmVerdict, ComplianceArm, ComplianceBaseline, CompliancePayload, CompliancePromessa,
    CanonicalArm, ComplianceSpecError, ControlId,
};

/// Five minutes in nanoseconds.
const FIVE_MINUTES: i128 = 300_000_000_000;

fn json_str(s: &str) -> String {
    serde_json::to_string(s).unwrap()
}

/// The canonical JSON of a declaration, in field order, as its serde
/// encoding writes it (no escalation ladder).
fn canonical(p: &CompliancePromessa) -> Vec<u8> {
    let arms: Vec<String> = p
        .arms
        .iter()
        .map(|a| {
            let controls: Vec<String> = a.controls.iter().map(|c| json_str(c.as_str())).collect();
            let observation = match &a.observation {
                None => "null".to_string(),
                Some(ArmObservation::KubeApi { gvr, projection, expect }) => format!(
                    r#"{{"source":"kube-api","gvr":{},"projection":{},"expect":{}}}"#,
                    json_str(gvr),
                    json_str(projection),
                    json_str(expect)
                ),
                Some(ArmObservation::TameshiHeartbeat { chain, layer }) => format!(
                    r#"{{"source":"tameshi-heartbeat","chain":{},"layer":{}}}"#,
                    json_str(chain),
                    json_str(layer)
                ),
                Some(ArmObservation::Shinryu { query }) => {
                    format!(r#"{{"source":"shinryu","query":{}}}"#, json_str(query))
                }
            };
            format!(
                r#"{{"arm":{},"intent":{},"controls":[{}],"observation":{}}}"#,
                json_str(&a.arm),
                json_str(&a.intent),
                controls.join(","),
                observation
            )
        })
        .collect();
    format!(
        r#"{{"name":{},"namespace":{},"baseline":"{}","arms":[{}],"escalation":null,"reconcileEvery":{}}}"#,
        json_str(&p.name),
        json_str(&p.namespace),
        p.baseline.as_str(),
        arms.join(","),
        p.reconcile_every / 1_000_000_000
    )
    .into_bytes()
}

fn promessa() -> CompliancePromessa {
    CompliancePromessa::camelot_fedramp_high("camelot".to_string())
}

#[test]
fn camelot_fedramp_high_has_the_three_f4_arms() {
    let p = promessa();
    let arm_tags: Vec<&str> = p.arms.iter().map(|a| a.arm.as_str()).collect();
    assert_eq!(arm_tags, vec!["sc-8", "ra-5", "audit"]);
    assert_eq!(p.baseline, ComplianceBaseline::FedrampHigh);
    assert_eq!(p.reconcile_every, FIVE_MINUTES);
}

#[test]
fn control_set_dedups_and_covers_all_three_arms() {
    let p = promessa();
    let controls: Vec<String> = p.control_set().into_iter().map(|c| c.0).collect();
    assert!(controls.contains(&"SC-8".to_string()));
    assert!(controls.contains(&"SC-8(1)".to_string()));
    assert!(controls.contains(&"RA-5".to_string()));
    assert!(controls.contains(&"SI-2".to_string()));
    assert!(controls.contains(&"AU-12".to_string()));
    assert!(controls.contains(&"CA-7".to_string()));
    assert_eq!(controls.len(), 7);
}

#[test]
fn control_set_is_sorted_and_drops_repeats_across_arms() {
    let mut p = promessa();
    p.arms.push(ComplianceArm {
        arm: "extra".to_string(),
        intent: "repeats".to_string(),
        controls: vec![ControlId::new("SC-8".to_string()), ControlId::new("AC-2".to_string())],
        observation: None,
    });
    let controls: Vec<String> = p.control_set().into_iter().map(|c| c.0).collect();
    assert_eq!(
        controls,
        vec!["AC-2", "AU-12", "AU-2", "CA-7", "RA-5", "SC-8", "SC-8(1)", "SI-2"]
    );
}

#[test]
fn sc8_arm_observes_peerauth_strict() {
    let arm = ComplianceArm::sc8();
    match arm.observation.expect("sc-8 has an observation") {
        ArmObservation::KubeApi { projection, expect, .. } => {
            assert_eq!(projection, ".spec.mtls.mode");
            assert_eq!(expect, "STRICT");
        }
        other => panic!("expected KubeApi observation, got {other:?}"),
    }
}

#[test]
fn audit_arm_has_no_observation_it_is_derived_by_kensa() {
    let arm = ComplianceArm::audit_controls();
    assert!(arm.observation.is_none());
}

#[test]
fn valid_promessa_passes_validation() {
    let p = promessa();
    assert!(p.validate().is_ok());
}

#[test]
fn empty_arms_fails_validation() {
    let mut p = promessa();
    p.arms.clear();
    assert_eq!(p.validate(), Err(ComplianceSpecError::NoArms));
}

#[test]
fn blank_name_fails_validation_first() {
    let mut p = promessa();
    p.name = " \t\u{3000}".to_string();
    p.reconcile_every = 0;
    assert_eq!(p.validate(), Err(ComplianceSpecError::EmptyName));
}

#[test]
fn non_positive_interval_fails_validation() {
    let mut p = promessa();
    p.reconcile_every = -1;
    assert_eq!(p.validate(), Err(ComplianceSpecError::NonPositiveInterval));
    p.reconcile_every = 0;
    assert_eq!(p.validate(), Err(ComplianceSpecError::NonPositiveInterval));
}

#[test]
fn declaration_with_only_the_sc8_arm_fails_validation() {
    let mut p = promessa();
    p.arms.truncate(1);
    let err = p.validate().unwrap_err();
    assert_eq!(err, ComplianceSpecError::MissingArm { arm: CanonicalArm::Ra5 });
    assert_eq!(err.message(), "compliance promessa lacks the canonical `ra-5` arm");
}

#[test]
fn missing_canonical_arms_are_named_in_order() {
    let mut p = promessa();
    p.arms.remove(0);
    assert_eq!(p.validate(), Err(ComplianceSpecError::MissingArm { arm: CanonicalArm::Sc8 }));
    let mut q = promessa();
    q.arms.remove(2);
    assert_eq!(q.validate(), Err(ComplianceSpecError::MissingArm { arm: CanonicalArm::Audit }));
    let mut r = promessa();
    r.arms[1].arm = "ra-5b".to_string();
    assert_eq!(r.validate(), Err(ComplianceSpecError::MissingArm { arm: CanonicalArm::Ra5 }));
}

#[test]
fn missing_arm_is_checked_before_arms_without_controls() {
    let mut p = promessa();
    p.arms[0].controls.clear();
    p.arms.remove(2);
    assert_eq!(p.validate(), Err(ComplianceSpecError::MissingArm { arm: CanonicalArm::Audit }));
}

#[test]
fn first_arm_without_controls_is_named() {
    let mut p = promessa();
    p.arms[1].controls.clear();
    p.arms[2].controls.clear();
    let err = p.validate().unwrap_err();
    assert_eq!(err, ComplianceSpecError::ArmWithoutControls { arm: "ra-5".to_string() });
    assert_eq!(err.message(), "arm `ra-5` declares no controls");
}

#[test]
fn spec_hash_is_stable_and_content_addressed() {
    let p = promessa();
    let h1 = CompliancePromessa::spec_hash(&canonical(&p));
    let h2 = CompliancePromessa::spec_hash(&canonical(&p));
    assert_eq!(h1, h2);
    assert!(!h1.is_genesis());
}

#[test]
fn spec_hash_changes_with_baseline() {
    let p = promessa();
    let mut q = promessa();
    q.baseline = ComplianceBaseline::FedrampModerate;
    assert_ne!(
        CompliancePromessa::spec_hash(&canonical(&p)),
        CompliancePromessa::spec_hash(&canonical(&q))
    );
}

#[test]
fn spec_hash_is_blake3_of_the_encoding() {
    let bytes = canonical(&promessa());
    assert_eq!(
        CompliancePromessa::spec_hash(&bytes).0,
        lava_outcome_chain::ContentHash::of(&bytes).0
    );
}

#[test]
fn compliance_payload_kind_is_stable() {
    assert_eq!(CompliancePayload::KIND, "viggy.compliance");
}

#[test]
fn address_takes_namespace_and_name_from_the_spec() {
    let a = promessa().address("rio".to_string());
    assert_eq!(a.cluster, "rio");
    assert_eq!(a.namespace, "camelot");
    assert_eq!(a.name, "camelot-fedramp-high");
}

#[test]
fn baseline_and_verdict_names() {
    assert_eq!(ComplianceBaseline::FedrampLow.as_str(), "fedramp-low");
    assert_eq!(ComplianceBaseline::FedrampModerate.as_str(), "fedramp-moderate");
    assert_eq!(ComplianceBaseline::FedrampHigh.as_str(), "fedramp-high");
    assert_eq!(ArmVerdict::Holding.as_str(), "Holding");
    assert_eq!(ArmVerdict::Violated.as_str(), "Violated");
    assert_eq!(ArmVerdict::NotYetObserved.as_str(), "NotYetObserved");
}

#[test]
fn string_order_and_blankness() {
    assert!(str_less("AU-12", "AU-2"));
    assert!(str_less("SC-8", "SC-8(1)"));
    assert!(!str_less("SC-8", "SC-8"));
    assert!(!str_less("b", "a"));
    assert!(str_less("", "a"));
    assert!(str_is_blank(""));
    assert!(str_is_blank(" \n\u{2003}"));
    assert!(!str_is_blank(" x "));
}

fn control_ids(p: &CompliancePromessa) -> Vec<String> {
    p.control_set().into_iter().map(|c| c.0).collect()
}

#[test]
fn control_set_ignores_arm_order_and_repeats() {
    let p = promessa();
    let mut q = promessa();
    q.arms.reverse();
    let dup = q.arms[0].clone();
    q.arms.push(dup);
    q.arms[1].controls.reverse();
    let again = q.arms[1].controls[0].clone();
    q.arms[1].controls.push(again);
    assert_eq!(control_ids(&q), control_ids(&p));
}

#[test]
fn control_set_grows_when_an_arm_is_appended() {
    let p = promessa();
    let mut q = promessa();
    let mut extra = ComplianceArm::sc8();
    extra.arm = "extra".to_string();
    extra.controls = vec![ControlId::new("AC-2".to_string())];
    q.arms.push(extra);
    let small = control_ids(&p);
    let large = control_ids(&q);
    assert!(small.iter().all(|c| large.contains(c)));
    assert_eq!(large.len(), small.len() + 1);
    assert_eq!(large[0], "AC-2");
}
