//! Anomalies and their routing, as `lava_anomaly` shapes them: the
//! typed anomaly a controller emits, the operator's remediation policy,
//! and the routing decision a router returns.

use vstd::prelude::*;
use crate::address::ResourceAddress;
use crate::drift::Severity;

verus! {

/// Stable kind tag every anomaly carries.
#[derive(Clone, Copy, Debug, PartialEq, Eq, Structural)]
pub enum AnomalyKind {
    DriftDetected,
    SynthesisFailure,
    ApplyFailure,
    DependencyBlocked,
    PolicyViolation,
    Custom,
}

/// One typed anomaly emission.
#[derive(Clone, Debug, PartialEq, Eq)]
pub struct LavaAnomaly {
    pub kind: AnomalyKind,
    /// When `kind == Custom`, the controller-defined kind name.
    pub extension_kind: Option<String>,
    pub severity: Severity,
    pub source: ResourceAddress,
    pub message: String,
    /// When the anomaly was emitted, in nanoseconds since the epoch.
    pub emitted_at: i128,
    /// Per-anomaly metadata, in insertion order; no key appears twice
    /// (see `well_formed`).
    pub metadata: Vec<(String, String)>,
}

/// No two entries of a key-value list share a key: the list is the
/// insertion-ordered map it stands for.
pub open spec fn keys_distinct(entries: Seq<(String, String)>) -> bool {
    forall|i: int, j: int| 0 <= i < j < entries.len() ==> (#[trigger] entries[i]).0@ != (#[trigger] entries[j]).0@
}

impl LavaAnomaly {
    /// The anomaly's invariant: its metadata keys are distinct.
    pub open spec fn well_formed(self) -> bool {
        keys_distinct(self.metadata@)
    }

    /// An anomaly with no extension kind and no metadata, stamped with
    /// the current instant (see `clock::now`).
    pub fn new(kind: AnomalyKind, severity: Severity, source: ResourceAddress, message: String) -> (a: LavaAnomaly)
        ensures
            a.kind == kind,
            a.extension_kind is None,
            a.severity == severity,
            a.source == source,
            a.message == message,
            a.metadata@.len() == 0,
            a.well_formed(),
    {
        LavaAnomaly {
            kind,
            extension_kind: None,
            severity,
            source,
            message,
            emitted_at: crate::clock::now(),
            metadata: Vec::new(),
        }
    }
}

/// What the controller does about an anomaly.
#[derive(Clone, Copy, Debug, PartialEq, Eq, Structural)]
pub enum RemediationAction {
    /// Suppress the anomaly; the controller continues normally.
    NoOp,
    /// Log, persist and notify.
    Alert,
    /// Drive a reconverge tick automatically.
    AutoCorrect,
    /// Halt convergence until an approval arrives.
    RequireApproval,
    /// Walk the escalation ladder.
    Escalate,
}

impl RemediationAction {
    /// The variant's name, as `{:?}` prints it.
    pub open spec fn name(self) -> Seq<char> {
        match self {
            RemediationAction::NoOp => "NoOp"@,
            RemediationAction::Alert => "Alert"@,
            RemediationAction::AutoCorrect => "AutoCorrect"@,
            RemediationAction::RequireApproval => "RequireApproval"@,
            RemediationAction::Escalate => "Escalate"@,
        }
    }

    pub fn as_str(self) -> (s: &'static str)
        ensures
            s@ == self.name(),
    {
        match self {
            RemediationAction::NoOp => "NoOp",
            RemediationAction::Alert => "Alert",
            RemediationAction::AutoCorrect => "AutoCorrect",
            RemediationAction::RequireApproval => "RequireApproval",
            RemediationAction::Escalate => "Escalate",
        }
    }
}

/// A typed notification address.
#[derive(Clone, Debug, PartialEq, Eq)]
pub enum NotifyTarget {
    Slack { webhook_secret_ref: String },
    Ntfy { topic: String },
    Pagerduty { service_key_secret_ref: String },
    Email { address: String },
    Webhook { url: String, secret_ref: Option<String> },
    /// Parameters in insertion order; no key appears twice (see
    /// `well_formed`).
    Custom { name: String, params: Vec<(String, String)> },
}

impl NotifyTarget {
    /// The target's invariant: a custom target's parameter keys are
    /// distinct.
    pub open spec fn well_formed(self) -> bool {
        match self {
            NotifyTarget::Custom { params, .. } => keys_distinct(params@),
            _ => true,
        }
    }
}

/// One tier of an escalation ladder.
#[derive(Clone, Debug, PartialEq, Eq)]
pub struct EscalationTier {
    pub target: NotifyTarget,
    /// Nanoseconds to wait before escalating to the next tier.
    pub wait_before_next: i128,
}

/// Tiered notification recipients; tier 0 fires first.
#[derive(Clone, Debug, PartialEq, Eq)]
pub struct EscalationLadder {
    pub tiers: Vec<EscalationTier>,
}

/// Per-severity remediation policy.
#[derive(Clone, Debug, PartialEq, Eq)]
pub struct RemediationPolicy {
    pub cosmetic: RemediationAction,
    pub functional: RemediationAction,
    pub critical: RemediationAction,
    /// Ladder walked when the action is `Escalate`.
    pub escalation: Option<EscalationLadder>,
}

impl RemediationPolicy {
    /// The action the policy prescribes for a severity.
    pub open spec fn action_for(self, severity: Severity) -> RemediationAction {
        match severity {
            Severity::Cosmetic => self.cosmetic,
            Severity::Functional => self.functional,
            Severity::Critical => self.critical,
        }
    }
}

impl Default for RemediationPolicy {
    /// Cosmetic alerts, functional auto-corrects, critical requires
    /// approval, no ladder.
    fn default() -> (p: Self)
        ensures
            p.cosmetic == RemediationAction::Alert,
            p.functional == RemediationAction::AutoCorrect,
            p.critical == RemediationAction::RequireApproval,
            p.escalation is None,
    {
        RemediationPolicy {
            cosmetic: RemediationAction::Alert,
            functional: RemediationAction::AutoCorrect,
            critical: RemediationAction::RequireApproval,
            escalation: None,
        }
    }
}

/// The routing decision a router returns.
#[derive(Clone, Debug, PartialEq, Eq)]
pub struct RoutingDecision {
    pub action: RemediationAction,
    /// Suggested requeue delay, in nanoseconds.
    pub requeue_after: i128,
    /// Selected escalation tier (when the action is `Escalate`).
    pub escalation: Option<EscalationTier>,
}

/// A routing failure.
#[derive(Debug)]
pub enum RouterError {
    Escalation(String),
}

impl RouterError {
    /// The error's display text: `escalation: <detail>`.
    pub open spec fn text(self) -> Seq<char> {
        match self {
            RouterError::Escalation(d) => "escalation: "@ + d@,
        }
    }

    pub fn message(&self) -> (s: String)
        ensures
            s@ == self.text(),
    {
        match self {
            RouterError::Escalation(d) => String::from_str("escalation: ").concat(d.as_str()),
        }
    }
}

/// The routing seam: decides what to do with an anomaly under a policy.
pub trait AnomalyRouter {
    fn route(&self, anomaly: &LavaAnomaly, policy: &RemediationPolicy) -> Result<RoutingDecision, RouterError>;
}

} // verus!
