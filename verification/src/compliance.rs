//! The Compliance promessa: a claimed FedRAMP baseline, the compliance
//! arms that attest it (each a set of NIST SP 800-53 controls plus how
//! the arm is observed), and the payload a compliance tick records on
//! the outcome chain.

use vstd::prelude::*;
use vstd::string::*;
use crate::address::ResourceAddress;
use crate::anomaly::EscalationLadder;
use crate::hash::{blake3_digest, ContentHash};
use crate::lexical::{
    is_blank, is_white_space, lemma_seq_less_irreflexive, lemma_seq_less_total, lemma_seq_less_transitive, seq_less, str_is_blank, str_less,
};

verus! {

/// A NIST SP 800-53 control identifier as the FedRAMP baseline writes
/// it, e.g. `SC-8`, `SC-8(1)`, `RA-5`.
#[derive(Debug, PartialEq, Eq)]
pub struct ControlId(pub String);

impl ControlId {
    pub fn new(id: String) -> (c: ControlId)
        ensures
            c.0 == id,
    {
        ControlId(id)
    }

    pub fn as_str(&self) -> (s: &str)
        ensures
            s@ == self.0@,
    {
        self.0.as_str()
    }
}

impl Clone for ControlId {
    fn clone(&self) -> (c: Self)
        ensures
            c == *self,
    {
        ControlId(self.0.clone())
    }
}

/// The FedRAMP impact baseline a promessa claims.
#[derive(Clone, Copy, Debug, PartialEq, Eq, Structural)]
pub enum ComplianceBaseline {
    FedrampLow,
    FedrampModerate,
    FedrampHigh,
}

impl ComplianceBaseline {
    pub open spec fn name(self) -> Seq<char> {
        match self {
            ComplianceBaseline::FedrampLow => "fedramp-low"@,
            ComplianceBaseline::FedrampModerate => "fedramp-moderate"@,
            ComplianceBaseline::FedrampHigh => "fedramp-high"@,
        }
    }

    pub fn as_str(self) -> (s: &'static str)
        ensures
            s@ == self.name(),
    {
        match self {
            ComplianceBaseline::FedrampLow => "fedramp-low",
            ComplianceBaseline::FedrampModerate => "fedramp-moderate",
            ComplianceBaseline::FedrampHigh => "fedramp-high",
        }
    }
}

/// How an arm is observed: the source it is read from.
#[derive(Clone, Debug, PartialEq, Eq)]
pub enum ArmObservation {
    /// A projection of a live Kubernetes object.
    KubeApi {
        /// Group/version/resource, e.g. `security.istio.io/v1/PeerAuthentication`.
        gvr: String,
        /// JSONPath-style projection, e.g. `.spec.mtls.mode`.
        projection: String,
        /// The value that satisfies the control, e.g. `STRICT`.
        expect: String,
    },
    /// The tameshi image-attestation heartbeat chain.
    TameshiHeartbeat {
        chain: String,
        layer: String,
    },
    /// A shinryu CVE snapshot.
    Shinryu {
        query: String,
    },
}

/// One compliance arm: a set of controls plus how they are observed.
#[derive(Clone, Debug, PartialEq, Eq)]
pub struct ComplianceArm {
    /// Short arm tag surfaced in receipts and telemetry, e.g. `sc-8`.
    pub arm: String,
    /// Human phrase, e.g. "every east-west edge is mTLS".
    pub intent: String,
    /// The controls this arm attests.
    pub controls: Vec<ControlId>,
    /// How the arm is observed; `None` when the arm is the control set
    /// itself (the audit-controls arm).
    pub observation: Option<ArmObservation>,
}

/// The controls of an arm, as identifier strings.
pub open spec fn control_names(controls: Seq<ControlId>) -> Seq<Seq<char>> {
    controls.map_values(|c: ControlId| c.0@)
}

/// The SC-8 / SC-8(1) arm: every east-west edge is mTLS, observed on
/// the PeerAuthentication mode.
pub open spec fn is_sc8_arm(a: ComplianceArm) -> bool {
    &&& a.arm@ == "sc-8"@
    &&& a.intent@ == "every east-west edge is mTLS (a plaintext hop is unrepresentable)"@
    &&& control_names(a.controls@) == seq!["SC-8"@, "SC-8(1)"@]
    &&& a.observation matches Some(ArmObservation::KubeApi { gvr, projection, expect })
    &&& gvr@ == "security.istio.io/v1/PeerAuthentication"@
    &&& projection@ == ".spec.mtls.mode"@
    &&& expect@ == "STRICT"@
}

/// The RA-5 / SI-2 arm: no unscanned or unsigned image, observed on the
/// tameshi build-layer chain.
pub open spec fn is_ra5_arm(a: ComplianceArm) -> bool {
    &&& a.arm@ == "ra-5"@
    &&& a.intent@ == "no unscanned or unsigned image enters the trusted zone"@
    &&& control_names(a.controls@) == seq!["RA-5"@, "SI-2"@]
    &&& a.observation matches Some(ArmObservation::TameshiHeartbeat { chain, layer })
    &&& chain@ == "camelot-attest"@
    &&& layer@ == "Build"@
}

/// The AU-2 / AU-12 / CA-7 audit-control arm, with no observation of
/// its own.
pub open spec fn is_audit_arm(a: ComplianceArm) -> bool {
    &&& a.arm@ == "audit"@
    &&& a.intent@ == "continuous-monitoring evidence is derived, not authored"@
    &&& control_names(a.controls@) == seq!["AU-2"@, "AU-12"@, "CA-7"@]
    &&& a.observation is None
}

fn control(id: &str) -> (c: ControlId)
    ensures
        c.0@ == id@,
{
    ControlId::new(String::from_str(id))
}

impl ComplianceArm {
    /// The SC-8 / SC-8(1) arm.
    pub fn sc8() -> (a: ComplianceArm)
        ensures
            is_sc8_arm(a),
    {
        let controls = vec![control("SC-8"), control("SC-8(1)")];
        let a = ComplianceArm {
            arm: String::from_str("sc-8"),
            intent: String::from_str("every east-west edge is mTLS (a plaintext hop is unrepresentable)"),
            controls,
            observation: Some(ArmObservation::KubeApi {
                gvr: String::from_str("security.istio.io/v1/PeerAuthentication"),
                projection: String::from_str(".spec.mtls.mode"),
                expect: String::from_str("STRICT"),
            }),
        };
        assert(control_names(a.controls@) =~= seq!["SC-8"@, "SC-8(1)"@]);
        a
    }

    /// The RA-5 / SI-2 arm.
    pub fn ra5() -> (a: ComplianceArm)
        ensures
            is_ra5_arm(a),
    {
        let controls = vec![control("RA-5"), control("SI-2")];
        let a = ComplianceArm {
            arm: String::from_str("ra-5"),
            intent: String::from_str("no unscanned or unsigned image enters the trusted zone"),
            controls,
            observation: Some(ArmObservation::TameshiHeartbeat {
                chain: String::from_str("camelot-attest"),
                layer: String::from_str("Build"),
            }),
        };
        assert(control_names(a.controls@) =~= seq!["RA-5"@, "SI-2"@]);
        a
    }

    /// The AU-2 / AU-12 / CA-7 audit-control arm.
    pub fn audit_controls() -> (a: ComplianceArm)
        ensures
            is_audit_arm(a),
    {
        let controls = vec![control("AU-2"), control("AU-12"), control("CA-7")];
        let a = ComplianceArm {
            arm: String::from_str("audit"),
            intent: String::from_str("continuous-monitoring evidence is derived, not authored"),
            controls,
            observation: None,
        };
        assert(control_names(a.controls@) =~= seq!["AU-2"@, "AU-12"@, "CA-7"@]);
        a
    }
}


/// Control `c` is declared by some arm.
pub open spec fn declares_control(arms: Seq<ComplianceArm>, c: Seq<char>) -> bool {
    exists|a: int, k: int|
        0 <= a < arms.len() && 0 <= k < arms[a].controls@.len() && #[trigger] arms[a].controls@[k].0@ == c
}

/// Control `c` is declared by an arm before arm `a`, or by arm `a`
/// before its control `k`.
pub open spec fn declared_before(arms: Seq<ComplianceArm>, a: int, k: int, c: Seq<char>) -> bool {
    exists|x: int, y: int|
        0 <= x < arms.len() && 0 <= y < arms[x].controls@.len() && (x < a || (x == a && y < k))
            && #[trigger] arms[x].controls@[y].0@ == c
}

/// Some control in `s` has identifier `c`.
pub open spec fn holds_control(s: Seq<ControlId>, c: Seq<char>) -> bool {
    exists|i: int| 0 <= i < s.len() && #[trigger] s[i].0@ == c
}

/// The identifiers strictly increase along `s`: sorted, no duplicates.
pub open spec fn strictly_sorted(s: Seq<ControlId>) -> bool {
    forall|i: int, j: int| 0 <= i < j < s.len() ==> seq_less(#[trigger] s[i].0@, #[trigger] s[j].0@)
}

/// `s` is a control set of `arms`: strictly sorted, holding exactly the
/// identifiers the arms declare.
pub open spec fn is_control_set_of(s: Seq<ControlId>, arms: Seq<ComplianceArm>) -> bool {
    &&& strictly_sorted(s)
    &&& forall|x: Seq<char>| holds_control(s, x) <==> declares_control(arms, x)
}

/// The strings strictly increase along `s`.
pub open spec fn increasing(s: Seq<Seq<char>>) -> bool {
    forall|i: int, j: int| 0 <= i < j < s.len() ==> seq_less(#[trigger] s[i], #[trigger] s[j])
}

/// Two strictly increasing sequences of strings with the same elements
/// are equal.
proof fn lemma_increasing_unique(a: Seq<Seq<char>>, b: Seq<Seq<char>>)
    requires
        increasing(a),
        increasing(b),
        forall|x: Seq<char>| a.contains(x) <==> b.contains(x),
    ensures
        a == b,
    decreases a.len() + b.len(),
{
    if a.len() == 0 {
        if b.len() > 0 {
            assert(b.contains(b[0]));
        }
        assert(a =~= b);
    } else if b.len() == 0 {
        assert(a.contains(a[0]));
    } else {
        assert(a.contains(a[0]));
        assert(b.contains(b[0]));
        let j = choose|j: int| 0 <= j < b.len() && b[j] == a[0];
        let i = choose|i: int| 0 <= i < a.len() && a[i] == b[0];
        if j > 0 {
            assert(seq_less(b[0], b[j]));
            if i > 0 {
                assert(seq_less(a[0], a[i]));
                lemma_seq_less_transitive(a[0], a[i], a[0]);
            }
            lemma_seq_less_irreflexive(a[0]);
            assert(false);
        }
        let a1 = a.drop_first();
        let b1 = b.drop_first();
        assert forall|x: Seq<char>| a1.contains(x) <==> b1.contains(x) by {
            if a1.contains(x) {
                let k = choose|k: int| 0 <= k < a1.len() && a1[k] == x;
                assert(a[k + 1] == x);
                assert(a.contains(x));
                let m = choose|m: int| 0 <= m < b.len() && b[m] == x;
                if m == 0 {
                    assert(seq_less(a[0], a[k + 1]));
                    lemma_seq_less_irreflexive(x);
                }
                assert(b1[m - 1] == x);
            }
            if b1.contains(x) {
                let k = choose|k: int| 0 <= k < b1.len() && b1[k] == x;
                assert(b[k + 1] == x);
                assert(b.contains(x));
                let m = choose|m: int| 0 <= m < a.len() && a[m] == x;
                if m == 0 {
                    assert(seq_less(b[0], b[k + 1]));
                    lemma_seq_less_irreflexive(x);
                }
                assert(a1[m - 1] == x);
            }
        }
        assert(increasing(a1)) by {
            assert forall|i: int, j: int| 0 <= i < j < a1.len() implies seq_less(#[trigger] a1[i], #[trigger] a1[j]) by {
                assert(a1[i] == a[i + 1] && a1[j] == a[j + 1]);
            }
        }
        assert(increasing(b1)) by {
            assert forall|i: int, j: int| 0 <= i < j < b1.len() implies seq_less(#[trigger] b1[i], #[trigger] b1[j]) by {
                assert(b1[i] == b[i + 1] && b1[j] == b[j + 1]);
            }
        }
        lemma_increasing_unique(a1, b1);
        assert forall|k: int| 0 <= k < a.len() implies a[k] == b[k] by {
            if k > 0 {
                assert(a[k] == a1[k - 1]);
                assert(b[k] == b1[k - 1]);
            }
        }
        assert(a =~= b);
    }
}

/// The identifiers of a control set strictly increase, and it holds an
/// identifier exactly when some arm declares it.
proof fn lemma_control_names_of_set(s: Seq<ControlId>, arms: Seq<ComplianceArm>)
    requires
        is_control_set_of(s, arms),
    ensures
        increasing(control_names(s)),
        forall|x: Seq<char>| control_names(s).contains(x) <==> declares_control(arms, x),
{
    let n = control_names(s);
    assert forall|i: int, j: int| 0 <= i < j < n.len() implies seq_less(#[trigger] n[i], #[trigger] n[j]) by {
        assert(n[i] == s[i].0@ && n[j] == s[j].0@);
    }
    assert forall|x: Seq<char>| n.contains(x) <==> declares_control(arms, x) by {
        if n.contains(x) {
            let i = choose|i: int| 0 <= i < n.len() && n[i] == x;
            assert(s[i].0@ == x);
            assert(holds_control(s, x));
        }
        if declares_control(arms, x) {
            assert(holds_control(s, x));
            let i = choose|i: int| 0 <= i < s.len() && #[trigger] s[i].0@ == x;
            assert(n[i] == x);
        }
    }
}

/// The control set depends only on which control identifiers the arms
/// declare: two declarations whose arms declare the same identifiers
/// (arms reordered or repeated, controls within an arm reordered or
/// repeated) have control sets listing the same identifiers in the same
/// order.
pub proof fn law_control_set_depends_only_on_declared_ids(
    p_arms: Seq<ComplianceArm>,
    q_arms: Seq<ComplianceArm>,
    p_set: Seq<ControlId>,
    q_set: Seq<ControlId>,
)
    requires
        is_control_set_of(p_set, p_arms),
        is_control_set_of(q_set, q_arms),
        forall|x: Seq<char>| declares_control(p_arms, x) <==> declares_control(q_arms, x),
    ensures
        control_names(p_set) == control_names(q_set),
{
    lemma_control_names_of_set(p_set, p_arms);
    lemma_control_names_of_set(q_set, q_arms);
    assert forall|x: Seq<char>| control_names(p_set).contains(x) <==> control_names(q_set).contains(x) by {
        assert(control_names(p_set).contains(x) <==> declares_control(p_arms, x));
        assert(control_names(q_set).contains(x) <==> declares_control(q_arms, x));
    }
    lemma_increasing_unique(control_names(p_set), control_names(q_set));
}

/// Declaring more identifiers only grows the control set: every control
/// of the smaller declaration's set is in the larger one's.
pub proof fn law_control_set_grows_with_declared_ids(
    p_arms: Seq<ComplianceArm>,
    q_arms: Seq<ComplianceArm>,
    p_set: Seq<ControlId>,
    q_set: Seq<ControlId>,
)
    requires
        is_control_set_of(p_set, p_arms),
        is_control_set_of(q_set, q_arms),
        forall|x: Seq<char>| declares_control(p_arms, x) ==> declares_control(q_arms, x),
    ensures
        forall|x: Seq<char>| holds_control(p_set, x) ==> holds_control(q_set, x),
{
}

/// Arms that are all among another declaration's arms (reordered,
/// repeated, or with more arms beside them) declare only identifiers
/// that declaration declares.
pub proof fn law_declared_ids_follow_the_arms(p_arms: Seq<ComplianceArm>, q_arms: Seq<ComplianceArm>)
    requires
        forall|a: ComplianceArm| p_arms.contains(a) ==> q_arms.contains(a),
    ensures
        forall|x: Seq<char>| declares_control(p_arms, x) ==> declares_control(q_arms, x),
{
    assert forall|x: Seq<char>| declares_control(p_arms, x) implies declares_control(q_arms, x) by {
        let (a, k) = choose|a: int, k: int|
            0 <= a < p_arms.len() && 0 <= k < p_arms[a].controls@.len() && #[trigger] p_arms[a].controls@[k].0@ == x;
        assert(p_arms.contains(p_arms[a]));
        let b = choose|b: int| 0 <= b < q_arms.len() && q_arms[b] == p_arms[a];
        assert(q_arms[b].controls@[k].0@ == x);
    }
}

/// Inserts `c` into a strictly sorted set of controls, unless a control
/// with the same identifier is already there.
fn insert_control(out: &mut Vec<ControlId>, c: &ControlId)
    requires
        strictly_sorted(old(out)@),
    ensures
        strictly_sorted(final(out)@),
        forall|x: Seq<char>| holds_control(final(out)@, x) <==> (holds_control(old(out)@, x) || x == c.0@),
{
    let mut p: usize = 0;
    while p < out.len() && str_less(out[p].0.as_str(), c.0.as_str())
        invariant
            p <= out@.len(),
            out@ == old(out)@,
            forall|i: int| 0 <= i < p ==> seq_less(#[trigger] out@[i].0@, c.0@),
        decreases out@.len() - p,
    {
        p = p + 1;
    }
    if p < out.len() && out[p].0 == c.0 {
        assert(holds_control(out@, c.0@));
        return;
    }
    let ghost before = out@;
    proof {
        if p < before.len() {
            lemma_seq_less_total(before[p as int].0@, c.0@);
            assert forall|j: int| p <= j < before.len() implies seq_less(c.0@, #[trigger] before[j].0@) by {
                if j > p {
                    lemma_seq_less_transitive(c.0@, before[p as int].0@, before[j].0@);
                }
            }
        }
    }
    out.insert(p, c.clone());
    proof {
        let after = out@;
        assert forall|i: int, j: int| 0 <= i < j < after.len() implies seq_less(#[trigger] after[i].0@, #[trigger] after[j].0@) by {
            if j < p {
                assert(after[i] == before[i] && after[j] == before[j]);
            } else if j == p {
                assert(after[i] == before[i]);
            } else if i < p {
                assert(after[i] == before[i] && after[j] == before[j - 1]);
                lemma_seq_less_transitive(before[i].0@, c.0@, before[j - 1].0@);
            } else if i == p {
                assert(after[j] == before[j - 1]);
            } else {
                assert(after[i] == before[i - 1] && after[j] == before[j - 1]);
            }
        }
        assert forall|x: Seq<char>| holds_control(after, x) <==> (holds_control(before, x) || x == c.0@) by {
            if holds_control(after, x) {
                let i = choose|i: int| 0 <= i < after.len() && #[trigger] after[i].0@ == x;
                if i < p {
                    assert(after[i] == before[i]);
                } else if i > p {
                    assert(after[i] == before[i - 1]);
                }
            }
            if holds_control(before, x) {
                let i = choose|i: int| 0 <= i < before.len() && #[trigger] before[i].0@ == x;
                if i < p {
                    assert(after[i] == before[i]);
                } else {
                    assert(after[i + 1] == before[i]);
                }
            }
            if x == c.0@ {
                assert(after[p as int].0@ == x);
            }
        }
    }
}

/// The set of controls of a list of arms, as a strictly sorted,
/// duplicate-free sequence.
fn collect_controls(arms: &Vec<ComplianceArm>) -> (out: Vec<ControlId>)
    ensures
        strictly_sorted(out@),
        forall|x: Seq<char>| holds_control(out@, x) <==> declares_control(arms@, x),
{
    let mut out: Vec<ControlId> = Vec::new();
    let mut a: usize = 0;
    while a < arms.len()
        invariant
            a <= arms@.len(),
            strictly_sorted(out@),
            forall|x: Seq<char>| holds_control(out@, x) <==> declared_before(arms@, a as int, 0, x),
        decreases arms@.len() - a,
    {
        let controls = &arms[a].controls;
        let mut k: usize = 0;
        while k < controls.len()
            invariant
                a < arms@.len(),
                controls == arms@[a as int].controls,
                k <= controls@.len(),
                strictly_sorted(out@),
                forall|x: Seq<char>| holds_control(out@, x) <==> declared_before(arms@, a as int, k as int, x),
            decreases controls@.len() - k,
        {
            insert_control(&mut out, &controls[k]);
            proof {
                assert forall|x: Seq<char>| declared_before(arms@, a as int, k + 1, x)
                    <==> (declared_before(arms@, a as int, k as int, x) || x == controls@[k as int].0@) by {
                    if x == controls@[k as int].0@ {
                        assert(arms@[a as int].controls@[k as int].0@ == x);
                    }
                    if declared_before(arms@, a as int, k + 1, x) {
                        let (i, j) = choose|i: int, j: int|
                            0 <= i < arms@.len() && 0 <= j < arms@[i].controls@.len() && (i < a || (i == a && j < k + 1))
                                && #[trigger] arms@[i].controls@[j].0@ == x;
                        if !(i == a && j == k) {
                            assert(arms@[i].controls@[j].0@ == x);
                        }
                    }
                }
            }
            k = k + 1;
        }
        proof {
            assert forall|x: Seq<char>| declared_before(arms@, a + 1, 0, x)
                <==> declared_before(arms@, a as int, controls@.len() as int, x) by {
                if declared_before(arms@, a + 1, 0, x) {
                    let (i, j) = choose|i: int, j: int|
                        0 <= i < arms@.len() && 0 <= j < arms@[i].controls@.len() && (i < a + 1 || (i == a + 1 && j < 0))
                            && #[trigger] arms@[i].controls@[j].0@ == x;
                    assert(arms@[i].controls@[j].0@ == x);
                }
                if declared_before(arms@, a as int, controls@.len() as int, x) {
                    let (i, j) = choose|i: int, j: int|
                        0 <= i < arms@.len() && 0 <= j < arms@[i].controls@.len()
                            && (i < a || (i == a && j < controls@.len()))
                            && #[trigger] arms@[i].controls@[j].0@ == x;
                    assert(arms@[i].controls@[j].0@ == x);
                }
            }
        }
        a = a + 1;
    }
    proof {
        assert forall|x: Seq<char>| declared_before(arms@, arms@.len() as int, 0, x) <==> declares_control(arms@, x) by {
            if declares_control(arms@, x) {
                let (i, j) = choose|i: int, j: int|
                    0 <= i < arms@.len() && 0 <= j < arms@[i].controls@.len() && #[trigger] arms@[i].controls@[j].0@ == x;
                assert(arms@[i].controls@[j].0@ == x);
            }
        }
    }
    out
}


/// The Compliance promessa value: a declaration the compliance
/// controller consumes.
#[derive(Clone, Debug, PartialEq, Eq)]
pub struct CompliancePromessa {
    /// Promessa name, e.g. `camelot-fedramp-high`.
    pub name: String,
    /// Kubernetes namespace the promessa is scoped to.
    pub namespace: String,
    /// The impact baseline claimed.
    pub baseline: ComplianceBaseline,
    /// The compliance arms.
    pub arms: Vec<ComplianceArm>,
    /// The escalation ladder walked when a violation escalates.
    pub escalation: Option<EscalationLadder>,
    /// How often the controller ticks this promessa, in nanoseconds.
    pub reconcile_every: i128,
}

/// Five minutes, in nanoseconds.
pub open spec fn five_minutes() -> int {
    300_000_000_000
}

/// One of the three arms every Compliance promessa declares.
#[derive(Clone, Copy, Debug, PartialEq, Eq, Structural)]
pub enum CanonicalArm {
    /// The SC-8 arm, tagged `sc-8`.
    Sc8,
    /// The RA-5 arm, tagged `ra-5`.
    Ra5,
    /// The audit-control arm, tagged `audit`.
    Audit,
}

impl CanonicalArm {
    /// The arm's tag.
    pub open spec fn tag(self) -> Seq<char> {
        match self {
            CanonicalArm::Sc8 => "sc-8"@,
            CanonicalArm::Ra5 => "ra-5"@,
            CanonicalArm::Audit => "audit"@,
        }
    }

    pub fn as_str(self) -> (s: &'static str)
        ensures
            s@ == self.tag(),
    {
        match self {
            CanonicalArm::Sc8 => "sc-8",
            CanonicalArm::Ra5 => "ra-5",
            CanonicalArm::Audit => "audit",
        }
    }
}

/// Some arm carries the tag `tag`.
pub open spec fn declares_arm(arms: Seq<ComplianceArm>, tag: Seq<char>) -> bool {
    exists|k: int| 0 <= k < arms.len() && #[trigger] arms[k].arm@ == tag
}

/// The first canonical arm, in the order SC-8, RA-5, audit, that no arm
/// carries the tag of.
pub open spec fn first_missing_arm(arms: Seq<ComplianceArm>) -> Option<CanonicalArm> {
    if !declares_arm(arms, CanonicalArm::Sc8.tag()) {
        Some(CanonicalArm::Sc8)
    } else if !declares_arm(arms, CanonicalArm::Ra5.tag()) {
        Some(CanonicalArm::Ra5)
    } else if !declares_arm(arms, CanonicalArm::Audit.tag()) {
        Some(CanonicalArm::Audit)
    } else {
        None
    }
}

/// Typed structural error of a [`CompliancePromessa`] declaration.
#[derive(Clone, Debug, PartialEq, Eq)]
pub enum ComplianceSpecError {
    EmptyName,
    NonPositiveInterval,
    NoArms,
    MissingArm { arm: CanonicalArm },
    ArmWithoutControls { arm: String },
    EmptyControlSet,
}

impl ComplianceSpecError {
    /// The error's display text.
    pub open spec fn text(self) -> Seq<char> {
        match self {
            ComplianceSpecError::EmptyName => "compliance promessa has an empty name"@,
            ComplianceSpecError::NonPositiveInterval => "compliance promessa reconcile interval must be positive"@,
            ComplianceSpecError::NoArms => "compliance promessa declares no arms"@,
            ComplianceSpecError::MissingArm { arm } => "compliance promessa lacks the canonical `"@ + arm.tag() + "` arm"@,
            ComplianceSpecError::ArmWithoutControls { arm } => "arm `"@ + arm@ + "` declares no controls"@,
            ComplianceSpecError::EmptyControlSet => "compliance promessa has an empty control set"@,
        }
    }

    pub fn message(&self) -> (s: String)
        ensures
            s@ == self.text(),
    {
        match self {
            ComplianceSpecError::EmptyName => String::from_str("compliance promessa has an empty name"),
            ComplianceSpecError::NonPositiveInterval => String::from_str(
                "compliance promessa reconcile interval must be positive",
            ),
            ComplianceSpecError::NoArms => String::from_str("compliance promessa declares no arms"),
            ComplianceSpecError::MissingArm { arm } => String::from_str("compliance promessa lacks the canonical `").concat(
                arm.as_str(),
            ).concat("` arm"),
            ComplianceSpecError::ArmWithoutControls { arm } => String::from_str("arm `").concat(arm.as_str()).concat(
                "` declares no controls",
            ),
            ComplianceSpecError::EmptyControlSet => String::from_str("compliance promessa has an empty control set"),
        }
    }
}

/// The position of the first arm that declares no controls.
pub open spec fn first_arm_without_controls(arms: Seq<ComplianceArm>) -> int {
    choose|k: int|
        0 <= k < arms.len() && #[trigger] arms[k].controls@.len() == 0 && forall|j: int|
            0 <= j < k ==> #[trigger] arms[j].controls@.len() > 0
}

/// The first structural gap of a declaration, in the order they are
/// checked: a blank name, a non-positive interval, no arms, a missing
/// canonical arm, the first arm without controls, an empty control set.
pub open spec fn structural_gap(p: CompliancePromessa) -> Option<ComplianceSpecError> {
    let arms = p.arms@;
    if is_blank(p.name@) {
        Some(ComplianceSpecError::EmptyName)
    } else if p.reconcile_every <= 0 {
        Some(ComplianceSpecError::NonPositiveInterval)
    } else if arms.len() == 0 {
        Some(ComplianceSpecError::NoArms)
    } else if first_missing_arm(arms) is Some {
        Some(ComplianceSpecError::MissingArm { arm: first_missing_arm(arms)->0 })
    } else if exists|k: int| 0 <= k < arms.len() && #[trigger] arms[k].controls@.len() == 0 {
        Some(ComplianceSpecError::ArmWithoutControls { arm: arms[first_arm_without_controls(arms)].arm })
    } else if !(exists|c: Seq<char>| declares_control(arms, c)) {
        Some(ComplianceSpecError::EmptyControlSet)
    } else {
        None
    }
}

/// What validation demands of a declaration. It passes only with a name
/// holding some non-whitespace character, a positive interval, arms
/// tagged `sc-8`, `ra-5` and `audit`, and controls on every arm, wherever
/// it stands. A name made only of whitespace is rejected as empty. A
/// declaration whose name, interval and canonical arms are in order but
/// some arm of which declares no controls is rejected naming the first
/// such arm.
pub proof fn law_validation_demands(p: CompliancePromessa)
    ensures
        structural_gap(p) is None ==> {
            &&& exists|i: int| 0 <= i < p.name@.len() && !is_white_space(#[trigger] p.name@[i])
            &&& p.reconcile_every > 0
            &&& exists|k: int| 0 <= k < p.arms@.len() && #[trigger] p.arms@[k].arm@ == "sc-8"@
            &&& exists|k: int| 0 <= k < p.arms@.len() && #[trigger] p.arms@[k].arm@ == "ra-5"@
            &&& exists|k: int| 0 <= k < p.arms@.len() && #[trigger] p.arms@[k].arm@ == "audit"@
            &&& forall|k: int| 0 <= k < p.arms@.len() ==> #[trigger] p.arms@[k].controls@.len() > 0
        },
        (forall|i: int| 0 <= i < p.name@.len() ==> is_white_space(#[trigger] p.name@[i]))
            ==> structural_gap(p) == Some(ComplianceSpecError::EmptyName),
        ({
            &&& exists|i: int| 0 <= i < p.name@.len() && !is_white_space(#[trigger] p.name@[i])
            &&& p.reconcile_every > 0
            &&& first_missing_arm(p.arms@) is None
            &&& exists|k: int| 0 <= k < p.arms@.len() && #[trigger] p.arms@[k].controls@.len() == 0
        }) ==> exists|k: int|
            #![trigger p.arms@[k]]
            0 <= k < p.arms@.len() && p.arms@[k].controls@.len() == 0
                && (forall|j: int| 0 <= j < k ==> #[trigger] p.arms@[j].controls@.len() > 0)
                && structural_gap(p) == Some(ComplianceSpecError::ArmWithoutControls { arm: p.arms@[k].arm }),
{
    let arms = p.arms@;
    if structural_gap(p) is None {
        assert(!is_blank(p.name@));
        assert(declares_arm(arms, CanonicalArm::Sc8.tag()));
        assert(declares_arm(arms, CanonicalArm::Ra5.tag()));
        assert(declares_arm(arms, CanonicalArm::Audit.tag()));
    }
    if exists|i: int| 0 <= i < p.name@.len() && !is_white_space(#[trigger] p.name@[i]) {
        assert(!is_blank(p.name@));
        if p.reconcile_every > 0 && first_missing_arm(arms) is None
            && exists|k: int| 0 <= k < arms.len() && #[trigger] arms[k].controls@.len() == 0 {
            let k0 = choose|k: int| 0 <= k < arms.len() && #[trigger] arms[k].controls@.len() == 0;
            lemma_first_empty_arm(arms, k0);
            let f = first_arm_without_controls(arms);
            assert(arms.len() > 0);
            assert(arms[f].controls@.len() == 0);
        }
    }
}

/// Among the arms without controls, there is a first one.
proof fn lemma_first_empty_arm(arms: Seq<ComplianceArm>, k0: int)
    requires
        0 <= k0 < arms.len(),
        arms[k0].controls@.len() == 0,
    ensures
        exists|k: int|
            0 <= k < arms.len() && #[trigger] arms[k].controls@.len() == 0 && forall|j: int|
                0 <= j < k ==> #[trigger] arms[j].controls@.len() > 0,
    decreases k0,
{
    if forall|j: int| 0 <= j < k0 ==> #[trigger] arms[j].controls@.len() > 0 {
        assert(arms[k0].controls@.len() == 0);
    } else {
        let j = choose|j: int| 0 <= j < k0 && #[trigger] arms[j].controls@.len() == 0;
        lemma_first_empty_arm(arms, j);
    }
}

/// Whether some arm carries the tag of `wanted`.
fn has_arm(arms: &Vec<ComplianceArm>, wanted: CanonicalArm) -> (found: bool)
    ensures
        found == declares_arm(arms@, wanted.tag()),
{
    let tag = String::from_str(wanted.as_str());
    let mut k: usize = 0;
    while k < arms.len()
        invariant
            k <= arms@.len(),
            tag@ == wanted.tag(),
            forall|j: int| 0 <= j < k ==> #[trigger] arms@[j].arm@ != wanted.tag(),
        decreases arms@.len() - k,
    {
        if arms[k].arm == tag {
            return true;
        }
        k = k + 1;
    }
    false
}

impl CompliancePromessa {
    /// The canonical Camelot FedRAMP-High promessa: the SC-8, RA-5 and
    /// audit-control arms at a five-minute reconcile interval.
    pub fn camelot_fedramp_high(namespace: String) -> (p: CompliancePromessa)
        ensures
            p.name@ == "camelot-fedramp-high"@,
            p.namespace == namespace,
            p.baseline == ComplianceBaseline::FedrampHigh,
            p.arms@.len() == 3,
            is_sc8_arm(p.arms@[0]),
            is_ra5_arm(p.arms@[1]),
            is_audit_arm(p.arms@[2]),
            p.escalation is None,
            p.reconcile_every == five_minutes(),
            structural_gap(p) is None,
    {
        let arms = vec![ComplianceArm::sc8(), ComplianceArm::ra5(), ComplianceArm::audit_controls()];
        let p = CompliancePromessa {
            name: String::from_str("camelot-fedramp-high"),
            namespace,
            baseline: ComplianceBaseline::FedrampHigh,
            arms,
            escalation: None,
            reconcile_every: 300_000_000_000,
        };
        proof {
            reveal_strlit("camelot-fedramp-high");
            assert(!crate::lexical::is_white_space(p.name@[0]));
            assert(!is_blank(p.name@));
            assert forall|k: int| 0 <= k < p.arms@.len() implies #[trigger] p.arms@[k].controls@.len() > 0 by {
                assert(control_names(p.arms@[k].controls@).len() == p.arms@[k].controls@.len());
            }
            assert(control_names(p.arms@[0].controls@)[0] == p.arms@[0].controls@[0].0@);
            assert(declares_control(p.arms@, p.arms@[0].controls@[0].0@));
        }
        p
    }

    /// The flattened, de-duplicated control set across every arm, sorted
    /// by identifier: the baseline the auditor sees.
    pub fn control_set(&self) -> (out: Vec<ControlId>)
        ensures
            is_control_set_of(out@, self.arms@),
    {
        collect_controls(&self.arms)
    }

    /// The BLAKE3 content address of the declaration's canonical
    /// encoding: the outcome chain's genesis anchor. The caller passes
    /// the canonical JSON bytes of the declaration.
    pub fn spec_hash(canonical_spec: &[u8]) -> (h: ContentHash)
        ensures
            h.0@ == blake3_digest(canonical_spec@),
    {
        ContentHash::of(canonical_spec)
    }

    /// The address of this promessa in the given cluster.
    pub fn address(&self, cluster: String) -> (a: ResourceAddress)
        ensures
            a.cluster == cluster,
            a.namespace == self.namespace,
            a.name == self.name,
    {
        ResourceAddress::new(cluster, self.namespace.clone(), self.name.clone())
    }

    /// Structural validation: a non-blank name, a positive reconcile
    /// interval, at least one arm, the three canonical arms (SC-8, RA-5,
    /// audit) present, controls on every arm, and a non-empty control
    /// set. Returns the first gap.
    pub fn validate(&self) -> (r: Result<(), ComplianceSpecError>)
        ensures
            match structural_gap(*self) {
                None => r is Ok,
                Some(e) => r == Err::<(), ComplianceSpecError>(e),
            },
    {
        if str_is_blank(self.name.as_str()) {
            return Err(ComplianceSpecError::EmptyName);
        }
        if self.reconcile_every <= 0 {
            return Err(ComplianceSpecError::NonPositiveInterval);
        }
        if self.arms.len() == 0 {
            return Err(ComplianceSpecError::NoArms);
        }
        if !has_arm(&self.arms, CanonicalArm::Sc8) {
            return Err(ComplianceSpecError::MissingArm { arm: CanonicalArm::Sc8 });
        }
        if !has_arm(&self.arms, CanonicalArm::Ra5) {
            return Err(ComplianceSpecError::MissingArm { arm: CanonicalArm::Ra5 });
        }
        if !has_arm(&self.arms, CanonicalArm::Audit) {
            return Err(ComplianceSpecError::MissingArm { arm: CanonicalArm::Audit });
        }
        let mut k: usize = 0;
        while k < self.arms.len()
            invariant
                k <= self.arms@.len(),
                !is_blank(self.name@),
                self.reconcile_every > 0,
                self.arms@.len() > 0,
                first_missing_arm(self.arms@) is None,
                forall|j: int| 0 <= j < k ==> #[trigger] self.arms@[j].controls@.len() > 0,
            decreases self.arms@.len() - k,
        {
            if self.arms[k].controls.len() == 0 {
                let ghost arms = self.arms@;
                proof {
                    assert(arms[k as int].controls@.len() == 0);
                    lemma_first_empty_arm(arms, k as int);
                    let f = first_arm_without_controls(arms);
                    if f < k {
                        assert(arms[f].controls@.len() > 0);
                    }
                    if f > k {
                        assert(arms[k as int].controls@.len() > 0);
                    }
                    assert(f == k);
                }
                return Err(ComplianceSpecError::ArmWithoutControls { arm: self.arms[k].arm.clone() });
            }
            k = k + 1;
        }
        let set = self.control_set();
        if set.len() == 0 {
            proof {
                assert(self.arms@[0].controls@.len() > 0);
                let c = self.arms@[0].controls@[0].0@;
                assert(declares_control(self.arms@, c));
                assert(holds_control(set@, c));
            }
            return Err(ComplianceSpecError::EmptyControlSet);
        }
        proof {
            let c = set@[0].0@;
            assert(holds_control(set@, c));
        }
        Ok(())
    }
}

/// The per-arm attestation verdict recorded on the outcome chain.
#[derive(Clone, Copy, Debug, PartialEq, Eq, Structural)]
pub enum ArmVerdict {
    /// The arm was observed satisfied.
    Holding,
    /// The arm was observed violated.
    Violated,
    /// The arm's observation is not wired: not a passing verdict.
    NotYetObserved,
}

impl ArmVerdict {
    pub open spec fn name(self) -> Seq<char> {
        match self {
            ArmVerdict::Holding => "Holding"@,
            ArmVerdict::Violated => "Violated"@,
            ArmVerdict::NotYetObserved => "NotYetObserved"@,
        }
    }

    pub fn as_str(self) -> (s: &'static str)
        ensures
            s@ == self.name(),
    {
        match self {
            ArmVerdict::Holding => "Holding",
            ArmVerdict::Violated => "Violated",
            ArmVerdict::NotYetObserved => "NotYetObserved",
        }
    }
}

/// One arm's outcome at one tick.
#[derive(Clone, Debug, PartialEq, Eq)]
pub struct ArmOutcome {
    pub arm: String,
    pub controls: Vec<ControlId>,
    pub verdict: ArmVerdict,
    /// Free-text diagnostic.
    pub detail: Option<String>,
}

/// The outcome-chain payload of a compliance tick.
#[derive(Clone, Debug, PartialEq, Eq)]
pub struct CompliancePayload {
    /// The promessa this receipt attests.
    pub promessa_name: String,
    /// The baseline claimed at this tick.
    pub baseline: ComplianceBaseline,
    /// BLAKE3 of the canonical declaration.
    pub spec_hash: ContentHash,
    /// Monotonic tick index within this promessa's run.
    pub tick_index: u64,
    /// Per-arm outcomes at this tick.
    pub arm_outcomes: Vec<ArmOutcome>,
    /// Whether the tick is a scaffold tick (some arm unobserved).
    pub scaffold: bool,
}

impl CompliancePayload {
    /// Stable kind tag of compliance receipts on the outcome chain.
    pub const KIND: &'static str = "viggy.compliance";
}

} // verus!
