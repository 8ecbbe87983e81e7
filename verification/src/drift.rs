//! Drift reports, as `lava_drift` shapes them: the drifted fields and
//! their maximum severity.

use vstd::prelude::*;
use crate::hash::ContentHash;

verus! {

/// Drift severity tier: `Cosmetic < Functional < Critical`.
#[derive(Clone, Copy, Debug, PartialEq, Eq, Structural)]
pub enum Severity {
    Cosmetic,
    Functional,
    Critical,
}

impl Severity {
    /// The lowercase name of the tier.
    pub open spec fn name(self) -> Seq<char> {
        match self {
            Severity::Cosmetic => "cosmetic"@,
            Severity::Functional => "functional"@,
            Severity::Critical => "critical"@,
        }
    }

    pub fn as_str(self) -> (s: &'static str)
        ensures
            s@ == self.name(),
    {
        match self {
            Severity::Cosmetic => "cosmetic",
            Severity::Functional => "functional",
            Severity::Critical => "critical",
        }
    }
}

/// One field that drifted between declared and observed state.
#[derive(Clone, Debug, PartialEq, Eq)]
pub struct DriftedField {
    /// Resource address: `<type_id>.<name>`.
    pub address: String,
    /// Attribute path inside the resource; `*` for the whole resource.
    pub attribute: String,
    pub observed: Option<String>,
    pub declared: Option<String>,
    pub severity: Severity,
}

/// The typed result of one drift scan.
#[derive(Clone, Debug, PartialEq, Eq)]
pub struct DriftReport {
    pub spec_hash: ContentHash,
    /// When the scan ran, in nanoseconds since the epoch.
    pub scanned_at: i128,
    pub drifted_fields: Vec<DriftedField>,
    /// Maximum severity across the drifted fields; `None` when clean.
    pub max_severity: Option<Severity>,
}

impl DriftReport {
    /// Total drifted fields.
    pub fn count(&self) -> (n: usize)
        ensures
            n == self.drifted_fields@.len(),
    {
        self.drifted_fields.len()
    }
}

} // verus!
