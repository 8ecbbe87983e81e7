//! lava-viggy: the typed seven-beat controller tick (Observe, Diff,
//! Classify, Decide, Act, Attest, Tick) and the Compliance promessa
//! that rides on it, with the decisions of every beat proved.

pub mod address;
pub mod anomaly;
pub mod beat;
pub mod clock;
pub mod compliance;
pub mod compliance_controller;
pub mod drift;
pub mod engine;
pub mod hash;
pub mod lexical;
pub mod report;
pub mod text;

pub use beat::{Beat, BeatStatus, TickPhase};
pub use engine::{PromessaController, ViggyEngine, ViggyError};
pub use report::{BeatOutcome, TickReport};
