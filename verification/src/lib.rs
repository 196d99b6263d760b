//! Classifies a game's file listing into a known engine.
//!
//! Each engine is configured with weighted pattern signatures. Every
//! signature that matches a path of the listing adds its weight to the score
//! of its engine; the engine with the highest score is reported, together
//! with a confidence level and the paths that matched.
//!
//! Weights, scores and confidence levels are fixed-point numbers counted in
//! thousandths.

pub mod confidence;
pub mod detector;
pub mod laws;
pub mod probe;
pub mod rule;
pub mod score;
pub mod signature;
pub mod sum;
pub mod text;
pub mod winner;

pub use detector::{classify, detect_engine, DetectionResult, UNKNOWN};
pub use probe::{FileEntry, Probe, Profile};
pub use rule::Rule;
pub use signature::{EngineConfig, Signature, SignatureType, DEFAULT_WEIGHT};
