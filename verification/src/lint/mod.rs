//! Style checks: the configuration of the rules, the annotations that silence
//! findings, and what becomes of the findings of a file.
pub mod rules;
pub mod findings;
pub mod annotations;
pub mod check;
pub mod config;
pub mod analysis;
pub mod laws;
pub mod annotation_laws;
