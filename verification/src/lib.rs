//! Mutation testing for Python code bases: discovery of single-line textual
//! mutants, patching and reverting them, classifying test-suite verdicts and
//! keeping an incremental result cache.

pub mod cache;
pub mod decimal;
pub mod mutants;
pub mod orchestrator;
pub mod rules;
pub mod runner;
pub mod sample;
pub mod scanner;
pub mod text;
