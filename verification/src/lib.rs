//! A minimal test harness for binary WASM components.
//!
//! Given a raw module, the harness encodes it (together with a WASI adapter)
//! into a component, discovers the component's exported functions, selects
//! those whose names carry the `test-` prefix, invokes each one in a fresh
//! instantiation, and reports a pass/fail line per test.
//!
//! This crate holds the harness's logic: name normalization and ordering,
//! test selection, outcome classification, report formatting, and the
//! sequencing of a run. The embedding executable supplies the engine work
//! (instantiation and invocation) and the process's I/O.

pub mod names;
pub mod order;
pub mod catalog;
pub mod select;
pub mod outcome;
pub mod report;
pub mod loader;
pub mod executor;
