//! Validation of proposed additions to a decentralized package index.
//!
//! The crate takes the parsed patches of a submission's unified diff,
//! extracts the package descriptors added under the index's directory
//! convention, checks each descriptor's identity against the path of the
//! file that holds it, and builds a hierarchical pass/fail report that
//! gates acceptance. Turning raw diff text into patch values is the
//! caller's step, so that a parser failure of any kind can be mapped to
//! the invalid-diff verdict before the pipeline runs.

pub mod strutil;
pub mod semver;
pub mod diff;
pub mod descriptor;
pub mod checks;
pub mod report;
