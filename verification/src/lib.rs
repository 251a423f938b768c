//! Decides which optional capability flags a build enables, from the
//! toolchain's version and channel, the target platform, and the project's
//! declared constraints.

pub mod error;
pub mod range;
pub mod rustc;
pub mod platform;
pub mod manifest;
pub mod document;
pub mod compiler;

pub use compiler::{check, check_text, evaluate, evaluate_text};
pub use document::{flatten, flatten_text, read_document, Item};
pub use error::{Failure, Fault};
pub use manifest::{parse_compiler_checks, Condition, Constraint};
pub use rustc::VersionData;
