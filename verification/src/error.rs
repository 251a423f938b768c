//! Why an evaluation was abandoned.

use vstd::prelude::*;

verus! {

/// Every failure is final: an evaluation either yields its complete result
/// or one of these.
#[derive(Clone, Copy, Debug, PartialEq, Eq, Structural)]
pub enum Failure {
    /// The declarations do not have the expected shape.
    ManifestFormat,
    /// The key of a platform-scoped group is no valid platform predicate.
    Predicate,
    /// The target triple is not a platform that the predicate grammar knows.
    UnknownTarget,
    /// A declared version range is no valid range expression.
    VersionSyntax,
    /// The compiler's report on itself does not have the expected form.
    ToolchainProbe,
}

/// A failure of an evaluation, with the entry that caused it: the name of
/// the capability, or the predicate of the group, under which the failing
/// declaration stands. No entry is named where the manifest lacks the
/// section that holds the declarations.
#[derive(Clone, Debug, PartialEq, Eq)]
pub struct Fault {
    pub kind: Failure,
    pub entry: Option<String>,
}

/// The failure `kind` under the entry `name`.
pub open spec fn fault_at(kind: Failure, name: String) -> Fault {
    Fault { kind, entry: Some(name) }
}

/// The failure `kind` of the manifest as a whole.
pub open spec fn fault_of(kind: Failure) -> Fault {
    Fault { kind, entry: None }
}

} // verus!
