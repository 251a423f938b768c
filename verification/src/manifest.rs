//! The condition model and the flattening of declared constraints into the
//! (name, condition) pairs that are reachable for one target.

use vstd::prelude::*;
use semver::VersionReq;
use crate::error::{fault_at, Failure, Fault};
use crate::platform::{evaluate, predicate_outcome};
use crate::range::range_admits;
use crate::rustc::VersionData;

verus! {

/// What one named capability asks of the toolchain: a range for the stable
/// channel, a range for the pre-release channel, and optionally the flag
/// that announces the capability in place of the one made from its name.
///
/// With both ranges absent the condition is legal and never satisfied.
#[derive(Debug, PartialEq)]
pub struct Condition {
    pub version: Option<VersionReq>,
    pub nightly_version: Option<VersionReq>,
    pub cfg: Option<String>,
}

impl Condition {
    /// The condition that asks nothing and is never satisfied.
    pub fn new() -> (r: Self)
        ensures
            r.version is None,
            r.nightly_version is None,
            r.cfg is None,
    {
        Condition { version: None, nightly_version: None, cfg: None }
    }

    pub fn set_version(self, v: Option<VersionReq>) -> (r: Self)
        ensures
            r.version == v,
            r.nightly_version == self.nightly_version,
            r.cfg == self.cfg,
    {
        Condition { version: v, nightly_version: self.nightly_version, cfg: self.cfg }
    }

    pub fn set_nightly(self, v: Option<VersionReq>) -> (r: Self)
        ensures
            r.version == self.version,
            r.nightly_version == v,
            r.cfg == self.cfg,
    {
        Condition { version: self.version, nightly_version: v, cfg: self.cfg }
    }

    pub fn set_cfg(self, name: Option<String>) -> (r: Self)
        ensures
            r.version == self.version,
            r.nightly_version == self.nightly_version,
            r.cfg == name,
    {
        Condition { version: self.version, nightly_version: self.nightly_version, cfg: name }
    }

    /// The range that counts on the toolchain's channel. The other one is
    /// never consulted: a capability gated only for stable releases stays
    /// off on a pre-release toolchain, whatever its version number.
    pub open spec fn range_for(self, nightly: bool) -> Option<VersionReq> {
        if nightly {
            self.nightly_version
        } else {
            self.version
        }
    }

    /// Whether the toolchain satisfies this condition.
    pub open spec fn satisfied_by(self, rustc: VersionData) -> bool {
        match self.range_for(rustc.nightly) {
            Some(range) => range_admits(range, rustc.version),
            None => false,
        }
    }

    /// Decides whether the toolchain satisfies this condition.
    pub fn check(&self, rustc: &VersionData) -> (r: bool)
        ensures
            r == self.satisfied_by(*rustc),
    {
        if rustc.nightly {
            return match &self.nightly_version {
                Some(v) => v.matches(&rustc.version),
                None => false,
            };
        }
        match &self.version {
            Some(v) => v.matches(&rustc.version),
            None => false,
        }
    }
}

impl Clone for Condition {
    fn clone(&self) -> (r: Self)
        ensures
            r == *self,
    {
        let version = match &self.version {
            Some(v) => Some(v.clone()),
            None => None,
        };
        let nightly_version = match &self.nightly_version {
            Some(v) => Some(v.clone()),
            None => None,
        };
        let cfg = match &self.cfg {
            Some(n) => Some(n.clone()),
            None => None,
        };
        Condition { version, nightly_version, cfg }
    }
}

/// One declared entry: a condition of its own, or a group of named
/// conditions that applies only where the entry's key, read as a platform
/// predicate, holds for the target. Groups do not nest.
#[derive(Debug, PartialEq)]
pub enum Constraint {
    Cfg(Vec<(String, Condition)>),
    Condition(Condition),
}

/// A constraint as a value: what `Constraint` holds, with the members of a
/// group as a sequence.
pub enum ConstraintView {
    Cfg(Seq<(String, Condition)>),
    Condition(Condition),
}

impl View for Constraint {
    type V = ConstraintView;

    open spec fn view(&self) -> ConstraintView {
        match *self {
            Constraint::Cfg(members) => ConstraintView::Cfg(members@),
            Constraint::Condition(condition) => ConstraintView::Condition(condition),
        }
    }
}

/// The declared entries as values, in their order.
pub open spec fn entries_view(entries: Seq<(String, Constraint)>) -> Seq<(String, ConstraintView)> {
    entries.map_values(|entry: (String, Constraint)| (entry.0, entry.1@))
}

/// The pairs that one entry contributes for a target.
pub open spec fn entry_pairs(name: String, constraint: ConstraintView, target: Seq<char>) -> Result<
    Seq<(String, Condition)>,
    Failure,
> {
    match constraint {
        ConstraintView::Condition(condition) => Ok(seq![(name, condition)]),
        ConstraintView::Cfg(members) => match predicate_outcome(name@, target) {
            Err(e) => Err(e),
            Ok(applies) => Ok(
                if applies {
                    members
                } else {
                    Seq::empty()
                },
            ),
        },
    }
}

/// The pairs that a list of entries contributes for a target, in the order
/// of the entries and, inside a group, of its members; or the failure of the
/// first entry that has one, under that entry's name.
pub open spec fn reachable_pairs(
    entries: Seq<(String, ConstraintView)>,
    target: Seq<char>,
) -> Result<Seq<(String, Condition)>, Fault>
    decreases entries.len(),
{
    if entries.len() == 0 {
        Ok(Seq::empty())
    } else {
        match reachable_pairs(entries.drop_last(), target) {
            Err(e) => Err(e),
            Ok(front) => match entry_pairs(entries.last().0, entries.last().1, target) {
                Err(kind) => Err(fault_at(kind, entries.last().0)),
                Ok(pairs) => Ok(front + pairs),
            },
        }
    }
}

/// Records the outcome of a group's predicate: where the group applies, a
/// copy of each of its members is appended to `ret`, in order; otherwise
/// `ret` stays as it is.
pub fn add_group(
    ret: &mut Vec<(String, Condition)>,
    members: &Vec<(String, Condition)>,
    applies: bool,
)
    ensures
        final(ret)@ == if applies {
            old(ret)@ + members@
        } else {
            old(ret)@
        },
{
    if !applies {
        return;
    }
    let mut j: usize = 0;
    while j < members.len()
        invariant
            j <= members.len(),
            ret@ == old(ret)@ + members@.take(j as int),
        decreases members.len() - j,
    {
        let name = members[j].0.clone();
        let condition = members[j].1.clone();
        ret.push((name, condition));
        proof {
            assert(members@.take(j + 1) == members@.take(j as int).push(members@[j as int]));
        }
        j = j + 1;
    }
    proof {
        assert(members@.take(members.len() as int) == members@);
    }
}

/// Flattens the declared entries into the (name, condition) pairs that are
/// reachable for `target`. An entry of its own is always kept. A group is
/// kept whole where its predicate holds and dropped whole where it does
/// not; its predicate is evaluated once. A malformed predicate or an
/// unknown target abandons the whole evaluation.
pub fn parse_compiler_checks(compiler_checks: &Vec<(String, Constraint)>, target: &str) -> (r:
    Result<Vec<(String, Condition)>, Fault>)
    ensures
        match r {
            Ok(pairs) => reachable_pairs(entries_view(compiler_checks@), target@) == Ok::<_, Fault>(
                pairs@,
            ),
            Err(e) => reachable_pairs(entries_view(compiler_checks@), target@) == Err::<
                Seq<(String, Condition)>,
                _,
            >(e),
        },
{
    let ghost entries = entries_view(compiler_checks@);
    let mut ret: Vec<(String, Condition)> = Vec::new();
    let mut i: usize = 0;
    while i < compiler_checks.len()
        invariant
            i <= compiler_checks.len(),
            entries == entries_view(compiler_checks@),
            reachable_pairs(entries.take(i as int), target@) == Ok::<_, Fault>(ret@),
        decreases compiler_checks.len() - i,
    {
        let ghost before = ret@;
        proof {
            assert(entries.take(i + 1).drop_last() == entries.take(i as int));
            assert(entries.take(i + 1).last() == (
                compiler_checks@[i as int].0,
                compiler_checks@[i as int].1@,
            ));
        }
        match &compiler_checks[i].1 {
            Constraint::Condition(con) => {
                ret.push((compiler_checks[i].0.clone(), con.clone()));
                proof {
                    assert(ret@ == before + seq![(compiler_checks@[i as int].0, *con)]);
                }
            },
            Constraint::Cfg(members) => {
                match evaluate(compiler_checks[i].0.as_str(), target) {
                    Err(kind) => {
                        proof {
                            lemma_failure_stays(entries, i + 1, target@);
                        }
                        return Err(Fault { kind, entry: Some(compiler_checks[i].0.clone()) });
                    },
                    Ok(applies) => {
                        add_group(&mut ret, members, applies);
                        proof {
                            assert(before + Seq::<(String, Condition)>::empty() == before);
                        }
                    },
                }
            },
        }
        i = i + 1;
    }
    proof {
        assert(entries.take(compiler_checks.len() as int) == entries);
    }
    Ok(ret)
}

/// A failure among the first `n` entries is the failure of the whole list.
proof fn lemma_failure_stays(entries: Seq<(String, ConstraintView)>, n: int, target: Seq<char>)
    requires
        0 <= n <= entries.len(),
        reachable_pairs(entries.take(n), target) is Err,
    ensures
        reachable_pairs(entries, target) == reachable_pairs(entries.take(n), target),
    decreases entries.len() - n,
{
    if n < entries.len() {
        assert(entries.take(n + 1).drop_last() == entries.take(n));
        lemma_failure_stays(entries, n + 1, target);
    } else {
        assert(entries.take(n) == entries);
    }
}

} // verus!
