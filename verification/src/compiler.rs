//! The enablement engine: which capabilities the toolchain turns on, and
//! the configuration directives that announce them.

use vstd::prelude::*;
use crate::document::{declared_pairs, flatten, flatten_text, text_pairs, Item};
use crate::error::{Failure, Fault};
use crate::manifest::{
    entry_pairs, reachable_pairs, Condition, ConstraintView,
};
use crate::platform::predicate_outcome;
use crate::rustc::VersionData;

verus! {

/// The flag that announces a satisfied capability in prefixed form: the
/// override that its condition carries, or else `compiler_support_`
/// followed by its name.
pub open spec fn flag_name(name: String, condition: Condition) -> Seq<char> {
    match condition.cfg {
        Some(custom) => custom@,
        None => "compiler_support_"@ + name@,
    }
}

/// The name under which a satisfied capability is enabled: the override
/// that its condition carries, or else its own name.
pub open spec fn emitted_name(name: String, condition: Condition) -> String {
    match condition.cfg {
        Some(custom) => custom,
        None => name,
    }
}

/// The enabled names of a list of pairs: for each pair whose condition the
/// toolchain satisfies, its override or else its name, in the order of the
/// pairs. A name that is declared twice is judged twice and may appear
/// twice.
pub open spec fn enabled_names(pairs: Seq<(String, Condition)>, rustc: VersionData) -> Seq<String>
    decreases pairs.len(),
{
    if pairs.len() == 0 {
        Seq::empty()
    } else {
        let front = enabled_names(pairs.drop_last(), rustc);
        if pairs.last().1.satisfied_by(rustc) {
            front.push(emitted_name(pairs.last().0, pairs.last().1))
        } else {
            front
        }
    }
}

/// The flags of the enabled capabilities of a list of pairs, in the order
/// of the pairs.
pub open spec fn enabled_flags(pairs: Seq<(String, Condition)>, rustc: VersionData) -> Seq<
    Seq<char>,
>
    decreases pairs.len(),
{
    if pairs.len() == 0 {
        Seq::empty()
    } else {
        let front = enabled_flags(pairs.drop_last(), rustc);
        if pairs.last().1.satisfied_by(rustc) {
            front.push(flag_name(pairs.last().0, pairs.last().1))
        } else {
            front
        }
    }
}

/// The texts of a list of strings.
pub open spec fn texts(lines: Seq<String>) -> Seq<Seq<char>> {
    lines.map_values(|line: String| line@)
}

/// The enabled capabilities once the reachable pairs are known: the failure
/// is passed on, the pairs are filtered by the toolchain.
pub open spec fn names_of(
    reachable: Result<Seq<(String, Condition)>, Fault>,
    rustc: VersionData,
) -> Result<Seq<String>, Fault> {
    match reachable {
        Err(e) => Err(e),
        Ok(pairs) => Ok(enabled_names(pairs, rustc)),
    }
}

/// The flags to announce once the reachable pairs are known.
pub open spec fn flags_of(
    reachable: Result<Seq<(String, Condition)>, Fault>,
    rustc: VersionData,
) -> Result<Seq<Seq<char>>, Fault> {
    match reachable {
        Err(e) => Err(e),
        Ok(pairs) => Ok(enabled_flags(pairs, rustc)),
    }
}

/// What the whole evaluation gives for a manifest, a target and a toolchain:
/// the flags to announce, or the failure.
pub open spec fn evaluation(document: Item, target: Seq<char>, rustc: VersionData) -> Result<
    Seq<Seq<char>>,
    Fault,
> {
    flags_of(declared_pairs(document, target), rustc)
}

/// The directive that turns on one flag.
pub open spec fn directive_text(name: Seq<char>) -> Seq<char> {
    "cargo:rustc-cfg="@ + name
}

/// Records the verdict on one capability: where `satisfied` holds, `name`
/// is appended to `names`; otherwise `names` stays as it is.
pub fn announce(names: &mut Vec<String>, name: String, satisfied: bool)
    ensures
        final(names)@ == if satisfied {
            old(names)@.push(name)
        } else {
            old(names)@
        },
{
    if satisfied {
        names.push(name);
    }
}

/// Gives the name under which a capability is enabled.
pub fn emitted(name: &String, condition: &Condition) -> (r: String)
    ensures
        r == emitted_name(*name, *condition),
{
    match &condition.cfg {
        Some(custom) => custom.clone(),
        None => name.clone(),
    }
}

/// Writes the flag that announces a capability.
pub fn flag(name: &String, condition: &Condition) -> (r: String)
    ensures
        r@ == flag_name(*name, *condition),
{
    match &condition.cfg {
        Some(custom) => custom.clone(),
        None => "compiler_support_".to_owned().concat(name.as_str()),
    }
}

/// Filters the pairs by the toolchain and gives the enabled names, each
/// the override of its pair where there is one: total, and without failure
/// of its own.
pub fn check(checks: &Vec<(String, Condition)>, rustc: &VersionData) -> (r: Vec<String>)
    ensures
        r@ == enabled_names(checks@, *rustc),
{
    let mut names: Vec<String> = Vec::new();
    let mut i: usize = 0;
    while i < checks.len()
        invariant
            i <= checks.len(),
            names@ == enabled_names(checks@.take(i as int), *rustc),
        decreases checks.len() - i,
    {
        proof {
            assert(checks@.take(i + 1).drop_last() == checks@.take(i as int));
            assert(checks@.take(i + 1).last() == checks@[i as int]);
        }
        let satisfied = checks[i].1.check(rustc);
        announce(&mut names, emitted(&checks[i].0, &checks[i].1), satisfied);
        i = i + 1;
    }
    proof {
        assert(checks@.take(checks.len() as int) == checks@);
    }
    names
}

/// Filters the pairs by the toolchain and gives the flags of the enabled
/// capabilities.
pub fn flags(checks: &Vec<(String, Condition)>, rustc: &VersionData) -> (r: Vec<String>)
    ensures
        texts(r@) == enabled_flags(checks@, *rustc),
{
    let mut out: Vec<String> = Vec::new();
    let mut i: usize = 0;
    proof {
        assert(texts(out@) == Seq::<Seq<char>>::empty());
    }
    while i < checks.len()
        invariant
            i <= checks.len(),
            texts(out@) == enabled_flags(checks@.take(i as int), *rustc),
        decreases checks.len() - i,
    {
        let ghost before = out@;
        proof {
            assert(checks@.take(i + 1).drop_last() == checks@.take(i as int));
            assert(checks@.take(i + 1).last() == checks@[i as int]);
        }
        let satisfied = checks[i].1.check(rustc);
        let name = flag(&checks[i].0, &checks[i].1);
        announce(&mut out, name, satisfied);
        proof {
            if satisfied {
                assert(texts(out@) == texts(before).push(name@));
            }
        }
        i = i + 1;
    }
    proof {
        assert(checks@.take(checks.len() as int) == checks@);
    }
    out
}

/// Runs the whole evaluation: reads the manifest, flattens its entries for
/// the target, filters the pairs by the toolchain and names the flags to
/// announce. Either the complete list comes back or the first failure;
/// there is no partial result.
pub fn evaluate(document: &Item, target: &str, rustc: &VersionData) -> (r: Result<
    Vec<String>,
    Fault,
>)
    ensures
        match r {
            Ok(found) => evaluation(*document, target@, *rustc) == Ok::<_, Fault>(texts(found@)),
            Err(e) => evaluation(*document, target@, *rustc) == Err::<Seq<Seq<char>>, _>(e),
        },
{
    match flatten(document, target) {
        Err(e) => Err(e),
        Ok(pairs) => Ok(flags(&pairs, rustc)),
    }
}

/// Runs the whole evaluation from the text of a manifest, as `evaluate`
/// does from its tree. A text that is no TOML is a failure like any other.
pub fn evaluate_text(text: &str, target: &str, rustc: &VersionData) -> (r: Result<
    Vec<String>,
    Fault,
>)
    ensures
        match r {
            Ok(found) => flags_of(text_pairs(text@, target@), *rustc) == Ok::<_, Fault>(
                texts(found@),
            ),
            Err(e) => flags_of(text_pairs(text@, target@), *rustc) == Err::<Seq<Seq<char>>, _>(e),
        },
{
    match flatten_text(text, target) {
        Err(e) => Err(e),
        Ok(pairs) => Ok(flags(&pairs, rustc)),
    }
}

/// Gives the enabled names for the text of a manifest: flattens it for the
/// target, then filters the pairs by the toolchain as `check` does.
pub fn check_text(text: &str, target: &str, rustc: &VersionData) -> (r: Result<
    Vec<String>,
    Fault,
>)
    ensures
        match r {
            Ok(names) => names_of(text_pairs(text@, target@), *rustc) == Ok::<_, Fault>(names@),
            Err(e) => names_of(text_pairs(text@, target@), *rustc) == Err::<Seq<String>, _>(e),
        },
{
    match flatten_text(text, target) {
        Err(e) => Err(e),
        Ok(pairs) => Ok(check(&pairs, rustc)),
    }
}

/// The directive that tells the build system to run the evaluation again
/// when the manifest changes.
pub fn rerun_directive() -> (r: String)
    ensures
        r@ == "cargo:rerun-if-changed=Cargo.toml"@,
{
    "cargo:rerun-if-changed=Cargo.toml".to_owned()
}

/// Writes the directive that turns on the flag `name`.
pub fn directive(name: &str) -> (r: String)
    ensures
        r@ == directive_text(name@),
{
    "cargo:rustc-cfg=".to_owned().concat(name)
}

/// Writes one directive for each announced name, in order.
pub fn directives(names: &Vec<String>) -> (r: Vec<String>)
    ensures
        r@.len() == names@.len(),
        forall|i: int| 0 <= i < names@.len() ==> (#[trigger] r@[i])@ == directive_text(names@[i]@),
{
    let mut lines: Vec<String> = Vec::new();
    let mut i: usize = 0;
    while i < names.len()
        invariant
            i <= names.len(),
            lines@.len() == i,
            forall|j: int| 0 <= j < i ==> (#[trigger] lines@[j])@ == directive_text(names@[j]@),
        decreases names.len() - i,
    {
        lines.push(directive(names[i].as_str()));
        i = i + 1;
    }
    lines
}

/// A condition without any range is satisfied by no toolchain.
pub proof fn lemma_no_range_never_satisfied(condition: Condition, rustc: VersionData)
    requires
        condition.version is None,
        condition.nightly_version is None,
    ensures
        !condition.satisfied_by(rustc),
{
}

/// A condition with a range for the stable channel only is not satisfied
/// by a pre-release toolchain, whatever its version.
pub proof fn lemma_stable_only_excludes_nightly(condition: Condition, rustc: VersionData)
    requires
        condition.nightly_version is None,
        rustc.nightly,
    ensures
        !condition.satisfied_by(rustc),
{
}

/// Two runs of `evaluate` on the same manifest, target and toolchain
/// agree: the same failure, or flags with the same texts in the same order.
pub proof fn lemma_evaluation_repeats(
    document: &Item,
    target: &str,
    rustc: &VersionData,
    first: Result<Vec<String>, Fault>,
    second: Result<Vec<String>, Fault>,
)
    requires
        call_ensures(evaluate, (document, target, rustc), first),
        call_ensures(evaluate, (document, target, rustc), second),
    ensures
        match (first, second) {
            (Ok(one), Ok(other)) => texts(one@) == texts(other@),
            (Err(one), Err(other)) => one == other,
            _ => false,
        },
{
}

/// Two runs of `check` on the same pairs and toolchain give the same names
/// in the same order.
pub proof fn lemma_check_repeats(
    checks: &Vec<(String, Condition)>,
    rustc: &VersionData,
    first: Vec<String>,
    second: Vec<String>,
)
    requires
        call_ensures(check, (checks, rustc), first),
        call_ensures(check, (checks, rustc), second),
    ensures
        first@ == second@,
{
}

/// Names are kept in the order of their pairs: the names of a list that is
/// followed by another are the names of the first followed by those of the
/// second.
pub proof fn lemma_enabled_names_concat(
    left: Seq<(String, Condition)>,
    right: Seq<(String, Condition)>,
    rustc: VersionData,
)
    ensures
        enabled_names(left + right, rustc) == enabled_names(left, rustc) + enabled_names(right, rustc),
    decreases right.len(),
{
    if right.len() == 0 {
        assert(left + right == left);
        assert(enabled_names(left, rustc) + Seq::<String>::empty() == enabled_names(left, rustc));
    } else {
        assert((left + right).drop_last() == left + right.drop_last());
        assert((left + right).last() == right.last());
        lemma_enabled_names_concat(left, right.drop_last(), rustc);
        let front = enabled_names(left, rustc);
        let back = enabled_names(right.drop_last(), rustc);
        if right.last().1.satisfied_by(rustc) {
            let name = emitted_name(right.last().0, right.last().1);
            assert((front + back).push(name) == front + back.push(name));
        }
    }
}

/// A group whose predicate is false for the target adds no pair, wherever
/// it stands among the entries, and so the result of the evaluation does not
/// depend on what the group holds: none of its conditions is ever judged.
pub proof fn lemma_false_group_is_skipped(
    before: Seq<(String, ConstraintView)>,
    key: String,
    members: Seq<(String, Condition)>,
    after: Seq<(String, ConstraintView)>,
    target: Seq<char>,
    rustc: VersionData,
)
    requires
        predicate_outcome(key@, target) == Ok::<bool, Failure>(false),
    ensures
        entry_pairs(key, ConstraintView::Cfg(members), target) == Ok::<_, Failure>(
            Seq::<(String, Condition)>::empty(),
        ),
        reachable_pairs(before.push((key, ConstraintView::Cfg(members))) + after, target)
            == reachable_pairs(before + after, target),
        names_of(
            reachable_pairs(before.push((key, ConstraintView::Cfg(members))) + after, target),
            rustc,
        ) == names_of(reachable_pairs(before + after, target), rustc),
        flags_of(
            reachable_pairs(before.push((key, ConstraintView::Cfg(members))) + after, target),
            rustc,
        ) == flags_of(reachable_pairs(before + after, target), rustc),
    decreases after.len(),
{
    let with_group = before.push((key, ConstraintView::Cfg(members)));
    if after.len() == 0 {
        assert(with_group + after == with_group);
        assert(before + after == before);
        assert(with_group.drop_last() == before);
        match reachable_pairs(before, target) {
            Ok(front) => {
                assert(front + Seq::<(String, Condition)>::empty() == front);
            },
            Err(_) => {},
        }
    } else {
        assert((with_group + after).drop_last() == with_group + after.drop_last());
        assert((before + after).drop_last() == before + after.drop_last());
        lemma_false_group_is_skipped(before, key, members, after.drop_last(), target, rustc);
    }
}

/// Whether two lists of entries are equal but for what the groups hold
/// whose predicate is false for the target.
pub open spec fn same_but_for_false_groups(
    first: Seq<(String, ConstraintView)>,
    second: Seq<(String, ConstraintView)>,
    target: Seq<char>,
) -> bool {
    first.len() == second.len() && forall|i: int|
        0 <= i < first.len() ==> (#[trigger] first[i]) == second[i] || (first[i].0 == second[i].0
            && first[i].1 is Cfg && second[i].1 is Cfg && predicate_outcome(first[i].0@, target)
            == Ok::<bool, Failure>(false))
}

/// What the groups hold whose predicate is false for the target cannot
/// alter the result: two lists of entries that differ only there, in however
/// many groups, give the same pairs, the same names and the same flags.
pub proof fn lemma_false_groups_do_not_matter(
    first: Seq<(String, ConstraintView)>,
    second: Seq<(String, ConstraintView)>,
    target: Seq<char>,
    rustc: VersionData,
)
    requires
        same_but_for_false_groups(first, second, target),
    ensures
        reachable_pairs(first, target) == reachable_pairs(second, target),
        names_of(reachable_pairs(first, target), rustc) == names_of(
            reachable_pairs(second, target),
            rustc,
        ),
        flags_of(reachable_pairs(first, target), rustc) == flags_of(
            reachable_pairs(second, target),
            rustc,
        ),
    decreases first.len(),
{
    if first.len() > 0 {
        let n = first.len() - 1;
        assert forall|i: int| 0 <= i < n implies (#[trigger] first.drop_last()[i])
            == second.drop_last()[i] || (first.drop_last()[i].0 == second.drop_last()[i].0
            && first.drop_last()[i].1 is Cfg && second.drop_last()[i].1 is Cfg && predicate_outcome(
            first.drop_last()[i].0@,
            target,
        ) == Ok::<bool, Failure>(false)) by {
            assert(first.drop_last()[i] == first[i]);
            assert(second.drop_last()[i] == second[i]);
        }
        lemma_false_groups_do_not_matter(first.drop_last(), second.drop_last(), target, rustc);
        assert(first.last() == first[n]);
        assert(second.last() == second[n]);
        assert(entry_pairs(first[n].0, first[n].1, target) == entry_pairs(
            second[n].0,
            second[n].1,
            target,
        ));
    }
}

} // verus!
