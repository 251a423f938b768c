//! Platform predicates, as the `cfg-expr` crate defines them.
//!
//! The grammar (`any`, `all`, `not` over attribute comparisons) and the
//! table of known targets belong to `cfg-expr`. This module states, without
//! proof, what its functions return, and decides on top of them whether a
//! predicate holds for a target.
//!
//! The parser of `cfg-expr` counts nested calls in a byte, so a text with
//! 256 or more opening parentheses is turned away here before it is parsed.
//!
//! An unknown target triple is a hard failure here: nothing is silently
//! treated as "does not apply". So is a predicate that asks for anything but
//! an attribute of the platform (a feature, a free flag): it reads well, but
//! it is no platform predicate.

use vstd::prelude::*;
use cfg_expr::{Expression, ParseError, Predicate};
use cfg_expr::targets::{get_builtin_target_by_triple, TargetInfo};
use crate::error::Failure;

verus! {

/// `cfg_expr::Expression`, a parsed predicate, carried through as an opaque value.
#[verifier::external_type_specification]
#[verifier::external_body]
pub struct ExExpression(cfg_expr::Expression);

/// `cfg_expr::ParseError`, the reason a text is no predicate.
#[verifier::external_type_specification]
#[verifier::external_body]
pub struct ExParseError(cfg_expr::ParseError);

/// `cfg_expr::targets::TargetInfo`, the attributes of one known platform.
#[verifier::external_type_specification]
#[verifier::external_body]
pub struct ExTargetInfo(cfg_expr::targets::TargetInfo);

/// The predicate that `cfg_expr::Expression::parse` reads from a text, or
/// `None` where it rejects the text.
pub uninterp spec fn expression_of_text(text: Seq<char>) -> Option<Expression>;

/// The platform that `cfg_expr::targets::get_builtin_target_by_triple`
/// finds for a triple, or `None` where it knows no such platform.
pub uninterp spec fn builtin_target(triple: Seq<char>) -> Option<TargetInfo>;

/// For each atom that `cfg_expr::Expression::predicates` lists for a
/// predicate, in its order: whether the atom is a comparison of a platform
/// attribute.
pub uninterp spec fn platform_atoms(expr: Expression) -> Seq<bool>;

/// Whether every atom of a predicate is a comparison of a platform
/// attribute.
pub open spec fn platform_atoms_only(expr: Expression) -> bool {
    forall|i: int| 0 <= i < platform_atoms(expr).len() ==> platform_atoms(expr)[i]
}

/// The number of opening parentheses that a predicate text may hold and
/// still be parsed.
pub const PAREN_LIMIT: usize = 255;

/// How many opening parentheses a text holds.
pub open spec fn open_parens(text: Seq<char>) -> nat
    decreases text.len(),
{
    if text.len() == 0 {
        0
    } else if text.last() == '(' {
        open_parens(text.drop_last()) + 1
    } else {
        open_parens(text.drop_last())
    }
}

/// What `cfg_expr::Expression::eval` computes for a predicate when each
/// platform-attribute comparison is answered by the given platform.
pub uninterp spec fn expression_holds(expr: Expression, info: TargetInfo) -> bool;

/// `cfg_expr::Expression::parse`: trusted to be a function of the text
/// alone, succeeding exactly where `expression_of_text` gives a predicate,
/// and then with that predicate. Texts beyond the limit on opening
/// parentheses are kept out: on them the parser's count of nested calls
/// overflows.
pub assume_specification[ Expression::parse ](original: &str) -> (r: Result<Expression, ParseError>)
    requires
        open_parens(original@) <= PAREN_LIMIT,
    ensures
        r.is_ok() == expression_of_text(original@).is_some(),
        r.is_ok() ==> expression_of_text(original@) == Some(r.unwrap()),
;

/// `cfg_expr::targets::get_builtin_target_by_triple`: a lookup in a fixed
/// table, trusted to be a function of the triple alone.
pub assume_specification[ get_builtin_target_by_triple ](triple: &str) -> (r: Option<&'static TargetInfo>)
    ensures
        r.is_some() == builtin_target(triple@).is_some(),
        r.is_some() ==> builtin_target(triple@) == Some(*r.unwrap()),
;

/// `cfg_expr::Expression::predicates`, each atom handed out as whether it
/// is of the variant `Predicate::Target`. Trusted to be a function of the
/// predicate alone, named `platform_atoms`.
#[verifier::external_body]
fn atom_kinds(expr: &Expression) -> (r: Vec<bool>)
    ensures
        r@ == platform_atoms(*expr),
{
    expr.predicates().map(|p| matches!(p, Predicate::Target(_))).collect()
}

/// `cfg_expr::Expression::eval`, with `TargetPredicate::matches` answering
/// each platform-attribute comparison from `info`. Atoms of another kind
/// are excluded by the precondition; the closure's second arm is never
/// taken. Trusted to be a function of the predicate and the platform alone,
/// named `expression_holds`.
#[verifier::external_body]
fn holds_on(expr: &Expression, info: &TargetInfo) -> (r: bool)
    requires
        platform_atoms_only(*expr),
    ensures
        r == expression_holds(*expr, *info),
{
    expr.eval(|p| match p {
        Predicate::Target(tp) => tp.matches(info),
        _ => false,
    })
}

/// What evaluating a predicate text against a target triple gives. A text
/// beyond the limit on opening parentheses is no predicate. The predicate
/// is read first, so a malformed predicate is reported even for an unknown
/// target; the target is looked up next; a well-read predicate with an atom
/// that is no platform attribute is reported last.
pub open spec fn predicate_outcome(predicate: Seq<char>, target: Seq<char>) -> Result<bool, Failure> {
    if open_parens(predicate) > PAREN_LIMIT {
        Err(Failure::Predicate)
    } else {
        match expression_of_text(predicate) {
            None => Err(Failure::Predicate),
            Some(expr) => match builtin_target(target) {
                None => Err(Failure::UnknownTarget),
                Some(info) => if platform_atoms_only(expr) {
                    Ok(expression_holds(expr, info))
                } else {
                    Err(Failure::Predicate)
                },
            },
        }
    }
}

/// Counts the opening parentheses of a text.
pub fn count_open_parens(text: &str) -> (r: usize)
    ensures
        r == open_parens(text@),
{
    let n = text.unicode_len();
    let mut count: usize = 0;
    let mut i: usize = 0;
    while i < n
        invariant
            i <= n,
            n == text@.len(),
            count <= i,
            count == open_parens(text@.take(i as int)),
        decreases n - i,
    {
        proof {
            assert(text@.take(i + 1).drop_last() == text@.take(i as int));
            assert(text@.take(i + 1).last() == text@[i as int]);
        }
        if text.get_char(i) == '(' {
            count = count + 1;
        }
        i = i + 1;
    }
    proof {
        assert(text@.take(n as int) == text@);
    }
    count
}

/// Decides whether every entry of a list holds.
pub fn all_hold(list: &Vec<bool>) -> (r: bool)
    ensures
        r == (forall|i: int| 0 <= i < list@.len() ==> list@[i]),
{
    let mut i: usize = 0;
    while i < list.len()
        invariant
            i <= list.len(),
            forall|j: int| 0 <= j < i ==> list@[j],
        decreases list.len() - i,
    {
        if !list[i] {
            return false;
        }
        i = i + 1;
    }
    true
}

/// Evaluates one platform predicate against one target triple.
pub fn evaluate(predicate: &str, target: &str) -> (r: Result<bool, Failure>)
    ensures
        r == predicate_outcome(predicate@, target@),
{
    if count_open_parens(predicate) > PAREN_LIMIT {
        return Err(Failure::Predicate);
    }
    match Expression::parse(predicate) {
        Err(_) => Err(Failure::Predicate),
        Ok(expr) => match get_builtin_target_by_triple(target) {
            None => Err(Failure::UnknownTarget),
            Some(info) => {
                let kinds = atom_kinds(&expr);
                if all_hold(&kinds) {
                    Ok(holds_on(&expr, info))
                } else {
                    Err(Failure::Predicate)
                }
            },
        },
    }
}

} // verus!
