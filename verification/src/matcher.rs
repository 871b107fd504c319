//! The rule matcher: which rules of the library apply to a target.

use vstd::prelude::*;
use crate::model::{RuleDefinition, RuleDefinitionView, Target, TargetView};
use crate::predicate::{holds, Context, ContextView};

verus! {

/// Whether a rule applies to a target in a context: it is enabled, it is
/// attached to that very target, and its predicate holds.
pub open spec fn applies(rule: RuleDefinitionView, target: TargetView, context: ContextView) -> bool {
    rule.is_enabled && rule.target == target && holds(rule.predicate, context)
}

/// The rules among the first `n` that apply, in library order.
pub open spec fn candidates_upto(
    rules: Seq<RuleDefinitionView>,
    target: TargetView,
    context: ContextView,
    n: int,
) -> Seq<RuleDefinitionView>
    decreases n,
{
    if n <= 0 {
        Seq::empty()
    } else {
        let before = candidates_upto(rules, target, context, n - 1);
        if applies(rules[n - 1], target, context) {
            before.push(rules[n - 1])
        } else {
            before
        }
    }
}

/// The rules that apply to a target in a context, in library order.
pub open spec fn candidates(
    rules: Seq<RuleDefinitionView>,
    target: TargetView,
    context: ContextView,
) -> Seq<RuleDefinitionView> {
    candidates_upto(rules, target, context, rules.len() as int)
}

/// Every candidate among the first `n` rules is one of them and applies,
/// and every one of them that applies is a candidate.
pub proof fn lemma_candidates_upto(
    rules: Seq<RuleDefinitionView>,
    target: TargetView,
    context: ContextView,
    n: int,
)
    requires
        0 <= n <= rules.len(),
    ensures
        forall|k: int|
            0 <= k < candidates_upto(rules, target, context, n).len() ==> applies(
                #[trigger] candidates_upto(rules, target, context, n)[k],
                target,
                context,
            ) && exists|i: int|
                0 <= i < n && rules[i] == candidates_upto(rules, target, context, n)[k],
        forall|i: int|
            0 <= i < n && applies(#[trigger] rules[i], target, context) ==> candidates_upto(
                rules,
                target,
                context,
                n,
            ).contains(rules[i]),
    decreases n,
{
    if n > 0 {
        lemma_candidates_upto(rules, target, context, n - 1);
        let before = candidates_upto(rules, target, context, n - 1);
        let now = candidates_upto(rules, target, context, n);
        if applies(rules[n - 1], target, context) {
            assert(now == before.push(rules[n - 1]));
            assert forall|k: int| 0 <= k < now.len() implies applies(
                #[trigger] now[k],
                target,
                context,
            ) && exists|i: int| 0 <= i < n && rules[i] == now[k] by {
                if k < before.len() {
                    assert(now[k] == before[k]);
                    let i = choose|i: int| 0 <= i < n - 1 && rules[i] == before[k];
                    assert(rules[i] == now[k]);
                } else {
                    assert(rules[n - 1] == now[k]);
                }
            }
            assert forall|i: int|
                0 <= i < n && applies(#[trigger] rules[i], target, context) implies now.contains(
                rules[i],
            ) by {
                if i < n - 1 {
                    let k = choose|k: int| 0 <= k < before.len() && before[k] == rules[i];
                    assert(now[k] == rules[i]);
                } else {
                    assert(now[before.len() as int] == rules[i]);
                }
            }
        } else {
            assert(now == before);
            assert forall|k: int| 0 <= k < now.len() implies applies(
                #[trigger] now[k],
                target,
                context,
            ) && exists|i: int| 0 <= i < n && rules[i] == now[k] by {
                let i = choose|i: int| 0 <= i < n - 1 && rules[i] == before[k];
                assert(rules[i] == now[k]);
            }
        }
    }
}

/// The candidates are exactly the rules of the library that are enabled,
/// attached to the target, and whose predicate holds.
pub proof fn lemma_candidates(
    rules: Seq<RuleDefinitionView>,
    target: TargetView,
    context: ContextView,
    rule: RuleDefinitionView,
)
    ensures
        candidates(rules, target, context).contains(rule) <==> rules.contains(rule) && applies(
            rule,
            target,
            context,
        ),
{
    lemma_candidates_upto(rules, target, context, rules.len() as int);
    let found = candidates(rules, target, context);
    if found.contains(rule) {
        let k = choose|k: int| 0 <= k < found.len() && found[k] == rule;
        assert(applies(found[k], target, context));
        let i = choose|i: int| 0 <= i < rules.len() && rules[i] == found[k];
        assert(rules[i] == rule);
    }
    if rules.contains(rule) && applies(rule, target, context) {
        let i = choose|i: int| 0 <= i < rules.len() && rules[i] == rule;
        assert(applies(rules[i], target, context));
    }
}

impl Target {
    /// Whether two targets are the same.
    pub fn same_as(&self, other: &Target) -> (same: bool)
        ensures
            same == (self.deep_view() == other.deep_view()),
    {
        match (self, other) {
            (Target::Presentation(a), Target::Presentation(b)) => *a == *b,
            (Target::Slide(a), Target::Slide(b)) => *a == *b,
            _ => false,
        }
    }
}

impl RuleDefinition {
    /// Whether the rule applies to a target in a context.
    pub fn applies_to(&self, target: &Target, context: &Context) -> (result: bool)
        ensures
            result == applies(self.deep_view(), target.deep_view(), context.deep_view()),
    {
        self.is_enabled && self.target.same_as(target) && self.predicate.evaluate(context)
    }
}

/// The rules of the library that apply to a target in a context.
///
/// Candidates come in library order; which of them wins is for the resolver
/// to say.
pub fn match_rules<'a>(rules: &'a Vec<RuleDefinition>, target: &Target, context: &Context) -> (found:
    Vec<&'a RuleDefinition>)
    ensures
        found.deep_view() == candidates(
            rules.deep_view(),
            target.deep_view(),
            context.deep_view(),
        ),
{
    let mut found: Vec<&'a RuleDefinition> = Vec::new();
    let mut i: usize = 0;
    while i < rules.len()
        invariant
            i <= rules.len(),
            found.deep_view() =~= candidates_upto(
                rules.deep_view(),
                target.deep_view(),
                context.deep_view(),
                i as int,
            ),
        decreases rules.len() - i,
    {
        let ghost before = found.deep_view();
        if rules[i].applies_to(target, context) {
            found.push(&rules[i]);
            assert(found.deep_view() =~= before.push(rules[i as int].deep_view()));
        }
        i = i + 1;
    }
    found
}

} // verus!
