//! The priority resolver: which of the candidate rules wins.
//!
//! Candidates are ranked by the priority of the gitsawe they appoint, a
//! lower number first; among equal priorities the rule authored last comes
//! first; and among rules authored at the same time the one whose identity
//! is first in lexicographic order. A rule whose gitsawe does not exist
//! ranks before every rule whose gitsawe does, so that a broken reference
//! is reported for the slide and never passed over in silence.
//!
//! A slide asks the rules attached to itself first. Only if none of them
//! applies does it ask the rules attached to its presentation.

use vstd::prelude::*;
use crate::index::{position_from, position_of, Text};
use crate::matcher::{candidates, match_rules};
use crate::model::{Gitsawe, GitsaweView, RuleDefinition, RuleDefinitionView, Target, TargetView};
use crate::predicate::{Context, ContextView};
use crate::text::{
    lemma_lex_irreflexive,
    lemma_lex_total,
    lemma_lex_transitive,
    lex_lt,
    str_lt,
};

verus! {

/// What a rule is ranked by.
pub struct Rank {
    /// The priority of the rule's gitsawe, if the gitsawe exists.
    pub priority: Option<i64>,
    pub created_at: i64,
    pub id: Text,
}

/// The identities of the gitsawes, in order.
pub open spec fn gitsawe_ids(gitsawes: Seq<GitsaweView>) -> Seq<Text> {
    Seq::new(gitsawes.len(), |i: int| gitsawes[i].id)
}

/// The priority of the gitsawe with a given identity, if there is one.
pub open spec fn priority_of(gitsawes: Seq<GitsaweView>, gitsawe_id: Text) -> Option<i64> {
    match position_of(gitsawe_ids(gitsawes), gitsawe_id) {
        Some(g) => Some(gitsawes[g].priority),
        None => None,
    }
}

/// The rank of a rule.
pub open spec fn rank_of(rule: RuleDefinitionView, gitsawes: Seq<GitsaweView>) -> Rank {
    Rank {
        priority: priority_of(gitsawes, rule.gitsawe_id),
        created_at: rule.created_at,
        id: rule.id,
    }
}

/// Whether priority `a` is stronger than priority `b`: a missing gitsawe
/// before an existing one, and otherwise the lower number.
pub open spec fn stronger(a: Option<i64>, b: Option<i64>) -> bool {
    match (a, b) {
        (None, Some(_)) => true,
        (Some(x), Some(y)) => x < y,
        _ => false,
    }
}

/// Whether rank `a` comes strictly before rank `b`.
pub open spec fn rank_before(a: Rank, b: Rank) -> bool {
    if stronger(a.priority, b.priority) {
        true
    } else if stronger(b.priority, a.priority) {
        false
    } else if a.created_at != b.created_at {
        a.created_at > b.created_at
    } else {
        lex_lt(a.id, b.id)
    }
}

/// Whether rule `a` outranks rule `b`.
pub open spec fn outranks(
    a: RuleDefinitionView,
    b: RuleDefinitionView,
    gitsawes: Seq<GitsaweView>,
) -> bool {
    rank_before(rank_of(a, gitsawes), rank_of(b, gitsawes))
}

/// The position of the best of the first `n` candidates: the first one that
/// no other of them outranks.
pub open spec fn best_upto(
    found: Seq<RuleDefinitionView>,
    gitsawes: Seq<GitsaweView>,
    n: int,
) -> int
    decreases n,
{
    if n <= 1 {
        0
    } else {
        let best = best_upto(found, gitsawes, n - 1);
        if outranks(found[n - 1], found[best], gitsawes) {
            n - 1
        } else {
            best
        }
    }
}

/// The winning rule among the candidates, if there is any candidate.
pub open spec fn winner(found: Seq<RuleDefinitionView>, gitsawes: Seq<GitsaweView>) -> Option<
    RuleDefinitionView,
> {
    if found.len() == 0 {
        None
    } else {
        Some(found[best_upto(found, gitsawes, found.len() as int)])
    }
}

/// The rule appointed for a slide: the winner among the rules attached to
/// the slide, or, if none of those applies, the winner among the rules
/// attached to its presentation.
pub open spec fn appointed(
    rules: Seq<RuleDefinitionView>,
    gitsawes: Seq<GitsaweView>,
    context: ContextView,
    presentation_id: Text,
    slide_id: Text,
) -> Option<RuleDefinitionView> {
    let own = candidates(rules, TargetView::Slide(slide_id), context);
    if own.len() > 0 {
        winner(own, gitsawes)
    } else {
        winner(candidates(rules, TargetView::Presentation(presentation_id), context), gitsawes)
    }
}

/// No rank comes before itself.
pub proof fn lemma_rank_irreflexive(a: Rank)
    ensures
        !rank_before(a, a),
{
    lemma_lex_irreflexive(a.id, 0);
}

/// If rank `a` comes before `b` and `b` before `c`, then `a` comes before
/// `c`.
pub proof fn lemma_rank_transitive(a: Rank, b: Rank, c: Rank)
    requires
        rank_before(a, b),
        rank_before(b, c),
    ensures
        rank_before(a, c),
{
    if a.priority == b.priority && b.priority == c.priority && a.created_at == b.created_at
        && b.created_at == c.created_at {
        lemma_lex_transitive(a.id, b.id, c.id, 0);
    }
}

/// Of two ranks with different identities, one comes before the other.
pub proof fn lemma_rank_total(a: Rank, b: Rank)
    requires
        a.id != b.id,
    ensures
        rank_before(a, b) || rank_before(b, a),
{
    lemma_lex_total(a.id, b.id, 0);
}

/// If `a` comes before `b`, and `c` does not come before `b`, then `a`
/// comes before `c`.
pub proof fn lemma_rank_before_unbeaten(a: Rank, b: Rank, c: Rank)
    requires
        rank_before(a, b),
        !rank_before(c, b),
    ensures
        rank_before(a, c),
{
    if b.id == c.id {
        if b.priority == c.priority && b.created_at == c.created_at {
            assert(b == c);
        } else {
            lemma_lex_irreflexive(b.id, 0);
        }
    } else {
        lemma_rank_total(b, c);
        lemma_rank_transitive(a, b, c);
    }
}

/// The best of the first `n` candidates is one of them; none of them
/// outranks it, and it outranks each one before it.
pub proof fn lemma_best_upto(found: Seq<RuleDefinitionView>, gitsawes: Seq<GitsaweView>, n: int)
    requires
        1 <= n <= found.len(),
    ensures
        0 <= best_upto(found, gitsawes, n) < n,
        forall|j: int|
            0 <= j < n ==> !outranks(
                #[trigger] found[j],
                found[best_upto(found, gitsawes, n)],
                gitsawes,
            ),
        forall|j: int|
            0 <= j < best_upto(found, gitsawes, n) ==> outranks(
                found[best_upto(found, gitsawes, n)],
                #[trigger] found[j],
                gitsawes,
            ),
    decreases n,
{
    if n <= 1 {
        lemma_rank_irreflexive(rank_of(found[0], gitsawes));
    } else {
        lemma_best_upto(found, gitsawes, n - 1);
        let before = best_upto(found, gitsawes, n - 1);
        let last = rank_of(found[n - 1], gitsawes);
        let held = rank_of(found[before], gitsawes);
        if outranks(found[n - 1], found[before], gitsawes) {
            lemma_rank_irreflexive(last);
            assert forall|j: int| 0 <= j < n implies !outranks(
                #[trigger] found[j],
                found[n - 1],
                gitsawes,
            ) by {
                if j < n - 1 {
                    let other = rank_of(found[j], gitsawes);
                    assert(!outranks(found[j], found[before], gitsawes));
                    if rank_before(other, last) {
                        lemma_rank_transitive(other, last, held);
                    }
                }
            }
            assert forall|j: int| 0 <= j < n - 1 implies outranks(
                found[n - 1],
                #[trigger] found[j],
                gitsawes,
            ) by {
                assert(!outranks(found[j], found[before], gitsawes));
                lemma_rank_before_unbeaten(last, held, rank_of(found[j], gitsawes));
            }
        }
    }
}

/// The winner is one of the candidates, and there is a winner whenever
/// there is a candidate.
pub proof fn lemma_winner_is_candidate(found: Seq<RuleDefinitionView>, gitsawes: Seq<GitsaweView>)
    ensures
        winner(found, gitsawes) is Some <==> found.len() > 0,
        winner(found, gitsawes) matches Some(rule) ==> found.contains(rule),
{
    if found.len() > 0 {
        lemma_best_upto(found, gitsawes, found.len() as int);
    }
}

/// No candidate outranks the winner.
pub proof fn lemma_winner_unbeaten(
    found: Seq<RuleDefinitionView>,
    gitsawes: Seq<GitsaweView>,
    other: RuleDefinitionView,
)
    requires
        found.contains(other),
    ensures
        winner(found, gitsawes) matches Some(rule) && !outranks(other, rule, gitsawes),
{
    lemma_best_upto(found, gitsawes, found.len() as int);
    let j = choose|j: int| 0 <= j < found.len() && found[j] == other;
    assert(!outranks(found[j], found[best_upto(found, gitsawes, found.len() as int)], gitsawes));
}

/// The winner outranks every candidate of another identity: there is never
/// a tie between two rules.
pub proof fn lemma_winner_beats_others(
    found: Seq<RuleDefinitionView>,
    gitsawes: Seq<GitsaweView>,
    other: RuleDefinitionView,
)
    requires
        found.contains(other),
    ensures
        winner(found, gitsawes) matches Some(rule) && (rule.id != other.id ==> outranks(
            rule,
            other,
            gitsawes,
        )),
{
    lemma_winner_unbeaten(found, gitsawes, other);
    let rule = winner(found, gitsawes).unwrap();
    if rule.id != other.id {
        lemma_rank_total(rank_of(rule, gitsawes), rank_of(other, gitsawes));
    }
}

/// Finds the first gitsawe of a given identity.
pub fn find_gitsawe(gitsawes: &Vec<Gitsawe>, id: &str) -> (found: Option<usize>)
    ensures
        match found {
            Some(g) => g < gitsawes.len() && position_of(gitsawe_ids(gitsawes.deep_view()), id@)
                == Some(g as int),
            None => position_of(gitsawe_ids(gitsawes.deep_view()), id@) is None,
        },
{
    let wanted = id.to_owned();
    let mut i: usize = 0;
    while i < gitsawes.len()
        invariant
            i <= gitsawes.len(),
            wanted@ == id@,
            position_of(gitsawe_ids(gitsawes.deep_view()), id@) == position_from(
                gitsawe_ids(gitsawes.deep_view()),
                id@,
                i as int,
            ),
        decreases gitsawes.len() - i,
    {
        if gitsawes[i].id == wanted {
            return Some(i);
        }
        i = i + 1;
    }
    None
}

/// The priority of the gitsawe that a rule appoints, if the gitsawe exists.
pub fn rule_priority(rule: &RuleDefinition, gitsawes: &Vec<Gitsawe>) -> (priority: Option<i64>)
    ensures
        priority == priority_of(gitsawes.deep_view(), rule.gitsawe_id@),
{
    match find_gitsawe(gitsawes, rule.gitsawe_id.as_str()) {
        Some(g) => Some(gitsawes[g].priority),
        None => None,
    }
}

/// Whether rule `a`, whose priority is `priority_a`, ranks before rule `b`,
/// whose priority is `priority_b`.
fn ranks_before(
    priority_a: Option<i64>,
    a: &RuleDefinition,
    priority_b: Option<i64>,
    b: &RuleDefinition,
) -> (before: bool)
    ensures
        before == rank_before(
            Rank { priority: priority_a, created_at: a.created_at, id: a.id@ },
            Rank { priority: priority_b, created_at: b.created_at, id: b.id@ },
        ),
{
    let a_stronger = match (priority_a, priority_b) {
        (None, Some(_)) => true,
        (Some(x), Some(y)) => x < y,
        _ => false,
    };
    let b_stronger = match (priority_b, priority_a) {
        (None, Some(_)) => true,
        (Some(x), Some(y)) => x < y,
        _ => false,
    };
    if a_stronger {
        true
    } else if b_stronger {
        false
    } else if a.created_at != b.created_at {
        a.created_at > b.created_at
    } else {
        str_lt(a.id.as_str(), b.id.as_str())
    }
}

impl RuleDefinition {
    /// Whether this rule outranks another.
    pub fn outranks(&self, other: &RuleDefinition, gitsawes: &Vec<Gitsawe>) -> (result: bool)
        ensures
            result == outranks(self.deep_view(), other.deep_view(), gitsawes.deep_view()),
    {
        ranks_before(rule_priority(self, gitsawes), self, rule_priority(other, gitsawes), other)
    }
}

/// Picks the winning rule among the candidates; none if there is no
/// candidate.
pub fn select_winner<'a>(found: &Vec<&'a RuleDefinition>, gitsawes: &Vec<Gitsawe>) -> (won: Option<
    &'a RuleDefinition,
>)
    ensures
        match won {
            Some(rule) => winner(found.deep_view(), gitsawes.deep_view()) == Some(
                rule.deep_view(),
            ),
            None => winner(found.deep_view(), gitsawes.deep_view()) is None,
        },
        won is Some <==> found.len() > 0,
        won matches Some(rule) ==> found.deep_view().contains(rule.deep_view()) && forall|k: int|
            0 <= k < found.len() ==> !outranks(
                #[trigger] found.deep_view()[k],
                rule.deep_view(),
                gitsawes.deep_view(),
            ),
{
    proof {
        lemma_winner_is_candidate(found.deep_view(), gitsawes.deep_view());
        if found.len() > 0 {
            lemma_best_upto(found.deep_view(), gitsawes.deep_view(), found.len() as int);
        }
    }
    if found.len() == 0 {
        return None;
    }
    let mut best: usize = 0;
    let mut best_priority = rule_priority(found[0], gitsawes);
    let mut n: usize = 1;
    while n < found.len()
        invariant
            1 <= n <= found.len(),
            best < n,
            best as int == best_upto(found.deep_view(), gitsawes.deep_view(), n as int),
            best_priority == priority_of(gitsawes.deep_view(), found@[best as int].gitsawe_id@),
        decreases found.len() - n,
    {
        let priority = rule_priority(found[n], gitsawes);
        assert(found.deep_view()[n as int] == found@[n as int].deep_view());
        assert(found.deep_view()[best as int] == found@[best as int].deep_view());
        if ranks_before(priority, found[n], best_priority, found[best]) {
            best = n;
            best_priority = priority;
        }
        n = n + 1;
    }
    assert(found.deep_view()[best as int] == found@[best as int].deep_view());
    Some(found[best])
}

/// Appoints the rule for a slide: the winner among the rules attached to
/// the slide, or, if none of those applies, the winner among the rules
/// attached to its presentation.
pub fn resolve_rule<'a>(
    rules: &'a Vec<RuleDefinition>,
    gitsawes: &Vec<Gitsawe>,
    context: &Context,
    presentation_id: &str,
    slide_id: &str,
) -> (won: Option<&'a RuleDefinition>)
    ensures
        match won {
            Some(rule) => appointed(
                rules.deep_view(),
                gitsawes.deep_view(),
                context.deep_view(),
                presentation_id@,
                slide_id@,
            ) == Some(rule.deep_view()),
            None => appointed(
                rules.deep_view(),
                gitsawes.deep_view(),
                context.deep_view(),
                presentation_id@,
                slide_id@,
            ) is None,
        },
{
    let own = match_rules(rules, &Target::Slide(slide_id.to_owned()), context);
    if own.len() > 0 {
        select_winner(&own, gitsawes)
    } else {
        let shared = match_rules(
            rules,
            &Target::Presentation(presentation_id.to_owned()),
            context,
        );
        select_winner(&shared, gitsawes)
    }
}

} // verus!
