//! What holds of resolution and assembly as a whole.

use vstd::prelude::*;
use crate::arrange::{comes_before, lemma_arrangement};
use crate::assemble::{raw_blocks, rendered_slide, RenderedSlide, RenderedSlideView};
use crate::error::{AssemblyError, ErrorClass};
use crate::index::{lemma_position_of, position_of, Text};
use crate::layout::{effective_layout, template_ids};
use crate::matcher::{applies, candidates, lemma_candidates, lemma_candidates_upto};
use crate::model::{
    text_in,
    BlockLayoutView,
    GitsaweView,
    Presentation,
    PresentationView,
    RuleDefinitionView,
    Slide,
    SlideView,
    TargetView,
    Variable,
    VariableView,
};
use crate::predicate::{
    field_names,
    holds,
    Context,
    ContextValueView,
    ContextView,
    PredicateView,
};
use crate::presentation::{
    is_rendered,
    presentation_outcome,
    render_order,
    result_view,
    slide_keys,
    slide_outcome,
    Library,
    LibraryView,
    SlideFailure,
    SlideFailureView,
};
use crate::resolver::{
    appointed,
    lemma_winner_is_candidate,
    lemma_winner_unbeaten,
    outranks,
    priority_of,
    winner,
};
use crate::substitute::{
    expanded,
    expanded_from,
    name_end,
    placeholder_end,
    placeholder_name,
    replacement,
    unresolved,
    unresolved_from,
    variable_names,
};

verus! {

/// A comparison with a field that the context does not have is false,
/// whatever it compares with.
pub proof fn law_missing_field_is_false(
    context: ContextView,
    field: Text,
    value: ContextValueView,
    low: int,
    high: int,
)
    requires
        forall|i: int| 0 <= i < context.len() ==> (#[trigger] context[i]).0 != field,
    ensures
        !holds(PredicateView::Equals { field, value }, context),
        !holds(PredicateView::InRange { field, low, high }, context),
{
    lemma_position_of(field_names(context), field);
    if position_of(field_names(context), field) is Some {
        let i = position_of(field_names(context), field)->Some_0;
        assert(context[i].0 == field);
    }
}

/// A disabled rule is never a candidate, whatever its target and its
/// predicate.
pub proof fn law_disabled_rule_is_no_candidate(
    rules: Seq<RuleDefinitionView>,
    target: TargetView,
    context: ContextView,
    rule: RuleDefinitionView,
)
    requires
        !rule.is_enabled,
    ensures
        !candidates(rules, target, context).contains(rule),
{
    lemma_candidates(rules, target, context, rule);
}

/// A candidate never wins against a candidate whose gitsawe has a lower
/// priority number.
pub proof fn law_lower_priority_wins(
    found: Seq<RuleDefinitionView>,
    gitsawes: Seq<GitsaweView>,
    stronger: RuleDefinitionView,
    weaker: RuleDefinitionView,
)
    requires
        found.contains(stronger),
        found.contains(weaker),
        priority_of(gitsawes, stronger.gitsawe_id) is Some,
        priority_of(gitsawes, weaker.gitsawe_id) is Some,
        priority_of(gitsawes, stronger.gitsawe_id)->Some_0 < priority_of(
            gitsawes,
            weaker.gitsawe_id,
        )->Some_0,
    ensures
        outranks(stronger, weaker, gitsawes),
        winner(found, gitsawes) is Some,
        winner(found, gitsawes) != Some(weaker),
{
    lemma_winner_unbeaten(found, gitsawes, stronger);
}

/// Among candidates of equal priority, a candidate never wins against one
/// that was authored later.
pub proof fn law_latest_rule_wins(
    found: Seq<RuleDefinitionView>,
    gitsawes: Seq<GitsaweView>,
    later: RuleDefinitionView,
    earlier: RuleDefinitionView,
)
    requires
        found.contains(later),
        found.contains(earlier),
        priority_of(gitsawes, later.gitsawe_id) == priority_of(gitsawes, earlier.gitsawe_id),
        later.created_at > earlier.created_at,
    ensures
        outranks(later, earlier, gitsawes),
        winner(found, gitsawes) is Some,
        winner(found, gitsawes) != Some(earlier),
{
    lemma_winner_unbeaten(found, gitsawes, later);
}

/// Where a rule attached to the slide applies, the appointed rule is one
/// attached to the slide, whatever the priorities of the rules attached to
/// the presentation.
pub proof fn law_slide_rules_come_first(
    rules: Seq<RuleDefinitionView>,
    gitsawes: Seq<GitsaweView>,
    context: ContextView,
    presentation_id: Text,
    slide_id: Text,
    own: RuleDefinitionView,
)
    requires
        rules.contains(own),
        applies(own, TargetView::Slide(slide_id), context),
    ensures
        appointed(rules, gitsawes, context, presentation_id, slide_id) matches Some(rule)
            && rule.target == TargetView::Slide(slide_id) && rules.contains(rule) && applies(
            rule,
            TargetView::Slide(slide_id),
            context,
        ),
{
    let found = candidates(rules, TargetView::Slide(slide_id), context);
    lemma_candidates(rules, TargetView::Slide(slide_id), context, own);
    lemma_winner_is_candidate(found, gitsawes);
    let rule = winner(found, gitsawes)->Some_0;
    lemma_candidates(rules, TargetView::Slide(slide_id), context, rule);
}

/// Where no rule attached to the slide applies, the appointed rule is the
/// winner among the rules attached to the presentation, and so applies to
/// the presentation.
pub proof fn law_presentation_rules_come_second(
    rules: Seq<RuleDefinitionView>,
    gitsawes: Seq<GitsaweView>,
    context: ContextView,
    presentation_id: Text,
    slide_id: Text,
)
    requires
        forall|i: int|
            0 <= i < rules.len() ==> !applies(
                #[trigger] rules[i],
                TargetView::Slide(slide_id),
                context,
            ),
    ensures
        appointed(rules, gitsawes, context, presentation_id, slide_id) == winner(
            candidates(rules, TargetView::Presentation(presentation_id), context),
            gitsawes,
        ),
        appointed(rules, gitsawes, context, presentation_id, slide_id) matches Some(rule)
            ==> rules.contains(rule) && applies(
            rule,
            TargetView::Presentation(presentation_id),
            context,
        ),
{
    lemma_none_applies(rules, TargetView::Slide(slide_id), context);
    let shared = candidates(rules, TargetView::Presentation(presentation_id), context);
    lemma_winner_is_candidate(shared, gitsawes);
    if winner(shared, gitsawes) is Some {
        lemma_candidates(
            rules,
            TargetView::Presentation(presentation_id),
            context,
            winner(shared, gitsawes)->Some_0,
        );
    }
}

/// Where no rule applies to a target, the target has no candidate.
pub proof fn lemma_none_applies(
    rules: Seq<RuleDefinitionView>,
    target: TargetView,
    context: ContextView,
)
    requires
        forall|i: int| 0 <= i < rules.len() ==> !applies(#[trigger] rules[i], target, context),
    ensures
        candidates(rules, target, context).len() == 0,
{
    lemma_candidates_upto(rules, target, context, rules.len() as int);
    let found = candidates(rules, target, context);
    if found.len() > 0 {
        assert(applies(found[0], target, context));
        let i = choose|i: int| 0 <= i < rules.len() && rules[i] == found[0];
        assert(applies(rules[i], target, context));
    }
}

/// A dynamic slide to which no rule applies, neither one attached to it nor
/// one attached to its presentation, renders exactly as it would if it were
/// not dynamic: with its authored blocks.
pub proof fn law_fallback_to_authored(
    presentation: PresentationView,
    slide: SlideView,
    variables: Seq<VariableView>,
    library: LibraryView,
    context: ContextView,
)
    requires
        slide.is_dynamic,
        forall|i: int|
            0 <= i < library.rules.len() ==> !applies(
                #[trigger] library.rules[i],
                TargetView::Slide(slide.id),
                context,
            ) && !applies(library.rules[i], TargetView::Presentation(presentation.id), context),
    ensures
        slide_outcome(presentation, slide, variables, library, context) == slide_outcome(
            presentation,
            SlideView { is_dynamic: false, ..slide },
            variables,
            library,
            context,
        ),
        forall|layout: BlockLayoutView, language: Text|
            #![trigger raw_blocks(slide, layout, None, language)]
            raw_blocks(slide, layout, None, language).len() == slide.blocks.len() && forall|
                k: int,
            |
                0 <= k < slide.blocks.len() ==> #[trigger] raw_blocks(
                    slide,
                    layout,
                    None,
                    language,
                )[k] == text_in(slide.blocks[k], language),
{
    lemma_none_applies(library.rules, TargetView::Slide(slide.id), context);
    lemma_none_applies(library.rules, TargetView::Presentation(presentation.id), context);
    let fixed = SlideView { is_dynamic: false, ..slide };
    assert(effective_layout(presentation, slide, library.templates) == effective_layout(
        presentation,
        fixed,
        library.templates,
    ));
    match effective_layout(presentation, slide, library.templates) {
        Ok(layout) => {
            let a = rendered_slide(slide, layout, None, variables, presentation.language_map);
            let b = rendered_slide(fixed, layout, None, variables, presentation.language_map);
            assert forall|language: Text|
                raw_blocks(slide, layout, None, language) =~= #[trigger] raw_blocks(
                    fixed,
                    layout,
                    None,
                    language,
                ) by {}
            assert(a.languages =~= b.languages);
        },
        Err(_) => {},
    }
}

/// A presentation with more languages than its template has room for
/// fails as a whole, with a template mismatch, and no slide is rendered.
pub proof fn law_language_bound(
    presentation: PresentationView,
    slides: Seq<SlideView>,
    variables: Seq<VariableView>,
    library: LibraryView,
    context: ContextView,
    template: int,
)
    requires
        position_of(template_ids(library.templates), presentation.template_id) == Some(template),
        presentation.language_map.len() > library.templates[template].max_language_count,
    ensures
        presentation_outcome(presentation, slides, variables, library, context) == Err::<
            Seq<Result<RenderedSlideView, SlideFailureView>>,
            AssemblyError,
        >(AssemblyError::TooManyLanguages),
        AssemblyError::TooManyLanguages.class_of() == ErrorClass::TemplateMismatch,
{
}

/// The render order lists exactly the slides that belong to the
/// presentation and are not disabled, each once, by ascending slide order.
pub proof fn law_render_order(slides: Seq<SlideView>, presentation_id: Text)
    ensures
        forall|k: int|
            0 <= k < render_order(slides, presentation_id).len() ==> 0 <= (#[trigger] render_order(
                slides,
                presentation_id,
            )[k]) < slides.len() && is_rendered(
                slides[render_order(slides, presentation_id)[k]],
                presentation_id,
            ),
        forall|i: int|
            0 <= i < slides.len() && is_rendered(#[trigger] slides[i], presentation_id)
                ==> render_order(slides, presentation_id).contains(i),
        forall|a: int, b: int|
            0 <= a < b < render_order(slides, presentation_id).len() ==> (#[trigger] render_order(
                slides,
                presentation_id,
            )[a]) != (#[trigger] render_order(slides, presentation_id)[b])
                && slides[render_order(slides, presentation_id)[a]].slide_order
                <= slides[render_order(slides, presentation_id)[b]].slide_order,
{
    let keys = slide_keys(slides, presentation_id);
    let order = render_order(slides, presentation_id);
    lemma_arrangement(keys);
    assert forall|k: int| 0 <= k < order.len() implies 0 <= (#[trigger] order[k]) < slides.len()
        && is_rendered(slides[order[k]], presentation_id) by {
        assert(keys[order[k]] is Some);
    }
    assert forall|i: int|
        0 <= i < slides.len() && is_rendered(#[trigger] slides[i], presentation_id) implies order.contains(
        i,
    ) by {
        assert(keys[i] is Some);
        let k = choose|k: int| 0 <= k < order.len() && order[k] == i;
        assert(order[k] == i);
    }
    assert forall|a: int, b: int| 0 <= a < b < order.len() implies (#[trigger] order[a]) != (
    #[trigger] order[b]) && slides[order[a]].slide_order <= slides[order[b]].slide_order by {
        assert(keys[order[a]] is Some);
        assert(keys[order[b]] is Some);
        assert(comes_before(keys, order[a], order[b]));
    }
}

/// Text from `at` on without an opening brace stays as it is, and nothing
/// is reported for it.
pub proof fn lemma_plain_from(text: Text, variables: Seq<VariableView>, language: Text, at: int)
    requires
        0 <= at <= text.len(),
        forall|i: int| at <= i < text.len() ==> text[i] != '{',
    ensures
        expanded_from(text, variables, language, at) == text.subrange(at, text.len() as int),
        unresolved_from(text, variables, at) == Seq::<Text>::empty(),
    decreases text.len() - at,
{
    if at < text.len() {
        lemma_plain_from(text, variables, language, at + 1);
        assert(seq![text[at]] + text.subrange(at + 1, text.len() as int) =~= text.subrange(
            at,
            text.len() as int,
        ));
    } else {
        assert(text.subrange(at, text.len() as int) =~= Seq::<char>::empty());
    }
}

/// Text without an opening brace is left untouched in every language, and
/// nothing is reported for it.
pub proof fn law_plain_text_untouched(text: Text, variables: Seq<VariableView>, language: Text)
    requires
        forall|i: int| 0 <= i < text.len() ==> text[i] != '{',
    ensures
        expanded(text, variables, language) == text,
        unresolved(text, variables) == Seq::<Text>::empty(),
{
    lemma_plain_from(text, variables, language, 0);
    assert(text.subrange(0, text.len() as int) =~= text);
}

/// Whether a text has no brace.
pub open spec fn without_braces(text: Text) -> bool {
    forall|i: int| 0 <= i < text.len() ==> text[i] != '{' && text[i] != '}'
}

/// The placeholder for a name.
pub open spec fn placeholder_for(name: Text) -> Text {
    seq!['{', '{'] + name + seq!['}', '}']
}

/// A text that starts with plain characters up to `stop` expands to those
/// characters followed by the expansion of the rest.
proof fn lemma_plain_prefix(
    text: Text,
    variables: Seq<VariableView>,
    language: Text,
    at: int,
    stop: int,
)
    requires
        0 <= at <= stop <= text.len(),
        forall|i: int| at <= i < stop ==> text[i] != '{',
    ensures
        expanded_from(text, variables, language, at) == text.subrange(at, stop) + expanded_from(
            text,
            variables,
            language,
            stop,
        ),
        unresolved_from(text, variables, at) == unresolved_from(text, variables, stop),
    decreases stop - at,
{
    if at < stop {
        lemma_plain_prefix(text, variables, language, at + 1, stop);
        assert(seq![text[at]] + (text.subrange(at + 1, stop) + expanded_from(
            text,
            variables,
            language,
            stop,
        )) =~= text.subrange(at, stop) + expanded_from(text, variables, language, stop));
    } else {
        assert(text.subrange(at, stop) + expanded_from(text, variables, language, stop)
            =~= expanded_from(text, variables, language, stop));
    }
}

/// A run of name characters ends where the first brace stands.
proof fn lemma_name_end(text: Text, from: int, stop: int)
    requires
        0 <= from <= stop <= text.len(),
        forall|i: int| from <= i < stop ==> text[i] != '{' && text[i] != '}',
        stop < text.len() ==> text[stop] == '{' || text[stop] == '}',
    ensures
        name_end(text, from) == stop,
    decreases stop - from,
{
    if from < stop {
        lemma_name_end(text, from + 1, stop);
    }
}

/// A text with one placeholder, between texts without braces, expands to
/// what stands before it, what replaces it, and what stands behind it.
proof fn lemma_one_placeholder(
    before: Text,
    name: Text,
    behind: Text,
    variables: Seq<VariableView>,
    language: Text,
)
    requires
        without_braces(before),
        without_braces(name),
        without_braces(behind),
        name.len() > 0,
    ensures
        expanded(before + placeholder_for(name) + behind, variables, language) == before
            + replacement(placeholder_for(name), variables, language) + behind,
        unresolved(before + placeholder_for(name) + behind, variables) == if position_of(
            variable_names(variables),
            name,
        ) is None {
            seq![name]
        } else {
            Seq::<Text>::empty()
        },
        placeholder_name(placeholder_for(name)) == name,
{
    let text = before + placeholder_for(name) + behind;
    let start = before.len() as int;
    let end = start + name.len() + 4;
    let replaced = replacement(placeholder_for(name), variables, language);
    assert(text.len() == end + behind.len());
    assert forall|i: int| 0 <= i < start implies text[i] != '{' by {
        assert(text[i] == before[i]);
    }
    lemma_plain_prefix(text, variables, language, 0, start);
    assert(text.subrange(0, start) =~= before);
    assert(text[start] == '{' && text[start + 1] == '{');
    assert forall|i: int| start + 2 <= i < end - 2 implies text[i] != '{' && text[i] != '}' by {
        assert(text[i] == name[i - start - 2]);
    }
    assert(text[end - 2] == '}' && text[end - 1] == '}');
    lemma_name_end(text, start + 2, end - 2);
    assert(placeholder_end(text, start) == Some(end));
    assert(text.subrange(start, end) =~= placeholder_for(name));
    assert(placeholder_name(placeholder_for(name)) =~= name);
    assert forall|i: int| end <= i < text.len() implies text[i] != '{' by {
        assert(text[i] == behind[i - end]);
    }
    lemma_plain_from(text, variables, language, end);
    assert(text.subrange(end, text.len() as int) =~= behind);
    assert(before + (replaced + behind) =~= before + replaced + behind);
    assert(seq![name] + Seq::<Text>::empty() =~= seq![name]);
}

/// A placeholder for a variable, between texts without braces, is replaced
/// by the variable's text for the language; what stands before and behind
/// it is left untouched.
pub proof fn law_placeholder_replaced(
    before: Text,
    name: Text,
    behind: Text,
    variables: Seq<VariableView>,
    language: Text,
    variable: int,
)
    requires
        without_braces(before),
        without_braces(name),
        without_braces(behind),
        name.len() > 0,
        position_of(variable_names(variables), name) == Some(variable),
    ensures
        expanded(before + placeholder_for(name) + behind, variables, language) == before
            + text_in(variables[variable].values, language) + behind,
        unresolved(before + placeholder_for(name) + behind, variables) == Seq::<Text>::empty(),
{
    lemma_one_placeholder(before, name, behind, variables, language);
}

/// A placeholder that names no variable, between texts without braces,
/// stays in the text as it is written, and its name is reported once.
pub proof fn law_unknown_placeholder_stays(
    before: Text,
    name: Text,
    behind: Text,
    variables: Seq<VariableView>,
    language: Text,
)
    requires
        without_braces(before),
        without_braces(name),
        without_braces(behind),
        name.len() > 0,
        position_of(variable_names(variables), name) is None,
    ensures
        expanded(before + placeholder_for(name) + behind, variables, language) == before
            + placeholder_for(name) + behind,
        unresolved(before + placeholder_for(name) + behind, variables) == seq![name],
{
    lemma_one_placeholder(before, name, behind, variables, language);
}

/// Assembly is deterministic: whatever two runs on the same data return,
/// they return the same, text for text. The data of the two runs need not
/// be the same values in memory, only to hold the same.
pub proof fn law_deterministic(
    first: Result<Vec<Result<RenderedSlide, SlideFailure>>, AssemblyError>,
    second: Result<Vec<Result<RenderedSlide, SlideFailure>>, AssemblyError>,
    presentation: (Presentation, Presentation),
    slides: (Vec<Slide>, Vec<Slide>),
    variables: (Vec<Variable>, Vec<Variable>),
    library: (Library, Library),
    context: (Context, Context),
)
    requires
        presentation.0.deep_view() == presentation.1.deep_view(),
        slides.0.deep_view() == slides.1.deep_view(),
        variables.0.deep_view() == variables.1.deep_view(),
        library.0.deep_view() == library.1.deep_view(),
        context.0.deep_view() == context.1.deep_view(),
        result_view(first) == presentation_outcome(
            presentation.0.deep_view(),
            slides.0.deep_view(),
            variables.0.deep_view(),
            library.0.deep_view(),
            context.0.deep_view(),
        ),
        result_view(second) == presentation_outcome(
            presentation.1.deep_view(),
            slides.1.deep_view(),
            variables.1.deep_view(),
            library.1.deep_view(),
            context.1.deep_view(),
        ),
    ensures
        result_view(first) == result_view(second),
{
}

} // verus!
