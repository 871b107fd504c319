//! Resolution of a whole presentation: every slide from rule to rendering.
//!
//! Each call takes everything it reads as arguments: the presentation, its
//! slides and variables, the library of templates, rules, gitsawes and
//! verses, and the context of the run. Nothing else is consulted, so the
//! same arguments always give the same result.
//!
//! A slide that cannot be assembled is reported in its place in the
//! sequence, with the slide and the rule concerned; the slides around it
//! are assembled as usual. Only a presentation that cannot be rendered as a
//! whole, because its template is missing or has no room for its
//! languages, fails before any slide is rendered.

use vstd::prelude::*;
use crate::arrange::{arrange, arrangement, lemma_arrangement, positions};
use crate::assemble::{assemble_slide, rendered_slide, RenderedSlide, RenderedSlideView};
use crate::content::{lookup_content, resolved_content};
use crate::error::AssemblyError;
use crate::index::Text;
use crate::layout::{check_presentation, effective_layout, presentation_fits, resolve_layout};
use crate::model::{
    Gitsawe,
    GitsaweView,
    Presentation,
    PresentationView,
    RuleDefinition,
    RuleDefinitionView,
    Slide,
    SlideView,
    Template,
    TemplateView,
    Variable,
    VariableView,
    Verse,
    VerseView,
};
use crate::predicate::{Context, ContextView};
use crate::resolver::{appointed, resolve_rule};

verus! {

/// The reference data of a run: templates, rules, gitsawes and verses.
#[derive(Debug, PartialEq, Eq)]
pub struct Library {
    pub templates: Vec<Template>,
    pub rules: Vec<RuleDefinition>,
    pub gitsawes: Vec<Gitsawe>,
    pub verses: Vec<Verse>,
}

/// Model of a [`Library`].
pub struct LibraryView {
    pub templates: Seq<TemplateView>,
    pub rules: Seq<RuleDefinitionView>,
    pub gitsawes: Seq<GitsaweView>,
    pub verses: Seq<VerseView>,
}

impl DeepView for Library {
    type V = LibraryView;

    open spec fn deep_view(&self) -> LibraryView {
        LibraryView {
            templates: self.templates.deep_view(),
            rules: self.rules.deep_view(),
            gitsawes: self.gitsawes.deep_view(),
            verses: self.verses.deep_view(),
        }
    }
}

/// A slide that could not be assembled.
#[derive(Debug, PartialEq, Eq)]
pub struct SlideFailure {
    pub slide_id: String,
    /// The winning rule, where the failure lies in what it appoints.
    pub rule_id: Option<String>,
    pub error: AssemblyError,
}

/// Model of a [`SlideFailure`].
pub struct SlideFailureView {
    pub slide_id: Text,
    pub rule_id: Option<Text>,
    pub error: AssemblyError,
}

impl DeepView for SlideFailure {
    type V = SlideFailureView;

    open spec fn deep_view(&self) -> SlideFailureView {
        SlideFailureView {
            slide_id: self.slide_id@,
            rule_id: self.rule_id.deep_view(),
            error: self.error,
        }
    }
}

/// Model of the outcome for one slide.
pub open spec fn outcome_view(outcome: Result<RenderedSlide, SlideFailure>) -> Result<
    RenderedSlideView,
    SlideFailureView,
> {
    match outcome {
        Ok(rendered) => Ok(rendered.deep_view()),
        Err(failure) => Err(failure.deep_view()),
    }
}

/// Model of the outcomes for a sequence of slides.
pub open spec fn outcome_views(outcomes: Seq<Result<RenderedSlide, SlideFailure>>) -> Seq<
    Result<RenderedSlideView, SlideFailureView>,
> {
    Seq::new(outcomes.len(), |k: int| outcome_view(outcomes[k]))
}

/// Model of the result for a presentation.
pub open spec fn result_view(
    result: Result<Vec<Result<RenderedSlide, SlideFailure>>, AssemblyError>,
) -> Result<Seq<Result<RenderedSlideView, SlideFailureView>>, AssemblyError> {
    match result {
        Ok(outcomes) => Ok(outcome_views(outcomes@)),
        Err(error) => Err(error),
    }
}

/// The outcome for one slide.
///
/// The layout comes first: without one the slide fails, whatever its rules
/// say. A slide that is not dynamic, or to which no rule applies, renders
/// its authored content. Otherwise the appointed rule brings the content,
/// or the failure.
pub open spec fn slide_outcome(
    presentation: PresentationView,
    slide: SlideView,
    variables: Seq<VariableView>,
    library: LibraryView,
    context: ContextView,
) -> Result<RenderedSlideView, SlideFailureView> {
    match effective_layout(presentation, slide, library.templates) {
        Err(error) => Err(SlideFailureView { slide_id: slide.id, rule_id: None, error }),
        Ok(layout) => {
            let rule = if slide.is_dynamic {
                appointed(library.rules, library.gitsawes, context, presentation.id, slide.id)
            } else {
                None
            };
            match rule {
                None => Ok(
                    rendered_slide(slide, layout, None, variables, presentation.language_map),
                ),
                Some(rule) => match resolved_content(
                    rule,
                    library.gitsawes,
                    library.verses,
                    layout.verses,
                ) {
                    Err(error) => Err(
                        SlideFailureView { slide_id: slide.id, rule_id: Some(rule.id), error },
                    ),
                    Ok(content) => Ok(
                        rendered_slide(
                            slide,
                            layout,
                            Some(content),
                            variables,
                            presentation.language_map,
                        ),
                    ),
                },
            }
        },
    }
}

/// Whether a slide is rendered with a presentation: it belongs to it and is
/// not disabled.
pub open spec fn is_rendered(slide: SlideView, presentation_id: Text) -> bool {
    slide.presentation_id == presentation_id && !slide.is_disabled
}

/// For each slide its order if it is rendered with the presentation, and
/// nothing otherwise.
pub open spec fn slide_keys(slides: Seq<SlideView>, presentation_id: Text) -> Seq<Option<i64>> {
    Seq::new(
        slides.len(),
        |i: int|
            if is_rendered(slides[i], presentation_id) {
                Some(slides[i].slide_order)
            } else {
                None
            },
    )
}

/// The positions of the slides that are rendered, by ascending slide
/// order; slides of equal order stay as they were given.
pub open spec fn render_order(slides: Seq<SlideView>, presentation_id: Text) -> Seq<int> {
    arrangement(slide_keys(slides, presentation_id))
}

/// The outcome for a presentation: the failure of the whole, or the
/// outcomes of its rendered slides in render order.
pub open spec fn presentation_outcome(
    presentation: PresentationView,
    slides: Seq<SlideView>,
    variables: Seq<VariableView>,
    library: LibraryView,
    context: ContextView,
) -> Result<Seq<Result<RenderedSlideView, SlideFailureView>>, AssemblyError> {
    match presentation_fits(presentation, library.templates) {
        Err(error) => Err(error),
        Ok(_) => {
            let order = render_order(slides, presentation.id);
            Ok(
                Seq::new(
                    order.len(),
                    |k: int|
                        slide_outcome(presentation, slides[order[k]], variables, library, context),
                ),
            )
        },
    }
}

/// Resolves and assembles one slide of a presentation.
pub fn resolve_slide(
    presentation: &Presentation,
    slide: &Slide,
    variables: &Vec<Variable>,
    library: &Library,
    context: &Context,
) -> (outcome: Result<RenderedSlide, SlideFailure>)
    ensures
        outcome_view(outcome) == slide_outcome(
            presentation.deep_view(),
            slide.deep_view(),
            variables.deep_view(),
            library.deep_view(),
            context.deep_view(),
        ),
{
    let layout = match resolve_layout(presentation, slide, &library.templates) {
        Ok(layout) => layout,
        Err(error) => {
            return Err(SlideFailure { slide_id: slide.id.clone(), rule_id: None, error });
        },
    };
    let rule = if slide.is_dynamic {
        resolve_rule(
            &library.rules,
            &library.gitsawes,
            context,
            presentation.id.as_str(),
            slide.id.as_str(),
        )
    } else {
        None
    };
    match rule {
        None => Ok(assemble_slide(slide, layout, None, variables, &presentation.language_map)),
        Some(rule) => match lookup_content(rule, &library.gitsawes, &library.verses, layout.verses) {
            Err(error) => Err(
                SlideFailure {
                    slide_id: slide.id.clone(),
                    rule_id: Some(rule.id.clone()),
                    error,
                },
            ),
            Ok(content) => Ok(
                assemble_slide(
                    slide,
                    layout,
                    Some(&content),
                    variables,
                    &presentation.language_map,
                ),
            ),
        },
    }
}

/// The positions of the slides that are rendered with a presentation, in
/// render order.
pub fn order_slides(slides: &Vec<Slide>, presentation_id: &str) -> (order: Vec<usize>)
    ensures
        positions(order@) == render_order(slides.deep_view(), presentation_id@),
        forall|k: int| 0 <= k < order@.len() ==> #[trigger] order@[k] < slides.len(),
{
    let wanted = presentation_id.to_owned();
    let mut keys: Vec<Option<i64>> = Vec::new();
    let mut i: usize = 0;
    while i < slides.len()
        invariant
            i <= slides.len(),
            wanted@ == presentation_id@,
            keys@ =~= slide_keys(slides.deep_view(), presentation_id@).take(i as int),
        decreases slides.len() - i,
    {
        if slides[i].presentation_id == wanted && !slides[i].is_disabled {
            keys.push(Some(slides[i].slide_order));
        } else {
            keys.push(None);
        }
        i = i + 1;
    }
    assert(keys@ =~= slide_keys(slides.deep_view(), presentation_id@));
    let order = arrange(&keys);
    proof {
        lemma_arrangement(keys@);
        assert forall|k: int| 0 <= k < order@.len() implies #[trigger] order@[k]
            < slides.len() by {
            assert(positions(order@)[k] == order@[k] as int);
        }
    }
    order
}

/// Resolves and assembles a presentation.
///
/// Fails as a whole if the template of the presentation is missing or has
/// no room for its languages. Otherwise gives one outcome for each slide
/// that belongs to the presentation and is not disabled, by ascending
/// slide order.
pub fn assemble_presentation(
    presentation: &Presentation,
    slides: &Vec<Slide>,
    variables: &Vec<Variable>,
    library: &Library,
    context: &Context,
) -> (result: Result<Vec<Result<RenderedSlide, SlideFailure>>, AssemblyError>)
    ensures
        result_view(result) == presentation_outcome(
            presentation.deep_view(),
            slides.deep_view(),
            variables.deep_view(),
            library.deep_view(),
            context.deep_view(),
        ),
{
    match check_presentation(presentation, &library.templates) {
        Err(error) => {
            return Err(error);
        },
        Ok(_) => {},
    }
    let order = order_slides(slides, presentation.id.as_str());
    let mut outcomes: Vec<Result<RenderedSlide, SlideFailure>> = Vec::new();
    let ghost expected = presentation_outcome(
        presentation.deep_view(),
        slides.deep_view(),
        variables.deep_view(),
        library.deep_view(),
        context.deep_view(),
    )->Ok_0;
    let mut k: usize = 0;
    while k < order.len()
        invariant
            k <= order.len(),
            positions(order@) == render_order(slides.deep_view(), presentation.deep_view().id),
            forall|j: int| 0 <= j < order@.len() ==> #[trigger] order@[j] < slides.len(),
            presentation_outcome(
                presentation.deep_view(),
                slides.deep_view(),
                variables.deep_view(),
                library.deep_view(),
                context.deep_view(),
            ) == Ok::<Seq<Result<RenderedSlideView, SlideFailureView>>, AssemblyError>(expected),
            expected.len() == order@.len(),
            outcome_views(outcomes@) =~= expected.take(k as int),
        decreases order.len() - k,
    {
        let ghost before = outcome_views(outcomes@);
        let at = order[k];
        let outcome = resolve_slide(presentation, &slides[at], variables, library, context);
        proof {
            assert(positions(order@)[k as int] == at as int);
            assert(slides.deep_view()[at as int] == slides@[at as int].deep_view());
            assert(expected[k as int] == outcome_view(outcome));
        }
        outcomes.push(outcome);
        assert(outcome_views(outcomes@) =~= before.push(outcome_view(outcome)));
        k = k + 1;
    }
    assert(outcome_views(outcomes@) =~= expected);
    Ok(outcomes)
}

} // verus!
