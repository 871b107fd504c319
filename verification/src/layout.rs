//! The template resolver: which block layout a slide renders into.
//!
//! A slide renders with the template that its override names, if the
//! override names an existing template, and with the template of its
//! presentation otherwise. That template must have room for every language
//! of the presentation and a layout for the slide's kind. A presentation
//! with too many languages is never cut down to fit.

use vstd::prelude::*;
use crate::error::AssemblyError;
use crate::index::{position_from, position_of, Text};
use crate::model::{
    BlockLayout,
    BlockLayoutView,
    Presentation,
    PresentationView,
    Slide,
    SlideView,
    Template,
    TemplateView,
};

verus! {

/// The identities of the templates, in order.
pub open spec fn template_ids(templates: Seq<TemplateView>) -> Seq<Text> {
    Seq::new(templates.len(), |i: int| templates[i].id)
}

/// The kinds that a template definition has layouts for, in order.
pub open spec fn kinds_of(definition: Seq<(Text, BlockLayoutView)>) -> Seq<Text> {
    Seq::new(definition.len(), |i: int| definition[i].0)
}

/// The position of the template that a slide renders with, if it exists.
pub open spec fn effective_template(
    presentation: PresentationView,
    slide: SlideView,
    templates: Seq<TemplateView>,
) -> Option<int> {
    let own = position_of(template_ids(templates), presentation.template_id);
    match slide.template_override_id {
        Some(id) => match position_of(template_ids(templates), id) {
            Some(t) => Some(t),
            None => own,
        },
        None => own,
    }
}

/// The layout that a template gives to a kind of slide of a presentation
/// with `language_count` languages.
pub open spec fn layout_in(template: TemplateView, language_count: nat, kind: Text) -> Result<
    BlockLayoutView,
    AssemblyError,
> {
    if language_count > template.max_language_count {
        Err(AssemblyError::TooManyLanguages)
    } else {
        match position_of(kinds_of(template.definition), kind) {
            Some(k) => Ok(template.definition[k].1),
            None => Err(AssemblyError::UnknownKind),
        }
    }
}

/// The layout that a slide renders into.
pub open spec fn effective_layout(
    presentation: PresentationView,
    slide: SlideView,
    templates: Seq<TemplateView>,
) -> Result<BlockLayoutView, AssemblyError> {
    match effective_template(presentation, slide, templates) {
        Some(t) => layout_in(templates[t], presentation.language_map.len(), slide.kind),
        None => Err(AssemblyError::TemplateNotFound),
    }
}

/// Whether a presentation as a whole can be rendered: its template exists
/// and has room for its languages.
pub open spec fn presentation_fits(
    presentation: PresentationView,
    templates: Seq<TemplateView>,
) -> Result<(), AssemblyError> {
    match position_of(template_ids(templates), presentation.template_id) {
        Some(t) => if presentation.language_map.len() > templates[t].max_language_count {
            Err(AssemblyError::TooManyLanguages)
        } else {
            Ok(())
        },
        None => Err(AssemblyError::TemplateNotFound),
    }
}

/// Finds the first template of a given identity.
pub fn find_template(templates: &Vec<Template>, id: &str) -> (found: Option<usize>)
    ensures
        match found {
            Some(t) => t < templates.len() && position_of(
                template_ids(templates.deep_view()),
                id@,
            ) == Some(t as int),
            None => position_of(template_ids(templates.deep_view()), id@) is None,
        },
{
    let wanted = id.to_owned();
    let mut i: usize = 0;
    while i < templates.len()
        invariant
            i <= templates.len(),
            wanted@ == id@,
            position_of(template_ids(templates.deep_view()), id@) == position_from(
                template_ids(templates.deep_view()),
                id@,
                i as int,
            ),
        decreases templates.len() - i,
    {
        if templates[i].id == wanted {
            return Some(i);
        }
        i = i + 1;
    }
    None
}

impl Template {
    /// The layout for a kind of slide of a presentation with
    /// `language_count` languages.
    pub fn layout_for(&self, language_count: usize, kind: &str) -> (result: Result<
        &BlockLayout,
        AssemblyError,
    >)
        ensures
            match result {
                Ok(layout) => layout_in(self.deep_view(), language_count as nat, kind@) == Ok::<
                    BlockLayoutView,
                    AssemblyError,
                >(layout.deep_view()),
                Err(error) => layout_in(self.deep_view(), language_count as nat, kind@) == Err::<
                    BlockLayoutView,
                    AssemblyError,
                >(error),
            },
    {
        if language_count > self.max_language_count {
            return Err(AssemblyError::TooManyLanguages);
        }
        let wanted = kind.to_owned();
        let mut i: usize = 0;
        while i < self.definition.len()
            invariant
                i <= self.definition.len(),
                wanted@ == kind@,
                language_count <= self.max_language_count,
                position_of(kinds_of(self.deep_view().definition), kind@) == position_from(
                    kinds_of(self.deep_view().definition),
                    kind@,
                    i as int,
                ),
            decreases self.definition.len() - i,
        {
            if self.definition[i].0 == wanted {
                return Ok(&self.definition[i].1);
            }
            i = i + 1;
        }
        Err(AssemblyError::UnknownKind)
    }
}

/// Resolves the layout that a slide renders into.
pub fn resolve_layout<'a>(
    presentation: &Presentation,
    slide: &Slide,
    templates: &'a Vec<Template>,
) -> (result: Result<&'a BlockLayout, AssemblyError>)
    ensures
        match result {
            Ok(layout) => effective_layout(
                presentation.deep_view(),
                slide.deep_view(),
                templates.deep_view(),
            ) == Ok::<BlockLayoutView, AssemblyError>(layout.deep_view()),
            Err(error) => effective_layout(
                presentation.deep_view(),
                slide.deep_view(),
                templates.deep_view(),
            ) == Err::<BlockLayoutView, AssemblyError>(error),
        },
{
    let overriding = match &slide.template_override_id {
        Some(id) => find_template(templates, id.as_str()),
        None => None,
    };
    let effective = match overriding {
        Some(t) => Some(t),
        None => find_template(templates, presentation.template_id.as_str()),
    };
    match effective {
        Some(t) => templates[t].layout_for(presentation.language_map.len(), slide.kind.as_str()),
        None => Err(AssemblyError::TemplateNotFound),
    }
}

/// Checks that a presentation as a whole can be rendered: that its template
/// exists and has room for its languages.
pub fn check_presentation(presentation: &Presentation, templates: &Vec<Template>) -> (result:
    Result<(), AssemblyError>)
    ensures
        result == presentation_fits(presentation.deep_view(), templates.deep_view()),
{
    match find_template(templates, presentation.template_id.as_str()) {
        Some(t) => if presentation.language_map.len() > templates[t].max_language_count {
            Err(AssemblyError::TooManyLanguages)
        } else {
            Ok(())
        },
        None => Err(AssemblyError::TemplateNotFound),
    }
}

} // verus!
