//! The content assembler: the render-ready form of one slide.
//!
//! A slide is rendered once for each language of the presentation, in the
//! order of its language map. On a dynamic slide that a rule has brought
//! content to, each slot of the layout gives one block: a text field of the
//! gitsawe, or its verses joined in order. On every other slide the blocks
//! are the authored ones. Title and footer are always the authored ones.
//! Placeholders are replaced last, in every text alike.

use vstd::prelude::*;
use crate::content::{ResolvedContent, ResolvedContentView};
use crate::index::Text;
use crate::model::{
    text_in,
    BlockLayout,
    BlockLayoutView,
    Gitsawe,
    GitsaweView,
    Localized,
    LocalizedText,
    ReadingField,
    Slide,
    SlideView,
    SlotSource,
    Variable,
    VariableView,
    Verse,
    VerseView,
};
use crate::substitute::{expanded, substitute, unresolved};

verus! {

/// One slide in one language, ready to render.
#[derive(Debug, PartialEq, Eq)]
pub struct RenderedLanguage {
    pub language: String,
    pub title: String,
    pub blocks: Vec<String>,
    pub footer: String,
    /// The names of the placeholders that name no variable, one for each
    /// occurrence: those of the title, of the blocks in order, and of the
    /// footer. They are warnings; the placeholders stay in the text.
    pub unresolved: Vec<String>,
}

/// Model of a [`RenderedLanguage`].
pub struct RenderedLanguageView {
    pub language: Text,
    pub title: Text,
    pub blocks: Seq<Text>,
    pub footer: Text,
    pub unresolved: Seq<Text>,
}

impl DeepView for RenderedLanguage {
    type V = RenderedLanguageView;

    open spec fn deep_view(&self) -> RenderedLanguageView {
        RenderedLanguageView {
            language: self.language@,
            title: self.title@,
            blocks: self.blocks.deep_view(),
            footer: self.footer@,
            unresolved: self.unresolved.deep_view(),
        }
    }
}

/// One slide, ready to render: one rendering for each language.
#[derive(Debug, PartialEq, Eq)]
pub struct RenderedSlide {
    pub slide_id: String,
    pub languages: Vec<RenderedLanguage>,
}

/// Model of a [`RenderedSlide`].
pub struct RenderedSlideView {
    pub slide_id: Text,
    pub languages: Seq<RenderedLanguageView>,
}

impl DeepView for RenderedSlide {
    type V = RenderedSlideView;

    open spec fn deep_view(&self) -> RenderedSlideView {
        RenderedSlideView { slide_id: self.slide_id@, languages: self.languages.deep_view() }
    }
}

/// One text field of a gitsawe.
pub open spec fn reading(gitsawe: GitsaweView, field: ReadingField) -> Localized {
    match field {
        ReadingField::StPaul => gitsawe.message_st_paul,
        ReadingField::Apostle => gitsawe.message_apostle,
        ReadingField::BookOfActs => gitsawe.message_book_of_acts,
        ReadingField::Misbak => gitsawe.misbak,
        ReadingField::Wengel => gitsawe.wengel,
        ReadingField::ApostleEvangelist => gitsawe.message_apostle_evangelist,
    }
}

/// A verse in one language: its title, a line break and its text, or the
/// text alone where it has no title.
pub open spec fn verse_passage(verse: VerseView, language: Text) -> Text {
    let title = text_in(verse.title, language);
    let text = text_in(verse.text, language);
    if title.len() == 0 {
        text
    } else {
        title + seq!['\n'] + text
    }
}

/// The first `n` verses in one language, a line break between one verse and
/// the next.
pub open spec fn verses_text(verses: Seq<VerseView>, language: Text, n: int) -> Text
    decreases n,
{
    if n <= 0 {
        Seq::empty()
    } else if n == 1 {
        verse_passage(verses[0], language)
    } else {
        verses_text(verses, language, n - 1) + seq!['\n'] + verse_passage(
            verses[n - 1],
            language,
        )
    }
}

/// The text of a slot in one language, before placeholders are replaced.
pub open spec fn slot_text(slot: SlotSource, content: ResolvedContentView, language: Text) -> Text {
    match slot {
        SlotSource::Reading(field) => text_in(reading(content.gitsawe, field), language),
        SlotSource::Verses => verses_text(content.verses, language, content.verses.len() as int),
    }
}

/// Whether a slide takes its blocks from resolved content: it is dynamic
/// and a rule has brought content to it.
pub open spec fn takes_content(slide: SlideView, content: Option<ResolvedContentView>) -> bool {
    slide.is_dynamic && content is Some
}

/// The blocks of a slide in one language, before placeholders are
/// replaced.
pub open spec fn raw_blocks(
    slide: SlideView,
    layout: BlockLayoutView,
    content: Option<ResolvedContentView>,
    language: Text,
) -> Seq<Text> {
    if takes_content(slide, content) {
        Seq::new(
            layout.slots.len(),
            |k: int| slot_text(layout.slots[k], content->Some_0, language),
        )
    } else {
        Seq::new(slide.blocks.len(), |k: int| text_in(slide.blocks[k], language))
    }
}

/// The blocks with their placeholders replaced.
pub open spec fn rendered_blocks(
    raw: Seq<Text>,
    variables: Seq<VariableView>,
    language: Text,
) -> Seq<Text> {
    Seq::new(raw.len(), |k: int| expanded(raw[k], variables, language))
}

/// The names of the placeholders in the first `n` blocks that name no
/// variable.
pub open spec fn unresolved_in(raw: Seq<Text>, variables: Seq<VariableView>, n: int) -> Seq<Text>
    decreases n,
{
    if n <= 0 {
        Seq::empty()
    } else {
        unresolved_in(raw, variables, n - 1) + unresolved(raw[n - 1], variables)
    }
}

/// A slide rendered in one language.
pub open spec fn rendered_language(
    slide: SlideView,
    layout: BlockLayoutView,
    content: Option<ResolvedContentView>,
    variables: Seq<VariableView>,
    language: Text,
) -> RenderedLanguageView {
    let title = text_in(slide.title, language);
    let footer = text_in(slide.footer, language);
    let raw = raw_blocks(slide, layout, content, language);
    RenderedLanguageView {
        language,
        title: expanded(title, variables, language),
        blocks: rendered_blocks(raw, variables, language),
        footer: expanded(footer, variables, language),
        unresolved: unresolved(title, variables) + unresolved_in(
            raw,
            variables,
            raw.len() as int,
        ) + unresolved(footer, variables),
    }
}

/// A slide rendered in every language of the language map, in its order.
pub open spec fn rendered_slide(
    slide: SlideView,
    layout: BlockLayoutView,
    content: Option<ResolvedContentView>,
    variables: Seq<VariableView>,
    language_map: Seq<Text>,
) -> RenderedSlideView {
    RenderedSlideView {
        slide_id: slide.id,
        languages: Seq::new(
            language_map.len(),
            |k: int| rendered_language(slide, layout, content, variables, language_map[k]),
        ),
    }
}

impl Gitsawe {
    /// One text field of the gitsawe.
    pub fn reading(&self, field: ReadingField) -> (text: &LocalizedText)
        ensures
            text.deep_view() == reading(self.deep_view(), field),
    {
        match field {
            ReadingField::StPaul => &self.message_st_paul,
            ReadingField::Apostle => &self.message_apostle,
            ReadingField::BookOfActs => &self.message_book_of_acts,
            ReadingField::Misbak => &self.misbak,
            ReadingField::Wengel => &self.wengel,
            ReadingField::ApostleEvangelist => &self.message_apostle_evangelist,
        }
    }
}

/// Joins verses in one language.
pub fn join_verses(verses: &Vec<&Verse>, language: &str) -> (joined: String)
    ensures
        joined@ == verses_text(verses.deep_view(), language@, verses.len() as int),
{
    let mut joined = String::new();
    let mut n: usize = 0;
    proof {
        reveal_strlit("\n");
    }
    while n < verses.len()
        invariant
            n <= verses.len(),
            "\n"@ =~= seq!['\n'],
            joined@ == verses_text(verses.deep_view(), language@, n as int),
        decreases verses.len() - n,
    {
        let ghost before = joined@;
        let ghost verse = verses.deep_view()[n as int];
        assert(verse == verses@[n as int].deep_view());
        if n > 0 {
            joined.append("\n");
        }
        let title = verses[n].title.get(language);
        let text = verses[n].text.get(language);
        if title.unicode_len() > 0 {
            joined.append(title);
            joined.append("\n");
        }
        joined.append(text);
        proof {
            let passage = verse_passage(verse, language@);
            if n > 0 {
                if title@.len() > 0 {
                    assert(joined@ =~= before + seq!['\n'] + passage);
                } else {
                    assert(joined@ =~= before + seq!['\n'] + passage);
                }
            } else {
                assert(before =~= Seq::<char>::empty());
                assert(joined@ =~= passage);
            }
        }
        n = n + 1;
    }
    joined
}

/// The blocks of a slide in one language, before placeholders are
/// replaced.
pub fn block_texts(
    slide: &Slide,
    layout: &BlockLayout,
    content: Option<&ResolvedContent>,
    language: &str,
) -> (raw: Vec<String>)
    ensures
        raw.deep_view() == raw_blocks(
            slide.deep_view(),
            layout.deep_view(),
            content.deep_view(),
            language@,
        ),
{
    let mut raw: Vec<String> = Vec::new();
    match content {
        Some(resolved) if slide.is_dynamic => {
            let mut k: usize = 0;
            while k < layout.slots.len()
                invariant
                    k <= layout.slots.len(),
                    slide.is_dynamic,
                    content == Some(resolved),
                    raw.deep_view() =~= raw_blocks(
                        slide.deep_view(),
                        layout.deep_view(),
                        content.deep_view(),
                        language@,
                    ).take(k as int),
                decreases layout.slots.len() - k,
            {
                let ghost before = raw.deep_view();
                let text = match layout.slots[k] {
                    SlotSource::Reading(field) => String::from_str(
                        resolved.gitsawe.reading(field).get(language),
                    ),
                    SlotSource::Verses => join_verses(&resolved.verses, language),
                };
                raw.push(text);
                assert(raw.deep_view() =~= before.push(text@));
                k = k + 1;
            }
        },
        _ => {
            let mut k: usize = 0;
            while k < slide.blocks.len()
                invariant
                    k <= slide.blocks.len(),
                    !takes_content(slide.deep_view(), content.deep_view()),
                    raw.deep_view() =~= raw_blocks(
                        slide.deep_view(),
                        layout.deep_view(),
                        content.deep_view(),
                        language@,
                    ).take(k as int),
                decreases slide.blocks.len() - k,
            {
                let ghost before = raw.deep_view();
                let text = String::from_str(slide.blocks[k].get(language));
                raw.push(text);
                assert(raw.deep_view() =~= before.push(text@));
                k = k + 1;
            }
        },
    }
    raw
}

/// Renders a slide in one language.
pub fn render_language(
    slide: &Slide,
    layout: &BlockLayout,
    content: Option<&ResolvedContent>,
    variables: &Vec<Variable>,
    language: &str,
) -> (rendered: RenderedLanguage)
    ensures
        rendered.deep_view() == rendered_language(
            slide.deep_view(),
            layout.deep_view(),
            content.deep_view(),
            variables.deep_view(),
            language@,
        ),
{
    let (title, mut warnings) = substitute(slide.title.get(language), variables, language);
    let raw = block_texts(slide, layout, content, language);
    let mut blocks: Vec<String> = Vec::new();
    let ghost title_warnings = warnings.deep_view();
    let mut k: usize = 0;
    while k < raw.len()
        invariant
            k <= raw.len(),
            blocks.deep_view() =~= rendered_blocks(
                raw.deep_view(),
                variables.deep_view(),
                language@,
            ).take(k as int),
            warnings.deep_view() =~= title_warnings + unresolved_in(
                raw.deep_view(),
                variables.deep_view(),
                k as int,
            ),
        decreases raw.len() - k,
    {
        let ghost blocks_before = blocks.deep_view();
        let ghost warnings_before = warnings.deep_view();
        let (block, mut missing) = substitute(raw[k].as_str(), variables, language);
        let ghost added = missing.deep_view();
        assert(raw.deep_view()[k as int] == raw@[k as int]@);
        blocks.push(block);
        warnings.append(&mut missing);
        proof {
            assert(blocks.deep_view() =~= blocks_before.push(block@));
            assert(warnings.deep_view() =~= warnings_before + added);
        }
        k = k + 1;
    }
    let ghost block_warnings = warnings.deep_view();
    let (footer, mut missing) = substitute(slide.footer.get(language), variables, language);
    let ghost added = missing.deep_view();
    warnings.append(&mut missing);
    proof {
        assert(warnings.deep_view() =~= block_warnings + added);
        assert(blocks.deep_view() =~= rendered_blocks(
            raw.deep_view(),
            variables.deep_view(),
            language@,
        ));
    }
    RenderedLanguage {
        language: String::from_str(language),
        title,
        blocks,
        footer,
        unresolved: warnings,
    }
}

/// Assembles the render-ready form of a slide.
///
/// `content` is what the winning rule has brought, if a rule has won. It
/// counts on a dynamic slide only; a dynamic slide without content, like
/// every slide that is not dynamic, renders its authored blocks.
pub fn assemble_slide(
    slide: &Slide,
    layout: &BlockLayout,
    content: Option<&ResolvedContent>,
    variables: &Vec<Variable>,
    language_map: &Vec<String>,
) -> (rendered: RenderedSlide)
    ensures
        rendered.deep_view() == rendered_slide(
            slide.deep_view(),
            layout.deep_view(),
            content.deep_view(),
            variables.deep_view(),
            language_map.deep_view(),
        ),
{
    let mut languages: Vec<RenderedLanguage> = Vec::new();
    let mut k: usize = 0;
    while k < language_map.len()
        invariant
            k <= language_map.len(),
            languages.deep_view() =~= rendered_slide(
                slide.deep_view(),
                layout.deep_view(),
                content.deep_view(),
                variables.deep_view(),
                language_map.deep_view(),
            ).languages.take(k as int),
        decreases language_map.len() - k,
    {
        let ghost before = languages.deep_view();
        let rendered = render_language(
            slide,
            layout,
            content,
            variables,
            language_map[k].as_str(),
        );
        assert(language_map.deep_view()[k as int] == language_map@[k as int]@);
        languages.push(rendered);
        assert(languages.deep_view() =~= before.push(rendered.deep_view()));
        k = k + 1;
    }
    assert(languages.deep_view() =~= rendered_slide(
        slide.deep_view(),
        layout.deep_view(),
        content.deep_view(),
        variables.deep_view(),
        language_map.deep_view(),
    ).languages);
    RenderedSlide { slide_id: slide.id.clone(), languages }
}

} // verus!
