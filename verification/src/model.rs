//! The records that resolution reads, each with its mathematical model.
//!
//! Every record is an immutable fact for the duration of one run. Records are
//! found by textual identity; where several records carry the same identity
//! the first one is the one that counts.

use vstd::prelude::*;
use crate::index::{position_from, position_of, Text};
use crate::predicate::{Predicate, PredicateView};

verus! {

/// Text in several languages: pairs of language code and text.
///
/// A language without an entry has the empty text.
#[derive(Debug, PartialEq, Eq)]
pub struct LocalizedText {
    pub entries: Vec<(String, String)>,
}

/// Model of a [`LocalizedText`]: pairs of language code and text.
pub type Localized = Seq<(Text, Text)>;

impl DeepView for LocalizedText {
    type V = Localized;

    open spec fn deep_view(&self) -> Localized {
        self.entries.deep_view()
    }
}

/// The language codes of the entries, in order.
pub open spec fn languages_of(localized: Localized) -> Seq<Text> {
    Seq::new(localized.len(), |i: int| localized[i].0)
}

/// The text for a language: that of the first entry for it, and the empty
/// text where there is none.
pub open spec fn text_in(localized: Localized, language: Text) -> Text {
    match position_of(languages_of(localized), language) {
        Some(i) => localized[i].1,
        None => Seq::empty(),
    }
}

/// The texts of numbered language slots as text by language: the text of
/// slot `k` belongs to the `k`th language of the language map. Slots
/// without a language, and languages without a slot, have no entry.
pub open spec fn from_slots(language_map: Seq<Text>, slots: Seq<Text>) -> Localized {
    Seq::new(
        if language_map.len() <= slots.len() {
            language_map.len()
        } else {
            slots.len()
        },
        |k: int| (language_map[k], slots[k]),
    )
}

impl LocalizedText {
    /// Text by language from the texts of numbered language slots, the
    /// first slot being that of the first language of the language map.
    pub fn from_slots(language_map: &Vec<String>, slots: &Vec<String>) -> (localized:
        LocalizedText)
        ensures
            localized.deep_view() == from_slots(language_map.deep_view(), slots.deep_view()),
    {
        let count = if language_map.len() <= slots.len() {
            language_map.len()
        } else {
            slots.len()
        };
        let mut entries: Vec<(String, String)> = Vec::new();
        let mut k: usize = 0;
        while k < count
            invariant
                k <= count,
                count <= language_map.len(),
                count <= slots.len(),
                entries.deep_view() =~= from_slots(
                    language_map.deep_view(),
                    slots.deep_view(),
                ).take(k as int),
            decreases count - k,
        {
            let ghost before = entries.deep_view();
            let entry = (language_map[k].clone(), slots[k].clone());
            entries.push(entry);
            assert(entries.deep_view() =~= before.push((language_map@[k as int]@, slots@[k as int]@)));
            k = k + 1;
        }
        assert(entries.deep_view() =~= from_slots(language_map.deep_view(), slots.deep_view()));
        LocalizedText { entries }
    }

    /// The text for a language, empty where none is set.
    pub fn get(&self, language: &str) -> (text: &str)
        ensures
            text@ == text_in(self.deep_view(), language@),
    {
        let wanted = language.to_owned();
        let mut i: usize = 0;
        while i < self.entries.len()
            invariant
                i <= self.entries.len(),
                wanted@ == language@,
                position_of(languages_of(self.deep_view()), language@) == position_from(
                    languages_of(self.deep_view()),
                    language@,
                    i as int,
                ),
            decreases self.entries.len() - i,
        {
            if self.entries[i].0 == wanted {
                return self.entries[i].1.as_str();
            }
            i = i + 1;
        }
        proof {
            reveal_strlit("");
        }
        assert(""@ =~= Seq::<char>::empty());
        ""
    }
}

/// The text fields of a gitsawe, by category.
#[derive(Clone, Copy, Debug, PartialEq, Eq, Structural)]
pub enum ReadingField {
    StPaul,
    Apostle,
    BookOfActs,
    Misbak,
    Wengel,
    ApostleEvangelist,
}

/// An appointed liturgical reading.
#[derive(Debug, PartialEq, Eq)]
pub struct Gitsawe {
    pub id: String,
    /// The calendar line of the reading; its verses are filed under it.
    pub line_id: String,
    pub message_st_paul: LocalizedText,
    pub message_apostle: LocalizedText,
    pub message_book_of_acts: LocalizedText,
    pub misbak: LocalizedText,
    pub wengel: LocalizedText,
    pub message_apostle_evangelist: LocalizedText,
    pub kidase_type: String,
    pub evangelist: String,
    pub gitsawe_type: String,
    /// Precedence among readings: a lower number is stronger.
    pub priority: i64,
}

/// Model of a [`Gitsawe`].
pub struct GitsaweView {
    pub id: Text,
    pub line_id: Text,
    pub message_st_paul: Localized,
    pub message_apostle: Localized,
    pub message_book_of_acts: Localized,
    pub misbak: Localized,
    pub wengel: Localized,
    pub message_apostle_evangelist: Localized,
    pub kidase_type: Text,
    pub evangelist: Text,
    pub gitsawe_type: Text,
    pub priority: i64,
}

impl DeepView for Gitsawe {
    type V = GitsaweView;

    open spec fn deep_view(&self) -> GitsaweView {
        GitsaweView {
            id: self.id@,
            line_id: self.line_id@,
            message_st_paul: self.message_st_paul.deep_view(),
            message_apostle: self.message_apostle.deep_view(),
            message_book_of_acts: self.message_book_of_acts.deep_view(),
            misbak: self.misbak.deep_view(),
            wengel: self.wengel.deep_view(),
            message_apostle_evangelist: self.message_apostle_evangelist.deep_view(),
            kidase_type: self.kidase_type@,
            evangelist: self.evangelist@,
            gitsawe_type: self.gitsawe_type@,
            priority: self.priority,
        }
    }
}

/// One verse of a segment.
#[derive(Debug, PartialEq, Eq)]
pub struct Verse {
    pub segment_id: String,
    /// Position within the segment; verses render in ascending order.
    pub verse_order: i64,
    pub title: LocalizedText,
    pub text: LocalizedText,
}

/// Model of a [`Verse`].
pub struct VerseView {
    pub segment_id: Text,
    pub verse_order: i64,
    pub title: Localized,
    pub text: Localized,
}

impl DeepView for Verse {
    type V = VerseView;

    open spec fn deep_view(&self) -> VerseView {
        VerseView {
            segment_id: self.segment_id@,
            verse_order: self.verse_order,
            title: self.title.deep_view(),
            text: self.text.deep_view(),
        }
    }
}

/// A named value of a presentation, one text per language.
#[derive(Debug, PartialEq, Eq)]
pub struct Variable {
    pub name: String,
    pub values: LocalizedText,
}

/// Model of a [`Variable`].
pub struct VariableView {
    pub name: Text,
    pub values: Localized,
}

impl DeepView for Variable {
    type V = VariableView;

    open spec fn deep_view(&self) -> VariableView {
        VariableView { name: self.name@, values: self.values.deep_view() }
    }
}

/// What a rule is attached to: a whole presentation or one slide.
#[derive(Debug, PartialEq, Eq)]
pub enum Target {
    Presentation(String),
    Slide(String),
}

/// Model of a [`Target`].
pub enum TargetView {
    Presentation(Text),
    Slide(Text),
}

impl DeepView for Target {
    type V = TargetView;

    open spec fn deep_view(&self) -> TargetView {
        match self {
            Target::Presentation(id) => TargetView::Presentation(id@),
            Target::Slide(id) => TargetView::Slide(id@),
        }
    }
}

/// A rule that appoints a gitsawe to its target when its predicate holds.
#[derive(Debug, PartialEq, Eq)]
pub struct RuleDefinition {
    pub id: String,
    pub target: Target,
    pub predicate: Predicate,
    pub gitsawe_id: String,
    pub is_enabled: bool,
    /// When the rule was authored; a later rule has a larger value.
    pub created_at: i64,
}

/// Model of a [`RuleDefinition`].
pub struct RuleDefinitionView {
    pub id: Text,
    pub target: TargetView,
    pub predicate: PredicateView,
    pub gitsawe_id: Text,
    pub is_enabled: bool,
    pub created_at: i64,
}

impl DeepView for RuleDefinition {
    type V = RuleDefinitionView;

    open spec fn deep_view(&self) -> RuleDefinitionView {
        RuleDefinitionView {
            id: self.id@,
            target: self.target.deep_view(),
            predicate: self.predicate.model(),
            gitsawe_id: self.gitsawe_id@,
            is_enabled: self.is_enabled,
            created_at: self.created_at,
        }
    }
}

/// Where the text of a block slot comes from on a dynamic slide.
#[derive(Clone, Copy, Debug, PartialEq, Eq, Structural)]
pub enum SlotSource {
    /// One text field of the appointed gitsawe.
    Reading(ReadingField),
    /// The verses of the gitsawe, joined in order.
    Verses,
}

/// Whether a kind of slide takes verses.
#[derive(Clone, Copy, Debug, PartialEq, Eq, Structural)]
pub enum VerseDemand {
    /// The kind is not verse-sequenced.
    Skip,
    /// Verses are expanded; a segment without verses is accepted.
    Expand,
    /// Verses are expanded and at least one must exist.
    Require,
}

/// The block layout of one kind of slide.
#[derive(Debug, PartialEq, Eq)]
pub struct BlockLayout {
    pub slots: Vec<SlotSource>,
    pub verses: VerseDemand,
}

/// Model of a [`BlockLayout`].
pub struct BlockLayoutView {
    pub slots: Seq<SlotSource>,
    pub verses: VerseDemand,
}

impl DeepView for BlockLayout {
    type V = BlockLayoutView;

    open spec fn deep_view(&self) -> BlockLayoutView {
        BlockLayoutView { slots: self.slots@, verses: self.verses }
    }
}

/// A template: the block layouts of the kinds of slide it supports.
#[derive(Debug, PartialEq, Eq)]
pub struct Template {
    pub id: String,
    /// How many languages the template has room for (1 to 4).
    pub max_language_count: usize,
    /// Pairs of slide kind and layout.
    pub definition: Vec<(String, BlockLayout)>,
}

/// Model of a [`Template`].
pub struct TemplateView {
    pub id: Text,
    pub max_language_count: nat,
    pub definition: Seq<(Text, BlockLayoutView)>,
}

impl DeepView for Template {
    type V = TemplateView;

    open spec fn deep_view(&self) -> TemplateView {
        TemplateView {
            id: self.id@,
            max_language_count: self.max_language_count as nat,
            definition: self.definition.deep_view(),
        }
    }
}

/// A presentation.
#[derive(Debug, PartialEq, Eq)]
pub struct Presentation {
    pub id: String,
    pub presentation_type: String,
    pub template_id: String,
    /// The language codes of the presentation, in display order.
    pub language_map: Vec<String>,
    /// Formatting hints per language.
    pub language_settings: LocalizedText,
    pub is_active: bool,
    pub is_primary: bool,
}

/// Model of a [`Presentation`].
pub struct PresentationView {
    pub id: Text,
    pub presentation_type: Text,
    pub template_id: Text,
    pub language_map: Seq<Text>,
    pub language_settings: Localized,
    pub is_active: bool,
    pub is_primary: bool,
}

impl DeepView for Presentation {
    type V = PresentationView;

    open spec fn deep_view(&self) -> PresentationView {
        PresentationView {
            id: self.id@,
            presentation_type: self.presentation_type@,
            template_id: self.template_id@,
            language_map: self.language_map.deep_view(),
            language_settings: self.language_settings.deep_view(),
            is_active: self.is_active,
            is_primary: self.is_primary,
        }
    }
}

/// A slide of a presentation.
#[derive(Debug, PartialEq, Eq)]
pub struct Slide {
    pub id: String,
    pub presentation_id: String,
    /// Position in the presentation; slides render in ascending order.
    pub slide_order: i64,
    pub line_id: Option<String>,
    /// The kind of the slide, which selects its layout in the template.
    pub kind: String,
    pub title: LocalizedText,
    pub blocks: Vec<LocalizedText>,
    pub footer: LocalizedText,
    pub is_dynamic: bool,
    pub is_disabled: bool,
    pub template_override_id: Option<String>,
}

/// Model of a [`Slide`].
pub struct SlideView {
    pub id: Text,
    pub presentation_id: Text,
    pub slide_order: i64,
    pub line_id: Option<Text>,
    pub kind: Text,
    pub title: Localized,
    pub blocks: Seq<Localized>,
    pub footer: Localized,
    pub is_dynamic: bool,
    pub is_disabled: bool,
    pub template_override_id: Option<Text>,
}

impl DeepView for Slide {
    type V = SlideView;

    open spec fn deep_view(&self) -> SlideView {
        SlideView {
            id: self.id@,
            presentation_id: self.presentation_id@,
            slide_order: self.slide_order,
            line_id: self.line_id.deep_view(),
            kind: self.kind@,
            title: self.title.deep_view(),
            blocks: self.blocks.deep_view(),
            footer: self.footer.deep_view(),
            is_dynamic: self.is_dynamic,
            is_disabled: self.is_disabled,
            template_override_id: self.template_override_id.deep_view(),
        }
    }
}

} // verus!
