//! The gitsawe and verse lookup: what a winning rule brings to a slide.

use vstd::prelude::*;
use crate::arrange::{arrange, arrangement, is_arrangement, lemma_arrangement, positions};
use crate::error::AssemblyError;
use crate::index::{position_of, Text};
use crate::model::{Gitsawe, GitsaweView, RuleDefinition, RuleDefinitionView, Verse, VerseDemand, VerseView};
use crate::resolver::{find_gitsawe, gitsawe_ids};

verus! {

/// The content that a winning rule brings: its gitsawe and, where the slide
/// takes verses, the verses of the gitsawe's segment in order.
#[derive(Debug, PartialEq, Eq)]
pub struct ResolvedContent<'a> {
    pub gitsawe: &'a Gitsawe,
    pub verses: Vec<&'a Verse>,
}

/// Model of a [`ResolvedContent`].
pub struct ResolvedContentView {
    pub gitsawe: GitsaweView,
    pub verses: Seq<VerseView>,
}

impl<'a> DeepView for ResolvedContent<'a> {
    type V = ResolvedContentView;

    open spec fn deep_view(&self) -> ResolvedContentView {
        ResolvedContentView {
            gitsawe: self.gitsawe.deep_view(),
            verses: self.verses.deep_view(),
        }
    }
}

/// For each verse its order if it belongs to the segment, and nothing
/// otherwise.
pub open spec fn verse_keys(verses: Seq<VerseView>, segment: Text) -> Seq<Option<i64>> {
    Seq::new(
        verses.len(),
        |i: int|
            if verses[i].segment_id == segment {
                Some(verses[i].verse_order)
            } else {
                None
            },
    )
}

/// The verses of a segment by ascending order; verses of equal order stay
/// as the library has them.
pub open spec fn segment_verses(verses: Seq<VerseView>, segment: Text) -> Seq<VerseView> {
    let arranged = arrangement(verse_keys(verses, segment));
    Seq::new(arranged.len(), |k: int| verses[arranged[k]])
}

/// What a rule brings to a slide whose layout has the given demand for
/// verses.
///
/// A rule whose gitsawe does not exist brings a failure. The verses are
/// those filed under the gitsawe's line. A layout that requires verses
/// fails on a segment without any; a layout that only expands them accepts
/// it.
pub open spec fn resolved_content(
    rule: RuleDefinitionView,
    gitsawes: Seq<GitsaweView>,
    verses: Seq<VerseView>,
    demand: VerseDemand,
) -> Result<ResolvedContentView, AssemblyError> {
    match position_of(gitsawe_ids(gitsawes), rule.gitsawe_id) {
        None => Err(AssemblyError::GitsaweNotFound),
        Some(g) => {
            let found = segment_verses(verses, gitsawes[g].line_id);
            match demand {
                VerseDemand::Skip => Ok(
                    ResolvedContentView { gitsawe: gitsawes[g], verses: Seq::empty() },
                ),
                VerseDemand::Expand => Ok(
                    ResolvedContentView { gitsawe: gitsawes[g], verses: found },
                ),
                VerseDemand::Require => if found.len() == 0 {
                    Err(AssemblyError::VersesNotFound)
                } else {
                    Ok(ResolvedContentView { gitsawe: gitsawes[g], verses: found })
                },
            }
        },
    }
}

/// The verses of a segment are verses of the library that belong to the
/// segment, in ascending order, and every verse of the library that belongs
/// to the segment is among them.
pub proof fn lemma_segment_verses(verses: Seq<VerseView>, segment: Text)
    ensures
        forall|k: int|
            0 <= k < segment_verses(verses, segment).len() ==> (#[trigger] segment_verses(
                verses,
                segment,
            )[k]).segment_id == segment && verses.contains(segment_verses(verses, segment)[k]),
        forall|a: int, b: int|
            0 <= a < b < segment_verses(verses, segment).len() ==> (#[trigger] segment_verses(
                verses,
                segment,
            )[a]).verse_order <= (#[trigger] segment_verses(verses, segment)[b]).verse_order,
        forall|i: int|
            0 <= i < verses.len() && (#[trigger] verses[i]).segment_id == segment
                ==> segment_verses(verses, segment).contains(verses[i]),
{
    let keys = verse_keys(verses, segment);
    let arranged = arrangement(keys);
    let found = segment_verses(verses, segment);
    lemma_arrangement(keys);
    assert forall|k: int| 0 <= k < found.len() implies (#[trigger] found[k]).segment_id
        == segment && verses.contains(found[k]) by {
        assert(keys[arranged[k]] is Some);
        assert(verses[arranged[k]] == found[k]);
    }
    assert forall|a: int, b: int| 0 <= a < b < found.len() implies (#[trigger] found[a]).verse_order
        <= (#[trigger] found[b]).verse_order by {
        assert(keys[arranged[a]] is Some);
        assert(keys[arranged[b]] is Some);
        assert(crate::arrange::comes_before(keys, arranged[a], arranged[b]));
    }
    assert forall|i: int|
        0 <= i < verses.len() && (#[trigger] verses[i]).segment_id == segment implies found.contains(
        verses[i],
    ) by {
        assert(keys[i] is Some);
        let k = choose|k: int| 0 <= k < arranged.len() && arranged[k] == i;
        assert(found[k] == verses[i]);
    }
}

/// The verses of a segment, by ascending order.
pub fn collect_verses<'a>(verses: &'a Vec<Verse>, segment: &str) -> (found: Vec<&'a Verse>)
    ensures
        found.deep_view() == segment_verses(verses.deep_view(), segment@),
{
    let wanted = segment.to_owned();
    let mut keys: Vec<Option<i64>> = Vec::new();
    let mut i: usize = 0;
    while i < verses.len()
        invariant
            i <= verses.len(),
            wanted@ == segment@,
            keys@ =~= verse_keys(verses.deep_view(), segment@).take(i as int),
        decreases verses.len() - i,
    {
        if verses[i].segment_id == wanted {
            keys.push(Some(verses[i].verse_order));
        } else {
            keys.push(None);
        }
        i = i + 1;
    }
    assert(keys@ =~= verse_keys(verses.deep_view(), segment@));
    let arranged = arrange(&keys);
    proof {
        lemma_arrangement(keys@);
    }
    let mut found: Vec<&'a Verse> = Vec::new();
    let mut k: usize = 0;
    while k < arranged.len()
        invariant
            k <= arranged.len(),
            keys@.len() == verses.len(),
            positions(arranged@) == arrangement(keys@),
            is_arrangement(arrangement(keys@), keys@, keys@.len() as int),
            keys@ == verse_keys(verses.deep_view(), segment@),
            found.deep_view() =~= segment_verses(verses.deep_view(), segment@).take(k as int),
        decreases arranged.len() - k,
    {
        let ghost before = found.deep_view();
        assert(positions(arranged@)[k as int] == arranged@[k as int] as int);
        let at = arranged[k];
        found.push(&verses[at]);
        assert(found.deep_view() =~= before.push(verses@[at as int].deep_view()));
        k = k + 1;
    }
    assert(positions(arranged@).len() == arranged@.len());
    found
}

/// Looks up what a winning rule brings to a slide whose layout has the
/// given demand for verses.
pub fn lookup_content<'a>(
    rule: &RuleDefinition,
    gitsawes: &'a Vec<Gitsawe>,
    verses: &'a Vec<Verse>,
    demand: VerseDemand,
) -> (result: Result<ResolvedContent<'a>, AssemblyError>)
    ensures
        match result {
            Ok(content) => resolved_content(
                rule.deep_view(),
                gitsawes.deep_view(),
                verses.deep_view(),
                demand,
            ) == Ok::<ResolvedContentView, AssemblyError>(content.deep_view()),
            Err(error) => resolved_content(
                rule.deep_view(),
                gitsawes.deep_view(),
                verses.deep_view(),
                demand,
            ) == Err::<ResolvedContentView, AssemblyError>(error),
        },
{
    match find_gitsawe(gitsawes, rule.gitsawe_id.as_str()) {
        None => Err(AssemblyError::GitsaweNotFound),
        Some(g) => {
            let gitsawe = &gitsawes[g];
            match demand {
                VerseDemand::Skip => {
                    let none: Vec<&'a Verse> = Vec::new();
                    assert(none.deep_view() =~= Seq::<VerseView>::empty());
                    Ok(ResolvedContent { gitsawe, verses: none })
                },
                VerseDemand::Expand => {
                    let found = collect_verses(verses, gitsawe.line_id.as_str());
                    Ok(ResolvedContent { gitsawe, verses: found })
                },
                VerseDemand::Require => {
                    let found = collect_verses(verses, gitsawe.line_id.as_str());
                    if found.len() == 0 {
                        Err(AssemblyError::VersesNotFound)
                    } else {
                        Ok(ResolvedContent { gitsawe, verses: found })
                    }
                },
            }
        },
    }
}

} // verus!
