use kidase_presentation::assemble::{
    assemble_slide, block_texts, join_verses, render_language, RenderedLanguage,
};
use kidase_presentation::content::ResolvedContent;
use kidase_presentation::model::{
    BlockLayout, Gitsawe, LocalizedText, ReadingField, Slide, SlotSource, Variable, Verse,
    VerseDemand,
};

fn localized(entries: &[(&str, &str)]) -> LocalizedText {
    LocalizedText {
        entries: entries.iter().map(|(l, t)| (l.to_string(), t.to_string())).collect(),
    }
}

fn strings(items: &[&str]) -> Vec<String> {
    items.iter().map(|s| s.to_string()).collect()
}

fn gitsawe() -> Gitsawe {
    Gitsawe {
        id: "g1".to_string(),
        line_id: "line-a".to_string(),
        message_st_paul: localized(&[("gez", "ጳውሎስ"), ("en", "Paul to {{church}}")]),
        message_apostle: localized(&[("en", "Peter")]),
        message_book_of_acts: localized(&[("en", "Acts")]),
        misbak: localized(&[("en", "Psalm")]),
        wengel: localized(&[("en", "Gospel of {{evangelist}}")]),
        message_apostle_evangelist: localized(&[("en", "John")]),
        kidase_type: "basil".to_string(),
        evangelist: "john".to_string(),
        gitsawe_type: "sunday".to_string(),
        priority: 1,
    }
}

fn verse(order: i64, title: &[(&str, &str)], text: &[(&str, &str)]) -> Verse {
    Verse {
        segment_id: "line-a".to_string(),
        verse_order: order,
        title: localized(title),
        text: localized(text),
    }
}

fn slide(is_dynamic: bool) -> Slide {
    Slide {
        id: "s1".to_string(),
        presentation_id: "p1".to_string(),
        slide_order: 1,
        line_id: Some("line-a".to_string()),
        kind: "reading".to_string(),
        title: localized(&[("gez", "ርእስ"), ("en", "Title for {{celebrant}}")]),
        blocks: vec![
            localized(&[("gez", "Celebrant: {{celebrant}}"), ("am", "unrelated text")]),
            localized(&[("en", "second {{nobody}}")]),
        ],
        footer: localized(&[("en", "Footer {{missing}}")]),
        is_dynamic,
        is_disabled: false,
        template_override_id: None,
    }
}

fn layout() -> BlockLayout {
    BlockLayout {
        slots: vec![
            SlotSource::Reading(ReadingField::StPaul),
            SlotSource::Verses,
            SlotSource::Reading(ReadingField::Wengel),
        ],
        verses: VerseDemand::Expand,
    }
}

fn variables() -> Vec<Variable> {
    let language_map = strings(&["gez", "am", "en"]);
    vec![
        Variable {
            name: "celebrant".to_string(),
            values: LocalizedText::from_slots(&language_map, &strings(&["Abba", "", "", ""])),
        },
        Variable { name: "church".to_string(), values: localized(&[("en", "Rome")]) },
    ]
}

#[test]
fn slots_become_text_by_language() {
    let from = LocalizedText::from_slots(&strings(&["gez", "am", "en"]), &strings(&["a", "b", "c", "d"]));
    assert_eq!(from, localized(&[("gez", "a"), ("am", "b"), ("en", "c")]));
    let from = LocalizedText::from_slots(&strings(&["gez", "am", "en"]), &strings(&["a"]));
    assert_eq!(from, localized(&[("gez", "a")]));
    let from = LocalizedText::from_slots(&strings(&[]), &strings(&["a"]));
    assert_eq!(from, localized(&[]));
}

#[test]
fn text_is_found_by_language() {
    let text = localized(&[("gez", "a"), ("en", "b"), ("gez", "c")]);
    assert_eq!(text.get("gez"), "a");
    assert_eq!(text.get("en"), "b");
    assert_eq!(text.get("am"), "");
    assert_eq!(localized(&[]).get("gez"), "");
}

#[test]
fn a_gitsawe_gives_its_fields_by_category() {
    let g = gitsawe();
    assert_eq!(g.reading(ReadingField::StPaul).get("gez"), "ጳውሎስ");
    assert_eq!(g.reading(ReadingField::Apostle).get("en"), "Peter");
    assert_eq!(g.reading(ReadingField::BookOfActs).get("en"), "Acts");
    assert_eq!(g.reading(ReadingField::Misbak).get("en"), "Psalm");
    assert_eq!(g.reading(ReadingField::Wengel).get("en"), "Gospel of {{evangelist}}");
    assert_eq!(g.reading(ReadingField::ApostleEvangelist).get("en"), "John");
}

#[test]
fn verses_are_joined_by_line_breaks() {
    let v1 = verse(1, &[("en", "One")], &[("en", "first"), ("gez", "ቀዳማይ")]);
    let v2 = verse(2, &[], &[("en", "second")]);
    let v3 = verse(3, &[("en", "Three")], &[]);
    assert_eq!(join_verses(&vec![&v1, &v2, &v3], "en"), "One\nfirst\nsecond\nThree\n");
    assert_eq!(join_verses(&vec![&v1, &v2, &v3], "gez"), "ቀዳማይ\n\n");
    assert_eq!(join_verses(&vec![&v1], "en"), "One\nfirst");
    assert_eq!(join_verses(&vec![&v2], "en"), "second");
    assert_eq!(join_verses(&vec![], "en"), "");
}

#[test]
fn variable_substitution_round_trip() {
    let rendered = assemble_slide(&slide(false), &layout(), None, &variables(), &strings(&["gez", "am", "en"]));
    assert_eq!(rendered.slide_id, "s1");
    assert_eq!(rendered.languages.len(), 3);
    assert_eq!(rendered.languages[0].language, "gez");
    assert_eq!(rendered.languages[0].blocks[0], "Celebrant: Abba");
    assert!(rendered.languages[0].blocks[0].contains("Abba"));
    assert_eq!(rendered.languages[1].language, "am");
    assert_eq!(rendered.languages[1].blocks[0], "unrelated text");
    assert_eq!(rendered.languages[2].blocks[0], "");
}

#[test]
fn a_static_slide_renders_its_authored_content() {
    let g = gitsawe();
    let content = ResolvedContent { gitsawe: &g, verses: vec![] };
    let expected = RenderedLanguage {
        language: "en".to_string(),
        title: "Title for ".to_string(),
        blocks: strings(&["", "second {{nobody}}"]),
        footer: "Footer {{missing}}".to_string(),
        unresolved: strings(&["nobody", "missing"]),
    };
    assert_eq!(render_language(&slide(false), &layout(), None, &variables(), "en"), expected);
    assert_eq!(render_language(&slide(false), &layout(), Some(&content), &variables(), "en"), expected);
}

#[test]
fn fallback() {
    let languages = strings(&["gez", "am", "en"]);
    let dynamic = assemble_slide(&slide(true), &layout(), None, &variables(), &languages);
    let fixed = assemble_slide(&slide(false), &layout(), None, &variables(), &languages);
    assert_eq!(dynamic, fixed);
    assert_eq!(dynamic.languages[0].blocks, strings(&["Celebrant: Abba", ""]));
    assert_eq!(dynamic.languages[1].blocks, strings(&["unrelated text", ""]));
    assert_eq!(dynamic.languages[2].blocks, strings(&["", "second {{nobody}}"]));
    assert_eq!(block_texts(&slide(true), &layout(), None, "gez"), strings(&["Celebrant: {{celebrant}}", ""]));
}

#[test]
fn a_dynamic_slide_renders_what_the_rule_brought() {
    let g = gitsawe();
    let v1 = verse(1, &[("en", "One")], &[("en", "first")]);
    let v2 = verse(2, &[], &[("en", "second for {{celebrant}}")]);
    let content = ResolvedContent { gitsawe: &g, verses: vec![&v1, &v2] };
    let rendered = render_language(&slide(true), &layout(), Some(&content), &variables(), "en");
    let expected = RenderedLanguage {
        language: "en".to_string(),
        title: "Title for ".to_string(),
        blocks: strings(&["Paul to Rome", "One\nfirst\nsecond for ", "Gospel of {{evangelist}}"]),
        footer: "Footer {{missing}}".to_string(),
        unresolved: strings(&["evangelist", "missing"]),
    };
    assert_eq!(rendered, expected);
    let rendered = render_language(&slide(true), &layout(), Some(&content), &variables(), "gez");
    assert_eq!(rendered.title, "ርእስ");
    assert_eq!(rendered.blocks, strings(&["ጳውሎስ", "\n", ""]));
    assert_eq!(rendered.footer, "");
    assert_eq!(rendered.unresolved, strings(&[]));
}

#[test]
fn raw_blocks_follow_the_layout() {
    let g = gitsawe();
    let v1 = verse(1, &[], &[("en", "first")]);
    let content = ResolvedContent { gitsawe: &g, verses: vec![&v1] };
    assert_eq!(
        block_texts(&slide(true), &layout(), Some(&content), "en"),
        strings(&["Paul to {{church}}", "first", "Gospel of {{evangelist}}"])
    );
    let bare = BlockLayout { slots: vec![], verses: VerseDemand::Skip };
    assert_eq!(block_texts(&slide(true), &bare, Some(&content), "en"), strings(&[]));
    assert_eq!(block_texts(&slide(false), &bare, Some(&content), "en"), strings(&["", "second {{nobody}}"]));
}

#[test]
fn a_slide_without_language_renders_nothing() {
    let rendered = assemble_slide(&slide(false), &layout(), None, &variables(), &strings(&[]));
    assert_eq!(rendered.slide_id, "s1");
    assert!(rendered.languages.is_empty());
}

#[test]
fn languages_render_in_the_order_of_the_map() {
    let rendered = assemble_slide(&slide(false), &layout(), None, &variables(), &strings(&["en", "gez"]));
    let order: Vec<&str> = rendered.languages.iter().map(|l| l.language.as_str()).collect();
    assert_eq!(order, vec!["en", "gez"]);
    assert_eq!(rendered.languages[1].title, "ርእስ");
}
