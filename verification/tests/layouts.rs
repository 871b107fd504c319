use kidase_presentation::error::AssemblyError;
use kidase_presentation::layout::{check_presentation, find_template, resolve_layout};
use kidase_presentation::model::{
    BlockLayout, LocalizedText, Presentation, ReadingField, Slide, SlotSource, Template,
    VerseDemand,
};

fn empty() -> LocalizedText {
    LocalizedText { entries: vec![] }
}

fn layout(slots: Vec<SlotSource>, verses: VerseDemand) -> BlockLayout {
    BlockLayout { slots, verses }
}

fn template(id: &str, max: usize, kinds: &[&str]) -> Template {
    Template {
        id: id.to_string(),
        max_language_count: max,
        definition: kinds
            .iter()
            .enumerate()
            .map(|(n, k)| {
                (
                    k.to_string(),
                    layout(vec![SlotSource::Reading(ReadingField::Wengel); n + 1], VerseDemand::Skip),
                )
            })
            .collect(),
    }
}

fn presentation(template_id: &str, languages: &[&str]) -> Presentation {
    Presentation {
        id: "p1".to_string(),
        presentation_type: "kidase".to_string(),
        template_id: template_id.to_string(),
        language_map: languages.iter().map(|l| l.to_string()).collect(),
        language_settings: empty(),
        is_active: true,
        is_primary: true,
    }
}

fn slide(kind: &str, template_override: Option<&str>) -> Slide {
    Slide {
        id: "s1".to_string(),
        presentation_id: "p1".to_string(),
        slide_order: 1,
        line_id: None,
        kind: kind.to_string(),
        title: empty(),
        blocks: vec![],
        footer: empty(),
        is_dynamic: false,
        is_disabled: false,
        template_override_id: template_override.map(|t| t.to_string()),
    }
}

fn templates() -> Vec<Template> {
    vec![
        template("wide", 4, &["text", "reading"]),
        template("narrow", 2, &["text", "hymn", "text"]),
        template("wide", 1, &["late"]),
    ]
}

#[test]
fn the_first_template_of_an_identity_counts() {
    assert_eq!(find_template(&templates(), "wide"), Some(0));
    assert_eq!(find_template(&templates(), "narrow"), Some(1));
    assert_eq!(find_template(&templates(), "tall"), None);
}

#[test]
fn the_template_of_the_presentation_gives_the_layout() {
    let templates = templates();
    let result = resolve_layout(&presentation("wide", &["gez", "am"]), &slide("reading", None), &templates);
    assert_eq!(result, Ok(&templates[0].definition[1].1));
    assert_eq!(result.unwrap().slots.len(), 2);
}

#[test]
fn an_override_takes_the_place_of_the_template() {
    let templates = templates();
    let result = resolve_layout(&presentation("wide", &["gez", "am"]), &slide("hymn", Some("narrow")), &templates);
    assert_eq!(result, Ok(&templates[1].definition[1].1));
}

#[test]
fn an_override_that_names_no_template_is_passed_over() {
    let templates = templates();
    let result = resolve_layout(&presentation("wide", &["gez"]), &slide("text", Some("tall")), &templates);
    assert_eq!(result, Ok(&templates[0].definition[0].1));
}

#[test]
fn the_first_layout_of_a_kind_counts() {
    let templates = templates();
    let result = resolve_layout(&presentation("narrow", &["gez"]), &slide("text", None), &templates);
    assert_eq!(result, Ok(&templates[1].definition[0].1));
    assert_eq!(result.unwrap().slots.len(), 1);
}

#[test]
fn a_kind_without_layout_is_a_mismatch() {
    let templates = templates();
    let result = resolve_layout(&presentation("wide", &["gez"]), &slide("hymn", None), &templates);
    assert_eq!(result, Err(AssemblyError::UnknownKind));
    let result = resolve_layout(&presentation("wide", &["gez"]), &slide("reading", Some("narrow")), &templates);
    assert_eq!(result, Err(AssemblyError::UnknownKind));
}

#[test]
fn too_many_languages_are_a_mismatch() {
    let templates = templates();
    let five = presentation("wide", &["gez", "am", "en", "ti", "om"]);
    assert_eq!(resolve_layout(&five, &slide("text", None), &templates), Err(AssemblyError::TooManyLanguages));
    let three = presentation("wide", &["gez", "am", "en"]);
    assert!(resolve_layout(&three, &slide("text", None), &templates).is_ok());
    assert_eq!(
        resolve_layout(&three, &slide("text", Some("narrow")), &templates),
        Err(AssemblyError::TooManyLanguages)
    );
    let four = presentation("wide", &["gez", "am", "en", "ti"]);
    assert!(resolve_layout(&four, &slide("text", None), &templates).is_ok());
}

#[test]
fn the_language_bound_comes_before_the_kind() {
    let templates = templates();
    let three = presentation("narrow", &["gez", "am", "en"]);
    assert_eq!(resolve_layout(&three, &slide("reading", None), &templates), Err(AssemblyError::TooManyLanguages));
}

#[test]
fn a_missing_template_is_reported() {
    let templates = templates();
    let lost = presentation("tall", &["gez"]);
    assert_eq!(resolve_layout(&lost, &slide("text", None), &templates), Err(AssemblyError::TemplateNotFound));
    assert_eq!(resolve_layout(&lost, &slide("text", Some("missing")), &templates), Err(AssemblyError::TemplateNotFound));
    assert!(resolve_layout(&lost, &slide("text", Some("narrow")), &templates).is_ok());
    assert_eq!(resolve_layout(&lost, &slide("text", None), &Vec::new()), Err(AssemblyError::TemplateNotFound));
}

#[test]
fn a_presentation_is_checked_as_a_whole() {
    let templates = templates();
    assert_eq!(check_presentation(&presentation("wide", &["gez", "am", "en", "ti"]), &templates), Ok(()));
    assert_eq!(check_presentation(&presentation("wide", &[]), &templates), Ok(()));
    assert_eq!(
        check_presentation(&presentation("wide", &["gez", "am", "en", "ti", "om"]), &templates),
        Err(AssemblyError::TooManyLanguages)
    );
    assert_eq!(
        check_presentation(&presentation("narrow", &["gez", "am", "en"]), &templates),
        Err(AssemblyError::TooManyLanguages)
    );
    assert_eq!(check_presentation(&presentation("tall", &["gez"]), &templates), Err(AssemblyError::TemplateNotFound));
}

#[test]
fn a_template_gives_layouts_by_kind() {
    let wide = template("wide", 4, &["text", "reading"]);
    assert_eq!(wide.layout_for(4, "reading"), Ok(&wide.definition[1].1));
    assert_eq!(wide.layout_for(0, "text"), Ok(&wide.definition[0].1));
    assert_eq!(wide.layout_for(5, "text"), Err(AssemblyError::TooManyLanguages));
    assert_eq!(wide.layout_for(4, "Text"), Err(AssemblyError::UnknownKind));
}
