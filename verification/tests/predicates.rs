use kidase_presentation::predicate::{Context, ContextValue, Predicate};

fn context() -> Context {
    Context {
        fields: vec![
            ("season".to_string(), ContextValue::Text("lent".to_string())),
            ("day".to_string(), ContextValue::Int(12)),
            ("season".to_string(), ContextValue::Text("easter".to_string())),
        ],
    }
}

fn equals_text(field: &str, value: &str) -> Predicate {
    Predicate::Equals { field: field.to_string(), value: ContextValue::Text(value.to_string()) }
}

fn equals_int(field: &str, value: i64) -> Predicate {
    Predicate::Equals { field: field.to_string(), value: ContextValue::Int(value) }
}

fn in_range(field: &str, low: i64, high: i64) -> Predicate {
    Predicate::InRange { field: field.to_string(), low, high }
}

#[test]
fn always_holds() {
    assert!(Predicate::Always.evaluate(&context()));
    assert!(Predicate::Always.evaluate(&Context { fields: vec![] }));
}

#[test]
fn context_gives_the_first_value_of_a_field() {
    let context = context();
    assert_eq!(context.get("season"), Some(&ContextValue::Text("lent".to_string())));
    assert_eq!(context.get("day"), Some(&ContextValue::Int(12)));
    assert_eq!(context.get("feast"), None);
}

#[test]
fn values_are_the_same_only_within_their_kind() {
    assert!(ContextValue::Int(3).same_as(&ContextValue::Int(3)));
    assert!(!ContextValue::Int(3).same_as(&ContextValue::Int(4)));
    assert!(ContextValue::Text("3".to_string()).same_as(&ContextValue::Text("3".to_string())));
    assert!(!ContextValue::Text("3".to_string()).same_as(&ContextValue::Int(3)));
    assert!(!ContextValue::Int(3).same_as(&ContextValue::Text("3".to_string())));
}

#[test]
fn equality_compares_with_the_field() {
    assert!(equals_text("season", "lent").evaluate(&context()));
    assert!(!equals_text("season", "easter").evaluate(&context()));
    assert!(equals_int("day", 12).evaluate(&context()));
    assert!(!equals_int("day", 13).evaluate(&context()));
    assert!(!equals_text("day", "12").evaluate(&context()));
}

#[test]
fn a_missing_field_makes_a_comparison_false() {
    assert!(!equals_text("feast", "epiphany").evaluate(&context()));
    assert!(!in_range("week", 1, 8).evaluate(&context()));
}

#[test]
fn negation_of_a_comparison_with_a_missing_field_is_true() {
    let predicate = Predicate::Not(Box::new(equals_text("feast", "epiphany")));
    assert!(predicate.evaluate(&context()));
}

#[test]
fn ranges_include_their_bounds() {
    assert!(in_range("day", 12, 12).evaluate(&context()));
    assert!(in_range("day", 1, 12).evaluate(&context()));
    assert!(in_range("day", 12, 30).evaluate(&context()));
    assert!(!in_range("day", 13, 30).evaluate(&context()));
    assert!(!in_range("day", 1, 11).evaluate(&context()));
    assert!(!in_range("day", 13, 11).evaluate(&context()));
}

#[test]
fn a_range_over_text_is_false() {
    assert!(!in_range("season", i64::MIN, i64::MAX).evaluate(&context()));
}

#[test]
fn all_needs_every_part() {
    assert!(Predicate::All(vec![]).evaluate(&context()));
    assert!(Predicate::All(vec![equals_text("season", "lent"), in_range("day", 10, 20)])
        .evaluate(&context()));
    assert!(!Predicate::All(vec![equals_text("season", "lent"), in_range("day", 13, 20)])
        .evaluate(&context()));
    assert!(!Predicate::All(vec![equals_text("feast", "x"), Predicate::Always])
        .evaluate(&context()));
}

#[test]
fn any_needs_one_part() {
    assert!(!Predicate::Any(vec![]).evaluate(&context()));
    assert!(Predicate::Any(vec![equals_text("season", "easter"), in_range("day", 10, 20)])
        .evaluate(&context()));
    assert!(!Predicate::Any(vec![equals_text("season", "easter"), in_range("day", 13, 20)])
        .evaluate(&context()));
}

#[test]
fn trees_nest() {
    let predicate = Predicate::All(vec![
        Predicate::Any(vec![equals_text("season", "advent"), equals_text("season", "lent")]),
        Predicate::Not(Box::new(Predicate::Any(vec![in_range("day", 1, 5), in_range("day", 20, 30)]))),
    ]);
    assert!(predicate.evaluate(&context()));
    let other = Context {
        fields: vec![
            ("season".to_string(), ContextValue::Text("lent".to_string())),
            ("day".to_string(), ContextValue::Int(3)),
        ],
    };
    assert!(!predicate.evaluate(&other));
}
