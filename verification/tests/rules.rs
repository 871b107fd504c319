use kidase_presentation::matcher::match_rules;
use kidase_presentation::model::{Gitsawe, LocalizedText, RuleDefinition, Target};
use kidase_presentation::predicate::{Context, ContextValue, Predicate};
use kidase_presentation::resolver::{find_gitsawe, resolve_rule, rule_priority, select_winner};

fn empty() -> LocalizedText {
    LocalizedText { entries: vec![] }
}

fn gitsawe(id: &str, priority: i64) -> Gitsawe {
    Gitsawe {
        id: id.to_string(),
        line_id: format!("line-{}", id),
        message_st_paul: empty(),
        message_apostle: empty(),
        message_book_of_acts: empty(),
        misbak: empty(),
        wengel: empty(),
        message_apostle_evangelist: empty(),
        kidase_type: String::new(),
        evangelist: String::new(),
        gitsawe_type: String::new(),
        priority,
    }
}

fn rule(id: &str, target: Target, gitsawe_id: &str, created_at: i64) -> RuleDefinition {
    RuleDefinition {
        id: id.to_string(),
        target,
        predicate: Predicate::Always,
        gitsawe_id: gitsawe_id.to_string(),
        is_enabled: true,
        created_at,
    }
}

fn on_slide(id: &str) -> Target {
    Target::Slide(id.to_string())
}

fn on_presentation(id: &str) -> Target {
    Target::Presentation(id.to_string())
}

fn lent() -> Context {
    Context { fields: vec![("season".to_string(), ContextValue::Text("lent".to_string()))] }
}

fn in_season(season: &str) -> Predicate {
    Predicate::Equals {
        field: "season".to_string(),
        value: ContextValue::Text(season.to_string()),
    }
}

fn gitsawes() -> Vec<Gitsawe> {
    vec![gitsawe("g1", 1), gitsawe("g5", 5), gitsawe("g5b", 5), gitsawe("g9", 9), gitsawe("g1", 7)]
}

fn ids(rules: &[&RuleDefinition]) -> Vec<String> {
    rules.iter().map(|r| r.id.clone()).collect()
}

#[test]
fn targets_are_the_same_by_scope_and_identity() {
    assert!(on_slide("s").same_as(&on_slide("s")));
    assert!(!on_slide("s").same_as(&on_slide("t")));
    assert!(!on_slide("s").same_as(&on_presentation("s")));
    assert!(on_presentation("p").same_as(&on_presentation("p")));
}

#[test]
fn only_rules_of_the_target_match() {
    let rules = vec![
        rule("a", on_slide("s1"), "g1", 0),
        rule("b", on_slide("s2"), "g1", 0),
        rule("c", on_presentation("s1"), "g1", 0),
        rule("d", on_slide("s1"), "g5", 0),
    ];
    let found = match_rules(&rules, &on_slide("s1"), &lent());
    assert_eq!(ids(&found), vec!["a", "d"]);
    let found = match_rules(&rules, &on_presentation("s1"), &lent());
    assert_eq!(ids(&found), vec!["c"]);
    let found = match_rules(&rules, &on_slide("s3"), &lent());
    assert!(found.is_empty());
}

#[test]
fn a_disabled_rule_is_never_a_candidate() {
    let mut disabled = rule("a", on_slide("s1"), "g1", 0);
    disabled.is_enabled = false;
    let rules = vec![disabled, rule("b", on_slide("s1"), "g5", 0)];
    let found = match_rules(&rules, &on_slide("s1"), &lent());
    assert_eq!(ids(&found), vec!["b"]);
    assert!(!rules[0].applies_to(&on_slide("s1"), &lent()));
}

#[test]
fn the_predicate_must_hold() {
    let mut easter = rule("a", on_slide("s1"), "g1", 0);
    easter.predicate = in_season("easter");
    let mut fasting = rule("b", on_slide("s1"), "g5", 0);
    fasting.predicate = in_season("lent");
    let rules = vec![easter, fasting];
    assert_eq!(ids(&match_rules(&rules, &on_slide("s1"), &lent())), vec!["b"]);
    let nothing = Context { fields: vec![] };
    assert!(match_rules(&rules, &on_slide("s1"), &nothing).is_empty());
}

#[test]
fn no_candidate_no_winner() {
    assert_eq!(select_winner(&vec![], &gitsawes()), None);
}

#[test]
fn a_single_candidate_wins() {
    let only = rule("a", on_slide("s1"), "g9", 0);
    assert_eq!(select_winner(&vec![&only], &gitsawes()), Some(&only));
}

#[test]
fn priority() {
    let r1 = rule("r1", on_slide("s1"), "g1", 10);
    let r2 = rule("r2", on_slide("s1"), "g5", 20);
    assert_eq!(select_winner(&vec![&r1, &r2], &gitsawes()).map(|r| r.id.as_str()), Some("r1"));
    assert_eq!(select_winner(&vec![&r2, &r1], &gitsawes()).map(|r| r.id.as_str()), Some("r1"));
    assert!(r1.outranks(&r2, &gitsawes()));
    assert!(!r2.outranks(&r1, &gitsawes()));
}

#[test]
fn priority_through_the_whole_resolver() {
    let rules = vec![rule("r2", on_slide("s1"), "g5", 20), rule("r1", on_slide("s1"), "g1", 10)];
    let won = resolve_rule(&rules, &gitsawes(), &lent(), "p1", "s1");
    assert_eq!(won.map(|r| r.id.as_str()), Some("r1"));
}

#[test]
fn recency_tie_break() {
    let older = rule("a", on_slide("s1"), "g5", 100);
    let newer = rule("b", on_slide("s1"), "g5b", 200);
    assert_eq!(select_winner(&vec![&older, &newer], &gitsawes()).map(|r| r.id.as_str()), Some("b"));
    assert_eq!(select_winner(&vec![&newer, &older], &gitsawes()).map(|r| r.id.as_str()), Some("b"));
    let rules = vec![
        rule("a", on_slide("s1"), "g5", 100),
        rule("b", on_slide("s1"), "g5b", 200),
    ];
    let won = resolve_rule(&rules, &gitsawes(), &lent(), "p1", "s1");
    assert_eq!(won.map(|r| r.id.as_str()), Some("b"));
}

#[test]
fn recency_does_not_beat_priority() {
    let strong = rule("a", on_slide("s1"), "g1", 100);
    let recent = rule("b", on_slide("s1"), "g5", 900);
    assert_eq!(select_winner(&vec![&recent, &strong], &gitsawes()).map(|r| r.id.as_str()), Some("a"));
}

#[test]
fn identity_breaks_the_last_tie() {
    let b = rule("rule-b", on_slide("s1"), "g5", 100);
    let a = rule("rule-a", on_slide("s1"), "g5b", 100);
    let c = rule("rule-c", on_slide("s1"), "g5", 100);
    assert_eq!(select_winner(&vec![&b, &a, &c], &gitsawes()).map(|r| r.id.as_str()), Some("rule-a"));
    assert_eq!(select_winner(&vec![&c, &b, &a], &gitsawes()).map(|r| r.id.as_str()), Some("rule-a"));
    assert!(a.outranks(&b, &gitsawes()));
    assert!(!b.outranks(&a, &gitsawes()));
    assert!(!a.outranks(&a, &gitsawes()));
}

#[test]
fn a_rule_without_gitsawe_ranks_first() {
    let broken = rule("z", on_slide("s1"), "missing", 0);
    let sound = rule("a", on_slide("s1"), "g1", 900);
    assert_eq!(select_winner(&vec![&sound, &broken], &gitsawes()).map(|r| r.id.as_str()), Some("z"));
    assert_eq!(rule_priority(&broken, &gitsawes()), None);
    assert_eq!(rule_priority(&sound, &gitsawes()), Some(1));
}

#[test]
fn the_first_gitsawe_of_an_identity_counts() {
    assert_eq!(find_gitsawe(&gitsawes(), "g1"), Some(0));
    assert_eq!(find_gitsawe(&gitsawes(), "g9"), Some(3));
    assert_eq!(find_gitsawe(&gitsawes(), "g2"), None);
    let rule = rule("a", on_slide("s1"), "g1", 0);
    assert_eq!(rule_priority(&rule, &gitsawes()), Some(1));
}

#[test]
fn scope_precedence() {
    let rules = vec![
        rule("shared", on_presentation("p1"), "g1", 900),
        rule("own", on_slide("s1"), "g9", 0),
    ];
    let won = resolve_rule(&rules, &gitsawes(), &lent(), "p1", "s1");
    assert_eq!(won.map(|r| r.id.as_str()), Some("own"));
}

#[test]
fn the_presentation_is_asked_when_the_slide_has_no_rule() {
    let mut unfit = rule("own", on_slide("s1"), "g1", 0);
    unfit.predicate = in_season("easter");
    let rules = vec![
        unfit,
        rule("shared-5", on_presentation("p1"), "g5", 0),
        rule("shared-1", on_presentation("p1"), "g1", 0),
        rule("other", on_presentation("p2"), "g1", 0),
        rule("elsewhere", on_slide("s2"), "g1", 0),
    ];
    let won = resolve_rule(&rules, &gitsawes(), &lent(), "p1", "s1");
    assert_eq!(won.map(|r| r.id.as_str()), Some("shared-1"));
}

#[test]
fn no_rule_in_either_scope() {
    let rules = vec![rule("other", on_presentation("p2"), "g1", 0), rule("elsewhere", on_slide("s2"), "g1", 0)];
    assert_eq!(resolve_rule(&rules, &gitsawes(), &lent(), "p1", "s1"), None);
    assert_eq!(resolve_rule(&Vec::new(), &gitsawes(), &lent(), "p1", "s1"), None);
}

#[test]
fn a_slide_and_a_presentation_of_one_identity_are_apart() {
    let rules = vec![rule("shared", on_presentation("x"), "g1", 0)];
    assert_eq!(resolve_rule(&rules, &gitsawes(), &lent(), "p1", "x"), None);
    assert_eq!(resolve_rule(&rules, &gitsawes(), &lent(), "x", "s1").map(|r| r.id.as_str()), Some("shared"));
}
