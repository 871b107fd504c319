use kidase_presentation::greeting::greet;

#[test]
fn greets_by_name() {
    assert_eq!(greet("Abba"), "Hello, Abba! You've been greeted from Rust!");
}

#[test]
fn greets_the_empty_name() {
    assert_eq!(greet(""), "Hello, ! You've been greeted from Rust!");
}

#[test]
fn greets_names_beyond_ascii() {
    assert_eq!(greet("ሰላም"), "Hello, ሰላም! You've been greeted from Rust!");
}
