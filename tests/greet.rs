use meebible::greet::greet;

#[test]
fn greets_world() {
    assert_eq!(greet("World"), "Hello, World! You've been greeted from Rust!");
}

#[test]
fn greets_empty_name() {
    assert_eq!(greet(""), "Hello, ! You've been greeted from Rust!");
}

#[test]
fn greets_any_text_verbatim() {
    assert_eq!(greet("Ωμέγα, {x}"), "Hello, Ωμέγα, {x}! You've been greeted from Rust!");
}
