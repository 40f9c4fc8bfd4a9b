use woasobi::greeting::greet;

#[test]
fn greets_by_name() {
    assert_eq!(greet("Ada"), "Hello, Ada! You've been greeted from Rust!");
}

#[test]
fn greets_empty_name() {
    assert_eq!(greet(""), "Hello, ! You've been greeted from Rust!");
}
