use mprvis::text::{same_text, starts_with};

#[test]
fn it_works() {
    assert_eq!(2 + 2, 4);
}

#[test]
fn prefix_checks_follow_characters() {
    assert!(starts_with("https://example.com", "https://"));
    assert!(!starts_with("http", "https://"));
    assert!(starts_with("abc", ""));
    assert!(same_text("Paused", "Paused"));
    assert!(!same_text("Paused", "Pause"));
}
