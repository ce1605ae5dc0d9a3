use trex::{init_action, is_affirmative, is_yes, InitAction, CONFTEST_FILE_NAME, CONFTEST_TEMPLATE};

#[test]
fn affirmative_answers() {
    assert!(is_affirmative("y\n"));
    assert!(is_affirmative("yes\n"));
    assert!(is_affirmative("  YES \r\n"));
    assert!(is_affirmative("Y"));
    assert!(!is_affirmative("n\n"));
    assert!(!is_affirmative(""));
    assert!(!is_affirmative("yess"));
    assert!(!is_affirmative("y e s"));
}

#[test]
fn yes_check_on_normalized_answers() {
    assert!(is_yes("y"));
    assert!(is_yes("yes"));
    assert!(!is_yes("Y"));
    assert!(!is_yes(" y"));
    assert!(!is_yes("ye"));
}

#[test]
fn init_decisions() {
    assert_eq!(init_action(true, "y\n"), InitAction::AlreadyPresent);
    assert_eq!(init_action(false, "y\n"), InitAction::Write);
    assert_eq!(init_action(false, "n\n"), InitAction::Skip);
}

#[test]
fn template_holds_plugin_hooks() {
    assert_eq!(CONFTEST_FILE_NAME, "conftest.py");
    assert!(CONFTEST_TEMPLATE.contains("pytest_configure"));
    assert!(CONFTEST_TEMPLATE.contains("pytest_collection_modifyitems"));
}
