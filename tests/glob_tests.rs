use trex::{glob_regex_text, glob_to_regex, GlobError};

#[test]
fn glob_to_regex_matches_test_py() {
    let re = glob_to_regex("test_*.py").unwrap();
    assert!(re.is_match("test_foo.py"));
    assert!(re.is_match("test_operations.py"));
    assert!(!re.is_match("foo.py"));
    assert!(!re.is_match("test_foo.txt"));
}

#[test]
fn glob_to_regex_star_and_dot_escaped() {
    let re = glob_to_regex("*.py").unwrap();
    assert!(re.is_match("a.py"));
    assert!(re.is_match("test_foo.py"));
    assert!(!re.is_match("axpy"));
}

#[test]
fn star_py_rejects_names_not_ending_in_py() {
    let re = glob_to_regex("*.py").unwrap();
    assert!(!re.is_match("a.pyc"));
    assert!(!re.is_match("a.PY"));
    assert!(!re.is_match("py"));
    assert!(re.is_match(".py"));
}

#[test]
fn literal_glob_accepts_only_itself() {
    let re = glob_to_regex("setup.cfg").unwrap();
    assert!(re.is_match("setup.cfg"));
    assert!(!re.is_match("setupxcfg"));
    assert!(!re.is_match("setup.cfg2"));
    assert!(!re.is_match("asetup.cfg"));
    assert!(!re.is_match(""));
    let re = glob_to_regex("a+b(c)").unwrap();
    assert!(re.is_match("a+b(c)"));
    assert!(!re.is_match("aab(c)"));
}

#[test]
fn question_mark_is_one_character() {
    let re = glob_to_regex("t?.py").unwrap();
    assert!(re.is_match("t1.py"));
    assert!(!re.is_match("t.py"));
    assert!(!re.is_match("t12.py"));
}

#[test]
fn empty_glob_accepts_only_empty_name() {
    let re = glob_to_regex("").unwrap();
    assert!(re.is_match(""));
    assert!(!re.is_match("a"));
}

#[test]
fn glob_keeps_its_text() {
    let re = glob_to_regex("test_*.py").unwrap();
    assert_eq!(re.glob(), "test_*.py");
}

#[test]
fn regex_text_of_globs() {
    assert_eq!(glob_regex_text("test_*.py"), "^test_.*\\.py$");
    assert_eq!(glob_regex_text("a?-b+"), "^a.-b\\+$");
    assert_eq!(glob_regex_text(""), "^$");
}

#[test]
fn non_ascii_and_angle_brackets_are_literal() {
    assert_eq!(glob_regex_text("t\u{e9}st<1>.py"), "^t\u{e9}st<1>\\.py$");
    let re = glob_to_regex("t\u{e9}st<1>.py").unwrap();
    assert!(re.is_match("t\u{e9}st<1>.py"));
    assert!(!re.is_match("test<1>.py"));
    assert!(!re.is_match("t\u{e9}st1.py"));
}

#[test]
fn question_mark_in_the_middle() {
    let re = glob_to_regex("a?c").unwrap();
    assert!(re.is_match("abc"));
    assert!(re.is_match("a.c"));
    assert!(!re.is_match("ac"));
    assert!(!re.is_match("abbc"));
}

#[test]
fn brackets_are_literal() {
    let re = glob_to_regex("[ab].py").unwrap();
    assert!(re.is_match("[ab].py"));
    assert!(!re.is_match("a.py"));
    assert!(!re.is_match("b.py"));
}

#[test]
fn star_may_be_empty() {
    let re = glob_to_regex("test_*.py").unwrap();
    assert!(re.is_match("test_.py"));
    assert!(!re.is_match("test.py"));
}

#[test]
fn oversized_glob_is_refused() {
    let glob = "?".repeat(200_000);
    match glob_to_regex(&glob) {
        Err(GlobError::InvalidPattern { source }) => assert_eq!(source.len(), 200_002),
        Ok(_) => panic!("expected the regex to exceed its size limit"),
    }
}

#[test]
fn globs_up_to_the_promised_length_compile() {
    for unit in ["*", "?", "\u{e9}", ".", "<"] {
        let glob = unit.repeat(127);
        assert!(glob_to_regex(&glob).is_ok());
    }
    let re = glob_to_regex(&"?*".repeat(63)).unwrap();
    assert!(re.is_match(&"x".repeat(63)));
}
