use trex::extract_tests_from_source;

#[test]
fn extract_tests_top_level_function() {
    let source = "def test_foo(): pass";
    assert_eq!(extract_tests_from_source(source), vec!["test_foo"]);
}

#[test]
fn extract_tests_class_method() {
    let source = "\nclass TestBar:\n    def test_baz(self):\n        pass\n";
    assert_eq!(extract_tests_from_source(source), vec!["TestBar::test_baz"]);
}

#[test]
fn extract_tests_mixed_top_level_and_class() {
    let source = "\ndef test_standalone():\n    pass\n\nclass TestFoo:\n    def test_method(self):\n        pass\n";
    let got = extract_tests_from_source(source);
    assert_eq!(got.len(), 2);
    assert_eq!(got[0], "test_standalone");
    assert_eq!(got[1], "TestFoo::test_method");
}

#[test]
fn extract_tests_empty() {
    assert!(extract_tests_from_source("").is_empty());
    assert!(extract_tests_from_source("def foo(): pass").is_empty());
    assert!(extract_tests_from_source("class Bar: pass").is_empty());
}

#[test]
fn extract_tests_nested_class_current_behavior() {
    let source = "\nclass TestOuter:\n    class TestInner:\n        def test_inner(self):\n            pass\n";
    let got = extract_tests_from_source(source);
    assert_eq!(got, vec!["TestOuter::test_inner"]);
}

#[test]
fn top_level_function_clears_current_class() {
    let source = "class TestA:\n    def test_one(self):\n        pass\ndef test_two():\n    pass\n    def test_three(self):\n        pass\n";
    assert_eq!(extract_tests_from_source(source), vec!["TestA::test_one", "test_two"]);
}

#[test]
fn indented_method_without_class_is_dropped() {
    let source = "class Helper:\n    def test_x(self):\n        pass\n";
    assert!(extract_tests_from_source(source).is_empty());
}

#[test]
fn later_class_replaces_current_class() {
    let source = "class TestA:\n    def test_a(self): pass\nclass TestB:\n\tdef test_b(self): pass\n";
    assert_eq!(extract_tests_from_source(source), vec!["TestA::test_a", "TestB::test_b"]);
}

#[test]
fn declaration_shapes() {
    assert_eq!(extract_tests_from_source("def test_a ():"), vec!["test_a"]);
    assert_eq!(extract_tests_from_source("def test_a\t(x):"), vec!["test_a"]);
    assert!(extract_tests_from_source("def test_():").is_empty());
    assert!(extract_tests_from_source("def test_a:").is_empty());
    assert!(extract_tests_from_source("def  test_a():").is_empty());
    assert!(extract_tests_from_source("async def test_a():").is_empty());
    assert!(extract_tests_from_source("class Test:\n    def test_a(self): pass").is_empty());
    assert!(extract_tests_from_source("class TestA(Base):\n    def test_a(self): pass").is_empty());
}

#[test]
fn crlf_line_endings() {
    let source = "def test_a():\r\nclass TestB:\r\n    def test_c(self):\r\n        pass\r\n";
    assert_eq!(extract_tests_from_source(source), vec!["test_a", "TestB::test_c"]);
}

#[test]
fn unicode_names_are_words() {
    assert_eq!(extract_tests_from_source("def test_\u{e9}():"), vec!["test_\u{e9}"]);
    let source = "class Test\u{c4}:\n    def test_b(self): pass\n";
    assert_eq!(extract_tests_from_source(source), vec!["Test\u{c4}::test_b"]);
    let source = "class TestA:\ndef test_\u{e9}():\n    def test_x(self): pass\n";
    assert_eq!(extract_tests_from_source(source), vec!["test_\u{e9}"]);
}
