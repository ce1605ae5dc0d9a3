use trex::{build_manifest, collect_tests, file_entry, glob_to_regex, normalize_path, SourceFile};

fn source_file(path: &str, name: &str, content: &str) -> SourceFile {
    SourceFile { path: path.to_string(), name: name.to_string(), content: content.to_string() }
}

#[test]
fn collect_tests_finds_file_and_extracts_tests() {
    let content = "\ndef test_ok():\n    pass\n\nclass TestFoo:\n    def test_bar(self):\n        pass\n";
    let files = vec![source_file("test_sample.py", "test_sample.py", content)];
    let results = collect_tests(&files, "test_*.py").unwrap();
    assert_eq!(results.len(), 1);
    assert!(results[0].file.contains("test_sample.py"));
    assert_eq!(results[0].tests.len(), 2);
    assert_eq!(results[0].tests[0], "test_ok");
    assert_eq!(results[0].tests[1], "TestFoo::test_bar");
}

#[test]
fn manifest_skips_unmatched_and_empty_files_and_keeps_order() {
    let files = vec![
        source_file("b\\test_b.py", "test_b.py", "def test_b(): pass"),
        source_file("helper.py", "helper.py", "def test_h(): pass"),
        source_file("test_empty.py", "test_empty.py", "def foo(): pass"),
        source_file("a/test_a.py", "test_a.py", "def test_a1(): pass\ndef test_a2(): pass"),
    ];
    let p = glob_to_regex("test_*.py").unwrap();
    let m = build_manifest(&p, &files);
    assert_eq!(m.len(), 2);
    assert_eq!(m[0].file, "b/test_b.py");
    assert_eq!(m[0].tests, vec!["test_b"]);
    assert_eq!(m[1].file, "a/test_a.py");
    assert_eq!(m[1].tests, vec!["test_a1", "test_a2"]);
}

#[test]
fn file_entry_cases() {
    let p = glob_to_regex("*.py").unwrap();
    assert!(file_entry(&p, &source_file("x.txt", "x.txt", "def test_a(): pass")).is_none());
    assert!(file_entry(&p, &source_file("x.py", "x.py", "")).is_none());
    let e = file_entry(&p, &source_file("d\\x.py", "x.py", "def test_a(): pass")).unwrap();
    assert_eq!(e.file, "d/x.py");
    assert_eq!(e.tests, vec!["test_a"]);
}

#[test]
fn empty_file_list_gives_empty_manifest() {
    assert!(collect_tests(&Vec::new(), "test_*.py").unwrap().is_empty());
}

#[test]
fn oversized_pattern_fails_the_collection() {
    let files = vec![source_file("test_a.py", "test_a.py", "def test_a(): pass")];
    assert!(collect_tests(&files, &"?".repeat(200_000)).is_err());
}

#[test]
fn non_ascii_pattern_is_accepted() {
    let files = vec![source_file("t\u{e9}st.py", "t\u{e9}st.py", "def test_a(): pass")];
    let m = collect_tests(&files, "t\u{e9}st.py").unwrap();
    assert_eq!(m.len(), 1);
}

#[test]
fn paths_use_forward_slashes() {
    assert_eq!(normalize_path("a\\b\\c.py"), "a/b/c.py");
    assert_eq!(normalize_path("a/b.py"), "a/b.py");
    assert_eq!(normalize_path(""), "");
}
