//! Discovery of Python test identifiers: a glob matcher over file names, a
//! line-oriented declaration scanner, and the assembly of an ordered manifest.
pub mod chars;
pub mod glob;
pub mod init;
pub mod manifest;
pub mod scan;

pub use glob::{glob_regex_text, glob_to_regex, GlobError, GlobPattern};
pub use init::{
    init_action, is_affirmative, is_yes, InitAction, CONFTEST_FILE_NAME, CONFTEST_TEMPLATE,
};
pub use manifest::{
    build_manifest, collect_tests, file_entry, normalize_path, FileTests, SourceFile,
};
pub use scan::extract_tests_from_source;
