//! Assembly of the manifest: for each file whose base name the glob
//! accepts, its path with forward slashes and the test identifiers it
//! declares. Files that declare none are left out. Entries keep the order in
//! which the files are given.
use crate::glob::{
    glob_matches, glob_regex_source, glob_to_regex, regex_compiles, GlobError, GlobPattern,
};
use crate::scan::{extract_tests_from_source, tests_in};
use vstd::prelude::*;

verus! {

/// A file handed to the manifest builder.
pub struct SourceFile {
    /// Path relative to the scan root, with the platform's separators.
    pub path: String,
    /// Base name of the file.
    pub name: String,
    /// Text of the file.
    pub content: String,
}

impl View for SourceFile {
    type V = (Seq<char>, Seq<char>, Seq<char>);

    open spec fn view(&self) -> (Seq<char>, Seq<char>, Seq<char>) {
        (self.path@, self.name@, self.content@)
    }
}

/// One entry of the manifest.
pub struct FileTests {
    /// Path relative to the scan root, with forward slashes.
    pub file: String,
    /// Test identifiers in order of appearance.
    pub tests: Vec<String>,
}

impl View for FileTests {
    type V = (Seq<char>, Seq<Seq<char>>);

    open spec fn view(&self) -> (Seq<char>, Seq<Seq<char>>) {
        (self.file@, self.tests.deep_view())
    }
}

/// `p` with each backslash replaced by a forward slash.
pub open spec fn normalized(p: Seq<char>) -> Seq<char> {
    p.map_values(|c: char| if c == '\\' { '/' } else { c })
}

/// Whether `glob` accepts the base name `name`.
pub open spec fn glob_accepts(glob: Seq<char>, name: Seq<char>) -> bool {
    glob_matches(glob, name)
}

/// The entry that a file contributes, if any.
pub open spec fn entry_of(glob: Seq<char>, f: (Seq<char>, Seq<char>, Seq<char>)) -> Option<
    (Seq<char>, Seq<Seq<char>>),
> {
    if glob_accepts(glob, f.1) && tests_in(f.2).len() > 0 {
        Some((normalized(f.0), tests_in(f.2)))
    } else {
        None
    }
}

/// The manifest of `files`, in their order.
pub open spec fn manifest_of(glob: Seq<char>, files: Seq<(Seq<char>, Seq<char>, Seq<char>)>) -> Seq<
    (Seq<char>, Seq<Seq<char>>),
>
    decreases files.len(),
{
    if files.len() == 0 {
        Seq::empty()
    } else {
        let before = manifest_of(glob, files.drop_last());
        match entry_of(glob, files.last()) {
            Some(e) => before.push(e),
            None => before,
        }
    }
}

/// Every entry of a manifest lists at least one test identifier, and is the
/// entry of one of the files, whose base name the glob accepts.
pub proof fn law_manifest_entries_are_nonempty(
    glob: Seq<char>,
    files: Seq<(Seq<char>, Seq<char>, Seq<char>)>,
    i: int,
)
    requires
        0 <= i < manifest_of(glob, files).len(),
    ensures
        manifest_of(glob, files)[i].1.len() > 0,
        exists|j: int|
            0 <= j < files.len() && glob_accepts(glob, (#[trigger] files[j]).1) && entry_of(
                glob,
                files[j],
            ) == Some(manifest_of(glob, files)[i]),
    decreases files.len(),
{
    let d = files.drop_last();
    let md = manifest_of(glob, d);
    if i < md.len() {
        law_manifest_entries_are_nonempty(glob, d, i);
        let j = choose|j: int|
            0 <= j < d.len() && glob_accepts(glob, (#[trigger] d[j]).1) && entry_of(glob, d[j])
                == Some(md[i]);
        assert(files[j] == d[j]);
    } else {
        assert(files[files.len() - 1] == files.last());
    }
}

/// `p` with each backslash replaced by a forward slash.
pub fn normalize_path(p: &str) -> (r: String)
    ensures
        r@ == normalized(p@),
{
    let v = crate::chars::chars_of(p);
    let mut out = String::new();
    let mut i: usize = 0;
    while i < v.len()
        invariant
            i <= v@.len(),
            v@ == p@,
            out@ == normalized(v@.take(i as int)),
        decreases v.len() - i,
    {
        let c = v[i];
        if c == '\\' {
            out.push('/');
        } else {
            out.push(c);
        }
        assert(out@ =~= normalized(v@.take(i + 1)));
        i = i + 1;
    }
    assert(v@.take(v@.len() as int) =~= v@);
    out
}

/// The entry that `file` contributes to the manifest, if any.
pub fn file_entry(pattern: &GlobPattern, file: &SourceFile) -> (r: Option<FileTests>)
    ensures
        r matches Some(e) ==> entry_of(pattern@, file@) == Some(e@),
        r is None ==> entry_of(pattern@, file@) is None,
{
    if !pattern.is_match(file.name.as_str()) {
        return None;
    }
    let tests = extract_tests_from_source(file.content.as_str());
    if tests.len() == 0 {
        return None;
    }
    Some(FileTests { file: normalize_path(file.path.as_str()), tests })
}

/// The manifest of `files` under a compiled glob, in the order of `files`.
pub fn build_manifest(pattern: &GlobPattern, files: &Vec<SourceFile>) -> (r: Vec<FileTests>)
    ensures
        r@.map_values(|e: FileTests| e@) == manifest_of(
            pattern@,
            files@.map_values(|f: SourceFile| f@),
        ),
{
    let ghost fs = files@.map_values(|f: SourceFile| f@);
    let mut out: Vec<FileTests> = Vec::new();
    let mut i: usize = 0;
    while i < files.len()
        invariant
            i <= files@.len(),
            fs == files@.map_values(|f: SourceFile| f@),
            out@.map_values(|e: FileTests| e@) == manifest_of(pattern@, fs.take(i as int)),
        decreases files.len() - i,
    {
        assert(fs.take(i + 1).drop_last() =~= fs.take(i as int));
        assert(fs.take(i + 1).last() == files@[i as int]@);
        match file_entry(pattern, &files[i]) {
            Some(e) => {
                out.push(e);
                assert(out@.map_values(|e: FileTests| e@) =~= manifest_of(
                    pattern@,
                    fs.take(i as int),
                ).push(e@));
            },
            None => {},
        }
        i = i + 1;
    }
    assert(fs.take(files@.len() as int) =~= fs);
    out
}

/// Compiles `pattern` and builds the manifest of `files` under it; fails,
/// before looking at any file, exactly when the glob cannot be compiled,
/// which never happens to a glob of at most 127 characters.
pub fn collect_tests(files: &Vec<SourceFile>, pattern: &str) -> (r: Result<
    Vec<FileTests>,
    GlobError,
>)
    ensures
        r is Ok <==> regex_compiles(glob_regex_source(pattern@)),
        pattern@.len() <= 127 ==> r is Ok,
        r matches Ok(m) ==> m@.map_values(|e: FileTests| e@) == manifest_of(
            pattern@,
            files@.map_values(|f: SourceFile| f@),
        ),
        r matches Err(GlobError::InvalidPattern { source }) ==> source@ == glob_regex_source(
            pattern@,
        ),
{
    match glob_to_regex(pattern) {
        Ok(p) => Ok(build_manifest(&p, files)),
        Err(e) => Err(e),
    }
}

} // verus!
