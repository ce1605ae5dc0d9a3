//! The `init` flow's decisions and the companion file it writes.
use crate::chars::chars_of;
use vstd::prelude::*;

verus! {

/// Name of the companion file that `init` writes.
pub const CONFTEST_FILE_NAME: &'static str = "conftest.py";

/// Contents of the companion file: a pytest plugin that runs `collect` and
/// keeps and orders pytest's items by the manifest.
pub const CONFTEST_TEMPLATE: &'static str = r#"""Pytest plugin: override collection using Rust (trex) for discovery."""

from __future__ import annotations

import json
import os
import shutil
import subprocess
from pathlib import Path


def _get_trex_bin():
    if os.environ.get("TREX_BIN"):
        return os.environ["TREX_BIN"]
    conftest_dir = Path(__file__).resolve().parent
    default = (conftest_dir / "../../target/release/trex").resolve()
    if default.exists():
        return str(default)
    trex_on_path = shutil.which("trex")
    if trex_on_path:
        return trex_on_path
    return str(default)


def _run_trex_collect(rootdir: Path, trex_bin: str) -> list | None:
    try:
        result = subprocess.run(
            [trex_bin, "collect", str(rootdir)],
            capture_output=True,
            text=True,
            timeout=30,
            cwd=str(rootdir),
        )
        result.check_returncode()
        return json.loads(result.stdout)
    except (subprocess.CalledProcessError, json.JSONDecodeError, FileNotFoundError):
        return None


def _allowed_sets_from_manifest(manifest: list) -> tuple[set[str], set[str]]:
    allowed_files = set()
    allowed_dirs = set()
    for entry in manifest:
        f = entry["file"].replace("\\", "/")
        allowed_files.add(f)
        parts = f.split("/")
        for i in range(len(parts)):
            prefix = "/".join(parts[:i]) if i else "."
            allowed_dirs.add(prefix)
    return allowed_files, allowed_dirs


def pytest_configure(config):
    rootdir = config.rootpath
    if not rootdir:
        rootdir = Path.cwd()
    else:
        rootdir = Path(rootdir)
    trex_bin = _get_trex_bin()
    if not Path(trex_bin).exists():
        return
    manifest = _run_trex_collect(rootdir, trex_bin)
    if manifest is None:
        return
    config._trex_manifest = manifest
    config._trex_allowed_files, config._trex_allowed_dirs = _allowed_sets_from_manifest(
        manifest
    )


def pytest_ignore_collect(collection_path, config):
    manifest = getattr(config, "_trex_manifest", None)
    if manifest is None:
        return False
    allowed_files = getattr(config, "_trex_allowed_files", set())
    allowed_dirs = getattr(config, "_trex_allowed_dirs", set())
    rootdir = Path(config.rootpath).resolve()
    try:
        rel = collection_path.resolve().relative_to(rootdir)
    except ValueError:
        return False
    key = str(rel).replace("\\", "/") or "."
    if collection_path.is_file():
        return key not in allowed_files
    if collection_path.is_dir():
        return key not in allowed_dirs
    return False


def pytest_collection_modifyitems(session, config, items):
    manifest = getattr(config, "_trex_manifest", None)
    if manifest is None:
        trex_bin = _get_trex_bin()
        rootdir = config.rootpath
        if not rootdir:
            rootdir = Path.cwd()
        else:
            rootdir = Path(rootdir)
        if not Path(trex_bin).exists():
            return
        manifest = _run_trex_collect(rootdir, trex_bin)
        if manifest is None:
            return
        config._trex_manifest = manifest
        config._trex_allowed_files, config._trex_allowed_dirs = _allowed_sets_from_manifest(
            manifest
        )

    rust_order = []
    for entry in manifest:
        file_path = entry["file"]
        for test_id in entry["tests"]:
            rust_order.append(f"{file_path}::{test_id}")

    rust_set = set(rust_order)
    items[:] = [item for item in items if item.nodeid in rust_set]
    order_map = {nodeid: i for i, nodeid in enumerate(rust_order)}
    items.sort(key=lambda item: order_map.get(item.nodeid, float("inf")))
"#;

/// What `str::trim` returns.
pub uninterp spec fn trimmed(s: Seq<char>) -> Seq<char>;

/// What `str::to_lowercase` returns.
pub uninterp spec fn lowercased(s: Seq<char>) -> Seq<char>;

/// Relies on `str::trim`: `s` without leading and trailing white space.
#[verifier::external_body]
fn trim(s: &str) -> (r: &str)
    ensures
        r@ == trimmed(s@),
{
    s.trim()
}

/// Relies on `str::to_lowercase`: the lowercase equivalent of `s`.
#[verifier::external_body]
fn to_lowercase(s: &str) -> (r: String)
    ensures
        r@ == lowercased(s@),
{
    s.to_lowercase()
}

/// `y` or `yes`.
pub open spec fn is_yes_text(s: Seq<char>) -> bool {
    s == seq!['y'] || s == seq!['y', 'e', 's']
}

/// Whether an already trimmed, lowercased answer is `y` or `yes`.
pub fn is_yes(answer: &str) -> (r: bool)
    ensures
        r == is_yes_text(answer@),
{
    let v = chars_of(answer);
    let r = (v.len() == 1 && v[0] == 'y') || (v.len() == 3 && v[0] == 'y' && v[1] == 'e' && v[2]
        == 's');
    proof {
        if v@.len() == 1 && v@[0] == 'y' {
            assert(v@ =~= seq!['y']);
        }
        if v@.len() == 3 && v@[0] == 'y' && v@[1] == 'e' && v@[2] == 's' {
            assert(v@ =~= seq!['y', 'e', 's']);
        }
    }
    r
}

/// Whether a line read at the prompt consents to writing the file: trimmed
/// and lowercased, it is `y` or `yes`.
pub fn is_affirmative(line: &str) -> (r: bool)
    ensures
        r == is_yes_text(lowercased(trimmed(line@))),
{
    let t = trim(line);
    let l = to_lowercase(t);
    is_yes(l.as_str())
}

/// What `init` does in a directory.
#[derive(Debug, Clone, Copy, PartialEq, Eq)]
pub enum InitAction {
    /// The file is there already: write nothing.
    AlreadyPresent,
    /// Write the template.
    Write,
    /// The answer was not affirmative: write nothing.
    Skip,
}

/// The decision once the directory has been looked at and, where the file
/// is missing, the answer read.
pub fn init_action(file_exists: bool, answer: &str) -> (r: InitAction)
    ensures
        file_exists ==> r == InitAction::AlreadyPresent,
        !file_exists ==> (r == InitAction::Write <==> is_yes_text(lowercased(trimmed(answer@)))),
        !file_exists ==> r != InitAction::AlreadyPresent,
{
    if file_exists {
        InitAction::AlreadyPresent
    } else if is_affirmative(answer) {
        InitAction::Write
    } else {
        InitAction::Skip
    }
}

} // verus!
