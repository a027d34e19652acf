use vstd::prelude::*;
use vstd::string::StringExecFns;
use crate::text::str_eq;

verus! {

/// Why a download was not started.
#[derive(Debug, PartialEq, Eq, Structural)]
pub enum Error {
    AlreadyDownloaded,
}

impl Error {
    /// A short human-readable name of the error.
    pub fn description(&self) -> (r: String)
        ensures
            r@ == "AlreadyDownloaded"@,
    {
        match self {
            Error::AlreadyDownloaded => String::from_str("AlreadyDownloaded"),
        }
    }
}

/// The platforms that prebuilt engine binaries exist for.
#[derive(Debug, PartialEq, Eq, Structural, Clone, Copy)]
pub enum Target {
    Linux,
    Windows,
    MacOS,
}

pub open spec fn url_head() -> Seq<char> {
    "https://storage.googleapis.com/flutter_infra/flutter/"@
}

/// The part of the download location that follows the engine version.
pub open spec fn url_tail(target: Target) -> Seq<char> {
    match target {
        Target::Linux => "/linux-x64/linux-x64-embedder"@,
        Target::MacOS => "/darwin-x64/FlutterEmbedder.framework.zip"@,
        Target::Windows => "/windows-x64/windows-x64-embedder.zip"@,
    }
}

/// The file whose presence shows that the engine for `target` is installed.
pub open spec fn marker_file(target: Target) -> Seq<char> {
    match target {
        Target::Linux => "libflutter_engine.so"@,
        Target::MacOS => "FlutterEmbedder.framework"@,
        Target::Windows => "flutter_engine.dll"@,
    }
}

/// Where the engine archive of `version` for `target` is published.
pub fn download_url(version: &str, target: Target) -> (r: String)
    ensures
        r@ == url_head() + version@ + url_tail(target),
{
    let mut url = String::from_str("https://storage.googleapis.com/flutter_infra/flutter/");
    url.append(version);
    match target {
        Target::Linux => url.append("/linux-x64/linux-x64-embedder"),
        Target::MacOS => url.append("/darwin-x64/FlutterEmbedder.framework.zip"),
        Target::Windows => url.append("/windows-x64/windows-x64-embedder.zip"),
    }
    url
}

/// The name of the file, inside a version's directory, that an installed engine leaves.
pub fn engine_marker_file(target: Target) -> (r: &'static str)
    ensures
        r@ == marker_file(target),
{
    match target {
        Target::Linux => "libflutter_engine.so",
        Target::MacOS => "FlutterEmbedder.framework",
        Target::Windows => "flutter_engine.dll",
    }
}

/// Whether one of `names` is `name`.
pub open spec fn listed(names: Seq<String>, name: Seq<char>) -> bool {
    exists|i: int| 0 <= i < names.len() && names[i]@ == name
}

/// Whether the engine for `target` has to be fetched, given the names of the
/// entries of its version's directory: it has unless the marker file is there.
pub fn should_download(target: Target, entries: &Vec<String>) -> (r: bool)
    ensures
        r == !listed(entries@, marker_file(target)),
{
    let marker = engine_marker_file(target);
    let mut i: usize = 0;
    while i < entries.len()
        invariant
            i <= entries@.len(),
            marker@ == marker_file(target),
            forall|j: int| 0 <= j < i ==> entries@[j]@ != marker_file(target),
        decreases entries@.len() - i,
    {
        if str_eq(entries[i].as_str(), marker) {
            return false;
        }
        i = i + 1;
    }
    true
}

/// The target that matches an operating system name as Rust reports it
/// (`"linux"`, `"macos"`, `"windows"`); `None` for any other system.
pub fn default_target(os: &str) -> (r: Option<Target>)
    ensures
        os@ == "linux"@ ==> r == Some(Target::Linux),
        os@ == "macos"@ ==> r == Some(Target::MacOS),
        os@ == "windows"@ ==> r == Some(Target::Windows),
        (os@ != "linux"@ && os@ != "macos"@ && os@ != "windows"@) ==> r is None,
{
    proof {
        reveal_strlit("linux");
        reveal_strlit("macos");
        reveal_strlit("windows");
        assert("macos"@[0] != "linux"@[0]);
        assert("windows"@.len() != "linux"@.len());
        assert("windows"@.len() != "macos"@.len());
    }
    if str_eq(os, "linux") {
        Some(Target::Linux)
    } else if str_eq(os, "macos") {
        Some(Target::MacOS)
    } else if str_eq(os, "windows") {
        Some(Target::Windows)
    } else {
        None
    }
}

} // verus!
