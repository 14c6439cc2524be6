//! Network-free discovery of what the backend cache already holds.
//!
//! The cache keeps one directory per package and, below it, one directory per
//! version holding the downloaded archive and a `lib` directory of extracted
//! shared libraries. The callers list those directories; the functions here
//! decide what the listings mean.

use crate::platform::Os;
use crate::text::{
    codes, contains, contains_exec, ends_with, lower_codes, lower_contains_exec, lower_ends_with_exec,
    lower_eq_exec, lower_starts_with_exec, starts_with, str_eq,
};
use vstd::string::*;
use crate::version::{cmp_versions, version_order};
use std::cmp::Ordering;
use vstd::prelude::*;

verus! {

/// A file of a version's `lib` directory.
pub struct LibFile {
    pub name: String,
    pub size: u64,
}

/// An entry of a version directory.
pub struct DirEntryInfo {
    pub name: String,
    pub is_file: bool,
}

/// A version directory of a package's cache.
pub struct VersionDir {
    /// The directory's name: the version.
    pub name: String,
    /// The files of its `lib` directory.
    pub lib_files: Vec<LibFile>,
    /// Its own entries.
    pub entries: Vec<DirEntryInfo>,
    /// Whether extraction from its archive was already tried in this lookup.
    pub recovery_attempted: bool,
}

/// Where a usable backend library was found, or what to do next.
#[derive(Debug, Clone, Copy, PartialEq, Eq, Structural)]
pub enum InstallLookup {
    /// `lib` of version `version` holds the main library `lib_files[lib]`.
    Found { version: usize, lib: usize },
    /// Version `version` has no main library but holds the archive
    /// `entries[wheel]`: extract it, then look again.
    Extract { version: usize, wheel: usize },
    /// No version is usable.
    Missing,
}

/// The exact file name of the main library on each operating system.
pub open spec fn preferred_lib_name(os: Os) -> Seq<char> {
    match os {
        Os::Windows => "onnxruntime.dll"@,
        Os::Macos => "libonnxruntime.dylib"@,
        _ => "libonnxruntime.so"@,
    }
}

/// A file name that follows the platform's naming of the main library.
pub open spec fn is_lib_candidate(os: Os, name: Seq<char>) -> bool {
    let l = lower_codes(name);
    match os {
        Os::Windows => l == codes("onnxruntime.dll"@),
        Os::Macos => starts_with(l, codes("libonnxruntime"@)) && ends_with(l, codes(".dylib"@)),
        _ => starts_with(l, codes("libonnxruntime.so"@)),
    }
}

pub open spec fn has_preferred(os: Os, files: Seq<LibFile>) -> bool {
    exists|i: int| 0 <= i < files.len() && files[i].name@ == preferred_lib_name(os)
}

pub open spec fn has_candidate(os: Os, files: Seq<LibFile>) -> bool {
    exists|i: int| 0 <= i < files.len() && is_lib_candidate(os, #[trigger] files[i].name@)
}

/// A directory listing in which a main library can be recognised.
pub open spec fn has_main_lib(os: Os, files: Seq<LibFile>) -> bool {
    has_preferred(os, files) || has_candidate(os, files)
}

/// `i` is the main library of the listing: the first file with the exact
/// expected name if there is one, else the first of the largest files that
/// follow the naming of the platform.
pub open spec fn is_main_lib(os: Os, files: Seq<LibFile>, i: int) -> bool {
    &&& 0 <= i < files.len()
    &&& if has_preferred(os, files) {
        &&& files[i].name@ == preferred_lib_name(os)
        &&& forall|j: int| 0 <= j < i ==> files[j].name@ != preferred_lib_name(os)
    } else {
        &&& is_lib_candidate(os, files[i].name@)
        &&& forall|j: int|
            0 <= j < files.len() && is_lib_candidate(os, #[trigger] files[j].name@) ==> files[j].size
                <= files[i].size
        &&& forall|j: int|
            0 <= j < i && is_lib_candidate(os, #[trigger] files[j].name@) ==> files[j].size
                < files[i].size
    }
}

fn is_lib_candidate_exec(os: Os, name: &str) -> (r: bool)
    ensures
        r == is_lib_candidate(os, name@),
{
    match os {
        Os::Windows => lower_eq_exec(name, "onnxruntime.dll"),
        Os::Macos => lower_starts_with_exec(name, "libonnxruntime") && lower_ends_with_exec(
            name,
            ".dylib",
        ),
        _ => lower_starts_with_exec(name, "libonnxruntime.so"),
    }
}

/// Picks the main backend library among the files of a `lib` directory.
pub fn find_main_lib(os: Os, files: &Vec<LibFile>) -> (r: Option<usize>)
    ensures
        r is None <==> !has_main_lib(os, files@),
        r matches Some(i) ==> is_main_lib(os, files@, i as int),
{
    let prefer = match os {
        Os::Windows => "onnxruntime.dll",
        Os::Macos => "libonnxruntime.dylib",
        _ => "libonnxruntime.so",
    };
    assert(prefer@ == preferred_lib_name(os));
    let mut i: usize = 0;
    while i < files.len()
        invariant
            prefer@ == preferred_lib_name(os),
            forall|j: int| 0 <= j < i ==> files@[j].name@ != preferred_lib_name(os),
        decreases files.len() - i,
    {
        if str_eq(files[i].name.as_str(), prefer) {
            return Some(i);
        }
        i = i + 1;
    }
    let mut best: Option<usize> = None;
    let mut k: usize = 0;
    while k < files.len()
        invariant
            !has_preferred(os, files@),
            k <= files.len(),
            best is None <==> forall|j: int|
                0 <= j < k ==> !is_lib_candidate(os, #[trigger] files@[j].name@),
            best matches Some(b) ==> {
                &&& b < k
                &&& is_lib_candidate(os, files@[b as int].name@)
                &&& forall|j: int|
                    0 <= j < k && is_lib_candidate(os, #[trigger] files@[j].name@)
                        ==> files@[j].size <= files@[b as int].size
                &&& forall|j: int|
                    0 <= j < b && is_lib_candidate(os, #[trigger] files@[j].name@)
                        ==> files@[j].size < files@[b as int].size
            },
        decreases files.len() - k,
    {
        if is_lib_candidate_exec(os, files[k].name.as_str()) {
            match best {
                None => {
                    best = Some(k);
                },
                Some(b) => {
                    if files[k].size > files[b].size {
                        best = Some(k);
                    }
                },
            }
        }
        k = k + 1;
    }
    best
}

/// A file name that names a shared library: `.dll`, `.so`, `.so.N` or `.dylib`,
/// in any letter case.
pub open spec fn is_runtime_lib_name(name: Seq<char>) -> bool {
    let l = lower_codes(name);
    ends_with(l, codes(".dll"@)) || ends_with(l, codes(".so"@)) || contains(l, codes(".so."@))
        || ends_with(l, codes(".dylib"@))
}

/// Whether an archive entry's name is that of a shared library.
pub fn is_runtime_lib_file(name: &str) -> (r: bool)
    ensures
        r == is_runtime_lib_name(name@),
{
    lower_ends_with_exec(name, ".dll") || lower_ends_with_exec(name, ".so") || lower_contains_exec(
        name,
        ".so.",
    ) || lower_ends_with_exec(name, ".dylib")
}

/// A plain file name whose extension is `whl`, in any letter case.
pub open spec fn is_wheel_name(name: Seq<char>) -> bool {
    name.len() > 4 && ends_with(lower_codes(name), codes(".whl"@))
}

/// The first entry of a version directory that is a wheel archive.
pub fn find_any_wheel(entries: &Vec<DirEntryInfo>) -> (r: Option<usize>)
    ensures
        r is None <==> forall|j: int|
            0 <= j < entries@.len() ==> !(#[trigger] entries@[j].is_file && is_wheel_name(
                entries@[j].name@,
            )),
        r matches Some(i) ==> {
            &&& i < entries@.len()
            &&& entries@[i as int].is_file && is_wheel_name(entries@[i as int].name@)
            &&& forall|j: int|
                0 <= j < i ==> !(#[trigger] entries@[j].is_file && is_wheel_name(
                    entries@[j].name@,
                ))
        },
{
    let mut i: usize = 0;
    while i < entries.len()
        invariant
            forall|j: int|
                0 <= j < i ==> !(#[trigger] entries@[j].is_file && is_wheel_name(
                    entries@[j].name@,
                )),
        decreases entries.len() - i,
    {
        let e = &entries[i];
        if e.is_file && e.name.as_str().unicode_len() > 4 && lower_ends_with_exec(
            e.name.as_str(),
            ".whl",
        ) {
            return Some(i);
        }
        i = i + 1;
    }
    None
}

pub open spec fn has_wheel(entries: Seq<DirEntryInfo>) -> bool {
    exists|j: int| 0 <= j < entries.len() && #[trigger] entries[j].is_file && is_wheel_name(entries[j].name@)
}

/// Whether some version of a package's cache holds a recognisable main library.
pub fn has_any_cached_runtime(os: Os, versions: &Vec<VersionDir>) -> (r: bool)
    ensures
        r == exists|i: int|
            0 <= i < versions@.len() && has_main_lib(os, #[trigger] versions@[i].lib_files@),
{
    let mut i: usize = 0;
    while i < versions.len()
        invariant
            forall|j: int| 0 <= j < i ==> !has_main_lib(os, #[trigger] versions@[j].lib_files@),
        decreases versions.len() - i,
    {
        if find_main_lib(os, &versions[i].lib_files).is_some() {
            return true;
        }
        i = i + 1;
    }
    false
}

/// A version that can still give a library: it has one, or it has an archive
/// that was not extracted yet in this lookup.
pub open spec fn is_live(os: Os, v: VersionDir) -> bool {
    has_main_lib(os, v.lib_files@) || (!v.recovery_attempted && has_wheel(v.entries@))
}

/// `i` is the highest live version; of versions with equal names, the first.
pub open spec fn is_best_version(os: Os, versions: Seq<VersionDir>, i: int) -> bool {
    &&& 0 <= i < versions.len()
    &&& is_live(os, versions[i])
    &&& forall|j: int|
        0 <= j < i && is_live(os, #[trigger] versions[j]) ==> version_order(
            versions[j].name@,
            versions[i].name@,
        ) == Ordering::Less
    &&& forall|j: int|
        i < j < versions.len() && is_live(os, #[trigger] versions[j]) ==> version_order(
            versions[j].name@,
            versions[i].name@,
        ) != Ordering::Greater
}

fn is_live_exec(os: Os, v: &VersionDir) -> (r: bool)
    ensures
        r == is_live(os, *v),
{
    find_main_lib(os, &v.lib_files).is_some() || (!v.recovery_attempted && find_any_wheel(
        &v.entries,
    ).is_some())
}

/// Looks for an installed library, newest version first. A version whose
/// `lib` directory lacks the main library but that still holds its archive is
/// handed back for extraction rather than passed over.
pub fn find_installed(os: Os, versions: &Vec<VersionDir>) -> (r: InstallLookup)
    ensures
        r is Missing <==> forall|j: int| 0 <= j < versions@.len() ==> !is_live(os, #[trigger] versions@[j]),
        r matches InstallLookup::Found { version, lib } ==> {
            &&& is_best_version(os, versions@, version as int)
            &&& is_main_lib(os, versions@[version as int].lib_files@, lib as int)
        },
        r matches InstallLookup::Extract { version, wheel } ==> {
            &&& is_best_version(os, versions@, version as int)
            &&& !has_main_lib(os, versions@[version as int].lib_files@)
            &&& wheel < versions@[version as int].entries@.len()
            &&& versions@[version as int].entries@[wheel as int].is_file
            &&& is_wheel_name(versions@[version as int].entries@[wheel as int].name@)
            &&& forall|j: int|
                0 <= j < wheel ==> !(#[trigger] versions@[version as int].entries@[j].is_file
                    && is_wheel_name(versions@[version as int].entries@[j].name@))
        },
{
    let mut best: Option<usize> = None;
    let mut k: usize = 0;
    while k < versions.len()
        invariant
            k <= versions.len(),
            best is None <==> forall|j: int| 0 <= j < k ==> !is_live(os, #[trigger] versions@[j]),
            best matches Some(b) ==> {
                &&& b < k
                &&& is_live(os, versions@[b as int])
                &&& forall|j: int|
                    0 <= j < b && is_live(os, #[trigger] versions@[j]) ==> version_order(
                        versions@[j].name@,
                        versions@[b as int].name@,
                    ) == Ordering::Less
                &&& forall|j: int|
                    b < j < k && is_live(os, #[trigger] versions@[j]) ==> version_order(
                        versions@[j].name@,
                        versions@[b as int].name@,
                    ) != Ordering::Greater
            },
        decreases versions.len() - k,
    {
        if is_live_exec(os, &versions[k]) {
            match best {
                None => {
                    best = Some(k);
                },
                Some(b) => {
                    let o = cmp_versions(versions[k].name.as_str(), versions[b].name.as_str());
                    if matches!(o, Ordering::Greater) {
                        proof {
                            let x = versions@[k as int].name@;
                            let y = versions@[b as int].name@;
                            crate::version::lemma_version_order_antisymmetric(x, y);
                            assert forall|j: int|
                                0 <= j < k && is_live(os, #[trigger] versions@[j]) implies version_order(
                                versions@[j].name@,
                                x,
                            ) == Ordering::Less by {
                                let z = versions@[j].name@;
                                if j == b as int {
                                } else if version_order(z, y) == Ordering::Less {
                                    crate::version::lemma_version_order_transitive(z, y, x);
                                } else {
                                    crate::version::lemma_version_order_antisymmetric(z, y);
                                }
                            }
                        }
                        best = Some(k);
                    }
                },
            }
        }
        k = k + 1;
    }
    match best {
        None => InstallLookup::Missing,
        Some(b) => {
            let v = &versions[b];
            match find_main_lib(os, &v.lib_files) {
                Some(l) => InstallLookup::Found { version: b, lib: l },
                None => {
                    let w = find_any_wheel(&v.entries);
                    match w {
                        Some(wi) => InstallLookup::Extract { version: b, wheel: wi },
                        None => InstallLookup::Missing,
                    }
                },
            }
        },
    }
}

/// `p` with every backslash turned into a forward slash.
pub open spec fn with_forward_slashes(p: Seq<char>) -> Seq<char> {
    p.map_values(|c: char| if c == '\\' { '/' } else { c })
}

/// Relies on `str::replace`: every occurrence of the pattern is replaced, and
/// nothing else changes.
#[verifier::external_body]
fn forward_slashes(p: &str) -> (r: String)
    ensures
        r@ == with_forward_slashes(p@),
{
    p.replace('\\', "/")
}

/// Index of the last `/` of `s`, or -1 when there is none.
pub open spec fn last_slash(s: Seq<char>) -> int
    decreases s.len(),
{
    if s.len() == 0 {
        -1
    } else if s.last() == '/' {
        s.len() - 1
    } else {
        last_slash(s.drop_last())
    }
}

/// The final segment of a `/`-separated path; none where that segment is
/// empty, `.` or `..`.
pub open spec fn base_name(p: Seq<char>) -> Option<Seq<char>> {
    let b = p.subrange(last_slash(p) + 1, p.len() as int);
    if b.len() == 0 || b == "."@ || b == ".."@ {
        None
    } else {
        Some(b)
    }
}

proof fn lemma_last_slash_step(s: Seq<char>, k: int)
    requires
        0 <= k <= s.len(),
        forall|j: int| k <= j < s.len() ==> #[trigger] s[j] != '/',
        k == 0 || s[k - 1] == '/',
    ensures
        last_slash(s) == k - 1,
    decreases s.len(),
{
    if s.len() > 0 && k < s.len() {
        let t = s.drop_last();
        assert forall|j: int| k <= j < t.len() implies #[trigger] t[j] != '/' by {
            assert(t[j] == s[j]);
        }
        lemma_last_slash_step(t, k);
    }
}

fn base_name_exec(p: &str) -> (r: Option<String>)
    ensures
        match r {
            Some(b) => base_name(p@) == Some(b@),
            None => base_name(p@) is None,
        },
{
    let n = p.unicode_len();
    let mut k: usize = n;
    while k > 0 && p.get_char(k - 1) != '/'
        invariant
            n == p@.len(),
            k <= n,
            forall|j: int| k <= j < n ==> #[trigger] p@[j] != '/',
        decreases k,
    {
        k = k - 1;
    }
    proof {
        lemma_last_slash_step(p@, k as int);
    }
    let b = p.substring_char(k, n);
    if b.unicode_len() == 0 || str_eq(b, ".") || str_eq(b, "..") {
        None
    } else {
        Some(String::from_str(b))
    }
}

/// An archive entry that holds a native library of the package: a file whose
/// path, with forward slashes, passes through a `capi` directory and names a
/// shared library.
pub open spec fn is_native_entry(name: Seq<char>, is_dir: bool) -> bool {
    let n = with_forward_slashes(name);
    !is_dir && contains(n, "/capi/"@) && is_runtime_lib_name(n)
}

/// An entry kept by the extractor whose name has no final component.
#[derive(Debug, Clone, PartialEq, Eq)]
pub struct InvalidEntryName {
    pub name: String,
}

/// Decides what to do with an archive entry once its path has forward
/// slashes: `None` to skip it, or the file name under which it is extracted
/// into the flat `lib` directory.
fn native_entry_target(name: &str, is_dir: bool) -> (r: Result<Option<String>, InvalidEntryName>)
    ensures
        !(!is_dir && contains(name@, "/capi/"@) && is_runtime_lib_name(name@)) ==> r == Ok::<
            Option<String>,
            InvalidEntryName,
        >(None),
        (!is_dir && contains(name@, "/capi/"@) && is_runtime_lib_name(name@)) ==> match r {
            Ok(Some(base)) => base_name(name@) == Some(base@),
            Ok(None) => false,
            Err(e) => base_name(name@) is None && e.name@ == name@,
        },
{
    if is_dir || !contains_exec(name, "/capi/") || !is_runtime_lib_file(name) {
        return Ok(None);
    }
    match base_name_exec(name) {
        Some(base) => Ok(Some(base)),
        None => Err(InvalidEntryName { name: name.to_string() }),
    }
}

/// Decides what to do with an archive entry: `None` to skip it, or the file
/// name under which it is extracted into the flat `lib` directory.
pub fn wheel_entry_target(name: &str, is_dir: bool) -> (r: Result<Option<String>, InvalidEntryName>)
    ensures
        !is_native_entry(name@, is_dir) ==> r == Ok::<Option<String>, InvalidEntryName>(None),
        is_native_entry(name@, is_dir) ==> match r {
            Ok(Some(base)) => base_name(with_forward_slashes(name@)) == Some(base@),
            Ok(None) => false,
            Err(e) => base_name(with_forward_slashes(name@)) is None && e.name@
                == with_forward_slashes(name@),
        },
{
    let n = forward_slashes(name);
    native_entry_target(n.as_str(), is_dir)
}

/// A cache in which some version holds a recognisable main library has a
/// live version, so the lookup answers `Found` or `Extract` and never asks
/// for a download.
pub proof fn lemma_populated_cache_needs_no_download(os: Os, versions: Seq<VersionDir>, i: int)
    requires
        0 <= i < versions.len(),
        has_main_lib(os, versions[i].lib_files@),
    ensures
        exists|j: int| 0 <= j < versions.len() && is_live(os, #[trigger] versions[j]),
{
    assert(is_live(os, versions[i]));
}

/// A lone version directory that holds its archive but no extracted main
/// library is chosen for extraction; once its `lib` directory holds the main
/// library it is the one found.
pub proof fn lemma_archive_only_version_is_recovered(os: Os, v: VersionDir)
    requires
        !has_main_lib(os, v.lib_files@),
        !v.recovery_attempted,
        has_wheel(v.entries@),
    ensures
        is_best_version(os, seq![v], 0),
        forall|w: VersionDir|
            w.name@ == v.name@ && has_main_lib(os, w.lib_files@) ==> is_best_version(
                os,
                #[trigger] seq![w],
                0,
            ),
{
}

} // verus!
