//! Package-index metadata and the choice of a platform-matching wheel.

use crate::text::{contains, contains_exec, ends_with, ends_with_exec, str_eq};
use crate::version::{cmp_chars, cmp_str, lemma_cmp_chars_antisymmetric, lemma_cmp_chars_transitive};
use std::cmp::Ordering;
use vstd::prelude::*;

verus! {

/// A project's metadata as the package index publishes it.
pub struct PypiProject {
    pub info: PypiInfo,
    /// The release files of each published version, keyed by version.
    pub releases: Vec<(String, Vec<PypiReleaseFile>)>,
}

pub struct PypiInfo {
    /// The current version.
    pub version: String,
}

pub struct PypiReleaseFile {
    pub filename: String,
    pub url: String,
    pub packagetype: String,
    pub digests: PypiDigests,
}

pub struct PypiDigests {
    pub sha256: String,
}

#[derive(Debug, Clone, PartialEq, Eq)]
pub enum PypiError {
    /// The metadata lists no release files for its current version.
    MissingRelease { version: String },
    /// No wheel of the current version fits the platform.
    NoWheel { os: String, arch: String, version: String },
}

/// The release file name fits the platform, by the tail of its platform tag.
pub open spec fn wheel_fits(filename: Seq<char>, os: Seq<char>, arch: Seq<char>) -> bool {
    if os == "windows"@ && arch == "x86_64"@ {
        ends_with(filename, "win_amd64.whl"@)
    } else if os == "windows"@ && arch == "aarch64"@ {
        ends_with(filename, "win_arm64.whl"@)
    } else if os == "linux"@ && arch == "x86_64"@ {
        ends_with(filename, "x86_64.whl"@) && contains(filename, "manylinux"@)
    } else if os == "linux"@ && arch == "aarch64"@ {
        ends_with(filename, "aarch64.whl"@) && contains(filename, "manylinux"@)
    } else if os == "macos"@ && arch == "aarch64"@ {
        ends_with(filename, "arm64.whl"@) && contains(filename, "macosx"@)
    } else if os == "macos"@ && arch == "x86_64"@ {
        ends_with(filename, "x86_64.whl"@) && contains(filename, "macosx"@)
    } else {
        false
    }
}

/// Whether a release file name fits the platform.
pub fn wheel_matches(filename: &str, os: &str, arch: &str) -> (r: bool)
    ensures
        r == wheel_fits(filename@, os@, arch@),
{
    let win = str_eq(os, "windows");
    let linux = str_eq(os, "linux");
    let mac = str_eq(os, "macos");
    let x64 = str_eq(arch, "x86_64");
    let a64 = str_eq(arch, "aarch64");
    if win && x64 {
        ends_with_exec(filename, "win_amd64.whl")
    } else if win && a64 {
        ends_with_exec(filename, "win_arm64.whl")
    } else if linux && x64 {
        ends_with_exec(filename, "x86_64.whl") && contains_exec(filename, "manylinux")
    } else if linux && a64 {
        ends_with_exec(filename, "aarch64.whl") && contains_exec(filename, "manylinux")
    } else if mac && a64 {
        ends_with_exec(filename, "arm64.whl") && contains_exec(filename, "macosx")
    } else if mac && x64 {
        ends_with_exec(filename, "x86_64.whl") && contains_exec(filename, "macosx")
    } else {
        false
    }
}

/// The release files listed under `version`: the first entry with that key.
pub open spec fn release_of(proj: PypiProject, version: Seq<char>) -> Option<int> {
    if exists|i: int| 0 <= i < proj.releases@.len() && (#[trigger] proj.releases@[i]).0@ == version {
        Some(
            choose|i: int|
                0 <= i < proj.releases@.len() && proj.releases@[i].0@ == version && forall|j: int|
                    0 <= j < i ==> (#[trigger] proj.releases@[j]).0@ != version,
        )
    } else {
        None
    }
}

/// A binary wheel that fits the platform.
pub open spec fn is_fitting_wheel(f: PypiReleaseFile, os: Seq<char>, arch: Seq<char>) -> bool {
    f.packagetype@ == "bdist_wheel"@ && wheel_fits(f.filename@, os, arch)
}

/// `k` is the file that comes first when the fitting wheels are sorted by
/// file name, of equal names the one listed first.
pub open spec fn is_first_fitting(files: Seq<PypiReleaseFile>, os: Seq<char>, arch: Seq<char>, k: int) -> bool {
    &&& 0 <= k < files.len()
    &&& is_fitting_wheel(files[k], os, arch)
    &&& forall|j: int|
        0 <= j < files.len() && is_fitting_wheel(#[trigger] files[j], os, arch) ==> cmp_chars(
            files[k].filename@,
            files[j].filename@,
        ) != Ordering::Greater
    &&& forall|j: int|
        0 <= j < k && is_fitting_wheel(#[trigger] files[j], os, arch) ==> cmp_chars(
            files[j].filename@,
            files[k].filename@,
        ) == Ordering::Greater
}

fn find_release(proj: &PypiProject) -> (r: Option<usize>)
    ensures
        match r {
            Some(i) => i < proj.releases@.len() && release_of(*proj, proj.info.version@) == Some(
                i as int,
            ),
            None => release_of(*proj, proj.info.version@) is None,
        },
{
    let version = proj.info.version.as_str();
    let mut i: usize = 0;
    while i < proj.releases.len()
        invariant
            version@ == proj.info.version@,
            forall|j: int| 0 <= j < i ==> (#[trigger] proj.releases@[j]).0@ != version@,
        decreases proj.releases.len() - i,
    {
        if str_eq(proj.releases[i].0.as_str(), version) {
            proof {
                let w = i as int;
                assert(0 <= w < proj.releases@.len() && proj.releases@[w].0@ == version@ && forall|j: int|
                    0 <= j < w ==> (#[trigger] proj.releases@[j]).0@ != version@);
                let c = release_of(*proj, proj.info.version@).unwrap();
                if c < w {
                } else if c > w {
                }
            }
            return Some(i);
        }
        i = i + 1;
    }
    None
}

/// Picks the wheel of the project's current version for the platform: of the
/// binary wheels whose file name fits `os`/`arch`, the first by file name.
pub fn select_wheel<'a>(proj: &'a PypiProject, os: &str, arch: &str) -> (r: Result<
    &'a PypiReleaseFile,
    PypiError,
>)
    ensures
        release_of(*proj, proj.info.version@) is None <==> r matches Err(
            PypiError::MissingRelease { .. },
        ),
        r matches Err(PypiError::MissingRelease { version }) ==> version@ == proj.info.version@,
        release_of(*proj, proj.info.version@) matches Some(i) ==> ((r matches Err(
            PypiError::NoWheel { .. },
        )) <==> (forall|j: int|
            0 <= j < proj.releases@[i].1@.len() ==> !is_fitting_wheel(
                #[trigger] proj.releases@[i].1@[j],
                os@,
                arch@,
            ))),
        release_of(*proj, proj.info.version@) matches Some(i) ==> (r matches Ok(f) ==> exists|k: int|
            is_first_fitting(proj.releases@[i].1@, os@, arch@, k) && *f == proj.releases@[i].1@[k]),
{
    let ri = find_release(proj);
    let ri = match ri {
        Some(ri) => ri,
        None => {
            return Err(PypiError::MissingRelease { version: proj.info.version.clone() });
        },
    };
    let files = &proj.releases[ri].1;
    let mut best: Option<usize> = None;
    let mut k: usize = 0;
    while k < files.len()
        invariant
            k <= files@.len(),
            best is None <==> forall|j: int|
                0 <= j < k ==> !is_fitting_wheel(#[trigger] files@[j], os@, arch@),
            best matches Some(b) ==> {
                &&& b < k
                &&& is_fitting_wheel(files@[b as int], os@, arch@)
                &&& forall|j: int|
                    0 <= j < k && is_fitting_wheel(#[trigger] files@[j], os@, arch@) ==> cmp_chars(
                        files@[b as int].filename@,
                        files@[j].filename@,
                    ) != Ordering::Greater
                &&& forall|j: int|
                    0 <= j < b && is_fitting_wheel(#[trigger] files@[j], os@, arch@) ==> cmp_chars(
                        files@[j].filename@,
                        files@[b as int].filename@,
                    ) == Ordering::Greater
            },
        decreases files.len() - k,
    {
        let f = &files[k];
        let fits = str_eq(f.packagetype.as_str(), "bdist_wheel") && wheel_matches(
            f.filename.as_str(),
            os,
            arch,
        );
        if fits {
            proof {
                lemma_cmp_chars_antisymmetric(f.filename@, f.filename@);
            }
            match best {
                None => {
                    best = Some(k);
                },
                Some(b) => {
                    let o = cmp_str(files[b].filename.as_str(), f.filename.as_str());
                    proof {
                        lemma_cmp_chars_antisymmetric(files@[b as int].filename@, f.filename@);
                    }
                    if matches!(o, Ordering::Greater) {
                        proof {
                            let x = f.filename@;
                            let y = files@[b as int].filename@;
                            assert forall|j: int|
                                0 <= j < k && is_fitting_wheel(#[trigger] files@[j], os@, arch@)
                                    implies cmp_chars(x, files@[j].filename@) != Ordering::Greater by {
                                let z = files@[j].filename@;
                                lemma_cmp_chars_antisymmetric(z, y);
                                lemma_cmp_chars_antisymmetric(x, z);
                                if cmp_chars(y, z) == Ordering::Less {
                                    lemma_cmp_chars_transitive(x, y, z, Ordering::Less);
                                }
                            }
                            assert forall|j: int|
                                0 <= j < k && is_fitting_wheel(#[trigger] files@[j], os@, arch@)
                                    implies cmp_chars(files@[j].filename@, x) == Ordering::Greater by {
                                let z = files@[j].filename@;
                                lemma_cmp_chars_antisymmetric(z, y);
                                lemma_cmp_chars_antisymmetric(x, z);
                                if cmp_chars(z, y) == Ordering::Greater {
                                    lemma_cmp_chars_transitive(z, y, x, Ordering::Greater);
                                }
                            }
                        }
                        best = Some(k);
                    }
                },
            }
        }
        k = k + 1;
    }
    match best {
        Some(b) => {
            let f = &files[b];
            proof {
                let i = ri as int;
                assert(is_first_fitting(proj.releases@[i].1@, os@, arch@, b as int));
                assert(release_of(*proj, proj.info.version@) matches Some(x) ==> is_fitting_wheel(
                    proj.releases@[x].1@[b as int],
                    os@,
                    arch@,
                ));
            }
            Ok(f)
        },
        None => Err(
            PypiError::NoWheel {
                os: os.to_string(),
                arch: arch.to_string(),
                version: proj.info.version.clone(),
            },
        ),
    }
}

} // verus!
