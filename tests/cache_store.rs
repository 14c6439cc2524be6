use rembg_rs::cache::{
    find_any_wheel, find_installed, find_main_lib, has_any_cached_runtime, is_runtime_lib_file,
    wheel_entry_target, DirEntryInfo, InstallLookup, LibFile, VersionDir,
};
use rembg_rs::platform::Os;

fn lib(name: &str, size: u64) -> LibFile {
    LibFile { name: name.to_string(), size }
}

fn entry(name: &str, is_file: bool) -> DirEntryInfo {
    DirEntryInfo { name: name.to_string(), is_file }
}

fn version(name: &str, libs: Vec<LibFile>, entries: Vec<DirEntryInfo>) -> VersionDir {
    VersionDir { name: name.to_string(), lib_files: libs, entries, recovery_attempted: false }
}

#[test]
fn main_lib_prefers_exact_name() {
    let files = vec![lib("libonnxruntime.so.1.20.0", 900), lib("libonnxruntime.so", 10)];
    assert_eq!(find_main_lib(Os::Linux, &files), Some(1));
}

#[test]
fn main_lib_falls_back_to_largest_match() {
    let files = vec![
        lib("libonnxruntime_providers_shared.so", 5000),
        lib("libonnxruntime.so.1.19", 300),
        lib("libonnxruntime.so.1.20", 800),
        lib("libonnxruntime.so.1.21", 800),
    ];
    assert_eq!(find_main_lib(Os::Linux, &files), Some(2));
    let mac = vec![lib("libonnxruntime.1.20.0.dylib", 70), lib("libother.dylib", 900)];
    assert_eq!(find_main_lib(Os::Macos, &mac), Some(0));
    let win = vec![lib("DirectML.dll", 900), lib("ONNXRUNTIME.DLL", 70)];
    assert_eq!(find_main_lib(Os::Windows, &win), Some(1));
    assert_eq!(find_main_lib(Os::Windows, &vec![lib("DirectML.dll", 1)]), None);
    assert_eq!(find_main_lib(Os::Linux, &vec![]), None);
}

#[test]
fn runtime_lib_names() {
    assert!(is_runtime_lib_file("x/capi/onnxruntime.DLL"));
    assert!(is_runtime_lib_file("libonnxruntime.so"));
    assert!(is_runtime_lib_file("libonnxruntime.so.1.20.0"));
    assert!(is_runtime_lib_file("libonnxruntime.1.20.0.dylib"));
    assert!(!is_runtime_lib_file("onnxruntime/capi/__init__.py"));
    assert!(!is_runtime_lib_file("libsome.soname"));
}

#[test]
fn archive_entries_are_flattened() {
    assert_eq!(
        wheel_entry_target("onnxruntime\\capi\\onnxruntime.dll", false),
        Ok(Some("onnxruntime.dll".to_string()))
    );
    assert_eq!(
        wheel_entry_target("onnxruntime/capi/libonnxruntime.so.1.20.0", false),
        Ok(Some("libonnxruntime.so.1.20.0".to_string()))
    );
    assert_eq!(wheel_entry_target("onnxruntime/capi/__init__.py", false), Ok(None));
    assert_eq!(wheel_entry_target("onnxruntime/lib/libonnxruntime.so", false), Ok(None));
    assert_eq!(wheel_entry_target("onnxruntime/capi/libx.so", true), Ok(None));
}

#[test]
fn wheel_archive_detection() {
    let entries = vec![entry("lib", false), entry(".whl", true), entry("a.WHL", false), entry("pkg.Whl", true)];
    assert_eq!(find_any_wheel(&entries), Some(3));
    assert_eq!(find_any_wheel(&vec![entry("notes.txt", true)]), None);
}

#[test]
fn any_cached_runtime() {
    let v = vec![
        version("1.0.0", vec![lib("readme", 1)], vec![]),
        version("1.1.0", vec![lib("libonnxruntime.so", 1)], vec![]),
    ];
    assert!(has_any_cached_runtime(Os::Linux, &v));
    assert!(!has_any_cached_runtime(Os::Windows, &v));
}

#[test]
fn populated_cache_is_found_without_download() {
    let v = vec![
        version("1.9.0", vec![lib("libonnxruntime.so", 10)], vec![]),
        version("1.10.0", vec![lib("libonnxruntime.so", 10)], vec![]),
        version("junk", vec![], vec![]),
    ];
    assert_eq!(find_installed(Os::Linux, &v), InstallLookup::Found { version: 1, lib: 0 });
    // A second lookup over the same cache gives the same answer.
    assert_eq!(find_installed(Os::Linux, &v), InstallLookup::Found { version: 1, lib: 0 });
}

#[test]
fn archive_only_version_is_extracted_then_found() {
    let mut v = vec![version(
        "1.20.0",
        vec![],
        vec![entry("onnxruntime-1.20.0-cp312-cp312-manylinux_2_27_x86_64.whl", true), entry("lib", false)],
    )];
    assert_eq!(find_installed(Os::Linux, &v), InstallLookup::Extract { version: 0, wheel: 0 });
    v[0].lib_files = vec![lib("libonnxruntime.so.1.20.0", 100)];
    v[0].recovery_attempted = true;
    assert_eq!(find_installed(Os::Linux, &v), InstallLookup::Found { version: 0, lib: 0 });
}

#[test]
fn failed_recovery_moves_to_older_version() {
    let mut v = vec![
        version("1.19.0", vec![lib("libonnxruntime.so", 10)], vec![]),
        version("1.20.0", vec![], vec![entry("x.whl", true)]),
    ];
    assert_eq!(find_installed(Os::Linux, &v), InstallLookup::Extract { version: 1, wheel: 0 });
    v[1].recovery_attempted = true;
    assert_eq!(find_installed(Os::Linux, &v), InstallLookup::Found { version: 0, lib: 0 });
    assert_eq!(find_installed(Os::Linux, &vec![]), InstallLookup::Missing);
}
