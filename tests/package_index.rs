use rembg_rs::pypi::{
    select_wheel, wheel_matches, PypiDigests, PypiError, PypiInfo, PypiProject, PypiReleaseFile,
};

fn file(name: &str, kind: &str) -> PypiReleaseFile {
    PypiReleaseFile {
        filename: name.to_string(),
        url: format!("https://files.example/{name}"),
        packagetype: kind.to_string(),
        digests: PypiDigests { sha256: "00".to_string() },
    }
}

fn project(version: &str, releases: Vec<(String, Vec<PypiReleaseFile>)>) -> PypiProject {
    PypiProject { info: PypiInfo { version: version.to_string() }, releases }
}

#[test]
fn wheel_platform_tags() {
    assert!(wheel_matches("ort-1.20.0-cp312-cp312-win_amd64.whl", "windows", "x86_64"));
    assert!(!wheel_matches("ort-1.20.0-cp312-cp312-win_amd64.whl", "windows", "aarch64"));
    assert!(wheel_matches("ort-1.20.0-cp312-cp312-win_arm64.whl", "windows", "aarch64"));
    assert!(wheel_matches("ort-1.20.0-cp312-cp312-manylinux_2_27_x86_64.whl", "linux", "x86_64"));
    assert!(!wheel_matches("ort-1.20.0-cp312-cp312-musllinux_1_2_x86_64.whl", "linux", "x86_64"));
    assert!(wheel_matches("ort-1.20.0-cp312-cp312-manylinux_2_27_aarch64.whl", "linux", "aarch64"));
    assert!(wheel_matches("ort-1.20.0-cp312-cp312-macosx_13_0_arm64.whl", "macos", "aarch64"));
    assert!(wheel_matches("ort-1.20.0-cp312-cp312-macosx_13_0_x86_64.whl", "macos", "x86_64"));
    assert!(!wheel_matches("ort-1.20.0-cp312-cp312-macosx_13_0_x86_64.whl", "linux", "x86_64"));
    assert!(!wheel_matches("ort-1.20.0-cp312-cp312-win_amd64.whl", "freebsd", "x86_64"));
}

#[test]
fn selects_first_fitting_wheel_by_name() {
    let files = vec![
        file("onnxruntime-1.20.0.tar.gz", "sdist"),
        file("onnxruntime-1.20.0-cp313-cp313-win_amd64.whl", "bdist_wheel"),
        file("onnxruntime-1.20.0-cp310-cp310-win_amd64.whl", "bdist_wheel"),
        file("onnxruntime-1.20.0-cp311-cp311-win_amd64.whl", "bdist_wheel"),
        file("onnxruntime-1.20.0-cp39-cp39-manylinux_2_27_x86_64.whl", "bdist_wheel"),
    ];
    let proj = project(
        "1.20.0",
        vec![("1.19.0".to_string(), vec![]), ("1.20.0".to_string(), files)],
    );
    let w = select_wheel(&proj, "windows", "x86_64").unwrap();
    assert_eq!(w.filename, "onnxruntime-1.20.0-cp310-cp310-win_amd64.whl");
    let l = select_wheel(&proj, "linux", "x86_64").unwrap();
    assert_eq!(l.filename, "onnxruntime-1.20.0-cp39-cp39-manylinux_2_27_x86_64.whl");
}

#[test]
fn source_archive_is_never_selected() {
    let proj = project(
        "1.0",
        vec![("1.0".to_string(), vec![file("pkg-1.0-win_amd64.whl", "sdist")])],
    );
    assert_eq!(
        select_wheel(&proj, "windows", "x86_64").err(),
        Some(PypiError::NoWheel {
            os: "windows".to_string(),
            arch: "x86_64".to_string(),
            version: "1.0".to_string()
        })
    );
}

#[test]
fn missing_release_entry_fails() {
    let proj = project("2.0", vec![("1.0".to_string(), vec![])]);
    assert_eq!(
        select_wheel(&proj, "linux", "x86_64").err(),
        Some(PypiError::MissingRelease { version: "2.0".to_string() })
    );
}
