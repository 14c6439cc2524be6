use rembg_rs::model::{ensure_model, ensure_model_noninteractive, model_file_name, model_spec, model_spec_for_key, ModelError};

#[test]
fn registry_lookup_normalises_names() {
    let m = model_spec("  U2NetP \n").unwrap();
    assert_eq!(m.name, "u2netp");
    assert_eq!(m.url, "https://github.com/danielgatis/rembg/releases/download/v0.0.0/u2netp.onnx");
    assert_eq!(m.input_size, 320);
    let i = model_spec("isnet-anime").unwrap();
    assert_eq!(i.input_size, 1024);
    assert_eq!(model_file_name(&i), "isnet-anime.onnx");
}

#[test]
fn registry_by_key() {
    assert_eq!(model_spec_for_key("silueta").unwrap().input_size, 320);
    assert_eq!(model_spec_for_key("isnet-general-use").unwrap().input_size, 1024);
    assert_eq!(
        model_spec_for_key("U2NETP").err(),
        Some(ModelError::Unsupported { name: "U2NETP".to_string() })
    );
}

#[test]
fn unknown_model_fails() {
    assert_eq!(
        model_spec(" SAM ").err(),
        Some(ModelError::Unsupported { name: "sam".to_string() })
    );
}

#[test]
fn model_download_needs_permission() {
    assert_eq!(
        ensure_model_noninteractive("u2net", false, false).err(),
        Some(ModelError::DownloadRequired {
            name: "u2net".to_string(),
            url: "https://github.com/danielgatis/rembg/releases/download/v0.0.0/u2net.onnx".to_string()
        })
    );
    let cached = ensure_model_noninteractive("u2net", false, true).unwrap();
    assert!(!cached.download);
    let fetch = ensure_model("u2net_human_seg", false).unwrap();
    assert!(fetch.download);
    assert_eq!(fetch.spec.name, "u2net_human_seg");
}
