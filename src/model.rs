//! The registry of supported models and the decision to fetch one.

use crate::text::{ascii_lower, ascii_lowercase, str_eq, trim, trim_of};
use vstd::prelude::*;
use vstd::string::*;

verus! {

/// A supported model: its name, where its weights are published, and the
/// side of the square input it expects.
pub struct ModelSpec {
    pub name: String,
    pub url: String,
    pub input_size: u32,
}

/// A cached, ready-to-use model file.
pub struct ModelInstall {
    pub path: String,
    pub input_size: u32,
}

/// Progress of a model download, with the URL it concerns.
pub struct DownloadProgress {
    pub url: String,
    pub progress: crate::download::Progress,
}

#[derive(Debug, Clone, PartialEq, Eq)]
pub enum ModelError {
    /// No model of that (normalised) name is supported.
    Unsupported { name: String },
    /// The model is not cached and may not be downloaded.
    DownloadRequired { name: String, url: String },
}

/// The names of the supported models, for messages.
pub const SUPPORTED_MODELS: &'static str =
    "u2netp, u2net, u2net_human_seg, u2net_cloth_seg, silueta, isnet-general-use, isnet-anime";

/// The download URL and input size of each supported model.
pub open spec fn known_model(key: Seq<char>) -> Option<(Seq<char>, u32)> {
    if key == "u2netp"@ {
        Some(("https://github.com/danielgatis/rembg/releases/download/v0.0.0/u2netp.onnx"@, 320))
    } else if key == "u2net"@ {
        Some(("https://github.com/danielgatis/rembg/releases/download/v0.0.0/u2net.onnx"@, 320))
    } else if key == "u2net_human_seg"@ {
        Some(
            (
                "https://github.com/danielgatis/rembg/releases/download/v0.0.0/u2net_human_seg.onnx"@,
                320,
            ),
        )
    } else if key == "u2net_cloth_seg"@ {
        Some(
            (
                "https://github.com/danielgatis/rembg/releases/download/v0.0.0/u2net_cloth_seg.onnx"@,
                320,
            ),
        )
    } else if key == "silueta"@ {
        Some(("https://github.com/danielgatis/rembg/releases/download/v0.0.0/silueta.onnx"@, 320))
    } else if key == "isnet-general-use"@ {
        Some(
            (
                "https://github.com/danielgatis/rembg/releases/download/v0.0.0/isnet-general-use.onnx"@,
                1024,
            ),
        )
    } else if key == "isnet-anime"@ {
        Some(
            (
                "https://github.com/danielgatis/rembg/releases/download/v0.0.0/isnet-anime.onnx"@,
                1024,
            ),
        )
    } else {
        None
    }
}

/// The registry's answer for a normalised key.
pub open spec fn model_spec_ok(key: Seq<char>, r: Result<ModelSpec, ModelError>) -> bool {
    match known_model(key) {
        Some((url, size)) => r matches Ok(m) && m.name@ == key && m.url@ == url && m.input_size
            == size,
        None => r matches Err(ModelError::Unsupported { name }) && name@ == key,
    }
}

/// The model name as the registry reads it: trimmed and ASCII lower-cased.
pub open spec fn model_key(name: Seq<char>) -> Seq<char> {
    ascii_lower(trim_of(name))
}

fn entry(name: &str, url: &str, input_size: u32) -> (r: ModelSpec)
    ensures
        r.name@ == name@,
        r.url@ == url@,
        r.input_size == input_size,
{
    ModelSpec { name: String::from_str(name), url: String::from_str(url), input_size }
}

/// Looks a normalised model name up in the registry.
pub fn model_spec_for_key(key: &str) -> (r: Result<ModelSpec, ModelError>)
    ensures
        model_spec_ok(key@, r),
{
    if str_eq(key, "u2netp") {
        Ok(entry("u2netp", "https://github.com/danielgatis/rembg/releases/download/v0.0.0/u2netp.onnx", 320))
    } else if str_eq(key, "u2net") {
        Ok(entry("u2net", "https://github.com/danielgatis/rembg/releases/download/v0.0.0/u2net.onnx", 320))
    } else if str_eq(key, "u2net_human_seg") {
        Ok(
            entry(
                "u2net_human_seg",
                "https://github.com/danielgatis/rembg/releases/download/v0.0.0/u2net_human_seg.onnx",
                320,
            ),
        )
    } else if str_eq(key, "u2net_cloth_seg") {
        Ok(
            entry(
                "u2net_cloth_seg",
                "https://github.com/danielgatis/rembg/releases/download/v0.0.0/u2net_cloth_seg.onnx",
                320,
            ),
        )
    } else if str_eq(key, "silueta") {
        Ok(entry("silueta", "https://github.com/danielgatis/rembg/releases/download/v0.0.0/silueta.onnx", 320))
    } else if str_eq(key, "isnet-general-use") {
        Ok(
            entry(
                "isnet-general-use",
                "https://github.com/danielgatis/rembg/releases/download/v0.0.0/isnet-general-use.onnx",
                1024,
            ),
        )
    } else if str_eq(key, "isnet-anime") {
        Ok(
            entry(
                "isnet-anime",
                "https://github.com/danielgatis/rembg/releases/download/v0.0.0/isnet-anime.onnx",
                1024,
            ),
        )
    } else {
        Err(ModelError::Unsupported { name: String::from_str(key) })
    }
}

/// Looks a model up by name, ignoring surrounding white space and ASCII case.
pub fn model_spec(name: &str) -> (r: Result<ModelSpec, ModelError>)
    ensures
        model_spec_ok(model_key(name@), r),
{
    let key = ascii_lowercase(trim(name));
    model_spec_for_key(key.as_str())
}

/// The file name of a model in the cache's `models` directory.
pub fn model_file_name(spec: &ModelSpec) -> (r: String)
    ensures
        r@ == spec.name@ + ".onnx"@,
{
    spec.name.clone().concat(".onnx")
}

/// What ensuring a model takes.
pub struct ModelFetch {
    pub spec: ModelSpec,
    /// The file must be downloaded to the cache first.
    pub download: bool,
}

/// Decides how to make a model available, given whether its file is already
/// in the cache (see [`model_file_name`]). Downloading needs permission.
pub fn ensure_model_noninteractive(name: &str, allow_download: bool, cached: bool) -> (r: Result<
    ModelFetch,
    ModelError,
>)
    ensures
        known_model(model_key(name@)) is None ==> (r matches Err(ModelError::Unsupported { name: n })
            && n@ == model_key(name@)),
        known_model(model_key(name@)) matches Some((url, size)) ==> {
            if !cached && !allow_download {
                r matches Err(ModelError::DownloadRequired { name: n, url: u }) && n@ == model_key(
                    name@,
                ) && u@ == url
            } else {
                r matches Ok(f) && f.download == !cached && f.spec.name@ == model_key(name@)
                    && f.spec.url@ == url && f.spec.input_size == size
            }
        },
{
    let spec = model_spec(name)?;
    if !cached && !allow_download {
        return Err(ModelError::DownloadRequired { name: spec.name, url: spec.url });
    }
    Ok(ModelFetch { spec, download: !cached })
}

/// As [`ensure_model_noninteractive`], with downloads permitted.
pub fn ensure_model(name: &str, cached: bool) -> (r: Result<ModelFetch, ModelError>)
    ensures
        known_model(model_key(name@)) is None ==> (r matches Err(ModelError::Unsupported { name: n })
            && n@ == model_key(name@)),
        known_model(model_key(name@)) matches Some((url, size)) ==> (r matches Ok(f) && f.download
            == !cached && f.spec.name@ == model_key(name@) && f.spec.url@ == url && f.spec.input_size
            == size),
{
    ensure_model_noninteractive(name, true, cached)
}

} // verus!
