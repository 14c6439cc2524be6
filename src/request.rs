//! Options, results and progress events of a background-removal request.

use crate::cli;
use crate::download::Progress;
use vstd::prelude::*;

verus! {

#[derive(Debug, Clone, Copy, PartialEq, Eq, Structural)]
pub enum Device {
    Cpu,
    Gpu,
}

#[derive(Debug, Clone, Copy, PartialEq, Eq, Structural)]
pub enum GpuBackend {
    Auto,
    Directml,
    Cuda,
}

pub struct RemoveOptions {
    pub model: String,
    pub device: Device,
    pub gpu_backend: GpuBackend,
    pub mask_threshold: Option<u8>,
    pub bgcolor: Option<String>,
    /// If set, forces alpha to zero for pixels close to the estimated
    /// background color.
    pub color_key_tolerance: Option<u8>,
    /// If false, a request that needs a download fails instead.
    pub allow_download: bool,
    /// If true, the mask is returned as well.
    pub include_mask: bool,
}

pub struct RemoveResult {
    pub output_png: Vec<u8>,
    pub mask_png: Option<Vec<u8>>,
}

/// A progress notification of a request.
pub struct ProgressEvent {
    /// `decode`, `runtime`, `model`, `infer` or `encode`.
    pub stage: String,
    /// The URL being downloaded.
    pub url: Option<String>,
    pub downloaded: Option<u64>,
    pub total: Option<u64>,
    pub done: Option<bool>,
    pub message: Option<String>,
}

impl Device {
    pub fn to_cli(self) -> (r: cli::Device)
        ensures
            self == Device::Cpu ==> r == cli::Device::Cpu,
            self == Device::Gpu ==> r == cli::Device::Gpu,
    {
        match self {
            Device::Cpu => cli::Device::Cpu,
            Device::Gpu => cli::Device::Gpu,
        }
    }
}

impl GpuBackend {
    pub fn to_cli(self) -> (r: cli::GpuBackend)
        ensures
            self == GpuBackend::Auto ==> r == cli::GpuBackend::Auto,
            self == GpuBackend::Directml ==> r == cli::GpuBackend::Directml,
            self == GpuBackend::Cuda ==> r == cli::GpuBackend::Cuda,
    {
        match self {
            GpuBackend::Auto => cli::GpuBackend::Auto,
            GpuBackend::Directml => cli::GpuBackend::Directml,
            GpuBackend::Cuda => cli::GpuBackend::Cuda,
        }
    }
}

impl ProgressEvent {
    /// The event that opens a stage, with an optional message.
    pub fn stage(stage: &str, message: Option<String>) -> (r: ProgressEvent)
        ensures
            r.stage@ == stage@,
            r.url is None && r.downloaded is None && r.total is None && r.done is None,
            r.message == message,
    {
        ProgressEvent {
            stage: String::from_str(stage),
            url: None,
            downloaded: None,
            total: None,
            done: None,
            message,
        }
    }

    /// The event that reports a transfer of the stage.
    pub fn download(stage: &str, url: &str, p: Progress) -> (r: ProgressEvent)
        ensures
            r.stage@ == stage@,
            r.url matches Some(u) && u@ == url@,
            r.downloaded == Some(p.downloaded),
            r.total == p.total,
            r.done == Some(p.done),
            r.message is None,
    {
        ProgressEvent {
            stage: String::from_str(stage),
            url: Some(String::from_str(url)),
            downloaded: Some(p.downloaded),
            total: p.total,
            done: Some(p.done),
            message: None,
        }
    }
}

} // verus!
