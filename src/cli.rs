//! The command-line choices that steer provisioning.

use vstd::prelude::*;

verus! {

#[derive(Debug, Clone, Copy, PartialEq, Eq, Structural)]
pub enum Device {
    /// Always use CPU inference.
    Cpu,
    /// Prefer GPU.
    Gpu,
    /// CPU unless GPU support is already cached or the user accepts it (Windows).
    Auto,
}

#[derive(Debug, Clone, Copy, PartialEq, Eq, Structural)]
pub enum GpuBackend {
    /// Platform default (Windows: DirectML, Linux: CUDA).
    Auto,
    /// Windows only, uses DirectML (DirectX 12).
    Directml,
    /// NVIDIA CUDA execution provider (Windows x64, Linux x64/aarch64).
    Cuda,
}

/// The program's arguments.
pub struct Args {
    /// Input image path.
    pub input: String,
    /// Output image path.
    pub output: Option<String>,
    /// Model name.
    pub model: String,
    pub device: Device,
    pub gpu_backend: GpuBackend,
    /// Output just the mask.
    pub only_mask: bool,
    /// Binarize the mask at this threshold.
    pub mask_threshold: Option<u8>,
    /// Force alpha to zero for pixels close to the estimated background color.
    pub color_key_tolerance: Option<u8>,
    /// Composite over a solid background (`RRGGBB` or `#RRGGBB`).
    pub bgcolor: Option<String>,
    /// Assume "yes" for interactive prompts.
    pub yes: bool,
}

} // verus!
