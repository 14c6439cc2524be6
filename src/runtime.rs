//! Execution planning: which backend package to provision and which execution
//! provider to prefer, and the decisions taken while provisioning it.

use crate::cache::{find_main_lib, has_main_lib, is_main_lib, LibFile};
use crate::cli::{Args, Device, GpuBackend};
use crate::platform::{Arch, Os, Platform};
use crate::text::str_eq;
use vstd::prelude::*;

verus! {

#[derive(Debug, Clone, Copy, PartialEq, Eq, Structural)]
pub enum PreferredEp {
    DirectML,
    Cuda,
}

/// A backend package of the package index.
#[derive(Debug, Clone, Copy, PartialEq, Eq, Structural)]
pub enum RuntimePackage {
    /// `onnxruntime`: CPU only.
    Cpu,
    /// `onnxruntime-directml`: CPU and DirectML.
    DirectMl,
    /// `onnxruntime-gpu`: CPU and CUDA.
    Cuda,
}

impl RuntimePackage {
    pub open spec fn spec_name(self) -> &'static str {
        match self {
            RuntimePackage::Cpu => "onnxruntime",
            RuntimePackage::DirectMl => "onnxruntime-directml",
            RuntimePackage::Cuda => "onnxruntime-gpu",
        }
    }

    /// The package's name on the index, which is also its cache directory.
    #[verifier::when_used_as_spec(spec_name)]
    pub fn name(self) -> (r: &'static str)
        ensures
            r == self.spec_name(),
    {
        match self {
            RuntimePackage::Cpu => "onnxruntime",
            RuntimePackage::DirectMl => "onnxruntime-directml",
            RuntimePackage::Cuda => "onnxruntime-gpu",
        }
    }

    /// The question asked before downloading the package.
    pub fn download_prompt(self) -> (r: &'static str)
        ensures
            self == RuntimePackage::Cpu ==> r@ == "Download ONNX Runtime CPU backend now?"@,
            self == RuntimePackage::DirectMl ==> r@ == "Download ONNX Runtime DirectML (GPU) backend now?"@,
            self == RuntimePackage::Cuda ==> r@ == "Download ONNX Runtime CUDA (GPU) backend now?"@,
    {
        match self {
            RuntimePackage::Cpu => "Download ONNX Runtime CPU backend now?",
            RuntimePackage::DirectMl => "Download ONNX Runtime DirectML (GPU) backend now?",
            RuntimePackage::Cuda => "Download ONNX Runtime CUDA (GPU) backend now?",
        }
    }
}

/// The resolved decision of one run.
#[derive(Debug, Clone, Copy, PartialEq, Eq, Structural)]
pub struct Plan {
    pub runtime_package: RuntimePackage,
    pub ep: Option<PreferredEp>,
    /// The package may be downloaded without asking again.
    pub allow_download: bool,
}

/// Which accelerator packages the cache already holds in a usable state.
#[derive(Debug, Clone, Copy, PartialEq, Eq, Structural)]
pub struct CacheStatus {
    pub directml: bool,
    pub cuda: bool,
}

#[derive(Debug, Clone, Copy, PartialEq, Eq, Structural)]
pub enum PlanError {
    /// DirectML was asked for off Windows.
    DirectMlUnsupported { platform: Platform },
    /// CUDA was asked for on a platform it does not support.
    CudaUnsupported { platform: Platform },
    /// No accelerator backend applies to the platform.
    NoGpuBackend { platform: Platform },
}

/// The accelerator chosen for `Auto`: on Windows the cached one, DirectML
/// before CUDA, and DirectML when neither is cached; CUDA on Linux; none
/// elsewhere.
pub open spec fn auto_backend(platform: Platform, cached: CacheStatus) -> GpuBackend {
    match platform.os {
        Os::Windows => if cached.directml {
            GpuBackend::Directml
        } else if cached.cuda {
            GpuBackend::Cuda
        } else {
            GpuBackend::Directml
        },
        Os::Linux => GpuBackend::Cuda,
        _ => GpuBackend::Auto,
    }
}

/// The platforms on which CUDA is offered.
pub open spec fn cuda_supported(platform: Platform) -> bool {
    (platform.os == Os::Windows && platform.arch == Arch::X86_64) || (platform.os == Os::Linux && (
    platform.arch == Arch::X86_64 || platform.arch == Arch::Aarch64))
}

/// The plan for GPU inference with the requested accelerator.
pub open spec fn gpu_plan_spec(
    backend: GpuBackend,
    platform: Platform,
    cached: CacheStatus,
    allow_download: bool,
) -> Result<Plan, PlanError> {
    let b = match backend {
        GpuBackend::Auto => auto_backend(platform, cached),
        other => other,
    };
    match b {
        GpuBackend::Directml => if platform.os == Os::Windows {
            Ok(
                Plan {
                    runtime_package: RuntimePackage::DirectMl,
                    ep: Some(PreferredEp::DirectML),
                    allow_download,
                },
            )
        } else {
            Err(PlanError::DirectMlUnsupported { platform })
        },
        GpuBackend::Cuda => if cuda_supported(platform) {
            Ok(
                Plan {
                    runtime_package: RuntimePackage::Cuda,
                    ep: Some(PreferredEp::Cuda),
                    allow_download,
                },
            )
        } else {
            Err(PlanError::CudaUnsupported { platform })
        },
        GpuBackend::Auto => Err(PlanError::NoGpuBackend { platform }),
    }
}

/// The plan for CPU inference: on Windows the DirectML package, which also
/// runs on the CPU, where it may be downloaded or is cached and CUDA was not
/// asked for; the plain CPU package otherwise.
pub open spec fn cpu_plan_spec(
    backend: GpuBackend,
    platform: Platform,
    cached: CacheStatus,
    allow_download: bool,
) -> Plan {
    if platform.os == Os::Windows && backend != GpuBackend::Cuda && (allow_download
        || cached.directml) {
        Plan { runtime_package: RuntimePackage::DirectMl, ep: None, allow_download }
    } else {
        Plan { runtime_package: RuntimePackage::Cpu, ep: None, allow_download }
    }
}

/// The plan of a run that cannot ask questions.
pub open spec fn plan_spec(
    device: Device,
    backend: GpuBackend,
    platform: Platform,
    cached: CacheStatus,
    allow_download: bool,
) -> Result<Plan, PlanError> {
    if device == Device::Cpu {
        Ok(cpu_plan_spec(backend, platform, cached, allow_download))
    } else {
        gpu_plan_spec(backend, platform, cached, allow_download)
    }
}

/// `Auto` asks the user on Windows when no accelerator package is cached,
/// unless "yes" was given in advance.
pub open spec fn gpu_prompt_needed(args: Args, platform: Platform, cached: CacheStatus) -> bool {
    args.device == Device::Auto && platform.os == Os::Windows && !cached.directml && !cached.cuda
        && !args.yes
}

/// Whether the run wants GPU inference, given the user's answer where one
/// was asked for.
pub open spec fn wants_gpu(args: Args, platform: Platform, cached: CacheStatus, accepted: bool) -> bool {
    match args.device {
        Device::Cpu => false,
        Device::Gpu => true,
        Device::Auto => platform.os == Os::Windows && (cached.directml || cached.cuda || args.yes
            || accepted),
    }
}

/// The plan of an interactive run. Accepting GPU support also permits its
/// download.
pub open spec fn resolve_spec(args: Args, platform: Platform, cached: CacheStatus, accepted: bool) -> Result<
    Plan,
    PlanError,
> {
    let allow = args.yes || (gpu_prompt_needed(args, platform, cached) && accepted);
    if wants_gpu(args, platform, cached, accepted) {
        gpu_plan_spec(args.gpu_backend, platform, cached, allow)
    } else {
        Ok(cpu_plan_spec(args.gpu_backend, platform, cached, allow))
    }
}

fn gpu_plan(backend: GpuBackend, platform: Platform, cached: CacheStatus, allow_download: bool) -> (r:
    Result<Plan, PlanError>)
    ensures
        r == gpu_plan_spec(backend, platform, cached, allow_download),
{
    let b = match backend {
        GpuBackend::Auto => match platform.os {
            Os::Windows => if cached.directml {
                GpuBackend::Directml
            } else if cached.cuda {
                GpuBackend::Cuda
            } else {
                GpuBackend::Directml
            },
            Os::Linux => GpuBackend::Cuda,
            _ => GpuBackend::Auto,
        },
        other => other,
    };
    match b {
        GpuBackend::Directml => {
            if !matches!(platform.os, Os::Windows) {
                return Err(PlanError::DirectMlUnsupported { platform });
            }
            Ok(
                Plan {
                    runtime_package: RuntimePackage::DirectMl,
                    ep: Some(PreferredEp::DirectML),
                    allow_download,
                },
            )
        },
        GpuBackend::Cuda => {
            let ok = (matches!(platform.os, Os::Windows) && matches!(platform.arch, Arch::X86_64))
                || (matches!(platform.os, Os::Linux) && (matches!(platform.arch, Arch::X86_64)
                || matches!(platform.arch, Arch::Aarch64)));
            if !ok {
                return Err(PlanError::CudaUnsupported { platform });
            }
            Ok(
                Plan {
                    runtime_package: RuntimePackage::Cuda,
                    ep: Some(PreferredEp::Cuda),
                    allow_download,
                },
            )
        },
        GpuBackend::Auto => Err(PlanError::NoGpuBackend { platform }),
    }
}

fn cpu_plan(backend: GpuBackend, platform: Platform, cached: CacheStatus, allow_download: bool) -> (r:
    Plan)
    ensures
        r == cpu_plan_spec(backend, platform, cached, allow_download),
{
    if matches!(platform.os, Os::Windows) && !matches!(backend, GpuBackend::Cuda) && (allow_download
        || cached.directml) {
        Plan { runtime_package: RuntimePackage::DirectMl, ep: None, allow_download }
    } else {
        Plan { runtime_package: RuntimePackage::Cpu, ep: None, allow_download }
    }
}

/// Resolves the plan of a run that cannot ask questions. `cached` says which
/// accelerator packages the cache holds in a usable state.
pub fn plan_noninteractive(
    device: Device,
    gpu_backend: GpuBackend,
    allow_download: bool,
    platform: Platform,
    cached: CacheStatus,
) -> (r: Result<Plan, PlanError>)
    ensures
        r == plan_spec(device, gpu_backend, platform, cached, allow_download),
{
    if matches!(device, Device::Cpu) {
        Ok(cpu_plan(gpu_backend, platform, cached, allow_download))
    } else {
        gpu_plan(gpu_backend, platform, cached, allow_download)
    }
}

/// Whether resolving the plan of an interactive run needs the user's answer
/// to "enable GPU acceleration?".
pub fn needs_gpu_prompt(args: &Args, platform: Platform, cached: CacheStatus) -> (r: bool)
    ensures
        r == gpu_prompt_needed(*args, platform, cached),
{
    matches!(args.device, Device::Auto) && matches!(platform.os, Os::Windows) && !cached.directml
        && !cached.cuda && !args.yes
}

/// Resolves the plan of an interactive run. `accepted` is the user's answer
/// to the GPU question; it is read only where [`needs_gpu_prompt`] holds.
pub fn resolve_plan(args: &Args, platform: Platform, cached: CacheStatus, accepted: bool) -> (r:
    Result<Plan, PlanError>)
    ensures
        r == resolve_spec(*args, platform, cached, accepted),
{
    let mut allow_download = args.yes;
    let want_gpu = match args.device {
        Device::Cpu => false,
        Device::Gpu => true,
        Device::Auto => {
            if !matches!(platform.os, Os::Windows) {
                false
            } else if cached.directml || cached.cuda {
                true
            } else {
                let ok = args.yes || accepted;
                if ok {
                    allow_download = true;
                }
                ok
            }
        },
    };
    if !want_gpu {
        return Ok(cpu_plan(args.gpu_backend, platform, cached, allow_download));
    }
    gpu_plan(args.gpu_backend, platform, cached, allow_download)
}

/// The operating system name used to pick a wheel: `windows`, `macos`, and
/// `linux` for every other system.
pub open spec fn normalized_os(os: Seq<char>) -> Seq<char> {
    if os == "windows"@ {
        "windows"@
    } else if os == "macos"@ {
        "macos"@
    } else {
        "linux"@
    }
}

pub fn normalize_os(os: &str) -> (r: String)
    ensures
        r@ == normalized_os(os@),
{
    if str_eq(os, "windows") {
        String::from_str("windows")
    } else if str_eq(os, "macos") {
        String::from_str("macos")
    } else {
        String::from_str("linux")
    }
}

/// The architecture name used to pick a wheel; the names of
/// `std::env::consts::ARCH` are used as they are.
pub fn normalize_arch(arch: &str) -> (r: String)
    ensures
        r@ == arch@,
{
    String::from_str(arch)
}

/// The installed backend library.
pub struct OnnxRuntimeInstall {
    pub main_lib: String,
}

/// Progress of a backend download, with the URL it concerns.
pub struct DownloadProgress {
    pub url: String,
    pub progress: crate::download::Progress,
}

/// What to do about the package's archive once the cache held no usable
/// version.
#[derive(Debug, Clone, Copy, PartialEq, Eq, Structural)]
pub enum WheelStep {
    /// The archive is already on disk: extract it.
    UseArchive,
    /// Download the archive, then extract it.
    Download,
    /// Ask the user before downloading.
    AskUser,
}

#[derive(Debug, Clone, Copy, PartialEq, Eq, Structural)]
pub enum EnsureError {
    /// A download is needed and was not permitted.
    DownloadRequired { package: RuntimePackage },
    /// The user declined the download.
    Cancelled { package: RuntimePackage },
    /// The extracted files hold no recognisable main library.
    NoMainLibrary { package: RuntimePackage },
}

/// Decides what to do about the archive of the plan's package. A run that
/// cannot ask fails where a download is needed and not permitted.
pub fn wheel_step(plan: &Plan, archive_present: bool, interactive: bool) -> (r: Result<
    WheelStep,
    EnsureError,
>)
    ensures
        archive_present ==> r == Ok::<WheelStep, EnsureError>(WheelStep::UseArchive),
        !archive_present && plan.allow_download ==> r == Ok::<WheelStep, EnsureError>(
            WheelStep::Download,
        ),
        !archive_present && !plan.allow_download && interactive ==> r == Ok::<
            WheelStep,
            EnsureError,
        >(WheelStep::AskUser),
        !archive_present && !plan.allow_download && !interactive ==> r == Err::<
            WheelStep,
            EnsureError,
        >(EnsureError::DownloadRequired { package: plan.runtime_package }),
{
    if archive_present {
        Ok(WheelStep::UseArchive)
    } else if plan.allow_download {
        Ok(WheelStep::Download)
    } else if interactive {
        Ok(WheelStep::AskUser)
    } else {
        Err(EnsureError::DownloadRequired { package: plan.runtime_package })
    }
}

/// The step after the user answered the download question.
pub fn consent_step(plan: &Plan, accepted: bool) -> (r: Result<WheelStep, EnsureError>)
    ensures
        accepted ==> r == Ok::<WheelStep, EnsureError>(WheelStep::Download),
        !accepted ==> r == Err::<WheelStep, EnsureError>(
            EnsureError::Cancelled { package: plan.runtime_package },
        ),
{
    if accepted {
        Ok(WheelStep::Download)
    } else {
        Err(EnsureError::Cancelled { package: plan.runtime_package })
    }
}

/// The main library among the files extracted from the downloaded archive.
pub fn main_lib_after_extract(plan: &Plan, os: Os, files: &Vec<LibFile>) -> (r: Result<
    usize,
    EnsureError,
>)
    ensures
        r is Err <==> !has_main_lib(os, files@),
        r matches Ok(i) ==> is_main_lib(os, files@, i as int),
        r matches Err(e) ==> e == (EnsureError::NoMainLibrary { package: plan.runtime_package }),
{
    match find_main_lib(os, files) {
        Some(i) => Ok(i),
        None => Err(EnsureError::NoMainLibrary { package: plan.runtime_package }),
    }
}

/// What committing a library into the process takes.
#[derive(Debug, Clone, Copy, PartialEq, Eq, Structural)]
pub enum InitStep {
    /// Nothing is committed yet: load the library, then [`BackendGuard::commit`] it.
    Load,
    /// This very library is already committed.
    AlreadyLoaded,
}

/// A different library is already committed into the process.
#[derive(Debug, Clone, PartialEq, Eq)]
pub struct RestartRequired {
    pub current: String,
    pub requested: String,
}

/// The one backend library committed into the process, set at most once.
pub struct BackendGuard {
    committed: Option<String>,
}

impl View for BackendGuard {
    type V = Option<Seq<char>>;

    closed spec fn view(&self) -> Option<Seq<char>> {
        match self.committed {
            Some(p) => Some(p@),
            None => None,
        }
    }
}

/// The outcome of an initialisation request, given what is committed.
pub open spec fn init_outcome(committed: Option<Seq<char>>, path: Seq<char>) -> Result<
    InitStep,
    Seq<char>,
> {
    match committed {
        None => Ok(InitStep::Load),
        Some(c) => if c == path {
            Ok(InitStep::AlreadyLoaded)
        } else {
            Err(c)
        },
    }
}

impl BackendGuard {
    pub fn new() -> (r: BackendGuard)
        ensures
            r@ is None,
    {
        BackendGuard { committed: None }
    }

    /// The committed library, if any.
    pub fn committed(&self) -> (r: Option<&String>)
        ensures
            match r {
                Some(p) => self@ == Some(p@),
                None => self@ is None,
            },
    {
        match &self.committed {
            Some(p) => Some(p),
            None => None,
        }
    }

    /// Decides what initialising with `path` takes: loading it where nothing
    /// is committed, nothing where it is, and a restart where another
    /// library is.
    pub fn check(&self, path: &str) -> (r: Result<InitStep, RestartRequired>)
        ensures
            match (r, init_outcome(self@, path@)) {
                (Ok(s), Ok(t)) => s == t,
                (Err(e), Err(c)) => e.current@ == c && e.requested@ == path@,
                _ => false,
            },
    {
        match &self.committed {
            None => Ok(InitStep::Load),
            Some(c) => {
                if str_eq(c.as_str(), path) {
                    Ok(InitStep::AlreadyLoaded)
                } else {
                    Err(RestartRequired { current: c.clone(), requested: path.to_string() })
                }
            },
        }
    }

    /// Records `path` as the committed library once it was loaded.
    pub fn commit(&mut self, path: &str)
        requires
            old(self)@ is None,
        ensures
            final(self)@ == Some(path@),
    {
        self.committed = Some(String::from_str(path));
    }
}

/// The first initialisation loads its library; repeating it with the same
/// library is a no-op; asking for another library afterwards fails with the
/// committed one named.
pub proof fn lemma_init_once(a: Seq<char>, b: Seq<char>)
    requires
        a != b,
    ensures
        init_outcome(None, a) == Ok::<InitStep, Seq<char>>(InitStep::Load),
        init_outcome(Some(a), a) == Ok::<InitStep, Seq<char>>(InitStep::AlreadyLoaded),
        init_outcome(Some(a), b) == Err::<InitStep, Seq<char>>(a),
{
}

/// DirectML is refused off Windows and CUDA off its supported platforms,
/// whenever GPU inference is asked for, in either mode; nothing falls back to
/// the CPU.
pub proof fn lemma_platform_matrix(
    device: Device,
    platform: Platform,
    cached: CacheStatus,
    allow_download: bool,
    args: Args,
    accepted: bool,
)
    ensures
        device != Device::Cpu && platform.os != Os::Windows ==> plan_spec(
            device,
            GpuBackend::Directml,
            platform,
            cached,
            allow_download,
        ) == Err::<Plan, PlanError>(PlanError::DirectMlUnsupported { platform }),
        device != Device::Cpu && !cuda_supported(platform) ==> plan_spec(
            device,
            GpuBackend::Cuda,
            platform,
            cached,
            allow_download,
        ) == Err::<Plan, PlanError>(PlanError::CudaUnsupported { platform }),
        wants_gpu(args, platform, cached, accepted) && args.gpu_backend == GpuBackend::Directml
            && platform.os != Os::Windows ==> resolve_spec(args, platform, cached, accepted) == Err::<
            Plan,
            PlanError,
        >(PlanError::DirectMlUnsupported { platform }),
        wants_gpu(args, platform, cached, accepted) && args.gpu_backend == GpuBackend::Cuda
            && !cuda_supported(platform) ==> resolve_spec(args, platform, cached, accepted) == Err::<
            Plan,
            PlanError,
        >(PlanError::CudaUnsupported { platform }),
{
}

/// Off Windows, CPU inference always takes the plain CPU package, and `Auto`
/// never asks and means CPU.
pub proof fn lemma_cpu_off_windows(
    backend: GpuBackend,
    platform: Platform,
    cached: CacheStatus,
    allow_download: bool,
    args: Args,
    accepted: bool,
)
    requires
        platform.os != Os::Windows,
    ensures
        plan_spec(Device::Cpu, backend, platform, cached, allow_download) == Ok::<Plan, PlanError>(
            Plan { runtime_package: RuntimePackage::Cpu, ep: None, allow_download },
        ),
        args.device == Device::Auto ==> !gpu_prompt_needed(args, platform, cached) && resolve_spec(
            args,
            platform,
            cached,
            accepted,
        ) == Ok::<Plan, PlanError>(
            Plan { runtime_package: RuntimePackage::Cpu, ep: None, allow_download: args.yes },
        ),
{
}

/// On Windows with an accelerator package cached, `Auto` turns GPU on
/// without asking, and an `Auto` accelerator is a cached one, DirectML first.
pub proof fn lemma_cached_accelerator_preferred(
    args: Args,
    platform: Platform,
    cached: CacheStatus,
    accepted: bool,
)
    requires
        platform.os == Os::Windows,
        cached.directml || cached.cuda,
        args.device != Device::Cpu,
        args.gpu_backend == GpuBackend::Auto,
    ensures
        !gpu_prompt_needed(args, platform, cached),
        cached.directml ==> resolve_spec(args, platform, cached, accepted) == Ok::<Plan, PlanError>(
            Plan {
                runtime_package: RuntimePackage::DirectMl,
                ep: Some(PreferredEp::DirectML),
                allow_download: args.yes,
            },
        ),
        !cached.directml && cached.cuda && platform.arch == Arch::X86_64 ==> resolve_spec(
            args,
            platform,
            cached,
            accepted,
        ) == Ok::<Plan, PlanError>(
            Plan {
                runtime_package: RuntimePackage::Cuda,
                ep: Some(PreferredEp::Cuda),
                allow_download: args.yes,
            },
        ),
{
}

/// Declining the GPU question keeps the plain CPU package and permits no
/// download.
pub proof fn lemma_declined_gpu_keeps_cpu(args: Args, platform: Platform, cached: CacheStatus)
    requires
        gpu_prompt_needed(args, platform, cached),
    ensures
        resolve_spec(args, platform, cached, false) == Ok::<Plan, PlanError>(
            Plan { runtime_package: RuntimePackage::Cpu, ep: None, allow_download: false },
        ),
{
}

} // verus!
