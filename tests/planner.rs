use rembg_rs::cache::LibFile;
use rembg_rs::cli::{Args, Device, GpuBackend};
use rembg_rs::platform::{Arch, Os, Platform};
use rembg_rs::runtime::{
    consent_step, main_lib_after_extract, needs_gpu_prompt, normalize_arch, normalize_os,
    plan_noninteractive, resolve_plan, BackendGuard, CacheStatus, EnsureError, InitStep, Plan,
    PlanError, PreferredEp, RestartRequired, RuntimePackage, WheelStep, wheel_step,
};

const LINUX_X64: Platform = Platform { os: Os::Linux, arch: Arch::X86_64 };
const WIN_X64: Platform = Platform { os: Os::Windows, arch: Arch::X86_64 };
const WIN_ARM: Platform = Platform { os: Os::Windows, arch: Arch::Aarch64 };
const MAC_ARM: Platform = Platform { os: Os::Macos, arch: Arch::Aarch64 };
const NOTHING: CacheStatus = CacheStatus { directml: false, cuda: false };

fn args(device: Device, gpu_backend: GpuBackend, yes: bool) -> Args {
    Args {
        input: "in.jpg".to_string(),
        output: None,
        model: "u2netp".to_string(),
        device,
        gpu_backend,
        only_mask: false,
        mask_threshold: None,
        color_key_tolerance: None,
        bgcolor: None,
        yes,
    }
}

fn cpu(allow_download: bool) -> Plan {
    Plan { runtime_package: RuntimePackage::Cpu, ep: None, allow_download }
}

#[test]
fn cpu_on_linux_selects_plain_cpu_package() {
    let a = args(Device::Cpu, GpuBackend::Auto, false);
    assert!(!needs_gpu_prompt(&a, LINUX_X64, NOTHING));
    assert_eq!(resolve_plan(&a, LINUX_X64, NOTHING, false), Ok(cpu(false)));
    assert_eq!(plan_noninteractive(Device::Cpu, GpuBackend::Auto, true, LINUX_X64, NOTHING), Ok(cpu(true)));
}

#[test]
fn auto_on_windows_declined_keeps_cpu() {
    let a = args(Device::Auto, GpuBackend::Auto, false);
    assert!(needs_gpu_prompt(&a, WIN_X64, NOTHING));
    let plan = resolve_plan(&a, WIN_X64, NOTHING, false).unwrap();
    assert_eq!(plan, cpu(false));
    assert!(!plan.allow_download);
}

#[test]
fn auto_on_windows_accepted_enables_directml_download() {
    let a = args(Device::Auto, GpuBackend::Auto, false);
    assert_eq!(
        resolve_plan(&a, WIN_X64, NOTHING, true),
        Ok(Plan {
            runtime_package: RuntimePackage::DirectMl,
            ep: Some(PreferredEp::DirectML),
            allow_download: true
        })
    );
}

#[test]
fn gpu_auto_on_windows_uses_cached_directml() {
    let cached = CacheStatus { directml: true, cuda: false };
    let expected = Plan {
        runtime_package: RuntimePackage::DirectMl,
        ep: Some(PreferredEp::DirectML),
        allow_download: false,
    };
    assert_eq!(plan_noninteractive(Device::Gpu, GpuBackend::Auto, false, WIN_X64, cached), Ok(expected));
    let a = args(Device::Gpu, GpuBackend::Auto, false);
    assert_eq!(resolve_plan(&a, WIN_X64, cached, false), Ok(expected));
}

#[test]
fn gpu_auto_on_windows_uses_cached_cuda() {
    let cached = CacheStatus { directml: false, cuda: true };
    assert_eq!(
        plan_noninteractive(Device::Gpu, GpuBackend::Auto, false, WIN_X64, cached),
        Ok(Plan { runtime_package: RuntimePackage::Cuda, ep: Some(PreferredEp::Cuda), allow_download: false })
    );
    let a = args(Device::Auto, GpuBackend::Auto, false);
    assert!(!needs_gpu_prompt(&a, WIN_X64, cached));
}

#[test]
fn cuda_on_macos_is_unsupported() {
    let r = plan_noninteractive(Device::Gpu, GpuBackend::Cuda, true, MAC_ARM, NOTHING);
    assert_eq!(r, Err(PlanError::CudaUnsupported { platform: MAC_ARM }));
    let a = args(Device::Gpu, GpuBackend::Cuda, true);
    assert_eq!(resolve_plan(&a, MAC_ARM, NOTHING, false), Err(PlanError::CudaUnsupported { platform: MAC_ARM }));
}

#[test]
fn platform_matrix() {
    assert_eq!(
        plan_noninteractive(Device::Gpu, GpuBackend::Directml, true, LINUX_X64, NOTHING),
        Err(PlanError::DirectMlUnsupported { platform: LINUX_X64 })
    );
    assert_eq!(
        plan_noninteractive(Device::Gpu, GpuBackend::Cuda, true, WIN_ARM, NOTHING),
        Err(PlanError::CudaUnsupported { platform: WIN_ARM })
    );
    let linux_arm = Platform { os: Os::Linux, arch: Arch::Aarch64 };
    assert_eq!(
        plan_noninteractive(Device::Gpu, GpuBackend::Cuda, false, linux_arm, NOTHING),
        Ok(Plan { runtime_package: RuntimePackage::Cuda, ep: Some(PreferredEp::Cuda), allow_download: false })
    );
    assert_eq!(
        plan_noninteractive(Device::Gpu, GpuBackend::Auto, true, MAC_ARM, NOTHING),
        Err(PlanError::NoGpuBackend { platform: MAC_ARM })
    );
    assert_eq!(
        plan_noninteractive(Device::Gpu, GpuBackend::Auto, true, LINUX_X64, NOTHING),
        Ok(Plan { runtime_package: RuntimePackage::Cuda, ep: Some(PreferredEp::Cuda), allow_download: true })
    );
}

#[test]
fn cpu_on_windows_prefers_directml_package_when_available() {
    assert_eq!(
        plan_noninteractive(Device::Cpu, GpuBackend::Auto, true, WIN_X64, NOTHING),
        Ok(Plan { runtime_package: RuntimePackage::DirectMl, ep: None, allow_download: true })
    );
    assert_eq!(
        plan_noninteractive(Device::Cpu, GpuBackend::Auto, false, WIN_X64, NOTHING),
        Ok(cpu(false))
    );
    let cached = CacheStatus { directml: true, cuda: false };
    assert_eq!(
        plan_noninteractive(Device::Cpu, GpuBackend::Auto, false, WIN_X64, cached),
        Ok(Plan { runtime_package: RuntimePackage::DirectMl, ep: None, allow_download: false })
    );
    assert_eq!(
        plan_noninteractive(Device::Cpu, GpuBackend::Cuda, true, WIN_X64, cached),
        Ok(cpu(true))
    );
}

#[test]
fn auto_off_windows_never_prompts() {
    let a = args(Device::Auto, GpuBackend::Auto, false);
    assert!(!needs_gpu_prompt(&a, LINUX_X64, NOTHING));
    assert_eq!(resolve_plan(&a, LINUX_X64, NOTHING, true), Ok(cpu(false)));
}

#[test]
fn package_names() {
    assert_eq!(RuntimePackage::Cpu.name(), "onnxruntime");
    assert_eq!(RuntimePackage::DirectMl.name(), "onnxruntime-directml");
    assert_eq!(RuntimePackage::Cuda.name(), "onnxruntime-gpu");
}

#[test]
fn os_and_arch_normalisation() {
    assert_eq!(normalize_os("windows"), "windows");
    assert_eq!(normalize_os("macos"), "macos");
    assert_eq!(normalize_os("freebsd"), "linux");
    assert_eq!(normalize_arch("aarch64"), "aarch64");
    assert_eq!(normalize_arch("riscv64"), "riscv64");
    assert_eq!(Platform::from_names("windows", "x86_64"), WIN_X64);
    assert_eq!(Platform::from_names("freebsd", "riscv64"), Platform { os: Os::Other, arch: Arch::Other });
}

#[test]
fn archive_and_download_steps() {
    let p = cpu(false);
    assert_eq!(wheel_step(&p, true, false), Ok(WheelStep::UseArchive));
    assert_eq!(wheel_step(&p, false, true), Ok(WheelStep::AskUser));
    assert_eq!(
        wheel_step(&p, false, false),
        Err(EnsureError::DownloadRequired { package: RuntimePackage::Cpu })
    );
    assert_eq!(wheel_step(&cpu(true), false, false), Ok(WheelStep::Download));
    assert_eq!(consent_step(&p, true), Ok(WheelStep::Download));
    assert_eq!(consent_step(&p, false), Err(EnsureError::Cancelled { package: RuntimePackage::Cpu }));
}

#[test]
fn extracted_files_without_main_library_fail() {
    let p = cpu(true);
    let files = vec![LibFile { name: "libonnxruntime_providers_shared.so".to_string(), size: 1 }];
    assert_eq!(
        main_lib_after_extract(&p, Os::Linux, &files),
        Err(EnsureError::NoMainLibrary { package: RuntimePackage::Cpu })
    );
    let files = vec![LibFile { name: "libonnxruntime.so.1.20.0".to_string(), size: 1 }];
    assert_eq!(main_lib_after_extract(&p, Os::Linux, &files), Ok(0));
}

#[test]
fn init_guard_commits_once() {
    let mut g = BackendGuard::new();
    assert_eq!(g.check("/cache/a/libonnxruntime.so"), Ok(InitStep::Load));
    g.commit("/cache/a/libonnxruntime.so");
    assert_eq!(g.check("/cache/a/libonnxruntime.so"), Ok(InitStep::AlreadyLoaded));
    assert_eq!(
        g.check("/cache/b/libonnxruntime.so"),
        Err(RestartRequired {
            current: "/cache/a/libonnxruntime.so".to_string(),
            requested: "/cache/b/libonnxruntime.so".to_string()
        })
    );
    assert_eq!(g.committed().map(|s| s.as_str()), Some("/cache/a/libonnxruntime.so"));
}
