//! Program creation, the build flow, polling, and kernel creation.

use gprust::host::{Host, PlatformRecord, DeviceRecord};
use gprust::context::Context;
use gprust::program::{self, Builder, BuildError, BuildPoll, BuildStatus, SourceError};

fn plat() -> PlatformRecord {
    PlatformRecord {
        name: b"Test Platform".to_vec(),
        vendor: b"Test Vendor".to_vec(),
        profile: b"FULL_PROFILE".to_vec(),
        version: b"OpenCL 1.2".to_vec(),
        extensions: Vec::new(),
    }
}

fn dev(platform: u64, compiler_available: bool) -> DeviceRecord {
    DeviceRecord {
        refcount: 1,
        name: b"Test Device".to_vec(),
        device_type: 4,
        available: true,
        compiler_available,
        platform,
        parent: 0,
        partition_caps: Vec::new(),
        partition_ty: Vec::new(),
        compute_units: 8,
        queue_props: 3,
        supports_interop_sync: true,
        builtin_kernels: Vec::new(),
        extensions: Vec::new(),
    }
}

fn compiling_host() -> Host {
    let mut host = Host::new();
    let p = host.add_platform(plat()).unwrap();
    host.add_root_device(dev(p, true)).unwrap();
    assert!(host.set_built_kernel_names(b"scale;offset".to_vec()));
    host
}

const SOURCE: &str = "__kernel void scale(__global float * buffer) {\
                      buffer[get_global_id(0)] *= 2; }";

#[test]
fn no_sources_is_rejected() {
    let mut host = compiling_host();
    let context = Context::default(&mut host).unwrap();
    let none: Vec<String> = Vec::new();
    let made = Builder::create_with_sources(&none, &context, &mut host);
    assert_eq!(made, Err(SourceError::NoSources));
}

#[test]
fn successful_build_exposes_kernel_names() {
    let mut host = compiling_host();
    let context = Context::default(&mut host).unwrap();
    let sources = vec![SOURCE.to_string()];
    let builder = Builder::create_with_sources(&sources, &context, &mut host).unwrap();
    let mut pending = builder.build(&mut host);
    let program = match pending.poll(&host) {
        BuildPoll::Ready(p) => p,
        other => panic!("build did not settle: {:?}", other),
    };
    assert_eq!(
        program.get_build_info::<program::information::BuildStatus>(&host),
        BuildStatus::Success
    );
    assert_eq!(
        program.kernel_names(&host),
        vec!["scale".to_string(), "offset".to_string()]
    );
    assert_eq!(
        program.get_info::<program::information::NumKernels>(&host),
        2
    );
    let source_back = program.get_info::<program::information::Source>(&host);
    assert_eq!(source_back, SOURCE);
}

#[test]
fn missing_compiler_is_reported() {
    let mut host = Host::new();
    let p = host.add_platform(plat()).unwrap();
    host.add_root_device(dev(p, false)).unwrap();
    let context = Context::default(&mut host).unwrap();
    let sources = vec![SOURCE.to_string()];
    let builder = Builder::create_with_sources(&sources, &context, &mut host).unwrap();
    let mut pending = builder.build(&mut host);
    match pending.poll(&host) {
        BuildPoll::Failed(BuildError::CompilerNotAvailable) => {},
        other => panic!("unexpected outcome: {:?}", other),
    }
}

#[test]
fn failed_build_carries_the_log() {
    let mut host = compiling_host();
    assert!(host.set_force_build_failure(true, b"line 1: bad token".to_vec()));
    let context = Context::default(&mut host).unwrap();
    let sources = vec![SOURCE.to_string()];
    let builder = Builder::create_with_sources(&sources, &context, &mut host).unwrap();
    let mut pending = builder.build(&mut host);
    match pending.poll(&host) {
        BuildPoll::Failed(BuildError::BuildFailed(log)) => {
            assert_eq!(log, "line 1: bad token");
        },
        other => panic!("unexpected outcome: {:?}", other),
    }
}

#[test]
fn polling_a_spent_future_reports_it() {
    let mut host = compiling_host();
    let context = Context::default(&mut host).unwrap();
    let sources = vec![SOURCE.to_string()];
    let builder = Builder::create_with_sources(&sources, &context, &mut host).unwrap();
    let mut pending = builder.build(&mut host);
    match pending.poll(&host) {
        BuildPoll::Ready(_) => {},
        other => panic!("build did not settle: {:?}", other),
    }
    match pending.poll(&host) {
        BuildPoll::Failed(BuildError::CompilerNotAvailable) => {},
        other => panic!("unexpected outcome: {:?}", other),
    }
}

#[test]
fn malformed_build_options_are_rejected() {
    let mut host = compiling_host();
    let context = Context::default(&mut host).unwrap();
    let sources = vec![SOURCE.to_string()];
    let builder = Builder::create_with_sources(&sources, &context, &mut host).unwrap();
    // Every options token must open with a dash; a bare word is refused.
    let mut pending = builder.build_with_options("bogus", &mut host);
    match pending.poll(&host) {
        BuildPoll::Failed(BuildError::InvalidBuildOptions) => {},
        other => panic!("unexpected outcome: {:?}", other),
    }
}

#[test]
fn kernels_are_created_from_listed_names() {
    let mut host = compiling_host();
    let context = Context::default(&mut host).unwrap();
    let sources = vec![SOURCE.to_string()];
    let builder = Builder::create_with_sources(&sources, &context, &mut host).unwrap();
    let mut pending = builder.build_with_options("-Werror", &mut host);
    let program = match pending.poll(&host) {
        BuildPoll::Ready(p) => p,
        other => panic!("build did not settle: {:?}", other),
    };
    assert_eq!(
        program.get_build_info::<program::information::BuildOptions>(&host),
        "-Werror"
    );
    let kernel = program.create_kernel("scale", &mut host);
    let copy = kernel.duplicate(&mut host);
    copy.destroy(&mut host);
    kernel.destroy(&mut host);
}
