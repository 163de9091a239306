//! Platform enumeration, device enumeration and the string queries.

use gprust::host::{Host, PlatformRecord, DeviceRecord};
use gprust::platform::{self, Platform};
use gprust::device::{self, Device, TypeBuilder, Type};

fn plat(name: &str) -> PlatformRecord {
    PlatformRecord {
        name: name.as_bytes().to_vec(),
        vendor: b"Test Vendor".to_vec(),
        profile: b"FULL_PROFILE".to_vec(),
        version: b"OpenCL 1.2".to_vec(),
        extensions: b"ext_a ext_b".to_vec(),
    }
}

fn dev(platform: u64, name: &str, ty: u64) -> DeviceRecord {
    DeviceRecord {
        refcount: 1,
        name: name.as_bytes().to_vec(),
        device_type: ty,
        available: true,
        compiler_available: true,
        platform,
        parent: 0,
        partition_caps: vec![4230, 4231, 4232],
        partition_ty: Vec::new(),
        compute_units: 16,
        queue_props: 3,
        supports_interop_sync: true,
        builtin_kernels: b"fma;dot".to_vec(),
        extensions: b"khr_fp64 khr_il".to_vec(),
    }
}

fn gpu_cpu_host() -> Host {
    let mut host = Host::new();
    let p = host.add_platform(plat("Test Platform")).unwrap();
    host.add_root_device(dev(p, "Fast GPU", 4)).unwrap();
    host.add_root_device(dev(p, "Slow CPU", 2)).unwrap();
    host
}

#[test]
fn list_and_default_platform() {
    let host = gpu_cpu_host();
    let all = Platform::list(&host);
    assert_eq!(all.len(), 1);
    let first = Platform::default(&host).unwrap();
    assert_eq!(first, all[0]);
    let empty = Host::new();
    assert!(Platform::default(&empty).is_none());
}

#[test]
fn platform_name_query_strips_terminator() {
    let host = gpu_cpu_host();
    let p = Platform::default(&host).unwrap();
    let name = p.get_info::<platform::information::Name>(&host);
    assert_eq!(name, "Test Platform");
    let vendor = p.get_info::<platform::information::Vendor>(&host);
    assert_eq!(vendor, "Test Vendor");
}

#[test]
fn empty_string_query_gives_empty_string() {
    let mut host = Host::new();
    let mut record = plat("Test Platform");
    record.extensions = Vec::new();
    host.add_platform(record).unwrap();
    let p = Platform::default(&host).unwrap();
    let ext = p.get_info::<platform::information::Extensions>(&host);
    assert_eq!(ext, "");
}

#[test]
fn platform_extensions_split_on_spaces() {
    let host = gpu_cpu_host();
    let p = Platform::default(&host).unwrap();
    assert_eq!(p.extensions(&host), vec!["ext_a".to_string(), "ext_b".to_string()]);
}

#[test]
fn extension_lists_drop_empty_tokens() {
    let mut host = Host::new();
    let mut record = plat("Test Platform");
    record.extensions = b"  ext_a 	 ext_b  ".to_vec();
    let p_handle = host.add_platform(record).unwrap();
    let mut gpu = dev(p_handle, "Fast GPU", 4);
    gpu.extensions = Vec::new();
    host.add_root_device(gpu).unwrap();

    let p = Platform::default(&host).unwrap();
    // Whitespace runs separate tokens; no empty token appears.
    assert_eq!(p.extensions(&host), vec!["ext_a".to_string(), "ext_b".to_string()]);
    // An empty extensions string yields no tokens, not one empty token.
    let d = p.get_devices(Type::all(), &host).remove(0);
    assert_eq!(d.extensions(&host), Vec::<String>::new());
}

#[test]
fn get_devices_filters_by_type() {
    let host = gpu_cpu_host();
    let p = Platform::default(&host).unwrap();
    let gpus = p.get_devices(TypeBuilder::new().gpu().finish(), &host);
    assert_eq!(gpus.len(), 1);
    let both = p.get_devices(Type::all(), &host);
    assert_eq!(both.len(), 2);
}

#[test]
fn no_matching_device_gives_empty_list_not_error() {
    let host = gpu_cpu_host();
    let p = Platform::default(&host).unwrap();
    let accelerators = p.get_devices(TypeBuilder::new().accelerator().finish(), &host);
    assert_eq!(accelerators.len(), 0);
}

#[test]
fn match_device_is_case_insensitive() {
    let host = gpu_cpu_host();
    let p = Platform::default(&host).unwrap();
    let d = p.match_device("fast", &host).unwrap();
    let name = d.get_info::<device::information::Name>(&host);
    assert_eq!(name, "Fast GPU");
    assert!(p.match_device("missing", &host).is_none());
}

#[test]
fn device_lists_split_as_documented() {
    let host = gpu_cpu_host();
    let p = Platform::default(&host).unwrap();
    let d = p.get_devices(Type::all(), &host).remove(0);
    assert_eq!(d.builtin_kernels(&host), vec!["fma".to_string(), "dot".to_string()]);
    assert_eq!(d.extensions(&host), vec!["khr_fp64".to_string(), "khr_il".to_string()]);
}

#[test]
fn default_device_prefers_gpu_then_cpu() {
    let host = gpu_cpu_host();
    let d = Device::default(&host).unwrap();
    assert_eq!(d.get_info::<device::information::Name>(&host), "Fast GPU");

    let mut cpu_only = Host::new();
    let p = cpu_only.add_platform(plat("Test Platform")).unwrap();
    cpu_only.add_root_device(dev(p, "Slow CPU", 2)).unwrap();
    let d2 = Device::default(&cpu_only).unwrap();
    assert_eq!(d2.get_info::<device::information::Name>(&cpu_only), "Slow CPU");

    assert!(Device::default(&Host::new()).is_none());
}

#[test]
fn test_relation_to_platform() {
    let host = gpu_cpu_host();
    for p in Platform::list(&host) {
        for d in p.get_devices(Type::all(), &host) {
            assert_eq!(
                p.get_info::<platform::information::Name>(&host),
                d.get_info::<device::information::Platform>(&host)
                    .get_info::<platform::information::Name>(&host)
            )
        }
    }
}

#[test]
fn unwritten_parent_buffer_reads_as_root() {
    let mut host = gpu_cpu_host();
    host.set_parent_quirk(true);
    let p = Platform::default(&host).unwrap();
    let d = p.get_devices(Type::all(), &host).remove(0);
    // The driver leaves the parent buffer unwritten for roots; the engine's
    // pre-zeroed buffer must still read back a null parent.
    assert!(!d.is_subdevice(&host));
}
