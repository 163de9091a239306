//! Building a runtime model from the setup API.

use gprust::host::{Host, PlatformRecord, DeviceRecord};

fn plat(name: &str) -> PlatformRecord {
    PlatformRecord {
        name: name.as_bytes().to_vec(),
        vendor: b"Test Vendor".to_vec(),
        profile: b"FULL_PROFILE".to_vec(),
        version: b"OpenCL 1.2".to_vec(),
        extensions: b"ext_a ext_b".to_vec(),
    }
}

fn dev(platform: u64, name: &str, ty: u64) -> DeviceRecord {
    DeviceRecord {
        refcount: 1,
        name: name.as_bytes().to_vec(),
        device_type: ty,
        available: true,
        compiler_available: true,
        platform,
        parent: 0,
        partition_caps: vec![4230, 4231, 4232],
        partition_ty: Vec::new(),
        compute_units: 16,
        queue_props: 3,
        supports_interop_sync: true,
        builtin_kernels: b"fma;dot".to_vec(),
        extensions: b"khr_fp64 khr_il".to_vec(),
    }
}

#[test]
fn setup_accepts_well_formed_records() {
    let mut host = Host::new();
    let p = host.add_platform(plat("Test Platform")).unwrap();
    assert_eq!(p, 1);
    let d = host.add_root_device(dev(p, "Test GPU", 4)).unwrap();
    assert_eq!(d, 1);
}

#[test]
fn setup_rejects_malformed_records() {
    let mut host = Host::new();
    // A platform whose name is not seven-bit text is refused.
    let mut bad = plat("Test Platform");
    bad.name = vec![0xFF, 0xFE];
    assert!(host.add_platform(bad).is_none());
    // Native strings are C strings: an embedded terminator is refused too.
    let mut with_nul = plat("Test Platform");
    with_nul.vendor = vec![0x41, 0x00, 0x42];
    assert!(host.add_platform(with_nul).is_none());
    // A device with a dangling platform handle is refused.
    let p = host.add_platform(plat("Test Platform")).unwrap();
    assert!(host.add_root_device(dev(p + 7, "Loose", 4)).is_none());
}
