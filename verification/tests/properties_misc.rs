//! Property builders, their encodings, and error descriptions.

use gprust::host::{Host, PlatformRecord, DeviceRecord};
use gprust::platform::Platform;
use gprust::context::{self, Context, Properties};
use gprust::device::Type;
use gprust::partition::PartitionError;

fn plat() -> PlatformRecord {
    PlatformRecord {
        name: b"Test Platform".to_vec(),
        vendor: b"Test Vendor".to_vec(),
        profile: b"FULL_PROFILE".to_vec(),
        version: b"OpenCL 1.2".to_vec(),
        extensions: Vec::new(),
    }
}

fn dev(platform: u64) -> DeviceRecord {
    DeviceRecord {
        refcount: 1,
        name: b"Test Device".to_vec(),
        device_type: 4,
        available: true,
        compiler_available: true,
        platform,
        parent: 0,
        partition_caps: Vec::new(),
        partition_ty: Vec::new(),
        compute_units: 8,
        queue_props: 3,
        supports_interop_sync: true,
        builtin_kernels: Vec::new(),
        extensions: Vec::new(),
    }
}

#[test]
fn properties_builder_accessors() {
    let empty = Properties::new();
    assert!(empty.platform().is_none());
    assert!(!empty.interop_user_sync());

    let platform = Platform::from_ffi(1);
    let full = Properties::new().set_platform(platform).set_interop_user_sync();
    assert_eq!(full.platform(), Some(&platform));
    assert!(full.interop_user_sync());
}

#[test]
fn properties_encode_to_the_tagged_pair_list() {
    assert_eq!(Properties::new().into_ffi(), vec![0]);
    let platform = Platform::from_ffi(3);
    assert_eq!(
        Properties::new().set_platform(platform).into_ffi(),
        vec![4228, 3, 0]
    );
    assert_eq!(
        Properties::new().set_interop_user_sync().into_ffi(),
        vec![4229, 1, 0]
    );
}

#[test]
fn interop_sync_property_round_trips_through_the_context() {
    let mut host = Host::new();
    let p = host.add_platform(plat()).unwrap();
    host.add_root_device(dev(p)).unwrap();
    let devices = Platform::default(&host)
        .unwrap()
        .get_devices(Type::all(), &host);
    let properties = Properties::new().set_interop_user_sync();
    let made = Context::create(&devices, properties, &mut host).unwrap();
    assert_eq!(
        properties,
        made.get_info::<context::information::Properties>(&host)
    );
}

#[test]
fn error_descriptions_are_stable() {
    assert_eq!(PartitionError::NotSupported.describe(), "partition not supported");
    assert_eq!(PartitionError::InvalidArguments.describe(), "invalid arguments");
    assert_eq!(PartitionError::Failed.describe(), "partition failed");
    assert_eq!(
        context::CreationError::NoDevice.describe(),
        "no device was provided"
    );
    assert_eq!(
        context::CreationError::CannotSelectPlatform.describe(),
        "could not select a platform"
    );
}
