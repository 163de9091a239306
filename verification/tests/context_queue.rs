//! Context and command-queue creation, their error taxonomies, and the
//! property round trips.

use gprust::host::{Host, PlatformRecord, DeviceRecord};
use gprust::platform::Platform;
use gprust::device::{Device, TypeBuilder, Type};
use gprust::context::{self, Context, Properties};
use gprust::command_queue::{self, CommandQueue, PropertiesBuilder};
use gprust::mem::{self, Buffer, Flags, FlagsBuilder, CreationError as MemCreationError};

fn plat() -> PlatformRecord {
    PlatformRecord {
        name: b"Test Platform".to_vec(),
        vendor: b"Test Vendor".to_vec(),
        profile: b"FULL_PROFILE".to_vec(),
        version: b"OpenCL 1.2".to_vec(),
        extensions: Vec::new(),
    }
}

fn dev(platform: u64, ty: u64, available: bool, sync: bool, queue_props: u64) -> DeviceRecord {
    DeviceRecord {
        refcount: 1,
        name: b"Test Device".to_vec(),
        device_type: ty,
        available,
        compiler_available: true,
        platform,
        parent: 0,
        partition_caps: vec![4230],
        partition_ty: Vec::new(),
        compute_units: 8,
        queue_props,
        supports_interop_sync: sync,
        builtin_kernels: Vec::new(),
        extensions: Vec::new(),
    }
}

fn simple_host() -> Host {
    let mut host = Host::new();
    let p = host.add_platform(plat()).unwrap();
    host.add_root_device(dev(p, 4, true, true, 3)).unwrap();
    host.add_root_device(dev(p, 2, true, true, 3)).unwrap();
    host
}

#[test]
fn empty_device_list_always_fails_with_no_device() {
    let mut host = simple_host();
    let none: Vec<Device> = Vec::new();
    let plain = Context::create(&none, Properties::new(), &mut host);
    assert_eq!(plain, Err(context::CreationError::NoDevice));
    let platform = Platform::default(&host).unwrap();
    let fancy = Context::create(
        &none,
        Properties::new().set_platform(platform).set_interop_user_sync(),
        &mut host,
    );
    assert_eq!(fancy, Err(context::CreationError::NoDevice));
}

#[test]
fn unavailable_device_is_reported() {
    let mut host = Host::new();
    let p = host.add_platform(plat()).unwrap();
    host.add_root_device(dev(p, 4, false, true, 3)).unwrap();
    let devices = Platform::default(&host)
        .unwrap()
        .get_devices(Type::all(), &host);
    let made = Context::create(&devices, Properties::new(), &mut host);
    assert_eq!(made, Err(context::CreationError::DeviceNotAvailable));
}

#[test]
fn unsupported_interop_sync_is_reported() {
    let mut host = Host::new();
    let p = host.add_platform(plat()).unwrap();
    host.add_root_device(dev(p, 4, true, false, 3)).unwrap();
    let devices = Platform::default(&host)
        .unwrap()
        .get_devices(Type::all(), &host);
    let made = Context::create(
        &devices,
        Properties::new().set_interop_user_sync(),
        &mut host,
    );
    assert_eq!(made, Err(context::CreationError::InteropUserSyncNotSupported));
}

#[test]
fn failed_platform_selection_is_reported() {
    let mut host = simple_host();
    host.set_auto_select_platform(false);
    let devices = Platform::default(&host)
        .unwrap()
        .get_devices(Type::all(), &host);
    let made = Context::create(&devices, Properties::new(), &mut host);
    assert_eq!(made, Err(context::CreationError::CannotSelectPlatform));
    let platform = Platform::default(&host).unwrap();
    let pinned = Context::create(
        &devices,
        Properties::new().set_platform(platform),
        &mut host,
    );
    assert!(pinned.is_ok());
}

#[test]
fn test_relation_to_devices() {
    let mut host = simple_host();
    let platform = Platform::default(&host).unwrap();
    let devices = platform.get_devices(TypeBuilder::new().cpu().gpu().finish(), &host);
    let context = Context::create(&devices, Properties::new(), &mut host).unwrap();
    assert_eq!(
        devices.len(),
        context.get_info::<context::information::NumDevices>(&host) as usize
    );
}

#[test]
fn context_test_relation_to_properties() {
    let mut host = simple_host();
    let platform = Platform::default(&host).unwrap();
    for d in platform.get_devices(TypeBuilder::new().cpu().gpu().finish(), &host) {
        let single = vec![d];
        let context = Context::create(&single, Properties::new(), &mut host).unwrap();
        assert_eq!(
            Properties::new(),
            context.get_info::<context::information::Properties>(&host)
        );

        let properties = Properties::new().set_platform(platform);
        let context = Context::create(&single, properties, &mut host).unwrap();
        assert_eq!(
            properties,
            context.get_info::<context::information::Properties>(&host)
        );
    }
}

#[test]
fn context_refcount_follows_clones_and_drops() {
    let mut host = simple_host();
    let context = Context::default(&mut host).unwrap();
    assert_eq!(
        context.get_info::<context::information::ReferenceCount>(&host),
        1
    );
    let c1 = context.duplicate(&mut host);
    assert_eq!(
        context.get_info::<context::information::ReferenceCount>(&host),
        2
    );
    c1.destroy(&mut host);
    assert_eq!(
        context.get_info::<context::information::ReferenceCount>(&host),
        1
    );
}

#[test]
fn context_devices_query_returns_the_creating_devices() {
    let mut host = simple_host();
    let platform = Platform::default(&host).unwrap();
    let devices = platform.get_devices(Type::all(), &host);
    let context = Context::create(&devices, Properties::new(), &mut host).unwrap();
    let listed = context.devices(&mut host);
    assert_eq!(listed.len(), devices.len());
    for (a, b) in listed.iter().zip(devices.iter()) {
        assert_eq!(a, b);
    }
}

#[test]
fn test_relation_to_context_and_device() {
    let mut host = simple_host();
    let context = Context::default(&mut host).unwrap();
    let device = Device::default(&host).unwrap();
    let queue =
        CommandQueue::create(&context, &device, command_queue::Properties::new(), &mut host)
            .unwrap();

    assert_eq!(context, queue.context(&mut host));
    assert_eq!(device, queue.device(&mut host));
}

#[test]
fn command_queue_test_relation_to_properties() {
    let mut host = simple_host();
    let properties = PropertiesBuilder::new().profiling().finish();
    let context = Context::default(&mut host).unwrap();
    let device = Device::default(&host).unwrap();
    let queue = CommandQueue::create(&context, &device, properties, &mut host);

    // In case the profiling property is not supported...
    if let Ok(queue) = queue {
        assert_eq!(
            properties,
            queue.get_info::<command_queue::information::Properties>(&host)
        );
    }
}

#[test]
fn queue_errors_are_classified() {
    let mut host = Host::new();
    let p = host.add_platform(plat()).unwrap();
    host.add_root_device(dev(p, 4, true, true, 0)).unwrap();
    host.add_root_device(dev(p, 2, true, true, 3)).unwrap();
    let platform = Platform::default(&host).unwrap();
    let devices = platform.get_devices(Type::all(), &host);
    let first = vec![devices[0].duplicate(&mut host)];
    let context = Context::create(&first, Properties::new(), &mut host).unwrap();

    // The device supports no queue properties at all.
    let refused = CommandQueue::create(
        &context,
        &first[0],
        PropertiesBuilder::new().profiling().finish(),
        &mut host,
    );
    assert_eq!(refused, Err(command_queue::CreationError::PropertyNotSupported));

    // The second device is not part of the context.
    let stranger = CommandQueue::create(
        &context,
        &devices[1],
        command_queue::Properties::new(),
        &mut host,
    );
    assert_eq!(stranger, Err(command_queue::CreationError::InvalidDevice));
}

#[test]
fn buffer_flag_conflicts_are_rejected_before_any_call() {
    let mut host = simple_host();
    let context = Context::default(&mut host).unwrap();
    let conflicting = FlagsBuilder::new().read_write().read_only().finish();
    let made = Buffer::create(vec![1, 2, 3], &context, conflicting, &mut host);
    assert!(matches!(made, Err(MemCreationError::InvalidFlags(_))));
    let host_conflict = FlagsBuilder::new().host_no_access().host_read_only().finish();
    let made = Buffer::create(vec![1, 2, 3], &context, host_conflict, &mut host);
    assert!(matches!(made, Err(MemCreationError::InvalidFlags(_))));
}

#[test]
fn empty_buffer_data_is_rejected() {
    let mut host = simple_host();
    let context = Context::default(&mut host).unwrap();
    let made = Buffer::create(Vec::new(), &context, Flags::new(), &mut host);
    assert_eq!(made, Err(MemCreationError::NoData));
}

#[test]
fn buffer_allocation_failure_is_reported() {
    let mut host = simple_host();
    let context = Context::default(&mut host).unwrap();
    host.set_force_alloc_failure(true);
    let made = Buffer::create(vec![1, 2, 3], &context, Flags::new(), &mut host);
    assert_eq!(made, Err(MemCreationError::AllocationFailure));
}

#[test]
fn buffer_size_query_reports_the_data_length() {
    let mut host = simple_host();
    let context = Context::default(&mut host).unwrap();
    let buffer = Buffer::create(vec![1, 2, 3, 4], &context, Flags::new(), &mut host).unwrap();
    assert_eq!(buffer.get_info::<mem::information::Size>(&host), 4);
    assert_eq!(buffer.get_info::<mem::information::MapCount>(&host), 0);
    assert_eq!(buffer.get_info::<mem::information::ReferenceCount>(&host), 1);
}
