//! The partition state machine and the retain/release discipline.

use gprust::host::{Host, PlatformRecord, DeviceRecord};
use gprust::platform::Platform;
use gprust::device::{self, Device, Type, ParentDevice};
use gprust::partition::{
    PartitionType, PartitionError, AffinityDomainBuilder, decode_partition_list,
};

fn plat() -> PlatformRecord {
    PlatformRecord {
        name: b"Test Platform".to_vec(),
        vendor: b"Test Vendor".to_vec(),
        profile: b"FULL_PROFILE".to_vec(),
        version: b"OpenCL 1.2".to_vec(),
        extensions: Vec::new(),
    }
}

fn dev(platform: u64, caps: Vec<i64>) -> DeviceRecord {
    DeviceRecord {
        refcount: 1,
        name: b"Test GPU".to_vec(),
        device_type: 4,
        available: true,
        compiler_available: true,
        platform,
        parent: 0,
        partition_caps: caps,
        partition_ty: Vec::new(),
        compute_units: 16,
        queue_props: 3,
        supports_interop_sync: true,
        builtin_kernels: Vec::new(),
        extensions: Vec::new(),
    }
}

fn one_device_host(caps: Vec<i64>) -> (Host, Device) {
    let mut host = Host::new();
    let p = host.add_platform(plat()).unwrap();
    host.add_root_device(dev(p, caps)).unwrap();
    let d = Platform::default(&host)
        .unwrap()
        .get_devices(Type::all(), &host)
        .remove(0);
    (host, d)
}

#[test]
fn partition_equally_creates_sub_devices() {
    let (mut host, d) = one_device_host(vec![4230, 4231, 4232]);
    let subs = d.partition(PartitionType::Equally(8), &mut host).unwrap();
    assert_eq!(subs.len(), 2);
    for sub in &subs {
        assert!(sub.is_subdevice(&host));
        assert_eq!(
            sub.get_info::<device::information::MaxComputeUnits>(&host),
            8
        );
    }
}

#[test]
fn sub_device_parent_marker_names_the_original() {
    let (mut host, d) = one_device_host(vec![4230, 4231, 4232]);
    let subs = d.partition(PartitionType::Equally(8), &mut host).unwrap();
    for sub in subs {
        assert_eq!(
            sub.parent_device(&mut host),
            ParentDevice::Device(Device { device_id: d.device_id })
        );
    }
}

#[test]
fn test_relation_to_sub_device_partition_type() {
    let (mut host, d) = one_device_host(vec![4230, 4231, 4232]);
    if let Ok(sub_devices) = d.partition(PartitionType::Equally(8), &mut host) {
        for sub in sub_devices {
            assert_eq!(
                sub.get_info::<device::information::PartitionType>(&host),
                Some(PartitionType::Equally(8))
            )
        }
    }
}

#[test]
fn partition_by_counts_round_trips_through_the_marker() {
    let (mut host, d) = one_device_host(vec![4230, 4231, 4232]);
    let subs = d
        .partition(PartitionType::ByCounts(vec![3, 5]), &mut host)
        .unwrap();
    assert_eq!(subs.len(), 2);
    assert_eq!(
        subs[0].get_info::<device::information::MaxComputeUnits>(&host),
        3
    );
    assert_eq!(
        subs[1].get_info::<device::information::MaxComputeUnits>(&host),
        5
    );
    for sub in subs {
        assert_eq!(
            sub.get_info::<device::information::PartitionType>(&host),
            Some(PartitionType::ByCounts(vec![3, 5]))
        );
    }
}

#[test]
fn partition_by_affinity_round_trips_through_the_marker() {
    let (mut host, d) = one_device_host(vec![4230, 4231, 4232]);
    let domain = AffinityDomainBuilder::new().next_partitionable().finish();
    let subs = d
        .partition(PartitionType::ByAffinityDomain(domain), &mut host)
        .unwrap();
    assert_eq!(subs.len(), 2);
    for sub in subs {
        assert_eq!(
            sub.get_info::<device::information::PartitionType>(&host),
            Some(PartitionType::ByAffinityDomain(domain))
        );
    }
}

#[test]
fn descriptor_encoding_round_trips() {
    let cases = vec![
        PartitionType::Equally(8),
        PartitionType::ByCounts(vec![3, 5, 7]),
        PartitionType::ByAffinityDomain(AffinityDomainBuilder::new().numa().l3_cache().finish()),
    ];
    for descriptor in cases {
        let encoded = descriptor.clone().to_ffi();
        assert_eq!(decode_partition_list(&encoded), Some(Some(descriptor)));
    }
}

#[test]
fn unsupported_partition_issues_no_native_call() {
    let (mut host, d) = one_device_host(vec![4230]);
    let calls_before = host.partition_calls;
    let outcome = d.partition(PartitionType::ByCounts(vec![1, 1]), &mut host);
    assert_eq!(outcome, Err(PartitionError::NotSupported));
    assert_eq!(host.partition_calls, calls_before);
}

#[test]
fn invalid_partition_arguments_are_reported() {
    let (mut host, d) = one_device_host(vec![4230, 4231, 4232]);
    assert_eq!(
        d.partition(PartitionType::Equally(0), &mut host),
        Err(PartitionError::InvalidArguments)
    );
    assert_eq!(
        d.partition(PartitionType::ByCounts(vec![]), &mut host),
        Err(PartitionError::InvalidArguments)
    );
}

#[test]
fn oversubscribed_partition_fails() {
    let (mut host, d) = one_device_host(vec![4230, 4231, 4232]);
    assert_eq!(
        d.partition(PartitionType::Equally(64), &mut host),
        Err(PartitionError::Failed)
    );
    assert_eq!(
        d.partition(PartitionType::ByCounts(vec![10, 10]), &mut host),
        Err(PartitionError::Failed)
    );
}

#[test]
fn sub_device_refcount_follows_clones_and_drops() {
    let (mut host, d) = one_device_host(vec![4230, 4231, 4232]);
    let mut subs = d.partition(PartitionType::Equally(8), &mut host).unwrap();
    let sub = subs.remove(0);
    assert_eq!(sub.get_info::<device::information::ReferenceCount>(&host), 1);
    let c1 = sub.duplicate(&mut host);
    let c2 = sub.duplicate(&mut host);
    assert_eq!(sub.get_info::<device::information::ReferenceCount>(&host), 3);
    c1.destroy(&mut host);
    assert_eq!(sub.get_info::<device::information::ReferenceCount>(&host), 2);
    c2.destroy(&mut host);
    assert_eq!(sub.get_info::<device::information::ReferenceCount>(&host), 1);
}

#[test]
fn root_devices_are_never_counted() {
    let (mut host, d) = one_device_host(vec![4230]);
    let count_before = host.devices[0].refcount;
    let copy = d.duplicate(&mut host);
    copy.destroy(&mut host);
    assert_eq!(host.devices[0].refcount, count_before);
    assert!(!d.is_subdevice(&host));
}
