//! The high-level `Device` type: a reference to one physical or logical
//! compute device.
//!
//! Devices come in two disjoint categories with different lifetime rules: a
//! root device, obtained from platform enumeration, is never reference
//! counted by this layer; a sub-device, produced by partitioning, is
//! retained on every duplication and released on every destruction. An
//! opaquely obtained handle does not announce its category, so the category
//! is discovered by querying the parent marker: sub-devices report their
//! parent's handle, root devices report null.

pub mod information;

use vstd::prelude::*;
use crate::host::{
    Host, InfoTarget, eq_except_devices, eq_except_partition, same_device_except_count,
    partition_plan, sub_device_rec, device_info_bytes,
};
use crate::information::{InformationResult, ask_info_bytes, query, lemma_u64_decode};
use crate::bytes::{lemma_prop_words_roundtrip, is_ascii_bytes};
use crate::text::{split_text, split_to_strings, split_tokens_text, split_to_token_strings};
use crate::host::SEP_SEMICOLON;
use crate::errors::RawError;
use crate::codes::{
    CL_SUCCESS, CL_INVALID_VALUE, CL_DEVICE_PARTITION_FAILED, CL_DEVICE_PARENT_DEVICE,
    CL_DEVICE_EXTENSIONS, CL_DEVICE_BUILT_IN_KERNELS, CL_DEVICE_TYPE_GPU, CL_DEVICE_TYPE_CPU,
    CL_DEVICE_TYPE_ACCELERATOR, CL_DEVICE_TYPE_DEFAULT, CL_DEVICE_TYPE_CUSTOM,
    CL_DEVICE_TYPE_ALL, CL_DEVICE_PARTITION_EQUALLY, CL_DEVICE_PARTITION_BY_COUNTS,
    CL_DEVICE_PARTITION_BY_AFFINITY_DOMAIN,
};
use crate::partition::{
    PartitionType, PartitionError, PartitionProperties, spec_is_supported, spec_encode_partition,
};

verus! {

/// High-level bitfield over the device-type bits.
#[derive(Clone, Copy, Debug, PartialEq, Eq, Hash, Structural)]
pub struct Type {
    /// The raw device-type bits.
    pub bitfield: u64,
}

impl Type {
    /// Return a zeroed bitfield.
    pub fn new() -> (r: Self)
        ensures
            r.bitfield == 0,
    {
        Type { bitfield: 0 }
    }

    /// Return the raw bits.
    pub fn get_bitfield(&self) -> (r: u64)
        ensures
            r == self.bitfield,
    {
        self.bitfield
    }

    /// Return `true` if the `gpu` bit is set.
    pub fn gpu(&self) -> (r: bool)
        ensures
            r == (self.bitfield & CL_DEVICE_TYPE_GPU == CL_DEVICE_TYPE_GPU),
    {
        self.bitfield & CL_DEVICE_TYPE_GPU == CL_DEVICE_TYPE_GPU
    }

    /// Return `true` if the `cpu` bit is set.
    pub fn cpu(&self) -> (r: bool)
        ensures
            r == (self.bitfield & CL_DEVICE_TYPE_CPU == CL_DEVICE_TYPE_CPU),
    {
        self.bitfield & CL_DEVICE_TYPE_CPU == CL_DEVICE_TYPE_CPU
    }

    /// Return `true` if the `accelerator` bit is set.
    pub fn accelerator(&self) -> (r: bool)
        ensures
            r == (self.bitfield & CL_DEVICE_TYPE_ACCELERATOR == CL_DEVICE_TYPE_ACCELERATOR),
    {
        self.bitfield & CL_DEVICE_TYPE_ACCELERATOR == CL_DEVICE_TYPE_ACCELERATOR
    }

    /// Return `true` if the `default` bit is set.
    pub fn default_bit(&self) -> (r: bool)
        ensures
            r == (self.bitfield & CL_DEVICE_TYPE_DEFAULT == CL_DEVICE_TYPE_DEFAULT),
    {
        self.bitfield & CL_DEVICE_TYPE_DEFAULT == CL_DEVICE_TYPE_DEFAULT
    }

    /// Return `true` if the `custom` bit is set.
    pub fn custom(&self) -> (r: bool)
        ensures
            r == (self.bitfield & CL_DEVICE_TYPE_CUSTOM == CL_DEVICE_TYPE_CUSTOM),
    {
        self.bitfield & CL_DEVICE_TYPE_CUSTOM == CL_DEVICE_TYPE_CUSTOM
    }

    /// The bitfield combining all device types.
    pub fn all() -> (r: Self)
        ensures
            r.bitfield == CL_DEVICE_TYPE_ALL,
    {
        Type { bitfield: CL_DEVICE_TYPE_ALL }
    }
}

/// Builder pattern struct for `Type`.
#[derive(Clone, Copy, Debug, PartialEq, Eq, Structural)]
pub struct TypeBuilder {
    /// The bits set so far.
    pub bitfield: u64,
}

impl TypeBuilder {
    /// Initialize the builder with a zeroed bitfield.
    pub fn new() -> (r: Self)
        ensures
            r.bitfield == 0,
    {
        TypeBuilder { bitfield: 0 }
    }

    /// Set the `gpu` bit.
    pub fn gpu(self) -> (r: Self)
        ensures
            r.bitfield == self.bitfield | CL_DEVICE_TYPE_GPU,
    {
        TypeBuilder { bitfield: self.bitfield | CL_DEVICE_TYPE_GPU }
    }

    /// Set the `cpu` bit.
    pub fn cpu(self) -> (r: Self)
        ensures
            r.bitfield == self.bitfield | CL_DEVICE_TYPE_CPU,
    {
        TypeBuilder { bitfield: self.bitfield | CL_DEVICE_TYPE_CPU }
    }

    /// Set the `accelerator` bit.
    pub fn accelerator(self) -> (r: Self)
        ensures
            r.bitfield == self.bitfield | CL_DEVICE_TYPE_ACCELERATOR,
    {
        TypeBuilder { bitfield: self.bitfield | CL_DEVICE_TYPE_ACCELERATOR }
    }

    /// Set the `custom` bit.
    pub fn custom(self) -> (r: Self)
        ensures
            r.bitfield == self.bitfield | CL_DEVICE_TYPE_CUSTOM,
    {
        TypeBuilder { bitfield: self.bitfield | CL_DEVICE_TYPE_CUSTOM }
    }

    /// Output a `Type` bitfield.
    pub fn finish(self) -> (r: Type)
        ensures
            r.bitfield == self.bitfield,
    {
        Type { bitfield: self.bitfield }
    }
}

/// `Device` is a reference to a physical or logical device. The reference
/// count of a sub-device is incremented on duplication and decremented on
/// destruction; root devices are never counted.
#[derive(Debug, PartialEq, Eq, Structural)]
pub struct Device {
    /// The raw native handle.
    pub device_id: u64,
}

/// An enum used to represent a parent device.
#[derive(Debug, PartialEq, Eq, Structural)]
pub enum ParentDevice {
    /// The device queried against was a root device.
    Root,
    /// The parent of the sub-device queried against.
    Device(Device),
}

/// The partition capability set a device's capability tags denote.
pub open spec fn device_caps(host: &Host, d: u64) -> PartitionProperties {
    PartitionProperties {
        equally: host.dev(d).partition_caps@.contains(CL_DEVICE_PARTITION_EQUALLY),
        by_counts: host.dev(d).partition_caps@.contains(CL_DEVICE_PARTITION_BY_COUNTS),
        by_affinity_domain: host.dev(d).partition_caps@.contains(
            CL_DEVICE_PARTITION_BY_AFFINITY_DOMAIN,
        ),
    }
}

impl Device {
    /// A device reference is backed by a live native record: the handle is
    /// valid, and a sub-device holds at least one count.
    pub open spec fn wf(&self, host: &Host) -> bool {
        &&& host.valid_device(self.device_id)
        &&& (host.dev(self.device_id).parent != 0 ==> host.dev(self.device_id).refcount >= 1)
    }

    /// Return the raw handle.
    pub fn underlying(&self) -> (r: u64)
        ensures
            r == self.device_id,
    {
        self.device_id
    }

    /// Wrap a handle. With `retain`, the category is discovered through the
    /// parent marker and a sub-device's count is incremented; a root device
    /// is never counted, whatever `retain` says.
    pub fn from_ffi(device_id: u64, retain: bool, host: &mut Host) -> (r: Device)
        requires
            old(host).wf(),
            old(host).valid_device(device_id),
            old(host).dev(device_id).refcount < u32::MAX,
            !retain && old(host).dev(device_id).parent != 0 ==> old(host).dev(
                device_id,
            ).refcount >= 1,
        ensures
            r.device_id == device_id,
            final(host).wf(),
            r.wf(final(host)),
            retain && old(host).dev(device_id).parent != 0 ==> {
                &&& eq_except_devices(*old(host), *final(host))
                &&& final(host).devices@.len() == old(host).devices@.len()
                &&& final(host).dev(device_id).refcount == old(host).dev(device_id).refcount + 1
                &&& same_device_except_count(final(host).dev(device_id), old(host).dev(device_id))
                &&& forall|j: int|
                    0 <= j < old(host).devices@.len() && j != device_id - 1 ==> final(host).devices@[j] == old(host).devices@[j]
            },
            !(retain && old(host).dev(device_id).parent != 0) ==> *final(host) == *old(host),
    {
        if retain {
            let parent = query_parent_handle(host, device_id);
            if parent != 0 {
                let _ = host.retain_device(device_id);
            }
        }
        Device { device_id }
    }

    /// Duplicate the reference: a sub-device gains one native count, a root
    /// device is left untouched. The category is queried, not stored.
    pub fn duplicate(&self, host: &mut Host) -> (r: Device)
        requires
            old(host).wf(),
            self.wf(old(host)),
            old(host).dev(self.device_id).refcount < u32::MAX,
        ensures
            r.device_id == self.device_id,
            final(host).wf(),
            r.wf(final(host)),
            self.wf(final(host)),
            old(host).dev(self.device_id).parent != 0 ==> {
                &&& eq_except_devices(*old(host), *final(host))
                &&& final(host).devices@.len() == old(host).devices@.len()
                &&& final(host).dev(self.device_id).refcount == old(host).dev(
                    self.device_id,
                ).refcount + 1
                &&& same_device_except_count(
                    final(host).dev(self.device_id),
                    old(host).dev(self.device_id),
                )
                &&& forall|j: int|
                    0 <= j < old(host).devices@.len() && j != self.device_id - 1 ==> final(host).devices@[j] == old(host).devices@[j]
            },
            old(host).dev(self.device_id).parent == 0 ==> *final(host) == *old(host),
    {
        Device::from_ffi(self.device_id, true, host)
    }

    /// Destroy the reference: a sub-device loses one native count, a root
    /// device is left untouched. The category is queried, not stored.
    pub fn destroy(self, host: &mut Host)
        requires
            old(host).wf(),
            self.wf(old(host)),
        ensures
            final(host).wf(),
            old(host).dev(self.device_id).parent != 0 ==> {
                &&& eq_except_devices(*old(host), *final(host))
                &&& final(host).devices@.len() == old(host).devices@.len()
                &&& final(host).dev(self.device_id).refcount == old(host).dev(
                    self.device_id,
                ).refcount - 1
                &&& same_device_except_count(
                    final(host).dev(self.device_id),
                    old(host).dev(self.device_id),
                )
                &&& forall|j: int|
                    0 <= j < old(host).devices@.len() && j != self.device_id - 1 ==> final(host).devices@[j] == old(host).devices@[j]
            },
            old(host).dev(self.device_id).parent == 0 ==> *final(host) == *old(host),
    {
        let parent = query_parent_handle(host, self.device_id);
        if parent != 0 {
            let _ = host.release_device(self.device_id);
        }
    }

    /// Query an information of the device. `T` should be a marker type from
    /// the `information` module.
    pub fn get_info<T: information::DeviceInformation>(&self, host: &Host) -> (r: T::Result)
        requires
            host.wf(),
            self.wf(host),
            device_info_bytes(host.dev(self.device_id), T::spec_id()) is Some,
            <T::Result as InformationResult>::spec_decode(
                device_info_bytes(host.dev(self.device_id), T::spec_id())->Some_0,
            ) is Some,
        ensures
            <T::Result as InformationResult>::spec_decode(
                device_info_bytes(host.dev(self.device_id), T::spec_id())->Some_0,
            ) == Some(r.model()),
    {
        query::<T>(host, InfoTarget::Device(self.device_id))
    }

    /// Query the parent marker: the parent device of a sub-device (wrapped
    /// with its count incremented), or `ParentDevice::None` for a root.
    pub fn parent_device(&self, host: &mut Host) -> (r: ParentDevice)
        requires
            old(host).wf(),
            self.wf(old(host)),
            old(host).dev(self.device_id).parent != 0 ==> old(host).dev(
                old(host).dev(self.device_id).parent,
            ).refcount < u32::MAX,
        ensures
            final(host).wf(),
            self.wf(final(host)),
            old(host).dev(self.device_id).parent == 0 ==> r == ParentDevice::Root && *final(host)
                == *old(host),
            old(host).dev(self.device_id).parent != 0 ==> {
                let parent = old(host).dev(self.device_id).parent;
                &&& r == ParentDevice::Device(Device { device_id: parent })
                &&& (Device { device_id: parent }).wf(final(host))
                &&& (old(host).dev(parent).parent == 0 ==> *final(host) == *old(host))
                &&& (old(host).dev(parent).parent != 0 ==> {
                    &&& eq_except_devices(*old(host), *final(host))
                    &&& final(host).devices@.len() == old(host).devices@.len()
                    &&& final(host).dev(parent).refcount == old(host).dev(parent).refcount + 1
                    &&& same_device_except_count(final(host).dev(parent), old(host).dev(parent))
                    &&& forall|j: int|
                        0 <= j < old(host).devices@.len() && j != parent - 1 ==> final(host).devices@[j] == old(host).devices@[j]
                })
            },
    {
        let parent = query_parent_handle(host, self.device_id);
        if parent == 0 {
            ParentDevice::Root
        } else {
            let d = Device::from_ffi(parent, true, host);
            ParentDevice::Device(d)
        }
    }

    /// Return `true` if the device is a sub device.
    pub fn is_subdevice(&self, host: &Host) -> (r: bool)
        requires
            host.wf(),
            self.wf(host),
        ensures
            r == (host.dev(self.device_id).parent != 0),
    {
        let parent = query_parent_handle_shared(host, self.device_id);
        parent != 0
    }

    /// Return the list of built-in kernels supported by the device.
    pub fn builtin_kernels(&self, host: &Host) -> (r: Vec<String>)
        requires
            host.wf(),
            self.wf(host),
        ensures
            r@.map_values(|s: String| s@) == split_text(
                host.dev(self.device_id).builtin_kernels@,
                SEP_SEMICOLON,
            ),
    {
        let text = fetch_device_text(host, self.device_id, CL_DEVICE_BUILT_IN_KERNELS);
        split_to_strings(&text, SEP_SEMICOLON)
    }

    /// Return the list of extensions supported by the device: the
    /// whitespace-separated tokens of the extensions string, with no empty
    /// tokens, and none at all for an empty string.
    pub fn extensions(&self, host: &Host) -> (r: Vec<String>)
        requires
            host.wf(),
            self.wf(host),
        ensures
            r@.map_values(|s: String| s@) == split_tokens_text(
                host.dev(self.device_id).extensions@,
            ),
    {
        let text = fetch_device_text(host, self.device_id, CL_DEVICE_EXTENSIONS);
        split_to_token_strings(&text)
    }

    /// Issue the two-call partition convention for an already-encoded
    /// descriptor list, wrapping each created handle as a sub-device.
    fn partition_unchecked(&self, props: &Vec<i64>, host: &mut Host) -> (r: Result<
        Vec<Device>,
        RawError,
    >)
        requires
            old(host).wf(),
            self.wf(old(host)),
            old(host).partition_calls + 2 <= u64::MAX,
            old(host).devices@.len() + 0x100000000 < u64::MAX,
        ensures
            final(host).wf(),
            self.wf(final(host)),
            eq_except_partition(*old(host), *final(host)),
            ({
                let plan = partition_plan(
                    old(host).dev(self.device_id).partition_caps@,
                    old(host).dev(self.device_id).compute_units,
                    props@,
                );
                &&& (plan.0 != CL_SUCCESS ==> r == Err::<Vec<Device>, RawError>(
                    RawError { code: plan.0 },
                ) && final(host).devices == old(host).devices && final(host).partition_calls
                    == old(host).partition_calls + 1)
                &&& (plan.0 == CL_SUCCESS ==> {
                    &&& r is Ok
                    &&& final(host).partition_calls == old(host).partition_calls + 2
                    &&& final(host).devices@.len() == old(host).devices@.len() + plan.1.len()
                    &&& forall|j: int|
                        0 <= j < old(host).devices@.len() ==> final(host).devices@[j] == old(host).devices@[j]
                    &&& r->Ok_0@.len() == plan.1.len()
                    &&& forall|j: int|
                        0 <= j < plan.1.len() ==> (#[trigger] r->Ok_0@[j]).device_id == old(host).devices@.len() + j + 1
                    &&& forall|j: int|
                        0 <= j < plan.1.len() ==> sub_device_rec(
                            #[trigger] final(host).devices@[old(host).devices@.len() + j],
                            old(host).dev(self.device_id),
                            self.device_id,
                            props@,
                            plan.1[j],
                        )
                })
            }),
    {
        let (status, _none, count) = host.create_sub_devices(self.device_id, props, 0, false);
        if status != CL_SUCCESS {
            return Err(RawError { code: status });
        }
        let (status2, handles, _count2) = host.create_sub_devices(
            self.device_id,
            props,
            count,
            true,
        );
        let n: usize = handles.len();
        let mut out: Vec<Device> = Vec::new();
        let mut j: usize = 0;
        while j < n
            invariant
                j <= n,
                n == handles@.len(),
                out@.len() == j,
                forall|q: int|
                    0 <= q < j ==> (#[trigger] out@[q]).device_id == handles@[q],
            decreases n - j,
        {
            out.push(Device { device_id: handles[j] });
            j = j + 1;
        }
        Ok(out)
    }

    /// Partition the device according to `partition`.
    ///
    /// The device's partition capabilities are queried first; an
    /// unsupported strategy fails with `NotSupported` before any native
    /// partition call is issued, which the unchanged partition-call counter
    /// witnesses. A supported strategy is encoded to the native tagged list
    /// and handed to the two-call creation convention; its failures map to
    /// `InvalidArguments` and `Failed`.
    pub fn partition(&self, partition: PartitionType, host: &mut Host) -> (r: Result<
        Vec<Device>,
        PartitionError,
    >)
        requires
            old(host).wf(),
            self.wf(old(host)),
            old(host).partition_calls + 2 <= u64::MAX,
            old(host).devices@.len() + 0x100000000 < u64::MAX,
        ensures
            final(host).wf(),
            self.wf(final(host)),
            !spec_is_supported(partition@, device_caps(old(host), self.device_id)) ==> r == Err::<
                Vec<Device>,
                PartitionError,
            >(PartitionError::NotSupported) && *final(host) == *old(host),
            spec_is_supported(partition@, device_caps(old(host), self.device_id)) ==> ({
                let plan = partition_plan(
                    old(host).dev(self.device_id).partition_caps@,
                    old(host).dev(self.device_id).compute_units,
                    spec_encode_partition(partition@),
                );
                &&& eq_except_partition(*old(host), *final(host))
                &&& (plan.0 == CL_INVALID_VALUE ==> r == Err::<Vec<Device>, PartitionError>(
                    PartitionError::InvalidArguments,
                ) && final(host).devices == old(host).devices)
                &&& (plan.0 == CL_DEVICE_PARTITION_FAILED ==> r == Err::<
                    Vec<Device>,
                    PartitionError,
                >(PartitionError::Failed) && final(host).devices == old(host).devices)
                &&& (plan.0 == CL_SUCCESS ==> {
                    &&& r is Ok
                    &&& final(host).devices@.len() == old(host).devices@.len() + plan.1.len()
                    &&& forall|j: int|
                        0 <= j < old(host).devices@.len() ==> final(host).devices@[j] == old(host).devices@[j]
                    &&& r->Ok_0@.len() == plan.1.len()
                    &&& forall|j: int|
                        0 <= j < plan.1.len() ==> (#[trigger] r->Ok_0@[j]).device_id == old(host).devices@.len() + j + 1
                    &&& forall|j: int|
                        0 <= j < plan.1.len() ==> sub_device_rec(
                            #[trigger] final(host).devices@[old(host).devices@.len() + j],
                            old(host).dev(self.device_id),
                            self.device_id,
                            spec_encode_partition(partition@),
                            plan.1[j],
                        )
                })
            }),
    {
        proof {
            lemma_prop_words_roundtrip(host.dev(self.device_id).partition_caps@);
        }
        let caps = self.get_info::<information::PartitionProperties>(host);
        if !partition.is_supported(caps) {
            return Err(PartitionError::NotSupported);
        }
        let props = partition.to_ffi();
        let result = self.partition_unchecked(&props, host);
        proof {
            lemma_partition_plan_status(
                old(host).dev(self.device_id).partition_caps@,
                old(host).dev(self.device_id).compute_units,
                props@,
            );
        }
        match result {
            Ok(subs) => Ok(subs),
            Err(e) => {
                if e.code == CL_DEVICE_PARTITION_FAILED {
                    Err(PartitionError::Failed)
                } else {
                    Err(PartitionError::InvalidArguments)
                }
            },
        }
    }
}

/// The root devices of every platform, in enumeration order, from platform
/// table index `i` on.
pub open spec fn devices_of_platforms(host: &Host, i: int) -> Seq<u64>
    decreases host.platforms@.len() - i,
{
    if i < 0 || i >= host.platforms@.len() {
        Seq::empty()
    } else {
        host.matching_devices((i + 1) as u64, CL_DEVICE_TYPE_ALL) + devices_of_platforms(
            host,
            i + 1,
        )
    }
}

/// The listed devices that report themselves available.
pub open spec fn filter_available(host: &Host, s: Seq<u64>) -> Seq<u64>
    decreases s.len(),
{
    if s.len() == 0 {
        Seq::empty()
    } else {
        let rest = filter_available(host, s.skip(1));
        if host.dev(s[0]).available {
            seq![s[0]] + rest
        } else {
            rest
        }
    }
}

/// The first listed device whose type matches `bits`.
pub open spec fn first_of_type(host: &Host, s: Seq<u64>, bits: u64) -> Option<u64>
    decreases s.len(),
{
    if s.len() == 0 {
        None
    } else if host.dev(s[0]).device_type & bits != 0 {
        Some(s[0])
    } else {
        first_of_type(host, s.skip(1), bits)
    }
}

/// Filtering distributes over concatenation.
pub proof fn lemma_filter_available_concat(host: &Host, a: Seq<u64>, b: Seq<u64>)
    ensures
        filter_available(host, a + b) == filter_available(host, a) + filter_available(host, b),
    decreases a.len(),
{
    if a.len() == 0 {
        assert(a + b =~= b);
        assert(filter_available(host, a) + filter_available(host, b) =~= filter_available(
            host,
            b,
        ));
    } else {
        assert((a + b).skip(1) =~= a.skip(1) + b);
        lemma_filter_available_concat(host, a.skip(1), b);
        assert((a + b)[0] == a[0]);
        if host.dev(a[0]).available {
            assert(seq![a[0]] + (filter_available(host, a.skip(1)) + filter_available(host, b))
                =~= (seq![a[0]] + filter_available(host, a.skip(1))) + filter_available(host, b));
        }
    }
}

/// Every filtered device was in the original list.
pub proof fn lemma_filter_available_member(host: &Host, s: Seq<u64>)
    ensures
        forall|j: int|
            0 <= j < filter_available(host, s).len() ==> s.contains(
                #[trigger] filter_available(host, s)[j],
            ) && host.dev(filter_available(host, s)[j]).available,
    decreases s.len(),
{
    if s.len() > 0 {
        lemma_filter_available_member(host, s.skip(1));
        let rest = filter_available(host, s.skip(1));
        assert forall|j: int|
            0 <= j < filter_available(host, s).len() implies s.contains(
            #[trigger] filter_available(host, s)[j],
        ) && host.dev(filter_available(host, s)[j]).available by {
            if host.dev(s[0]).available && j == 0 {
                assert(filter_available(host, s)[0] == s[0]);
                assert(s[0] == s[0]);
            } else {
                let x = if host.dev(s[0]).available {
                    rest[j - 1]
                } else {
                    rest[j]
                };
                assert(s.skip(1).contains(x));
                let k = choose|k: int| 0 <= k < s.skip(1).len() && s.skip(1)[k] == x;
                assert(s[k + 1] == x);
            }
        }
    }
}

/// Every device of every platform's enumeration is a valid root device.
pub proof fn lemma_devices_of_platforms_props(host: &Host, i: int)
    requires
        0 <= i <= host.platforms@.len(),
        host.devices@.len() <= u32::MAX,
    ensures
        forall|j: int|
            0 <= j < devices_of_platforms(host, i).len() ==> {
                let x = #[trigger] devices_of_platforms(host, i)[j];
                &&& host.valid_device(x)
                &&& host.dev(x).parent == 0
            },
    decreases host.platforms@.len() - i,
{
    if i < host.platforms@.len() {
        crate::platform::lemma_matching_devices_props(host, (i + 1) as u64, CL_DEVICE_TYPE_ALL, 0);
        lemma_devices_of_platforms_props(host, i + 1);
        let m = host.matching_devices((i + 1) as u64, CL_DEVICE_TYPE_ALL);
        let rest = devices_of_platforms(host, i + 1);
        assert forall|j: int|
            0 <= j < devices_of_platforms(host, i).len() implies {
            let x = #[trigger] devices_of_platforms(host, i)[j];
            &&& host.valid_device(x)
            &&& host.dev(x).parent == 0
        } by {
            if j < m.len() {
                assert(devices_of_platforms(host, i)[j] == m[j]);
            } else {
                assert(devices_of_platforms(host, i)[j] == rest[j - m.len()]);
            }
        }
    }
}

/// A found device belongs to the searched list and matches the bits.
pub proof fn lemma_first_of_type_member(host: &Host, s: Seq<u64>, bits: u64)
    ensures
        first_of_type(host, s, bits) matches Some(h) ==> s.contains(h),
    decreases s.len(),
{
    if s.len() > 0 {
        if host.dev(s[0]).device_type & bits != 0 {
            assert(s[0] == s[0]);
        } else {
            lemma_first_of_type_member(host, s.skip(1), bits);
            match first_of_type(host, s.skip(1), bits) {
                Some(found) => {
                    let k = choose|k: int| 0 <= k < s.skip(1).len() && s.skip(1)[k] == found;
                    assert(s[k + 1] == found);
                },
                None => {},
            }
        }
    }
}

/// The default-device selection reads only the platform and device tables:
/// two runtimes that agree on them select identically.
pub proof fn lemma_selection_stable(a: &Host, b: &Host)
    requires
        a.platforms == b.platforms,
        a.devices == b.devices,
    ensures
        forall|i: int|
            #![trigger devices_of_platforms(a, i)]
            devices_of_platforms(a, i) == devices_of_platforms(b, i),
        forall|s: Seq<u64>|
            #![trigger filter_available(a, s)]
            filter_available(a, s) == filter_available(b, s),
        forall|s: Seq<u64>, bits: u64|
            #![trigger first_of_type(a, s, bits)]
            first_of_type(a, s, bits) == first_of_type(b, s, bits),
{
    assert forall|p: u64, bits: u64, i: int|
        #![auto]
        a.matching_devices_from(p, bits, i) == b.matching_devices_from(p, bits, i) by {
        lemma_matching_from_stable(a, b, p, bits, i);
    }
    assert forall|i: int|
        #![trigger devices_of_platforms(a, i)]
        devices_of_platforms(a, i) == devices_of_platforms(b, i) by {
        lemma_devices_of_platforms_stable(a, b, i);
    }
    assert forall|s: Seq<u64>|
        #![trigger filter_available(a, s)]
        filter_available(a, s) == filter_available(b, s) by {
        lemma_filter_available_stable(a, b, s);
    }
    assert forall|s: Seq<u64>, bits: u64|
        #![trigger first_of_type(a, s, bits)]
        first_of_type(a, s, bits) == first_of_type(b, s, bits) by {
        lemma_first_of_type_stable(a, b, s, bits);
    }
}

proof fn lemma_matching_from_stable(a: &Host, b: &Host, p: u64, bits: u64, i: int)
    requires
        a.devices == b.devices,
    ensures
        a.matching_devices_from(p, bits, i) == b.matching_devices_from(p, bits, i),
    decreases a.devices@.len() - i,
{
    if 0 <= i < a.devices@.len() {
        lemma_matching_from_stable(a, b, p, bits, i + 1);
    }
}

proof fn lemma_devices_of_platforms_stable(a: &Host, b: &Host, i: int)
    requires
        a.platforms == b.platforms,
        a.devices == b.devices,
    ensures
        devices_of_platforms(a, i) == devices_of_platforms(b, i),
    decreases a.platforms@.len() - i,
{
    if 0 <= i < a.platforms@.len() {
        lemma_matching_from_stable(a, b, (i + 1) as u64, CL_DEVICE_TYPE_ALL, 0);
        lemma_devices_of_platforms_stable(a, b, i + 1);
    }
}

proof fn lemma_filter_available_stable(a: &Host, b: &Host, s: Seq<u64>)
    requires
        a.devices == b.devices,
    ensures
        filter_available(a, s) == filter_available(b, s),
    decreases s.len(),
{
    if s.len() > 0 {
        lemma_filter_available_stable(a, b, s.skip(1));
    }
}

proof fn lemma_first_of_type_stable(a: &Host, b: &Host, s: Seq<u64>, bits: u64)
    requires
        a.devices == b.devices,
    ensures
        first_of_type(a, s, bits) == first_of_type(b, s, bits),
    decreases s.len(),
{
    if s.len() > 0 {
        lemma_first_of_type_stable(a, b, s.skip(1), bits);
    }
}

/// Query whether a device reports itself available.
fn device_available(host: &Host, device_id: u64) -> (r: bool)
    requires
        host.wf(),
        host.valid_device(device_id),
    ensures
        r == host.dev(device_id).available,
{
    proof {
        crate::information::lemma_bool_decode(host.dev(device_id).available);
    }
    let fetched = ask_info_bytes(
        host,
        InfoTarget::Device(device_id),
        crate::codes::CL_DEVICE_AVAILABLE,
    );
    match fetched {
        Ok(b) => {
            match <bool as InformationResult>::decode(b) {
                Some(v) => v,
                None => {
                    proof {
                        assert(false);
                    }
                    unreached()
                },
            }
        },
        Err(_) => {
            proof {
                assert(false);
            }
            unreached()
        },
    }
}

/// Query a device's type bits.
fn device_type_bits(host: &Host, device_id: u64) -> (r: u64)
    requires
        host.wf(),
        host.valid_device(device_id),
    ensures
        r == host.dev(device_id).device_type,
{
    proof {
        lemma_u64_decode(host.dev(device_id).device_type);
    }
    let fetched = ask_info_bytes(host, InfoTarget::Device(device_id), crate::codes::CL_DEVICE_TYPE);
    match fetched {
        Ok(b) => {
            match <u64 as InformationResult>::decode(b) {
                Some(v) => v,
                None => {
                    proof {
                        assert(false);
                    }
                    unreached()
                },
            }
        },
        Err(_) => {
            proof {
                assert(false);
            }
            unreached()
        },
    }
}

/// Collect the available root devices of every platform from table index
/// `i` on, in enumeration order.
fn collect_available(host: &Host, i: usize) -> (r: Vec<u64>)
    requires
        host.wf(),
        i <= host.platforms@.len(),
        host.platforms@.len() <= u32::MAX,
        host.devices@.len() <= u32::MAX,
    ensures
        r@ == filter_available(host, devices_of_platforms(host, i as int)),
    decreases host.platforms@.len() - i,
{
    let nplat: usize = host.platforms.len();
    if i == nplat {
        Vec::new()
    } else {
        proof {
            crate::platform::lemma_matching_devices_props(
                host,
                (i + 1) as u64,
                CL_DEVICE_TYPE_ALL,
                0,
            );
        }
        let (status, _none, count) = host.device_ids(i as u64 + 1, CL_DEVICE_TYPE_ALL, 0, false);
        let mut here: Vec<u64> = Vec::new();
        let ghost m = host.matching_devices((i + 1) as u64, CL_DEVICE_TYPE_ALL);
        if status == CL_SUCCESS {
            let (_status2, handles, _count2) = host.device_ids(
                i as u64 + 1,
                CL_DEVICE_TYPE_ALL,
                count,
                true,
            );
            proof {
                assert(handles@ =~= m);
                assert(m.skip(0) =~= m);
            }
            let n: usize = handles.len();
            let mut k: usize = 0;
            while k < n
                invariant
                    host.wf(),
                    k <= n,
                    n == handles@.len(),
                    handles@ == m,
                    forall|q: int|
                        0 <= q < m.len() ==> host.valid_device(#[trigger] m[q]),
                    here@ + filter_available(host, m.skip(k as int)) == filter_available(
                        host,
                        m,
                    ),
                decreases n - k,
            {
                let h = handles[k];
                proof {
                    assert(m.skip(k as int)[0] == m[k as int]);
                    assert(m.skip(k as int).skip(1) =~= m.skip(k + 1));
                }
                if device_available(host, h) {
                    here.push(h);
                    proof {
                        assert(here@ + filter_available(host, m.skip(k + 1))
                            =~= filter_available(host, m));
                    }
                }
                k = k + 1;
            }
            proof {
                assert(m.skip(n as int) =~= Seq::<u64>::empty());
                assert(here@ =~= filter_available(host, m));
            }
        } else {
            proof {
                assert(m.len() == 0);
                assert(m =~= Seq::<u64>::empty());
                assert(here@ =~= filter_available(host, m));
            }
        }
        let rest = collect_available(host, i + 1);
        let mut out = here;
        let nr: usize = rest.len();
        let mut k: usize = 0;
        let ghost fm = filter_available(host, m);
        while k < nr
            invariant
                k <= nr,
                nr == rest@.len(),
                out@ == fm + rest@.take(k as int),
            decreases nr - k,
        {
            out.push(rest[k]);
            proof {
                assert(fm + rest@.take(k + 1) =~= (fm + rest@.take(k as int)).push(
                    rest@[k as int],
                ));
            }
            k = k + 1;
        }
        proof {
            assert(rest@.take(nr as int) =~= rest@);
            lemma_filter_available_concat(
                host,
                m,
                devices_of_platforms(host, i + 1),
            );
            assert(out@ =~= filter_available(host, devices_of_platforms(host, i as int)));
        }
        out
    }
}

/// Find the first listed device whose type matches `bits`.
fn find_of_type(host: &Host, cands: &Vec<u64>, bits: u64) -> (r: Option<u64>)
    requires
        host.wf(),
        forall|i: int| 0 <= i < cands@.len() ==> host.valid_device(#[trigger] cands@[i]),
    ensures
        r == first_of_type(host, cands@, bits),
        r matches Some(h) ==> cands@.contains(h),
{
    let n: usize = cands.len();
    let mut i: usize = 0;
    proof {
        assert(cands@.skip(0) =~= cands@);
    }
    while i < n
        invariant
            host.wf(),
            i <= n,
            n == cands@.len(),
            forall|k: int| 0 <= k < n ==> host.valid_device(#[trigger] cands@[k]),
            first_of_type(host, cands@, bits) == first_of_type(host, cands@.skip(i as int), bits),
        decreases n - i,
    {
        let h = cands[i];
        proof {
            assert(cands@.skip(i as int)[0] == h);
            assert(cands@.skip(i as int).skip(1) =~= cands@.skip(i + 1));
        }
        let ty = device_type_bits(host, h);
        if ty & bits != 0 {
            proof {
                assert(cands@[i as int] == h);
                assert(cands@.contains(h));
            }
            return Some(h);
        }
        i = i + 1;
    }
    proof {
        assert(cands@.skip(n as int) =~= Seq::<u64>::empty());
    }
    None
}

/// The handle the default-device selection picks: the first available GPU
/// across all platforms' devices, else the first available CPU, else the
/// first available device of any type.
pub open spec fn spec_default_device(host: &Host) -> Option<u64> {
    let cands = filter_available(host, devices_of_platforms(host, 0));
    match first_of_type(host, cands, CL_DEVICE_TYPE_GPU) {
        Some(h) => Some(h),
        None => match first_of_type(host, cands, CL_DEVICE_TYPE_CPU) {
            Some(h) => Some(h),
            None => if cands.len() > 0 {
                Some(cands[0])
            } else {
                None
            },
        },
    }
}

/// The selected default device is an available root device of the runtime.
pub proof fn lemma_default_device_props(host: &Host)
    requires
        host.wf(),
        host.platforms@.len() <= u32::MAX,
        host.devices@.len() <= u32::MAX,
    ensures
        spec_default_device(host) matches Some(h) ==> host.valid_device(h) && host.dev(h).parent
            == 0 && host.dev(h).available,
{
    let dof = devices_of_platforms(host, 0);
    let cands = filter_available(host, dof);
    lemma_devices_of_platforms_props(host, 0);
    lemma_filter_available_member(host, dof);
    lemma_first_of_type_member(host, cands, CL_DEVICE_TYPE_GPU);
    lemma_first_of_type_member(host, cands, CL_DEVICE_TYPE_CPU);
    match spec_default_device(host) {
        Some(h) => {
            assert(cands.contains(h)) by {
                match first_of_type(host, cands, CL_DEVICE_TYPE_GPU) {
                    Some(_) => {},
                    None => {
                        match first_of_type(host, cands, CL_DEVICE_TYPE_CPU) {
                            Some(_) => {},
                            None => {
                                assert(cands[0] == h);
                            },
                        }
                    },
                }
            }
            let k = choose|k: int| 0 <= k < cands.len() && cands[k] == h;
            assert(dof.contains(cands[k]));
            let q = choose|q: int| 0 <= q < dof.len() && dof[q] == h;
            assert(host.valid_device(dof[q]));
        },
        None => {},
    }
}

impl Device {
    /// Return a default device if any: the first available GPU device among
    /// all platforms' devices, else the first available CPU device, else
    /// the first available device of any type.
    pub fn default(host: &Host) -> (r: Option<Device>)
        requires
            host.wf(),
            host.platforms@.len() <= u32::MAX,
            host.devices@.len() <= u32::MAX,
        ensures
            r == match spec_default_device(host) {
                Some(h) => Some(Device { device_id: h }),
                None => None::<Device>,
            },
            r matches Some(d) ==> d.wf(host) && host.dev(d.device_id).parent == 0,
    {
        proof {
            lemma_devices_of_platforms_props(host, 0);
            lemma_filter_available_member(host, devices_of_platforms(host, 0));
        }
        let cands = collect_available(host, 0);
        proof {
            let dof = devices_of_platforms(host, 0);
            assert forall|k: int| 0 <= k < cands@.len() implies host.valid_device(
                #[trigger] cands@[k],
            ) && host.dev(cands@[k]).parent == 0 by {
                assert(dof.contains(cands@[k]));
                let q = choose|q: int| 0 <= q < dof.len() && dof[q] == cands@[k];
                assert(host.valid_device(dof[q]));
            }
        }
        if let Some(h) = find_of_type(host, &cands, CL_DEVICE_TYPE_GPU) {
            proof {
                let q = choose|q: int| 0 <= q < cands@.len() && cands@[q] == h;
                assert(host.valid_device(cands@[q]));
            }
            return Some(Device { device_id: h });
        }
        if let Some(h) = find_of_type(host, &cands, CL_DEVICE_TYPE_CPU) {
            proof {
                let q = choose|q: int| 0 <= q < cands@.len() && cands@[q] == h;
                assert(host.valid_device(cands@[q]));
            }
            return Some(Device { device_id: h });
        }
        if cands.len() > 0 {
            return Some(Device { device_id: cands[0] });
        }
        None
    }
}

/// The partition plan only reports success, an invalid value, or a failed
/// partition.
pub proof fn lemma_partition_plan_status(caps: Seq<i64>, units: u32, props: Seq<i64>)
    ensures
        partition_plan(caps, units, props).0 == CL_SUCCESS || partition_plan(
            caps,
            units,
            props,
        ).0 == CL_INVALID_VALUE || partition_plan(caps, units, props).0
            == CL_DEVICE_PARTITION_FAILED,
{
}

/// Query the parent handle of a device through the information engine.
fn query_parent_handle(host: &mut Host, device_id: u64) -> (r: u64)
    requires
        old(host).wf(),
        old(host).valid_device(device_id),
    ensures
        *final(host) == *old(host),
        r == old(host).dev(device_id).parent,
{
    let r = query_parent_handle_shared(host, device_id);
    r
}

/// Query the parent handle of a device through the information engine.
fn query_parent_handle_shared(host: &Host, device_id: u64) -> (r: u64)
    requires
        host.wf(),
        host.valid_device(device_id),
    ensures
        r == host.dev(device_id).parent,
{
    proof {
        lemma_u64_decode(host.dev(device_id).parent);
    }
    let fetched = ask_info_bytes(host, InfoTarget::Device(device_id), CL_DEVICE_PARENT_DEVICE);
    match fetched {
        Ok(b) => {
            let v = <u64 as InformationResult>::decode(b);
            match v {
                Some(parent) => parent,
                None => {
                    proof {
                        assert(false);
                    }
                    unreached()
                },
            }
        },
        Err(_) => {
            proof {
                assert(false);
            }
            unreached()
        },
    }
}

/// Fetch a device's text information as bytes, terminator stripped.
fn fetch_device_text(host: &Host, device_id: u64, param: u32) -> (r: Vec<u8>)
    requires
        host.wf(),
        host.valid_device(device_id),
        param == CL_DEVICE_EXTENSIONS || param == CL_DEVICE_BUILT_IN_KERNELS,
    ensures
        param == CL_DEVICE_EXTENSIONS ==> r@ == host.dev(device_id).extensions@,
        param == CL_DEVICE_BUILT_IN_KERNELS ==> r@ == host.dev(device_id).builtin_kernels@,
        is_ascii_bytes(r@),
{
    let fetched = ask_info_bytes(host, InfoTarget::Device(device_id), param);
    match fetched {
        Ok(b) => {
            let mut b = b;
            let ghost full = b@;
            let _terminator = b.pop();
            proof {
                assert(b@ =~= full.take(full.len() - 1));
                if param == CL_DEVICE_EXTENSIONS {
                    assert(full =~= host.dev(device_id).extensions@ + seq![0u8]);
                    assert(b@ =~= host.dev(device_id).extensions@);
                } else {
                    assert(full =~= host.dev(device_id).builtin_kernels@ + seq![0u8]);
                    assert(b@ =~= host.dev(device_id).builtin_kernels@);
                }
            }
            b
        },
        Err(_) => {
            proof {
                assert(false);
            }
            unreached()
        },
    }
}

} // verus!
