//! The information marker types for `Device`, and the decoders of the
//! device-specific result shapes.

use vstd::prelude::*;
use crate::information::{Information, InformationResult};
use crate::bytes::{
    le_value, spec_words_of, spec_words_in_range, decode_prop_words_checked, reveal_pow256_small,
    lemma_le_value_bound, le_decode_range,
};
use crate::codes::{
    CL_DEVICE_NAME, CL_DEVICE_TYPE, CL_DEVICE_AVAILABLE, CL_DEVICE_REFERENCE_COUNT,
    CL_DEVICE_EXTENSIONS, CL_DEVICE_BUILT_IN_KERNELS, CL_DEVICE_MAX_COMPUTE_UNITS,
    CL_DEVICE_PLATFORM, CL_DEVICE_PARTITION_PROPERTIES, CL_DEVICE_PARTITION_TYPE,
    CL_DEVICE_PARTITION_EQUALLY, CL_DEVICE_PARTITION_BY_COUNTS,
    CL_DEVICE_PARTITION_BY_AFFINITY_DOMAIN,
};
use crate::partition::{
    PartitionType as PartitionDescriptor, PartitionShape, PartitionProperties as PartitionCaps,
    spec_decode_partition, decode_partition_list, decoded_view,
};
use crate::device::Type as DeviceType;
use crate::platform::Platform as PlatformWrapper;

verus! {

/// A trait implemented by marker types for querying device information.
pub trait DeviceInformation: Information {

}

/// Marker for the device's name.
pub struct Name;

impl Information for Name {
    type Result = String;

    open spec fn spec_id() -> u32 {
        CL_DEVICE_NAME
    }

    fn id() -> (r: u32) {
        CL_DEVICE_NAME
    }
}

impl DeviceInformation for Name {

}

/// Marker for the device-type bitfield.
pub struct Type;

impl Information for Type {
    type Result = DeviceType;

    open spec fn spec_id() -> u32 {
        CL_DEVICE_TYPE
    }

    fn id() -> (r: u32) {
        CL_DEVICE_TYPE
    }
}

impl DeviceInformation for Type {

}

/// Marker for the device's availability.
pub struct Available;

impl Information for Available {
    type Result = bool;

    open spec fn spec_id() -> u32 {
        CL_DEVICE_AVAILABLE
    }

    fn id() -> (r: u32) {
        CL_DEVICE_AVAILABLE
    }
}

impl DeviceInformation for Available {

}

/// Marker for the device's native reference count.
pub struct ReferenceCount;

impl Information for ReferenceCount {
    type Result = u32;

    open spec fn spec_id() -> u32 {
        CL_DEVICE_REFERENCE_COUNT
    }

    fn id() -> (r: u32) {
        CL_DEVICE_REFERENCE_COUNT
    }
}

impl DeviceInformation for ReferenceCount {

}

/// Marker for the device's space-separated extension list.
pub struct Extensions;

impl Information for Extensions {
    type Result = String;

    open spec fn spec_id() -> u32 {
        CL_DEVICE_EXTENSIONS
    }

    fn id() -> (r: u32) {
        CL_DEVICE_EXTENSIONS
    }
}

impl DeviceInformation for Extensions {

}

/// Marker for the device's semicolon-separated built-in kernel list.
pub struct BuiltinKernels;

impl Information for BuiltinKernels {
    type Result = String;

    open spec fn spec_id() -> u32 {
        CL_DEVICE_BUILT_IN_KERNELS
    }

    fn id() -> (r: u32) {
        CL_DEVICE_BUILT_IN_KERNELS
    }
}

impl DeviceInformation for BuiltinKernels {

}

/// Marker for the device's number of parallel compute units.
pub struct MaxComputeUnits;

impl Information for MaxComputeUnits {
    type Result = u32;

    open spec fn spec_id() -> u32 {
        CL_DEVICE_MAX_COMPUTE_UNITS
    }

    fn id() -> (r: u32) {
        CL_DEVICE_MAX_COMPUTE_UNITS
    }
}

impl DeviceInformation for MaxComputeUnits {

}

/// Marker for the device's owning platform.
pub struct Platform;

impl Information for Platform {
    type Result = PlatformWrapper;

    open spec fn spec_id() -> u32 {
        CL_DEVICE_PLATFORM
    }

    fn id() -> (r: u32) {
        CL_DEVICE_PLATFORM
    }
}

impl DeviceInformation for Platform {

}

/// Marker for the partition strategies the device supports.
pub struct PartitionProperties;

impl Information for PartitionProperties {
    type Result = PartitionCaps;

    open spec fn spec_id() -> u32 {
        CL_DEVICE_PARTITION_PROPERTIES
    }

    fn id() -> (r: u32) {
        CL_DEVICE_PARTITION_PROPERTIES
    }
}

impl DeviceInformation for PartitionProperties {

}

/// Marker for the descriptor this device was partitioned with, if any.
pub struct PartitionType;

impl Information for PartitionType {
    type Result = Option<PartitionDescriptor>;

    open spec fn spec_id() -> u32 {
        CL_DEVICE_PARTITION_TYPE
    }

    fn id() -> (r: u32) {
        CL_DEVICE_PARTITION_TYPE
    }
}

impl DeviceInformation for PartitionType {

}

impl InformationResult for DeviceType {
    type Model = DeviceType;

    open spec fn model(&self) -> DeviceType {
        *self
    }

    open spec fn spec_decode(b: Seq<u8>) -> Option<DeviceType> {
        if b.len() == 8 {
            Some(DeviceType { bitfield: le_value(b) as u64 })
        } else {
            None
        }
    }

    fn decode(b: Vec<u8>) -> (r: Option<DeviceType>) {
        if b.len() != 8 {
            return None;
        }
        let v = le_decode_range(&b, 0, 8);
        proof {
            assert(b@.subrange(0, 8) =~= b@);
            lemma_le_value_bound(b@);
            reveal_pow256_small();
        }
        Some(DeviceType { bitfield: v })
    }
}

impl InformationResult for PlatformWrapper {
    type Model = u64;

    open spec fn model(&self) -> u64 {
        self.platform_id
    }

    open spec fn spec_decode(b: Seq<u8>) -> Option<u64> {
        if b.len() == 8 {
            Some(le_value(b) as u64)
        } else {
            None
        }
    }

    fn decode(b: Vec<u8>) -> (r: Option<PlatformWrapper>) {
        if b.len() != 8 {
            return None;
        }
        let v = le_decode_range(&b, 0, 8);
        proof {
            assert(b@.subrange(0, 8) =~= b@);
            lemma_le_value_bound(b@);
            reveal_pow256_small();
        }
        Some(PlatformWrapper { platform_id: v })
    }
}

impl InformationResult for PartitionCaps {
    type Model = PartitionCaps;

    open spec fn model(&self) -> PartitionCaps {
        *self
    }

    open spec fn spec_decode(b: Seq<u8>) -> Option<PartitionCaps> {
        if b.len() % 8 == 0 && spec_words_in_range(b) {
            Some(
                PartitionCaps {
                    equally: spec_words_of(b).contains(CL_DEVICE_PARTITION_EQUALLY),
                    by_counts: spec_words_of(b).contains(CL_DEVICE_PARTITION_BY_COUNTS),
                    by_affinity_domain: spec_words_of(b).contains(
                        CL_DEVICE_PARTITION_BY_AFFINITY_DOMAIN,
                    ),
                },
            )
        } else {
            None
        }
    }

    fn decode(b: Vec<u8>) -> (r: Option<PartitionCaps>) {
        match decode_prop_words_checked(&b) {
            Some(words) => Some(PartitionCaps::from_list(&words)),
            None => None,
        }
    }
}

impl InformationResult for Option<PartitionDescriptor> {
    type Model = Option<PartitionShape>;

    open spec fn model(&self) -> Option<PartitionShape> {
        match self {
            Some(p) => Some(p@),
            None => None,
        }
    }

    open spec fn spec_decode(b: Seq<u8>) -> Option<Option<PartitionShape>> {
        if b.len() % 8 == 0 && spec_words_in_range(b) {
            spec_decode_partition(spec_words_of(b))
        } else {
            None
        }
    }

    fn decode(b: Vec<u8>) -> (r: Option<Option<PartitionDescriptor>>) {
        match decode_prop_words_checked(&b) {
            Some(words) => {
                let d = decode_partition_list(&words);
                proof {
                    assert(decoded_view(d) == spec_decode_partition(words@));
                }
                d
            },
            None => None,
        }
    }
}

} // verus!
