//! The information marker types for programs and their build records, and
//! the decoders of the build-status and binary-type values.

use vstd::prelude::*;
use crate::information::{Information, InformationResult};
use crate::bytes::{le_value, le_decode_range, lemma_le_value_bound, reveal_pow256_small};
use crate::codes::{
    CL_PROGRAM_REFERENCE_COUNT, CL_PROGRAM_NUM_DEVICES, CL_PROGRAM_SOURCE,
    CL_PROGRAM_NUM_KERNELS, CL_PROGRAM_KERNEL_NAMES, CL_PROGRAM_BUILD_STATUS,
    CL_PROGRAM_BUILD_OPTIONS, CL_PROGRAM_BUILD_LOG, CL_PROGRAM_BINARY_TYPE, CL_BUILD_SUCCESS,
    CL_BUILD_NONE, CL_BUILD_ERROR, CL_BUILD_IN_PROGRESS, CL_PROGRAM_BINARY_TYPE_NONE,
    CL_PROGRAM_BINARY_TYPE_COMPILED_OBJECT, CL_PROGRAM_BINARY_TYPE_LIBRARY,
    CL_PROGRAM_BINARY_TYPE_EXECUTABLE,
};
use crate::program::{BuildStatus as BuildStatusValue, BinaryType as BinaryTypeValue};

verus! {

/// A trait implemented by marker types for querying program information.
pub trait ProgramInformation: Information {

}

/// A trait implemented by marker types for querying a program's build
/// record.
pub trait BuildInformation: Information {

}

/// Marker for the program's native reference count.
pub struct ReferenceCount;

impl Information for ReferenceCount {
    type Result = u32;

    open spec fn spec_id() -> u32 {
        CL_PROGRAM_REFERENCE_COUNT
    }

    fn id() -> (r: u32) {
        CL_PROGRAM_REFERENCE_COUNT
    }
}

impl ProgramInformation for ReferenceCount {

}

/// Marker for the number of devices the program targets.
pub struct NumDevices;

impl Information for NumDevices {
    type Result = u32;

    open spec fn spec_id() -> u32 {
        CL_PROGRAM_NUM_DEVICES
    }

    fn id() -> (r: u32) {
        CL_PROGRAM_NUM_DEVICES
    }
}

impl ProgramInformation for NumDevices {

}

/// Marker for the program's source text.
pub struct Source;

impl Information for Source {
    type Result = String;

    open spec fn spec_id() -> u32 {
        CL_PROGRAM_SOURCE
    }

    fn id() -> (r: u32) {
        CL_PROGRAM_SOURCE
    }
}

impl ProgramInformation for Source {

}

/// Marker for the number of kernels in the built program.
pub struct NumKernels;

impl Information for NumKernels {
    type Result = usize;

    open spec fn spec_id() -> u32 {
        CL_PROGRAM_NUM_KERNELS
    }

    fn id() -> (r: u32) {
        CL_PROGRAM_NUM_KERNELS
    }
}

impl ProgramInformation for NumKernels {

}

/// Marker for the semicolon-separated kernel-name list.
pub struct KernelNames;

impl Information for KernelNames {
    type Result = String;

    open spec fn spec_id() -> u32 {
        CL_PROGRAM_KERNEL_NAMES
    }

    fn id() -> (r: u32) {
        CL_PROGRAM_KERNEL_NAMES
    }
}

impl ProgramInformation for KernelNames {

}

/// Marker for the program's build status.
pub struct BuildStatus;

impl Information for BuildStatus {
    type Result = BuildStatusValue;

    open spec fn spec_id() -> u32 {
        CL_PROGRAM_BUILD_STATUS
    }

    fn id() -> (r: u32) {
        CL_PROGRAM_BUILD_STATUS
    }
}

impl BuildInformation for BuildStatus {

}

/// Marker for the options string of the last build.
pub struct BuildOptions;

impl Information for BuildOptions {
    type Result = String;

    open spec fn spec_id() -> u32 {
        CL_PROGRAM_BUILD_OPTIONS
    }

    fn id() -> (r: u32) {
        CL_PROGRAM_BUILD_OPTIONS
    }
}

impl BuildInformation for BuildOptions {

}

/// Marker for the log of the last build.
pub struct BuildLog;

impl Information for BuildLog {
    type Result = String;

    open spec fn spec_id() -> u32 {
        CL_PROGRAM_BUILD_LOG
    }

    fn id() -> (r: u32) {
        CL_PROGRAM_BUILD_LOG
    }
}

impl BuildInformation for BuildLog {

}

/// Marker for the program's binary type.
pub struct BinaryType;

impl Information for BinaryType {
    type Result = BinaryTypeValue;

    open spec fn spec_id() -> u32 {
        CL_PROGRAM_BINARY_TYPE
    }

    fn id() -> (r: u32) {
        CL_PROGRAM_BINARY_TYPE
    }
}

impl BuildInformation for BinaryType {

}

/// The build-status value a native status word denotes, if any.
pub open spec fn spec_build_status_of(v: u32) -> Option<BuildStatusValue> {
    if v == (CL_BUILD_SUCCESS as u32) {
        Some(BuildStatusValue::Success)
    } else if v == (CL_BUILD_NONE as u32) {
        Some(BuildStatusValue::NotBuilt)
    } else if v == (CL_BUILD_ERROR as u32) {
        Some(BuildStatusValue::Error)
    } else if v == (CL_BUILD_IN_PROGRESS as u32) {
        Some(BuildStatusValue::InProgress)
    } else {
        None
    }
}

impl InformationResult for BuildStatusValue {
    type Model = BuildStatusValue;

    open spec fn model(&self) -> BuildStatusValue {
        *self
    }

    open spec fn spec_decode(b: Seq<u8>) -> Option<BuildStatusValue> {
        if b.len() == 4 {
            spec_build_status_of(le_value(b) as u32)
        } else {
            None
        }
    }

    fn decode(b: Vec<u8>) -> (r: Option<BuildStatusValue>) {
        if b.len() != 4 {
            return None;
        }
        let raw = le_decode_range(&b, 0, 4);
        proof {
            assert(b@.subrange(0, 4) =~= b@);
            lemma_le_value_bound(b@);
            reveal_pow256_small();
        }
        let v = raw as u32;
        if v == (CL_BUILD_SUCCESS as u32) {
            Some(BuildStatusValue::Success)
        } else if v == (CL_BUILD_NONE as u32) {
            Some(BuildStatusValue::NotBuilt)
        } else if v == (CL_BUILD_ERROR as u32) {
            Some(BuildStatusValue::Error)
        } else if v == (CL_BUILD_IN_PROGRESS as u32) {
            Some(BuildStatusValue::InProgress)
        } else {
            None
        }
    }
}

/// The binary-type value a native word denotes, if any.
pub open spec fn spec_binary_type_of(v: u32) -> Option<BinaryTypeValue> {
    if v == CL_PROGRAM_BINARY_TYPE_NONE {
        Some(BinaryTypeValue::NoBinary)
    } else if v == CL_PROGRAM_BINARY_TYPE_COMPILED_OBJECT {
        Some(BinaryTypeValue::CompiledObject)
    } else if v == CL_PROGRAM_BINARY_TYPE_LIBRARY {
        Some(BinaryTypeValue::Library)
    } else if v == CL_PROGRAM_BINARY_TYPE_EXECUTABLE {
        Some(BinaryTypeValue::Executable)
    } else {
        None
    }
}

impl InformationResult for BinaryTypeValue {
    type Model = BinaryTypeValue;

    open spec fn model(&self) -> BinaryTypeValue {
        *self
    }

    open spec fn spec_decode(b: Seq<u8>) -> Option<BinaryTypeValue> {
        if b.len() == 4 {
            spec_binary_type_of(le_value(b) as u32)
        } else {
            None
        }
    }

    fn decode(b: Vec<u8>) -> (r: Option<BinaryTypeValue>) {
        if b.len() != 4 {
            return None;
        }
        let raw = le_decode_range(&b, 0, 4);
        proof {
            assert(b@.subrange(0, 4) =~= b@);
            lemma_le_value_bound(b@);
            reveal_pow256_small();
        }
        let v = raw as u32;
        if v == CL_PROGRAM_BINARY_TYPE_NONE {
            Some(BinaryTypeValue::NoBinary)
        } else if v == CL_PROGRAM_BINARY_TYPE_COMPILED_OBJECT {
            Some(BinaryTypeValue::CompiledObject)
        } else if v == CL_PROGRAM_BINARY_TYPE_LIBRARY {
            Some(BinaryTypeValue::Library)
        } else if v == CL_PROGRAM_BINARY_TYPE_EXECUTABLE {
            Some(BinaryTypeValue::Executable)
        } else {
            None
        }
    }
}

} // verus!
