//! The error taxonomy: the fixed mapping from native signed status codes to
//! named conditions, and the division of a status into success and failure.
//!
//! Every documented failure code has a description; a code outside the
//! documented set is a programming error of the layer above, not a runtime
//! condition, so [`error_string`] requires a documented code.

use vstd::prelude::*;
use crate::codes::{
    CL_SUCCESS, CL_DEVICE_NOT_FOUND, CL_DEVICE_NOT_AVAILABLE, CL_COMPILER_NOT_AVAILABLE,
    CL_MEM_OBJECT_ALLOCATION_FAILURE, CL_OUT_OF_RESOURCES, CL_OUT_OF_HOST_MEMORY,
    CL_PROFILING_INFO_NOT_AVAILABLE, CL_MEM_COPY_OVERLAP, CL_IMAGE_FORMAT_MISMATCH,
    CL_IMAGE_FORMAT_NOT_SUPPORTED, CL_BUILD_PROGRAM_FAILURE, CL_MAP_FAILURE,
    CL_MISALIGNED_SUB_BUFFER_OFFSET, CL_EXEC_STATUS_ERROR_FOR_EVENTS_IN_WAIT_LIST,
    CL_COMPILE_PROGRAM_FAILURE, CL_LINKER_NOT_AVAILABLE, CL_LINK_PROGRAM_FAILURE,
    CL_DEVICE_PARTITION_FAILED, CL_KERNEL_ARG_INFO_NOT_AVAILABLE, CL_INVALID_VALUE,
    CL_INVALID_DEVICE_TYPE, CL_INVALID_PLATFORM, CL_INVALID_DEVICE, CL_INVALID_CONTEXT,
    CL_INVALID_QUEUE_PROPERTIES, CL_INVALID_COMMAND_QUEUE, CL_INVALID_HOST_PTR,
    CL_INVALID_MEM_OBJECT, CL_INVALID_IMAGE_FORMAT_DESCRIPTOR, CL_INVALID_IMAGE_SIZE,
    CL_INVALID_SAMPLER, CL_INVALID_BINARY, CL_INVALID_BUILD_OPTIONS, CL_INVALID_PROGRAM,
    CL_INVALID_PROGRAM_EXECUTABLE, CL_INVALID_KERNEL_NAME, CL_INVALID_KERNEL_DEFINITION,
    CL_INVALID_KERNEL, CL_INVALID_ARG_INDEX, CL_INVALID_ARG_VALUE, CL_INVALID_ARG_SIZE,
    CL_INVALID_KERNEL_ARGS, CL_INVALID_WORK_DIMENSION, CL_INVALID_WORK_GROUP_SIZE,
    CL_INVALID_WORK_ITEM_SIZE, CL_INVALID_GLOBAL_OFFSET, CL_INVALID_EVENT_WAIT_LIST,
    CL_INVALID_EVENT, CL_INVALID_OPERATION, CL_INVALID_GL_OBJECT, CL_INVALID_BUFFER_SIZE,
    CL_INVALID_MIP_LEVEL, CL_INVALID_GLOBAL_WORK_SIZE, CL_INVALID_PROPERTY,
    CL_INVALID_IMAGE_DESCRIPTOR, CL_INVALID_COMPILER_OPTIONS, CL_INVALID_LINKER_OPTIONS,
};

verus! {

/// A failure status code returned by a native entry point.
///
/// The code is always one of the documented non-zero status codes; this is
/// the raw currency in which every wrapper receives a native failure before
/// classifying it as recoverable or fatal.
#[derive(Clone, Copy, Debug, PartialEq, Eq, Structural)]
pub struct RawError {
    /// The native status code; never the success sentinel.
    pub code: i32,
}

/// True for every documented failure code of the native API.
pub open spec fn spec_known_error_code(err: int) -> bool {
    (-19 <= err && err <= -1) || (-68 <= err && err <= -30)
}

/// The documented description of a failure code.
pub open spec fn spec_error_string(err: int) -> Seq<char> {
    if err == CL_DEVICE_NOT_FOUND as int { "device not found"@ }
    else if err == CL_DEVICE_NOT_AVAILABLE as int { "device not available"@ }
    else if err == CL_COMPILER_NOT_AVAILABLE as int { "compiler not available"@ }
    else if err == CL_MEM_OBJECT_ALLOCATION_FAILURE as int { "mem object allocation failure"@ }
    else if err == CL_OUT_OF_RESOURCES as int { "out of resources"@ }
    else if err == CL_OUT_OF_HOST_MEMORY as int { "out of host memory"@ }
    else if err == CL_PROFILING_INFO_NOT_AVAILABLE as int { "profiling info not available"@ }
    else if err == CL_MEM_COPY_OVERLAP as int { "mem copy overlap"@ }
    else if err == CL_IMAGE_FORMAT_MISMATCH as int { "image format mismatch"@ }
    else if err == CL_IMAGE_FORMAT_NOT_SUPPORTED as int { "image format not supported"@ }
    else if err == CL_BUILD_PROGRAM_FAILURE as int { "build program failure"@ }
    else if err == CL_MAP_FAILURE as int { "map failure"@ }
    else if err == CL_MISALIGNED_SUB_BUFFER_OFFSET as int { "misaligned sub buffer offset"@ }
    else if err == CL_EXEC_STATUS_ERROR_FOR_EVENTS_IN_WAIT_LIST as int { "exec status error for events in wait list"@ }
    else if err == CL_COMPILE_PROGRAM_FAILURE as int { "compile program failure"@ }
    else if err == CL_LINKER_NOT_AVAILABLE as int { "linker not available"@ }
    else if err == CL_LINK_PROGRAM_FAILURE as int { "link program failure"@ }
    else if err == CL_DEVICE_PARTITION_FAILED as int { "device partition failed"@ }
    else if err == CL_KERNEL_ARG_INFO_NOT_AVAILABLE as int { "kernel arg info not available"@ }
    else if err == CL_INVALID_VALUE as int { "invalid value"@ }
    else if err == CL_INVALID_DEVICE_TYPE as int { "invalid device type"@ }
    else if err == CL_INVALID_PLATFORM as int { "invalid platform"@ }
    else if err == CL_INVALID_DEVICE as int { "invalid device"@ }
    else if err == CL_INVALID_CONTEXT as int { "invalid context"@ }
    else if err == CL_INVALID_QUEUE_PROPERTIES as int { "invalid queue properties"@ }
    else if err == CL_INVALID_COMMAND_QUEUE as int { "invalid command queue"@ }
    else if err == CL_INVALID_HOST_PTR as int { "invalid host ptr"@ }
    else if err == CL_INVALID_MEM_OBJECT as int { "invalid mem object"@ }
    else if err == CL_INVALID_IMAGE_FORMAT_DESCRIPTOR as int { "invalid image format descriptor"@ }
    else if err == CL_INVALID_IMAGE_SIZE as int { "invalid image size"@ }
    else if err == CL_INVALID_SAMPLER as int { "invalid sampler"@ }
    else if err == CL_INVALID_BINARY as int { "invalid binary"@ }
    else if err == CL_INVALID_BUILD_OPTIONS as int { "invalid build options"@ }
    else if err == CL_INVALID_PROGRAM as int { "invalid program"@ }
    else if err == CL_INVALID_PROGRAM_EXECUTABLE as int { "invalid program executable"@ }
    else if err == CL_INVALID_KERNEL_NAME as int { "invalid kernel name"@ }
    else if err == CL_INVALID_KERNEL_DEFINITION as int { "invalid kernel definition"@ }
    else if err == CL_INVALID_KERNEL as int { "invalid kernel"@ }
    else if err == CL_INVALID_ARG_INDEX as int { "invalid arg index"@ }
    else if err == CL_INVALID_ARG_VALUE as int { "invalid arg value"@ }
    else if err == CL_INVALID_ARG_SIZE as int { "invalid arg size"@ }
    else if err == CL_INVALID_KERNEL_ARGS as int { "invalid kernel args"@ }
    else if err == CL_INVALID_WORK_DIMENSION as int { "invalid work dimension"@ }
    else if err == CL_INVALID_WORK_GROUP_SIZE as int { "invalid work group size"@ }
    else if err == CL_INVALID_WORK_ITEM_SIZE as int { "invalid work item size"@ }
    else if err == CL_INVALID_GLOBAL_OFFSET as int { "invalid global offset"@ }
    else if err == CL_INVALID_EVENT_WAIT_LIST as int { "invalid event wait list"@ }
    else if err == CL_INVALID_EVENT as int { "invalid event"@ }
    else if err == CL_INVALID_OPERATION as int { "invalid operation"@ }
    else if err == CL_INVALID_GL_OBJECT as int { "invalid gl object"@ }
    else if err == CL_INVALID_BUFFER_SIZE as int { "invalid buffer size"@ }
    else if err == CL_INVALID_MIP_LEVEL as int { "invalid mip level"@ }
    else if err == CL_INVALID_GLOBAL_WORK_SIZE as int { "invalid global work size"@ }
    else if err == CL_INVALID_PROPERTY as int { "invalid property"@ }
    else if err == CL_INVALID_IMAGE_DESCRIPTOR as int { "invalid image descriptor"@ }
    else if err == CL_INVALID_COMPILER_OPTIONS as int { "invalid compiler options"@ }
    else if err == CL_INVALID_LINKER_OPTIONS as int { "invalid linker options"@ }
    else { "invalid device partition count"@ }
}

/// Convert a documented failure code into its description.
pub fn error_string(err: i32) -> (r: &'static str)
    requires
        spec_known_error_code(err as int),
    ensures
        r@ == spec_error_string(err as int),
{
    match err {
        CL_DEVICE_NOT_FOUND => "device not found",
        CL_DEVICE_NOT_AVAILABLE => "device not available",
        CL_COMPILER_NOT_AVAILABLE => "compiler not available",
        CL_MEM_OBJECT_ALLOCATION_FAILURE => "mem object allocation failure",
        CL_OUT_OF_RESOURCES => "out of resources",
        CL_OUT_OF_HOST_MEMORY => "out of host memory",
        CL_PROFILING_INFO_NOT_AVAILABLE => "profiling info not available",
        CL_MEM_COPY_OVERLAP => "mem copy overlap",
        CL_IMAGE_FORMAT_MISMATCH => "image format mismatch",
        CL_IMAGE_FORMAT_NOT_SUPPORTED => "image format not supported",
        CL_BUILD_PROGRAM_FAILURE => "build program failure",
        CL_MAP_FAILURE => "map failure",
        CL_MISALIGNED_SUB_BUFFER_OFFSET => "misaligned sub buffer offset",
        CL_EXEC_STATUS_ERROR_FOR_EVENTS_IN_WAIT_LIST => "exec status error for events in wait list",
        CL_COMPILE_PROGRAM_FAILURE => "compile program failure",
        CL_LINKER_NOT_AVAILABLE => "linker not available",
        CL_LINK_PROGRAM_FAILURE => "link program failure",
        CL_DEVICE_PARTITION_FAILED => "device partition failed",
        CL_KERNEL_ARG_INFO_NOT_AVAILABLE => "kernel arg info not available",
        CL_INVALID_VALUE => "invalid value",
        CL_INVALID_DEVICE_TYPE => "invalid device type",
        CL_INVALID_PLATFORM => "invalid platform",
        CL_INVALID_DEVICE => "invalid device",
        CL_INVALID_CONTEXT => "invalid context",
        CL_INVALID_QUEUE_PROPERTIES => "invalid queue properties",
        CL_INVALID_COMMAND_QUEUE => "invalid command queue",
        CL_INVALID_HOST_PTR => "invalid host ptr",
        CL_INVALID_MEM_OBJECT => "invalid mem object",
        CL_INVALID_IMAGE_FORMAT_DESCRIPTOR => "invalid image format descriptor",
        CL_INVALID_IMAGE_SIZE => "invalid image size",
        CL_INVALID_SAMPLER => "invalid sampler",
        CL_INVALID_BINARY => "invalid binary",
        CL_INVALID_BUILD_OPTIONS => "invalid build options",
        CL_INVALID_PROGRAM => "invalid program",
        CL_INVALID_PROGRAM_EXECUTABLE => "invalid program executable",
        CL_INVALID_KERNEL_NAME => "invalid kernel name",
        CL_INVALID_KERNEL_DEFINITION => "invalid kernel definition",
        CL_INVALID_KERNEL => "invalid kernel",
        CL_INVALID_ARG_INDEX => "invalid arg index",
        CL_INVALID_ARG_VALUE => "invalid arg value",
        CL_INVALID_ARG_SIZE => "invalid arg size",
        CL_INVALID_KERNEL_ARGS => "invalid kernel args",
        CL_INVALID_WORK_DIMENSION => "invalid work dimension",
        CL_INVALID_WORK_GROUP_SIZE => "invalid work group size",
        CL_INVALID_WORK_ITEM_SIZE => "invalid work item size",
        CL_INVALID_GLOBAL_OFFSET => "invalid global offset",
        CL_INVALID_EVENT_WAIT_LIST => "invalid event wait list",
        CL_INVALID_EVENT => "invalid event",
        CL_INVALID_OPERATION => "invalid operation",
        CL_INVALID_GL_OBJECT => "invalid gl object",
        CL_INVALID_BUFFER_SIZE => "invalid buffer size",
        CL_INVALID_MIP_LEVEL => "invalid mip level",
        CL_INVALID_GLOBAL_WORK_SIZE => "invalid global work size",
        CL_INVALID_PROPERTY => "invalid property",
        CL_INVALID_IMAGE_DESCRIPTOR => "invalid image descriptor",
        CL_INVALID_COMPILER_OPTIONS => "invalid compiler options",
        CL_INVALID_LINKER_OPTIONS => "invalid linker options",
        _ => "invalid device partition count",
    }
}

/// Split a native status code into success and failure: the zero sentinel is
/// success, everything else is the raw failure to be classified by the caller.
pub fn catch_ffi(err: i32) -> (r: Result<(), RawError>)
    ensures
        err == CL_SUCCESS ==> r == Ok::<(), RawError>(()),
        err != CL_SUCCESS ==> r == Err::<(), RawError>(RawError { code: err }),
{
    if err == CL_SUCCESS {
        Ok(())
    } else {
        Err(RawError { code: err })
    }
}

} // verus!
