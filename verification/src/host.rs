//! The executable conformance model of the native runtime.
//!
//! The native layer is reachable only through opaque handles and a fixed set
//! of entry points: reference-count primitives, enumerations, creation calls
//! and the two-phase information queries. This module states that calling
//! convention as contracts on an explicit, in-memory model — a [`Host`]
//! value — and implements it, so that every wrapper above is verified
//! against the convention and every test can observe it (reference counts,
//! partition-call counts, the quirk of drivers that leave a root device's
//! parent buffer unwritten).
//!
//! A handle of a given kind is an index (plus one) into that kind's record
//! table; zero is never a valid handle, matching the native null convention.

use vstd::prelude::*;
use vstd::math::min;
use crate::bytes::{
    is_ascii_bytes, is_text_bytes, check_text, le_bytes, prop_words_bytes, handle_words_bytes,
    append_le, encode_prop_words, encode_handle_words, copy_bytes, copy_prop_words, copy_handles,
    lemma_le_bytes_zero,
};
use crate::text::{split_bytes, split_vec, bytes_eq, split_tokens, split_tokens_vec};
use crate::codes::{
    CL_SUCCESS, CL_INVALID_VALUE, CL_INVALID_PLATFORM, CL_INVALID_DEVICE,
    CL_INVALID_PROPERTY, CL_DEVICE_NOT_AVAILABLE, CL_DEVICE_NOT_FOUND,
    CL_INVALID_QUEUE_PROPERTIES, CL_DEVICE_PARTITION_FAILED, CL_COMPILER_NOT_AVAILABLE,
    CL_BUILD_PROGRAM_FAILURE, CL_MEM_OBJECT_ALLOCATION_FAILURE, CL_INVALID_KERNEL_NAME,
    CL_INVALID_BUILD_OPTIONS,
    CL_BUILD_NONE, CL_BUILD_ERROR, CL_BUILD_SUCCESS, CL_PROGRAM_BINARY_TYPE_NONE,
    CL_PROGRAM_BINARY_TYPE_EXECUTABLE, CL_CONTEXT_PLATFORM, CL_CONTEXT_INTEROP_USER_SYNC,
    CL_DEVICE_TYPE, CL_DEVICE_MAX_COMPUTE_UNITS, CL_DEVICE_AVAILABLE, CL_DEVICE_NAME,
    CL_DEVICE_EXTENSIONS, CL_DEVICE_PLATFORM, CL_DEVICE_BUILT_IN_KERNELS,
    CL_DEVICE_PARENT_DEVICE, CL_DEVICE_PARTITION_PROPERTIES, CL_DEVICE_PARTITION_TYPE,
    CL_DEVICE_REFERENCE_COUNT, CL_PLATFORM_PROFILE, CL_PLATFORM_VERSION, CL_PLATFORM_NAME,
    CL_PLATFORM_VENDOR, CL_PLATFORM_EXTENSIONS, CL_CONTEXT_REFERENCE_COUNT, CL_CONTEXT_DEVICES,
    CL_CONTEXT_PROPERTIES, CL_CONTEXT_NUM_DEVICES, CL_QUEUE_CONTEXT, CL_QUEUE_DEVICE,
    CL_QUEUE_REFERENCE_COUNT, CL_QUEUE_PROPERTIES, CL_MEM_FLAGS, CL_MEM_SIZE, CL_MEM_MAP_COUNT,
    CL_MEM_REFERENCE_COUNT, CL_MEM_CONTEXT, CL_PROGRAM_REFERENCE_COUNT, CL_PROGRAM_CONTEXT,
    CL_PROGRAM_NUM_DEVICES, CL_PROGRAM_DEVICES, CL_PROGRAM_SOURCE, CL_PROGRAM_NUM_KERNELS,
    CL_PROGRAM_KERNEL_NAMES, CL_PROGRAM_BUILD_STATUS, CL_PROGRAM_BUILD_OPTIONS,
    CL_PROGRAM_BUILD_LOG, CL_PROGRAM_BINARY_TYPE, CL_DEVICE_PARTITION_EQUALLY,
    CL_DEVICE_PARTITION_BY_COUNTS, CL_DEVICE_PARTITION_BY_AFFINITY_DOMAIN,
};
use crate::partition::{PartitionShape, spec_decode_partition, decode_partition_list, PartitionType};

verus! {

/// One platform known to the native runtime.
pub struct PlatformRecord {
    /// The platform's reported name.
    pub name: Vec<u8>,
    /// The platform's reported vendor.
    pub vendor: Vec<u8>,
    /// The platform's reported profile.
    pub profile: Vec<u8>,
    /// The platform's reported version string.
    pub version: Vec<u8>,
    /// The platform's space-separated extension list.
    pub extensions: Vec<u8>,
}

/// One device known to the native runtime.
pub struct DeviceRecord {
    /// The native reference count; meaningful for sub-devices only.
    pub refcount: u32,
    /// The device's reported name.
    pub name: Vec<u8>,
    /// The device-type bits.
    pub device_type: u64,
    /// Whether the device is currently available.
    pub available: bool,
    /// Whether an on-line compiler is available for the device.
    pub compiler_available: bool,
    /// Handle of the owning platform.
    pub platform: u64,
    /// Handle of the parent device; zero for a root device.
    pub parent: u64,
    /// The supported partition strategy tags.
    pub partition_caps: Vec<i64>,
    /// The tagged list this device was partitioned with; empty for roots.
    pub partition_ty: Vec<i64>,
    /// The number of parallel compute units.
    pub compute_units: u32,
    /// The command-queue property bits the device supports.
    pub queue_props: u64,
    /// Whether the interop-sync context property is supported.
    pub supports_interop_sync: bool,
    /// The semicolon-separated built-in kernel list.
    pub builtin_kernels: Vec<u8>,
    /// The space-separated extension list.
    pub extensions: Vec<u8>,
}

/// One context created through the native runtime.
pub struct ContextRecord {
    /// The native reference count.
    pub refcount: u32,
    /// Handles of the devices the context was created over.
    pub devices: Vec<u64>,
    /// The property list the context was created with, trailing zero kept.
    pub properties: Vec<i64>,
}

/// One command queue created through the native runtime.
pub struct QueueRecord {
    /// The native reference count.
    pub refcount: u32,
    /// Handle of the owning context.
    pub context: u64,
    /// Handle of the device the queue feeds.
    pub device: u64,
    /// The queue property bits.
    pub properties: u64,
}

/// One memory object created through the native runtime.
pub struct BufferRecord {
    /// The native reference count.
    pub refcount: u32,
    /// Handle of the owning context.
    pub context: u64,
    /// The allocation size in bytes.
    pub size: usize,
    /// The memory flag bits.
    pub flags: u64,
    /// The copied host data.
    pub data: Vec<u8>,
    /// How many mappings are outstanding.
    pub map_count: u32,
}

/// One program created through the native runtime.
pub struct ProgramRecord {
    /// The native reference count.
    pub refcount: u32,
    /// Handle of the owning context.
    pub context: u64,
    /// Handles of the devices the program targets.
    pub devices: Vec<u64>,
    /// The concatenated source text.
    pub source: Vec<u8>,
    /// The native build-status value.
    pub build_status: i32,
    /// The options string of the last build.
    pub build_options: Vec<u8>,
    /// The log of the last build.
    pub build_log: Vec<u8>,
    /// The semicolon-separated kernel names of a successful build.
    pub kernel_names: Vec<u8>,
    /// The native binary-type value.
    pub binary_type: u32,
}

/// One kernel created through the native runtime.
pub struct KernelRecord {
    /// The native reference count.
    pub refcount: u32,
    /// Handle of the owning program.
    pub program: u64,
}

/// Every property word is a non-negative signed value.
pub open spec fn words_wf(s: Seq<i64>) -> bool {
    forall|i: int| 0 <= i < s.len() ==> s[i] >= 0
}

/// All text of a platform record is seven-bit and terminator-free.
pub open spec fn platform_record_wf(p: PlatformRecord) -> bool {
    &&& is_text_bytes(p.name@)
    &&& is_text_bytes(p.vendor@)
    &&& is_text_bytes(p.profile@)
    &&& is_text_bytes(p.version@)
    &&& is_text_bytes(p.extensions@)
}

/// A device record with valid handles, terminator-free seven-bit text and
/// property words in range.
pub open spec fn device_record_wf(d: DeviceRecord, nplat: nat, ndev: nat) -> bool {
    &&& is_text_bytes(d.name@)
    &&& is_text_bytes(d.builtin_kernels@)
    &&& is_text_bytes(d.extensions@)
    &&& 1 <= d.platform <= nplat
    &&& d.parent == 0 || 1 <= d.parent <= ndev
    &&& words_wf(d.partition_caps@)
    &&& words_wf(d.partition_ty@)
}

/// A context record over valid devices with property words in range.
pub open spec fn context_record_wf(c: ContextRecord, ndev: nat) -> bool {
    &&& forall|i: int| 0 <= i < c.devices@.len() ==> 1 <= #[trigger] c.devices@[i] <= ndev
    &&& words_wf(c.properties@)
}

/// A queue record over a valid context and device.
pub open spec fn queue_record_wf(q: QueueRecord, nctx: nat, ndev: nat) -> bool {
    &&& 1 <= q.context <= nctx
    &&& 1 <= q.device <= ndev
}

/// A buffer record over a valid context.
pub open spec fn buffer_record_wf(b: BufferRecord, nctx: nat) -> bool {
    &&& 1 <= b.context <= nctx
    &&& b.size == b.data@.len()
}

/// A program record over a valid context and devices, with terminator-free
/// seven-bit text.
pub open spec fn program_record_wf(p: ProgramRecord, nctx: nat, ndev: nat) -> bool {
    &&& 1 <= p.context <= nctx
    &&& forall|i: int| 0 <= i < p.devices@.len() ==> 1 <= #[trigger] p.devices@[i] <= ndev
    &&& is_text_bytes(p.source@)
    &&& is_text_bytes(p.build_options@)
    &&& is_text_bytes(p.build_log@)
    &&& is_text_bytes(p.kernel_names@)
}

/// A kernel record over a valid program.
pub open spec fn kernel_record_wf(k: KernelRecord, nprog: nat) -> bool {
    1 <= k.program <= nprog
}

/// The conformance model of the native runtime: the record tables, the
/// observability counters, and the behavior switches that stand for
/// documented cross-platform differences.
pub struct Host {
    /// The platform table.
    pub platforms: Vec<PlatformRecord>,
    /// The device table; partitioning appends to it.
    pub devices: Vec<DeviceRecord>,
    /// The context table.
    pub contexts: Vec<ContextRecord>,
    /// The command-queue table.
    pub queues: Vec<QueueRecord>,
    /// The memory-object table.
    pub buffers: Vec<BufferRecord>,
    /// The program table.
    pub programs: Vec<ProgramRecord>,
    /// The kernel table.
    pub kernels: Vec<KernelRecord>,
    /// How many partition (sub-device creation) calls were issued.
    pub partition_calls: u64,
    /// Leave a root device's parent-handle buffer unwritten instead of
    /// writing a null handle, as some drivers do.
    pub parent_quirk: bool,
    /// Whether a platform can be selected automatically when context
    /// properties name none.
    pub auto_select_platform: bool,
    /// Report every program build as failed, with [`Host::failure_log`].
    pub force_build_failure: bool,
    /// Report every buffer allocation as failed.
    pub force_alloc_failure: bool,
    /// The build log reported for a forced build failure.
    pub failure_log: Vec<u8>,
    /// The kernel-name list reported after a successful build.
    pub built_kernel_names: Vec<u8>,
}

impl Host {
    /// There is a platform behind this handle.
    pub open spec fn valid_platform(&self, h: u64) -> bool {
        1 <= h <= self.platforms@.len()
    }

    /// There is a device behind this handle.
    pub open spec fn valid_device(&self, h: u64) -> bool {
        1 <= h <= self.devices@.len()
    }

    /// There is a context behind this handle.
    pub open spec fn valid_context(&self, h: u64) -> bool {
        1 <= h <= self.contexts@.len()
    }

    /// There is a command queue behind this handle.
    pub open spec fn valid_queue(&self, h: u64) -> bool {
        1 <= h <= self.queues@.len()
    }

    /// There is a memory object behind this handle.
    pub open spec fn valid_buffer(&self, h: u64) -> bool {
        1 <= h <= self.buffers@.len()
    }

    /// There is a program behind this handle.
    pub open spec fn valid_program(&self, h: u64) -> bool {
        1 <= h <= self.programs@.len()
    }

    /// There is a kernel behind this handle.
    pub open spec fn valid_kernel(&self, h: u64) -> bool {
        1 <= h <= self.kernels@.len()
    }

    /// The platform record behind a handle.
    pub open spec fn plat(&self, h: u64) -> PlatformRecord {
        self.platforms@[h - 1]
    }

    /// The device record behind a handle.
    pub open spec fn dev(&self, h: u64) -> DeviceRecord {
        self.devices@[h - 1]
    }

    /// The context record behind a handle.
    pub open spec fn ctx(&self, h: u64) -> ContextRecord {
        self.contexts@[h - 1]
    }

    /// The queue record behind a handle.
    pub open spec fn que(&self, h: u64) -> QueueRecord {
        self.queues@[h - 1]
    }

    /// The buffer record behind a handle.
    pub open spec fn buf(&self, h: u64) -> BufferRecord {
        self.buffers@[h - 1]
    }

    /// The program record behind a handle.
    pub open spec fn prog(&self, h: u64) -> ProgramRecord {
        self.programs@[h - 1]
    }

    /// The kernel record behind a handle.
    pub open spec fn kern(&self, h: u64) -> KernelRecord {
        self.kernels@[h - 1]
    }

    /// Every record table is internally consistent.
    pub open spec fn wf(&self) -> bool {
        &&& forall|i: int|
            0 <= i < self.platforms@.len() ==> platform_record_wf(#[trigger] self.platforms@[i])
        &&& forall|i: int|
            0 <= i < self.devices@.len() ==> device_record_wf(
                #[trigger] self.devices@[i],
                self.platforms@.len(),
                self.devices@.len(),
            )
        &&& forall|i: int|
            0 <= i < self.contexts@.len() ==> context_record_wf(
                #[trigger] self.contexts@[i],
                self.devices@.len(),
            )
        &&& forall|i: int|
            0 <= i < self.queues@.len() ==> queue_record_wf(
                #[trigger] self.queues@[i],
                self.contexts@.len(),
                self.devices@.len(),
            )
        &&& forall|i: int|
            0 <= i < self.buffers@.len() ==> buffer_record_wf(
                #[trigger] self.buffers@[i],
                self.contexts@.len(),
            )
        &&& forall|i: int|
            0 <= i < self.programs@.len() ==> program_record_wf(
                #[trigger] self.programs@[i],
                self.contexts@.len(),
                self.devices@.len(),
            )
        &&& forall|i: int|
            0 <= i < self.kernels@.len() ==> kernel_record_wf(
                #[trigger] self.kernels@[i],
                self.programs@.len(),
            )
        &&& is_text_bytes(self.failure_log@)
        &&& is_text_bytes(self.built_kernel_names@)
    }

    /// An empty runtime: no platforms, no devices, nothing created yet.
    pub fn new() -> (r: Host)
        ensures
            r.wf(),
            r.platforms@.len() == 0,
            r.devices@.len() == 0,
            r.contexts@.len() == 0,
            r.queues@.len() == 0,
            r.buffers@.len() == 0,
            r.programs@.len() == 0,
            r.kernels@.len() == 0,
            r.partition_calls == 0,
            !r.parent_quirk,
            r.auto_select_platform,
            !r.force_build_failure,
            !r.force_alloc_failure,
    {
        Host {
            platforms: Vec::new(),
            devices: Vec::new(),
            contexts: Vec::new(),
            queues: Vec::new(),
            buffers: Vec::new(),
            programs: Vec::new(),
            kernels: Vec::new(),
            partition_calls: 0,
            parent_quirk: false,
            auto_select_platform: true,
            force_build_failure: false,
            force_alloc_failure: false,
            failure_log: Vec::new(),
            built_kernel_names: Vec::new(),
        }
    }
}

/// Everything of `b` equals `a` except possibly the device table.
pub open spec fn eq_except_devices(a: Host, b: Host) -> bool {
    &&& a.platforms == b.platforms
    &&& a.contexts == b.contexts
    &&& a.queues == b.queues
    &&& a.buffers == b.buffers
    &&& a.programs == b.programs
    &&& a.kernels == b.kernels
    &&& a.partition_calls == b.partition_calls
    &&& a.parent_quirk == b.parent_quirk
    &&& a.auto_select_platform == b.auto_select_platform
    &&& a.force_build_failure == b.force_build_failure
    &&& a.force_alloc_failure == b.force_alloc_failure
    &&& a.failure_log == b.failure_log
    &&& a.built_kernel_names == b.built_kernel_names
}

/// Everything of `b` equals `a` except possibly the device table and the
/// partition-call counter.
pub open spec fn eq_except_partition(a: Host, b: Host) -> bool {
    &&& a.platforms == b.platforms
    &&& a.contexts == b.contexts
    &&& a.queues == b.queues
    &&& a.buffers == b.buffers
    &&& a.programs == b.programs
    &&& a.kernels == b.kernels
    &&& a.parent_quirk == b.parent_quirk
    &&& a.auto_select_platform == b.auto_select_platform
    &&& a.force_build_failure == b.force_build_failure
    &&& a.force_alloc_failure == b.force_alloc_failure
    &&& a.failure_log == b.failure_log
    &&& a.built_kernel_names == b.built_kernel_names
}

/// Everything of `b` equals `a` except possibly the context table.
pub open spec fn eq_except_contexts(a: Host, b: Host) -> bool {
    &&& a.platforms == b.platforms
    &&& a.devices == b.devices
    &&& a.queues == b.queues
    &&& a.buffers == b.buffers
    &&& a.programs == b.programs
    &&& a.kernels == b.kernels
    &&& a.partition_calls == b.partition_calls
    &&& a.parent_quirk == b.parent_quirk
    &&& a.auto_select_platform == b.auto_select_platform
    &&& a.force_build_failure == b.force_build_failure
    &&& a.force_alloc_failure == b.force_alloc_failure
    &&& a.failure_log == b.failure_log
    &&& a.built_kernel_names == b.built_kernel_names
}

/// Everything of `b` equals `a` except possibly the queue table.
pub open spec fn eq_except_queues(a: Host, b: Host) -> bool {
    &&& a.platforms == b.platforms
    &&& a.devices == b.devices
    &&& a.contexts == b.contexts
    &&& a.buffers == b.buffers
    &&& a.programs == b.programs
    &&& a.kernels == b.kernels
    &&& a.partition_calls == b.partition_calls
    &&& a.parent_quirk == b.parent_quirk
    &&& a.auto_select_platform == b.auto_select_platform
    &&& a.force_build_failure == b.force_build_failure
    &&& a.force_alloc_failure == b.force_alloc_failure
    &&& a.failure_log == b.failure_log
    &&& a.built_kernel_names == b.built_kernel_names
}

/// Everything of `b` equals `a` except possibly the buffer table.
pub open spec fn eq_except_buffers(a: Host, b: Host) -> bool {
    &&& a.platforms == b.platforms
    &&& a.devices == b.devices
    &&& a.contexts == b.contexts
    &&& a.queues == b.queues
    &&& a.programs == b.programs
    &&& a.kernels == b.kernels
    &&& a.partition_calls == b.partition_calls
    &&& a.parent_quirk == b.parent_quirk
    &&& a.auto_select_platform == b.auto_select_platform
    &&& a.force_build_failure == b.force_build_failure
    &&& a.force_alloc_failure == b.force_alloc_failure
    &&& a.failure_log == b.failure_log
    &&& a.built_kernel_names == b.built_kernel_names
}

/// Everything of `b` equals `a` except possibly the program table.
pub open spec fn eq_except_programs(a: Host, b: Host) -> bool {
    &&& a.platforms == b.platforms
    &&& a.devices == b.devices
    &&& a.contexts == b.contexts
    &&& a.queues == b.queues
    &&& a.buffers == b.buffers
    &&& a.kernels == b.kernels
    &&& a.partition_calls == b.partition_calls
    &&& a.parent_quirk == b.parent_quirk
    &&& a.auto_select_platform == b.auto_select_platform
    &&& a.force_build_failure == b.force_build_failure
    &&& a.force_alloc_failure == b.force_alloc_failure
    &&& a.failure_log == b.failure_log
    &&& a.built_kernel_names == b.built_kernel_names
}

/// Everything of `b` equals `a` except possibly the kernel table.
pub open spec fn eq_except_kernels(a: Host, b: Host) -> bool {
    &&& a.platforms == b.platforms
    &&& a.devices == b.devices
    &&& a.contexts == b.contexts
    &&& a.queues == b.queues
    &&& a.buffers == b.buffers
    &&& a.programs == b.programs
    &&& a.partition_calls == b.partition_calls
    &&& a.parent_quirk == b.parent_quirk
    &&& a.auto_select_platform == b.auto_select_platform
    &&& a.force_build_failure == b.force_build_failure
    &&& a.force_alloc_failure == b.force_alloc_failure
    &&& a.failure_log == b.failure_log
    &&& a.built_kernel_names == b.built_kernel_names
}

/// Two device records that differ at most in their reference count.
pub open spec fn same_device_except_count(a: DeviceRecord, b: DeviceRecord) -> bool {
    &&& a.name == b.name
    &&& a.device_type == b.device_type
    &&& a.available == b.available
    &&& a.compiler_available == b.compiler_available
    &&& a.platform == b.platform
    &&& a.parent == b.parent
    &&& a.partition_caps == b.partition_caps
    &&& a.partition_ty == b.partition_ty
    &&& a.compute_units == b.compute_units
    &&& a.queue_props == b.queue_props
    &&& a.supports_interop_sync == b.supports_interop_sync
    &&& a.builtin_kernels == b.builtin_kernels
    &&& a.extensions == b.extensions
}

/// The table index behind a handle that is known to be in range.
fn handle_index(h: u64, n: usize) -> (r: usize)
    requires
        1 <= h,
        h <= n,
    ensures
        r == h - 1,
{
    (h - 1) as usize
}

impl Host {
    /// Increment a sub-device's reference count.
    ///
    /// The native convention forbids counting root devices, so a valid
    /// sub-device handle is required; the wrapper layer establishes this by
    /// querying the parent marker first.
    pub fn retain_device(&mut self, h: u64) -> (r: i32)
        requires
            old(self).wf(),
            old(self).valid_device(h),
            old(self).dev(h).parent != 0,
            old(self).dev(h).refcount < u32::MAX,
        ensures
            r == CL_SUCCESS,
            final(self).wf(),
            eq_except_devices(*old(self), *final(self)),
            final(self).devices@.len() == old(self).devices@.len(),
            final(self).dev(h).refcount == old(self).dev(h).refcount + 1,
            same_device_except_count(final(self).dev(h), old(self).dev(h)),
            forall|j: int|
                0 <= j < old(self).devices@.len() && j != h - 1 ==> final(self).devices@[j] == old(self).devices@[j],
    {
        let i: usize = handle_index(h, self.devices.len());
        let mut rec = self.devices.remove(i);
        rec.refcount = rec.refcount + 1;
        self.devices.insert(i, rec);
        proof {
            assert forall|j: int| 0 <= j < final(self).devices@.len() implies device_record_wf(
                final(self).devices@[j],
                final(self).platforms@.len(),
                final(self).devices@.len(),
            ) by {
                assert(device_record_wf(
                    old(self).devices@[j],
                    old(self).platforms@.len(),
                    old(self).devices@.len(),
                ));
            }
        }
        CL_SUCCESS
    }

    /// Decrement a sub-device's reference count.
    pub fn release_device(&mut self, h: u64) -> (r: i32)
        requires
            old(self).wf(),
            old(self).valid_device(h),
            old(self).dev(h).parent != 0,
            old(self).dev(h).refcount >= 1,
        ensures
            r == CL_SUCCESS,
            final(self).wf(),
            eq_except_devices(*old(self), *final(self)),
            final(self).devices@.len() == old(self).devices@.len(),
            final(self).dev(h).refcount == old(self).dev(h).refcount - 1,
            same_device_except_count(final(self).dev(h), old(self).dev(h)),
            forall|j: int|
                0 <= j < old(self).devices@.len() && j != h - 1 ==> final(self).devices@[j] == old(self).devices@[j],
    {
        let i: usize = handle_index(h, self.devices.len());
        let mut rec = self.devices.remove(i);
        rec.refcount = rec.refcount - 1;
        self.devices.insert(i, rec);
        proof {
            assert forall|j: int| 0 <= j < final(self).devices@.len() implies device_record_wf(
                final(self).devices@[j],
                final(self).platforms@.len(),
                final(self).devices@.len(),
            ) by {
                assert(device_record_wf(
                    old(self).devices@[j],
                    old(self).platforms@.len(),
                    old(self).devices@.len(),
                ));
            }
        }
        CL_SUCCESS
    }

    /// Increment a context's reference count.
    pub fn retain_context(&mut self, h: u64) -> (r: i32)
        requires
            old(self).wf(),
            old(self).valid_context(h),
            old(self).ctx(h).refcount < u32::MAX,
        ensures
            r == CL_SUCCESS,
            final(self).wf(),
            eq_except_contexts(*old(self), *final(self)),
            final(self).contexts@.len() == old(self).contexts@.len(),
            final(self).ctx(h).refcount == old(self).ctx(h).refcount + 1,
            final(self).ctx(h).devices == old(self).ctx(h).devices,
            final(self).ctx(h).properties == old(self).ctx(h).properties,
            forall|j: int|
                0 <= j < old(self).contexts@.len() && j != h - 1 ==> final(self).contexts@[j]
                    == old(self).contexts@[j],
    {
        let i: usize = handle_index(h, self.contexts.len());
        let mut rec = self.contexts.remove(i);
        rec.refcount = rec.refcount + 1;
        self.contexts.insert(i, rec);
        proof {
            assert forall|j: int| 0 <= j < final(self).contexts@.len() implies context_record_wf(
                final(self).contexts@[j],
                final(self).devices@.len(),
            ) by {
                assert(context_record_wf(old(self).contexts@[j], old(self).devices@.len()));
            }
        }
        CL_SUCCESS
    }

    /// Decrement a context's reference count.
    pub fn release_context(&mut self, h: u64) -> (r: i32)
        requires
            old(self).wf(),
            old(self).valid_context(h),
            old(self).ctx(h).refcount >= 1,
        ensures
            r == CL_SUCCESS,
            final(self).wf(),
            eq_except_contexts(*old(self), *final(self)),
            final(self).contexts@.len() == old(self).contexts@.len(),
            final(self).ctx(h).refcount == old(self).ctx(h).refcount - 1,
            final(self).ctx(h).devices == old(self).ctx(h).devices,
            final(self).ctx(h).properties == old(self).ctx(h).properties,
            forall|j: int|
                0 <= j < old(self).contexts@.len() && j != h - 1 ==> final(self).contexts@[j]
                    == old(self).contexts@[j],
    {
        let i: usize = handle_index(h, self.contexts.len());
        let mut rec = self.contexts.remove(i);
        rec.refcount = rec.refcount - 1;
        self.contexts.insert(i, rec);
        proof {
            assert forall|j: int| 0 <= j < final(self).contexts@.len() implies context_record_wf(
                final(self).contexts@[j],
                final(self).devices@.len(),
            ) by {
                assert(context_record_wf(old(self).contexts@[j], old(self).devices@.len()));
            }
        }
        CL_SUCCESS
    }

    /// Increment a command queue's reference count.
    pub fn retain_queue(&mut self, h: u64) -> (r: i32)
        requires
            old(self).wf(),
            old(self).valid_queue(h),
            old(self).que(h).refcount < u32::MAX,
        ensures
            r == CL_SUCCESS,
            final(self).wf(),
            eq_except_queues(*old(self), *final(self)),
            final(self).queues@.len() == old(self).queues@.len(),
            final(self).que(h).refcount == old(self).que(h).refcount + 1,
            final(self).que(h).context == old(self).que(h).context,
            final(self).que(h).device == old(self).que(h).device,
            final(self).que(h).properties == old(self).que(h).properties,
            forall|j: int|
                0 <= j < old(self).queues@.len() && j != h - 1 ==> final(self).queues@[j] == old(self).queues@[j],
    {
        let i: usize = handle_index(h, self.queues.len());
        let mut rec = self.queues.remove(i);
        rec.refcount = rec.refcount + 1;
        self.queues.insert(i, rec);
        proof {
            assert forall|j: int| 0 <= j < final(self).queues@.len() implies queue_record_wf(
                final(self).queues@[j],
                final(self).contexts@.len(),
                final(self).devices@.len(),
            ) by {
                assert(queue_record_wf(
                    old(self).queues@[j],
                    old(self).contexts@.len(),
                    old(self).devices@.len(),
                ));
            }
        }
        CL_SUCCESS
    }

    /// Decrement a command queue's reference count.
    pub fn release_queue(&mut self, h: u64) -> (r: i32)
        requires
            old(self).wf(),
            old(self).valid_queue(h),
            old(self).que(h).refcount >= 1,
        ensures
            r == CL_SUCCESS,
            final(self).wf(),
            eq_except_queues(*old(self), *final(self)),
            final(self).queues@.len() == old(self).queues@.len(),
            final(self).que(h).refcount == old(self).que(h).refcount - 1,
            final(self).que(h).context == old(self).que(h).context,
            final(self).que(h).device == old(self).que(h).device,
            final(self).que(h).properties == old(self).que(h).properties,
            forall|j: int|
                0 <= j < old(self).queues@.len() && j != h - 1 ==> final(self).queues@[j] == old(self).queues@[j],
    {
        let i: usize = handle_index(h, self.queues.len());
        let mut rec = self.queues.remove(i);
        rec.refcount = rec.refcount - 1;
        self.queues.insert(i, rec);
        proof {
            assert forall|j: int| 0 <= j < final(self).queues@.len() implies queue_record_wf(
                final(self).queues@[j],
                final(self).contexts@.len(),
                final(self).devices@.len(),
            ) by {
                assert(queue_record_wf(
                    old(self).queues@[j],
                    old(self).contexts@.len(),
                    old(self).devices@.len(),
                ));
            }
        }
        CL_SUCCESS
    }

    /// Increment a memory object's reference count.
    pub fn retain_buffer(&mut self, h: u64) -> (r: i32)
        requires
            old(self).wf(),
            old(self).valid_buffer(h),
            old(self).buf(h).refcount < u32::MAX,
        ensures
            r == CL_SUCCESS,
            final(self).wf(),
            eq_except_buffers(*old(self), *final(self)),
            final(self).buffers@.len() == old(self).buffers@.len(),
            final(self).buf(h).refcount == old(self).buf(h).refcount + 1,
            final(self).buf(h).context == old(self).buf(h).context,
            final(self).buf(h).size == old(self).buf(h).size,
            final(self).buf(h).flags == old(self).buf(h).flags,
            final(self).buf(h).data == old(self).buf(h).data,
            final(self).buf(h).map_count == old(self).buf(h).map_count,
            forall|j: int|
                0 <= j < old(self).buffers@.len() && j != h - 1 ==> final(self).buffers@[j] == old(self).buffers@[j],
    {
        let i: usize = handle_index(h, self.buffers.len());
        let mut rec = self.buffers.remove(i);
        rec.refcount = rec.refcount + 1;
        self.buffers.insert(i, rec);
        proof {
            assert forall|j: int| 0 <= j < final(self).buffers@.len() implies buffer_record_wf(
                final(self).buffers@[j],
                final(self).contexts@.len(),
            ) by {
                assert(buffer_record_wf(old(self).buffers@[j], old(self).contexts@.len()));
            }
        }
        CL_SUCCESS
    }

    /// Decrement a memory object's reference count.
    pub fn release_buffer(&mut self, h: u64) -> (r: i32)
        requires
            old(self).wf(),
            old(self).valid_buffer(h),
            old(self).buf(h).refcount >= 1,
        ensures
            r == CL_SUCCESS,
            final(self).wf(),
            eq_except_buffers(*old(self), *final(self)),
            final(self).buffers@.len() == old(self).buffers@.len(),
            final(self).buf(h).refcount == old(self).buf(h).refcount - 1,
            final(self).buf(h).context == old(self).buf(h).context,
            final(self).buf(h).size == old(self).buf(h).size,
            final(self).buf(h).flags == old(self).buf(h).flags,
            final(self).buf(h).data == old(self).buf(h).data,
            final(self).buf(h).map_count == old(self).buf(h).map_count,
            forall|j: int|
                0 <= j < old(self).buffers@.len() && j != h - 1 ==> final(self).buffers@[j] == old(self).buffers@[j],
    {
        let i: usize = handle_index(h, self.buffers.len());
        let mut rec = self.buffers.remove(i);
        rec.refcount = rec.refcount - 1;
        self.buffers.insert(i, rec);
        proof {
            assert forall|j: int| 0 <= j < final(self).buffers@.len() implies buffer_record_wf(
                final(self).buffers@[j],
                final(self).contexts@.len(),
            ) by {
                assert(buffer_record_wf(old(self).buffers@[j], old(self).contexts@.len()));
            }
        }
        CL_SUCCESS
    }

    /// Increment a program's reference count.
    pub fn retain_program(&mut self, h: u64) -> (r: i32)
        requires
            old(self).wf(),
            old(self).valid_program(h),
            old(self).prog(h).refcount < u32::MAX,
        ensures
            r == CL_SUCCESS,
            final(self).wf(),
            eq_except_programs(*old(self), *final(self)),
            final(self).programs@.len() == old(self).programs@.len(),
            final(self).prog(h).refcount == old(self).prog(h).refcount + 1,
            same_program_except_count(final(self).prog(h), old(self).prog(h)),
            forall|j: int|
                0 <= j < old(self).programs@.len() && j != h - 1 ==> final(self).programs@[j]
                    == old(self).programs@[j],
    {
        let i: usize = handle_index(h, self.programs.len());
        let mut rec = self.programs.remove(i);
        rec.refcount = rec.refcount + 1;
        self.programs.insert(i, rec);
        proof {
            assert forall|j: int| 0 <= j < final(self).programs@.len() implies program_record_wf(
                final(self).programs@[j],
                final(self).contexts@.len(),
                final(self).devices@.len(),
            ) by {
                assert(program_record_wf(
                    old(self).programs@[j],
                    old(self).contexts@.len(),
                    old(self).devices@.len(),
                ));
            }
        }
        CL_SUCCESS
    }

    /// Decrement a program's reference count.
    pub fn release_program(&mut self, h: u64) -> (r: i32)
        requires
            old(self).wf(),
            old(self).valid_program(h),
            old(self).prog(h).refcount >= 1,
        ensures
            r == CL_SUCCESS,
            final(self).wf(),
            eq_except_programs(*old(self), *final(self)),
            final(self).programs@.len() == old(self).programs@.len(),
            final(self).prog(h).refcount == old(self).prog(h).refcount - 1,
            same_program_except_count(final(self).prog(h), old(self).prog(h)),
            forall|j: int|
                0 <= j < old(self).programs@.len() && j != h - 1 ==> final(self).programs@[j]
                    == old(self).programs@[j],
    {
        let i: usize = handle_index(h, self.programs.len());
        let mut rec = self.programs.remove(i);
        rec.refcount = rec.refcount - 1;
        self.programs.insert(i, rec);
        proof {
            assert forall|j: int| 0 <= j < final(self).programs@.len() implies program_record_wf(
                final(self).programs@[j],
                final(self).contexts@.len(),
                final(self).devices@.len(),
            ) by {
                assert(program_record_wf(
                    old(self).programs@[j],
                    old(self).contexts@.len(),
                    old(self).devices@.len(),
                ));
            }
        }
        CL_SUCCESS
    }

    /// Increment a kernel's reference count.
    pub fn retain_kernel(&mut self, h: u64) -> (r: i32)
        requires
            old(self).wf(),
            old(self).valid_kernel(h),
            old(self).kern(h).refcount < u32::MAX,
        ensures
            r == CL_SUCCESS,
            final(self).wf(),
            eq_except_kernels(*old(self), *final(self)),
            final(self).kernels@.len() == old(self).kernels@.len(),
            final(self).kern(h).refcount == old(self).kern(h).refcount + 1,
            final(self).kern(h).program == old(self).kern(h).program,
            forall|j: int|
                0 <= j < old(self).kernels@.len() && j != h - 1 ==> final(self).kernels@[j] == old(self).kernels@[j],
    {
        let i: usize = handle_index(h, self.kernels.len());
        let mut rec = self.kernels.remove(i);
        rec.refcount = rec.refcount + 1;
        self.kernels.insert(i, rec);
        proof {
            assert forall|j: int| 0 <= j < final(self).kernels@.len() implies kernel_record_wf(
                final(self).kernels@[j],
                final(self).programs@.len(),
            ) by {
                assert(kernel_record_wf(old(self).kernels@[j], old(self).programs@.len()));
            }
        }
        CL_SUCCESS
    }

    /// Decrement a kernel's reference count.
    pub fn release_kernel(&mut self, h: u64) -> (r: i32)
        requires
            old(self).wf(),
            old(self).valid_kernel(h),
            old(self).kern(h).refcount >= 1,
        ensures
            r == CL_SUCCESS,
            final(self).wf(),
            eq_except_kernels(*old(self), *final(self)),
            final(self).kernels@.len() == old(self).kernels@.len(),
            final(self).kern(h).refcount == old(self).kern(h).refcount - 1,
            final(self).kern(h).program == old(self).kern(h).program,
            forall|j: int|
                0 <= j < old(self).kernels@.len() && j != h - 1 ==> final(self).kernels@[j] == old(self).kernels@[j],
    {
        let i: usize = handle_index(h, self.kernels.len());
        let mut rec = self.kernels.remove(i);
        rec.refcount = rec.refcount - 1;
        self.kernels.insert(i, rec);
        proof {
            assert forall|j: int| 0 <= j < final(self).kernels@.len() implies kernel_record_wf(
                final(self).kernels@[j],
                final(self).programs@.len(),
            ) by {
                assert(kernel_record_wf(old(self).kernels@[j], old(self).programs@.len()));
            }
        }
        CL_SUCCESS
    }
}

/// The record tables and the partition-call counter of `a` and `b` agree.
pub open spec fn same_tables(a: Host, b: Host) -> bool {
    &&& a.platforms == b.platforms
    &&& a.devices == b.devices
    &&& a.contexts == b.contexts
    &&& a.queues == b.queues
    &&& a.buffers == b.buffers
    &&& a.programs == b.programs
    &&& a.kernels == b.kernels
    &&& a.partition_calls == b.partition_calls
}

impl Host {
    /// Switch the unwritten-parent-buffer driver behavior on or off.
    pub fn set_parent_quirk(&mut self, v: bool)
        requires
            old(self).wf(),
        ensures
            final(self).wf(),
            same_tables(*old(self), *final(self)),
            final(self).parent_quirk == v,
            final(self).auto_select_platform == old(self).auto_select_platform,
            final(self).force_build_failure == old(self).force_build_failure,
            final(self).force_alloc_failure == old(self).force_alloc_failure,
            final(self).failure_log == old(self).failure_log,
            final(self).built_kernel_names == old(self).built_kernel_names,
    {
        self.parent_quirk = v;
    }

    /// Switch automatic platform selection on or off.
    pub fn set_auto_select_platform(&mut self, v: bool)
        requires
            old(self).wf(),
        ensures
            final(self).wf(),
            same_tables(*old(self), *final(self)),
            final(self).auto_select_platform == v,
            final(self).parent_quirk == old(self).parent_quirk,
            final(self).force_build_failure == old(self).force_build_failure,
            final(self).force_alloc_failure == old(self).force_alloc_failure,
            final(self).failure_log == old(self).failure_log,
            final(self).built_kernel_names == old(self).built_kernel_names,
    {
        self.auto_select_platform = v;
    }

    /// Switch forced allocation failure on or off.
    pub fn set_force_alloc_failure(&mut self, v: bool)
        requires
            old(self).wf(),
        ensures
            final(self).wf(),
            same_tables(*old(self), *final(self)),
            final(self).force_alloc_failure == v,
            final(self).parent_quirk == old(self).parent_quirk,
            final(self).auto_select_platform == old(self).auto_select_platform,
            final(self).force_build_failure == old(self).force_build_failure,
            final(self).failure_log == old(self).failure_log,
            final(self).built_kernel_names == old(self).built_kernel_names,
    {
        self.force_alloc_failure = v;
    }

    /// Switch forced build failure on or off, with the log to report.
    ///
    /// Returns `false`, changing nothing, if the log is not terminator-free
    /// seven-bit text.
    pub fn set_force_build_failure(&mut self, v: bool, log: Vec<u8>) -> (r: bool)
        requires
            old(self).wf(),
        ensures
            final(self).wf(),
            r == is_text_bytes(log@),
            same_tables(*old(self), *final(self)),
            final(self).parent_quirk == old(self).parent_quirk,
            final(self).auto_select_platform == old(self).auto_select_platform,
            final(self).force_alloc_failure == old(self).force_alloc_failure,
            final(self).built_kernel_names == old(self).built_kernel_names,
            r ==> final(self).force_build_failure == v && final(self).failure_log@ == log@,
            !r ==> final(self).force_build_failure == old(self).force_build_failure
                && final(self).failure_log == old(self).failure_log,
    {
        if !check_text(&log) {
            return false;
        }
        self.force_build_failure = v;
        self.failure_log = log;
        true
    }

    /// Set the kernel-name list reported after a successful build.
    ///
    /// Returns `false`, changing nothing, if the list is not
    /// terminator-free seven-bit text.
    pub fn set_built_kernel_names(&mut self, names: Vec<u8>) -> (r: bool)
        requires
            old(self).wf(),
        ensures
            final(self).wf(),
            r == is_text_bytes(names@),
            same_tables(*old(self), *final(self)),
            final(self).parent_quirk == old(self).parent_quirk,
            final(self).auto_select_platform == old(self).auto_select_platform,
            final(self).force_build_failure == old(self).force_build_failure,
            final(self).force_alloc_failure == old(self).force_alloc_failure,
            final(self).failure_log == old(self).failure_log,
            r ==> final(self).built_kernel_names@ == names@,
            !r ==> final(self).built_kernel_names == old(self).built_kernel_names,
    {
        if !check_text(&names) {
            return false;
        }
        self.built_kernel_names = names;
        true
    }

    /// Add a platform to the runtime, returning its handle.
    ///
    /// Returns `None`, changing nothing, if any text field is not
    /// terminator-free seven-bit text.
    pub fn add_platform(&mut self, p: PlatformRecord) -> (r: Option<u64>)
        requires
            old(self).wf(),
            old(self).platforms@.len() < u64::MAX - 1,
        ensures
            final(self).wf(),
            r is Some ==> {
                &&& final(self).platforms@ == old(self).platforms@.push(p)
                &&& r->Some_0 == old(self).platforms@.len() + 1
                &&& final(self).devices == old(self).devices
                &&& final(self).contexts == old(self).contexts
                &&& final(self).queues == old(self).queues
                &&& final(self).buffers == old(self).buffers
                &&& final(self).programs == old(self).programs
                &&& final(self).kernels == old(self).kernels
                &&& final(self).partition_calls == old(self).partition_calls
            },
            r is None ==> *final(self) == *old(self),
            r is Some <==> platform_record_wf(p),
    {
        let ok = check_text(&p.name) && check_text(&p.vendor) && check_text(&p.profile)
            && check_text(&p.version) && check_text(&p.extensions);
        if !ok {
            return None;
        }
        let h: u64 = self.platforms.len() as u64 + 1;
        self.platforms.push(p);
        proof {
            assert forall|i: int| 0 <= i < final(self).devices@.len() implies device_record_wf(
                final(self).devices@[i],
                final(self).platforms@.len(),
                final(self).devices@.len(),
            ) by {
                assert(device_record_wf(
                    old(self).devices@[i],
                    old(self).platforms@.len(),
                    old(self).devices@.len(),
                ));
            }
        }
        Some(h)
    }

    /// Add a root device to the runtime, returning its handle.
    ///
    /// The record must describe a root: reference count one, no parent, no
    /// partition history, a valid platform handle, terminator-free
    /// seven-bit text and non-negative capability words. Returns `None`,
    /// changing nothing, otherwise.
    pub fn add_root_device(&mut self, d: DeviceRecord) -> (r: Option<u64>)
        requires
            old(self).wf(),
            old(self).devices@.len() < u64::MAX - 1,
        ensures
            final(self).wf(),
            r is Some <==> root_record_acceptable(d, old(self).platforms@.len()),
            r is Some ==> {
                &&& final(self).devices@ == old(self).devices@.push(d)
                &&& r->Some_0 == old(self).devices@.len() + 1
                &&& d.parent == 0
                &&& eq_except_devices(*old(self), *final(self))
            },
            r is None ==> *final(self) == *old(self),
    {
        let ok = check_text(&d.name) && check_text(&d.builtin_kernels)
            && check_text(&d.extensions) && check_words(&d.partition_caps)
            && d.partition_ty.len() == 0 && d.parent == 0 && d.refcount == 1 && d.platform >= 1
            && d.platform <= self.platforms.len() as u64;
        if !ok {
            return None;
        }
        let h: u64 = self.devices.len() as u64 + 1;
        self.devices.push(d);
        proof {
            assert forall|i: int| 0 <= i < final(self).devices@.len() implies device_record_wf(
                final(self).devices@[i],
                final(self).platforms@.len(),
                final(self).devices@.len(),
            ) by {
                if i < old(self).devices@.len() {
                    assert(device_record_wf(
                        old(self).devices@[i],
                        old(self).platforms@.len(),
                        old(self).devices@.len(),
                    ));
                }
            }
            assert forall|i: int| 0 <= i < final(self).contexts@.len() implies context_record_wf(
                final(self).contexts@[i],
                final(self).devices@.len(),
            ) by {
                assert(context_record_wf(old(self).contexts@[i], old(self).devices@.len()));
            }
            assert forall|i: int| 0 <= i < final(self).queues@.len() implies queue_record_wf(
                final(self).queues@[i],
                final(self).contexts@.len(),
                final(self).devices@.len(),
            ) by {
                assert(queue_record_wf(
                    old(self).queues@[i],
                    old(self).contexts@.len(),
                    old(self).devices@.len(),
                ));
            }
            assert forall|i: int| 0 <= i < final(self).programs@.len() implies program_record_wf(
                final(self).programs@[i],
                final(self).contexts@.len(),
                final(self).devices@.len(),
            ) by {
                assert(program_record_wf(
                    old(self).programs@[i],
                    old(self).contexts@.len(),
                    old(self).devices@.len(),
                ));
            }
        }
        Some(h)
    }
}

/// The conditions under which a record is accepted as a root device:
/// reference count one, no parent, no partition history, a valid platform
/// handle, terminator-free seven-bit text, and non-negative capability
/// words.
pub open spec fn root_record_acceptable(d: DeviceRecord, nplat: nat) -> bool {
    &&& is_text_bytes(d.name@)
    &&& is_text_bytes(d.builtin_kernels@)
    &&& is_text_bytes(d.extensions@)
    &&& words_wf(d.partition_caps@)
    &&& d.partition_ty@.len() == 0
    &&& d.parent == 0
    &&& d.refcount == 1
    &&& 1 <= d.platform <= nplat
}

/// The options strings the native build step accepts: every
/// whitespace-separated token is a flag, opening with a dash.
pub open spec fn options_valid(opts: Seq<u8>) -> bool {
    forall|i: int|
        0 <= i < split_tokens(opts).len() ==> (#[trigger] split_tokens(opts)[i]).len() >= 1
            && split_tokens(opts)[i][0] == 45
}

/// Check an options string against the native flag shape.
pub fn check_options(opts: &Vec<u8>) -> (r: bool)
    ensures
        r == options_valid(opts@),
{
    let pieces = split_tokens_vec(opts);
    let n: usize = pieces.len();
    let mut i: usize = 0;
    while i < n
        invariant
            i <= n,
            n == pieces@.len(),
            crate::text::views_of(pieces@) == split_tokens(opts@),
            forall|k: int|
                0 <= k < i ==> (#[trigger] split_tokens(opts@)[k]).len() >= 1 && split_tokens(
                    opts@,
                )[k][0] == 45,
        decreases n - i,
    {
        proof {
            assert(crate::text::views_of(pieces@)[i as int] == pieces@[i as int]@);
        }
        let good = pieces[i].len() >= 1 && pieces[i][0] == 45;
        if !good {
            proof {
                assert(!((split_tokens(opts@)[i as int]).len() >= 1 && split_tokens(
                    opts@,
                )[i as int][0] == 45));
            }
            return false;
        }
        i = i + 1;
    }
    true
}

/// Check that every property word is non-negative.
pub fn check_words(v: &Vec<i64>) -> (r: bool)
    ensures
        r == words_wf(v@),
{
    let n: usize = v.len();
    let mut i: usize = 0;
    while i < n
        invariant
            i <= n,
            n == v@.len(),
            forall|j: int| 0 <= j < i ==> v@[j] >= 0,
        decreases n - i,
    {
        if v[i] < 0 {
            return false;
        }
        i = i + 1;
    }
    true
}

/// Two program records that differ at most in their reference count.
pub open spec fn same_program_except_count(a: ProgramRecord, b: ProgramRecord) -> bool {
    &&& a.context == b.context
    &&& a.devices == b.devices
    &&& a.source == b.source
    &&& a.build_status == b.build_status
    &&& a.build_options == b.build_options
    &&& a.build_log == b.build_log
    &&& a.kernel_names == b.kernel_names
    &&& a.binary_type == b.binary_type
}

/// The handles `1..=n` of a table of `n` records.
pub open spec fn table_handles(n: nat) -> Seq<u64> {
    Seq::new(n, |i: int| (i + 1) as u64)
}

impl Host {
    /// The root-device handles of `platform` whose type matches `bits`,
    /// starting the scan at table index `i`.
    pub open spec fn matching_devices_from(&self, platform: u64, bits: u64, i: int) -> Seq<u64>
        decreases self.devices@.len() - i,
    {
        if i < 0 || i >= self.devices@.len() {
            Seq::empty()
        } else {
            let rest = self.matching_devices_from(platform, bits, i + 1);
            if self.devices@[i].parent == 0 && self.devices@[i].platform == platform
                && self.devices@[i].device_type & bits != 0 {
                seq![(i + 1) as u64] + rest
            } else {
                rest
            }
        }
    }

    /// The root-device handles of `platform` whose type matches `bits`.
    pub open spec fn matching_devices(&self, platform: u64, bits: u64) -> Seq<u64> {
        self.matching_devices_from(platform, bits, 0)
    }

    /// The platform enumeration entry point: count-then-fill convention.
    pub fn platform_ids(&self, num_entries: u32, want_data: bool) -> (r: (i32, Vec<u64>, u32))
        requires
            self.wf(),
            self.platforms@.len() <= u32::MAX,
        ensures
            r.0 == CL_SUCCESS,
            r.2 == self.platforms@.len(),
            want_data ==> r.1@ == table_handles(self.platforms@.len()).take(
                min(num_entries as int, self.platforms@.len() as int),
            ),
            !want_data ==> r.1@.len() == 0,
    {
        let n: usize = self.platforms.len();
        let count: u32 = n as u32;
        let mut out: Vec<u64> = Vec::new();
        if want_data {
            let m: usize = if (num_entries as usize) < n {
                num_entries as usize
            } else {
                n
            };
            let mut i: usize = 0;
            while i < m
                invariant
                    i <= m,
                    m <= n,
                    n == self.platforms@.len(),
                    out@ =~= table_handles(self.platforms@.len()).take(m as int).take(i as int),
                decreases m - i,
            {
                out.push(i as u64 + 1);
                proof {
                    let t = table_handles(self.platforms@.len()).take(m as int);
                    assert(t.take(i + 1) =~= t.take(i as int).push(t[i as int]));
                }
                i = i + 1;
            }
            proof {
                let t = table_handles(self.platforms@.len()).take(m as int);
                assert(t.take(m as int) =~= t);
            }
        }
        (CL_SUCCESS, out, count)
    }

    /// Collect the matching root-device handles from table index `i` on.
    fn collect_matching(&self, platform: u64, bits: u64, i: usize) -> (r: Vec<u64>)
        requires
            self.wf(),
            i <= self.devices@.len(),
        ensures
            r@ == self.matching_devices_from(platform, bits, i as int),
        decreases self.devices@.len() - i,
    {
        let n: usize = self.devices.len();
        if i == n {
            Vec::new()
        } else {
            let hit = self.devices[i].parent == 0 && self.devices[i].platform == platform
                && self.devices[i].device_type & bits != 0;
            let mut rest = self.collect_matching(platform, bits, i + 1);
            if hit {
                rest.insert(0, i as u64 + 1);
                proof {
                    assert(rest@ =~= self.matching_devices_from(platform, bits, i as int));
                }
            }
            rest
        }
    }

    /// The device enumeration entry point: count-then-fill convention; a
    /// platform with no matching device reports a distinct failure code.
    pub fn device_ids(&self, platform: u64, bits: u64, num_entries: u32, want_data: bool) -> (r: (
        i32,
        Vec<u64>,
        u32,
    ))
        requires
            self.wf(),
            self.valid_platform(platform),
            self.devices@.len() <= u32::MAX,
        ensures
            self.matching_devices(platform, bits).len() == 0 ==> r.0 == CL_DEVICE_NOT_FOUND
                && r.1@.len() == 0 && r.2 == 0,
            self.matching_devices(platform, bits).len() > 0 ==> {
                &&& r.0 == CL_SUCCESS
                &&& r.2 == self.matching_devices(platform, bits).len()
                &&& want_data ==> r.1@ == self.matching_devices(platform, bits).take(
                    min(num_entries as int, self.matching_devices(platform, bits).len() as int),
                )
                &&& !want_data ==> r.1@.len() == 0
            },
    {
        let all = self.collect_matching(platform, bits, 0);
        proof {
            lemma_matching_devices_bound(self, platform, bits, 0);
        }
        if all.len() == 0 {
            return (CL_DEVICE_NOT_FOUND, Vec::new(), 0);
        }
        let count: u32 = all.len() as u32;
        if !want_data {
            return (CL_SUCCESS, Vec::new(), count);
        }
        let n: usize = all.len();
        let m: usize = if (num_entries as usize) < n {
            num_entries as usize
        } else {
            n
        };
        let mut out: Vec<u64> = Vec::new();
        let mut i: usize = 0;
        while i < m
            invariant
                i <= m,
                m <= n,
                n == all@.len(),
                out@ == all@.take(i as int),
            decreases m - i,
        {
            out.push(all[i]);
            proof {
                assert(all@.take(i + 1) =~= all@.take(i as int).push(all@[i as int]));
            }
            i = i + 1;
        }
        proof {
            assert(out@ =~= all@.take(min(num_entries as int, all@.len() as int)));
        }
        (CL_SUCCESS, out, count)
    }
}

/// A matching-device scan yields at most one handle per table entry.
pub proof fn lemma_matching_devices_bound(h: &Host, platform: u64, bits: u64, i: int)
    requires
        0 <= i <= h.devices@.len(),
    ensures
        h.matching_devices_from(platform, bits, i).len() <= h.devices@.len() - i,
    decreases h.devices@.len() - i,
{
    if i < h.devices@.len() {
        lemma_matching_devices_bound(h, platform, bits, i + 1);
    }
}

/// The value stored under `tag` in a zero-terminated (tag, value) property
/// list, if any.
pub open spec fn props_tag_value(p: Seq<i64>, tag: i64) -> Option<i64>
    decreases p.len(),
{
    if p.len() <= 1 {
        None
    } else if p[0] == 0 {
        None
    } else if p[0] == tag {
        Some(p[1])
    } else {
        props_tag_value(p.skip(2), tag)
    }
}

/// The property list names a platform.
pub open spec fn props_has_platform(p: Seq<i64>) -> bool {
    props_tag_value(p, CL_CONTEXT_PLATFORM) is Some
}

/// The property list requests user-managed interop synchronization.
pub open spec fn props_wants_sync(p: Seq<i64>) -> bool {
    match props_tag_value(p, CL_CONTEXT_INTEROP_USER_SYNC) {
        Some(v) => v != 0,
        None => false,
    }
}

/// Look a tag up in a zero-terminated (tag, value) property list.
pub fn props_find(p: &Vec<i64>, tag: i64) -> (r: Option<i64>)
    ensures
        r == props_tag_value(p@, tag),
{
    let n: usize = p.len();
    let mut i: usize = 0;
    proof {
        assert(p@.skip(0) =~= p@);
    }
    while n - i > 1
        invariant
            i <= n,
            n == p@.len(),
            props_tag_value(p@, tag) == props_tag_value(p@.skip(i as int), tag),
        decreases n - i,
    {
        if p[i] == 0 {
            proof {
                assert(p@.skip(i as int)[0] == 0);
            }
            return None;
        }
        if p[i] == tag {
            proof {
                assert(p@.skip(i as int)[0] == tag);
                assert(p@.skip(i as int)[1] == p@[i + 1]);
            }
            return Some(p[i + 1]);
        }
        proof {
            assert(p@.skip(i as int).skip(2) =~= p@.skip(i + 2));
        }
        i = i + 2;
    }
    proof {
        assert(p@.skip(i as int).len() <= 1);
    }
    None
}

/// Linear scan for a handle in a handle list.
pub fn contains_handle(v: &Vec<u64>, x: u64) -> (r: bool)
    ensures
        r == v@.contains(x),
{
    let n: usize = v.len();
    let mut i: usize = 0;
    while i < n
        invariant
            i <= n,
            n == v@.len(),
            forall|k: int| 0 <= k < i ==> v@[k] != x,
        decreases n - i,
    {
        if v[i] == x {
            return true;
        }
        i = i + 1;
    }
    proof {
        assert(forall|k: int| 0 <= k < v@.len() ==> v@[k] != x);
    }
    false
}

impl Host {
    /// Are all the listed devices available?
    fn all_available(&self, devs: &Vec<u64>) -> (r: bool)
        requires
            self.wf(),
            forall|i: int| 0 <= i < devs@.len() ==> self.valid_device(#[trigger] devs@[i]),
        ensures
            r == forall|i: int|
                0 <= i < devs@.len() ==> self.dev(#[trigger] devs@[i]).available,
    {
        let n: usize = devs.len();
        let mut i: usize = 0;
        while i < n
            invariant
                i <= n,
                n == devs@.len(),
                self.wf(),
                forall|k: int| 0 <= k < n ==> self.valid_device(#[trigger] devs@[k]),
                forall|k: int| 0 <= k < i ==> self.dev(#[trigger] devs@[k]).available,
            decreases n - i,
        {
            let h = devs[i];
            let di = handle_index(h, self.devices.len());
            if !self.devices[di].available {
                return false;
            }
            i = i + 1;
        }
        true
    }

    /// Do all the listed devices support user-managed interop sync?
    fn all_support_sync(&self, devs: &Vec<u64>) -> (r: bool)
        requires
            self.wf(),
            forall|i: int| 0 <= i < devs@.len() ==> self.valid_device(#[trigger] devs@[i]),
        ensures
            r == forall|i: int|
                0 <= i < devs@.len() ==> self.dev(#[trigger] devs@[i]).supports_interop_sync,
    {
        let n: usize = devs.len();
        let mut i: usize = 0;
        while i < n
            invariant
                i <= n,
                n == devs@.len(),
                self.wf(),
                forall|k: int| 0 <= k < n ==> self.valid_device(#[trigger] devs@[k]),
                forall|k: int| 0 <= k < i ==> self.dev(#[trigger] devs@[k]).supports_interop_sync,
            decreases n - i,
        {
            let h = devs[i];
            let di = handle_index(h, self.devices.len());
            if !self.devices[di].supports_interop_sync {
                return false;
            }
            i = i + 1;
        }
        true
    }

    /// Do all the listed devices have a compiler?
    fn all_compilers(&self, devs: &Vec<u64>) -> (r: bool)
        requires
            self.wf(),
            forall|i: int| 0 <= i < devs@.len() ==> self.valid_device(#[trigger] devs@[i]),
        ensures
            r == forall|i: int|
                0 <= i < devs@.len() ==> self.dev(#[trigger] devs@[i]).compiler_available,
    {
        let n: usize = devs.len();
        let mut i: usize = 0;
        while i < n
            invariant
                i <= n,
                n == devs@.len(),
                self.wf(),
                forall|k: int| 0 <= k < n ==> self.valid_device(#[trigger] devs@[k]),
                forall|k: int| 0 <= k < i ==> self.dev(#[trigger] devs@[k]).compiler_available,
            decreases n - i,
        {
            let h = devs[i];
            let di = handle_index(h, self.devices.len());
            if !self.devices[di].compiler_available {
                return false;
            }
            i = i + 1;
        }
        true
    }

    /// The status a context-creation call reports: no devices, an
    /// unavailable device, an unsupported sync request, or no selectable
    /// platform make it fail; anything else succeeds.
    pub open spec fn context_create_status(&self, props: Seq<i64>, devs: Seq<u64>) -> i32 {
        if devs.len() == 0 {
            CL_INVALID_VALUE
        } else if exists|i: int| 0 <= i < devs.len() && !self.dev(#[trigger] devs[i]).available {
            CL_DEVICE_NOT_AVAILABLE
        } else if props_wants_sync(props) && exists|i: int|
            0 <= i < devs.len() && !self.dev(#[trigger] devs[i]).supports_interop_sync {
            CL_INVALID_PROPERTY
        } else if !props_has_platform(props) && !self.auto_select_platform {
            CL_INVALID_PLATFORM
        } else {
            CL_SUCCESS
        }
    }

    /// The context-creation entry point.
    pub fn create_context(&mut self, props: &Vec<i64>, devs: &Vec<u64>) -> (r: (i32, u64))
        requires
            old(self).wf(),
            forall|i: int|
                0 <= i < devs@.len() ==> old(self).valid_device(#[trigger] devs@[i]),
            words_wf(props@),
            old(self).contexts@.len() < u64::MAX - 1,
        ensures
            r.0 == old(self).context_create_status(props@, devs@),
            r.0 != CL_SUCCESS ==> *final(self) == *old(self),
            r.0 == CL_SUCCESS ==> {
                &&& final(self).wf()
                &&& eq_except_contexts(*old(self), *final(self))
                &&& final(self).contexts@.len() == old(self).contexts@.len() + 1
                &&& forall|j: int|
                    0 <= j < old(self).contexts@.len() ==> final(self).contexts@[j] == old(self).contexts@[j]
                &&& r.1 == old(self).contexts@.len() + 1
                &&& final(self).ctx(r.1).refcount == 1
                &&& final(self).ctx(r.1).devices@ == devs@
                &&& final(self).ctx(r.1).properties@ == props@
            },
            final(self).wf(),
    {
        let ndev: usize = devs.len();
        if ndev == 0 {
            return (CL_INVALID_VALUE, 0);
        }
        if !self.all_available(devs) {
            return (CL_DEVICE_NOT_AVAILABLE, 0);
        }
        let sync = match props_find(props, CL_CONTEXT_INTEROP_USER_SYNC) {
            Some(v) => v != 0,
            None => false,
        };
        if sync {
            if !self.all_support_sync(devs) {
                return (CL_INVALID_PROPERTY, 0);
            }
        }
        let has_platform = props_find(props, CL_CONTEXT_PLATFORM).is_some();
        if !has_platform && !self.auto_select_platform {
            return (CL_INVALID_PLATFORM, 0);
        }
        let h: u64 = self.contexts.len() as u64 + 1;
        let rec = ContextRecord {
            refcount: 1,
            devices: copy_handles(devs),
            properties: copy_prop_words(props),
        };
        self.contexts.push(rec);
        proof {
            assert forall|j: int| 0 <= j < final(self).contexts@.len() implies context_record_wf(
                final(self).contexts@[j],
                final(self).devices@.len(),
            ) by {
                if j < old(self).contexts@.len() {
                    assert(context_record_wf(old(self).contexts@[j], old(self).devices@.len()));
                }
            }
            assert forall|j: int| 0 <= j < final(self).queues@.len() implies queue_record_wf(
                final(self).queues@[j],
                final(self).contexts@.len(),
                final(self).devices@.len(),
            ) by {
                assert(queue_record_wf(
                    old(self).queues@[j],
                    old(self).contexts@.len(),
                    old(self).devices@.len(),
                ));
            }
            assert forall|j: int| 0 <= j < final(self).buffers@.len() implies buffer_record_wf(
                final(self).buffers@[j],
                final(self).contexts@.len(),
            ) by {
                assert(buffer_record_wf(old(self).buffers@[j], old(self).contexts@.len()));
            }
            assert forall|j: int| 0 <= j < final(self).programs@.len() implies program_record_wf(
                final(self).programs@[j],
                final(self).contexts@.len(),
                final(self).devices@.len(),
            ) by {
                assert(program_record_wf(
                    old(self).programs@[j],
                    old(self).contexts@.len(),
                    old(self).devices@.len(),
                ));
            }
        }
        (CL_SUCCESS, h)
    }

    /// The status a queue-creation call reports: the device must belong to
    /// the context and the requested property bits must all be supported.
    pub open spec fn queue_create_status(&self, ctx: u64, dev: u64, bits: u64) -> i32 {
        if !self.ctx(ctx).devices@.contains(dev) {
            CL_INVALID_DEVICE
        } else if bits & !self.dev(dev).queue_props != 0 {
            CL_INVALID_QUEUE_PROPERTIES
        } else {
            CL_SUCCESS
        }
    }

    /// The command-queue creation entry point.
    pub fn create_command_queue(&mut self, ctx: u64, dev: u64, bits: u64) -> (r: (i32, u64))
        requires
            old(self).wf(),
            old(self).valid_context(ctx),
            old(self).valid_device(dev),
            old(self).queues@.len() < u64::MAX - 1,
        ensures
            r.0 == old(self).queue_create_status(ctx, dev, bits),
            r.0 != CL_SUCCESS ==> *final(self) == *old(self),
            r.0 == CL_SUCCESS ==> {
                &&& eq_except_queues(*old(self), *final(self))
                &&& final(self).queues@.len() == old(self).queues@.len() + 1
                &&& forall|j: int|
                    0 <= j < old(self).queues@.len() ==> final(self).queues@[j] == old(self).queues@[j]
                &&& r.1 == old(self).queues@.len() + 1
                &&& final(self).que(r.1).refcount == 1
                &&& final(self).que(r.1).context == ctx
                &&& final(self).que(r.1).device == dev
                &&& final(self).que(r.1).properties == bits
            },
            final(self).wf(),
    {
        let ci = handle_index(ctx, self.contexts.len());
        let found = contains_handle(&self.contexts[ci].devices, dev);
        if !found {
            return (CL_INVALID_DEVICE, 0);
        }
        let di = handle_index(dev, self.devices.len());
        if bits & !self.devices[di].queue_props != 0 {
            return (CL_INVALID_QUEUE_PROPERTIES, 0);
        }
        let h: u64 = self.queues.len() as u64 + 1;
        self.queues.push(QueueRecord { refcount: 1, context: ctx, device: dev, properties: bits });
        proof {
            assert forall|j: int| 0 <= j < final(self).queues@.len() implies queue_record_wf(
                final(self).queues@[j],
                final(self).contexts@.len(),
                final(self).devices@.len(),
            ) by {
                if j < old(self).queues@.len() {
                    assert(queue_record_wf(
                        old(self).queues@[j],
                        old(self).contexts@.len(),
                        old(self).devices@.len(),
                    ));
                }
            }
        }
        (CL_SUCCESS, h)
    }

    /// The status a buffer-creation call reports.
    pub open spec fn buffer_create_status(&self) -> i32 {
        if self.force_alloc_failure {
            CL_MEM_OBJECT_ALLOCATION_FAILURE
        } else {
            CL_SUCCESS
        }
    }

    /// The buffer-creation entry point; the host data is copied in.
    pub fn create_buffer(&mut self, ctx: u64, flags: u64, data: Vec<u8>) -> (r: (i32, u64))
        requires
            old(self).wf(),
            old(self).valid_context(ctx),
            old(self).buffers@.len() < u64::MAX - 1,
        ensures
            r.0 == old(self).buffer_create_status(),
            r.0 != CL_SUCCESS ==> *final(self) == *old(self),
            r.0 == CL_SUCCESS ==> {
                &&& eq_except_buffers(*old(self), *final(self))
                &&& final(self).buffers@.len() == old(self).buffers@.len() + 1
                &&& forall|j: int|
                    0 <= j < old(self).buffers@.len() ==> final(self).buffers@[j] == old(self).buffers@[j]
                &&& r.1 == old(self).buffers@.len() + 1
                &&& final(self).buf(r.1).refcount == 1
                &&& final(self).buf(r.1).context == ctx
                &&& final(self).buf(r.1).size == data@.len()
                &&& final(self).buf(r.1).flags == flags
                &&& final(self).buf(r.1).data@ == data@
                &&& final(self).buf(r.1).map_count == 0
            },
            final(self).wf(),
    {
        if self.force_alloc_failure {
            return (CL_MEM_OBJECT_ALLOCATION_FAILURE, 0);
        }
        let h: u64 = self.buffers.len() as u64 + 1;
        let size = data.len();
        self.buffers.push(
            BufferRecord { refcount: 1, context: ctx, size, flags, data, map_count: 0 },
        );
        proof {
            assert forall|j: int| 0 <= j < final(self).buffers@.len() implies buffer_record_wf(
                final(self).buffers@[j],
                final(self).contexts@.len(),
            ) by {
                if j < old(self).buffers@.len() {
                    assert(buffer_record_wf(old(self).buffers@[j], old(self).contexts@.len()));
                }
            }
        }
        (CL_SUCCESS, h)
    }

    /// The program-creation entry point; the program targets every device of
    /// its context and starts unbuilt.
    pub fn create_program_with_source(&mut self, ctx: u64, source: Vec<u8>) -> (r: (i32, u64))
        requires
            old(self).wf(),
            old(self).valid_context(ctx),
            is_text_bytes(source@),
            old(self).programs@.len() < u64::MAX - 1,
        ensures
            r.0 == CL_SUCCESS,
            eq_except_programs(*old(self), *final(self)),
            final(self).programs@.len() == old(self).programs@.len() + 1,
            forall|j: int|
                0 <= j < old(self).programs@.len() ==> final(self).programs@[j] == old(self).programs@[j],
            r.1 == old(self).programs@.len() + 1,
            final(self).prog(r.1).refcount == 1,
            final(self).prog(r.1).context == ctx,
            final(self).prog(r.1).devices@ == old(self).ctx(ctx).devices@,
            final(self).prog(r.1).source@ == source@,
            final(self).prog(r.1).build_status == CL_BUILD_NONE,
            final(self).prog(r.1).build_options@.len() == 0,
            final(self).prog(r.1).build_log@.len() == 0,
            final(self).prog(r.1).kernel_names@.len() == 0,
            final(self).prog(r.1).binary_type == CL_PROGRAM_BINARY_TYPE_NONE,
            final(self).wf(),
    {
        let ci = handle_index(ctx, self.contexts.len());
        let devs = copy_handles(&self.contexts[ci].devices);
        let h: u64 = self.programs.len() as u64 + 1;
        self.programs.push(
            ProgramRecord {
                refcount: 1,
                context: ctx,
                devices: devs,
                source,
                build_status: CL_BUILD_NONE,
                build_options: Vec::new(),
                build_log: Vec::new(),
                kernel_names: Vec::new(),
                binary_type: CL_PROGRAM_BINARY_TYPE_NONE,
            },
        );
        proof {
            assert forall|j: int| 0 <= j < final(self).programs@.len() implies program_record_wf(
                final(self).programs@[j],
                final(self).contexts@.len(),
                final(self).devices@.len(),
            ) by {
                if j < old(self).programs@.len() {
                    assert(program_record_wf(
                        old(self).programs@[j],
                        old(self).contexts@.len(),
                        old(self).devices@.len(),
                    ));
                } else {
                    assert(context_record_wf(
                        old(self).ctx(ctx),
                        old(self).devices@.len(),
                    ));
                }
            }
        }
        (CL_SUCCESS, h)
    }

    /// The status a program build reports: a malformed options string is
    /// refused first, then a device without a compiler blocks the build,
    /// then the forced-failure switch fails it; anything else succeeds.
    pub open spec fn build_status_code(&self, prog: u64, options: Seq<u8>) -> i32 {
        if !options_valid(options) {
            CL_INVALID_BUILD_OPTIONS
        } else if exists|i: int|
            0 <= i < self.prog(prog).devices@.len() && !self.dev(
                #[trigger] self.prog(prog).devices@[i],
            ).compiler_available {
            CL_COMPILER_NOT_AVAILABLE
        } else if self.force_build_failure {
            CL_BUILD_PROGRAM_FAILURE
        } else {
            CL_SUCCESS
        }
    }

    /// The program-build entry point.
    pub fn build_program(&mut self, prog: u64, options: Vec<u8>) -> (r: i32)
        requires
            old(self).wf(),
            old(self).valid_program(prog),
            is_text_bytes(options@),
        ensures
            r == old(self).build_status_code(prog, options@),
            r == CL_INVALID_BUILD_OPTIONS ==> *final(self) == *old(self),
            r == CL_COMPILER_NOT_AVAILABLE ==> *final(self) == *old(self),
            r != CL_COMPILER_NOT_AVAILABLE && r != CL_INVALID_BUILD_OPTIONS ==> {
                &&& eq_except_programs(*old(self), *final(self))
                &&& final(self).programs@.len() == old(self).programs@.len()
                &&& forall|j: int|
                    0 <= j < old(self).programs@.len() && j != prog - 1 ==> final(self).programs@[j] == old(self).programs@[j]
                &&& final(self).prog(prog).refcount == old(self).prog(prog).refcount
                &&& final(self).prog(prog).context == old(self).prog(prog).context
                &&& final(self).prog(prog).devices == old(self).prog(prog).devices
                &&& final(self).prog(prog).source == old(self).prog(prog).source
                &&& final(self).prog(prog).build_options@ == options@
            },
            r == CL_BUILD_PROGRAM_FAILURE ==> {
                &&& final(self).prog(prog).build_status == CL_BUILD_ERROR
                &&& final(self).prog(prog).build_log@ == old(self).failure_log@
                &&& final(self).prog(prog).kernel_names == old(self).prog(prog).kernel_names
                &&& final(self).prog(prog).binary_type == old(self).prog(prog).binary_type
            },
            r == CL_SUCCESS ==> {
                &&& final(self).prog(prog).build_status == CL_BUILD_SUCCESS
                &&& final(self).prog(prog).build_log@.len() == 0
                &&& final(self).prog(prog).kernel_names@ == old(self).built_kernel_names@
                &&& final(self).prog(prog).binary_type == CL_PROGRAM_BINARY_TYPE_EXECUTABLE
            },
            final(self).wf(),
    {
        if !check_options(&options) {
            return CL_INVALID_BUILD_OPTIONS;
        }
        let pi = handle_index(prog, self.programs.len());
        let devs = copy_handles(&self.programs[pi].devices);
        if !self.all_compilers(&devs) {
            proof {
                assert(devs@ == self.prog(prog).devices@);
                assert(exists|i: int|
                    0 <= i < devs@.len() && !self.dev(#[trigger] devs@[i]).compiler_available);
                let w = choose|i: int|
                    0 <= i < devs@.len() && !self.dev(#[trigger] devs@[i]).compiler_available;
                assert(!self.dev(self.prog(prog).devices@[w]).compiler_available);
            }
            return CL_COMPILER_NOT_AVAILABLE;
        }
        let mut rec = self.programs.remove(pi);
        let status: i32;
        if self.force_build_failure {
            rec.build_status = CL_BUILD_ERROR;
            rec.build_log = copy_bytes(&self.failure_log);
            rec.build_options = options;
            status = CL_BUILD_PROGRAM_FAILURE;
        } else {
            rec.build_status = CL_BUILD_SUCCESS;
            rec.build_log = Vec::new();
            rec.kernel_names = copy_bytes(&self.built_kernel_names);
            rec.binary_type = CL_PROGRAM_BINARY_TYPE_EXECUTABLE;
            rec.build_options = options;
            status = CL_SUCCESS;
        }
        self.programs.insert(pi, rec);
        proof {
            assert forall|j: int| 0 <= j < final(self).programs@.len() implies program_record_wf(
                final(self).programs@[j],
                final(self).contexts@.len(),
                final(self).devices@.len(),
            ) by {
                assert(program_record_wf(
                    old(self).programs@[j],
                    old(self).contexts@.len(),
                    old(self).devices@.len(),
                ));
            }
        }
        status
    }

    /// The status a kernel-creation call reports: the name must be one of
    /// the built program's kernel names.
    pub open spec fn kernel_create_status(&self, prog: u64, name: Seq<u8>) -> i32 {
        if split_bytes(self.prog(prog).kernel_names@, SEP_SEMICOLON).contains(name) {
            CL_SUCCESS
        } else {
            CL_INVALID_KERNEL_NAME
        }
    }

    /// The kernel-creation entry point.
    pub fn create_kernel(&mut self, prog: u64, name: &Vec<u8>) -> (r: (i32, u64))
        requires
            old(self).wf(),
            old(self).valid_program(prog),
            old(self).kernels@.len() < u64::MAX - 1,
        ensures
            r.0 == old(self).kernel_create_status(prog, name@),
            r.0 != CL_SUCCESS ==> *final(self) == *old(self),
            r.0 == CL_SUCCESS ==> {
                &&& eq_except_kernels(*old(self), *final(self))
                &&& final(self).kernels@.len() == old(self).kernels@.len() + 1
                &&& forall|j: int|
                    0 <= j < old(self).kernels@.len() ==> final(self).kernels@[j] == old(self).kernels@[j]
                &&& r.1 == old(self).kernels@.len() + 1
                &&& final(self).kern(r.1).refcount == 1
                &&& final(self).kern(r.1).program == prog
            },
            final(self).wf(),
    {
        let pi = handle_index(prog, self.programs.len());
        let pieces = split_vec(&self.programs[pi].kernel_names, SEP_SEMICOLON);
        let np: usize = pieces.len();
        let mut found: bool = false;
        let mut i: usize = 0;
        let ghost target = split_bytes(self.prog(prog).kernel_names@, SEP_SEMICOLON);
        proof {
            assert(crate::text::views_of(pieces@) == target);
        }
        while i < np
            invariant
                i <= np,
                np == pieces@.len(),
                crate::text::views_of(pieces@) == target,
                !found ==> forall|k: int| 0 <= k < i ==> crate::text::views_of(pieces@)[k] != name@,
                found ==> target.contains(name@),
            decreases np - i,
        {
            if bytes_eq(&pieces[i], name) {
                proof {
                    assert(crate::text::views_of(pieces@)[i as int] == pieces@[i as int]@);
                    assert(target[i as int] == name@);
                }
                found = true;
            }
            i = i + 1;
        }
        proof {
            if !found {
                assert forall|k: int| 0 <= k < target.len() implies target[k] != name@ by {
                    assert(crate::text::views_of(pieces@)[k] != name@);
                }
            }
        }
        if !found {
            return (CL_INVALID_KERNEL_NAME, 0);
        }
        let h: u64 = self.kernels.len() as u64 + 1;
        self.kernels.push(KernelRecord { refcount: 1, program: prog });
        proof {
            assert forall|j: int| 0 <= j < final(self).kernels@.len() implies kernel_record_wf(
                final(self).kernels@[j],
                final(self).programs@.len(),
            ) by {
                if j < old(self).kernels@.len() {
                    assert(kernel_record_wf(old(self).kernels@[j], old(self).programs@.len()));
                }
            }
        }
        (CL_SUCCESS, h)
    }
}

/// The sum of a list of signed property words.
pub open spec fn sum_words(c: Seq<i64>) -> int
    decreases c.len(),
{
    if c.len() == 0 {
        0
    } else {
        c[0] + sum_words(c.skip(1))
    }
}

pub proof fn lemma_sum_words_split(c: Seq<i64>, i: int)
    requires
        0 <= i <= c.len(),
    ensures
        sum_words(c) == sum_words(c.take(i)) + sum_words(c.skip(i)),
    decreases i,
{
    if i == 0 {
        assert(c.take(0) =~= Seq::<i64>::empty());
        assert(c.skip(0) =~= c);
    } else {
        lemma_sum_words_split(c, i - 1);
        assert(c.take(i) =~= c.take(i - 1).push(c[i - 1]));
        lemma_sum_words_snoc(c.take(i - 1), c[i - 1]);
        assert(c.skip(i - 1)[0] == c[i - 1]);
        assert(c.skip(i - 1).skip(1) =~= c.skip(i));
    }
}

pub proof fn lemma_sum_words_snoc(c: Seq<i64>, w: i64)
    ensures
        sum_words(c.push(w)) == sum_words(c) + w,
    decreases c.len(),
{
    let p = c.push(w);
    assert(p.len() == c.len() + 1);
    if c.len() == 0 {
        assert(p[0] == w);
        assert(p.skip(1) =~= Seq::<i64>::empty());
        assert(sum_words(p) == p[0] + sum_words(p.skip(1)));
        assert(sum_words(p.skip(1)) == 0);
    } else {
        assert(p[0] == c[0]);
        assert(p.skip(1) =~= c.skip(1).push(w));
        lemma_sum_words_snoc(c.skip(1), w);
        assert(sum_words(p) == p[0] + sum_words(p.skip(1)));
    }
}

/// A list of positive words sums to at least its length, and each entry is
/// at most the sum.
pub proof fn lemma_sum_words_positive(c: Seq<i64>)
    requires
        forall|i: int| 0 <= i < c.len() ==> c[i] > 0,
    ensures
        sum_words(c) >= c.len(),
        forall|i: int| 0 <= i < c.len() ==> c[i] <= sum_words(c),
    decreases c.len(),
{
    if c.len() > 0 {
        lemma_sum_words_positive(c.skip(1));
        assert(forall|i: int| 1 <= i < c.len() ==> c[i] == c.skip(1)[i - 1]);
    }
}

/// Scan a list of signed property words for a word.
pub fn contains_word(v: &Vec<i64>, x: i64) -> (r: bool)
    ensures
        r == v@.contains(x),
{
    let n: usize = v.len();
    let mut i: usize = 0;
    while i < n
        invariant
            i <= n,
            n == v@.len(),
            forall|k: int| 0 <= k < i ==> v@[k] != x,
        decreases n - i,
    {
        if v[i] == x {
            return true;
        }
        i = i + 1;
    }
    proof {
        assert(forall|k: int| 0 <= k < v@.len() ==> v@[k] != x);
    }
    false
}

/// Are all the listed counts positive?
fn all_positive(v: &Vec<i64>) -> (r: bool)
    ensures
        r == forall|i: int| 0 <= i < v@.len() ==> v@[i] > 0,
{
    let n: usize = v.len();
    let mut i: usize = 0;
    while i < n
        invariant
            i <= n,
            n == v@.len(),
            forall|k: int| 0 <= k < i ==> v@[k] > 0,
        decreases n - i,
    {
        if v[i] <= 0 {
            return false;
        }
        i = i + 1;
    }
    true
}

/// Does the list of positive counts sum to at most `limit`?
fn sum_within(c: &Vec<i64>, limit: u32) -> (r: bool)
    requires
        forall|i: int| 0 <= i < c@.len() ==> c@[i] > 0,
    ensures
        r == (sum_words(c@) <= limit as int),
{
    let n: usize = c.len();
    let mut acc: u64 = 0;
    let mut i: usize = 0;
    proof {
        assert(c@.take(0) =~= Seq::<i64>::empty());
    }
    while i < n
        invariant
            i <= n,
            n == c@.len(),
            forall|k: int| 0 <= k < n ==> c@[k] > 0,
            acc == sum_words(c@.take(i as int)),
            acc <= limit,
        decreases n - i,
    {
        proof {
            assert(c@.take(i + 1) =~= c@.take(i as int).push(c@[i as int]));
            lemma_sum_words_snoc(c@.take(i as int), c@[i as int]);
        }
        let next: u64 = acc + (c[i] as u64);
        if next > limit as u64 {
            proof {
                lemma_sum_words_split(c@, i + 1);
                assert forall|k: int| 0 <= k < c@.skip(i + 1).len() implies #[trigger] c@.skip(
                    i + 1,
                )[k] > 0 by {
                    assert(c@.skip(i + 1)[k] == c@[k + i + 1]);
                }
                lemma_sum_words_positive(c@.skip(i + 1));
            }
            return false;
        }
        acc = next;
        i = i + 1;
    }
    proof {
        assert(c@.take(n as int) =~= c@);
    }
    true
}

/// What one partition request does, given the device's capability tags and
/// compute units: the status code and the compute-unit share of each
/// sub-device to create (empty unless the status is success).
pub open spec fn partition_plan(caps: Seq<i64>, units: u32, props: Seq<i64>) -> (i32, Seq<u32>) {
    if !words_wf(props) {
        (CL_INVALID_VALUE, Seq::empty())
    } else {
        match spec_decode_partition(props) {
            Option::None => (CL_INVALID_VALUE, Seq::empty()),
            Option::Some(inner) => match inner {
                Option::None => (CL_INVALID_VALUE, Seq::empty()),
                Option::Some(shape) => match shape {
                    PartitionShape::Equally(n) => if !caps.contains(CL_DEVICE_PARTITION_EQUALLY) {
                        (CL_INVALID_VALUE, Seq::empty())
                    } else if n <= 0 {
                        (CL_INVALID_VALUE, Seq::empty())
                    } else if (units as int) < n {
                        (CL_DEVICE_PARTITION_FAILED, Seq::empty())
                    } else {
                        (
                            CL_SUCCESS,
                            Seq::new((units as int / n as int) as nat, |j: int| n as u32),
                        )
                    },
                    PartitionShape::ByCounts(c) => if !caps.contains(
                        CL_DEVICE_PARTITION_BY_COUNTS,
                    ) {
                        (CL_INVALID_VALUE, Seq::empty())
                    } else if c.len() == 0 {
                        (CL_INVALID_VALUE, Seq::empty())
                    } else if exists|i: int| 0 <= i < c.len() && #[trigger] c[i] <= 0 {
                        (CL_INVALID_VALUE, Seq::empty())
                    } else if sum_words(c) > units as int {
                        (CL_DEVICE_PARTITION_FAILED, Seq::empty())
                    } else {
                        (CL_SUCCESS, Seq::new(c.len(), |j: int| c[j] as u32))
                    },
                    PartitionShape::ByAffinityDomain(bits) => if !caps.contains(
                        CL_DEVICE_PARTITION_BY_AFFINITY_DOMAIN,
                    ) {
                        (CL_INVALID_VALUE, Seq::empty())
                    } else if bits == 0 {
                        (CL_INVALID_VALUE, Seq::empty())
                    } else if units < 2 {
                        (CL_DEVICE_PARTITION_FAILED, Seq::empty())
                    } else {
                        (CL_SUCCESS, seq![(units / 2) as u32, (units / 2) as u32])
                    },
                },
            },
        }
    }
}

/// Evaluate a partition request against the capability tags and unit count.
fn eval_partition_plan(caps: &Vec<i64>, units: u32, props: &Vec<i64>) -> (r: (i32, Vec<u32>))
    ensures
        r.0 == partition_plan(caps@, units, props@).0,
        r.1@ == partition_plan(caps@, units, props@).1,
        r.1@.len() <= units,
        r.0 == CL_SUCCESS ==> words_wf(props@),
{
    if !check_words(props) {
        return (CL_INVALID_VALUE, Vec::new());
    }
    match decode_partition_list(props) {
        Option::None => (CL_INVALID_VALUE, Vec::new()),
        Option::Some(inner) => match inner {
            Option::None => (CL_INVALID_VALUE, Vec::new()),
            Option::Some(pt) => match pt {
                PartitionType::Equally(n) => {
                    if !contains_word(caps, CL_DEVICE_PARTITION_EQUALLY) {
                        return (CL_INVALID_VALUE, Vec::new());
                    }
                    if n <= 0 {
                        return (CL_INVALID_VALUE, Vec::new());
                    }
                    if (units as i64) < n {
                        return (CL_DEVICE_PARTITION_FAILED, Vec::new());
                    }
                    let share: u32 = n as u32;
                    let k: u32 = units / share;
                    let mut v: Vec<u32> = Vec::new();
                    let mut j: u32 = 0;
                    while j < k
                        invariant
                            j <= k,
                            v@.len() == j,
                            forall|q: int| 0 <= q < j ==> v@[q] == share,
                        decreases k - j,
                    {
                        v.push(share);
                        j = j + 1;
                    }
                    proof {
                        assert(v@ =~= partition_plan(caps@, units, props@).1);
                    }
                    (CL_SUCCESS, v)
                },
                PartitionType::ByCounts(counts) => {
                    if !contains_word(caps, CL_DEVICE_PARTITION_BY_COUNTS) {
                        return (CL_INVALID_VALUE, Vec::new());
                    }
                    let m: usize = counts.len();
                    if m == 0 {
                        return (CL_INVALID_VALUE, Vec::new());
                    }
                    if !all_positive(&counts) {
                        return (CL_INVALID_VALUE, Vec::new());
                    }
                    if !sum_within(&counts, units) {
                        return (CL_DEVICE_PARTITION_FAILED, Vec::new());
                    }
                    proof {
                        lemma_sum_words_positive(counts@);
                    }
                    let mut v: Vec<u32> = Vec::new();
                    let mut j: usize = 0;
                    while j < m
                        invariant
                            j <= m,
                            m == counts@.len(),
                            forall|q: int| 0 <= q < m ==> counts@[q] > 0,
                            sum_words(counts@) <= units as int,
                            forall|q: int| 0 <= q < m ==> counts@[q] <= sum_words(counts@),
                            v@.len() == j,
                            forall|q: int| 0 <= q < j ==> v@[q] == counts@[q] as u32,
                        decreases m - j,
                    {
                        v.push(counts[j] as u32);
                        j = j + 1;
                    }
                    proof {
                        assert(v@ =~= partition_plan(caps@, units, props@).1);
                        assert(v@.len() <= sum_words(counts@));
                    }
                    (CL_SUCCESS, v)
                },
                PartitionType::ByAffinityDomain(a) => {
                    if !contains_word(caps, CL_DEVICE_PARTITION_BY_AFFINITY_DOMAIN) {
                        return (CL_INVALID_VALUE, Vec::new());
                    }
                    if a.bitfield == 0 {
                        return (CL_INVALID_VALUE, Vec::new());
                    }
                    if units < 2 {
                        return (CL_DEVICE_PARTITION_FAILED, Vec::new());
                    }
                    let mut v: Vec<u32> = Vec::new();
                    v.push(units / 2);
                    v.push(units / 2);
                    proof {
                        assert(v@ =~= partition_plan(caps@, units, props@).1);
                    }
                    (CL_SUCCESS, v)
                },
            },
        },
    }
}

/// A freshly created sub-device record: reference count one, the parent
/// link set, the creating descriptor list recorded, the given compute-unit
/// share, and everything else inherited from the parent.
pub open spec fn sub_device_rec(
    s: DeviceRecord,
    parent_rec: DeviceRecord,
    parent: u64,
    props: Seq<i64>,
    units: u32,
) -> bool {
    &&& s.refcount == 1
    &&& s.parent == parent
    &&& s.partition_ty@ == props
    &&& s.partition_caps@.len() == 0
    &&& s.compute_units == units
    &&& s.name@ == parent_rec.name@
    &&& s.device_type == parent_rec.device_type
    &&& s.available == parent_rec.available
    &&& s.compiler_available == parent_rec.compiler_available
    &&& s.platform == parent_rec.platform
    &&& s.queue_props == parent_rec.queue_props
    &&& s.supports_interop_sync == parent_rec.supports_interop_sync
    &&& s.builtin_kernels@ == parent_rec.builtin_kernels@
    &&& s.extensions@ == parent_rec.extensions@
}

impl Host {
    /// The sub-device creation entry point: count-then-fill convention.
    ///
    /// Every invocation counts as one partition call, which the wrapper's
    /// capability gate is required (and proved) never to reach for an
    /// unsupported descriptor.
    pub fn create_sub_devices(
        &mut self,
        dev: u64,
        props: &Vec<i64>,
        num_entries: u32,
        want_data: bool,
    ) -> (r: (i32, Vec<u64>, u32))
        requires
            old(self).wf(),
            old(self).valid_device(dev),
            old(self).partition_calls < u64::MAX,
            old(self).devices@.len() + 0x100000000 < u64::MAX,
        ensures
            final(self).partition_calls == old(self).partition_calls + 1,
            eq_except_partition(*old(self), *final(self)),
            final(self).wf(),
            ({
                let plan = partition_plan(
                    old(self).dev(dev).partition_caps@,
                    old(self).dev(dev).compute_units,
                    props@,
                );
                &&& r.0 == plan.0
                &&& (r.0 != CL_SUCCESS ==> final(self).devices == old(self).devices && r.1@.len()
                    == 0 && r.2 == 0)
                &&& (r.0 == CL_SUCCESS ==> r.2 == plan.1.len())
                &&& (r.0 == CL_SUCCESS && !want_data ==> final(self).devices == old(self).devices
                    && r.1@.len() == 0)
                &&& (r.0 == CL_SUCCESS && want_data ==> {
                    &&& final(self).devices@.len() == old(self).devices@.len() + plan.1.len()
                    &&& forall|j: int|
                        0 <= j < old(self).devices@.len() ==> final(self).devices@[j] == old(
                            self,
                        ).devices@[j]
                    &&& forall|j: int|
                        0 <= j < plan.1.len() ==> sub_device_rec(
                            #[trigger] final(self).devices@[old(self).devices@.len() + j],
                            old(self).dev(dev),
                            dev,
                            props@,
                            plan.1[j],
                        )
                    &&& r.1@ == Seq::new(
                        plan.1.len(),
                        |j: int| (old(self).devices@.len() + j + 1) as u64,
                    )
                })
            }),
    {
        self.partition_calls = self.partition_calls + 1;
        let di = handle_index(dev, self.devices.len());
        let caps = copy_prop_words(&self.devices[di].partition_caps);
        let units = self.devices[di].compute_units;
        let (status, sizes) = eval_partition_plan(&caps, units, props);
        if status != CL_SUCCESS {
            return (status, Vec::new(), 0);
        }
        let count: u32 = sizes.len() as u32;
        if !want_data {
            return (CL_SUCCESS, Vec::new(), count);
        }
        let pname = copy_bytes(&self.devices[di].name);
        let pbk = copy_bytes(&self.devices[di].builtin_kernels);
        let pext = copy_bytes(&self.devices[di].extensions);
        let dtype = self.devices[di].device_type;
        let avail = self.devices[di].available;
        let compiler = self.devices[di].compiler_available;
        let plat = self.devices[di].platform;
        let qprops = self.devices[di].queue_props;
        let sync = self.devices[di].supports_interop_sync;
        let base: usize = self.devices.len();
        let k: usize = sizes.len();
        let mut handles: Vec<u64> = Vec::new();
        let mut j: usize = 0;
        while j < k
            invariant
                j <= k,
                k == sizes@.len(),
                base + k <= u64::MAX,
                base == old(self).devices@.len(),
                self.devices@.len() == base + j,
                eq_except_partition(*old(self), *self),
                self.partition_calls == old(self).partition_calls + 1,
                self.wf(),
                old(self).wf(),
                old(self).valid_device(dev),
                dev <= base,
                words_wf(props@),
                pname@ == old(self).dev(dev).name@,
                pbk@ == old(self).dev(dev).builtin_kernels@,
                pext@ == old(self).dev(dev).extensions@,
                dtype == old(self).dev(dev).device_type,
                avail == old(self).dev(dev).available,
                compiler == old(self).dev(dev).compiler_available,
                plat == old(self).dev(dev).platform,
                qprops == old(self).dev(dev).queue_props,
                sync == old(self).dev(dev).supports_interop_sync,
                forall|q: int|
                    0 <= q < base ==> self.devices@[q] == old(self).devices@[q],
                forall|q: int|
                    0 <= q < j ==> sub_device_rec(
                        #[trigger] self.devices@[base + q],
                        old(self).dev(dev),
                        dev,
                        props@,
                        sizes@[q],
                    ),
                handles@ == Seq::new(j as nat, |i: int| (base + i + 1) as u64),
            decreases k - j,
        {
            let rec = DeviceRecord {
                refcount: 1,
                name: copy_bytes(&pname),
                device_type: dtype,
                available: avail,
                compiler_available: compiler,
                platform: plat,
                parent: dev,
                partition_caps: Vec::new(),
                partition_ty: copy_prop_words(props),
                compute_units: sizes[j],
                queue_props: qprops,
                supports_interop_sync: sync,
                builtin_kernels: copy_bytes(&pbk),
                extensions: copy_bytes(&pext),
            };
            handles.push(self.devices.len() as u64 + 1);
            let ghost pre = self.devices@;
            self.devices.push(rec);
            proof {
                assert(handles@ =~= Seq::new((j + 1) as nat, |i: int| (base + i + 1) as u64));
                assert(self.devices@ == pre.push(rec));
                assert(sub_device_rec(rec, old(self).dev(dev), dev, props@, sizes@[j as int]));
                assert forall|q: int| 0 <= q < self.devices@.len() implies device_record_wf(
                    self.devices@[q],
                    self.platforms@.len(),
                    self.devices@.len(),
                ) by {
                    if q < base {
                        assert(self.devices@[q] == pre[q]);
                        assert(pre[q] == old(self).devices@[q]);
                        assert(device_record_wf(
                            old(self).devices@[q],
                            old(self).platforms@.len(),
                            old(self).devices@.len(),
                        ));
                    } else if q < base + j {
                        assert(self.devices@[q] == pre[q]);
                        assert(sub_device_rec(
                            pre[base + (q - base)],
                            old(self).dev(dev),
                            dev,
                            props@,
                            sizes@[q - base],
                        ));
                        assert(device_record_wf(
                            old(self).dev(dev),
                            old(self).platforms@.len(),
                            old(self).devices@.len(),
                        ));
                    } else {
                        assert(self.devices@[q] == rec);
                        assert(device_record_wf(
                            old(self).dev(dev),
                            old(self).platforms@.len(),
                            old(self).devices@.len(),
                        ));
                    }
                }
                assert forall|q: int|
                    0 <= q < j + 1 implies sub_device_rec(
                        #[trigger] self.devices@[base + q],
                        old(self).dev(dev),
                        dev,
                        props@,
                        sizes@[q],
                    ) by {
                    if q < j {
                        assert(self.devices@[base + q] == pre[base + q]);
                        assert(sub_device_rec(
                            pre[base + q],
                            old(self).dev(dev),
                            dev,
                            props@,
                            sizes@[q],
                        ));
                    } else {
                        assert(self.devices@[base + q] == rec);
                    }
                }
                assert forall|q: int| 0 <= q < self.contexts@.len() implies context_record_wf(
                    self.contexts@[q],
                    self.devices@.len(),
                ) by {
                    assert(context_record_wf(old(self).contexts@[q], old(self).devices@.len()));
                }
                assert forall|q: int| 0 <= q < self.queues@.len() implies queue_record_wf(
                    self.queues@[q],
                    self.contexts@.len(),
                    self.devices@.len(),
                ) by {
                    assert(queue_record_wf(
                        old(self).queues@[q],
                        old(self).contexts@.len(),
                        old(self).devices@.len(),
                    ));
                }
                assert forall|q: int| 0 <= q < self.programs@.len() implies program_record_wf(
                    self.programs@[q],
                    self.contexts@.len(),
                    self.devices@.len(),
                ) by {
                    assert(program_record_wf(
                        old(self).programs@[q],
                        old(self).contexts@.len(),
                        old(self).devices@.len(),
                    ));
                }
            }
            j = j + 1;
        }
        (CL_SUCCESS, handles, count)
    }
}

/// The object a two-phase information query is addressed to.
#[derive(Clone, Copy, Debug, PartialEq, Eq, Structural)]
pub enum InfoTarget {
    /// Query a device.
    Device(u64),
    /// Query a platform.
    Platform(u64),
    /// Query a context.
    Context(u64),
    /// Query a command queue.
    Queue(u64),
    /// Query a memory object.
    Mem(u64),
    /// Query a program.
    Program(u64),
    /// Query the build record of a program.
    ProgramBuild(u64),
}

/// The semicolon separator of kernel-name lists.
pub const SEP_SEMICOLON: u8 = 59;

/// The bytes a device reports for one information parameter.
pub open spec fn device_info_bytes(d: DeviceRecord, param: u32) -> Option<Seq<u8>> {
    if param == CL_DEVICE_NAME {
        Some(d.name@ + seq![0u8])
    } else if param == CL_DEVICE_TYPE {
        Some(le_bytes(d.device_type as nat, 8))
    } else if param == CL_DEVICE_AVAILABLE {
        Some(le_bytes(if d.available { 1nat } else { 0nat }, 4))
    } else if param == CL_DEVICE_MAX_COMPUTE_UNITS {
        Some(le_bytes(d.compute_units as nat, 4))
    } else if param == CL_DEVICE_REFERENCE_COUNT {
        Some(le_bytes(d.refcount as nat, 4))
    } else if param == CL_DEVICE_EXTENSIONS {
        Some(d.extensions@ + seq![0u8])
    } else if param == CL_DEVICE_BUILT_IN_KERNELS {
        Some(d.builtin_kernels@ + seq![0u8])
    } else if param == CL_DEVICE_PLATFORM {
        Some(le_bytes(d.platform as nat, 8))
    } else if param == CL_DEVICE_PARENT_DEVICE {
        Some(le_bytes(d.parent as nat, 8))
    } else if param == CL_DEVICE_PARTITION_PROPERTIES {
        Some(prop_words_bytes(d.partition_caps@))
    } else if param == CL_DEVICE_PARTITION_TYPE {
        Some(prop_words_bytes(d.partition_ty@))
    } else {
        None
    }
}

/// The bytes a platform reports for one information parameter.
pub open spec fn platform_info_bytes(p: PlatformRecord, param: u32) -> Option<Seq<u8>> {
    if param == CL_PLATFORM_PROFILE {
        Some(p.profile@ + seq![0u8])
    } else if param == CL_PLATFORM_VERSION {
        Some(p.version@ + seq![0u8])
    } else if param == CL_PLATFORM_NAME {
        Some(p.name@ + seq![0u8])
    } else if param == CL_PLATFORM_VENDOR {
        Some(p.vendor@ + seq![0u8])
    } else if param == CL_PLATFORM_EXTENSIONS {
        Some(p.extensions@ + seq![0u8])
    } else {
        None
    }
}

/// The bytes a context reports for one information parameter.
pub open spec fn context_info_bytes(c: ContextRecord, param: u32) -> Option<Seq<u8>> {
    if param == CL_CONTEXT_REFERENCE_COUNT {
        Some(le_bytes(c.refcount as nat, 4))
    } else if param == CL_CONTEXT_NUM_DEVICES {
        Some(le_bytes(c.devices@.len() as nat, 4))
    } else if param == CL_CONTEXT_DEVICES {
        Some(handle_words_bytes(c.devices@))
    } else if param == CL_CONTEXT_PROPERTIES {
        Some(prop_words_bytes(c.properties@))
    } else {
        None
    }
}

/// The bytes a command queue reports for one information parameter.
pub open spec fn queue_info_bytes(q: QueueRecord, param: u32) -> Option<Seq<u8>> {
    if param == CL_QUEUE_CONTEXT {
        Some(le_bytes(q.context as nat, 8))
    } else if param == CL_QUEUE_DEVICE {
        Some(le_bytes(q.device as nat, 8))
    } else if param == CL_QUEUE_REFERENCE_COUNT {
        Some(le_bytes(q.refcount as nat, 4))
    } else if param == CL_QUEUE_PROPERTIES {
        Some(le_bytes(q.properties as nat, 8))
    } else {
        None
    }
}

/// The bytes a memory object reports for one information parameter.
pub open spec fn buffer_info_bytes(b: BufferRecord, param: u32) -> Option<Seq<u8>> {
    if param == CL_MEM_FLAGS {
        Some(le_bytes(b.flags as nat, 8))
    } else if param == CL_MEM_SIZE {
        Some(le_bytes(b.size as nat, 8))
    } else if param == CL_MEM_MAP_COUNT {
        Some(le_bytes(b.map_count as nat, 4))
    } else if param == CL_MEM_REFERENCE_COUNT {
        Some(le_bytes(b.refcount as nat, 4))
    } else if param == CL_MEM_CONTEXT {
        Some(le_bytes(b.context as nat, 8))
    } else {
        None
    }
}

/// The bytes a program reports for one information parameter.
pub open spec fn program_info_bytes(p: ProgramRecord, param: u32) -> Option<Seq<u8>> {
    if param == CL_PROGRAM_REFERENCE_COUNT {
        Some(le_bytes(p.refcount as nat, 4))
    } else if param == CL_PROGRAM_CONTEXT {
        Some(le_bytes(p.context as nat, 8))
    } else if param == CL_PROGRAM_NUM_DEVICES {
        Some(le_bytes(p.devices@.len() as nat, 4))
    } else if param == CL_PROGRAM_DEVICES {
        Some(handle_words_bytes(p.devices@))
    } else if param == CL_PROGRAM_SOURCE {
        Some(p.source@ + seq![0u8])
    } else if param == CL_PROGRAM_NUM_KERNELS {
        Some(le_bytes(split_bytes(p.kernel_names@, SEP_SEMICOLON).len() as nat, 8))
    } else if param == CL_PROGRAM_KERNEL_NAMES {
        Some(p.kernel_names@ + seq![0u8])
    } else {
        None
    }
}

/// The bytes a program's build record reports for one parameter.
pub open spec fn build_info_bytes(p: ProgramRecord, param: u32) -> Option<Seq<u8>> {
    if param == CL_PROGRAM_BUILD_STATUS {
        Some(le_bytes((p.build_status as u32) as nat, 4))
    } else if param == CL_PROGRAM_BUILD_OPTIONS {
        Some(p.build_options@ + seq![0u8])
    } else if param == CL_PROGRAM_BUILD_LOG {
        Some(p.build_log@ + seq![0u8])
    } else if param == CL_PROGRAM_BINARY_TYPE {
        Some(le_bytes(p.binary_type as nat, 4))
    } else {
        None
    }
}

impl Host {
    /// The bytes behind one information query, or `None` for an invalid
    /// handle or unknown parameter.
    pub open spec fn info_data(&self, t: InfoTarget, param: u32) -> Option<Seq<u8>> {
        match t {
            InfoTarget::Device(h) => if self.valid_device(h) {
                device_info_bytes(self.dev(h), param)
            } else {
                None
            },
            InfoTarget::Platform(h) => if self.valid_platform(h) {
                platform_info_bytes(self.plat(h), param)
            } else {
                None
            },
            InfoTarget::Context(h) => if self.valid_context(h) {
                context_info_bytes(self.ctx(h), param)
            } else {
                None
            },
            InfoTarget::Queue(h) => if self.valid_queue(h) {
                queue_info_bytes(self.que(h), param)
            } else {
                None
            },
            InfoTarget::Mem(h) => if self.valid_buffer(h) {
                buffer_info_bytes(self.buf(h), param)
            } else {
                None
            },
            InfoTarget::Program(h) => if self.valid_program(h) {
                program_info_bytes(self.prog(h), param)
            } else {
                None
            },
            InfoTarget::ProgramBuild(h) => if self.valid_program(h) {
                build_info_bytes(self.prog(h), param)
            } else {
                None
            },
        }
    }
}

/// Append a copied text field plus its null terminator.
fn text_with_nul(v: &Vec<u8>) -> (r: Vec<u8>)
    ensures
        r@ == v@ + seq![0u8],
{
    let mut r = copy_bytes(v);
    r.push(0);
    proof {
        assert(r@ =~= v@ + seq![0u8]);
    }
    r
}

/// A fresh buffer holding one little-endian scalar.
fn scalar_bytes(x: u64, w: usize) -> (r: Vec<u8>)
    ensures
        r@ == le_bytes(x as nat, w as nat),
{
    let mut r: Vec<u8> = Vec::new();
    append_le(&mut r, x, w);
    proof {
        assert(Seq::<u8>::empty() + le_bytes(x as nat, w as nat) =~= le_bytes(x as nat, w as nat));
    }
    r
}

/// Copy the first `k` bytes of `v`.
fn prefix_bytes(v: &Vec<u8>, k: usize) -> (r: Vec<u8>)
    requires
        k <= v@.len(),
    ensures
        r@ == v@.take(k as int),
{
    let mut r: Vec<u8> = Vec::new();
    let mut i: usize = 0;
    while i < k
        invariant
            i <= k,
            k <= v@.len(),
            r@ == v@.take(i as int),
        decreases k - i,
    {
        r.push(v[i]);
        proof {
            assert(v@.take(i + 1) =~= v@.take(i as int).push(v@[i as int]));
        }
        i = i + 1;
    }
    r
}

impl Host {
    /// The full information buffer for one query, or `None` for an invalid
    /// handle or unknown parameter.
    fn target_bytes(&self, t: InfoTarget, param: u32) -> (r: Option<Vec<u8>>)
        requires
            self.wf(),
        ensures
            match self.info_data(t, param) {
                Some(bytes) => r is Some && r->Some_0@ == bytes,
                None => r is None,
            },
    {
        match t {
            InfoTarget::Device(h) => {
                if h < 1 || h > self.devices.len() as u64 {
                    return None;
                }
                let i = handle_index(h, self.devices.len());
                let d = &self.devices[i];
                if param == CL_DEVICE_NAME {
                    Some(text_with_nul(&d.name))
                } else if param == CL_DEVICE_TYPE {
                    Some(scalar_bytes(d.device_type, 8))
                } else if param == CL_DEVICE_AVAILABLE {
                    Some(scalar_bytes(if d.available { 1 } else { 0 }, 4))
                } else if param == CL_DEVICE_MAX_COMPUTE_UNITS {
                    Some(scalar_bytes(d.compute_units as u64, 4))
                } else if param == CL_DEVICE_REFERENCE_COUNT {
                    Some(scalar_bytes(d.refcount as u64, 4))
                } else if param == CL_DEVICE_EXTENSIONS {
                    Some(text_with_nul(&d.extensions))
                } else if param == CL_DEVICE_BUILT_IN_KERNELS {
                    Some(text_with_nul(&d.builtin_kernels))
                } else if param == CL_DEVICE_PLATFORM {
                    Some(scalar_bytes(d.platform, 8))
                } else if param == CL_DEVICE_PARENT_DEVICE {
                    Some(scalar_bytes(d.parent, 8))
                } else if param == CL_DEVICE_PARTITION_PROPERTIES {
                    Some(encode_prop_words(&d.partition_caps))
                } else if param == CL_DEVICE_PARTITION_TYPE {
                    Some(encode_prop_words(&d.partition_ty))
                } else {
                    None
                }
            },
            InfoTarget::Platform(h) => {
                if h < 1 || h > self.platforms.len() as u64 {
                    return None;
                }
                let i = handle_index(h, self.platforms.len());
                let p = &self.platforms[i];
                if param == CL_PLATFORM_PROFILE {
                    Some(text_with_nul(&p.profile))
                } else if param == CL_PLATFORM_VERSION {
                    Some(text_with_nul(&p.version))
                } else if param == CL_PLATFORM_NAME {
                    Some(text_with_nul(&p.name))
                } else if param == CL_PLATFORM_VENDOR {
                    Some(text_with_nul(&p.vendor))
                } else if param == CL_PLATFORM_EXTENSIONS {
                    Some(text_with_nul(&p.extensions))
                } else {
                    None
                }
            },
            InfoTarget::Context(h) => {
                if h < 1 || h > self.contexts.len() as u64 {
                    return None;
                }
                let i = handle_index(h, self.contexts.len());
                let c = &self.contexts[i];
                if param == CL_CONTEXT_REFERENCE_COUNT {
                    Some(scalar_bytes(c.refcount as u64, 4))
                } else if param == CL_CONTEXT_NUM_DEVICES {
                    Some(scalar_bytes(c.devices.len() as u64, 4))
                } else if param == CL_CONTEXT_DEVICES {
                    Some(encode_handle_words(&c.devices))
                } else if param == CL_CONTEXT_PROPERTIES {
                    Some(encode_prop_words(&c.properties))
                } else {
                    None
                }
            },
            InfoTarget::Queue(h) => {
                if h < 1 || h > self.queues.len() as u64 {
                    return None;
                }
                let i = handle_index(h, self.queues.len());
                let q = &self.queues[i];
                if param == CL_QUEUE_CONTEXT {
                    Some(scalar_bytes(q.context, 8))
                } else if param == CL_QUEUE_DEVICE {
                    Some(scalar_bytes(q.device, 8))
                } else if param == CL_QUEUE_REFERENCE_COUNT {
                    Some(scalar_bytes(q.refcount as u64, 4))
                } else if param == CL_QUEUE_PROPERTIES {
                    Some(scalar_bytes(q.properties, 8))
                } else {
                    None
                }
            },
            InfoTarget::Mem(h) => {
                if h < 1 || h > self.buffers.len() as u64 {
                    return None;
                }
                let i = handle_index(h, self.buffers.len());
                let b = &self.buffers[i];
                if param == CL_MEM_FLAGS {
                    Some(scalar_bytes(b.flags, 8))
                } else if param == CL_MEM_SIZE {
                    Some(scalar_bytes(b.size as u64, 8))
                } else if param == CL_MEM_MAP_COUNT {
                    Some(scalar_bytes(b.map_count as u64, 4))
                } else if param == CL_MEM_REFERENCE_COUNT {
                    Some(scalar_bytes(b.refcount as u64, 4))
                } else if param == CL_MEM_CONTEXT {
                    Some(scalar_bytes(b.context, 8))
                } else {
                    None
                }
            },
            InfoTarget::Program(h) => {
                if h < 1 || h > self.programs.len() as u64 {
                    return None;
                }
                let i = handle_index(h, self.programs.len());
                let p = &self.programs[i];
                if param == CL_PROGRAM_REFERENCE_COUNT {
                    Some(scalar_bytes(p.refcount as u64, 4))
                } else if param == CL_PROGRAM_CONTEXT {
                    Some(scalar_bytes(p.context, 8))
                } else if param == CL_PROGRAM_NUM_DEVICES {
                    Some(scalar_bytes(p.devices.len() as u64, 4))
                } else if param == CL_PROGRAM_DEVICES {
                    Some(encode_handle_words(&p.devices))
                } else if param == CL_PROGRAM_SOURCE {
                    Some(text_with_nul(&p.source))
                } else if param == CL_PROGRAM_NUM_KERNELS {
                    let pieces = split_vec(&p.kernel_names, SEP_SEMICOLON);
                    Some(scalar_bytes(pieces.len() as u64, 8))
                } else if param == CL_PROGRAM_KERNEL_NAMES {
                    Some(text_with_nul(&p.kernel_names))
                } else {
                    None
                }
            },
            InfoTarget::ProgramBuild(h) => {
                if h < 1 || h > self.programs.len() as u64 {
                    return None;
                }
                let i = handle_index(h, self.programs.len());
                let p = &self.programs[i];
                if param == CL_PROGRAM_BUILD_STATUS {
                    Some(scalar_bytes((p.build_status as u32) as u64, 4))
                } else if param == CL_PROGRAM_BUILD_OPTIONS {
                    Some(text_with_nul(&p.build_options))
                } else if param == CL_PROGRAM_BUILD_LOG {
                    Some(text_with_nul(&p.build_log))
                } else if param == CL_PROGRAM_BINARY_TYPE {
                    Some(scalar_bytes(p.binary_type as u64, 4))
                } else {
                    None
                }
            },
        }
    }

    /// The native information entry point: given the query's target, the
    /// parameter and the caller's buffer capacity, report the status, up to
    /// `capacity` bytes of data, and the full size of the data.
    ///
    /// A conforming driver returns a prefix of the data that fills the
    /// caller's capacity; a driver with the unwritten-parent quirk may write
    /// nothing at all where the remaining bytes are all zero, which is why
    /// the caller must pre-zero its buffer.
    pub fn info_call(&self, t: InfoTarget, param: u32, capacity: usize) -> (r: (i32, Vec<u8>, usize))
        requires
            self.wf(),
        ensures
            match self.info_data(t, param) {
                Some(bytes) => {
                    &&& r.0 == CL_SUCCESS
                    &&& r.2 == bytes.len()
                    &&& exists|k: int|
                        #![auto]
                        0 <= k <= min(capacity as int, bytes.len() as int) && r.1@ == bytes.take(k)
                            && (k == min(capacity as int, bytes.len() as int) || (forall|j: int|
                            k <= j < bytes.len() ==> bytes[j] == 0))
                },
                None => {
                    &&& r.0 == CL_INVALID_VALUE
                    &&& r.1@.len() == 0
                    &&& r.2 == 0
                },
            },
    {
        let full = self.target_bytes(t, param);
        match full {
            None => (CL_INVALID_VALUE, Vec::new(), 0),
            Some(full) => {
                let size = full.len();
                let ghost bytes = self.info_data(t, param)->Some_0;
                if self.parent_quirk && param == CL_DEVICE_PARENT_DEVICE {
                    if let InfoTarget::Device(h) = t {
                        let i = handle_index(h, self.devices.len());
                        if self.devices[i].parent == 0 {
                            let empty: Vec<u8> = Vec::new();
                            proof {
                                lemma_le_bytes_zero(8);
                                assert(empty@ =~= bytes.take(0));
                            }
                            return (CL_SUCCESS, empty, size);
                        }
                    }
                }
                let k = if capacity < size {
                    capacity
                } else {
                    size
                };
                let data = prefix_bytes(&full, k);
                proof {
                    assert(data@ == bytes.take(k as int));
                    assert(k == min(capacity as int, bytes.len() as int));
                }
                (CL_SUCCESS, data, size)
            },
        }
    }
}

} // verus!
