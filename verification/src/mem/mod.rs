//! The high-level `Buffer` type: a reference-counted native memory object
//! holding a copy of host-provided data.

pub mod information;

use vstd::prelude::*;
use crate::host::{Host, InfoTarget, eq_except_buffers, buffer_info_bytes};
use crate::information::{InformationResult, query};
use crate::codes::{
    CL_SUCCESS, CL_MEM_READ_WRITE, CL_MEM_READ_ONLY, CL_MEM_WRITE_ONLY, CL_MEM_HOST_WRITE_ONLY,
    CL_MEM_HOST_READ_ONLY, CL_MEM_HOST_NO_ACCESS, CL_MEM_COPY_HOST_PTR,
};
use crate::context::Context;

verus! {

/// High-level bitfield over the memory flag bits.
#[derive(Clone, Copy, Debug, PartialEq, Eq, Hash, Structural)]
pub struct Flags {
    /// The raw flag bits.
    pub bitfield: u64,
}

impl Flags {
    /// Return a zeroed bitfield.
    pub fn new() -> (r: Self)
        ensures
            r.bitfield == 0,
    {
        Flags { bitfield: 0 }
    }

    /// Return `true` if the `read_write` bit is set.
    pub fn read_write(&self) -> (r: bool)
        ensures
            r == (self.bitfield & CL_MEM_READ_WRITE == CL_MEM_READ_WRITE),
    {
        self.bitfield & CL_MEM_READ_WRITE == CL_MEM_READ_WRITE
    }

    /// Return `true` if the `read_only` bit is set.
    pub fn read_only(&self) -> (r: bool)
        ensures
            r == (self.bitfield & CL_MEM_READ_ONLY == CL_MEM_READ_ONLY),
    {
        self.bitfield & CL_MEM_READ_ONLY == CL_MEM_READ_ONLY
    }

    /// Return `true` if the `write_only` bit is set.
    pub fn write_only(&self) -> (r: bool)
        ensures
            r == (self.bitfield & CL_MEM_WRITE_ONLY == CL_MEM_WRITE_ONLY),
    {
        self.bitfield & CL_MEM_WRITE_ONLY == CL_MEM_WRITE_ONLY
    }

    /// Return `true` if the `host_write_only` bit is set.
    pub fn host_write_only(&self) -> (r: bool)
        ensures
            r == (self.bitfield & CL_MEM_HOST_WRITE_ONLY == CL_MEM_HOST_WRITE_ONLY),
    {
        self.bitfield & CL_MEM_HOST_WRITE_ONLY == CL_MEM_HOST_WRITE_ONLY
    }

    /// Return `true` if the `host_read_only` bit is set.
    pub fn host_read_only(&self) -> (r: bool)
        ensures
            r == (self.bitfield & CL_MEM_HOST_READ_ONLY == CL_MEM_HOST_READ_ONLY),
    {
        self.bitfield & CL_MEM_HOST_READ_ONLY == CL_MEM_HOST_READ_ONLY
    }

    /// Return `true` if the `host_no_access` bit is set.
    pub fn host_no_access(&self) -> (r: bool)
        ensures
            r == (self.bitfield & CL_MEM_HOST_NO_ACCESS == CL_MEM_HOST_NO_ACCESS),
    {
        self.bitfield & CL_MEM_HOST_NO_ACCESS == CL_MEM_HOST_NO_ACCESS
    }
}

/// Builder pattern struct for `Flags`.
#[derive(Clone, Copy, Debug, PartialEq, Eq, Structural)]
pub struct FlagsBuilder {
    /// The bits set so far.
    pub bitfield: u64,
}

impl FlagsBuilder {
    /// Initialize the builder with a zeroed bitfield.
    pub fn new() -> (r: Self)
        ensures
            r.bitfield == 0,
    {
        FlagsBuilder { bitfield: 0 }
    }

    /// Set the `read_write` bit.
    pub fn read_write(self) -> (r: Self)
        ensures
            r.bitfield == self.bitfield | CL_MEM_READ_WRITE,
    {
        FlagsBuilder { bitfield: self.bitfield | CL_MEM_READ_WRITE }
    }

    /// Set the `read_only` bit.
    pub fn read_only(self) -> (r: Self)
        ensures
            r.bitfield == self.bitfield | CL_MEM_READ_ONLY,
    {
        FlagsBuilder { bitfield: self.bitfield | CL_MEM_READ_ONLY }
    }

    /// Set the `write_only` bit.
    pub fn write_only(self) -> (r: Self)
        ensures
            r.bitfield == self.bitfield | CL_MEM_WRITE_ONLY,
    {
        FlagsBuilder { bitfield: self.bitfield | CL_MEM_WRITE_ONLY }
    }

    /// Set the `host_write_only` bit.
    pub fn host_write_only(self) -> (r: Self)
        ensures
            r.bitfield == self.bitfield | CL_MEM_HOST_WRITE_ONLY,
    {
        FlagsBuilder { bitfield: self.bitfield | CL_MEM_HOST_WRITE_ONLY }
    }

    /// Set the `host_read_only` bit.
    pub fn host_read_only(self) -> (r: Self)
        ensures
            r.bitfield == self.bitfield | CL_MEM_HOST_READ_ONLY,
    {
        FlagsBuilder { bitfield: self.bitfield | CL_MEM_HOST_READ_ONLY }
    }

    /// Set the `host_no_access` bit.
    pub fn host_no_access(self) -> (r: Self)
        ensures
            r.bitfield == self.bitfield | CL_MEM_HOST_NO_ACCESS,
    {
        FlagsBuilder { bitfield: self.bitfield | CL_MEM_HOST_NO_ACCESS }
    }

    /// Output a `Flags` bitfield.
    pub fn finish(self) -> (r: Flags)
        ensures
            r.bitfield == self.bitfield,
    {
        Flags { bitfield: self.bitfield }
    }
}

/// Two or more of the mutually exclusive device-access flags are set.
pub open spec fn access_flags_conflict(f: Flags) -> bool {
    let rw = f.bitfield & CL_MEM_READ_WRITE == CL_MEM_READ_WRITE;
    let ro = f.bitfield & CL_MEM_READ_ONLY == CL_MEM_READ_ONLY;
    let wo = f.bitfield & CL_MEM_WRITE_ONLY == CL_MEM_WRITE_ONLY;
    (rw && ro) || (rw && wo) || (ro && wo)
}

/// Two or more of the mutually exclusive host-access flags are set.
pub open spec fn host_flags_conflict(f: Flags) -> bool {
    let na = f.bitfield & CL_MEM_HOST_NO_ACCESS == CL_MEM_HOST_NO_ACCESS;
    let hro = f.bitfield & CL_MEM_HOST_READ_ONLY == CL_MEM_HOST_READ_ONLY;
    let hwo = f.bitfield & CL_MEM_HOST_WRITE_ONLY == CL_MEM_HOST_WRITE_ONLY;
    (na && hro) || (na && hwo) || (hro && hwo)
}

/// `Buffer` is a reference-counted reference to a native memory object.
/// `Buffer` erases element types: it carries plain bytes.
#[derive(Debug, PartialEq, Eq, Structural)]
pub struct Buffer {
    /// The raw native handle.
    pub buffer: u64,
}

/// An error returned by `Buffer::create`.
#[derive(PartialEq, Eq, Copy, Clone, Debug)]
pub enum CreationError {
    /// No data was provided.
    NoData,
    /// The memory flags were invalid: mutually exclusive fields were set.
    InvalidFlags(&'static str),
    /// Failed to allocate data.
    AllocationFailure,
}

impl Buffer {
    /// A buffer reference is backed by a live native record.
    pub open spec fn wf(&self, host: &Host) -> bool {
        &&& host.valid_buffer(self.buffer)
        &&& host.buf(self.buffer).refcount >= 1
    }

    /// Allocate a new buffer holding a copy of `data`, with the access
    /// properties in `flags`; the copy-in bit is added to whatever was
    /// given. Each triple of mutually exclusive flags is checked before any
    /// native call.
    pub fn create(data: Vec<u8>, context: &Context, flags: Flags, host: &mut Host) -> (r: Result<
        Buffer,
        CreationError,
    >)
        requires
            old(host).wf(),
            context.wf(old(host)),
            old(host).buffers@.len() < u64::MAX - 1,
        ensures
            final(host).wf(),
            context.wf(final(host)),
            access_flags_conflict(flags) ==> r == Err::<Buffer, CreationError>(
                CreationError::InvalidFlags(
                    "`read_write`, `read_only` and `write_only` are mutually exclusive",
                ),
            ) && *final(host) == *old(host),
            !access_flags_conflict(flags) && host_flags_conflict(flags) ==> r == Err::<
                Buffer,
                CreationError,
            >(
                CreationError::InvalidFlags(
                    "`host_no_access`, `host_read_only` and `host_write_only` are mutually exclusive",
                ),
            ) && *final(host) == *old(host),
            !access_flags_conflict(flags) && !host_flags_conflict(flags) && data@.len() == 0
                ==> r == Err::<Buffer, CreationError>(CreationError::NoData) && *final(host)
                == *old(host),
            !access_flags_conflict(flags) && !host_flags_conflict(flags) && data@.len() > 0 ==> {
                &&& (old(host).force_alloc_failure ==> r == Err::<Buffer, CreationError>(
                    CreationError::AllocationFailure,
                ) && *final(host) == *old(host))
                &&& (!old(host).force_alloc_failure ==> {
                    &&& r is Ok
                    &&& r->Ok_0.wf(final(host))
                    &&& r->Ok_0.buffer == old(host).buffers@.len() + 1
                    &&& eq_except_buffers(*old(host), *final(host))
                    &&& final(host).buffers@.len() == old(host).buffers@.len() + 1
                    &&& final(host).buf(r->Ok_0.buffer).refcount == 1
                    &&& final(host).buf(r->Ok_0.buffer).context == context.context
                    &&& final(host).buf(r->Ok_0.buffer).size == data@.len()
                    &&& final(host).buf(r->Ok_0.buffer).data@ == data@
                    &&& final(host).buf(r->Ok_0.buffer).flags == flags.bitfield
                        | CL_MEM_COPY_HOST_PTR
                    &&& forall|j: int|
                        0 <= j < old(host).buffers@.len() ==> final(host).buffers@[j] == old(host).buffers@[j]
                })
            },
    {
        if (flags.read_write() && flags.read_only()) || (flags.read_write() && flags.write_only())
            || (flags.read_only() && flags.write_only()) {
            return Err(
                CreationError::InvalidFlags(
                    "`read_write`, `read_only` and `write_only` are mutually exclusive",
                ),
            );
        }
        if (flags.host_no_access() && flags.host_read_only()) || (flags.host_no_access()
            && flags.host_write_only()) || (flags.host_read_only() && flags.host_write_only()) {
            return Err(
                CreationError::InvalidFlags(
                    "`host_no_access`, `host_read_only` and `host_write_only` are mutually exclusive",
                ),
            );
        }
        if data.len() == 0 {
            return Err(CreationError::NoData);
        }
        let bits = flags.bitfield | CL_MEM_COPY_HOST_PTR;
        let (error, handle) = host.create_buffer(context.underlying(), bits, data);
        if error != CL_SUCCESS {
            return Err(CreationError::AllocationFailure);
        }
        Ok(Buffer { buffer: handle })
    }

    /// Duplicate the reference, incrementing the native count.
    pub fn duplicate(&self, host: &mut Host) -> (r: Buffer)
        requires
            old(host).wf(),
            self.wf(old(host)),
            old(host).buf(self.buffer).refcount < u32::MAX,
        ensures
            r.buffer == self.buffer,
            final(host).wf(),
            r.wf(final(host)),
            self.wf(final(host)),
            eq_except_buffers(*old(host), *final(host)),
            final(host).buffers@.len() == old(host).buffers@.len(),
            final(host).buf(self.buffer).refcount == old(host).buf(self.buffer).refcount + 1,
            forall|j: int|
                0 <= j < old(host).buffers@.len() && j != self.buffer - 1 ==> final(host).buffers@[j] == old(host).buffers@[j],
    {
        let _ = host.retain_buffer(self.buffer);
        Buffer { buffer: self.buffer }
    }

    /// Destroy the reference, decrementing the native count.
    pub fn destroy(self, host: &mut Host)
        requires
            old(host).wf(),
            self.wf(old(host)),
        ensures
            final(host).wf(),
            eq_except_buffers(*old(host), *final(host)),
            final(host).buffers@.len() == old(host).buffers@.len(),
            final(host).buf(self.buffer).refcount == old(host).buf(self.buffer).refcount - 1,
            forall|j: int|
                0 <= j < old(host).buffers@.len() && j != self.buffer - 1 ==> final(host).buffers@[j] == old(host).buffers@[j],
    {
        let _ = host.release_buffer(self.buffer);
    }

    /// Query an information of the buffer. `T` should be a marker type from
    /// the `information` module.
    pub fn get_info<T: information::MemInformation>(&self, host: &Host) -> (r: T::Result)
        requires
            host.wf(),
            self.wf(host),
            buffer_info_bytes(host.buf(self.buffer), T::spec_id()) is Some,
            <T::Result as InformationResult>::spec_decode(
                buffer_info_bytes(host.buf(self.buffer), T::spec_id())->Some_0,
            ) is Some,
        ensures
            <T::Result as InformationResult>::spec_decode(
                buffer_info_bytes(host.buf(self.buffer), T::spec_id())->Some_0,
            ) == Some(r.model()),
    {
        query::<T>(host, InfoTarget::Mem(self.buffer))
    }
}

} // verus!
