//! The high-level `Kernel` type: a reference-counted native kernel of a
//! built program.

use vstd::prelude::*;
use crate::host::{Host, eq_except_kernels};

verus! {

/// `Kernel` is a reference-counted reference to a native kernel.
#[derive(Debug, PartialEq, Eq, Structural)]
pub struct Kernel {
    /// The raw native handle.
    pub kernel: u64,
}

impl Kernel {
    /// A kernel reference is backed by a live native record.
    pub open spec fn wf(&self, host: &Host) -> bool {
        &&& host.valid_kernel(self.kernel)
        &&& host.kern(self.kernel).refcount >= 1
    }

    /// Wrap a handle, incrementing the native count when `retain` is set.
    pub fn from_ffi(kernel: u64, retain: bool, host: &mut Host) -> (r: Kernel)
        requires
            old(host).wf(),
            old(host).valid_kernel(kernel),
            old(host).kern(kernel).refcount < u32::MAX,
            !retain ==> old(host).kern(kernel).refcount >= 1,
        ensures
            r.kernel == kernel,
            final(host).wf(),
            r.wf(final(host)),
            retain ==> {
                &&& eq_except_kernels(*old(host), *final(host))
                &&& final(host).kernels@.len() == old(host).kernels@.len()
                &&& final(host).kern(kernel).refcount == old(host).kern(kernel).refcount + 1
                &&& forall|j: int|
                    0 <= j < old(host).kernels@.len() && j != kernel - 1 ==> final(host).kernels@[j] == old(host).kernels@[j]
            },
            !retain ==> *final(host) == *old(host),
    {
        if retain {
            let _ = host.retain_kernel(kernel);
        }
        Kernel { kernel }
    }

    /// Duplicate the reference, incrementing the native count.
    pub fn duplicate(&self, host: &mut Host) -> (r: Kernel)
        requires
            old(host).wf(),
            self.wf(old(host)),
            old(host).kern(self.kernel).refcount < u32::MAX,
        ensures
            r.kernel == self.kernel,
            final(host).wf(),
            r.wf(final(host)),
            self.wf(final(host)),
            eq_except_kernels(*old(host), *final(host)),
            final(host).kernels@.len() == old(host).kernels@.len(),
            final(host).kern(self.kernel).refcount == old(host).kern(self.kernel).refcount + 1,
            forall|j: int|
                0 <= j < old(host).kernels@.len() && j != self.kernel - 1 ==> final(host).kernels@[j] == old(host).kernels@[j],
    {
        let _ = host.retain_kernel(self.kernel);
        Kernel { kernel: self.kernel }
    }

    /// Destroy the reference, decrementing the native count.
    pub fn destroy(self, host: &mut Host)
        requires
            old(host).wf(),
            self.wf(old(host)),
        ensures
            final(host).wf(),
            eq_except_kernels(*old(host), *final(host)),
            final(host).kernels@.len() == old(host).kernels@.len(),
            final(host).kern(self.kernel).refcount == old(host).kern(self.kernel).refcount - 1,
            forall|j: int|
                0 <= j < old(host).kernels@.len() && j != self.kernel - 1 ==> final(host).kernels@[j] == old(host).kernels@[j],
    {
        let _ = host.release_kernel(self.kernel);
    }
}

} // verus!
