//! The high-level `CommandQueue` type: a reference-counted native command
//! queue on one device of one context.

pub mod information;

use vstd::prelude::*;
use crate::host::{
    Host, InfoTarget, eq_except_queues, eq_except_contexts, eq_except_devices,
    same_device_except_count, queue_info_bytes,
};
use crate::information::{InformationResult, ask_info_bytes, query, lemma_u64_decode};
use crate::codes::{
    CL_SUCCESS, CL_INVALID_VALUE, CL_INVALID_DEVICE, CL_INVALID_QUEUE_PROPERTIES,
    CL_QUEUE_OUT_OF_ORDER_EXEC_MODE_ENABLE, CL_QUEUE_PROFILING_ENABLE, CL_QUEUE_CONTEXT,
    CL_QUEUE_DEVICE,
};
use crate::context::Context;
use crate::device::Device;

verus! {

/// High-level bitfield over the command-queue property bits.
#[derive(Clone, Copy, Debug, PartialEq, Eq, Hash, Structural)]
pub struct Properties {
    /// The raw property bits.
    pub bitfield: u64,
}

impl Properties {
    /// Return a zeroed bitfield.
    pub fn new() -> (r: Self)
        ensures
            r.bitfield == 0,
    {
        Properties { bitfield: 0 }
    }

    /// Return `true` if the `out_of_order_exec` bit is set.
    pub fn out_of_order_exec(&self) -> (r: bool)
        ensures
            r == (self.bitfield & CL_QUEUE_OUT_OF_ORDER_EXEC_MODE_ENABLE
                == CL_QUEUE_OUT_OF_ORDER_EXEC_MODE_ENABLE),
    {
        self.bitfield & CL_QUEUE_OUT_OF_ORDER_EXEC_MODE_ENABLE
            == CL_QUEUE_OUT_OF_ORDER_EXEC_MODE_ENABLE
    }

    /// Return `true` if the `profiling` bit is set.
    pub fn profiling(&self) -> (r: bool)
        ensures
            r == (self.bitfield & CL_QUEUE_PROFILING_ENABLE == CL_QUEUE_PROFILING_ENABLE),
    {
        self.bitfield & CL_QUEUE_PROFILING_ENABLE == CL_QUEUE_PROFILING_ENABLE
    }
}

/// Builder pattern struct for `Properties`.
#[derive(Clone, Copy, Debug, PartialEq, Eq, Structural)]
pub struct PropertiesBuilder {
    /// The bits set so far.
    pub bitfield: u64,
}

impl PropertiesBuilder {
    /// Initialize the builder with a zeroed bitfield.
    pub fn new() -> (r: Self)
        ensures
            r.bitfield == 0,
    {
        PropertiesBuilder { bitfield: 0 }
    }

    /// Set the `out_of_order_exec` bit.
    pub fn out_of_order_exec(self) -> (r: Self)
        ensures
            r.bitfield == self.bitfield | CL_QUEUE_OUT_OF_ORDER_EXEC_MODE_ENABLE,
    {
        PropertiesBuilder { bitfield: self.bitfield | CL_QUEUE_OUT_OF_ORDER_EXEC_MODE_ENABLE }
    }

    /// Set the `profiling` bit.
    pub fn profiling(self) -> (r: Self)
        ensures
            r.bitfield == self.bitfield | CL_QUEUE_PROFILING_ENABLE,
    {
        PropertiesBuilder { bitfield: self.bitfield | CL_QUEUE_PROFILING_ENABLE }
    }

    /// Output a `Properties` bitfield.
    pub fn finish(self) -> (r: Properties)
        ensures
            r.bitfield == self.bitfield,
    {
        Properties { bitfield: self.bitfield }
    }
}

/// `CommandQueue` is a reference-counted reference to a native command
/// queue.
#[derive(Debug, PartialEq, Eq, Structural)]
pub struct CommandQueue {
    /// The raw native handle.
    pub queue: u64,
}

/// An error returned by `CommandQueue::create`.
#[derive(PartialEq, Eq, Copy, Clone, Debug, Structural)]
pub enum CreationError {
    /// One of the specified properties is not supported on the device.
    PropertyNotSupported,
    /// Provided device was not associated with provided context.
    InvalidDevice,
}

impl CreationError {
    /// A short description of the error.
    pub fn describe(&self) -> (r: &'static str)
        ensures
            *self is PropertyNotSupported ==> r@ == "property not supported"@,
            *self is InvalidDevice ==> r@
                == "provided device was not associated with provided context"@,
    {
        match self {
            CreationError::PropertyNotSupported => "property not supported",
            CreationError::InvalidDevice => "provided device was not associated with provided context",
        }
    }
}

impl CommandQueue {
    /// A queue reference is backed by a live native record.
    pub open spec fn wf(&self, host: &Host) -> bool {
        &&& host.valid_queue(self.queue)
        &&& host.que(self.queue).refcount >= 1
    }

    /// Create a command queue on a device associated with a context.
    pub fn create(context: &Context, device: &Device, properties: Properties, host: &mut Host) -> (r:
        Result<CommandQueue, CreationError>)
        requires
            old(host).wf(),
            context.wf(old(host)),
            device.wf(old(host)),
            old(host).queues@.len() < u64::MAX - 1,
        ensures
            final(host).wf(),
            context.wf(final(host)),
            device.wf(final(host)),
            ({
                let st = old(host).queue_create_status(
                    context.context,
                    device.device_id,
                    properties.bitfield,
                );
                &&& (st == CL_INVALID_DEVICE ==> r == Err::<CommandQueue, CreationError>(
                    CreationError::InvalidDevice,
                ) && *final(host) == *old(host))
                &&& (st == CL_INVALID_QUEUE_PROPERTIES ==> r == Err::<CommandQueue, CreationError>(
                    CreationError::PropertyNotSupported,
                ) && *final(host) == *old(host))
                &&& (st == CL_SUCCESS ==> {
                    &&& r is Ok
                    &&& r->Ok_0.wf(final(host))
                    &&& r->Ok_0.queue == old(host).queues@.len() + 1
                    &&& eq_except_queues(*old(host), *final(host))
                    &&& final(host).queues@.len() == old(host).queues@.len() + 1
                    &&& final(host).que(r->Ok_0.queue).refcount == 1
                    &&& final(host).que(r->Ok_0.queue).context == context.context
                    &&& final(host).que(r->Ok_0.queue).device == device.device_id
                    &&& final(host).que(r->Ok_0.queue).properties == properties.bitfield
                    &&& forall|j: int|
                        0 <= j < old(host).queues@.len() ==> final(host).queues@[j] == old(host).queues@[j]
                })
            }),
    {
        let (error, handle) = host.create_command_queue(
            context.underlying(),
            device.underlying(),
            properties.bitfield,
        );
        if error == CL_INVALID_QUEUE_PROPERTIES || error == CL_INVALID_VALUE {
            return Err(CreationError::PropertyNotSupported);
        } else if error == CL_INVALID_DEVICE {
            return Err(CreationError::InvalidDevice);
        }
        Ok(CommandQueue { queue: handle })
    }

    /// Return a default command queue if any: a queue with empty
    /// properties on the default device of the default context. It exists
    /// exactly when a default context does.
    pub fn default(host: &mut Host) -> (r: Option<CommandQueue>)
        requires
            old(host).wf(),
            old(host).platforms@.len() <= u32::MAX,
            old(host).devices@.len() <= u32::MAX,
            old(host).contexts@.len() < u64::MAX - 1,
            old(host).queues@.len() < u64::MAX - 1,
        ensures
            final(host).wf(),
            r matches Some(q) ==> q.wf(final(host)),
            crate::device::spec_default_device(old(host)) is None ==> r is None,
            crate::device::spec_default_device(old(host)) is Some && !old(host).auto_select_platform ==> r is None,
            crate::device::spec_default_device(old(host)) is Some && old(host).auto_select_platform ==> r is Some,
    {
        proof {
            crate::device::lemma_default_device_props(host);
        }
        let picked = Device::default(host);
        match picked {
            None => None,
            Some(d) => {
                let made = Context::default(host);
                match made {
                    None => None,
                    Some(c) => {
                        proof {
                            let qp = host.dev(d.device_id).queue_props;
                            assert(0u64 & !qp == 0u64) by (bit_vector);
                            assert(host.ctx(c.context).devices@[0] == d.device_id);
                            assert(host.ctx(c.context).devices@.contains(d.device_id));
                        }
                        let created = CommandQueue::create(&c, &d, Properties::new(), host);
                        match created {
                            Ok(q) => Some(q),
                            Err(_) => None,
                        }
                    },
                }
            },
        }
    }

    /// Duplicate the reference, incrementing the native count.
    pub fn duplicate(&self, host: &mut Host) -> (r: CommandQueue)
        requires
            old(host).wf(),
            self.wf(old(host)),
            old(host).que(self.queue).refcount < u32::MAX,
        ensures
            r.queue == self.queue,
            final(host).wf(),
            r.wf(final(host)),
            self.wf(final(host)),
            eq_except_queues(*old(host), *final(host)),
            final(host).queues@.len() == old(host).queues@.len(),
            final(host).que(self.queue).refcount == old(host).que(self.queue).refcount + 1,
            final(host).que(self.queue).context == old(host).que(self.queue).context,
            final(host).que(self.queue).device == old(host).que(self.queue).device,
            final(host).que(self.queue).properties == old(host).que(self.queue).properties,
            forall|j: int|
                0 <= j < old(host).queues@.len() && j != self.queue - 1 ==> final(host).queues@[j] == old(host).queues@[j],
    {
        let _ = host.retain_queue(self.queue);
        CommandQueue { queue: self.queue }
    }

    /// Destroy the reference, decrementing the native count.
    pub fn destroy(self, host: &mut Host)
        requires
            old(host).wf(),
            self.wf(old(host)),
        ensures
            final(host).wf(),
            eq_except_queues(*old(host), *final(host)),
            final(host).queues@.len() == old(host).queues@.len(),
            final(host).que(self.queue).refcount == old(host).que(self.queue).refcount - 1,
            forall|j: int|
                0 <= j < old(host).queues@.len() && j != self.queue - 1 ==> final(host).queues@[j] == old(host).queues@[j],
    {
        let _ = host.release_queue(self.queue);
    }

    /// Query an information of the queue. `T` should be a marker type from
    /// the `information` module.
    pub fn get_info<T: information::CommandQueueInformation>(&self, host: &Host) -> (r: T::Result)
        requires
            host.wf(),
            self.wf(host),
            queue_info_bytes(host.que(self.queue), T::spec_id()) is Some,
            <T::Result as InformationResult>::spec_decode(
                queue_info_bytes(host.que(self.queue), T::spec_id())->Some_0,
            ) is Some,
        ensures
            <T::Result as InformationResult>::spec_decode(
                queue_info_bytes(host.que(self.queue), T::spec_id())->Some_0,
            ) == Some(r.model()),
    {
        query::<T>(host, InfoTarget::Queue(self.queue))
    }

    /// Query the context the queue was created on, incrementing its count.
    pub fn context(&self, host: &mut Host) -> (r: Context)
        requires
            old(host).wf(),
            self.wf(old(host)),
            old(host).ctx(old(host).que(self.queue).context).refcount < u32::MAX,
        ensures
            final(host).wf(),
            self.wf(final(host)),
            r.context == old(host).que(self.queue).context,
            r.wf(final(host)),
            eq_except_contexts(*old(host), *final(host)),
            final(host).contexts@.len() == old(host).contexts@.len(),
            final(host).ctx(r.context).refcount == old(host).ctx(r.context).refcount + 1,
            final(host).ctx(r.context).devices == old(host).ctx(r.context).devices,
            final(host).ctx(r.context).properties == old(host).ctx(r.context).properties,
            forall|j: int|
                0 <= j < old(host).contexts@.len() && j != r.context - 1 ==> final(host).contexts@[j] == old(host).contexts@[j],
    {
        let h = query_queue_handle(host, self.queue, CL_QUEUE_CONTEXT);
        Context::from_ffi(h, true, host)
    }

    /// Query the device the queue feeds, with the lifecycle rule of its
    /// category: a sub-device gains one count, a root device is untouched.
    pub fn device(&self, host: &mut Host) -> (r: Device)
        requires
            old(host).wf(),
            self.wf(old(host)),
            old(host).dev(old(host).que(self.queue).device).refcount < u32::MAX,
        ensures
            final(host).wf(),
            self.wf(final(host)),
            r.device_id == old(host).que(self.queue).device,
            r.wf(final(host)),
            old(host).dev(old(host).que(self.queue).device).parent == 0 ==> *final(host) == *old(host),
            old(host).dev(old(host).que(self.queue).device).parent != 0 ==> {
                &&& eq_except_devices(*old(host), *final(host))
                &&& final(host).devices@.len() == old(host).devices@.len()
                &&& final(host).dev(r.device_id).refcount == old(host).dev(
                    r.device_id,
                ).refcount + 1
                &&& same_device_except_count(
                    final(host).dev(r.device_id),
                    old(host).dev(r.device_id),
                )
                &&& forall|j: int|
                    0 <= j < old(host).devices@.len() && j != r.device_id - 1 ==> final(host).devices@[j] == old(host).devices@[j]
            },
    {
        let h = query_queue_handle(host, self.queue, CL_QUEUE_DEVICE);
        Device::from_ffi(h, true, host)
    }
}

/// Query one of the queue's handle-valued parameters.
fn query_queue_handle(host: &Host, queue: u64, param: u32) -> (r: u64)
    requires
        host.wf(),
        host.valid_queue(queue),
        param == CL_QUEUE_CONTEXT || param == CL_QUEUE_DEVICE,
    ensures
        param == CL_QUEUE_CONTEXT ==> r == host.que(queue).context,
        param == CL_QUEUE_DEVICE ==> r == host.que(queue).device,
{
    proof {
        lemma_u64_decode(host.que(queue).context);
        lemma_u64_decode(host.que(queue).device);
    }
    let fetched = ask_info_bytes(host, InfoTarget::Queue(queue), param);
    match fetched {
        Ok(b) => {
            match <u64 as InformationResult>::decode(b) {
                Some(v) => v,
                None => {
                    proof {
                        assert(false);
                    }
                    unreached()
                },
            }
        },
        Err(_) => {
            proof {
                assert(false);
            }
            unreached()
        },
    }
}

} // verus!
