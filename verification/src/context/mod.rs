//! The high-level `Context` type: a reference-counted native context over
//! one or more devices, plus the property builder handed to its creation.

pub mod information;

use vstd::prelude::*;
use crate::host::{
    Host, InfoTarget, eq_except_contexts, eq_except_devices, context_info_bytes,
    words_wf, props_wants_sync, props_has_platform,
};
use crate::information::{InformationResult, ask_info_bytes, query};
use crate::bytes::{decode_handle_words, lemma_handle_words_roundtrip};
use crate::codes::{
    CL_SUCCESS, CL_INVALID_VALUE, CL_INVALID_PLATFORM, CL_INVALID_PROPERTY,
    CL_DEVICE_NOT_AVAILABLE, CL_CONTEXT_PLATFORM, CL_CONTEXT_INTEROP_USER_SYNC,
    CL_CONTEXT_DEVICES,
};
use crate::platform::Platform;
use crate::device::Device;

verus! {

/// Describe context properties to be passed to context creation: an
/// optional platform selector plus an interop-sync flag. It is to be used
/// as a builder.
#[derive(Debug, Clone, Copy, PartialEq, Eq, Structural)]
pub struct Properties {
    /// The platform to create against, if one is pinned.
    pub platform_field: Option<Platform>,
    /// Whether the user takes responsibility for interop synchronization.
    pub interop_user_sync_field: bool,
}

impl Properties {
    /// The empty property set.
    pub open spec fn spec_empty() -> Properties {
        Properties { platform_field: None, interop_user_sync_field: false }
    }

    /// Return an empty properties.
    pub fn new() -> (r: Self)
        ensures
            r == Properties::spec_empty(),
    {
        Properties { platform_field: None, interop_user_sync_field: false }
    }

    /// Return the specified platform if any.
    pub fn platform(&self) -> (r: Option<&Platform>)
        ensures
            match r {
                Some(p) => self.platform_field == Some(*p),
                None => self.platform_field is None,
            },
    {
        self.platform_field.as_ref()
    }

    /// Specify the platform to use (useful in case of multiple devices from
    /// different platforms).
    pub fn set_platform(self, platform: Platform) -> (r: Self)
        ensures
            r.platform_field == Some(platform),
            r.interop_user_sync_field == self.interop_user_sync_field,
    {
        Properties { platform_field: Some(platform), ..self }
    }

    /// Specify that the user is responsible for synchronization between the
    /// native API and other APIs.
    pub fn set_interop_user_sync(self) -> (r: Self)
        ensures
            r.interop_user_sync_field,
            r.platform_field == self.platform_field,
    {
        Properties { interop_user_sync_field: true, ..self }
    }

    /// Return the specified interop-sync flag.
    pub fn interop_user_sync(&self) -> (r: bool)
        ensures
            r == self.interop_user_sync_field,
    {
        self.interop_user_sync_field
    }

    /// The native tagged-pair image of a property set, zero-terminated.
    pub open spec fn spec_encode(p: Properties) -> Seq<i64> {
        (match p.platform_field {
            Some(pl) => seq![CL_CONTEXT_PLATFORM, pl.platform_id as i64],
            None => Seq::empty(),
        }) + (if p.interop_user_sync_field {
            seq![CL_CONTEXT_INTEROP_USER_SYNC, 1i64]
        } else {
            Seq::empty()
        }) + seq![0i64]
    }

    /// A property set whose pinned platform handle fits a signed word.
    pub open spec fn spec_wf(p: Properties) -> bool {
        match p.platform_field {
            Some(pl) => pl.platform_id < 0x8000000000000000,
            None => true,
        }
    }

    /// Encode the property set into its native tagged-pair list.
    pub fn into_ffi(self) -> (r: Vec<i64>)
        requires
            Properties::spec_wf(self),
        ensures
            r@ == Properties::spec_encode(self),
            words_wf(r@),
    {
        let mut properties: Vec<i64> = Vec::new();
        if let Some(platform) = self.platform_field {
            properties.push(CL_CONTEXT_PLATFORM);
            properties.push(platform.platform_id as i64);
        }
        if self.interop_user_sync_field {
            properties.push(CL_CONTEXT_INTEROP_USER_SYNC);
            properties.push(1);
        }
        properties.push(0);
        proof {
            assert(properties@ =~= Properties::spec_encode(self));
        }
        properties
    }

    /// Read a native tagged-pair list (trailing zero removed) back into a
    /// property set, walking pair by pair; a list that breaks off in the
    /// middle of a pair is malformed.
    pub fn parse_props(words: &Vec<i64>) -> (r: Option<Properties>)
        ensures
            r == spec_parse_props(words@, Properties::spec_empty()),
    {
        let n: usize = words.len();
        let mut acc = Properties::new();
        let mut i: usize = 0;
        proof {
            assert(words@.skip(0) =~= words@);
        }
        while i < n
            invariant
                i <= n,
                n == words@.len(),
                spec_parse_props(words@, Properties::spec_empty()) == spec_parse_props(
                    words@.skip(i as int),
                    acc,
                ),
            decreases n - i,
        {
            let w = words[i];
            proof {
                assert(words@.skip(i as int)[0] == w);
            }
            if w == CL_CONTEXT_PLATFORM {
                if i + 1 >= n {
                    return None;
                }
                proof {
                    assert(words@.skip(i as int)[1] == words@[i + 1]);
                    assert(words@.skip(i as int).skip(2) =~= words@.skip(i + 2));
                }
                acc = Properties {
                    platform_field: Some(Platform { platform_id: words[i + 1] as u64 }),
                    ..acc
                };
                i = i + 2;
            } else if w == CL_CONTEXT_INTEROP_USER_SYNC {
                if i + 1 >= n {
                    return None;
                }
                proof {
                    assert(words@.skip(i as int)[1] == words@[i + 1]);
                    assert(words@.skip(i as int).skip(2) =~= words@.skip(i + 2));
                }
                if words[i + 1] != 0 {
                    acc = Properties { interop_user_sync_field: true, ..acc };
                }
                i = i + 2;
            } else {
                proof {
                    assert(words@.skip(i as int).skip(1) =~= words@.skip(i + 1));
                }
                i = i + 1;
            }
        }
        proof {
            assert(words@.skip(n as int) =~= Seq::<i64>::empty());
        }
        Some(acc)
    }
}

/// Walk a tagged-pair list, accumulating the recognized properties.
pub open spec fn spec_parse_props(words: Seq<i64>, acc: Properties) -> Option<Properties>
    decreases words.len(),
{
    if words.len() == 0 {
        Some(acc)
    } else if words[0] == CL_CONTEXT_PLATFORM {
        if words.len() < 2 {
            None
        } else {
            spec_parse_props(
                words.skip(2),
                Properties {
                    platform_field: Some(Platform { platform_id: words[1] as u64 }),
                    ..acc
                },
            )
        }
    } else if words[0] == CL_CONTEXT_INTEROP_USER_SYNC {
        if words.len() < 2 {
            None
        } else if words[1] != 0 {
            spec_parse_props(words.skip(2), Properties { interop_user_sync_field: true, ..acc })
        } else {
            spec_parse_props(words.skip(2), acc)
        }
    } else {
        spec_parse_props(words.skip(1), acc)
    }
}

/// `Context` is a reference-counted reference to a native context.
#[derive(Debug, PartialEq, Eq, Structural)]
pub struct Context {
    /// The raw native handle.
    pub context: u64,
}

/// An error returned by `Context::create`.
#[derive(PartialEq, Eq, Copy, Clone, Debug, Structural)]
pub enum CreationError {
    /// No device was provided.
    NoDevice,
    /// The interop-sync property is not supported by one of the devices.
    InteropUserSyncNotSupported,
    /// No platform was specified, and a platform could not be selected
    /// automatically.
    CannotSelectPlatform,
    /// One of the devices was not available.
    DeviceNotAvailable,
}

impl CreationError {
    /// A short description of the error.
    pub fn describe(&self) -> (r: &'static str)
        ensures
            *self is NoDevice ==> r@ == "no device was provided"@,
            *self is InteropUserSyncNotSupported ==> r@
                == "interop user sync property is not supported"@,
            *self is CannotSelectPlatform ==> r@ == "could not select a platform"@,
            *self is DeviceNotAvailable ==> r@ == "one of the devices was not available"@,
    {
        match self {
            CreationError::NoDevice => "no device was provided",
            CreationError::InteropUserSyncNotSupported => "interop user sync property is not supported",
            CreationError::CannotSelectPlatform => "could not select a platform",
            CreationError::DeviceNotAvailable => "one of the devices was not available",
        }
    }
}

impl Context {
    /// A context reference is backed by a live native record.
    pub open spec fn wf(&self, host: &Host) -> bool {
        &&& host.valid_context(self.context)
        &&& host.ctx(self.context).refcount >= 1
    }

    /// Return the raw handle.
    pub fn underlying(&self) -> (r: u64)
        ensures
            r == self.context,
    {
        self.context
    }

    /// Wrap a handle, incrementing the native count when `retain` is set.
    pub fn from_ffi(context: u64, retain: bool, host: &mut Host) -> (r: Context)
        requires
            old(host).wf(),
            old(host).valid_context(context),
            old(host).ctx(context).refcount < u32::MAX,
            !retain ==> old(host).ctx(context).refcount >= 1,
        ensures
            r.context == context,
            final(host).wf(),
            r.wf(final(host)),
            retain ==> {
                &&& eq_except_contexts(*old(host), *final(host))
                &&& final(host).contexts@.len() == old(host).contexts@.len()
                &&& final(host).ctx(context).refcount == old(host).ctx(context).refcount + 1
                &&& final(host).ctx(context).devices == old(host).ctx(context).devices
                &&& final(host).ctx(context).properties == old(host).ctx(context).properties
                &&& forall|j: int|
                    0 <= j < old(host).contexts@.len() && j != context - 1 ==> final(host).contexts@[j] == old(host).contexts@[j]
            },
            !retain ==> *final(host) == *old(host),
    {
        if retain {
            let _ = host.retain_context(context);
        }
        Context { context }
    }

    /// Create a context over one or more devices.
    ///
    /// An empty device list always fails with `NoDevice`, whatever the
    /// properties, without issuing any native call.
    pub fn create(devices: &Vec<Device>, properties: Properties, host: &mut Host) -> (r: Result<
        Context,
        CreationError,
    >)
        requires
            old(host).wf(),
            forall|i: int| 0 <= i < devices@.len() ==> (#[trigger] devices@[i]).wf(old(host)),
            Properties::spec_wf(properties),
            old(host).contexts@.len() < u64::MAX - 1,
        ensures
            final(host).wf(),
            devices@.len() == 0 ==> r == Err::<Context, CreationError>(CreationError::NoDevice)
                && *final(host) == *old(host),
            devices@.len() > 0 ==> ({
                let st = old(host).context_create_status(
                    Properties::spec_encode(properties),
                    devices@.map_values(|d: Device| d.device_id),
                );
                &&& (st == CL_SUCCESS ==> {
                    &&& r is Ok
                    &&& r->Ok_0.wf(final(host))
                    &&& eq_except_contexts(*old(host), *final(host))
                    &&& final(host).contexts@.len() == old(host).contexts@.len() + 1
                    &&& r->Ok_0.context == old(host).contexts@.len() + 1
                    &&& final(host).ctx(r->Ok_0.context).refcount == 1
                    &&& final(host).ctx(r->Ok_0.context).devices@ == devices@.map_values(
                        |d: Device| d.device_id,
                    )
                    &&& final(host).ctx(r->Ok_0.context).properties@ == Properties::spec_encode(
                        properties,
                    )
                    &&& forall|j: int|
                        0 <= j < old(host).contexts@.len() ==> final(host).contexts@[j] == old(host).contexts@[j]
                })
                &&& (st == CL_INVALID_PLATFORM ==> r == Err::<Context, CreationError>(
                    CreationError::CannotSelectPlatform,
                ) && *final(host) == *old(host))
                &&& (st == CL_DEVICE_NOT_AVAILABLE ==> r == Err::<Context, CreationError>(
                    CreationError::DeviceNotAvailable,
                ) && *final(host) == *old(host))
                &&& (st == CL_INVALID_PROPERTY ==> r == Err::<Context, CreationError>(
                    CreationError::InteropUserSyncNotSupported,
                ) && *final(host) == *old(host))
            }),
    {
        let nd: usize = devices.len();
        let mut device_ids: Vec<u64> = Vec::new();
        let mut i: usize = 0;
        while i < nd
            invariant
                i <= nd,
                nd == devices@.len(),
                device_ids@.len() == i,
                forall|k: int| 0 <= k < i ==> device_ids@[k] == devices@[k].device_id,
            decreases nd - i,
        {
            device_ids.push(devices[i].underlying());
            i = i + 1;
        }
        proof {
            assert(device_ids@ =~= devices@.map_values(|d: Device| d.device_id));
        }
        if device_ids.len() == 0 {
            return Err(CreationError::NoDevice);
        }
        let props = properties.into_ffi();
        let (error, handle) = host.create_context(&props, &device_ids);
        if error == CL_INVALID_PLATFORM {
            // The native layer reports this both for an invalid pinned
            // platform (which a valid `Platform` value rules out) and for a
            // failed automatic selection, so only the latter remains.
            return Err(CreationError::CannotSelectPlatform);
        } else if error == CL_DEVICE_NOT_AVAILABLE {
            return Err(CreationError::DeviceNotAvailable);
        } else if error == CL_INVALID_VALUE || error == CL_INVALID_PROPERTY {
            // The only property that can be refused is the interop-sync
            // flag; some drivers report it as an invalid value rather than
            // an invalid property.
            return Err(CreationError::InteropUserSyncNotSupported);
        }
        Ok(Context { context: handle })
    }

    /// Duplicate the reference, incrementing the native count.
    pub fn duplicate(&self, host: &mut Host) -> (r: Context)
        requires
            old(host).wf(),
            self.wf(old(host)),
            old(host).ctx(self.context).refcount < u32::MAX,
        ensures
            r.context == self.context,
            final(host).wf(),
            r.wf(final(host)),
            self.wf(final(host)),
            eq_except_contexts(*old(host), *final(host)),
            final(host).contexts@.len() == old(host).contexts@.len(),
            final(host).ctx(self.context).refcount == old(host).ctx(self.context).refcount + 1,
            final(host).ctx(self.context).devices == old(host).ctx(self.context).devices,
            final(host).ctx(self.context).properties == old(host).ctx(self.context).properties,
            forall|j: int|
                0 <= j < old(host).contexts@.len() && j != self.context - 1 ==> final(host).contexts@[j] == old(host).contexts@[j],
    {
        let _ = host.retain_context(self.context);
        Context { context: self.context }
    }

    /// Destroy the reference, decrementing the native count.
    pub fn destroy(self, host: &mut Host)
        requires
            old(host).wf(),
            self.wf(old(host)),
        ensures
            final(host).wf(),
            eq_except_contexts(*old(host), *final(host)),
            final(host).contexts@.len() == old(host).contexts@.len(),
            final(host).ctx(self.context).refcount == old(host).ctx(self.context).refcount - 1,
            final(host).ctx(self.context).devices == old(host).ctx(self.context).devices,
            final(host).ctx(self.context).properties == old(host).ctx(self.context).properties,
            forall|j: int|
                0 <= j < old(host).contexts@.len() && j != self.context - 1 ==> final(host).contexts@[j] == old(host).contexts@[j],
    {
        let _ = host.release_context(self.context);
    }

    /// Query an information of the context. `T` should be a marker type
    /// from the `information` module.
    pub fn get_info<T: information::ContextInformation>(&self, host: &Host) -> (r: T::Result)
        requires
            host.wf(),
            self.wf(host),
            context_info_bytes(host.ctx(self.context), T::spec_id()) is Some,
            <T::Result as InformationResult>::spec_decode(
                context_info_bytes(host.ctx(self.context), T::spec_id())->Some_0,
            ) is Some,
        ensures
            <T::Result as InformationResult>::spec_decode(
                context_info_bytes(host.ctx(self.context), T::spec_id())->Some_0,
            ) == Some(r.model()),
    {
        query::<T>(host, InfoTarget::Context(self.context))
    }

    /// Return a default context if any: a context with empty properties
    /// over the default device. It exists exactly when a default device
    /// exists and a platform can be selected automatically.
    pub fn default(host: &mut Host) -> (r: Option<Context>)
        requires
            old(host).wf(),
            old(host).platforms@.len() <= u32::MAX,
            old(host).devices@.len() <= u32::MAX,
            old(host).contexts@.len() < u64::MAX - 1,
        ensures
            final(host).wf(),
            eq_except_contexts(*old(host), *final(host)),
            r matches Some(c) ==> c.wf(final(host)),
            crate::device::spec_default_device(old(host)) is None ==> r is None && *final(host)
                == *old(host),
            crate::device::spec_default_device(old(host)) is Some && !old(
                host,
            ).auto_select_platform ==> r is None && *final(host) == *old(host),
            crate::device::spec_default_device(old(host)) is Some && old(
                host,
            ).auto_select_platform ==> ({
                let picked = crate::device::spec_default_device(old(host))->Some_0;
                &&& r is Some
                &&& final(host).contexts@.len() == old(host).contexts@.len() + 1
                &&& final(host).ctx(r->Some_0.context).devices@ == seq![picked]
                &&& final(host).ctx(r->Some_0.context).refcount == 1
            }),
    {
        proof {
            crate::device::lemma_default_device_props(host);
        }
        let picked = crate::device::Device::default(host);
        match picked {
            None => None,
            Some(d) => {
                let mut devs: Vec<crate::device::Device> = Vec::new();
                devs.push(d);
                proof {
                    assert(devs@.map_values(|x: crate::device::Device| x.device_id)
                        =~= seq![crate::device::spec_default_device(old(host))->Some_0]);
                    let encoded = Properties::spec_encode(Properties::spec_empty());
                    assert(encoded =~= seq![0i64]);
                    assert(!props_wants_sync(encoded));
                    assert(!props_has_platform(encoded));
                }
                let created = Context::create(&devs, Properties::new(), host);
                match created {
                    Ok(c) => Some(c),
                    Err(_) => None,
                }
            },
        }
    }

    /// Query the device list of the context, wrapping each handle with the
    /// lifecycle rule of its category.
    pub fn devices(&self, host: &mut Host) -> (r: Vec<Device>)
        requires
            old(host).wf(),
            self.wf(old(host)),
            forall|i: int|
                0 <= i < old(host).ctx(self.context).devices@.len() ==> old(host).dev(
                    #[trigger] old(host).ctx(self.context).devices@[i],
                ).refcount + old(host).ctx(self.context).devices@.len() < u32::MAX,
        ensures
            final(host).wf(),
            self.wf(final(host)),
            eq_except_devices(*old(host), *final(host)),
            final(host).devices@.len() == old(host).devices@.len(),
            r@.len() == old(host).ctx(self.context).devices@.len(),
            forall|i: int|
                0 <= i < r@.len() ==> (#[trigger] r@[i]).device_id == old(host).ctx(
                    self.context,
                ).devices@[i],
            forall|i: int| 0 <= i < r@.len() ==> (#[trigger] r@[i]).wf(final(host)),
    {
        proof {
            lemma_handle_words_roundtrip(host.ctx(self.context).devices@);
        }
        let fetched = ask_info_bytes(host, InfoTarget::Context(self.context), CL_CONTEXT_DEVICES);
        let handles = match fetched {
            Ok(b) => {
                let hs = decode_handle_words(&b);
                proof {
                    let devs = old(host).ctx(self.context).devices@;
                    crate::bytes::lemma_handle_words_bytes_len(devs);
                    assert(hs@.len() == devs.len());
                    assert forall|j: int| 0 <= j < hs@.len() implies hs@[j] == devs[j] by {
                        assert(hs@[j] as nat == crate::bytes::le_value(
                            b@.subrange(8 * j, 8 * j + 8),
                        ));
                        assert(crate::bytes::le_value(
                            crate::bytes::handle_words_bytes(devs).subrange(8 * j, 8 * j + 8),
                        ) == devs[j] as nat);
                    }
                    assert(hs@ =~= devs);
                }
                hs
            },
            Err(_) => {
                proof {
                    assert(false);
                }
                unreached()
            },
        };
        let n: usize = handles.len();
        let mut out: Vec<Device> = Vec::new();
        let mut i: usize = 0;
        while i < n
            invariant
                i <= n,
                n == handles@.len(),
                host.wf(),
                eq_except_devices(*old(host), *host),
                host.devices@.len() == old(host).devices@.len(),
                self.wf(old(host)),
                handles@ == old(host).ctx(self.context).devices@,
                forall|k: int| 0 <= k < n ==> old(host).valid_device(#[trigger] handles@[k]),
                forall|k: int|
                    0 <= k < n ==> host.dev(#[trigger] handles@[k]).refcount <= old(host).dev(
                        handles@[k],
                    ).refcount + i,
                forall|k: int|
                    0 <= k < n ==> old(host).dev(#[trigger] handles@[k]).refcount + n
                        < u32::MAX,
                out@.len() == i,
                forall|k: int| 0 <= k < i ==> (#[trigger] out@[k]).device_id == handles@[k],
                forall|k: int| 0 <= k < i ==> (#[trigger] out@[k]).wf(host),
            decreases n - i,
        {
            let h = handles[i];
            let ghost mid = *host;
            let d = Device::from_ffi(h, true, host);
            proof {
                assert forall|k: int| 0 <= k < i implies (#[trigger] out@[k]).wf(host) by {
                    assert(out@[k].wf(&mid));
                    if out@[k].device_id != h {
                        assert(host.devices@[out@[k].device_id - 1] == mid.devices@[out@[
                        k].device_id - 1]);
                    }
                }
                assert forall|k: int|
                    0 <= k < n implies host.dev(#[trigger] handles@[k]).refcount <= old(host).dev(handles@[k]).refcount + (i + 1) by {
                    if handles@[k] != h {
                        assert(host.devices@[handles@[k] - 1] == mid.devices@[handles@[k] - 1]);
                    }
                }
            }
            out.push(d);
            i = i + 1;
        }
        proof {
            assert(self.wf(host));
        }
        out
    }
}

} // verus!
