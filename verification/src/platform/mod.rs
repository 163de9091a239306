//! The high-level `Platform` type: a reference to one native platform.
//!
//! Platforms are not reference counted: a `Platform` value is a plain copy
//! of the handle, and wrapping or dropping one never touches the native
//! layer.

pub mod information;

use vstd::prelude::*;
use crate::host::{Host, InfoTarget, platform_info_bytes, table_handles};
use crate::information::{InformationResult, ask_info_bytes, query};
use crate::text::{split_tokens_text, split_to_token_strings, lower_bytes, contains_bytes, to_lower, find_bytes};
use crate::bytes::is_ascii_bytes;
use vstd::string::StringSliceAdditionalSpecFns;
use crate::codes::{CL_DEVICE_NOT_FOUND, CL_PLATFORM_EXTENSIONS, CL_DEVICE_NAME};
use crate::device::{Device, Type};

verus! {

/// `Platform` is a reference to a physical platform; copying it is a
/// shallow copy of the handle.
#[derive(Clone, Copy, Debug, PartialEq, Eq, Structural)]
pub struct Platform {
    /// The raw native handle.
    pub platform_id: u64,
}

/// Every handle of a matching-device scan is a valid root device of the
/// platform.
pub proof fn lemma_matching_devices_props(h: &Host, platform: u64, bits: u64, i: int)
    requires
        0 <= i <= h.devices@.len(),
        h.devices@.len() <= u32::MAX,
    ensures
        forall|j: int|
            0 <= j < h.matching_devices_from(platform, bits, i).len() ==> {
                let x = #[trigger] h.matching_devices_from(platform, bits, i)[j];
                &&& h.valid_device(x)
                &&& h.dev(x).parent == 0
                &&& h.dev(x).platform == platform
                &&& h.dev(x).device_type & bits != 0
            },
    decreases h.devices@.len() - i,
{
    if i < h.devices@.len() {
        lemma_matching_devices_props(h, platform, bits, i + 1);
        let rest = h.matching_devices_from(platform, bits, i + 1);
        if h.devices@[i].parent == 0 && h.devices@[i].platform == platform && h.devices@[i].device_type
            & bits != 0 {
            assert forall|j: int|
                0 <= j < h.matching_devices_from(platform, bits, i).len() implies {
                let x = #[trigger] h.matching_devices_from(platform, bits, i)[j];
                &&& h.valid_device(x)
                &&& h.dev(x).parent == 0
                &&& h.dev(x).platform == platform
                &&& h.dev(x).device_type & bits != 0
            } by {
                if j == 0 {
                    assert(h.matching_devices_from(platform, bits, i)[0] == (i + 1) as u64);
                    assert(h.dev((i + 1) as u64) == h.devices@[i]);
                } else {
                    assert(h.matching_devices_from(platform, bits, i)[j] == rest[j - 1]);
                }
            }
        }
    }
}

/// The first listed device whose folded name contains the folded pattern.
pub open spec fn find_matching_name(host: &Host, handles: Seq<u64>, pat_lower: Seq<u8>) -> Option<
    u64,
>
    decreases handles.len(),
{
    if handles.len() == 0 {
        None
    } else if contains_bytes(lower_bytes(host.dev(handles[0]).name@), pat_lower) {
        Some(handles[0])
    } else {
        find_matching_name(host, handles.skip(1), pat_lower)
    }
}

impl Platform {
    /// Wrap a platform handle; nothing is counted.
    pub fn from_ffi(platform_id: u64) -> (r: Self)
        ensures
            r.platform_id == platform_id,
    {
        Platform { platform_id }
    }

    /// A platform reference is backed by a record of the native layer.
    pub open spec fn wf(&self, host: &Host) -> bool {
        host.valid_platform(self.platform_id)
    }

    /// Return the raw handle.
    pub fn underlying(self) -> (r: u64)
        ensures
            r == self.platform_id,
    {
        self.platform_id
    }

    /// Return a list of all available platforms, through the count-then-fill
    /// enumeration convention.
    pub fn list(host: &Host) -> (r: Vec<Platform>)
        requires
            host.wf(),
            host.platforms@.len() <= u32::MAX,
        ensures
            r@.len() == host.platforms@.len(),
            forall|i: int| 0 <= i < r@.len() ==> (#[trigger] r@[i]).platform_id == i + 1,
            forall|i: int| 0 <= i < r@.len() ==> (#[trigger] r@[i]).wf(host),
    {
        let (_status, _none, count) = host.platform_ids(0, false);
        let (_status2, handles, _count2) = host.platform_ids(count, true);
        proof {
            assert(handles@ =~= table_handles(host.platforms@.len()));
        }
        let n: usize = handles.len();
        let mut out: Vec<Platform> = Vec::new();
        let mut i: usize = 0;
        while i < n
            invariant
                i <= n,
                n == handles@.len(),
                forall|k: int| 0 <= k < n ==> handles@[k] == k + 1,
                out@.len() == i,
                forall|k: int| 0 <= k < i ==> (#[trigger] out@[k]).platform_id == k + 1,
            decreases n - i,
        {
            out.push(Platform { platform_id: handles[i] });
            i = i + 1;
        }
        out
    }

    /// Return a default platform if any, namely the first one listed.
    pub fn default(host: &Host) -> (r: Option<Platform>)
        requires
            host.wf(),
            host.platforms@.len() <= u32::MAX,
        ensures
            host.platforms@.len() == 0 ==> r is None,
            host.platforms@.len() > 0 ==> r == Some(Platform { platform_id: 1 }),
    {
        let all = Platform::list(host);
        if all.len() == 0 {
            None
        } else {
            Some(all[0])
        }
    }

    /// Query an information of the platform. `T` should be a marker type
    /// from the `information` module.
    pub fn get_info<T: information::PlatformInformation>(&self, host: &Host) -> (r: T::Result)
        requires
            host.wf(),
            self.wf(host),
            platform_info_bytes(host.plat(self.platform_id), T::spec_id()) is Some,
            <T::Result as InformationResult>::spec_decode(
                platform_info_bytes(host.plat(self.platform_id), T::spec_id())->Some_0,
            ) is Some,
        ensures
            <T::Result as InformationResult>::spec_decode(
                platform_info_bytes(host.plat(self.platform_id), T::spec_id())->Some_0,
            ) == Some(r.model()),
    {
        query::<T>(host, InfoTarget::Platform(self.platform_id))
    }

    /// Return the list of extensions supported by the platform: the
    /// whitespace-separated tokens of the extensions string, with no empty
    /// tokens, and none at all for an empty string.
    pub fn extensions(&self, host: &Host) -> (r: Vec<String>)
        requires
            host.wf(),
            self.wf(host),
        ensures
            r@.map_values(|s: String| s@) == split_tokens_text(
                host.plat(self.platform_id).extensions@,
            ),
    {
        let text = fetch_platform_extensions(host, self.platform_id);
        split_to_token_strings(&text)
    }

    /// Return the list of available devices of this platform whose type
    /// matches the `ty` bitfield; a platform with no matching device gives
    /// the empty list, never an error.
    pub fn get_devices(&self, ty: Type, host: &Host) -> (r: Vec<Device>)
        requires
            host.wf(),
            self.wf(host),
            host.devices@.len() <= u32::MAX,
        ensures
            r@.len() == host.matching_devices(self.platform_id, ty.bitfield).len(),
            forall|i: int|
                0 <= i < r@.len() ==> (#[trigger] r@[i]).device_id == host.matching_devices(
                    self.platform_id,
                    ty.bitfield,
                )[i],
            forall|i: int| 0 <= i < r@.len() ==> (#[trigger] r@[i]).wf(host),
            forall|i: int|
                0 <= i < r@.len() ==> host.dev(#[trigger] r@[i].device_id).parent == 0,
    {
        proof {
            lemma_matching_devices_props(host, self.platform_id, ty.bitfield, 0);
        }
        let bits = ty.get_bitfield();
        let (status, _none, count) = host.device_ids(self.platform_id, bits, 0, false);
        if status == CL_DEVICE_NOT_FOUND {
            return Vec::new();
        }
        let (_status2, handles, _count2) = host.device_ids(self.platform_id, bits, count, true);
        proof {
            assert(handles@ =~= host.matching_devices(self.platform_id, ty.bitfield));
        }
        let n: usize = handles.len();
        let mut out: Vec<Device> = Vec::new();
        let mut i: usize = 0;
        while i < n
            invariant
                i <= n,
                n == handles@.len(),
                handles@ == host.matching_devices(self.platform_id, ty.bitfield),
                forall|k: int|
                    0 <= k < handles@.len() ==> {
                        let x = #[trigger] handles@[k];
                        &&& host.valid_device(x)
                        &&& host.dev(x).parent == 0
                    },
                out@.len() == i,
                forall|k: int| 0 <= k < i ==> (#[trigger] out@[k]).device_id == handles@[k],
            decreases n - i,
        {
            out.push(Device { device_id: handles[i] });
            i = i + 1;
        }
        out
    }

    /// Return the first device of the platform whose name contains
    /// `pattern`, comparing case-insensitively. The pattern must be
    /// seven-bit text (the crate's text model); wider patterns are
    /// excluded by precondition.
    pub fn match_device(&self, pattern: &str, host: &Host) -> (r: Option<Device>)
        requires
            host.wf(),
            self.wf(host),
            host.devices@.len() <= u32::MAX,
            pattern.is_ascii(),
        ensures
            ({
                let found = find_matching_name(
                    host,
                    host.matching_devices(self.platform_id, 0xFFFFFFFFu64),
                    lower_bytes(pattern.spec_bytes()),
                );
                match found {
                    Some(h) => r == Some(Device { device_id: h }) && host.valid_device(h),
                    None => r is None,
                }
            }),
    {
        let pat = pattern.as_bytes_vec();
        let lowered = to_lower(&pat);
        let devices = self.get_devices(Type::all(), host);
        proof {
            lemma_matching_devices_props(host, self.platform_id, 0xFFFFFFFFu64, 0);
        }
        let ghost handles = host.matching_devices(self.platform_id, 0xFFFFFFFFu64);
        proof {
            assert(handles.skip(0) =~= handles);
        }
        let n: usize = devices.len();
        let mut i: usize = 0;
        while i < n
            invariant
                host.wf(),
                i <= n,
                n == devices@.len(),
                n == handles.len(),
                handles == host.matching_devices(self.platform_id, 0xFFFFFFFFu64),
                forall|k: int|
                    0 <= k < n ==> (#[trigger] devices@[k]).device_id == handles[k],
                forall|k: int|
                    0 <= k < handles.len() ==> host.valid_device(#[trigger] handles[k]),
                lowered@ == lower_bytes(pattern.spec_bytes()),
                find_matching_name(host, handles, lowered@) == find_matching_name(
                    host,
                    handles.skip(i as int),
                    lowered@,
                ),
            decreases n - i,
        {
            let h = devices[i].device_id;
            let name = fetch_device_name(host, h);
            let lowered_name = to_lower(&name);
            proof {
                assert(handles.skip(i as int)[0] == handles[i as int]);
            }
            if find_bytes(&lowered_name, &lowered) {
                proof {
                    assert(find_matching_name(host, handles.skip(i as int), lowered@) == Some(
                        handles[i as int],
                    ));
                }
                return Some(Device { device_id: h });
            }
            proof {
                assert(handles.skip(i as int).skip(1) =~= handles.skip(i + 1));
            }
            i = i + 1;
        }
        proof {
            assert(handles.skip(n as int) =~= Seq::<u64>::empty());
        }
        None
    }
}

/// Fetch a platform's extension list as bytes, terminator stripped.
fn fetch_platform_extensions(host: &Host, platform_id: u64) -> (r: Vec<u8>)
    requires
        host.wf(),
        host.valid_platform(platform_id),
    ensures
        r@ == host.plat(platform_id).extensions@,
        is_ascii_bytes(r@),
{
    let fetched = ask_info_bytes(host, InfoTarget::Platform(platform_id), CL_PLATFORM_EXTENSIONS);
    match fetched {
        Ok(b) => {
            let mut b = b;
            let ghost full = b@;
            let _terminator = b.pop();
            proof {
                assert(b@ =~= full.take(full.len() - 1));
                assert(full =~= host.plat(platform_id).extensions@ + seq![0u8]);
                assert(b@ =~= host.plat(platform_id).extensions@);
            }
            b
        },
        Err(_) => {
            proof {
                assert(false);
            }
            unreached()
        },
    }
}

/// Fetch a device's name as bytes, terminator stripped.
fn fetch_device_name(host: &Host, device_id: u64) -> (r: Vec<u8>)
    requires
        host.wf(),
        host.valid_device(device_id),
    ensures
        r@ == host.dev(device_id).name@,
        is_ascii_bytes(r@),
{
    let fetched = ask_info_bytes(host, InfoTarget::Device(device_id), CL_DEVICE_NAME);
    match fetched {
        Ok(b) => {
            let mut b = b;
            let ghost full = b@;
            let _terminator = b.pop();
            proof {
                assert(b@ =~= full.take(full.len() - 1));
                assert(full =~= host.dev(device_id).name@ + seq![0u8]);
                assert(b@ =~= host.dev(device_id).name@);
            }
            b
        },
        Err(_) => {
            proof {
                assert(false);
            }
            unreached()
        },
    }
}

} // verus!
