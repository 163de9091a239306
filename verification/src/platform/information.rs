//! The information marker types for `Platform`.

use vstd::prelude::*;
use crate::information::Information;
use crate::codes::{
    CL_PLATFORM_PROFILE, CL_PLATFORM_VERSION, CL_PLATFORM_NAME, CL_PLATFORM_VENDOR,
    CL_PLATFORM_EXTENSIONS,
};

verus! {

/// A trait implemented by marker types for querying platform information.
pub trait PlatformInformation: Information {

}

/// Marker for the platform's profile.
pub struct Profile;

impl Information for Profile {
    type Result = String;

    open spec fn spec_id() -> u32 {
        CL_PLATFORM_PROFILE
    }

    fn id() -> (r: u32) {
        CL_PLATFORM_PROFILE
    }
}

impl PlatformInformation for Profile {

}

/// Marker for the platform's version string.
pub struct Version;

impl Information for Version {
    type Result = String;

    open spec fn spec_id() -> u32 {
        CL_PLATFORM_VERSION
    }

    fn id() -> (r: u32) {
        CL_PLATFORM_VERSION
    }
}

impl PlatformInformation for Version {

}

/// Marker for the platform's name.
pub struct Name;

impl Information for Name {
    type Result = String;

    open spec fn spec_id() -> u32 {
        CL_PLATFORM_NAME
    }

    fn id() -> (r: u32) {
        CL_PLATFORM_NAME
    }
}

impl PlatformInformation for Name {

}

/// Marker for the platform's vendor.
pub struct Vendor;

impl Information for Vendor {
    type Result = String;

    open spec fn spec_id() -> u32 {
        CL_PLATFORM_VENDOR
    }

    fn id() -> (r: u32) {
        CL_PLATFORM_VENDOR
    }
}

impl PlatformInformation for Vendor {

}

/// Marker for the platform's space-separated extension list.
pub struct Extensions;

impl Information for Extensions {
    type Result = String;

    open spec fn spec_id() -> u32 {
        CL_PLATFORM_EXTENSIONS
    }

    fn id() -> (r: u32) {
        CL_PLATFORM_EXTENSIONS
    }
}

impl PlatformInformation for Extensions {

}

} // verus!
