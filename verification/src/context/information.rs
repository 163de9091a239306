//! The information marker types for `Context`, and the decoder of the
//! stored context property list.

use vstd::prelude::*;
use crate::information::{Information, InformationResult};
use crate::bytes::{spec_words_of, spec_words_in_range, decode_prop_words_checked};
use crate::codes::{
    CL_CONTEXT_REFERENCE_COUNT, CL_CONTEXT_NUM_DEVICES, CL_CONTEXT_PROPERTIES,
};
use crate::context::{Properties as ContextProperties, spec_parse_props};

verus! {

/// A trait implemented by marker types for querying context information.
pub trait ContextInformation: Information {

}

/// Marker for the context's native reference count.
pub struct ReferenceCount;

impl Information for ReferenceCount {
    type Result = u32;

    open spec fn spec_id() -> u32 {
        CL_CONTEXT_REFERENCE_COUNT
    }

    fn id() -> (r: u32) {
        CL_CONTEXT_REFERENCE_COUNT
    }
}

impl ContextInformation for ReferenceCount {

}

/// Marker for the number of devices in the context.
pub struct NumDevices;

impl Information for NumDevices {
    type Result = u32;

    open spec fn spec_id() -> u32 {
        CL_CONTEXT_NUM_DEVICES
    }

    fn id() -> (r: u32) {
        CL_CONTEXT_NUM_DEVICES
    }
}

impl ContextInformation for NumDevices {

}

/// Marker for the property list the context was created with.
pub struct Properties;

impl Information for Properties {
    type Result = ContextProperties;

    open spec fn spec_id() -> u32 {
        CL_CONTEXT_PROPERTIES
    }

    fn id() -> (r: u32) {
        CL_CONTEXT_PROPERTIES
    }
}

impl ContextInformation for Properties {

}

impl InformationResult for ContextProperties {
    type Model = ContextProperties;

    open spec fn model(&self) -> ContextProperties {
        *self
    }

    open spec fn spec_decode(b: Seq<u8>) -> Option<ContextProperties> {
        if b.len() % 8 == 0 && spec_words_in_range(b) {
            let words = spec_words_of(b);
            let body = if words.len() >= 1 {
                words.take(words.len() - 1)
            } else {
                words
            };
            spec_parse_props(body, ContextProperties::spec_empty())
        } else {
            None
        }
    }

    fn decode(b: Vec<u8>) -> (r: Option<ContextProperties>) {
        match decode_prop_words_checked(&b) {
            Some(words) => {
                let mut words = words;
                let ghost full = words@;
                if words.len() >= 1 {
                    let _trailing = words.pop();
                    proof {
                        assert(words@ =~= full.take(full.len() - 1));
                    }
                }
                ContextProperties::parse_props(&words)
            },
            None => None,
        }
    }
}

} // verus!
