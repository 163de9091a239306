//! The information marker types for `CommandQueue`.

use vstd::prelude::*;
use crate::information::{Information, InformationResult};
use crate::bytes::{le_value, le_decode_range, lemma_le_value_bound, reveal_pow256_small};
use crate::codes::{CL_QUEUE_REFERENCE_COUNT, CL_QUEUE_PROPERTIES};
use crate::command_queue::Properties as QueueProperties;

verus! {

/// A trait implemented by marker types for querying command-queue
/// information.
pub trait CommandQueueInformation: Information {

}

/// Marker for the queue's native reference count.
pub struct ReferenceCount;

impl Information for ReferenceCount {
    type Result = u32;

    open spec fn spec_id() -> u32 {
        CL_QUEUE_REFERENCE_COUNT
    }

    fn id() -> (r: u32) {
        CL_QUEUE_REFERENCE_COUNT
    }
}

impl CommandQueueInformation for ReferenceCount {

}

/// Marker for the queue's property bits.
pub struct Properties;

impl Information for Properties {
    type Result = QueueProperties;

    open spec fn spec_id() -> u32 {
        CL_QUEUE_PROPERTIES
    }

    fn id() -> (r: u32) {
        CL_QUEUE_PROPERTIES
    }
}

impl CommandQueueInformation for Properties {

}

impl InformationResult for QueueProperties {
    type Model = QueueProperties;

    open spec fn model(&self) -> QueueProperties {
        *self
    }

    open spec fn spec_decode(b: Seq<u8>) -> Option<QueueProperties> {
        if b.len() == 8 {
            Some(QueueProperties { bitfield: le_value(b) as u64 })
        } else {
            None
        }
    }

    fn decode(b: Vec<u8>) -> (r: Option<QueueProperties>) {
        if b.len() != 8 {
            return None;
        }
        let v = le_decode_range(&b, 0, 8);
        proof {
            assert(b@.subrange(0, 8) =~= b@);
            lemma_le_value_bound(b@);
            reveal_pow256_small();
        }
        Some(QueueProperties { bitfield: v })
    }
}

} // verus!
