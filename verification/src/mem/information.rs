//! The information marker types for memory objects.

use vstd::prelude::*;
use crate::information::{Information, InformationResult};
use crate::bytes::{le_value, le_decode_range, lemma_le_value_bound, reveal_pow256_small};
use crate::codes::{CL_MEM_FLAGS, CL_MEM_SIZE, CL_MEM_MAP_COUNT, CL_MEM_REFERENCE_COUNT};
use crate::mem::Flags as MemFlags;

verus! {

/// A trait implemented by marker types for querying memory-object
/// information.
pub trait MemInformation: Information {

}

/// Marker for the memory object's flag bits.
pub struct Flags;

impl Information for Flags {
    type Result = MemFlags;

    open spec fn spec_id() -> u32 {
        CL_MEM_FLAGS
    }

    fn id() -> (r: u32) {
        CL_MEM_FLAGS
    }
}

impl MemInformation for Flags {

}

/// Marker for the memory object's allocation size.
pub struct Size;

impl Information for Size {
    type Result = usize;

    open spec fn spec_id() -> u32 {
        CL_MEM_SIZE
    }

    fn id() -> (r: u32) {
        CL_MEM_SIZE
    }
}

impl MemInformation for Size {

}

/// Marker for the memory object's outstanding mapping count.
pub struct MapCount;

impl Information for MapCount {
    type Result = u32;

    open spec fn spec_id() -> u32 {
        CL_MEM_MAP_COUNT
    }

    fn id() -> (r: u32) {
        CL_MEM_MAP_COUNT
    }
}

impl MemInformation for MapCount {

}

/// Marker for the memory object's native reference count.
pub struct ReferenceCount;

impl Information for ReferenceCount {
    type Result = u32;

    open spec fn spec_id() -> u32 {
        CL_MEM_REFERENCE_COUNT
    }

    fn id() -> (r: u32) {
        CL_MEM_REFERENCE_COUNT
    }
}

impl MemInformation for ReferenceCount {

}

impl InformationResult for MemFlags {
    type Model = MemFlags;

    open spec fn model(&self) -> MemFlags {
        *self
    }

    open spec fn spec_decode(b: Seq<u8>) -> Option<MemFlags> {
        if b.len() == 8 {
            Some(MemFlags { bitfield: le_value(b) as u64 })
        } else {
            None
        }
    }

    fn decode(b: Vec<u8>) -> (r: Option<MemFlags>) {
        if b.len() != 8 {
            return None;
        }
        let v = le_decode_range(&b, 0, 8);
        proof {
            assert(b@.subrange(0, 8) =~= b@);
            lemma_le_value_bound(b@);
            reveal_pow256_small();
        }
        Some(MemFlags { bitfield: v })
    }
}

} // verus!
