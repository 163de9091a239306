//! The crate-level laws: statements that tie several operations together,
//! proved once and for all inputs.

use vstd::prelude::*;
use crate::host::{Host, InfoTarget, device_info_bytes};
use crate::information::{InformationResult, lemma_u64_decode};
use crate::bytes::{is_text_bytes, ascii_chars, lemma_prop_words_roundtrip};
use crate::codes::{CL_DEVICE_PARENT_DEVICE, CL_DEVICE_PARTITION_TYPE};
use crate::partition::{
    PartitionShape, PartitionType, shape_wf, spec_encode_partition, lemma_partition_round_trip,
};

verus! {

/// One step of the lifecycle of a counted resource reference.
pub enum LifeOp {
    /// A duplication: the native count gains one.
    Duplicate,
    /// A destruction: the native count loses one.
    Destroy,
}

/// The native count after a sequence of lifecycle steps, starting from
/// `start`; each duplication adds one and each destruction removes one, as
/// the `duplicate` and `destroy` contracts of every counted wrapper state.
pub open spec fn count_after(start: int, ops: Seq<LifeOp>) -> int
    decreases ops.len(),
{
    if ops.len() == 0 {
        start
    } else {
        let next = match ops[0] {
            LifeOp::Duplicate => start + 1,
            LifeOp::Destroy => start - 1,
        };
        count_after(next, ops.skip(1))
    }
}

/// How many steps of a sequence are duplications.
pub open spec fn duplicates_in(ops: Seq<LifeOp>) -> int
    decreases ops.len(),
{
    if ops.len() == 0 {
        0
    } else {
        (match ops[0] {
            LifeOp::Duplicate => 1int,
            LifeOp::Destroy => 0int,
        }) + duplicates_in(ops.skip(1))
    }
}

/// How many steps of a sequence are destructions.
pub open spec fn destroys_in(ops: Seq<LifeOp>) -> int
    decreases ops.len(),
{
    if ops.len() == 0 {
        0
    } else {
        (match ops[0] {
            LifeOp::Destroy => 1int,
            LifeOp::Duplicate => 0int,
        }) + destroys_in(ops.skip(1))
    }
}

/// For every counted resource kind: construction starts the native count at
/// one, and after `n` duplications and `m` destructions, in any order, the
/// reference-count marker reports `1 + n - m` — what the count-transition
/// system of the retain/release convention prescribes.
pub proof fn lemma_refcount_after_lifecycle(start: int, ops: Seq<LifeOp>)
    ensures
        count_after(start, ops) == start + duplicates_in(ops) - destroys_in(ops),
    decreases ops.len(),
{
    if ops.len() > 0 {
        let next = match ops[0] {
            LifeOp::Duplicate => start + 1,
            LifeOp::Destroy => start - 1,
        };
        lemma_refcount_after_lifecycle(next, ops.skip(1));
    }
}

/// A string query never returns the trailing terminator: the decoded text
/// of a terminated buffer is exactly the text before the terminator, with
/// no null character in it; and data of length zero decodes to the empty
/// string rather than an error.
///
/// The hypothesis is exactly the text well-formedness every record of the
/// runtime carries (native strings are C strings), so the conclusion holds
/// of every string query.
pub proof fn lemma_string_query_trims_terminator(t: Seq<u8>)
    requires
        is_text_bytes(t),
    ensures
        <String as InformationResult>::spec_decode(t + seq![0u8]) == Some(ascii_chars(t)),
        ascii_chars(t).len() == t.len(),
        forall|i: int|
            0 <= i < t.len() ==> ascii_chars(t)[i] == (t[i] as char) && t[i] != 0,
        <String as InformationResult>::spec_decode(Seq::<u8>::empty()) == Some(
            Seq::<char>::empty(),
        ),
{
    let b = t + seq![0u8];
    assert(b.take(b.len() - 1) =~= t);
}

/// Querying a partitioned sub-device's parent marker yields exactly the
/// handle of the device it was split from: together with the partition
/// contract (every created record's parent field is the split device),
/// every derived device's parent marker answers with the original device.
pub proof fn lemma_sub_device_parent_marker(host: &Host, sub: u64, parent: u64)
    requires
        host.wf(),
        host.valid_device(sub),
        host.dev(sub).parent == parent,
    ensures
        host.info_data(InfoTarget::Device(sub), CL_DEVICE_PARENT_DEVICE) is Some,
        <u64 as InformationResult>::spec_decode(
            host.info_data(InfoTarget::Device(sub), CL_DEVICE_PARENT_DEVICE)->Some_0,
        ) == Some(parent),
{
    lemma_u64_decode(parent);
}

/// Querying a partitioned sub-device's partition-type marker yields
/// exactly the descriptor the device was created with: the native
/// tagged-list round trip loses nothing, for all three strategies.
pub proof fn lemma_sub_device_partition_type_marker(host: &Host, sub: u64, shape: PartitionShape)
    requires
        host.wf(),
        host.valid_device(sub),
        shape_wf(shape),
        host.dev(sub).partition_ty@ == spec_encode_partition(shape),
    ensures
        host.info_data(InfoTarget::Device(sub), CL_DEVICE_PARTITION_TYPE) is Some,
        <Option<PartitionType> as InformationResult>::spec_decode(
            host.info_data(InfoTarget::Device(sub), CL_DEVICE_PARTITION_TYPE)->Some_0,
        ) == Some(Some(shape)),
{
    lemma_prop_words_roundtrip(host.dev(sub).partition_ty@);
    lemma_partition_round_trip(shape);
    assert(device_info_bytes(host.dev(sub), CL_DEVICE_PARTITION_TYPE) is Some);
}

} // verus!
