//! The generic information query engine.
//!
//! Every native "get info" entry point follows one two-phase convention:
//! called with capacity zero it reports how many bytes of data exist; called
//! again with a buffer of that capacity it fills the buffer. The engine
//! drives that convention once, for every result shape:
//!
//! * a size of zero produces the shape's empty value directly, without a
//!   second call, because a driver may leave the buffer untouched for empty
//!   data;
//! * otherwise the destination buffer starts pre-zeroed, so that a driver
//!   that leaves part of it unwritten (the root-device parent quirk) is
//!   indistinguishable from one that writes explicit zeros;
//! * the buffer is then read back through a per-shape decoder.
//!
//! A result shape declares itself through [`InformationResult`]: the
//! mathematical reading of a buffer as a value of the shape. A queryable
//! property declares itself through a zero-size [`Information`] marker
//! carrying the property's native identifier and its result shape; the
//! per-kind marker traits of the resource modules refine it. Queries whose
//! size phase counts elements instead of bytes (the platform, device and
//! sub-device enumerations) stand beside the engine in the resource
//! wrappers, driving the same count-then-fill convention.

use vstd::prelude::*;
use crate::host::{Host, InfoTarget};
use crate::errors::RawError;
use crate::codes::{CL_SUCCESS, CL_INVALID_VALUE};
use crate::bytes::{
    le_value, lemma_le_value_bound, le_decode_range, is_ascii_bytes, ascii_chars, check_ascii,
    reveal_pow256_small,
};
use crate::text::ascii_to_string;

verus! {

/// A result shape of the information engine: a type whose values can be
/// read back from a native information buffer.
pub trait InformationResult: Sized {
    /// The mathematical reading of a value of this shape.
    type Model;

    /// The model of one value.
    spec fn model(&self) -> Self::Model;

    /// What a full information buffer denotes in this shape, or `None` for
    /// a malformed buffer (a fatal driver mismatch).
    spec fn spec_decode(b: Seq<u8>) -> Option<Self::Model>;

    /// Read a full information buffer back as a value.
    fn decode(b: Vec<u8>) -> (r: Option<Self>)
        ensures
            match r {
                Some(v) => Self::spec_decode(b@) == Some(v.model()),
                None => Self::spec_decode(b@) is None,
            },
    ;
}

/// A marker describing one queryable property: the property's native
/// identifier and, through `Result`, the shape of its answer.
pub trait Information {
    /// The shape of this property's answer.
    type Result: InformationResult;

    /// The native numeric identifier of the property.
    spec fn spec_id() -> u32;

    /// The native numeric identifier of the property.
    fn id() -> (r: u32)
        ensures
            r == Self::spec_id(),
    ;
}

/// Build a pre-zeroed buffer.
fn zero_buffer(n: usize) -> (r: Vec<u8>)
    ensures
        r@.len() == n,
        forall|i: int| 0 <= i < n ==> r@[i] == 0,
{
    let mut r: Vec<u8> = Vec::new();
    let mut i: usize = 0;
    while i < n
        invariant
            i <= n,
            r@.len() == i,
            forall|j: int| 0 <= j < i ==> r@[j] == 0,
        decreases n - i,
    {
        r.push(0);
        i = i + 1;
    }
    r
}

/// Overwrite the front of `buf` with `data`.
fn overlay(buf: &mut Vec<u8>, data: &Vec<u8>)
    requires
        data@.len() <= old(buf)@.len(),
    ensures
        final(buf)@.len() == old(buf)@.len(),
        final(buf)@ == data@ + old(buf)@.skip(data@.len() as int),
{
    let n: usize = data.len();
    let mut i: usize = 0;
    while i < n
        invariant
            i <= n,
            n == data@.len(),
            n <= buf@.len(),
            buf@.len() == old(buf)@.len(),
            forall|j: int| 0 <= j < i ==> buf@[j] == data@[j],
            forall|j: int| i <= j < buf@.len() ==> buf@[j] == old(buf)@[j],
        decreases n - i,
    {
        buf.set(i, data[i]);
        i = i + 1;
    }
    proof {
        assert(buf@ =~= data@ + old(buf)@.skip(data@.len() as int));
    }
}

/// Fetch the full information buffer for one query through the two-phase
/// convention: ask for the size, produce empty data directly for size zero,
/// otherwise fill a pre-zeroed buffer of the reported size.
pub fn ask_info_bytes(host: &Host, target: InfoTarget, param: u32) -> (r: Result<Vec<u8>, RawError>)
    requires
        host.wf(),
    ensures
        match host.info_data(target, param) {
            Some(bytes) => r is Ok && r->Ok_0@ == bytes,
            None => r == Err::<Vec<u8>, RawError>(RawError { code: CL_INVALID_VALUE }),
        },
{
    let (status, _first, size) = host.info_call(target, param, 0);
    if status != CL_SUCCESS {
        return Err(RawError { code: status });
    }
    let ghost bytes = host.info_data(target, param)->Some_0;
    if size == 0 {
        let empty: Vec<u8> = Vec::new();
        proof {
            assert(empty@ =~= bytes);
        }
        return Ok(empty);
    }
    let mut buf = zero_buffer(size);
    let (status2, data, _size2) = host.info_call(target, param, size);
    overlay(&mut buf, &data);
    proof {
        let k = choose|k: int|
            #![auto]
            0 <= k <= vstd::math::min(size as int, bytes.len() as int) && data@ == bytes.take(k)
                && (k == vstd::math::min(size as int, bytes.len() as int) || (forall|j: int|
                k <= j < bytes.len() ==> bytes[j] == 0));
        assert(buf@ =~= bytes);
    }
    Ok(buf)
}

/// Run one marker's query and decode it; the marker must be known to the
/// native layer and its data well-formed for the shape, which is what the
/// statically-correct marker tables guarantee.
pub fn query<T: Information>(host: &Host, target: InfoTarget) -> (r: T::Result)
    requires
        host.wf(),
        host.info_data(target, T::spec_id()) is Some,
        <T::Result as InformationResult>::spec_decode(host.info_data(target, T::spec_id())->Some_0)
            is Some,
    ensures
        <T::Result as InformationResult>::spec_decode(host.info_data(target, T::spec_id())->Some_0)
            == Some(r.model()),
{
    let param = T::id();
    let fetched = ask_info_bytes(host, target, param);
    match fetched {
        Ok(b) => {
            let decoded = <T::Result as InformationResult>::decode(b);
            match decoded {
                Some(v) => v,
                None => {
                    proof {
                        assert(false);
                    }
                    unreached()
                },
            }
        },
        Err(_) => {
            proof {
                assert(false);
            }
            unreached()
        },
    }
}

/// A terminated text buffer decodes to its characters.
pub proof fn lemma_text_decode(t: Seq<u8>)
    requires
        is_ascii_bytes(t),
    ensures
        <String as InformationResult>::spec_decode(t + seq![0u8]) == Some(ascii_chars(t)),
{
    let b = t + seq![0u8];
    assert(b.take(b.len() - 1) =~= t);
}

/// A 4-byte scalar image decodes to its value.
pub proof fn lemma_u32_decode(x: u32)
    ensures
        <u32 as InformationResult>::spec_decode(crate::bytes::le_bytes(x as nat, 4)) == Some(x),
{
    crate::bytes::lemma_le_bytes_len(x as nat, 4);
    reveal_pow256_small();
    crate::bytes::lemma_le_value_of_le_bytes(x as nat, 4);
}

/// An 8-byte scalar image decodes to its value.
pub proof fn lemma_u64_decode(x: u64)
    ensures
        <u64 as InformationResult>::spec_decode(crate::bytes::le_bytes(x as nat, 8)) == Some(x),
{
    crate::bytes::lemma_le_bytes_len(x as nat, 8);
    reveal_pow256_small();
    crate::bytes::lemma_le_value_of_le_bytes(x as nat, 8);
}

/// An 8-byte size image decodes to its value.
pub proof fn lemma_usize_decode(x: usize)
    ensures
        <usize as InformationResult>::spec_decode(crate::bytes::le_bytes(x as nat, 8)) == Some(x),
{
    crate::bytes::lemma_le_bytes_len(x as nat, 8);
    reveal_pow256_small();
    crate::bytes::lemma_le_value_of_le_bytes(x as nat, 8);
}

/// A 4-byte boolean image decodes to its value.
pub proof fn lemma_bool_decode(v: bool)
    ensures
        <bool as InformationResult>::spec_decode(
            crate::bytes::le_bytes(if v { 1nat } else { 0nat }, 4),
        ) == Some(v),
{
    let x: nat = if v { 1 } else { 0 };
    crate::bytes::lemma_le_bytes_len(x, 4);
    reveal_pow256_small();
    crate::bytes::lemma_le_value_of_le_bytes(x, 4);
}

impl InformationResult for u32 {
    type Model = u32;

    open spec fn model(&self) -> u32 {
        *self
    }

    open spec fn spec_decode(b: Seq<u8>) -> Option<u32> {
        if b.len() == 4 {
            Some(le_value(b) as u32)
        } else {
            None
        }
    }

    fn decode(b: Vec<u8>) -> (r: Option<u32>) {
        if b.len() != 4 {
            return None;
        }
        let v = le_decode_range(&b, 0, 4);
        proof {
            assert(b@.subrange(0, 4) =~= b@);
            lemma_le_value_bound(b@);
            reveal_pow256_small();
        }
        Some(v as u32)
    }
}

impl InformationResult for u64 {
    type Model = u64;

    open spec fn model(&self) -> u64 {
        *self
    }

    open spec fn spec_decode(b: Seq<u8>) -> Option<u64> {
        if b.len() == 8 {
            Some(le_value(b) as u64)
        } else {
            None
        }
    }

    fn decode(b: Vec<u8>) -> (r: Option<u64>) {
        if b.len() != 8 {
            return None;
        }
        let v = le_decode_range(&b, 0, 8);
        proof {
            assert(b@.subrange(0, 8) =~= b@);
            lemma_le_value_bound(b@);
            reveal_pow256_small();
        }
        Some(v)
    }
}

impl InformationResult for usize {
    type Model = usize;

    open spec fn model(&self) -> usize {
        *self
    }

    open spec fn spec_decode(b: Seq<u8>) -> Option<usize> {
        if b.len() == 8 && le_value(b) <= usize::MAX {
            Some(le_value(b) as usize)
        } else {
            None
        }
    }

    fn decode(b: Vec<u8>) -> (r: Option<usize>) {
        if b.len() != 8 {
            return None;
        }
        let v = le_decode_range(&b, 0, 8);
        proof {
            assert(b@.subrange(0, 8) =~= b@);
        }
        if v <= usize::MAX as u64 {
            Some(v as usize)
        } else {
            None
        }
    }
}

impl InformationResult for bool {
    type Model = bool;

    open spec fn model(&self) -> bool {
        *self
    }

    open spec fn spec_decode(b: Seq<u8>) -> Option<bool> {
        if b.len() == 4 {
            Some(le_value(b) != 0)
        } else {
            None
        }
    }

    fn decode(b: Vec<u8>) -> (r: Option<bool>) {
        if b.len() != 4 {
            return None;
        }
        let v = le_decode_range(&b, 0, 4);
        proof {
            assert(b@.subrange(0, 4) =~= b@);
        }
        Some(v != 0)
    }
}

impl InformationResult for String {
    type Model = Seq<char>;

    open spec fn model(&self) -> Seq<char> {
        self@
    }

    open spec fn spec_decode(b: Seq<u8>) -> Option<Seq<char>> {
        if b.len() == 0 {
            Some(Seq::empty())
        } else if is_ascii_bytes(b.take(b.len() - 1)) {
            Some(ascii_chars(b.take(b.len() - 1)))
        } else {
            None
        }
    }

    fn decode(b: Vec<u8>) -> (r: Option<String>) {
        let mut body = b;
        let ghost orig = body@;
        let n: usize = body.len();
        if n == 0 {
            let s = String::new();
            proof {
                assert(s@ =~= Seq::<char>::empty());
            }
            return Some(s);
        }
        let _terminator = body.pop();
        proof {
            assert(body@ =~= orig.take(orig.len() - 1));
        }
        if !check_ascii(&body) {
            return None;
        }
        let s = ascii_to_string(body);
        Some(s)
    }
}

} // verus!
