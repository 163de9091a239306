//! Little-endian byte encoding and decoding.
//!
//! The native information entry points traffic in untyped byte buffers; every
//! scalar result (a 4-byte boolean, a 32-bit count, a 64-bit bitfield, an
//! 8-byte handle or property word) crosses the boundary as its little-endian
//! byte image. This module defines that image once, as spec functions, and
//! provides the verified executable encoder and decoder used by both the
//! conformance model (which produces buffers) and the query engine (which
//! consumes them).

use vstd::prelude::*;
use vstd::arithmetic::div_mod::{lemma_fundamental_div_mod, lemma_multiply_divide_lt};

verus! {

/// `256^w`: the number of values a `w`-byte buffer can hold.
pub open spec fn pow256(w: nat) -> nat
    decreases w,
{
    if w == 0 {
        1
    } else {
        256 * pow256((w - 1) as nat)
    }
}

/// The value a byte sequence denotes, read little-endian.
pub open spec fn le_value(b: Seq<u8>) -> nat
    decreases b.len(),
{
    if b.len() == 0 {
        0
    } else {
        b[0] as nat + 256 * le_value(b.skip(1))
    }
}

/// The `w`-byte little-endian image of `x` (modulo `256^w`).
pub open spec fn le_bytes(x: nat, w: nat) -> Seq<u8>
    decreases w,
{
    if w == 0 {
        Seq::empty()
    } else {
        seq![(x % 256) as u8] + le_bytes(x / 256, (w - 1) as nat)
    }
}

pub proof fn lemma_le_bytes_len(x: nat, w: nat)
    ensures
        le_bytes(x, w).len() == w,
    decreases w,
{
    if w > 0 {
        lemma_le_bytes_len(x / 256, (w - 1) as nat);
    }
}

/// A `w`-byte buffer holds fewer than `256^w` values.
pub proof fn lemma_le_value_bound(b: Seq<u8>)
    ensures
        le_value(b) < pow256(b.len()),
    decreases b.len(),
{
    if b.len() > 0 {
        lemma_le_value_bound(b.skip(1));
    }
}

pub proof fn lemma_pow256_ordered(w1: nat, w2: nat)
    requires
        w1 <= w2,
    ensures
        pow256(w1) <= pow256(w2),
    decreases w2,
{
    if w1 < w2 && w2 > 0 {
        lemma_pow256_ordered(w1, (w2 - 1) as nat);
    }
}

/// The small powers the fixed-width decoders compare against.
pub proof fn reveal_pow256_small()
    ensures
        pow256(4) == 0x100000000,
        pow256(8) == 0x10000000000000000,
{
    reveal_with_fuel(pow256, 9);
}

/// Decoding the encoding of a value that fits gives the value back.
pub proof fn lemma_le_value_of_le_bytes(x: nat, w: nat)
    requires
        x < pow256(w),
    ensures
        le_value(le_bytes(x, w)) == x,
    decreases w,
{
    if w > 0 {
        let rest = le_bytes(x / 256, (w - 1) as nat);
        assert((seq![(x % 256) as u8] + rest).skip(1) =~= rest);
        lemma_multiply_divide_lt(x as int, 256, pow256((w - 1) as nat) as int);
        lemma_le_value_of_le_bytes(x / 256, (w - 1) as nat);
        lemma_fundamental_div_mod(x as int, 256);
    }
}

/// Append the `w`-byte little-endian image of `x` to `out`.
pub fn append_le(out: &mut Vec<u8>, x: u64, w: usize)
    ensures
        final(out)@ == old(out)@ + le_bytes(x as nat, w as nat),
    decreases w,
{
    if w == 0 {
        assert(out@ =~= old(out)@ + le_bytes(x as nat, 0));
    } else {
        let b: u8 = (x % 256) as u8;
        out.push(b);
        append_le(out, x / 256, w - 1);
        assert(out@ =~= old(out)@ + le_bytes(x as nat, w as nat));
    }
}

/// Read the `width`-byte little-endian value stored at `start` in `b`.
pub fn le_decode_range(b: &Vec<u8>, start: usize, width: usize) -> (r: u64)
    requires
        start + width <= b@.len(),
        width <= 8,
    ensures
        r as nat == le_value(b@.subrange(start as int, start + width)),
{
    proof {
        assert(b@.subrange(start + width, start + width) =~= Seq::<u8>::empty());
    }
    let n: usize = b.len();
    let mut acc: u64 = 0;
    let mut i: usize = width;
    while i > 0
        invariant
            i <= width,
            width <= 8,
            start + width <= b@.len(),
            b@.len() == n,
            acc as nat == le_value(b@.subrange(start + i, start + width)),
            acc < pow256((width - i) as nat),
        decreases i,
    {
        i = i - 1;
        let sub = Ghost(b@.subrange(start + i, start + width));
        proof {
            reveal_with_fuel(pow256, 9);
            assert(sub@.skip(1) =~= b@.subrange(start + i + 1, start + width));
            lemma_pow256_ordered((width - i - 1) as nat, 7);
            assert(pow256(7) == 0x100000000000000);
        }
        acc = acc * 256 + (b[start + i] as u64);
    }
    proof {
        assert(b@.subrange(start as int, start + width) =~= b@.subrange(
            start + 0,
            start + width,
        ));
    }
    acc
}

/// The byte image of a list of signed property words, 8 bytes per word.
pub open spec fn prop_words_bytes(s: Seq<i64>) -> Seq<u8>
    decreases s.len(),
{
    if s.len() == 0 {
        Seq::empty()
    } else {
        le_bytes(s[0] as nat, 8) + prop_words_bytes(s.skip(1))
    }
}

/// The byte image of a list of handles, 8 bytes per handle.
pub open spec fn handle_words_bytes(s: Seq<u64>) -> Seq<u8>
    decreases s.len(),
{
    if s.len() == 0 {
        Seq::empty()
    } else {
        le_bytes(s[0] as nat, 8) + handle_words_bytes(s.skip(1))
    }
}

pub proof fn lemma_prop_words_bytes_len(s: Seq<i64>)
    ensures
        prop_words_bytes(s).len() == 8 * s.len(),
    decreases s.len(),
{
    if s.len() > 0 {
        lemma_le_bytes_len(s[0] as nat, 8);
        lemma_prop_words_bytes_len(s.skip(1));
    }
}

pub proof fn lemma_handle_words_bytes_len(s: Seq<u64>)
    ensures
        handle_words_bytes(s).len() == 8 * s.len(),
    decreases s.len(),
{
    if s.len() > 0 {
        lemma_le_bytes_len(s[0] as nat, 8);
        lemma_handle_words_bytes_len(s.skip(1));
    }
}

/// Each 8-byte chunk of a property-word image is the image of its word.
pub proof fn lemma_prop_words_bytes_index(s: Seq<i64>, j: int)
    requires
        0 <= j < s.len(),
    ensures
        prop_words_bytes(s).subrange(8 * j, 8 * j + 8) == le_bytes(s[j] as nat, 8),
    decreases s.len(),
{
    lemma_prop_words_bytes_len(s);
    lemma_le_bytes_len(s[0] as nat, 8);
    if j == 0 {
        assert(prop_words_bytes(s).subrange(0, 8) =~= le_bytes(s[0] as nat, 8));
    } else {
        lemma_prop_words_bytes_len(s.skip(1));
        lemma_prop_words_bytes_index(s.skip(1), j - 1);
        assert(prop_words_bytes(s).subrange(8 * j, 8 * j + 8) =~= prop_words_bytes(
            s.skip(1),
        ).subrange(8 * (j - 1), 8 * (j - 1) + 8));
        assert(s.skip(1)[j - 1] == s[j]);
    }
}

/// Each 8-byte chunk of a handle-list image is the image of its handle.
pub proof fn lemma_handle_words_bytes_index(s: Seq<u64>, j: int)
    requires
        0 <= j < s.len(),
    ensures
        handle_words_bytes(s).subrange(8 * j, 8 * j + 8) == le_bytes(s[j] as nat, 8),
    decreases s.len(),
{
    lemma_handle_words_bytes_len(s);
    lemma_le_bytes_len(s[0] as nat, 8);
    if j == 0 {
        assert(handle_words_bytes(s).subrange(0, 8) =~= le_bytes(s[0] as nat, 8));
    } else {
        lemma_handle_words_bytes_len(s.skip(1));
        lemma_handle_words_bytes_index(s.skip(1), j - 1);
        assert(handle_words_bytes(s).subrange(8 * j, 8 * j + 8) =~= handle_words_bytes(
            s.skip(1),
        ).subrange(8 * (j - 1), 8 * (j - 1) + 8));
        assert(s.skip(1)[j - 1] == s[j]);
    }
}

pub proof fn lemma_prop_words_bytes_snoc(s: Seq<i64>, w: i64)
    ensures
        prop_words_bytes(s.push(w)) == prop_words_bytes(s) + le_bytes(w as nat, 8),
    decreases s.len(),
{
    lemma_le_bytes_len(w as nat, 8);
    if s.len() == 0 {
        let p = s.push(w);
        assert(p.len() == 1);
        assert(p[0] == w);
        assert(p.skip(1) =~= Seq::<i64>::empty());
        assert(prop_words_bytes(p.skip(1)) =~= Seq::<u8>::empty());
        assert(prop_words_bytes(p) == le_bytes(p[0] as nat, 8) + prop_words_bytes(p.skip(1)));
        assert(prop_words_bytes(s.push(w)) =~= prop_words_bytes(s) + le_bytes(w as nat, 8));
    } else {
        assert(s.push(w)[0] == s[0]);
        lemma_le_bytes_len(s[0] as nat, 8);
        lemma_prop_words_bytes_len(s.skip(1));
        assert(s.push(w).skip(1) =~= s.skip(1).push(w));
        lemma_prop_words_bytes_snoc(s.skip(1), w);
        lemma_prop_words_bytes_len(s.skip(1).push(w));
        assert(prop_words_bytes(s.push(w)) =~= prop_words_bytes(s) + le_bytes(w as nat, 8));
    }
}

pub proof fn lemma_handle_words_bytes_snoc(s: Seq<u64>, w: u64)
    ensures
        handle_words_bytes(s.push(w)) == handle_words_bytes(s) + le_bytes(w as nat, 8),
    decreases s.len(),
{
    lemma_le_bytes_len(w as nat, 8);
    if s.len() == 0 {
        let p = s.push(w);
        assert(p.len() == 1);
        assert(p[0] == w);
        assert(p.skip(1) =~= Seq::<u64>::empty());
        assert(handle_words_bytes(p.skip(1)) =~= Seq::<u8>::empty());
        assert(handle_words_bytes(p) == le_bytes(p[0] as nat, 8) + handle_words_bytes(p.skip(1)));
        assert(handle_words_bytes(s.push(w)) =~= handle_words_bytes(s) + le_bytes(w as nat, 8));
    } else {
        assert(s.push(w)[0] == s[0]);
        lemma_le_bytes_len(s[0] as nat, 8);
        lemma_handle_words_bytes_len(s.skip(1));
        assert(s.push(w).skip(1) =~= s.skip(1).push(w));
        lemma_handle_words_bytes_snoc(s.skip(1), w);
        lemma_handle_words_bytes_len(s.skip(1).push(w));
        assert(handle_words_bytes(s.push(w)) =~= handle_words_bytes(s) + le_bytes(w as nat, 8));
    }
}

/// Encode a list of non-negative signed property words, 8 bytes each.
pub fn encode_prop_words(s: &Vec<i64>) -> (r: Vec<u8>)
    requires
        forall|i: int| 0 <= i < s@.len() ==> s@[i] >= 0,
    ensures
        r@ == prop_words_bytes(s@),
{
    let n: usize = s.len();
    let mut r: Vec<u8> = Vec::new();
    let mut i: usize = 0;
    while i < n
        invariant
            i <= n,
            n == s@.len(),
            forall|k: int| 0 <= k < n ==> s@[k] >= 0,
            r@ == prop_words_bytes(s@.take(i as int)),
        decreases n - i,
    {
        let w = s[i];
        append_le(&mut r, w as u64, 8);
        proof {
            assert(s@.take(i + 1) =~= s@.take(i as int).push(s@[i as int]));
            lemma_prop_words_bytes_snoc(s@.take(i as int), s@[i as int]);
        }
        i = i + 1;
    }
    proof {
        assert(s@.take(n as int) =~= s@);
    }
    r
}

/// Encode a list of handles, 8 bytes each.
pub fn encode_handle_words(s: &Vec<u64>) -> (r: Vec<u8>)
    ensures
        r@ == handle_words_bytes(s@),
{
    let n: usize = s.len();
    let mut r: Vec<u8> = Vec::new();
    let mut i: usize = 0;
    while i < n
        invariant
            i <= n,
            n == s@.len(),
            r@ == handle_words_bytes(s@.take(i as int)),
        decreases n - i,
    {
        let w = s[i];
        append_le(&mut r, w, 8);
        proof {
            assert(s@.take(i + 1) =~= s@.take(i as int).push(s@[i as int]));
            lemma_handle_words_bytes_snoc(s@.take(i as int), s@[i as int]);
        }
        i = i + 1;
    }
    proof {
        assert(s@.take(n as int) =~= s@);
    }
    r
}

/// Decode a buffer of 8-byte chunks into handles.
pub fn decode_handle_words(b: &Vec<u8>) -> (r: Vec<u64>)
    requires
        b@.len() % 8 == 0,
    ensures
        r@.len() * 8 == b@.len(),
        forall|j: int|
            0 <= j < r@.len() ==> r@[j] as nat == le_value(b@.subrange(8 * j, 8 * j + 8)),
{
    let n: usize = b.len();
    let count: usize = n / 8;
    let mut r: Vec<u64> = Vec::new();
    let mut j: usize = 0;
    while j < count
        invariant
            j <= count,
            count * 8 == n,
            n == b@.len(),
            r@.len() == j,
            forall|k: int|
                0 <= k < j ==> r@[k] as nat == le_value(b@.subrange(8 * k, 8 * k + 8)),
        decreases count - j,
    {
        let v = le_decode_range(b, 8 * j, 8);
        r.push(v);
        j = j + 1;
    }
    r
}

/// Decode a buffer of 8-byte chunks into signed property words; every chunk
/// must denote a value that fits the non-negative half of a signed word.
pub fn decode_prop_words(b: &Vec<u8>) -> (r: Vec<i64>)
    requires
        b@.len() % 8 == 0,
        forall|j: int|
            0 <= j < b@.len() / 8 ==> #[trigger] le_value(b@.subrange(8 * j, 8 * j + 8))
                < 0x8000000000000000,
    ensures
        r@.len() * 8 == b@.len(),
        forall|j: int|
            0 <= j < r@.len() ==> r@[j] as nat == le_value(b@.subrange(8 * j, 8 * j + 8)),
{
    let n: usize = b.len();
    let count: usize = n / 8;
    let mut r: Vec<i64> = Vec::new();
    let mut j: usize = 0;
    while j < count
        invariant
            j <= count,
            count * 8 == n,
            n == b@.len(),
            forall|k: int|
                0 <= k < count ==> #[trigger] le_value(b@.subrange(8 * k, 8 * k + 8))
                    < 0x8000000000000000,
            r@.len() == j,
            forall|k: int|
                0 <= k < j ==> r@[k] as nat == le_value(b@.subrange(8 * k, 8 * k + 8)),
        decreases count - j,
    {
        let v = le_decode_range(b, 8 * j, 8);
        r.push(v as i64);
        j = j + 1;
    }
    r
}

/// The 8-byte chunks of a buffer, each read as a signed property word.
pub open spec fn spec_words_of(b: Seq<u8>) -> Seq<i64> {
    Seq::new((b.len() / 8) as nat, |j: int| le_value(b.subrange(8 * j, 8 * j + 8)) as i64)
}

/// Every 8-byte chunk denotes a value in the non-negative half of a signed
/// word.
pub open spec fn spec_words_in_range(b: Seq<u8>) -> bool {
    forall|j: int|
        0 <= j < b.len() / 8 ==> #[trigger] le_value(b.subrange(8 * j, 8 * j + 8))
            < 0x8000000000000000
}

/// Decode a buffer into signed property words, checking the length and the
/// range of every chunk.
pub fn decode_prop_words_checked(b: &Vec<u8>) -> (r: Option<Vec<i64>>)
    ensures
        r is Some <==> b@.len() % 8 == 0 && spec_words_in_range(b@),
        r is Some ==> r->Some_0@ == spec_words_of(b@),
{
    let n: usize = b.len();
    if n % 8 != 0 {
        return None;
    }
    let count: usize = n / 8;
    let mut out: Vec<i64> = Vec::new();
    let mut j: usize = 0;
    while j < count
        invariant
            j <= count,
            count * 8 == n,
            n == b@.len(),
            out@.len() == j,
            forall|k: int|
                0 <= k < j ==> #[trigger] le_value(b@.subrange(8 * k, 8 * k + 8))
                    < 0x8000000000000000,
            forall|k: int|
                0 <= k < j ==> #[trigger] out@[k] >= 0 && out@[k] as nat == le_value(
                    b@.subrange(8 * k, 8 * k + 8),
                ),
        decreases count - j,
    {
        let v = le_decode_range(b, 8 * j, 8);
        if v >= 0x8000000000000000 {
            return None;
        }
        out.push(v as i64);
        j = j + 1;
    }
    proof {
        assert forall|k: int| 0 <= k < count implies out@[k] == spec_words_of(b@)[k] by {
            assert(out@[k] >= 0);
            assert(out@[k] as nat == le_value(b@.subrange(8 * k, 8 * k + 8)));
        }
        assert(out@ =~= spec_words_of(b@));
    }
    Some(out)
}

/// The word-list image decodes back to the list.
pub proof fn lemma_prop_words_roundtrip(s: Seq<i64>)
    requires
        forall|i: int| 0 <= i < s.len() ==> s[i] >= 0,
    ensures
        prop_words_bytes(s).len() % 8 == 0,
        spec_words_in_range(prop_words_bytes(s)),
        spec_words_of(prop_words_bytes(s)) == s,
{
    let b = prop_words_bytes(s);
    lemma_prop_words_bytes_len(s);
    assert forall|j: int| 0 <= j < b.len() / 8 implies #[trigger] le_value(
        b.subrange(8 * j, 8 * j + 8),
    ) < 0x8000000000000000 && le_value(b.subrange(8 * j, 8 * j + 8)) == s[j] as nat by {
        lemma_prop_words_bytes_index(s, j);
        reveal_pow256_small();
        lemma_le_value_of_le_bytes(s[j] as nat, 8);
    }
    assert(spec_words_of(b) =~= s);
}

/// The handle-list image decodes back to the handles.
pub proof fn lemma_handle_words_roundtrip(s: Seq<u64>)
    ensures
        handle_words_bytes(s).len() % 8 == 0,
        forall|j: int|
            0 <= j < s.len() ==> #[trigger] le_value(
                handle_words_bytes(s).subrange(8 * j, 8 * j + 8),
            ) == s[j] as nat,
{
    let b = handle_words_bytes(s);
    lemma_handle_words_bytes_len(s);
    assert forall|j: int| 0 <= j < s.len() implies #[trigger] le_value(
        b.subrange(8 * j, 8 * j + 8),
    ) == s[j] as nat by {
        lemma_handle_words_bytes_index(s, j);
        reveal_pow256_small();
        lemma_le_value_of_le_bytes(s[j] as nat, 8);
    }
}

/// Copy a byte buffer.
pub fn copy_bytes(v: &Vec<u8>) -> (r: Vec<u8>)
    ensures
        r@ == v@,
{
    let n: usize = v.len();
    let mut r: Vec<u8> = Vec::new();
    let mut i: usize = 0;
    while i < n
        invariant
            i <= n,
            n == v@.len(),
            r@ == v@.take(i as int),
        decreases n - i,
    {
        r.push(v[i]);
        proof {
            assert(v@.take(i + 1) =~= v@.take(i as int).push(v@[i as int]));
        }
        i = i + 1;
    }
    proof {
        assert(v@.take(n as int) =~= v@);
    }
    r
}

/// Copy a list of signed property words.
pub fn copy_prop_words(v: &Vec<i64>) -> (r: Vec<i64>)
    ensures
        r@ == v@,
{
    let n: usize = v.len();
    let mut r: Vec<i64> = Vec::new();
    let mut i: usize = 0;
    while i < n
        invariant
            i <= n,
            n == v@.len(),
            r@ == v@.take(i as int),
        decreases n - i,
    {
        r.push(v[i]);
        proof {
            assert(v@.take(i + 1) =~= v@.take(i as int).push(v@[i as int]));
        }
        i = i + 1;
    }
    proof {
        assert(v@.take(n as int) =~= v@);
    }
    r
}

/// Copy a list of handles.
pub fn copy_handles(v: &Vec<u64>) -> (r: Vec<u64>)
    ensures
        r@ == v@,
{
    let n: usize = v.len();
    let mut r: Vec<u64> = Vec::new();
    let mut i: usize = 0;
    while i < n
        invariant
            i <= n,
            n == v@.len(),
            r@ == v@.take(i as int),
        decreases n - i,
    {
        r.push(v[i]);
        proof {
            assert(v@.take(i + 1) =~= v@.take(i as int).push(v@[i as int]));
        }
        i = i + 1;
    }
    proof {
        assert(v@.take(n as int) =~= v@);
    }
    r
}

/// The all-zero image of zero.
pub proof fn lemma_le_bytes_zero(w: nat)
    ensures
        forall|j: int| 0 <= j < le_bytes(0, w).len() ==> le_bytes(0, w)[j] == 0,
    decreases w,
{
    if w > 0 {
        lemma_le_bytes_zero((w - 1) as nat);
        assert(forall|j: int|
            1 <= j < le_bytes(0, w).len() ==> le_bytes(0, w)[j] == le_bytes(
                0,
                (w - 1) as nat,
            )[j - 1]);
    }
}

/// True when every byte is seven-bit.
pub open spec fn is_ascii_bytes(b: Seq<u8>) -> bool {
    forall|i: int| 0 <= i < b.len() ==> b[i] < 128
}

/// True when every byte is seven-bit and none is the null terminator:
/// native strings are C strings, so no stored text may hold a zero byte.
pub open spec fn is_text_bytes(b: Seq<u8>) -> bool {
    &&& is_ascii_bytes(b)
    &&& forall|i: int| 0 <= i < b.len() ==> b[i] != 0
}

/// The character sequence a seven-bit byte sequence spells.
pub open spec fn ascii_chars(b: Seq<u8>) -> Seq<char> {
    b.map_values(|c: u8| c as char)
}

/// Check that every byte of `b` is seven-bit and non-null.
pub fn check_text(b: &Vec<u8>) -> (r: bool)
    ensures
        r == is_text_bytes(b@),
{
    let mut i: usize = 0;
    let n: usize = b.len();
    while i < n
        invariant
            i <= n,
            n == b@.len(),
            forall|j: int| 0 <= j < i ==> 0 < #[trigger] b@[j] < 128,
        decreases n - i,
    {
        if b[i] >= 128 || b[i] == 0 {
            return false;
        }
        i = i + 1;
    }
    true
}

/// Check that every byte of `b` is seven-bit.
pub fn check_ascii(b: &Vec<u8>) -> (r: bool)
    ensures
        r == is_ascii_bytes(b@),
{
    let mut i: usize = 0;
    while i < b.len()
        invariant
            i <= b@.len(),
            forall|j: int| 0 <= j < i ==> b@[j] < 128,
        decreases b@.len() - i,
    {
        if b[i] >= 128 {
            return false;
        }
        i = i + 1;
    }
    true
}

} // verus!
