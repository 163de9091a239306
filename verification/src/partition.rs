//! Device partition descriptors: the three splitting strategies, their
//! native tagged-list encoding, the decoding of such a list back into a
//! descriptor, and the capability set that gates them.
//!
//! The native form of a descriptor is a list of signed words: a strategy tag,
//! its parameters, and a terminating zero; the by-counts strategy closes its
//! counts with an extra end-of-counts sentinel before the zero.

use vstd::prelude::*;
use crate::codes::{
    CL_DEVICE_PARTITION_EQUALLY, CL_DEVICE_PARTITION_BY_COUNTS,
    CL_DEVICE_PARTITION_BY_COUNTS_LIST_END, CL_DEVICE_PARTITION_BY_AFFINITY_DOMAIN,
    CL_DEVICE_AFFINITY_DOMAIN_NUMA, CL_DEVICE_AFFINITY_DOMAIN_L4_CACHE,
    CL_DEVICE_AFFINITY_DOMAIN_L3_CACHE, CL_DEVICE_AFFINITY_DOMAIN_L2_CACHE,
    CL_DEVICE_AFFINITY_DOMAIN_L1_CACHE, CL_DEVICE_AFFINITY_DOMAIN_NEXT_PARTITIONABLE,
};

verus! {

/// High-level bitfield over the cache-affinity domain bits.
#[derive(Clone, Copy, Debug, PartialEq, Eq, Hash, Structural)]
pub struct AffinityDomain {
    /// The raw affinity-domain bits.
    pub bitfield: u64,
}

impl AffinityDomain {
    /// Return a zeroed bitfield.
    pub fn new() -> (r: Self)
        ensures
            r.bitfield == 0,
    {
        AffinityDomain { bitfield: 0 }
    }

    /// Return `true` if the `numa` bit is set.
    pub fn numa(&self) -> (r: bool)
        ensures
            r == (self.bitfield & CL_DEVICE_AFFINITY_DOMAIN_NUMA
                == CL_DEVICE_AFFINITY_DOMAIN_NUMA),
    {
        self.bitfield & CL_DEVICE_AFFINITY_DOMAIN_NUMA == CL_DEVICE_AFFINITY_DOMAIN_NUMA
    }

    /// Return `true` if the `l4_cache` bit is set.
    pub fn l4_cache(&self) -> (r: bool)
        ensures
            r == (self.bitfield & CL_DEVICE_AFFINITY_DOMAIN_L4_CACHE
                == CL_DEVICE_AFFINITY_DOMAIN_L4_CACHE),
    {
        self.bitfield & CL_DEVICE_AFFINITY_DOMAIN_L4_CACHE == CL_DEVICE_AFFINITY_DOMAIN_L4_CACHE
    }

    /// Return `true` if the `l3_cache` bit is set.
    pub fn l3_cache(&self) -> (r: bool)
        ensures
            r == (self.bitfield & CL_DEVICE_AFFINITY_DOMAIN_L3_CACHE
                == CL_DEVICE_AFFINITY_DOMAIN_L3_CACHE),
    {
        self.bitfield & CL_DEVICE_AFFINITY_DOMAIN_L3_CACHE == CL_DEVICE_AFFINITY_DOMAIN_L3_CACHE
    }

    /// Return `true` if the `l2_cache` bit is set.
    pub fn l2_cache(&self) -> (r: bool)
        ensures
            r == (self.bitfield & CL_DEVICE_AFFINITY_DOMAIN_L2_CACHE
                == CL_DEVICE_AFFINITY_DOMAIN_L2_CACHE),
    {
        self.bitfield & CL_DEVICE_AFFINITY_DOMAIN_L2_CACHE == CL_DEVICE_AFFINITY_DOMAIN_L2_CACHE
    }

    /// Return `true` if the `l1_cache` bit is set.
    pub fn l1_cache(&self) -> (r: bool)
        ensures
            r == (self.bitfield & CL_DEVICE_AFFINITY_DOMAIN_L1_CACHE
                == CL_DEVICE_AFFINITY_DOMAIN_L1_CACHE),
    {
        self.bitfield & CL_DEVICE_AFFINITY_DOMAIN_L1_CACHE == CL_DEVICE_AFFINITY_DOMAIN_L1_CACHE
    }

    /// Return `true` if the `next_partitionable` bit is set.
    pub fn next_partitionable(&self) -> (r: bool)
        ensures
            r == (self.bitfield & CL_DEVICE_AFFINITY_DOMAIN_NEXT_PARTITIONABLE
                == CL_DEVICE_AFFINITY_DOMAIN_NEXT_PARTITIONABLE),
    {
        self.bitfield & CL_DEVICE_AFFINITY_DOMAIN_NEXT_PARTITIONABLE
            == CL_DEVICE_AFFINITY_DOMAIN_NEXT_PARTITIONABLE
    }
}

/// Builder pattern struct for `AffinityDomain`.
#[derive(Clone, Copy, Debug, PartialEq, Eq, Structural)]
pub struct AffinityDomainBuilder {
    /// The bits set so far.
    pub bitfield: u64,
}

impl AffinityDomainBuilder {
    /// Initialize the builder with a zeroed bitfield.
    pub fn new() -> (r: Self)
        ensures
            r.bitfield == 0,
    {
        AffinityDomainBuilder { bitfield: 0 }
    }

    /// Set the `numa` bit.
    pub fn numa(self) -> (r: Self)
        ensures
            r.bitfield == self.bitfield | CL_DEVICE_AFFINITY_DOMAIN_NUMA,
    {
        AffinityDomainBuilder { bitfield: self.bitfield | CL_DEVICE_AFFINITY_DOMAIN_NUMA }
    }

    /// Set the `l4_cache` bit.
    pub fn l4_cache(self) -> (r: Self)
        ensures
            r.bitfield == self.bitfield | CL_DEVICE_AFFINITY_DOMAIN_L4_CACHE,
    {
        AffinityDomainBuilder { bitfield: self.bitfield | CL_DEVICE_AFFINITY_DOMAIN_L4_CACHE }
    }

    /// Set the `l3_cache` bit.
    pub fn l3_cache(self) -> (r: Self)
        ensures
            r.bitfield == self.bitfield | CL_DEVICE_AFFINITY_DOMAIN_L3_CACHE,
    {
        AffinityDomainBuilder { bitfield: self.bitfield | CL_DEVICE_AFFINITY_DOMAIN_L3_CACHE }
    }

    /// Set the `l2_cache` bit.
    pub fn l2_cache(self) -> (r: Self)
        ensures
            r.bitfield == self.bitfield | CL_DEVICE_AFFINITY_DOMAIN_L2_CACHE,
    {
        AffinityDomainBuilder { bitfield: self.bitfield | CL_DEVICE_AFFINITY_DOMAIN_L2_CACHE }
    }

    /// Set the `l1_cache` bit.
    pub fn l1_cache(self) -> (r: Self)
        ensures
            r.bitfield == self.bitfield | CL_DEVICE_AFFINITY_DOMAIN_L1_CACHE,
    {
        AffinityDomainBuilder { bitfield: self.bitfield | CL_DEVICE_AFFINITY_DOMAIN_L1_CACHE }
    }

    /// Set the `next_partitionable` bit.
    pub fn next_partitionable(self) -> (r: Self)
        ensures
            r.bitfield == self.bitfield | CL_DEVICE_AFFINITY_DOMAIN_NEXT_PARTITIONABLE,
    {
        AffinityDomainBuilder {
            bitfield: self.bitfield | CL_DEVICE_AFFINITY_DOMAIN_NEXT_PARTITIONABLE,
        }
    }

    /// Output an `AffinityDomain` bitfield.
    pub fn finish(self) -> (r: AffinityDomain)
        ensures
            r.bitfield == self.bitfield,
    {
        AffinityDomain { bitfield: self.bitfield }
    }
}

/// Enum indicating the partition type for partitioning a device into
/// sub-devices.
#[derive(Debug, Clone, PartialEq, Eq)]
pub enum PartitionType {
    /// Partition the device into equal sub-devices with `n` compute units.
    Equally(i64),
    /// `ByCounts(counts)`: for each non-zero count `m` in `counts`, create a
    /// sub-device with `m` compute units.
    ByCounts(Vec<i64>),
    /// `ByAffinityDomain(affinity)`: split the device into smaller aggregate
    /// devices whose compute units share the part of the cache hierarchy
    /// named by the `affinity` bitfield.
    ByAffinityDomain(AffinityDomain),
}

/// The mathematical image of a [`PartitionType`].
pub enum PartitionShape {
    /// Image of `PartitionType::Equally`.
    Equally(i64),
    /// Image of `PartitionType::ByCounts`.
    ByCounts(Seq<i64>),
    /// Image of `PartitionType::ByAffinityDomain`.
    ByAffinityDomain(u64),
}

impl View for PartitionType {
    type V = PartitionShape;

    open spec fn view(&self) -> PartitionShape {
        match self {
            PartitionType::Equally(n) => PartitionShape::Equally(*n),
            PartitionType::ByCounts(c) => PartitionShape::ByCounts(c@),
            PartitionType::ByAffinityDomain(a) => PartitionShape::ByAffinityDomain(a.bitfield),
        }
    }
}

/// A well-formed descriptor: counts are non-zero and the affinity bits fit a
/// signed property word.
pub open spec fn shape_wf(s: PartitionShape) -> bool {
    match s {
        PartitionShape::Equally(n) => true,
        PartitionShape::ByCounts(c) => forall|i: int| 0 <= i < c.len() ==> c[i] != 0,
        PartitionShape::ByAffinityDomain(bits) => bits < 0x8000000000000000,
    }
}

/// The native tagged-list form of a descriptor.
pub open spec fn spec_encode_partition(s: PartitionShape) -> Seq<i64> {
    match s {
        PartitionShape::Equally(n) => seq![CL_DEVICE_PARTITION_EQUALLY, n, 0i64],
        PartitionShape::ByCounts(c) => seq![CL_DEVICE_PARTITION_BY_COUNTS] + c + seq![
            CL_DEVICE_PARTITION_BY_COUNTS_LIST_END,
            0i64,
        ],
        PartitionShape::ByAffinityDomain(bits) => seq![
            CL_DEVICE_PARTITION_BY_AFFINITY_DOMAIN,
            bits as i64,
            0i64,
        ],
    }
}

/// Read a native tagged list back into a descriptor.
///
/// The outer `None` is a malformed list (a stale tag table relative to the
/// native layer); the inner `None` is a device that was never partitioned
/// (an empty list or a single trailing zero).
pub open spec fn spec_decode_partition(p: Seq<i64>) -> Option<Option<PartitionShape>> {
    if p.len() <= 1 {
        Some(None)
    } else if p.len() < 3 {
        None
    } else {
        let body = p.take(p.len() - 1);
        if body[0] == CL_DEVICE_PARTITION_EQUALLY {
            Some(Some(PartitionShape::Equally(body[1])))
        } else if body[0] == CL_DEVICE_PARTITION_BY_COUNTS {
            Some(Some(PartitionShape::ByCounts(body.take(body.len() - 1).skip(1))))
        } else if body[0] == CL_DEVICE_PARTITION_BY_AFFINITY_DOMAIN {
            Some(Some(PartitionShape::ByAffinityDomain(body[1] as u64)))
        } else {
            None
        }
    }
}

/// The image of an executable decode result.
pub open spec fn decoded_view(r: Option<Option<PartitionType>>) -> Option<Option<PartitionShape>> {
    match r {
        Option::None => Option::None,
        Option::Some(inner) => match inner {
            Option::None => Option::Some(Option::None),
            Option::Some(p) => Option::Some(Option::Some(p@)),
        },
    }
}

/// Encoding a descriptor and reading it back yields the descriptor: the
/// native tagged-list form loses nothing, for all three strategies.
pub proof fn lemma_partition_round_trip(s: PartitionShape)
    requires
        shape_wf(s),
    ensures
        spec_decode_partition(spec_encode_partition(s)) == Some(Some(s)),
{
    let p = spec_encode_partition(s);
    match s {
        PartitionShape::Equally(n) => {
            assert(p.len() == 3);
            assert(p.take(2)[0] == CL_DEVICE_PARTITION_EQUALLY);
            assert(p.take(2)[1] == n);
        },
        PartitionShape::ByCounts(c) => {
            assert(p.len() == c.len() + 3);
            let body = p.take(p.len() - 1);
            assert(body[0] == CL_DEVICE_PARTITION_BY_COUNTS);
            assert(body.take(body.len() - 1).skip(1) =~= c);
        },
        PartitionShape::ByAffinityDomain(bits) => {
            assert(p.len() == 3);
            assert(p.take(2)[0] == CL_DEVICE_PARTITION_BY_AFFINITY_DOMAIN);
            assert(p.take(2)[1] == bits as i64);
            assert((bits as i64) as u64 == bits);
        },
    }
}

/// Type indicating which partition strategies a device supports.
#[derive(Debug, Clone, Copy, PartialEq, Eq, Hash, Structural)]
pub struct PartitionProperties {
    /// The device supports splitting into equal parts.
    pub equally: bool,
    /// The device supports splitting by explicit counts.
    pub by_counts: bool,
    /// The device supports splitting by cache-affinity domain.
    pub by_affinity_domain: bool,
}

impl PartitionProperties {
    /// Gather the supported strategies from the native capability word list.
    pub fn from_list(words: &Vec<i64>) -> (r: PartitionProperties)
        ensures
            r.equally == words@.contains(CL_DEVICE_PARTITION_EQUALLY),
            r.by_counts == words@.contains(CL_DEVICE_PARTITION_BY_COUNTS),
            r.by_affinity_domain == words@.contains(CL_DEVICE_PARTITION_BY_AFFINITY_DOMAIN),
    {
        let n: usize = words.len();
        let mut equally: bool = false;
        let mut by_counts: bool = false;
        let mut by_affinity_domain: bool = false;
        let mut i: usize = 0;
        while i < n
            invariant
                i <= n,
                n == words@.len(),
                equally == words@.take(i as int).contains(CL_DEVICE_PARTITION_EQUALLY),
                by_counts == words@.take(i as int).contains(CL_DEVICE_PARTITION_BY_COUNTS),
                by_affinity_domain == words@.take(i as int).contains(
                    CL_DEVICE_PARTITION_BY_AFFINITY_DOMAIN,
                ),
            decreases n - i,
        {
            let w = words[i];
            proof {
                let t1 = words@.take(i + 1);
                let t0 = words@.take(i as int);
                assert forall|x: i64| t1.contains(x) implies t0.contains(x) || words@[i as int]
                    == x by {
                    let k = choose|k: int| 0 <= k < t1.len() && t1[k] == x;
                    if k < i {
                        assert(t0[k] == x);
                    }
                };
                assert forall|x: i64| t0.contains(x) implies t1.contains(x) by {
                    let k = choose|k: int| 0 <= k < t0.len() && t0[k] == x;
                    assert(t1[k] == x);
                };
                assert(t1[i as int] == words@[i as int]);
                assert(t1.contains(words@[i as int]));
            }
            equally = equally || w == CL_DEVICE_PARTITION_EQUALLY;
            by_counts = by_counts || w == CL_DEVICE_PARTITION_BY_COUNTS;
            by_affinity_domain = by_affinity_domain || w == CL_DEVICE_PARTITION_BY_AFFINITY_DOMAIN;
            i = i + 1;
        }
        proof {
            assert(words@.take(n as int) =~= words@);
        }
        PartitionProperties { equally, by_counts, by_affinity_domain }
    }

    /// Return `true` if the device supports splitting into equal parts.
    pub fn support_partition_equally(&self) -> (r: bool)
        ensures
            r == self.equally,
    {
        self.equally
    }

    /// Return `true` if the device supports splitting by explicit counts.
    pub fn support_partition_by_counts(&self) -> (r: bool)
        ensures
            r == self.by_counts,
    {
        self.by_counts
    }

    /// Return `true` if the device supports splitting by cache-affinity
    /// domain.
    pub fn support_partition_by_affinity_domain(&self) -> (r: bool)
        ensures
            r == self.by_affinity_domain,
    {
        self.by_affinity_domain
    }
}

/// Which capability flag a descriptor needs.
pub open spec fn spec_is_supported(s: PartitionShape, caps: PartitionProperties) -> bool {
    match s {
        PartitionShape::Equally(_) => caps.equally,
        PartitionShape::ByCounts(_) => caps.by_counts,
        PartitionShape::ByAffinityDomain(_) => caps.by_affinity_domain,
    }
}

/// An error returned by `Device::partition`.
#[derive(PartialEq, Eq, Copy, Clone, Debug, Structural)]
pub enum PartitionError {
    /// The device does not support this partition type.
    NotSupported,
    /// The arguments following the partition were invalid.
    InvalidArguments,
    /// The device could not be further partitioned.
    Failed,
}

impl PartitionError {
    /// A short description of the error.
    pub fn describe(&self) -> (r: &'static str)
        ensures
            *self is NotSupported ==> r@ == "partition not supported"@,
            *self is InvalidArguments ==> r@ == "invalid arguments"@,
            *self is Failed ==> r@ == "partition failed"@,
    {
        match self {
            PartitionError::NotSupported => "partition not supported",
            PartitionError::InvalidArguments => "invalid arguments",
            PartitionError::Failed => "partition failed",
        }
    }
}

impl PartitionType {
    /// Encode the descriptor into its native tagged-list form.
    pub fn to_ffi(self) -> (r: Vec<i64>)
        ensures
            r@ == spec_encode_partition(self@),
    {
        let mut partition: Vec<i64> = Vec::new();
        match self {
            PartitionType::Equally(n) => {
                partition.push(CL_DEVICE_PARTITION_EQUALLY);
                partition.push(n);
            },
            PartitionType::ByCounts(counts) => {
                partition.push(CL_DEVICE_PARTITION_BY_COUNTS);
                let m: usize = counts.len();
                let mut i: usize = 0;
                while i < m
                    invariant
                        i <= m,
                        m == counts@.len(),
                        partition@ == seq![CL_DEVICE_PARTITION_BY_COUNTS] + counts@.take(i as int),
                    decreases m - i,
                {
                    partition.push(counts[i]);
                    proof {
                        assert(seq![CL_DEVICE_PARTITION_BY_COUNTS] + counts@.take(i + 1) =~= (
                        seq![CL_DEVICE_PARTITION_BY_COUNTS] + counts@.take(i as int)).push(
                            counts@[i as int],
                        ));
                    }
                    i = i + 1;
                }
                proof {
                    assert(counts@.take(m as int) =~= counts@);
                }
                partition.push(CL_DEVICE_PARTITION_BY_COUNTS_LIST_END);
            },
            PartitionType::ByAffinityDomain(affinity) => {
                partition.push(CL_DEVICE_PARTITION_BY_AFFINITY_DOMAIN);
                partition.push(affinity.bitfield as i64);
            },
        }
        partition.push(0);
        proof {
            assert(partition@ =~= spec_encode_partition(self@));
        }
        partition
    }

    /// Whether the capability set reports this descriptor's strategy as
    /// supported.
    pub fn is_supported(&self, properties: PartitionProperties) -> (r: bool)
        ensures
            r == spec_is_supported(self@, properties),
    {
        match self {
            PartitionType::Equally(_) => properties.support_partition_equally(),
            PartitionType::ByCounts(_) => properties.support_partition_by_counts(),
            PartitionType::ByAffinityDomain(_) => properties.support_partition_by_affinity_domain(),
        }
    }
}

/// Read a native tagged list back into a descriptor value.
pub fn decode_partition_list(props: &Vec<i64>) -> (r: Option<Option<PartitionType>>)
    ensures
        decoded_view(r) == spec_decode_partition(props@),
{
    let n: usize = props.len();
    if n <= 1 {
        return Some(None);
    }
    if n < 3 {
        return None;
    }
    let tag = props[0];
    if tag == CL_DEVICE_PARTITION_EQUALLY {
        Some(Some(PartitionType::Equally(props[1])))
    } else if tag == CL_DEVICE_PARTITION_BY_COUNTS {
        let mut counts: Vec<i64> = Vec::new();
        let mut i: usize = 1;
        while i < n - 2
            invariant
                1 <= i <= n - 2,
                3 <= n == props@.len(),
                counts@ == props@.subrange(1, i as int),
            decreases n - i,
        {
            counts.push(props[i]);
            proof {
                assert(props@.subrange(1, i + 1) =~= props@.subrange(1, i as int).push(
                    props@[i as int],
                ));
            }
            i = i + 1;
        }
        proof {
            let body = props@.take(n - 1);
            assert(body.take(body.len() - 1).skip(1) =~= props@.subrange(1, n - 2));
        }
        Some(Some(PartitionType::ByCounts(counts)))
    } else if tag == CL_DEVICE_PARTITION_BY_AFFINITY_DOMAIN {
        Some(Some(PartitionType::ByAffinityDomain(AffinityDomain { bitfield: props[1] as u64 })))
    } else {
        None
    }
}

} // verus!
