//! A probabilistic membership structure: a fixed-size bit array with `k`
//! chained hash probes per item.
//!
//! The structure shares no data with the table engine; it stores cells'
//! hashes only. Sizing the array and the probe count from a target item
//! count and false-positive rate is floating-point work left to the
//! caller. The bit array is allocated lazily by the first `add`;
//! `contains` on an untouched filter is always false.

use vstd::prelude::*;
use vstd::pervasive::VecAdditionalExecFns;
use crate::value::DataTypes;
use crate::value::ValueModel;
use crate::value::spec_words;
use crate::value::fnv_value_from;
use crate::textnum::spec_fnv_from;

verus! {

/// The hash state after feeding an item's words `i + 1` times into the
/// engine's chained hash.
pub open spec fn spec_chain(v: ValueModel, i: int) -> u64
    decreases i,
{
    if i <= 0 {
        spec_fnv_from(0xcbf29ce484222325u64, spec_words(v))
    } else {
        spec_fnv_from(spec_chain(v, i - 1), spec_words(v))
    }
}

/// The bit index the `i`-th probe of item `v` touches in an array of
/// `size` bits.
pub open spec fn spec_probe(v: ValueModel, i: u64, size: u64) -> u64 {
    (spec_chain(v, i as int) ^ i) % size
}

/// A fixed-size bit array with chained hash probes.
pub struct BloomFilter {
    size: usize,
    item_count: usize,
    hash_count: usize,
    bit_array: Vec<bool>,
}

impl BloomFilter {
    /// The number of bits.
    pub closed spec fn spec_size(&self) -> nat {
        self.size as nat
    }

    /// The item count the filter was sized for.
    pub closed spec fn spec_item_count(&self) -> nat {
        self.item_count as nat
    }

    /// The number of probes per item.
    pub closed spec fn spec_hash_count(&self) -> nat {
        self.hash_count as nat
    }

    /// The bit array (empty until the first `add`).
    pub closed spec fn spec_bits(&self) -> Seq<bool> {
        self.bit_array@
    }

    /// The filter's invariant: a positive size, and a bit array that is
    /// either still unallocated or exactly `size` bits.
    pub open spec fn wf(&self) -> bool {
        &&& self.spec_size() >= 1
        &&& (self.spec_bits().len() == 0 || self.spec_bits().len() == self.spec_size())
    }

    /// A filter over `size` bits probed `hash_count` times per item.
    /// Deriving `size` and `hash_count` from a target false-positive
    /// rate is the caller's (floating-point) business.
    pub fn new(item_count: usize, size: usize, hash_count: usize) -> (r: BloomFilter)
        requires
            size >= 1,
        ensures
            r.wf(),
            r.spec_size() == size,
            r.spec_item_count() == item_count,
            r.spec_hash_count() == hash_count,
            r.spec_bits().len() == 0,
    {
        BloomFilter { size, item_count, hash_count, bit_array: Vec::new() }
    }

    /// Sets the probe bits of `item`, allocating the array on first use;
    /// every other bit keeps its value.
    pub fn add(&mut self, item: &DataTypes)
        requires
            old(self).wf(),
        ensures
            final(self).wf(),
            final(self).spec_size() == old(self).spec_size(),
            final(self).spec_item_count() == old(self).spec_item_count(),
            final(self).spec_hash_count() == old(self).spec_hash_count(),
            final(self).spec_bits().len() == final(self).spec_size(),
            forall|b: int| 0 <= b < final(self).spec_bits().len()
                ==> final(self).spec_bits()[b] == ({
                    let before = if old(self).spec_bits().len() == 0 {
                        false
                    } else {
                        old(self).spec_bits()[b]
                    };
                    before || (exists|i: u64| i < old(self).spec_hash_count()
                        && #[trigger] spec_probe(item@, i, old(self).spec_size() as u64) == b)
                }),
    {
        let ghost base = if old(self).spec_bits().len() == 0 {
            Seq::new(old(self).spec_size(), |b: int| false)
        } else {
            old(self).spec_bits()
        };
        if self.bit_array.len() < 1 {
            let mut i: usize = 0;
            while i < self.size
                invariant
                    0 <= i <= self.size,
                    self.size == old(self).size,
                    self.item_count == old(self).item_count,
                    self.hash_count == old(self).hash_count,
                    self.bit_array@.len() == i,
                    forall|b: int| 0 <= b < i ==> #[trigger] self.bit_array@[b] == false,
                decreases self.size - i,
            {
                self.bit_array.push(false);
                i = i + 1;
            }
        }
        proof {
            assert(self.bit_array@ =~= base);
        }
        let size64: u64 = self.size as u64;
        let hc = self.hash_count;
        let mut state: u64 = 0xcbf29ce484222325u64;
        let mut i: usize = 0;
        while i < hc
            invariant
                0 <= i <= hc,
                hc == old(self).hash_count,
                self.size == old(self).size,
                self.size >= 1,
                size64 == self.size as u64,
                self.item_count == old(self).item_count,
                self.hash_count == old(self).hash_count,
                i == 0 ==> state == 0xcbf29ce484222325u64,
                i > 0 ==> state == spec_chain(item@, i - 1),
                self.bit_array@.len() == base.len(),
                base.len() == self.size,
                forall|b: int| 0 <= b < base.len() ==> #[trigger] self.bit_array@[b] == (base[b]
                    || (exists|q: u64| q < i && #[trigger] spec_probe(item@, q, size64) == b)),
            decreases hc - i,
        {
            state = fnv_value_from(state, item);
            proof {
                assert(state == spec_chain(item@, i as int));
            }
            let h: u64 = state ^ (i as u64);
            let digest: usize = (h % size64) as usize;
            proof {
                assert((h % size64) < size64);
                assert(spec_probe(item@, i as u64, size64) == digest as u64);
            }
            let ghost before = self.bit_array@;
            self.bit_array.set(digest, true);
            proof {
                assert forall|b: int| 0 <= b < base.len() implies #[trigger] self.bit_array@[b]
                    == (base[b] || (exists|q: u64| q < i + 1 && #[trigger] spec_probe(
                    item@,
                    q,
                    size64,
                ) == b)) by {
                    if b == digest {
                        assert(spec_probe(item@, i as u64, size64) == b);
                    } else {
                        assert(self.bit_array@[b] == before[b]);
                        if exists|q: u64| q < i + 1 && #[trigger] spec_probe(item@, q, size64)
                            == b {
                            let q = choose|q: u64| q < i + 1 && #[trigger] spec_probe(
                                item@,
                                q,
                                size64,
                            ) == b;
                            if q == i {
                                assert(false);
                            }
                            assert(q < i && spec_probe(item@, q, size64) == b);
                        }
                    }
                }
            }
            i = i + 1;
        }
        proof {
            assert(size64 == old(self).spec_size() as u64);
        }
    }

    /// Whether every probe bit of `item` is set; false on an untouched
    /// filter, and possibly a false positive on a used one — never a
    /// false negative for an added item.
    pub fn contains(&self, item: &DataTypes) -> (r: bool)
        requires
            self.wf(),
        ensures
            r == (self.spec_bits().len() > 0 && (forall|i: u64| i < self.spec_hash_count()
                ==> self.spec_bits()[#[trigger] spec_probe(
                item@,
                i,
                self.spec_size() as u64,
            ) as int])),
    {
        if self.bit_array.len() < 1 {
            return false;
        }
        let size64: u64 = self.size as u64;
        let hc = self.hash_count;
        let mut state: u64 = 0xcbf29ce484222325u64;
        let mut i: usize = 0;
        while i < hc
            invariant
                0 <= i <= hc,
                self.wf(),
                hc == self.spec_hash_count(),
                size64 == self.spec_size() as u64,
                size64 >= 1,
                self.spec_bits().len() == self.spec_size(),
                i == 0 ==> state == 0xcbf29ce484222325u64,
                i > 0 ==> state == spec_chain(item@, i - 1),
                forall|q: u64| q < i ==> self.spec_bits()[#[trigger] spec_probe(
                    item@,
                    q,
                    size64,
                ) as int],
            decreases hc - i,
        {
            state = fnv_value_from(state, item);
            proof {
                assert(state == spec_chain(item@, i as int));
            }
            let h: u64 = state ^ (i as u64);
            let digest: usize = (h % size64) as usize;
            proof {
                assert((h % size64) < size64);
                assert(spec_probe(item@, i as u64, size64) == digest as u64);
            }
            if !self.bit_array[digest] {
                proof {
                    assert(!self.spec_bits()[spec_probe(item@, i as u64, size64) as int]);
                }
                return false;
            }
            i = i + 1;
        }
        true
    }
}

} // verus!
