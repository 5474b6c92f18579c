//! The cluster-slot strategy: each KV entry goes to the sink bound to its
//! keys' slot; an entry whose keys hash to different slots is rejected;
//! an entry with no key fans out to every sink exactly once.

use vstd::prelude::*;
use vstd::string::StringExecFns;

use crate::dt_data::{DtData, DtItem, RedisEntry};
use crate::error::Error;
use crate::row_data::{assoc_index_of, string_eq_str};

verus! {

pub struct RedisParallelizer {
    pub parallel_size: usize,
    pub slot_node_map: Vec<(u16, String)>,
    pub node_sinker_index_map: Vec<(String, usize)>,
}

/// The first index holding slot `s`, or the length.
pub open spec fn slot_index_of(entries: Seq<(u16, String)>, s: u16) -> int
    decreases entries.len(),
{
    if entries.len() == 0 {
        0
    } else if entries[0].0 == s {
        0
    } else {
        1 + slot_index_of(entries.drop_first(), s)
    }
}

pub proof fn lemma_slot_index_of(entries: Seq<(u16, String)>, s: u16)
    ensures
        0 <= slot_index_of(entries, s) <= entries.len(),
        slot_index_of(entries, s) < entries.len() ==> entries[slot_index_of(entries, s)].0 == s,
        forall|i: int| 0 <= i < slot_index_of(entries, s) ==> (#[trigger] entries[i]).0 != s,
    decreases entries.len(),
{
    if entries.len() > 0 && entries[0].0 != s {
        lemma_slot_index_of(entries.drop_first(), s);
        assert(forall|i: int|
            1 <= i < entries.len() ==> #[trigger] entries[i] == entries.drop_first()[i - 1]);
    }
}

impl RedisParallelizer {
    /// Do all slots of the entry agree?
    pub open spec fn slots_uniform(entry: RedisEntry) -> bool {
        forall|i: int| 0 <= i < entry.slots@.len() ==> #[trigger] entry.slots@[i] == entry.slots@[0]
    }

    /// The first item whose KV entry has keys on different slots, or the
    /// length.
    pub open spec fn first_mixed_index(data: Seq<DtItem>, i: int) -> int
        decreases data.len() - i,
    {
        if i < 0 || i >= data.len() {
            data.len() as int
        } else {
            match data[i].dt_data {
                DtData::Redis { entry } => if !Self::slots_uniform(entry) {
                    i
                } else {
                    Self::first_mixed_index(data, i + 1)
                },
                _ => Self::first_mixed_index(data, i + 1),
            }
        }
    }

    proof fn lemma_first_mixed_index(data: Seq<DtItem>, i: int)
        requires
            0 <= i < data.len(),
            match data[i].dt_data {
                DtData::Redis { entry } => !Self::slots_uniform(entry),
                _ => false,
            },
            forall|q: int|
                0 <= q < i ==> match (#[trigger] data[q]).dt_data {
                    DtData::Redis { entry } => Self::slots_uniform(entry),
                    _ => true,
                },
        ensures
            Self::first_mixed_index(data, 0) == i,
    {
        Self::lemma_first_mixed_from(data, 0, i);
    }

    proof fn lemma_first_mixed_from(data: Seq<DtItem>, j: int, i: int)
        requires
            0 <= j <= i < data.len(),
            match data[i].dt_data {
                DtData::Redis { entry } => !Self::slots_uniform(entry),
                _ => false,
            },
            forall|q: int|
                j <= q < i ==> match (#[trigger] data[q]).dt_data {
                    DtData::Redis { entry } => Self::slots_uniform(entry),
                    _ => true,
                },
        ensures
            Self::first_mixed_index(data, j) == i,
        decreases i - j,
    {
        if j < i {
            Self::lemma_first_mixed_from(data, j + 1, i);
        }
    }

    /// What a mixed-slot entry fails the batch with.
    pub open spec fn mixed_slot_error(data: Seq<DtItem>, e: Error) -> bool {
        let fm = Self::first_mixed_index(data, 0);
        &&& fm < data.len()
        &&& match data[fm].dt_data {
            DtData::Redis { entry } => match e {
                Error::RedisCmdError(m) => m@ == "multi keys don't hash to the same slot, cmd: "@
                    + entry.cmd@,
                _ => false,
            },
            _ => false,
        }
    }

    /// The slot map and sink map resolve this entry's slot to a sink
    /// below `n`.
    pub open spec fn entry_resolvable(&self, entry: RedisEntry, n: int) -> bool {
        entry.slots@.len() > 0 ==> {
            let si = slot_index_of(self.slot_node_map@, entry.slots@[0]);
            &&& si < self.slot_node_map@.len()
            &&& {
                let ni = assoc_index_of(
                    self.node_sinker_index_map@,
                    self.slot_node_map@[si].1@,
                );
                &&& ni < self.node_sinker_index_map@.len()
                &&& self.node_sinker_index_map@[ni].1 < n
            }
        }
    }

    /// The sink an entry goes to: `None` fans out to every sink.
    pub open spec fn entry_bucket(&self, entry: RedisEntry) -> Option<int> {
        if entry.slots@.len() == 0 {
            Option::None
        } else {
            let node = self.slot_node_map@[slot_index_of(self.slot_node_map@, entry.slots@[0])].1;
            Option::Some(
                self.node_sinker_index_map@[assoc_index_of(
                    self.node_sinker_index_map@,
                    node@,
                )].1 as int,
            )
        }
    }

    /// The item indices bucket `b` receives from the first `i` items.
    pub open spec fn dispatch_prefix(&self, data: Seq<DtItem>, b: int, i: int) -> Seq<int>
        decreases i,
    {
        if i <= 0 || i > data.len() {
            Seq::<int>::empty()
        } else {
            let rest = self.dispatch_prefix(data, b, i - 1);
            match data[i - 1].dt_data {
                DtData::Redis { entry } => {
                    match self.entry_bucket(entry) {
                        Option::Some(bb) => if bb == b {
                            rest.push(i - 1)
                        } else {
                            rest
                        },
                        Option::None => rest.push(i - 1),
                    }
                },
                _ => rest,
            }
        }
    }

    /// Fan the KV entries of a batch out to the sinks: an entry goes to
    /// the sink its slot's node is bound to, an entry with no key to
    /// every sink; an entry whose keys hash to different slots fails the
    /// batch. Buckets hold item indices in input order.
    pub fn dispatch(&self, data: &Vec<DtItem>, n_sinkers: usize) -> (r: Result<
        Vec<Vec<usize>>,
        Error,
    >)
        requires
            forall|i: int|
                0 <= i < data@.len() ==> match (#[trigger] data@[i]).dt_data {
                    DtData::Redis { entry } => self.entry_resolvable(entry, n_sinkers as int),
                    _ => true,
                },
        ensures
            match r {
                Ok(buckets) => {
                    &&& buckets@.len() == n_sinkers
                    &&& forall|b: int|
                        0 <= b < n_sinkers ==> (#[trigger] buckets@[b])@.map_values(
                            |x: usize| x as int,
                        ) == self.dispatch_prefix(data@, b, data@.len() as int)
                    &&& forall|i: int|
                        0 <= i < data@.len() ==> match (#[trigger] data@[i]).dt_data {
                            DtData::Redis { entry } => Self::slots_uniform(entry),
                            _ => true,
                        }
                },
                Err(e) => Self::mixed_slot_error(data@, e),
            },
    {
        let mut b: usize = 0;
        let mut buckets: Vec<Vec<usize>> = Vec::new();
        while b < n_sinkers
            invariant
                b <= n_sinkers,
                buckets@.len() == b,
                forall|k: int|
                    0 <= k < b ==> (#[trigger] buckets@[k])@.map_values(|x: usize| x as int)
                        == self.dispatch_prefix(data@, k, 0),
            decreases n_sinkers - b,
        {
            let v: Vec<usize> = Vec::new();
            proof {
                assert(v@.map_values(|x: usize| x as int) =~= self.dispatch_prefix(
                    data@,
                    b as int,
                    0,
                ));
            }
            buckets.push(v);
            b = b + 1;
        }
        let mut b2: usize = 0;
        let mut out: Vec<Vec<usize>> = Vec::new();
        while b2 < n_sinkers
            invariant
                b2 <= n_sinkers,
                out@.len() == b2,
                forall|i: int|
                    0 <= i < data@.len() ==> match (#[trigger] data@[i]).dt_data {
                        DtData::Redis { entry } => self.entry_resolvable(entry, n_sinkers as int),
                        _ => true,
                    },
                forall|k: int|
                    0 <= k < b2 ==> (#[trigger] out@[k])@.map_values(|x: usize| x as int)
                        == self.dispatch_prefix(data@, k, data@.len() as int),
                b2 > 0 ==> forall|i: int|
                    0 <= i < data@.len() ==> match (#[trigger] data@[i]).dt_data {
                        DtData::Redis { entry } => Self::slots_uniform(entry),
                        _ => true,
                    },
            decreases n_sinkers - b2,
        {
            match self.bucket_items(data, b2, n_sinkers) {
                Ok(items) => {
                    out.push(items);
                }
                Err(e) => {
                    return Err(e);
                }
            }
            b2 = b2 + 1;
        }
        if n_sinkers == 0 {
            // Even with no sinks, an entry with mixed slots must still
            // fail the batch: scan once for the check.
            match self.bucket_items(data, 0, 0) {
                Ok(_) => {}
                Err(e) => {
                    return Err(e);
                }
            }
        }
        Ok(out)
    }

    /// The whole decision of one `sink_raw` call: with no slot map the
    /// batch goes serially to the first sink as one bucket; otherwise
    /// every entry is routed by its slot.
    pub fn sink_raw_plan(&self, data: &Vec<DtItem>, n_sinkers: usize) -> (r: Result<
        Vec<Vec<usize>>,
        Error,
    >)
        requires
            self.slot_node_map@.len() > 0 ==> forall|i: int|
                0 <= i < data@.len() ==> match (#[trigger] data@[i]).dt_data {
                    DtData::Redis { entry } => self.entry_resolvable(entry, n_sinkers as int),
                    _ => true,
                },
        ensures
            self.slot_node_map@.len() == 0 ==> match r {
                Ok(buckets) => buckets@.len() == 1 && buckets@[0]@.map_values(|x: usize| x as int)
                    == Seq::new(data@.len(), |i: int| i),
                Err(_) => false,
            },
            self.slot_node_map@.len() > 0 ==> match r {
                Ok(buckets) => {
                    &&& buckets@.len() == n_sinkers
                    &&& forall|b: int|
                        0 <= b < n_sinkers ==> (#[trigger] buckets@[b])@.map_values(
                            |x: usize| x as int,
                        ) == self.dispatch_prefix(data@, b, data@.len() as int)
                    &&& forall|i: int|
                        0 <= i < data@.len() ==> match (#[trigger] data@[i]).dt_data {
                            DtData::Redis { entry } => Self::slots_uniform(entry),
                            _ => true,
                        }
                },
                Err(e) => Self::mixed_slot_error(data@, e),
            },
    {
        if self.slot_node_map.len() == 0 {
            let mut all: Vec<usize> = Vec::new();
            let mut i: usize = 0;
            while i < data.len()
                invariant
                    i <= data@.len(),
                    all@.len() == i,
                    forall|k: int| 0 <= k < i ==> #[trigger] all@[k] == k as usize,
                decreases data@.len() - i,
            {
                all.push(i);
                i = i + 1;
            }
            let mut buckets: Vec<Vec<usize>> = Vec::new();
            proof {
                assert(all@.map_values(|x: usize| x as int) =~= Seq::new(
                    data@.len(),
                    |q: int| q,
                ));
            }
            buckets.push(all);
            Ok(buckets)
        } else {
            self.dispatch(data, n_sinkers)
        }
    }

    /// The items of one bucket, or the error for a mixed-slot entry.
    fn bucket_items(&self, data: &Vec<DtItem>, b: usize, n_sinkers: usize) -> (r: Result<
        Vec<usize>,
        Error,
    >)
        requires
            forall|i: int|
                0 <= i < data@.len() ==> match (#[trigger] data@[i]).dt_data {
                    DtData::Redis { entry } => self.entry_resolvable(entry, n_sinkers as int),
                    _ => true,
                },
        ensures
            match r {
                Ok(items) => {
                    &&& items@.map_values(|x: usize| x as int) == self.dispatch_prefix(
                        data@,
                        b as int,
                        data@.len() as int,
                    )
                    &&& forall|i: int|
                        0 <= i < data@.len() ==> match (#[trigger] data@[i]).dt_data {
                            DtData::Redis { entry } => Self::slots_uniform(entry),
                            _ => true,
                        }
                },
                Err(e) => Self::mixed_slot_error(data@, e),
            },
    {
        let mut items: Vec<usize> = Vec::new();
        let mut i: usize = 0;
        proof {
            assert(items@.map_values(|x: usize| x as int) =~= self.dispatch_prefix(
                data@,
                b as int,
                0,
            ));
        }
        while i < data.len()
            invariant
                i <= data@.len(),
                forall|q: int|
                    0 <= q < data@.len() ==> match (#[trigger] data@[q]).dt_data {
                        DtData::Redis { entry } => self.entry_resolvable(entry, n_sinkers as int),
                        _ => true,
                    },
                items@.map_values(|x: usize| x as int) == self.dispatch_prefix(
                    data@,
                    b as int,
                    i as int,
                ),
                forall|q: int|
                    0 <= q < i ==> match (#[trigger] data@[q]).dt_data {
                        DtData::Redis { entry } => Self::slots_uniform(entry),
                        _ => true,
                    },
            decreases data@.len() - i,
        {
            let ghost prev = items@;
            match &data[i].dt_data {
                DtData::Redis { entry } => {
                    let mut k: usize = 1;
                    while k < entry.slots.len()
                        invariant
                            1 <= k <= entry.slots@.len() || entry.slots@.len() == 0,
                            i < data@.len(),
                            data@[i as int].dt_data == (DtData::Redis { entry: *entry }),
                            forall|q: int|
                                0 <= q < i ==> match (#[trigger] data@[q]).dt_data {
                                    DtData::Redis { entry } => Self::slots_uniform(entry),
                                    _ => true,
                                },
                            forall|j: int|
                                0 <= j < k && j < entry.slots@.len() ==> #[trigger] entry.slots@[j]
                                    == entry.slots@[0],
                        decreases entry.slots@.len() - k,
                    {
                        if entry.slots[k] != entry.slots[0] {
                            let mut msg = String::new();
                            msg.append("multi keys don't hash to the same slot, cmd: ");
                            msg.append(entry.cmd.as_str());
                            proof {
                                assert(entry.slots@[k as int] != entry.slots@[0]);
                                assert(!Self::slots_uniform(*entry));
                                assert(match data@[i as int].dt_data {
                                    DtData::Redis { entry } => !Self::slots_uniform(entry),
                                    _ => false,
                                });
                                Self::lemma_first_mixed_index(data@, i as int);
                                assert(msg@ =~= "multi keys don't hash to the same slot, cmd: "@
                                    + entry.cmd@);
                            }
                            return Err(Error::RedisCmdError(msg));
                        }
                        k = k + 1;
                    }
                    proof {
                        assert(Self::slots_uniform(*entry));
                    }
                    if entry.slots.len() == 0 {
                        items.push(i);
                        proof {
                            assert(items@.map_values(|x: usize| x as int) =~= prev.map_values(
                                |x: usize| x as int,
                            ).push(i as int));
                        }
                    } else {
                        let slot = entry.slots[0];
                        let node = self.find_node(slot);
                        let idx = self.find_sinker_index(node);
                        if idx == b {
                            items.push(i);
                            proof {
                                assert(items@.map_values(|x: usize| x as int) =~= prev.map_values(
                                    |x: usize| x as int,
                                ).push(i as int));
                            }
                        }
                        proof {
                            assert(self.entry_bucket(*entry) == Option::Some(idx as int));
                        }
                    }
                }
                _ => {}
            }
            i = i + 1;
        }
        Ok(items)
    }

    /// The node bound to a slot.
    fn find_node(&self, slot: u16) -> (r: &String)
        requires
            slot_index_of(self.slot_node_map@, slot) < self.slot_node_map@.len(),
        ensures
            r == self.slot_node_map@[slot_index_of(self.slot_node_map@, slot)].1,
    {
        proof {
            lemma_slot_index_of(self.slot_node_map@, slot);
        }
        let mut i: usize = 0;
        while i < self.slot_node_map.len()
            invariant
                i <= self.slot_node_map@.len(),
                slot_index_of(self.slot_node_map@, slot) < self.slot_node_map@.len(),
                forall|k: int| 0 <= k < i ==> (#[trigger] self.slot_node_map@[k]).0 != slot,
            decreases self.slot_node_map@.len() - i,
        {
            if self.slot_node_map[i].0 == slot {
                proof {
                    lemma_slot_index_of(self.slot_node_map@, slot);
                    assert(slot_index_of(self.slot_node_map@, slot) == i as int) by {
                        if slot_index_of(self.slot_node_map@, slot) < i as int {
                            assert(self.slot_node_map@[slot_index_of(
                                self.slot_node_map@,
                                slot,
                            )].0 == slot);
                        }
                    }
                }
                return &self.slot_node_map[i].1;
            }
            i = i + 1;
        }
        proof {
            lemma_slot_index_of(self.slot_node_map@, slot);
            assert(false);
        }
        &self.slot_node_map[0].1
    }

    /// The sink index a node is bound to.
    fn find_sinker_index(&self, node: &String) -> (r: usize)
        requires
            assoc_index_of(self.node_sinker_index_map@, node@) < self.node_sinker_index_map@.len(),
        ensures
            r == self.node_sinker_index_map@[assoc_index_of(
                self.node_sinker_index_map@,
                node@,
            )].1,
    {
        proof {
            crate::row_data::lemma_assoc_index_of(self.node_sinker_index_map@, node@);
        }
        let mut i: usize = 0;
        while i < self.node_sinker_index_map.len()
            invariant
                i <= self.node_sinker_index_map@.len(),
                assoc_index_of(self.node_sinker_index_map@, node@)
                    < self.node_sinker_index_map@.len(),
                forall|k: int|
                    0 <= k < i ==> (#[trigger] self.node_sinker_index_map@[k]).0@ != node@,
            decreases self.node_sinker_index_map@.len() - i,
        {
            if string_eq_str(&self.node_sinker_index_map[i].0, node.as_str()) {
                proof {
                    crate::row_data::lemma_assoc_index_of(self.node_sinker_index_map@, node@);
                    assert(assoc_index_of(self.node_sinker_index_map@, node@) == i as int) by {
                        if assoc_index_of(self.node_sinker_index_map@, node@) < i as int {
                            assert(self.node_sinker_index_map@[assoc_index_of(
                                self.node_sinker_index_map@,
                                node@,
                            )].0@ == node@);
                        }
                    }
                }
                return self.node_sinker_index_map[i].1;
            }
            i = i + 1;
        }
        proof {
            crate::row_data::lemma_assoc_index_of(self.node_sinker_index_map@, node@);
            assert(false);
        }
        0
    }

    /// Build the sink binding from the sinks' identities, in order.
    pub fn build_node_sinker_index_map(ids: Vec<String>) -> (r: Vec<(String, usize)>)
        ensures
            r@.len() == ids@.len(),
            forall|i: int| 0 <= i < r@.len() ==> #[trigger] r@[i] == (ids@[i], i as usize),
    {
        let mut r: Vec<(String, usize)> = Vec::new();
        let mut ids = ids;
        let mut i: usize = 0;
        while i < ids.len()
            invariant
                i <= ids@.len(),
                r@.len() == i,
                forall|k: int| 0 <= k < i ==> #[trigger] r@[k] == (ids@[k], k as usize),
            decreases ids@.len() - i,
        {
            r.push((ids[i].clone(), i));
            i = i + 1;
        }
        r
    }
}

/// Two entries keyed to the same slot are dispatched to the same sink,
/// and an entry with no key is dispatched to every sink exactly once.
pub proof fn lemma_same_slot_same_sink(p: RedisParallelizer, a: RedisEntry, c: RedisEntry)
    requires
        a.slots@.len() > 0,
        c.slots@.len() > 0,
        a.slots@[0] == c.slots@[0],
    ensures
        p.entry_bucket(a) == p.entry_bucket(c),
{
}

} // verus!
