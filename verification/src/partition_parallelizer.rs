//! The row-partition strategy: drain row items up to the first
//! non-partitionable one, then fan rows out to `parallel_size` buckets by
//! key hash. Both steps yield item indices into the batch, in input
//! order, so within a bucket the source order is preserved end to end;
//! the deliveries themselves are the caller's outside work.

use vstd::prelude::*;

use crate::dt_data::{DataSize, DtData, DtItem};
use crate::row_data::RowData;

verus! {

pub struct PartitionParallelizer {
    pub parallel_size: usize,
}

/// The bucket a key hash falls in.
pub open spec fn bucket_of(hash: u64, n: int) -> int {
    hash as int % n
}

/// Which of the available items one drain takes: row items are taken
/// until (and including) the first one that cannot be partitioned when
/// running parallel, commit items are taken unconditionally, everything
/// else is dropped.
pub open spec fn drain_spec(
    items: Seq<DtItem>,
    partitionable: Seq<bool>,
    parallel: bool,
    i: int,
) -> Seq<int>
    decreases items.len() - i,
{
    if i < 0 || i >= items.len() {
        Seq::<int>::empty()
    } else {
        match items[i].dt_data {
            DtData::Dml { .. } => {
                if parallel && !partitionable[i] {
                    seq![i]
                } else {
                    seq![i] + drain_spec(items, partitionable, parallel, i + 1)
                }
            },
            DtData::Commit { .. } => seq![i] + drain_spec(items, partitionable, parallel, i + 1),
            _ => drain_spec(items, partitionable, parallel, i + 1),
        }
    }
}

/// The indices of the rows whose hash falls in bucket `b`, in order.
pub open spec fn bucket_indices(hashes: Seq<u64>, n: int, b: int) -> Seq<int> {
    Seq::new(hashes.len(), |i: int| i).filter(|i: int| bucket_of(hashes[i], n) == b)
}

/// Sum of the advisory sizes of a batch.
pub open spec fn total_data_size(data: Seq<RowData>, i: int) -> int
    decreases data.len() - i,
{
    if i < 0 || i >= data.len() {
        0
    } else {
        data[i].data_size + total_data_size(data, i + 1)
    }
}

proof fn lemma_total_data_size_nonneg(data: Seq<RowData>, i: int)
    ensures
        total_data_size(data, i) >= 0,
    decreases data.len() - i,
{
    if 0 <= i < data.len() {
        lemma_total_data_size_nonneg(data, i + 1);
    }
}

impl PartitionParallelizer {
    /// The indices of the items one drain takes, given the queued items
    /// and, for each, whether the partitioner can place it.
    pub fn drain(&self, items: &Vec<DtItem>, partitionable: &Vec<bool>) -> (r: Vec<usize>)
        requires
            partitionable@.len() == items@.len(),
        ensures
            r@.map_values(|x: usize| x as int) == drain_spec(
                items@,
                partitionable@,
                self.parallel_size > 1,
                0,
            ),
    {
        let parallel = self.parallel_size > 1;
        let mut taken: Vec<usize> = Vec::new();
        let mut i: usize = 0;
        let mut stopped = false;
        while i < items.len() && !stopped
            invariant
                i <= items@.len(),
                partitionable@.len() == items@.len(),
                parallel == (self.parallel_size > 1),
                drain_spec(items@, partitionable@, parallel, 0) == if stopped {
                    taken@.map_values(|x: usize| x as int)
                } else {
                    taken@.map_values(|x: usize| x as int) + drain_spec(
                        items@,
                        partitionable@,
                        parallel,
                        i as int,
                    )
                },
            decreases items@.len() - i,
        {
            let ghost prev = taken@;
            let item = &items[i];
            match &item.dt_data {
                DtData::Dml { .. } => {
                    if parallel && !partitionable[i] {
                        taken.push(i);
                        stopped = true;
                    } else {
                        taken.push(i);
                    }
                }
                DtData::Commit { .. } => {
                    taken.push(i);
                }
                _ => {}
            }
            proof {
                let m = |x: usize| x as int;
                if taken@ != prev {
                    assert(taken@.map_values(m) =~= prev.map_values(m).push(i as int));
                }
                if !stopped {
                    assert(prev.map_values(m) + drain_spec(
                        items@,
                        partitionable@,
                        parallel,
                        i as int,
                    ) =~= taken@.map_values(m) + drain_spec(
                        items@,
                        partitionable@,
                        parallel,
                        i + 1,
                    ));
                } else {
                    assert(prev.map_values(m) + drain_spec(
                        items@,
                        partitionable@,
                        parallel,
                        i as int,
                    ) =~= taken@.map_values(m));
                }
            }
            i = i + 1;
        }
        proof {
            if !stopped {
                assert(drain_spec(items@, partitionable@, parallel, items@.len() as int)
                    =~= Seq::<int>::empty());
                assert(taken@.map_values(|x: usize| x as int) + Seq::<int>::empty()
                    =~= taken@.map_values(|x: usize| x as int));
            }
        }
        taken
    }

    /// Fan a batch out into `parallel_size` buckets by the rows' key
    /// hashes: bucket `b` receives exactly the indices of the rows whose
    /// hash maps to `b`, in input order.
    pub fn partition(&self, hashes: &Vec<u64>) -> (r: Vec<Vec<usize>>)
        requires
            self.parallel_size > 0,
        ensures
            r@.len() == self.parallel_size,
            forall|b: int|
                0 <= b < self.parallel_size ==> (#[trigger] r@[b])@.map_values(|x: usize| x as int)
                    == bucket_indices(hashes@, self.parallel_size as int, b),
    {
        let n = self.parallel_size;
        let mut out: Vec<Vec<usize>> = Vec::new();
        let mut b: usize = 0;
        while b < n
            invariant
                b <= n,
                n == self.parallel_size,
                n > 0,
                out@.len() == b,
                forall|k: int|
                    0 <= k < b ==> (#[trigger] out@[k])@.map_values(|x: usize| x as int)
                        == bucket_indices(hashes@, n as int, k),
            decreases n - b,
        {
            let mut bucket_vec: Vec<usize> = Vec::new();
            let mut i: usize = 0;
            proof {
                assert(idx_prefix(hashes@, n as int, b as int, 0) =~= Seq::<int>::empty());
                assert(bucket_vec@.map_values(|x: usize| x as int) =~= Seq::<int>::empty());
            }
            while i < hashes.len()
                invariant
                    i <= hashes@.len(),
                    n > 0,
                    b < n,
                    bucket_vec@.map_values(|x: usize| x as int) == idx_prefix(
                        hashes@,
                        n as int,
                        b as int,
                        i as int,
                    ),
                decreases hashes@.len() - i,
            {
                let ghost prev = bucket_vec@;
                let h = hashes[i];
                if (h % (n as u64)) as usize == b {
                    bucket_vec.push(i);
                    proof {
                        assert(bucket_vec@.map_values(|x: usize| x as int) =~= prev.map_values(
                            |x: usize| x as int,
                        ).push(i as int));
                    }
                }
                proof {
                    lemma_idx_prefix_step(hashes@, n as int, b as int, i as int);
                    assert(bucket_of(h, n as int) == ((h % (n as u64)) as usize) as int);
                }
                i = i + 1;
            }
            proof {
                lemma_idx_prefix_full(hashes@, n as int, b as int);
            }
            out.push(bucket_vec);
            b = b + 1;
        }
        out
    }

    /// The monitor accounting of a batch.
    pub fn data_size_of(&self, data: &Vec<RowData>) -> (r: DataSize)
        requires
            data@.len() <= u64::MAX,
            total_data_size(data@, 0) <= u64::MAX,
        ensures
            r.count == data@.len(),
            r.bytes as int == total_data_size(data@, 0),
    {
        let mut bytes: u64 = 0;
        let mut i: usize = 0;
        while i < data.len()
            invariant
                i <= data@.len(),
                total_data_size(data@, 0) <= u64::MAX,
                bytes as int + total_data_size(data@, i as int) == total_data_size(data@, 0),
            decreases data@.len() - i,
        {
            proof {
                lemma_total_data_size_nonneg(data@, i + 1);
            }
            bytes = bytes + (data[i].data_size as u64);
            i = i + 1;
        }
        DataSize { count: data.len() as u64, bytes }
    }
}

/// The bucket-`b` indices among the first `i` rows.
pub open spec fn idx_prefix(hashes: Seq<u64>, n: int, b: int, i: int) -> Seq<int>
    decreases i,
{
    if i <= 0 || i > hashes.len() {
        Seq::<int>::empty()
    } else {
        let rest = idx_prefix(hashes, n, b, i - 1);
        if bucket_of(hashes[i - 1], n) == b {
            rest.push(i - 1)
        } else {
            rest
        }
    }
}

proof fn lemma_idx_prefix_step(hashes: Seq<u64>, n: int, b: int, i: int)
    requires
        0 <= i < hashes.len(),
    ensures
        idx_prefix(hashes, n, b, i + 1) == if bucket_of(hashes[i], n) == b {
            idx_prefix(hashes, n, b, i).push(i)
        } else {
            idx_prefix(hashes, n, b, i)
        },
{
}

proof fn lemma_idx_prefix_full(hashes: Seq<u64>, n: int, b: int)
    ensures
        idx_prefix(hashes, n, b, hashes.len() as int) == bucket_indices(hashes, n, b),
{
    reveal(Seq::filter);
    lemma_idx_prefix_is_filter(hashes, n, b, hashes.len() as int);
    assert(Seq::new(hashes.len(), |q: int| q).subrange(0, hashes.len() as int) =~= Seq::new(
        hashes.len(),
        |q: int| q,
    ));
}

proof fn lemma_idx_prefix_is_filter(hashes: Seq<u64>, n: int, b: int, i: int)
    requires
        0 <= i <= hashes.len(),
    ensures
        idx_prefix(hashes, n, b, i) == Seq::new(hashes.len(), |q: int| q).subrange(0, i).filter(
            |q: int| bucket_of(hashes[q], n) == b,
        ),
    decreases i,
{
    reveal(Seq::filter);
    let all = Seq::new(hashes.len(), |q: int| q);
    if i > 0 {
        lemma_idx_prefix_is_filter(hashes, n, b, i - 1);
        assert(all.subrange(0, i).drop_last() =~= all.subrange(0, i - 1));
        assert(all.subrange(0, i).last() == i - 1);
    } else {
        assert(all.subrange(0, 0) =~= Seq::<int>::empty());
    }
}

} // verus!
