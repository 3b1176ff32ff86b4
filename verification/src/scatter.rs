//! Hash partitioning of rows over a fixed number of destinations.

use vstd::prelude::*;
use crate::error::ErrorCode;
use crate::error::ErrorKind;
use crate::packet::DataBlock;

verus! {

/// The bucket of a row whose partition key hashes to `key`, among `count`
/// destinations.
pub open spec fn bucket_of(key: u64, count: nat) -> nat {
    (key as nat) % count
}

/// The positions of the rows of bucket `b`, in ascending order.
pub open spec fn bucket_indices(keys: Seq<u64>, count: nat, b: nat) -> Seq<int>
    decreases keys.len(),
{
    if keys.len() == 0 {
        Seq::empty()
    } else {
        let before = bucket_indices(keys.drop_last(), count, b);
        if bucket_of(keys.last(), count) == b {
            before.push(keys.len() - 1)
        } else {
            before
        }
    }
}

/// The rows of bucket `b`, in the order in which the block holds them.
pub open spec fn bucket_block(rows: Seq<u64>, count: nat, b: nat) -> Seq<u64> {
    let at = bucket_indices(rows, count, b);
    Seq::new(at.len(), |j: int| rows[at[j]])
}

/// Whether `part` holds exactly the positions `at`.
pub open spec fn holds_positions(part: Seq<usize>, at: Seq<int>) -> bool {
    &&& part.len() == at.len()
    &&& forall|j: int| 0 <= j < part.len() ==> #[trigger] part[j] as int == at[j]
}

/// Every position of a bucket lies in the block, belongs to a row of that
/// bucket, and the positions ascend strictly; every row of the bucket has its
/// position there.
pub proof fn lemma_bucket_indices(keys: Seq<u64>, count: nat, b: nat)
    ensures
        forall|j: int|
            0 <= j < bucket_indices(keys, count, b).len() ==> {
                let i = #[trigger] bucket_indices(keys, count, b)[j];
                0 <= i < keys.len() && bucket_of(keys[i], count) == b
            },
        forall|j: int, k: int|
            0 <= j < k < bucket_indices(keys, count, b).len() ==> bucket_indices(keys, count, b)[j]
                < bucket_indices(keys, count, b)[k],
        forall|i: int|
            0 <= i < keys.len() && bucket_of(keys[i], count) == b ==> bucket_indices(
                keys,
                count,
                b,
            ).contains(i),
        bucket_indices(keys, count, b).len() <= keys.len(),
    decreases keys.len(),
{
    if keys.len() > 0 {
        let before = bucket_indices(keys.drop_last(), count, b);
        lemma_bucket_indices(keys.drop_last(), count, b);
        let all = bucket_indices(keys, count, b);
        assert forall|i: int| 0 <= i < keys.len() && bucket_of(keys[i], count) == b implies all.contains(
            i,
        ) by {
            if i < keys.len() - 1 {
                assert(keys.drop_last()[i] == keys[i]);
                assert(bucket_of(keys.drop_last()[i], count) == b);
                assert(before.contains(i));
                let j = choose|j: int| 0 <= j < before.len() && before[j] == i;
                assert(all[j] == i);
            } else {
                assert(all[all.len() - 1] == i);
            }
        }
        assert forall|j: int| 0 <= j < all.len() implies {
            let i = #[trigger] all[j];
            0 <= i < keys.len() && bucket_of(keys[i], count) == b
        } by {
            if j < before.len() {
                assert(all[j] == before[j]);
                assert(keys.drop_last()[before[j]] == keys[before[j]]);
            }
        }
        assert forall|j: int, k: int| 0 <= j < k < all.len() implies all[j] < all[k] by {
            assert(all[j] == before[j]);
            if k < before.len() {
                assert(all[k] == before[k]);
            }
        }
    }
}

/// No row is lost and none is sent twice: each position of the block stands
/// in the bucket of its row, at one place only, and in no other bucket.
pub proof fn law_scatter_is_partition(keys: Seq<u64>, count: nat, i: int)
    requires
        count > 0,
        0 <= i < keys.len(),
    ensures
        bucket_of(keys[i], count) < count,
        bucket_indices(keys, count, bucket_of(keys[i], count)).contains(i),
        forall|b: nat| b != bucket_of(keys[i], count) ==> !bucket_indices(keys, count, b).contains(i),
        forall|b: nat, j: int, k: int|
            0 <= j < bucket_indices(keys, count, b).len() && 0 <= k < bucket_indices(
                keys,
                count,
                b,
            ).len() && bucket_indices(keys, count, b)[j] == i && bucket_indices(keys, count, b)[k]
                == i ==> j == k,
{
    lemma_bucket_indices(keys, count, bucket_of(keys[i], count));
    assert forall|b: nat| b != bucket_of(keys[i], count) implies !bucket_indices(
        keys,
        count,
        b,
    ).contains(i) by {
        lemma_bucket_indices(keys, count, b);
    }
    assert forall|b: nat, j: int, k: int|
        0 <= j < bucket_indices(keys, count, b).len() && 0 <= k < bucket_indices(keys, count, b).len()
            && bucket_indices(keys, count, b)[j] == i && bucket_indices(keys, count, b)[k]
            == i implies j == k by {
        lemma_bucket_indices(keys, count, b);
    }
}

/// With one destination the only bucket holds every position, so the rows of
/// that bucket are the rows of the block.
pub proof fn law_single_bucket_keeps_all(rows: Seq<u64>)
    ensures
        bucket_indices(rows, 1, 0) == Seq::new(rows.len(), |i: int| i),
        bucket_block(rows, 1, 0) == rows,
    decreases rows.len(),
{
    if rows.len() > 0 {
        law_single_bucket_keeps_all(rows.drop_last());
        assert(bucket_of(rows.last(), 1) == 0);
    }
    assert(bucket_indices(rows, 1, 0) =~= Seq::new(rows.len(), |i: int| i));
    assert(bucket_block(rows, 1, 0) =~= rows);
}

/// The bucket of a row depends on its key and on the number of destinations
/// alone: equal keys under equal counts fall into the same bucket, and equal
/// blocks are split alike.
pub proof fn law_scatter_is_deterministic(
    first: Seq<u64>,
    second: Seq<u64>,
    count: nat,
    b: nat,
)
    requires
        first == second,
    ensures
        bucket_indices(first, count, b) == bucket_indices(second, count, b),
        bucket_block(first, count, b) == bucket_block(second, count, b),
        forall|i: int|
            0 <= i < first.len() ==> bucket_of(first[i], count) == bucket_of(second[i], count),
{
}

/// Computes the destination bucket of one partition key.
pub fn bucket_index(key: u64, count: usize) -> (bucket: usize)
    requires
        count > 0,
    ensures
        bucket as nat == bucket_of(key, count as nat),
        bucket < count,
{
    let wide: u64 = count as u64;
    let r: u64 = key % wide;
    r as usize
}

/// Splits the positions of a block by the bucket of their rows.
pub fn scatter_indices(keys: &Vec<u64>, count: usize) -> (parts: Vec<Vec<usize>>)
    requires
        count > 0,
    ensures
        parts.len() == count,
        forall|b: int|
            0 <= b < count ==> holds_positions(
                #[trigger] parts[b]@,
                bucket_indices(keys@, count as nat, b as nat),
            ),
{
    let mut parts: Vec<Vec<usize>> = Vec::new();
    let mut made: usize = 0;
    while made < count
        invariant
            made <= count,
            parts.len() == made,
            forall|b: int| 0 <= b < made ==> (#[trigger] parts[b])@.len() == 0,
        decreases count - made,
    {
        parts.push(Vec::new());
        made += 1;
    }
    let mut i: usize = 0;
    while i < keys.len()
        invariant
            count > 0,
            i <= keys.len(),
            parts.len() == count,
            forall|b: int|
                0 <= b < count ==> holds_positions(
                    #[trigger] parts[b]@,
                    bucket_indices(keys@.take(i as int), count as nat, b as nat),
                ),
        decreases keys.len() - i,
    {
        let target: usize = bucket_index(keys[i], count);
        let ghost before = parts@;
        parts[target].push(i);
        proof {
            let grown = keys@.take(i + 1);
            assert(grown.drop_last() =~= keys@.take(i as int));
            assert(grown.last() == keys@[i as int]);
            assert forall|b: int| 0 <= b < count implies holds_positions(
                #[trigger] parts[b]@,
                bucket_indices(grown, count as nat, b as nat),
            ) by {
                assert(holds_positions(
                    before[b]@,
                    bucket_indices(keys@.take(i as int), count as nat, b as nat),
                ));
                if b == target {
                    assert(parts[b]@ == before[b]@.push(i));
                } else {
                    assert(parts[b]@ == before[b]@);
                }
            }
        }
        i += 1;
    }
    proof {
        assert(keys@.take(keys.len() as int) =~= keys@);
    }
    parts
}

/// A deterministic split of rows over a fixed number of destinations.
#[derive(Clone, Copy, Debug, PartialEq, Eq, Structural)]
pub struct HashScatter {
    count: usize,
}

impl HashScatter {
    /// The number of destinations; it is never zero.
    pub closed spec fn destinations(&self) -> nat {
        self.count as nat
    }

    #[verifier::type_invariant]
    spec fn wf(self) -> bool {
        self.count > 0
    }

    /// Makes the split over `count` destinations. There is no split over no
    /// destination: that is a logical error.
    pub fn try_create(count: usize) -> (r: Result<HashScatter, ErrorCode>)
        ensures
            r is Ok <==> count > 0,
            r is Ok ==> r->Ok_0.destinations() == count,
            r is Err ==> r->Err_0.kind == ErrorKind::LogicalError,
    {
        if count == 0 {
            Err(ErrorCode::new(ErrorKind::LogicalError, "Cannot scatter over zero destinations."))
        } else {
            Ok(HashScatter { count })
        }
    }

    /// The number of destinations.
    pub fn scatter_size(&self) -> (n: usize)
        ensures
            n == self.destinations(),
            n > 0,
    {
        proof {
            use_type_invariant(self);
        }
        self.count
    }

    /// Splits a block: part `b` of the result holds the rows of bucket `b`,
    /// in the order of the block.
    pub fn execute(&self, block: &DataBlock) -> (parts: Vec<DataBlock>)
        ensures
            parts.len() == self.destinations(),
            forall|b: int|
                0 <= b < parts.len() ==> (#[trigger] parts[b])@ == bucket_block(
                    block@,
                    self.destinations(),
                    b as nat,
                ),
    {
        proof {
            use_type_invariant(self);
        }
        let indices = scatter_indices(&block.rows, self.count);
        let mut parts: Vec<DataBlock> = Vec::new();
        let mut b: usize = 0;
        while b < self.count
            invariant
                b <= self.count,
                indices.len() == self.count,
                parts.len() == b,
                forall|c: int|
                    0 <= c < self.count ==> holds_positions(
                        #[trigger] indices[c]@,
                        bucket_indices(block@, self.count as nat, c as nat),
                    ),
                forall|c: int|
                    0 <= c < b ==> (#[trigger] parts[c])@ == bucket_block(
                        block@,
                        self.count as nat,
                        c as nat,
                    ),
            decreases self.count - b,
        {
            let picked = &indices[b];
            let ghost at = bucket_indices(block@, self.count as nat, b as nat);
            proof {
                lemma_bucket_indices(block@, self.count as nat, b as nat);
                assert(holds_positions(indices[b as int]@, at));
            }
            let mut rows: Vec<u64> = Vec::new();
            let mut j: usize = 0;
            while j < picked.len()
                invariant
                    j <= picked.len(),
                    holds_positions(picked@, at),
                    forall|k: int| 0 <= k < at.len() ==> 0 <= #[trigger] at[k] < block@.len(),
                    rows.len() == j,
                    forall|k: int| 0 <= k < j ==> #[trigger] rows[k] == block@[at[k]],
                decreases picked.len() - j,
            {
                let at_j: usize = picked[j];
                assert(at_j as int == at[j as int]);
                rows.push(block.rows[at_j]);
                j += 1;
            }
            assert(rows@ =~= bucket_block(block@, self.count as nat, b as nat));
            parts.push(DataBlock { rows });
            b += 1;
        }
        parts
    }
}

} // verus!
