//! How each test splits its work into blocks, and which blocks the random
//! tests touch.

use vstd::prelude::*;
use rand::seq::SliceRandom;

verus! {

broadcast use vstd::seq_lib::group_to_multiset_ensures;

/// Block size of the sequential tests: 1 MiB.
pub const SEQ_BLOCK_SIZE: usize = 1048576;
/// Block size of the random tests: 4 KiB.
pub const RAND_BLOCK_SIZE: usize = 4096;
/// The random tests report progress once every this many operations.
pub const PROGRESS_INTERVAL: usize = 256;

/// The size of the next sequential block after `done` of `total` bytes:
/// a full block, or what is left when less than a block is left.
pub fn seq_chunk(done: u64, total: u64) -> (chunk: Option<usize>)
    ensures
        match chunk {
            None => done >= total,
            Some(c) => done < total && c as int == (if total - done < SEQ_BLOCK_SIZE {
                total - done
            } else {
                SEQ_BLOCK_SIZE as int
            }),
        },
        // A block is never empty, never larger than a full block, and never
        // goes past the end of the test.
        chunk matches Some(c) ==> 0 < c <= SEQ_BLOCK_SIZE && done + c <= total,
{
    if done >= total {
        None
    } else {
        let left: u64 = total - done;
        if left < SEQ_BLOCK_SIZE as u64 {
            Some(left as usize)
        } else {
            Some(SEQ_BLOCK_SIZE)
        }
    }
}

/// Every block-aligned offset at which a whole random block fits in a file
/// of `count` blocks, in increasing order.
pub open spec fn aligned_offsets(count: nat) -> Seq<u64> {
    Seq::new(count, |i: int| (i * RAND_BLOCK_SIZE) as u64)
}

/// The work of a random test: the offsets it visits, in order, and how many
/// of them it visits.
pub struct RandomPlan {
    /// Every block offset of the file, in random order.
    pub offsets: Vec<u64>,
    /// The number of operations: the first `ops` offsets are visited.
    pub ops: usize,
    /// The bytes the test moves: `ops` blocks.
    pub total_bytes: u64,
}

/// Puts the offsets in a random order, through `rand`'s
/// `SliceRandom::shuffle` on the thread-local generator `rand::rng()`.
/// Claimed: the result is a permutation of the input (the shuffle only swaps
/// elements). Which permutation comes out is left open: it depends on chance.
#[verifier::external_body]
fn shuffle_offsets(offsets: &mut Vec<u64>)
    ensures
        final(offsets)@.len() == old(offsets)@.len(),
        final(offsets)@.to_multiset() == old(offsets)@.to_multiset(),
{
    offsets.shuffle(&mut rand::rng());
}

impl RandomPlan {
    /// The offsets of the first `ops` operations.
    pub open spec fn visited(&self) -> Seq<u64> {
        self.offsets@.take(self.ops as int)
    }

    /// A plan for a file of `file_len` bytes and a test of `total_bytes`
    /// bytes: whole blocks only, never more blocks than the file holds, each
    /// block at most once.
    pub open spec fn wf_for(&self, file_len: u64, total_bytes: u64) -> bool {
        let count = (file_len / RAND_BLOCK_SIZE as u64) as nat;
        &&& self.offsets@.len() == count
        &&& self.offsets@.to_multiset() == aligned_offsets(count).to_multiset()
        &&& self.ops as int == (if total_bytes / (RAND_BLOCK_SIZE as u64) < count {
            (total_bytes / (RAND_BLOCK_SIZE as u64)) as int
        } else {
            count as int
        })
        &&& self.total_bytes == self.ops * RAND_BLOCK_SIZE
    }
}

/// Plans a random test over a file of `file_len` bytes that should move
/// `total_bytes` bytes.
pub fn plan_random(file_len: u64, total_bytes: u64) -> (plan: RandomPlan)
    requires
        file_len / (RAND_BLOCK_SIZE as u64) <= usize::MAX,
    ensures
        plan.wf_for(file_len, total_bytes),
{
    let block: u64 = RAND_BLOCK_SIZE as u64;
    let count: usize = (file_len / block) as usize;
    let mut offsets: Vec<u64> = Vec::new();
    let mut i: usize = 0;
    while i < count
        invariant
            i <= count,
            block == 4096,
            count as int == file_len / (RAND_BLOCK_SIZE as u64),
            offsets@ == aligned_offsets(i as nat),
        decreases count - i,
    {
        proof {
            assert(i * RAND_BLOCK_SIZE <= file_len) by (nonlinear_arith)
                requires
                    i < file_len / 4096,
            ;
        }
        offsets.push((i as u64) * block);
        i = i + 1;
        assert(offsets@ =~= aligned_offsets(i as nat));
    }
    shuffle_offsets(&mut offsets);
    let wanted: u64 = total_bytes / block;
    let ops: usize = if wanted < count as u64 { wanted as usize } else { count };
    proof {
        assert(ops * RAND_BLOCK_SIZE <= file_len) by (nonlinear_arith)
            requires
                ops <= file_len / 4096,
        ;
    }
    let total: u64 = (ops as u64) * block;
    RandomPlan { offsets, ops, total_bytes: total }
}

/// The progress a random test reports after operation `i` (counted from 0):
/// every `PROGRESS_INTERVAL` operations, the bytes done so far.
pub fn random_progress(i: usize) -> (res: Option<u64>)
    requires
        i < u64::MAX / (RAND_BLOCK_SIZE as u64),
    ensures
        res == (if i % PROGRESS_INTERVAL == 0 {
            Some(((i + 1) * RAND_BLOCK_SIZE) as u64)
        } else {
            None
        }),
{
    if i % PROGRESS_INTERVAL == 0 {
        assert((i + 1) * 4096 <= u64::MAX) by (nonlinear_arith)
            requires
                i < u64::MAX / 4096,
        ;
        Some((i as u64 + 1) * (RAND_BLOCK_SIZE as u64))
    } else {
        None
    }
}

/// The offsets a random test visits are block aligned, lie wholly inside the
/// file, and no block is visited twice.
pub proof fn lemma_random_plan_sound(plan: &RandomPlan, file_len: u64, total_bytes: u64)
    requires
        plan.wf_for(file_len, total_bytes),
    ensures
        plan.visited().len() == plan.ops,
        plan.visited().no_duplicates(),
        forall|k: int| 0 <= k < plan.visited().len() ==> {
            &&& #[trigger] plan.visited()[k] % (RAND_BLOCK_SIZE as u64) == 0
            &&& plan.visited()[k] + RAND_BLOCK_SIZE <= file_len
        },
{
    let count = (file_len / RAND_BLOCK_SIZE as u64) as nat;
    let a = aligned_offsets(count);
    let s = plan.offsets@;
    assert(a.no_duplicates()) by {
        assert forall|i: int, j: int| 0 <= i < a.len() && 0 <= j < a.len() && i != j implies a[i] != a[j] by {
            assert(i * 4096 != j * 4096) by (nonlinear_arith)
                requires
                    i != j,
            ;
            assert(i * 4096 < 0x1_0000_0000_0000_0000) by (nonlinear_arith)
                requires
                    0 <= i < count,
                    count <= file_len / 4096,
                    file_len < 0x1_0000_0000_0000_0000,
            ;
            assert(j * 4096 < 0x1_0000_0000_0000_0000) by (nonlinear_arith)
                requires
                    0 <= j < count,
                    count <= file_len / 4096,
                    file_len < 0x1_0000_0000_0000_0000,
            ;
        }
    }
    a.lemma_multiset_has_no_duplicates();
    s.lemma_multiset_has_no_duplicates_conv();
    assert forall|k: int| 0 <= k < plan.visited().len() implies {
        &&& #[trigger] plan.visited()[k] % (RAND_BLOCK_SIZE as u64) == 0
        &&& plan.visited()[k] + RAND_BLOCK_SIZE <= file_len
    } by {
        let o = s[k];
        assert(s.contains(o));
        assert(s.to_multiset().count(o) > 0);
        assert(a.to_multiset().count(o) > 0);
        assert(a.contains(o));
        let i = choose|i: int| 0 <= i < a.len() && a[i] == o;
        assert(i * 4096 + 4096 <= file_len && (i * 4096) % 4096 == 0) by (nonlinear_arith)
            requires
                0 <= i < count,
                count == file_len / 4096,
        ;
        assert(a[i] == i * 4096);
    }
}

} // verus!
