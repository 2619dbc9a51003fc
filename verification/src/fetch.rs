//! The block fetcher's forward-progress logic. Each round plans a window of
//! heights, and of the per-height outcomes only the leading contiguous run
//! of successes is accepted: the cursor advances by exactly that count, so
//! the forwarded height sequence never has a gap.

use vstd::prelude::*;

use crate::model::{BlockBody, BlockBodyV, Header, HeaderV};

verus! {

/// One fetched block: its header and its transaction bodies.
#[derive(Debug)]
pub struct FetchBlockResult {
    pub header: Header,
    pub bodies: Vec<BlockBody>,
}

#[verifier::ext_equal]
pub ghost struct FetchBlockResultV {
    pub header: HeaderV,
    pub bodies: Seq<BlockBodyV>,
}

impl View for FetchBlockResult {
    type V = FetchBlockResultV;

    open spec fn view(&self) -> FetchBlockResultV {
        FetchBlockResultV { header: self.header@, bodies: self.bodies.deep_view() }
    }
}

impl DeepView for FetchBlockResult {
    type V = FetchBlockResultV;

    open spec fn deep_view(&self) -> FetchBlockResultV {
        self.view()
    }
}

/// What can end a fetch: a height the chain has not produced, a transport
/// failure, or a closed downstream channel.
#[derive(Debug)]
pub enum BlockReaderError {
    HeightBlock(u64),
    ReadFromRpc(String),
    SendToHandler(String),
}

/// The count of leading successes among the per-height outcomes.
pub open spec fn prefix_len(results: Seq<Option<FetchBlockResultV>>) -> int
    decreases results.len(),
{
    if results.len() == 0 {
        0
    } else if results.first() is None {
        0
    } else {
        1 + prefix_len(results.drop_first())
    }
}

/// `prefix_len` is exactly the cut: everything before it succeeded, and it
/// stops at the end or at the first failure.
pub proof fn lemma_prefix_len_char(results: Seq<Option<FetchBlockResultV>>, k: int)
    requires
        0 <= k <= results.len(),
        forall|i: int| 0 <= i < k ==> results[i] is Some,
        k == results.len() || results[k] is None,
    ensures
        prefix_len(results) == k,
    decreases k,
{
    if k == 0 {
        if results.len() > 0 {
            assert(results.first() is None);
        }
    } else {
        assert(results.first() is Some);
        assert forall|i: int| 0 <= i < k - 1 implies results.drop_first()[i] is Some by {
            assert(results.drop_first()[i] == results[i + 1]);
        }
        if k < results.len() {
            assert(results.drop_first()[k - 1] == results[k]);
        }
        lemma_prefix_len_char(results.drop_first(), k - 1);
    }
}

/// The resolution of one height: the header when the chain has produced the
/// block, or the error that makes the fetcher retry this height next round.
pub fn height_outcome(height: u64, header: Option<Header>) -> (r: Result<Header, BlockReaderError>)
    ensures
        match (r, header) {
            (Ok(h), Some(h0)) => h == h0,
            (Err(BlockReaderError::HeightBlock(x)), None) => x == height,
            _ => false,
        },
{
    match header {
        Some(h) => Ok(h),
        None => Err(BlockReaderError::HeightBlock(height)),
    }
}

/// The producer's cursor over the chain. `forwarded` records, in order,
/// every height that has been handed downstream since `start_height`.
pub struct BlockReader {
    pub batch_fetch_size: u64,
    pub cursor: u64,
    pub start_height: Ghost<u64>,
    pub forwarded: Ghost<Seq<u64>>,
}

impl BlockReader {
    /// The forwarded heights are exactly the contiguous range from the
    /// starting height up to the cursor.
    pub open spec fn wf(&self) -> bool {
        &&& self.start_height@ <= self.cursor
        &&& self.forwarded@.len() == self.cursor - self.start_height@
        &&& (forall|i: int|
            0 <= i < self.forwarded@.len() ==> self.forwarded@[i] == self.start_height@ + i)
    }

    pub fn new(batch_fetch_size: u64, start_height: u64) -> (r: BlockReader)
        ensures
            r.wf(),
            r.batch_fetch_size == batch_fetch_size,
            r.cursor == start_height,
            r.start_height@ == start_height,
            r.forwarded@ == Seq::<u64>::empty(),
    {
        BlockReader {
            batch_fetch_size,
            cursor: start_height,
            start_height: Ghost(start_height),
            forwarded: Ghost(Seq::empty()),
        }
    }

    /// The window of heights the next round fetches concurrently.
    pub fn next_range(&self) -> (r: (u64, u64))
        requires
            self.cursor + self.batch_fetch_size <= u64::MAX,
        ensures
            r.0 == self.cursor,
            r.1 == self.cursor + self.batch_fetch_size,
    {
        (self.cursor, self.cursor + self.batch_fetch_size)
    }

    /// Accepts one round of per-height outcomes, where `results[i]` is the
    /// outcome for height `cursor + i`. Only the leading contiguous run of
    /// successes is forwarded; the cursor advances by exactly its length,
    /// so a failed height and everything behind it are re-attempted next
    /// round and the forwarded sequence keeps its no-gap shape.
    pub fn accept(&mut self, results: Vec<Option<FetchBlockResult>>) -> (batch: Vec<
        FetchBlockResult,
    >)
        requires
            old(self).wf(),
            old(self).cursor + results.len() <= u64::MAX,
            forall|i: int|
                0 <= i < results.deep_view().len() ==> match #[trigger] results.deep_view()[i] {
                    Some(b) => b.header.height == old(self).cursor + i,
                    None => true,
                },
        ensures
            final(self).wf(),
            final(self).batch_fetch_size == old(self).batch_fetch_size,
            final(self).start_height == old(self).start_height,
            final(self).cursor == old(self).cursor + prefix_len(results.deep_view()),
            batch.deep_view().len() == prefix_len(results.deep_view()),
            forall|i: int|
                0 <= i < batch.deep_view().len() ==> Some(#[trigger] batch.deep_view()[i])
                    == results.deep_view()[i],
            final(self).forwarded@ == old(self).forwarded@ + Seq::new(
                prefix_len(results.deep_view()) as nat,
                |i: int| (old(self).cursor + i) as u64,
            ),
    {
        let ghost rv = results.deep_view();
        let n = results.len();
        let mut k: usize = 0;
        let mut stop = false;
        while !stop && k < n
            invariant
                n == results.len(),
                rv == results.deep_view(),
                k <= n,
                forall|j: int| 0 <= j < k ==> rv[j] is Some,
                stop ==> k < n && rv[k as int] is None,
            decreases n - k + (if stop { 0int } else { 1int }),
        {
            proof {
                assert(results@[k as int].deep_view() == rv[k as int]);
            }
            match &results[k] {
                Some(_) => {
                    k = k + 1;
                },
                None => {
                    stop = true;
                },
            }
        }
        proof {
            lemma_prefix_len_char(rv, k as int);
        }
        let mut rest = results;
        let mut batch: Vec<FetchBlockResult> = Vec::new();
        proof {
            assert(rest.deep_view() =~= rv.skip(0));
        }
        for i in 0..k
            invariant
                k <= rv.len(),
                forall|j: int| 0 <= j < k ==> rv[j] is Some,
                batch.deep_view().len() == i,
                forall|j: int|
                    0 <= j < i ==> Some(#[trigger] batch.deep_view()[j]) == rv[j],
                rest.deep_view() == rv.skip(i as int),
        {
            let ghost prev = batch.deep_view();
            let ghost pre_rest = rest.deep_view();
            proof {
                assert(rest.deep_view().len() == rv.len() - i);
                assert(rest@.len() == rest.deep_view().len());
                assert(rest@[0].deep_view() == rest.deep_view()[0]);
                assert(rest.deep_view()[0] == rv.skip(i as int)[0]);
                assert(rv.skip(i as int)[0] == rv[i as int]);
            }
            let first = rest.remove(0);
            match first {
                Some(b) => {
                    batch.push(b);
                    proof {
                        assert(batch.deep_view() =~= prev.push(match rv[i as int] {
                            Some(x) => x,
                            None => arbitrary(),
                        }));
                    }
                },
                None => {
                    proof {
                        assert(false);
                    }
                },
            }
            proof {
                assert(rest.deep_view() =~= pre_rest.skip(1));
                assert(pre_rest.skip(1) =~= rv.skip(i as int + 1));
                assert(rest.deep_view() == rv.skip(i as int + 1));
            }
        }
        let ghost old_forwarded = self.forwarded@;
        let ghost old_cursor = self.cursor;
        self.cursor = self.cursor + k as u64;
        proof {
            assert(self.forwarded@ == old_forwarded);
        }
        self.forwarded = Ghost(
            old_forwarded + Seq::new(k as nat, |i: int| (old_cursor + i) as u64),
        );
        proof {
            assert(self.wf()) by {
                assert(self.forwarded@.len() == old_forwarded.len() + k);
                assert forall|i: int|
                    0 <= i < self.forwarded@.len() implies self.forwarded@[i] == self.start_height@
                    + i by {
                    if i < old_forwarded.len() {
                        assert(self.forwarded@[i] == old_forwarded[i]);
                    } else {
                        assert(self.forwarded@[i] == (old_cursor + (i - old_forwarded.len())) as u64);
                    }
                }
            }
            assert(self.forwarded@ =~= old(self).forwarded@ + Seq::new(
                prefix_len(rv) as nat,
                |i: int| (old(self).cursor + i) as u64,
            ));
        }
        batch
    }
}

/// The no-gap law: among the heights forwarded in one run, anything between
/// two forwarded heights was forwarded too.
pub proof fn lemma_no_gap(r: &BlockReader, h1: u64, h2: u64, h3: u64)
    requires
        r.wf(),
        h1 < h2,
        h2 < h3,
        r.forwarded@.contains(h1),
        r.forwarded@.contains(h3),
    ensures
        r.forwarded@.contains(h2),
{
    let i1 = choose|i: int| 0 <= i < r.forwarded@.len() && r.forwarded@[i] == h1;
    let i3 = choose|i: int| 0 <= i < r.forwarded@.len() && r.forwarded@[i] == h3;
    assert(h1 == r.start_height@ + i1);
    assert(h3 == r.start_height@ + i3);
    let i2 = h2 - r.start_height@;
    assert(0 <= i2 < r.forwarded@.len());
    assert(r.forwarded@[i2] == h2);
}

} // verus!
