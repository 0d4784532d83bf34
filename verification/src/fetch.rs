//! Collecting a bounded prefix of a body that arrives in chunks.
//!
//! A body is read chunk by chunk. The first few reads may be thrown away
//! unseen; this saves bytes where the sender is known to open with a
//! stretch of boilerplate, and it leans on the sender cutting its chunks the
//! same way every time, which nothing here can check. What the later reads
//! deliver is gathered until the byte budget is used up or the body ends.
//!
//! The model of a stream is the sequence of its reads: `Some(bytes)` for a
//! chunk that arrived, `None` for a read that failed.

use vstd::prelude::*;
use vstd::slice::slice_subrange;

verus! {

/// The byte budget used when no other is asked for.
pub const MAX_BYTES: usize = 70000;

/// The number of leading chunks thrown away when no other is asked for.
pub const OFFSET_CHUNKS_COUNT: usize = 360;

/// How much of a body to keep.
#[derive(Clone, Copy, Debug, PartialEq, Eq)]
pub struct FetchBudget {
    /// The most bytes that a collected buffer may hold.
    pub max_bytes: usize,
    /// How many leading reads are thrown away before collecting starts.
    pub skip_chunks: usize,
}

impl Default for FetchBudget {
    fn default() -> (r: Self)
        ensures
            r.max_bytes == MAX_BYTES,
            r.skip_chunks == OFFSET_CHUNKS_COUNT,
    {
        FetchBudget { max_bytes: MAX_BYTES, skip_chunks: OFFSET_CHUNKS_COUNT }
    }
}

/// Why a fetch gave no buffer.
#[derive(Clone, Copy, Debug, PartialEq, Eq)]
pub enum FetchError {
    /// The request never got a response.
    Network,
    /// A read of the body failed while it was being collected.
    Transport,
}

/// The reads that count: those behind the first `skip` ones.
pub open spec fn kept(reads: Seq<Option<Seq<u8>>>, skip: usize) -> Seq<Option<Seq<u8>>> {
    if skip <= reads.len() {
        reads.skip(skip as int)
    } else {
        Seq::empty()
    }
}

/// The bytes of the chunks that arrived, in order.
pub open spec fn payload(reads: Seq<Option<Seq<u8>>>) -> Seq<u8>
    decreases reads.len(),
{
    if reads.len() == 0 {
        Seq::empty()
    } else {
        payload(reads.drop_last()) + match reads.last() {
            Some(bytes) => bytes,
            None => Seq::empty(),
        }
    }
}

/// The position of the first failed read, or the number of reads when
/// none failed.
pub open spec fn first_fault(reads: Seq<Option<Seq<u8>>>) -> int {
    match reads.index_of_first(None) {
        Some(i) => i,
        None => reads.len() as int,
    }
}

/// Nothing more is read once a counted read has failed or the counted
/// chunks fill the budget. At least one counted read is always made.
pub open spec fn halted(reads: Seq<Option<Seq<u8>>>, budget: FetchBudget) -> bool {
    let counted = kept(reads, budget.skip_chunks);
    counted.len() > 0 && (first_fault(counted) < counted.len() || payload(counted).len()
        >= budget.max_bytes)
}

/// What a fetch yields when the stream delivers `reads` and then ends.
///
/// The chunks ahead of the first failed counted read are joined and cut to
/// the budget. The failure is only met, and the fetch only fails, when the
/// chunks ahead of it did not fill the budget.
pub open spec fn outcome(reads: Seq<Option<Seq<u8>>>, budget: FetchBudget) -> Result<
    Seq<u8>,
    FetchError,
> {
    let counted = kept(reads, budget.skip_chunks);
    let fault = first_fault(counted);
    let body = payload(counted.take(fault));
    if fault < counted.len() && (fault == 0 || body.len() < budget.max_bytes) {
        Err(FetchError::Transport)
    } else if body.len() <= budget.max_bytes {
        Ok(body)
    } else {
        Ok(body.take(budget.max_bytes as int))
    }
}

/// A fetch result with its buffer seen as a sequence of bytes.
pub open spec fn fetched(r: Result<Vec<u8>, FetchError>) -> Result<Seq<u8>, FetchError> {
    match r {
        Ok(buffer) => Ok(buffer@),
        Err(e) => Err(e),
    }
}

/// What characterises the first failed read.
pub proof fn lemma_first_fault(reads: Seq<Option<Seq<u8>>>)
    ensures
        0 <= first_fault(reads) <= reads.len(),
        forall|i: int| 0 <= i < first_fault(reads) ==> (#[trigger] reads[i]) is Some,
        first_fault(reads) < reads.len() ==> reads[first_fault(reads)] is None,
{
    reads.index_of_first_ensures(None);
    let f = first_fault(reads);
    assert forall|i: int| 0 <= i < f implies (#[trigger] reads[i]) is Some by {
        if reads.index_of_first(None) is None {
            assert(reads.contains(reads[i]));
        }
    }
}

/// The first failed read is the only position with nothing but arrivals
/// in front of it that is a failure or the end.
proof fn lemma_first_fault_is(reads: Seq<Option<Seq<u8>>>, at: int)
    requires
        0 <= at <= reads.len(),
        forall|i: int| 0 <= i < at ==> (#[trigger] reads[i]) is Some,
        at < reads.len() ==> reads[at] is None,
    ensures
        first_fault(reads) == at,
{
    lemma_first_fault(reads);
    let f = first_fault(reads);
    if f < at {
        assert(reads[f] is Some);
    } else if at < f {
        assert(reads[at] is Some);
    }
}

/// The payload of two runs of reads is the payload of the first followed
/// by that of the second.
pub proof fn lemma_payload_concat(a: Seq<Option<Seq<u8>>>, b: Seq<Option<Seq<u8>>>)
    ensures
        payload(a + b) == payload(a) + payload(b),
    decreases b.len(),
{
    if b.len() == 0 {
        assert(a + b =~= a);
        assert(payload(a) + payload(b) =~= payload(a));
    } else {
        lemma_payload_concat(a, b.drop_last());
        assert((a + b).drop_last() =~= a + b.drop_last());
        assert((a + b).last() == b.last());
        assert(payload(a + b) =~= payload(a) + payload(b));
    }
}

proof fn lemma_payload_push(reads: Seq<Option<Seq<u8>>>, read: Option<Seq<u8>>)
    ensures
        payload(reads.push(read)) == payload(reads) + match read {
            Some(bytes) => bytes,
            None => Seq::empty(),
        },
{
    assert(reads.push(read).drop_last() =~= reads);
}

/// A fetch never yields more bytes than its budget allows.
pub proof fn lemma_outcome_within_budget(reads: Seq<Option<Seq<u8>>>, budget: FetchBudget)
    ensures
        outcome(reads, budget) matches Ok(body) ==> body.len() <= budget.max_bytes,
{
}

/// A body whose counted reads all arrive and fit the budget is yielded
/// whole: every byte behind the skipped chunks, and nothing else.
pub proof fn lemma_short_body_kept_whole(reads: Seq<Option<Seq<u8>>>, budget: FetchBudget)
    requires
        forall|i: int| budget.skip_chunks <= i < reads.len() ==> (#[trigger] reads[i]) is Some,
        payload(kept(reads, budget.skip_chunks)).len() <= budget.max_bytes,
    ensures
        outcome(reads, budget) == Ok::<Seq<u8>, FetchError>(
            payload(kept(reads, budget.skip_chunks)),
        ),
{
    let counted = kept(reads, budget.skip_chunks);
    lemma_first_fault_is(counted, counted.len() as int);
    assert(counted.take(counted.len() as int) =~= counted);
}

/// Stopping early loses nothing: once reading has halted, whatever the
/// stream would still have delivered leaves the result as it is.
pub proof fn lemma_early_stop(
    reads: Seq<Option<Seq<u8>>>,
    more: Seq<Option<Seq<u8>>>,
    budget: FetchBudget,
)
    requires
        halted(reads, budget),
    ensures
        outcome(reads + more, budget) == outcome(reads, budget),
        halted(reads + more, budget),
{
    let counted = kept(reads, budget.skip_chunks);
    let longer = kept(reads + more, budget.skip_chunks);
    assert(longer =~= counted + more);
    let fault = first_fault(counted);
    lemma_first_fault(counted);
    lemma_first_fault(longer);
    if fault < counted.len() {
        lemma_first_fault_is(longer, fault);
        assert(longer.take(fault) =~= counted.take(fault));
        lemma_payload_concat(counted, more);
    } else {
        let later = first_fault(longer);
        if later < counted.len() {
            assert(counted[later] is Some);
        }
        assert(counted.take(fault) =~= counted);
        assert(longer.take(later) =~= counted + more.take(later - counted.len()));
        lemma_payload_concat(counted, more.take(later - counted.len()));
        lemma_payload_concat(counted, more);
        let body = payload(counted);
        let tail = payload(more.take(later - counted.len()));
        if body.len() > budget.max_bytes {
            assert((body + tail).take(budget.max_bytes as int) =~= body.take(
                budget.max_bytes as int,
            ));
        } else {
            assert((body + tail).len() > budget.max_bytes ==> (body + tail).take(
                budget.max_bytes as int,
            ) =~= body);
            assert((body + tail).len() <= budget.max_bytes ==> body + tail =~= body);
        }
    }
}

/// A fetch in progress: the budget is not used up and no counted read
/// has failed.
pub struct Collector {
    budget: FetchBudget,
    buffer: Vec<u8>,
    room: usize,
    to_skip: usize,
    seen: Ghost<Seq<Option<Seq<u8>>>>,
}

/// Where a fetch stands after a read.
pub enum Progress {
    /// Read on.
    Reading(Collector),
    /// Read no more: this is the result of the fetch.
    Done(Result<Vec<u8>, FetchError>),
}

impl Collector {
    #[verifier::type_invariant]
    spec fn well_formed(self) -> bool {
        let counted = kept(self.seen@, self.budget.skip_chunks);
        &&& self.to_skip == if self.seen@.len() < self.budget.skip_chunks {
            self.budget.skip_chunks - self.seen@.len()
        } else {
            0
        }
        &&& forall|i: int| 0 <= i < counted.len() ==> (#[trigger] counted[i]) is Some
        &&& counted.len() == 0 || payload(counted).len() < self.budget.max_bytes
        &&& self.buffer@ == payload(counted)
        &&& self.room == self.budget.max_bytes - self.buffer@.len()
    }

    /// The reads handed in so far.
    pub closed spec fn seen(self) -> Seq<Option<Seq<u8>>> {
        self.seen@
    }

    /// The budget that this fetch was started with.
    pub closed spec fn budget(self) -> FetchBudget {
        self.budget
    }

    /// Starts a fetch: nothing has been read yet.
    pub fn new(budget: FetchBudget) -> (r: Self)
        ensures
            r.seen() == Seq::<Option<Seq<u8>>>::empty(),
            r.budget() == budget,
    {
        Collector {
            budget,
            buffer: Vec::new(),
            room: budget.max_bytes,
            to_skip: budget.skip_chunks,
            seen: Ghost(Seq::empty()),
        }
    }

    /// Throws away one of the leading reads, whatever it delivered.
    fn pass_over(self, read: Ghost<Option<Seq<u8>>>) -> (next: Self)
        requires
            self.seen().len() < self.budget().skip_chunks,
        ensures
            next.seen() == self.seen().push(read@),
            next.budget() == self.budget(),
            !halted(next.seen(), next.budget()),
    {
        proof {
            use_type_invariant(&self);
            let longer = kept(self.seen@.push(read@), self.budget.skip_chunks);
            assert(longer.len() == 0);
            lemma_first_fault(longer);
        }
        let Collector { budget, buffer, room, to_skip, seen } = self;
        Collector { budget, buffer, room, to_skip: to_skip - 1, seen: Ghost(seen@.push(read@)) }
    }

    /// Takes in the next chunk of the body.
    ///
    /// The chunk is thrown away while leading reads are still being
    /// skipped. Otherwise as much of it as the budget has room for is kept,
    /// and the fetch is done as soon as the budget is used up.
    pub fn on_chunk(self, chunk: &[u8]) -> (p: Progress)
        ensures
            match p {
                Progress::Reading(next) => {
                    &&& next.seen() == self.seen().push(Some(chunk@))
                    &&& next.budget() == self.budget()
                    &&& !halted(next.seen(), next.budget())
                },
                Progress::Done(r) => {
                    &&& halted(self.seen().push(Some(chunk@)), self.budget())
                    &&& fetched(r) == outcome(self.seen().push(Some(chunk@)), self.budget())
                },
            },
    {
        proof {
            use_type_invariant(&self);
        }
        let ghost before = self.seen@;
        let ghost after = before.push(Some(chunk@));
        let ghost counted = kept(before, self.budget.skip_chunks);
        let ghost longer = kept(after, self.budget.skip_chunks);
        if self.to_skip > 0 {
            return Progress::Reading(self.pass_over(Ghost(Some(chunk@))));
        }
        let Collector { budget, mut buffer, room, to_skip, seen } = self;
        proof {
            assert(longer =~= counted.push(Some(chunk@)));
            lemma_payload_push(counted, Some(chunk@));
            lemma_first_fault_is(longer, longer.len() as int);
            assert(longer.take(longer.len() as int) =~= longer);
        }
        if chunk.len() >= room {
            buffer.extend_from_slice(slice_subrange(chunk, 0, room));
            proof {
                let body = payload(longer);
                assert(buffer@ =~= payload(counted) + chunk@.subrange(0, room as int));
                if body.len() <= budget.max_bytes {
                    assert(buffer@ =~= body);
                } else {
                    assert(buffer@ =~= body.take(budget.max_bytes as int));
                }
            }
            Progress::Done(Ok(buffer))
        } else {
            buffer.extend_from_slice(chunk);
            proof {
                assert(buffer@ =~= payload(longer));
            }
            Progress::Reading(
                Collector { budget, buffer, room: room - chunk.len(), to_skip, seen: Ghost(after) },
            )
        }
    }

    /// Takes in a read that failed.
    ///
    /// A failed read counts as one of the leading reads while those are
    /// still being skipped. Otherwise the fetch is done, and has failed.
    pub fn on_fault(self) -> (p: Progress)
        ensures
            match p {
                Progress::Reading(next) => {
                    &&& next.seen() == self.seen().push(None)
                    &&& next.budget() == self.budget()
                    &&& !halted(next.seen(), next.budget())
                },
                Progress::Done(r) => {
                    &&& halted(self.seen().push(None), self.budget())
                    &&& r == Err::<Vec<u8>, FetchError>(FetchError::Transport)
                    &&& fetched(r) == outcome(self.seen().push(None), self.budget())
                },
            },
    {
        proof {
            use_type_invariant(&self);
        }
        let ghost before = self.seen@;
        let ghost after = before.push(None);
        let ghost counted = kept(before, self.budget.skip_chunks);
        let ghost longer = kept(after, self.budget.skip_chunks);
        if self.to_skip > 0 {
            return Progress::Reading(self.pass_over(Ghost(None)));
        }
        let Collector { budget, buffer, room, to_skip, seen } = self;
        proof {
            assert(longer =~= counted.push(None));
            lemma_first_fault_is(longer, counted.len() as int);
            assert(longer.take(counted.len() as int) =~= counted);
        }
        Progress::Done(Err(FetchError::Transport))
    }

    /// Ends the fetch where the stream ended: what was gathered is the result.
    pub fn finish(self) -> (r: Vec<u8>)
        ensures
            outcome(self.seen(), self.budget()) == Ok::<Seq<u8>, FetchError>(r@),
            r@.len() <= self.budget().max_bytes,
    {
        proof {
            use_type_invariant(&self);
            let counted = kept(self.seen@, self.budget.skip_chunks);
            lemma_first_fault_is(counted, counted.len() as int);
            assert(counted.take(counted.len() as int) =~= counted);
            assert(payload(Seq::<Option<Seq<u8>>>::empty()).len() == 0);
        }
        self.buffer
    }
}

/// Collects a whole recorded stream: `None` stands for a read that failed.
///
/// Reads are taken in until the fetch is done or they run out, so a read
/// behind the point where the fetch is done has no say in the result.
pub fn collect(reads: &Vec<Option<Vec<u8>>>, budget: FetchBudget) -> (r: Result<
    Vec<u8>,
    FetchError,
>)
    ensures
        fetched(r) == outcome(reads.deep_view(), budget),
        r matches Ok(buffer) ==> buffer@.len() <= budget.max_bytes,
{
    let ghost all = reads.deep_view();
    let mut collector = Collector::new(budget);
    let mut i: usize = 0;
    while i < reads.len()
        invariant
            i <= reads.len(),
            all == reads.deep_view(),
            collector.seen() == all.take(i as int),
            collector.budget() == budget,
        decreases reads.len() - i,
    {
        let progress = match &reads[i] {
            Some(chunk) => {
                assert(all[i as int] == Some(chunk@)) by {
                    assert(chunk.deep_view() =~= chunk@);
                }
                collector.on_chunk(chunk.as_slice())
            },
            None => collector.on_fault(),
        };
        proof {
            assert(all.take(i + 1) =~= all.take(i as int).push(all[i as int]));
        }
        match progress {
            Progress::Reading(next) => {
                collector = next;
            },
            Progress::Done(r) => {
                proof {
                    lemma_early_stop(all.take(i + 1), all.skip(i + 1), budget);
                    assert(all.take(i + 1) + all.skip(i + 1) =~= all);
                    lemma_outcome_within_budget(all, budget);
                }
                return r;
            },
        }
        i += 1;
    }
    proof {
        assert(all.take(i as int) =~= all);
    }
    Ok(collector.finish())
}

} // verus!
