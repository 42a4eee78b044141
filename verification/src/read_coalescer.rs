//! Briefly batches positional reads so adjacent DuckDB blocks reach the file
//! layer as one larger read.
//!
//! Waiting and waking are the caller's. One caller at a time leads: it takes
//! batches off the queue, reads them and hands the results out until the queue
//! is empty.

use std::collections::VecDeque;

use vstd::prelude::*;

use crate::error;
use crate::error::{Error, Result};
use crate::text;
use crate::text::{decimal_text, join3};

verus! {

/// Where errors say that they come from if they come from here.
pub const HERE: &'static str = "src/read_coalescer.rs";

/// Most requests that one batch takes.
pub const MAX_BATCH_REQUESTS: usize = 16;

/// Most bytes that several requests are merged into.
pub const MAX_MERGED_READ_BYTES: usize = 4194304;

/// One caller's positional read.
#[derive(Clone, Copy, Debug, PartialEq, Eq, Structural)]
pub struct ReadRequest {
    pub offset: u64,
    pub len: usize,
}

impl ReadRequest {
    /// One past the last byte that is read.
    pub open spec fn end(self) -> int {
        self.offset + self.len
    }
}

/// One read that serves several requests.
#[derive(Debug, PartialEq, Eq)]
pub struct MergedRead {
    pub offset: u64,
    pub len: usize,
    pub request_indices: Vec<usize>,
}

/// What a [`MergedRead`] says.
#[verifier::ext_equal]
pub struct Merged {
    pub offset: u64,
    pub len: usize,
    pub request_indices: Seq<usize>,
}

impl View for MergedRead {
    type V = Merged;

    open spec fn view(&self) -> Merged {
        Merged { offset: self.offset, len: self.len, request_indices: self.request_indices@ }
    }
}

impl Merged {
    /// One past the last byte that is read.
    pub open spec fn end(self) -> int {
        self.offset + self.len
    }
}

/// What a list of merged reads says.
pub open spec fn merged_views(merged: Seq<MergedRead>) -> Seq<Merged> {
    merged.map_values(|read: MergedRead| read@)
}

/// Whether `a` is to be served before `b`: by offset, then as they came.
pub open spec fn before(requests: Seq<ReadRequest>, a: usize, b: usize) -> bool {
    requests[a as int].offset < requests[b as int].offset || (requests[a as int].offset
        == requests[b as int].offset && a < b)
}

/// Whether `order` lists the first `n` requests, each once, by offset.
pub open spec fn lists_by_offset(order: Seq<usize>, requests: Seq<ReadRequest>, n: int) -> bool {
    &&& order.len() == n
    &&& forall|i: int| 0 <= i < order.len() ==> (#[trigger] order[i]) < n
    &&& forall|i: int, j: int|
        #![trigger order[i], order[j]]
        0 <= i < j < order.len() ==> before(requests, order[i], order[j])
    &&& forall|k: usize| k < n ==> #[trigger] order.contains(k)
}

/// Where a merged read ends once `request` is part of it.
pub open spec fn joined_end(current: Merged, request: ReadRequest) -> int {
    if current.end() < request.end() {
        request.end()
    } else {
        current.end()
    }
}

/// Whether `request` can be part of `current`: it leaves no gap, and together
/// they stay within the limit.
pub open spec fn joins(current: Merged, request: ReadRequest) -> bool {
    &&& request.offset <= current.end()
    &&& joined_end(current, request) - current.offset <= MAX_MERGED_READ_BYTES
}

/// The merged reads that serve the requests in `order`, each request joined to
/// the read before it where it can be.
pub open spec fn merged_in_order(requests: Seq<ReadRequest>, order: Seq<usize>) -> Seq<Merged>
    decreases order.len(),
{
    if order.len() == 0 {
        Seq::empty()
    } else {
        let before = merged_in_order(requests, order.drop_last());
        let index = order.last();
        let request = requests[index as int];
        if before.len() > 0 && joins(before.last(), request) {
            let current = before.last();
            before.drop_last().push(
                Merged {
                    offset: current.offset,
                    len: (joined_end(current, request) - current.offset) as usize,
                    request_indices: current.request_indices.push(index),
                },
            )
        } else {
            before.push(
                Merged {
                    offset: request.offset,
                    len: request.len,
                    request_indices: seq![index],
                },
            )
        }
    }
}

/// Whether some request reads past the largest offset there is.
pub open spec fn some_overflow(requests: Seq<ReadRequest>) -> bool {
    exists|i: int| 0 <= i < requests.len() && (#[trigger] requests[i]).end() > u64::MAX
}

/// Sorts the indices of requests by offset, ties as they came.
fn order_by_offset(requests: &[ReadRequest]) -> (r: Vec<usize>)
    ensures
        lists_by_offset(r@, requests@, requests@.len() as int),
{
    let mut order: Vec<usize> = Vec::new();
    let mut n: usize = 0;
    while n < requests.len()
        invariant
            n <= requests@.len(),
            lists_by_offset(order@, requests@, n as int),
        decreases requests@.len() - n,
    {
        let mut at: usize = order.len();
        while at > 0 && requests[order[at - 1]].offset > requests[n].offset
            invariant
                at <= order@.len(),
                n < requests@.len(),
                lists_by_offset(order@, requests@, n as int),
                forall|i: int|
                    at <= i < order@.len() ==> requests@[(#[trigger] order@[i]) as int].offset
                        > requests@[n as int].offset,
            decreases at,
        {
            at = at - 1;
        }
        let ghost previous = order@;
        order.insert(at, n);
        proof {
            assert(order@ == previous.insert(at as int, n));
            assert forall|i: int, j: int|
                #![trigger order@[i], order@[j]]
                0 <= i < j < order@.len() implies before(requests@, order@[i], order@[j]) by {
                if i < at && j == at {
                    assert(before(requests@, previous[i], previous[at - 1]) || i == at - 1);
                } else if i == at {
                    assert(order@[j] == previous[j - 1]);
                } else if i < at && j < at {
                    assert(before(requests@, previous[i], previous[j]));
                } else if i < at {
                    assert(before(requests@, previous[i], previous[j - 1]));
                } else {
                    assert(before(requests@, previous[i - 1], previous[j - 1]));
                }
            }
            assert forall|k: usize| k < n + 1 implies #[trigger] order@.contains(k) by {
                if k == n {
                    assert(order@[at as int] == n);
                } else {
                    assert(previous.contains(k));
                    let i = previous.index_of(k);
                    if i < at {
                        assert(order@[i] == k);
                    } else {
                        assert(order@[i + 1] == k);
                    }
                }
            }
        }
        n = n + 1;
    }
    order
}

/// Merges requests that touch or overlap, as long as they stay within
/// [`MAX_MERGED_READ_BYTES`].
pub fn merge_read_requests(requests: &[ReadRequest]) -> (r: Result<Vec<MergedRead>>)
    ensures
        r is Err <==> some_overflow(requests@),
        r matches Err(e) ==> e@ == error::invalid_argument_error(
            "coalesced read offset overflow"@,
            HERE@,
        ),
        r matches Ok(merged) ==> exists|order: Seq<usize>| #[trigger]
            lists_by_offset(order, requests@, requests@.len() as int) && merged_views(merged@)
                == merged_in_order(requests@, order),
{
    let order = order_by_offset(requests);
    let mut merged: Vec<MergedRead> = Vec::new();
    let mut n: usize = 0;
    proof {
        assert(order@.take(0) =~= Seq::empty());
        assert(merged_views(merged@) =~= Seq::empty());
    }
    while n < order.len()
        invariant
            n <= order@.len(),
            lists_by_offset(order@, requests@, requests@.len() as int),
            merged_views(merged@) == merged_in_order(requests@, order@.take(n as int)),
            forall|i: int|
                0 <= i < merged@.len() ==> (#[trigger] merged@[i])@.end() <= u64::MAX,
            forall|i: int|
                0 <= i < n ==> requests@[(#[trigger] order@[i]) as int].end() <= u64::MAX,
        decreases order@.len() - n,
    {
        let index: usize = order[n];
        let request = requests[index];
        let ghost upto = order@.take(n + 1);
        proof {
            assert(upto.drop_last() =~= order@.take(n as int));
            assert(upto.last() == index);
        }
        let request_end: u64 = match request.offset.checked_add(request.len as u64) {
            Some(request_end) => request_end,
            None => {
                assert(requests@[index as int].end() > u64::MAX);
                return Err(Error::invalid_argument(
                    "coalesced read offset overflow".to_string(),
                    HERE,
                ));
            },
        };
        let ghost so_far = merged@;
        let ghost so_far_views = merged_views(merged@);
        let last = merged.pop();
        proof {
            if so_far.len() > 0 {
                assert(so_far_views.last() == so_far.last()@);
                assert(merged_views(merged@) =~= so_far_views.drop_last());
                assert(so_far[so_far.len() - 1]@.end() <= u64::MAX);
            }
        }
        match last {
            Some(current) => {
                let current_end: u64 = current.offset + current.len as u64;
                let merged_end: u64 = if current_end < request_end {
                    request_end
                } else {
                    current_end
                };
                if request.offset <= current_end && merged_end - current.offset
                    <= MAX_MERGED_READ_BYTES as u64 {
                    let ghost joined = current@;
                    let mut request_indices = current.request_indices;
                    request_indices.push(index);
                    let extended = MergedRead {
                        offset: current.offset,
                        len: (merged_end - current.offset) as usize,
                        request_indices,
                    };
                    let ghost kept = merged@;
                    merged.push(extended);
                    proof {
                        assert(merged_views(merged@) =~= merged_views(kept).push(extended@));
                        assert(joins(joined, request));
                    }
                } else {
                    merged.push(current);
                    assert(merged@ =~= so_far);
                    let mut request_indices: Vec<usize> = Vec::new();
                    request_indices.push(index);
                    let alone = MergedRead {
                        offset: request.offset,
                        len: request.len,
                        request_indices,
                    };
                    merged.push(alone);
                    proof {
                        assert(alone@.request_indices =~= seq![index]);
                        assert(merged_views(merged@) =~= so_far_views.push(alone@));
                    }
                }
            },
            None => {
                let mut request_indices: Vec<usize> = Vec::new();
                request_indices.push(index);
                let alone = MergedRead { offset: request.offset, len: request.len, request_indices };
                merged.push(alone);
                proof {
                    assert(alone@.request_indices =~= seq![index]);
                    assert(merged_views(merged@) =~= so_far_views.push(alone@));
                }
            },
        }
        n = n + 1;
    }
    proof {
        assert(order@.take(n as int) =~= order@);
        assert forall|i: int| 0 <= i < requests@.len() implies (#[trigger] requests@[i]).end()
            <= u64::MAX by {
            assert(order@.contains(i as usize));
            let k = order@.index_of(i as usize);
            assert(requests@[order@[k] as int].end() <= u64::MAX);
        }
    }
    Ok(merged)
}

/// The requests that merged reads serve, one read after the other.
pub open spec fn served(merged: Seq<Merged>) -> Seq<usize>
    decreases merged.len(),
{
    if merged.len() == 0 {
        Seq::empty()
    } else {
        served(merged.drop_last()) + merged.last().request_indices
    }
}

/// Whether a merged read covers each request it serves, and stays within the
/// limit unless it serves a single one.
pub open spec fn serves_its_requests(read: Merged, requests: Seq<ReadRequest>) -> bool {
    &&& read.request_indices.len() > 0
    &&& read.len <= MAX_MERGED_READ_BYTES || read.request_indices.len() == 1
    &&& forall|i: int|
        0 <= i < read.request_indices.len() ==> {
            let request = requests[(#[trigger] read.request_indices[i]) as int];
            read.offset <= request.offset && request.end() <= read.end()
        }
}

/// Merged reads serve every request exactly once, in order; each covers the
/// requests it serves; and none is over the limit for the sake of merging.
pub proof fn merged_reads_serve_every_request(requests: Seq<ReadRequest>, order: Seq<usize>)
    requires
        forall|i: int| 0 <= i < order.len() ==> (#[trigger] order[i]) < requests.len(),
        forall|i: int, j: int|
            #![trigger order[i], order[j]]
            0 <= i < j < order.len() ==> before(requests, order[i], order[j]),
        !some_overflow(requests),
    ensures
        served(merged_in_order(requests, order)) == order,
        forall|i: int|
            0 <= i < merged_in_order(requests, order).len() ==> serves_its_requests(
                #[trigger] merged_in_order(requests, order)[i],
                requests,
            ),
    decreases order.len(),
{
    let merged = merged_in_order(requests, order);
    if order.len() > 0 {
        let less = order.drop_last();
        let previous = merged_in_order(requests, less);
        let index = order.last();
        let request = requests[index as int];
        assert(order[order.len() - 1] == index);
        assert(request.end() <= u64::MAX);
        assert forall|i: int| 0 <= i < less.len() implies (#[trigger] less[i])
            < requests.len() by {
            assert(less[i] == order[i]);
        }
        assert forall|i: int, j: int|
            #![trigger less[i], less[j]]
            0 <= i < j < less.len() implies before(requests, less[i], less[j]) by {
            assert(less[i] == order[i] && less[j] == order[j]);
        }
        merged_reads_serve_every_request(requests, less);
        assert(less.push(index) =~= order);
        if previous.len() > 0 && joins(previous.last(), request) {
            let current = previous.last();
            assert(serves_its_requests(previous[previous.len() - 1], requests));
            assert(merged.drop_last() =~= previous.drop_last());
            assert(served(merged) =~= served(previous).push(index));
            // The first request of the read is one before this one.
            let first = current.request_indices[0];
            lemma_served_contains(previous, previous.len() - 1, 0);
            let k = less.index_of(first);
            assert(order[k] == first);
            assert(before(requests, order[k], order[order.len() - 1]));
            assert(current.offset <= request.offset);
            let joined = merged.last();
            assert forall|i: int| 0 <= i < joined.request_indices.len() implies {
                let r = requests[(#[trigger] joined.request_indices[i]) as int];
                joined.offset <= r.offset && r.end() <= joined.end()
            } by {
                if i < current.request_indices.len() {
                    assert(joined.request_indices[i] == current.request_indices[i]);
                }
            }
        } else {
            assert(merged.drop_last() =~= previous);
            assert(served(merged) =~= served(previous).push(index));
        }
        assert forall|i: int| 0 <= i < merged.len() implies serves_its_requests(
            #[trigger] merged[i],
            requests,
        ) by {
            if i < merged.len() - 1 {
                assert(merged[i] == previous[i]);
            }
        }
    }
}

proof fn lemma_served_contains(merged: Seq<Merged>, j: int, i: int)
    requires
        0 <= j < merged.len(),
        0 <= i < merged[j].request_indices.len(),
    ensures
        served(merged).contains(merged[j].request_indices[i]),
    decreases merged.len(),
{
    let less = served(merged.drop_last());
    let all = served(merged);
    if j == merged.len() - 1 {
        assert(all[less.len() + i] == merged[j].request_indices[i]);
    } else {
        lemma_served_contains(merged.drop_last(), j, i);
        let k = less.index_of(merged[j].request_indices[i]);
        assert(all[k] == merged[j].request_indices[i]);
    }
}

/// A request that merged reads serve is one of those of some read.
pub proof fn served_by_some_read(merged: Seq<Merged>, index: usize) -> (found: (int, int))
    requires
        served(merged).contains(index),
    ensures
        0 <= found.0 < merged.len(),
        0 <= found.1 < merged[found.0].request_indices.len(),
        merged[found.0].request_indices[found.1] == index,
    decreases merged.len(),
{
    let all = served(merged);
    let less = served(merged.drop_last());
    let k = all.index_of(index);
    if k >= less.len() {
        (merged.len() - 1, k - less.len())
    } else {
        assert(less[k] == index);
        served_by_some_read(merged.drop_last(), index)
    }
}

/// A queued read and whoever waits for it.
pub type Queued<T> = (ReadRequest, T);

/// The outcome of a read, for whoever waits for it.
pub type Completion<T> = (T, Result<Vec<u8>>);

/// How reading a batch went.
#[derive(Debug)]
pub enum BatchOutcome {
    /// It returned these results, in the order of the requests.
    Returned(Vec<Result<Vec<u8>>>),
    /// It panicked.
    Panicked,
}

/// The results of a batch, in the order of the requests, unless reading it panicked.
pub type Results = Option<Seq<Result<Vec<u8>>>>;

impl View for BatchOutcome {
    type V = Results;

    open spec fn view(&self) -> Results {
        match self {
            BatchOutcome::Returned(results) => Some(results@),
            BatchOutcome::Panicked => None,
        }
    }
}

/// What a leader does once a batch was read.
#[derive(Debug)]
pub struct BatchEnd<T> {
    /// Results to hand out.
    pub completions: Vec<Completion<T>>,
    /// Whether the leader has another batch to take.
    pub leads_on: bool,
}

/// What a [`ReadCoalescer`] holds.
#[verifier::ext_equal]
pub struct CoalescerState<T> {
    pub leader_active: bool,
    pub queue: Seq<Queued<T>>,
}

/// The queue of reads that wait for a leader.
#[derive(Debug)]
pub struct ReadCoalescer<T> {
    leader_active: bool,
    queue: VecDeque<Queued<T>>,
}

impl<T> View for ReadCoalescer<T> {
    type V = CoalescerState<T>;

    closed spec fn view(&self) -> CoalescerState<T> {
        CoalescerState { leader_active: self.leader_active, queue: self.queue@ }
    }
}

/// How many queued reads a batch takes.
pub open spec fn batch_len(queued: nat) -> nat {
    if queued < MAX_BATCH_REQUESTS {
        queued
    } else {
        MAX_BATCH_REQUESTS as nat
    }
}

/// The error for a reader that returned the wrong number of results.
pub open spec fn count_mismatch_error(results: nat, requests: nat) -> error::ErrorView {
    error::invalid_argument_error(
        "coalesced read returned "@ + text::decimal(results) + " results for "@ + text::decimal(
            requests,
        ) + " requests"@,
        HERE@,
    )
}

/// The error for a reader that panicked.
pub open spec fn panicked_error() -> error::ErrorView {
    error::invalid_argument_error("coalesced read executor panicked"@, HERE@)
}

/// Whether `completions` fail each of `batch` with the same error.
pub open spec fn all_fail<T>(
    completions: Seq<Completion<T>>,
    batch: Seq<Queued<T>>,
    error: error::ErrorView,
) -> bool {
    &&& completions.len() == batch.len()
    &&& forall|i: int|
        0 <= i < batch.len() ==> {
            let completion = #[trigger] completions[i];
            completion.0 == batch[i].1 && (completion.1 matches Err(e) && e@ == error)
        }
}

/// Whether `completions` hand each of `batch` its own result.
pub open spec fn all_answered<T>(
    completions: Seq<Completion<T>>,
    batch: Seq<Queued<T>>,
    results: Seq<Result<Vec<u8>>>,
) -> bool {
    &&& completions.len() == batch.len()
    &&& forall|i: int|
        0 <= i < batch.len() ==> {
            let completion = #[trigger] completions[i];
            completion.0 == batch[i].1 && completion.1 == results[i]
        }
}

/// Nothing queued, and nobody leading.
pub open spec fn at_rest<T>() -> CoalescerState<T> {
    CoalescerState { leader_active: false, queue: Seq::empty() }
}

/// The state once a read is queued: somebody leads.
pub open spec fn enqueued<T>(
    state: CoalescerState<T>,
    request: ReadRequest,
    waiter: T,
) -> CoalescerState<T> {
    CoalescerState { leader_active: true, queue: state.queue.push((request, waiter)) }
}

/// The reads that a leader takes as the next batch.
pub open spec fn next_batch<T>(state: CoalescerState<T>) -> Seq<Queued<T>> {
    state.queue.take(batch_len(state.queue.len()) as int)
}

/// The state once a leader has taken the next batch.
pub open spec fn batch_taken<T>(state: CoalescerState<T>) -> CoalescerState<T> {
    CoalescerState { queue: state.queue.skip(batch_len(state.queue.len()) as int), ..state }
}

/// The requests of a batch.
pub open spec fn requests_in<T>(batch: Seq<Queued<T>>) -> Seq<ReadRequest> {
    batch.map_values(|queued: Queued<T>| queued.0)
}

/// The state once a batch was read, with what was queued meanwhile.
pub open spec fn batch_ended<T>(state: CoalescerState<T>, results: Results) -> CoalescerState<T> {
    if results is Some {
        CoalescerState { leader_active: state.queue.len() > 0, queue: state.queue }
    } else {
        at_rest()
    }
}

/// Whether `completions` are what the reads get once `batch` was read. Each read of
/// the batch gets its own result. The wrong number of results fails the whole
/// batch, and a panic everything that is queued as well.
pub open spec fn hand_out<T>(
    completions: Seq<Completion<T>>,
    state: CoalescerState<T>,
    batch: Seq<Queued<T>>,
    results: Results,
) -> bool {
    match results {
        Some(results) => if results.len() == batch.len() {
            all_answered(completions, batch, results)
        } else {
            all_fail(completions, batch, count_mismatch_error(results.len(), batch.len()))
        },
        None => all_fail(completions, batch + state.queue, panicked_error()),
    }
}

fn count_mismatch(results: usize, requests: usize) -> (r: Error)
    ensures
        r@ == count_mismatch_error(results as nat, requests as nat),
{
    let mut message = join3(
        "coalesced read returned ",
        decimal_text(results as u64).as_str(),
        " results for ",
    );
    message.append(decimal_text(requests as u64).as_str());
    message.append(" requests");
    Error::invalid_argument(message, HERE)
}

fn push_failures<T>(completions: &mut Vec<Completion<T>>, batch: Vec<Queued<T>>, error: &Error)
    ensures
        final(completions)@.len() == old(completions)@.len() + batch@.len(),
        final(completions)@.take(old(completions)@.len() as int) == old(completions)@,
        all_fail(final(completions)@.skip(old(completions)@.len() as int), batch@, error@),
{
    let ghost all = batch@;
    let ghost start = completions@.len();
    let mut left = batch;
    let mut n: usize = 0;
    let total = left.len();
    assert(all.skip(0) =~= all);
    while left.len() > 0
        invariant
            all == batch@,
            n <= total,
            total == all.len(),
            left@ == all.skip(n as int),
            start == old(completions)@.len(),
            completions@.len() == start + n,
            completions@.take(start as int) == old(completions)@,
            forall|i: int|
                0 <= i < n ==> {
                    let completion = #[trigger] completions@[start + i];
                    completion.0 == all[i].1 && (completion.1 matches Err(e) && e@ == error@)
                },
        decreases left@.len(),
    {
        let ghost so_far = completions@;
        let (_, waiter) = left.remove(0);
        completions.push((waiter, Err(error.clone())));
        proof {
            assert(left@ =~= all.skip(n + 1));
            assert(completions@.take(start as int) =~= so_far.take(start as int));
        }
        n = n + 1;
    }
    proof {
        let added = completions@.skip(start as int);
        assert forall|i: int| 0 <= i < all.len() implies {
            let completion = #[trigger] added[i];
            completion.0 == all[i].1 && (completion.1 matches Err(e) && e@ == error@)
        } by {
            assert(added[i] == completions@[start + i]);
        }
    }
}

impl<T> ReadCoalescer<T> {
    /// Whether nothing is queued while nobody leads.
    pub open spec fn wf(self) -> bool {
        !self@.leader_active ==> self@.queue.len() == 0
    }

    /// Nothing queued, and nobody leading.
    pub fn new() -> (r: Self)
        ensures
            r.wf(),
            r@ == at_rest::<T>(),
    {
        ReadCoalescer { leader_active: false, queue: VecDeque::new() }
    }

    /// Queues a read. Whoever queues one while nobody leads is to lead.
    pub fn enqueue(&mut self, request: ReadRequest, waiter: T) -> (is_leader: bool)
        requires
            old(self).wf(),
        ensures
            final(self).wf(),
            is_leader == !old(self)@.leader_active,
            final(self)@ == enqueued(old(self)@, request, waiter),
    {
        self.queue.push_back((request, waiter));
        let is_leader = !self.leader_active;
        if is_leader {
            self.leader_active = true;
        }
        is_leader
    }

    /// Returns whether somebody leads.
    pub fn is_led(&self) -> (r: bool)
        ensures
            r == self@.leader_active,
    {
        self.leader_active
    }

    /// Whether a leader need not wait for more reads to come.
    pub fn batch_is_full(&self) -> (r: bool)
        ensures
            r <==> self@.queue.len() >= MAX_BATCH_REQUESTS,
    {
        self.queue.len() >= MAX_BATCH_REQUESTS
    }

    /// Takes the reads that came first off the queue, as many as a batch takes.
    pub fn take_batch(&mut self) -> (r: Vec<Queued<T>>)
        ensures
            r@ == next_batch(old(self)@),
            final(self)@ == batch_taken(old(self)@),
    {
        let ghost all = self@.queue;
        let queued = self.queue.len();
        let count: usize = if queued < MAX_BATCH_REQUESTS {
            queued
        } else {
            MAX_BATCH_REQUESTS
        };
        let mut batch: Vec<Queued<T>> = Vec::new();
        proof {
            assert(all.take(0) =~= batch@);
            assert(all.skip(0) =~= all);
        }
        let mut n: usize = 0;
        while n < count
            invariant
                n <= count <= all.len(),
                batch@ == all.take(n as int),
                self@.queue == all.skip(n as int),
                self@.leader_active == old(self)@.leader_active,
            decreases count - n,
        {
            if let Some(queued) = self.queue.pop_front() {
                batch.push(queued);
            }
            proof {
                assert(batch@ =~= all.take(n + 1));
                assert(self@.queue =~= all.skip(n + 1));
            }
            n = n + 1;
        }
        batch
    }

    /// The requests of a batch.
    pub fn requests_of(batch: &Vec<Queued<T>>) -> (r: Vec<ReadRequest>)
        ensures
            r@ == requests_in(batch@),
    {
        let mut requests: Vec<ReadRequest> = Vec::new();
        let mut i: usize = 0;
        while i < batch.len()
            invariant
                i <= batch@.len(),
                requests@.len() == i,
                forall|k: int| 0 <= k < i ==> #[trigger] requests@[k] == batch@[k].0,
            decreases batch@.len() - i,
        {
            requests.push(batch[i].0);
            i = i + 1;
        }
        assert(requests@ =~= requests_in(batch@));
        requests
    }

    /// Says who gets what once a batch was read, and whether the leader takes
    /// another batch.
    ///
    /// Each read of the batch gets its own result. A reader that returned the
    /// wrong number of results fails the whole batch; one that panicked fails
    /// everything that is queued as well, and ends the lead.
    pub fn complete_batch(&mut self, batch: Vec<Queued<T>>, outcome: BatchOutcome) -> (r: BatchEnd<T>)
        requires
            old(self)@.leader_active,
        ensures
            final(self).wf(),
            hand_out(r.completions@, old(self)@, batch@, outcome@),
            r.leads_on == final(self)@.leader_active,
            final(self)@ == batch_ended(old(self)@, outcome@),
    {
        let mut completions: Vec<Completion<T>> = Vec::new();
        match outcome {
            BatchOutcome::Returned(results) => {
                if results.len() == batch.len() {
                    let ghost all = batch@;
                    let ghost answers = results@;
                    let mut left = batch;
                    let mut results = results;
                    let total = left.len();
                    let mut n: usize = 0;
                    proof {
                        assert(all.skip(0) =~= all);
                        assert(answers.skip(0) =~= answers);
                    }
                    while left.len() > 0
                        invariant
                            n <= total,
                            total == all.len(),
                            answers.len() == all.len(),
                            left@ == all.skip(n as int),
                            results@ == answers.skip(n as int),
                            completions@.len() == n,
                            forall|i: int|
                                0 <= i < n ==> {
                                    let completion = #[trigger] completions@[i];
                                    completion.0 == all[i].1 && completion.1 == answers[i]
                                },
                        decreases left@.len(),
                    {
                        let (_, waiter) = left.remove(0);
                        completions.push((waiter, results.remove(0)));
                        proof {
                            assert(left@ =~= all.skip(n + 1));
                            assert(results@ =~= answers.skip(n + 1));
                        }
                        n = n + 1;
                    }
                } else {
                    let error = count_mismatch(results.len(), batch.len());
                    push_failures(&mut completions, batch, &error);
                    assert(completions@.skip(0) =~= completions@);
                }
                let leads_on = self.queue.len() > 0;
                if !leads_on {
                    self.leader_active = false;
                }
                BatchEnd { completions, leads_on }
            },
            BatchOutcome::Panicked => {
                let error = Error::invalid_argument(
                    "coalesced read executor panicked".to_string(),
                    HERE,
                );
                let ghost all = batch@ + self@.queue;
                let ghost n = batch@.len();
                push_failures(&mut completions, batch, &error);
                let ghost first = completions@;
                let queued = self.drain_queue();
                push_failures(&mut completions, queued, &error);
                proof {
                    assert(completions@.take(n as int) =~= first);
                    assert forall|i: int| 0 <= i < all.len() implies {
                        let completion = #[trigger] completions@[i];
                        completion.0 == all[i].1 && (completion.1 matches Err(e) && e@
                            == panicked_error())
                    } by {
                        if i < n {
                            assert(first.skip(0)[i] == first[i]);
                            assert(completions@.take(n as int)[i] == completions@[i]);
                        } else {
                            assert(completions@.skip(n as int)[i - n] == completions@[i]);
                        }
                    }
                }
                BatchEnd { completions, leads_on: false }
            },
        }
    }

    /// Ends the lead and takes everything off the queue.
    fn drain_queue(&mut self) -> (r: Vec<Queued<T>>)
        ensures
            r@ == old(self)@.queue,
            final(self)@ == (CoalescerState {
                leader_active: false,
                queue: Seq::<Queued<T>>::empty(),
            }),
    {
        let ghost all = self@.queue;
        self.leader_active = false;
        let mut drained: Vec<Queued<T>> = Vec::new();
        assert(drained@ + self@.queue =~= all);
        while self.queue.len() > 0
            invariant
                !self@.leader_active,
                drained@ + self@.queue == all,
            decreases self@.queue.len(),
        {
            if let Some(queued) = self.queue.pop_front() {
                drained.push(queued);
            }
            assert(drained@ + self@.queue =~= all);
        }
        proof {
            assert(drained@ =~= all);
            assert(self@.queue =~= Seq::<Queued<T>>::empty());
        }
        drained
    }
}

/// A panic leaves neither a stuck leader nor a leftover read. Once reading for a
/// lone caller panicked, that caller has its error, and the next lone caller leads,
/// has exactly its own request read and gets its own result.
pub proof fn a_panic_leaves_nothing_behind<T>(
    first_request: ReadRequest,
    first_waiter: T,
    first_completions: Seq<Completion<T>>,
    request: ReadRequest,
    waiter: T,
    result: Result<Vec<u8>>,
    completions: Seq<Completion<T>>,
)
    requires
        ({
            let state = enqueued(at_rest(), first_request, first_waiter);
            hand_out(first_completions, batch_taken(state), next_batch(state), None)
        }),
        ({
            let state = enqueued(at_rest(), request, waiter);
            hand_out(completions, batch_taken(state), next_batch(state), Some(seq![result]))
        }),
    ensures
        ({
            let first = enqueued(at_rest(), first_request, first_waiter);
            let after_panic = batch_ended(batch_taken(first), None);
            let next = enqueued(after_panic, request, waiter);
            let after = batch_ended(batch_taken(next), Some(seq![result]));
            &&& first_completions.len() == 1
            &&& first_completions[0].0 == first_waiter
            &&& (first_completions[0].1 matches Err(e) && e@ == panicked_error())
            &&& !after_panic.leader_active
            &&& requests_in(next_batch(next)) == seq![request]
            &&& completions == seq![(waiter, result)]
            &&& after == at_rest::<T>()
        }),
{
    lemma_lone_read(first_request, first_waiter);
    lemma_lone_read(request, waiter);
    assert(first_completions[0].0 == first_waiter);
    assert(completions =~= seq![(waiter, result)]);
}

/// A lone read is all that its batch holds.
proof fn lemma_lone_read<T>(request: ReadRequest, waiter: T)
    ensures
        ({
            let state = enqueued(at_rest(), request, waiter);
            &&& next_batch(state) == seq![(request, waiter)]
            &&& batch_taken(state).queue == Seq::<Queued<T>>::empty()
            &&& requests_in(next_batch(state)) == seq![request]
            &&& next_batch(state) + batch_taken(state).queue == seq![(request, waiter)]
        }),
{
    let state = enqueued(at_rest(), request, waiter);
    assert(next_batch(state) =~= seq![(request, waiter)]);
    assert(batch_taken(state).queue =~= Seq::<Queued<T>>::empty());
    assert(requests_in(next_batch(state)) =~= seq![request]);
    assert(next_batch(state) + batch_taken(state).queue =~= seq![(request, waiter)]);
}

/// A batch that a leader had read: the results, and what was handed out.
pub struct ReadBatch<T> {
    pub results: Seq<Result<Vec<u8>>>,
    pub completions: Seq<Completion<T>>,
}

/// Whether `batches` are a leader's whole run from `state`, with as many results for
/// each batch as it has reads and nothing queued meanwhile.
pub open spec fn is_lead<T>(state: CoalescerState<T>, batches: Seq<ReadBatch<T>>) -> bool
    decreases batches.len(),
{
    if batches.len() == 0 {
        !state.leader_active
    } else {
        let taken = batch_taken(state);
        &&& state.leader_active
        &&& batches[0].results.len() == next_batch(state).len()
        &&& hand_out(
            batches[0].completions,
            taken,
            next_batch(state),
            Some(batches[0].results),
        )
        &&& is_lead(batch_ended(taken, Some(batches[0].results)), batches.drop_first())
    }
}

/// The results of a run, one batch after the other.
pub open spec fn results_of<T>(batches: Seq<ReadBatch<T>>) -> Seq<Result<Vec<u8>>>
    decreases batches.len(),
{
    if batches.len() == 0 {
        Seq::empty()
    } else {
        batches[0].results + results_of(batches.drop_first())
    }
}

/// What a run handed out, one batch after the other.
pub open spec fn handed_out<T>(batches: Seq<ReadBatch<T>>) -> Seq<Completion<T>>
    decreases batches.len(),
{
    if batches.len() == 0 {
        Seq::empty()
    } else {
        batches[0].completions + handed_out(batches.drop_first())
    }
}

/// A leader's whole run answers every read that is queued, each once, in order and
/// with its own result.
pub proof fn a_lead_answers_every_read<T>(
    state: CoalescerState<T>,
    batches: Seq<ReadBatch<T>>,
)
    requires
        !state.leader_active ==> state.queue.len() == 0,
        is_lead(state, batches),
    ensures
        results_of(batches).len() == state.queue.len(),
        all_answered(handed_out(batches), state.queue, results_of(batches)),
    decreases batches.len(),
{
    if batches.len() > 0 {
        let batch = next_batch(state);
        let taken = batch_taken(state);
        let rest = batches.drop_first();
        a_lead_answers_every_read(batch_ended(taken, Some(batches[0].results)), rest);
        let n = batch.len();
        assert(state.queue =~= batch + taken.queue);
        let completions = handed_out(batches);
        let results = results_of(batches);
        assert forall|i: int| 0 <= i < state.queue.len() implies {
            let completion = #[trigger] completions[i];
            completion.0 == state.queue[i].1 && completion.1 == results[i]
        } by {
            if i < n {
                assert(completions[i] == batches[0].completions[i]);
            } else {
                assert(completions[i] == handed_out(rest)[i - n]);
            }
        }
    }
}

/// Requests are refused exactly if one of them reads past the largest offset there is.
pub proof fn only_reads_past_the_largest_offset_are_refused(requests: Seq<ReadRequest>, i: int)
    ensures
        0 <= i < requests.len() && requests[i].offset + requests[i].len > u64::MAX
            ==> some_overflow(requests),
        (forall|k: int|
            0 <= k < requests.len() ==> (#[trigger] requests[k]).offset + requests[k].len
                <= u64::MAX) ==> !some_overflow(requests),
{
    if 0 <= i < requests.len() && requests[i].offset + requests[i].len > u64::MAX {
        assert(requests[i].end() > u64::MAX);
    }
}

/// The requests are served in the order of their offsets, every one of them, and none
/// twice.
pub proof fn every_request_is_listed_once(
    requests: Seq<ReadRequest>,
    order: Seq<usize>,
    i: int,
    j: int,
)
    requires
        lists_by_offset(order, requests, requests.len() as int),
    ensures
        order.len() == requests.len(),
        0 <= i < j < order.len() ==> order[i] != order[j] && requests[order[i] as int].offset
            <= requests[order[j] as int].offset,
        0 <= i < requests.len() && i <= usize::MAX ==> order.contains(i as usize),
        0 <= i < order.len() ==> order[i] < requests.len(),
{
    if 0 <= i < j < order.len() {
        assert(before(requests, order[i], order[j]));
    }
}

/// Whether a merged read is made of its requests: it starts where the first of them
/// does, ends where one of them does, and each byte of it is asked for.
pub open spec fn is_made_of_its_requests(read: Merged, requests: Seq<ReadRequest>) -> bool {
    let served = read.request_indices;
    &&& served.len() > 0
    &&& read.offset == requests[served[0] as int].offset
    &&& exists|i: int|
        0 <= i < served.len() && read.offset + read.len == requests[(
        #[trigger] served[i]) as int].offset + requests[served[i] as int].len
    &&& forall|at: int|
        #![trigger asked_for(read, requests, at)]
        read.offset <= at < read.offset + read.len ==> asked_for(read, requests, at)
}

/// Whether one of the requests that a merged read serves asks for the byte at `at`.
pub open spec fn asked_for(read: Merged, requests: Seq<ReadRequest>, at: int) -> bool {
    exists|i: int|
        0 <= i < read.request_indices.len() && requests[(
        #[trigger] read.request_indices[i]) as int].offset <= at
            < requests[read.request_indices[i] as int].offset
            + requests[read.request_indices[i] as int].len
}

/// Merged reads read nothing that was not asked for, and requests are merged wherever
/// they can be: a read starts anew only behind a gap, or where the read before it would
/// become too large.
pub proof fn requests_are_merged_wherever_they_can_be(
    requests: Seq<ReadRequest>,
    order: Seq<usize>,
)
    requires
        forall|i: int| 0 <= i < order.len() ==> (#[trigger] order[i]) < requests.len(),
        forall|i: int, j: int|
            #![trigger order[i], order[j]]
            0 <= i < j < order.len() ==> before(requests, order[i], order[j]),
        !some_overflow(requests),
    ensures
        ({
            let merged = merged_in_order(requests, order);
            &&& forall|i: int|
                0 <= i < merged.len() ==> is_made_of_its_requests(#[trigger] merged[i], requests)
            &&& forall|i: int|
                0 <= i < merged.len() - 1 ==> {
                    let read = #[trigger] merged[i];
                    let read_end = read.offset + read.len;
                    let next = requests[merged[i + 1].request_indices[0] as int];
                    let next_end = next.offset + next.len;
                    ||| next.offset > read_end
                    ||| next_end - read.offset > MAX_MERGED_READ_BYTES
                    ||| read.len > MAX_MERGED_READ_BYTES
                }
        }),
    decreases order.len(),
{
    let merged = merged_in_order(requests, order);
    if order.len() > 0 {
        let less = order.drop_last();
        let previous = merged_in_order(requests, less);
        let index = order.last();
        let request = requests[index as int];
        assert(order[order.len() - 1] == index);
        assert(request.end() <= u64::MAX);
        assert forall|i: int| 0 <= i < less.len() implies (#[trigger] less[i])
            < requests.len() by {
            assert(less[i] == order[i]);
        }
        assert forall|i: int, j: int|
            #![trigger less[i], less[j]]
            0 <= i < j < less.len() implies before(requests, less[i], less[j]) by {
            assert(less[i] == order[i] && less[j] == order[j]);
        }
        requests_are_merged_wherever_they_can_be(requests, less);
        merged_reads_serve_every_request(requests, less);
        let fresh = !(previous.len() > 0 && joins(previous.last(), request));
        if fresh {
            let alone = merged.last();
            assert(merged.drop_last() =~= previous);
            assert(alone.request_indices[0] == index);
            assert forall|at: int|
                #![trigger asked_for(alone, requests, at)]
                alone.offset <= at < alone.offset + alone.len implies asked_for(
                alone,
                requests,
                at,
            ) by {
                assert(requests[alone.request_indices[0] as int] == request);
            }
            assert(is_made_of_its_requests(alone, requests));
        } else {
            let current = previous.last();
            let joined = merged.last();
            assert(previous[previous.len() - 1] == current);
            assert(is_made_of_its_requests(current, requests));
            assert(serves_its_requests(previous[previous.len() - 1], requests));
            let first = current.request_indices[0];
            lemma_served_contains(previous, previous.len() - 1, 0);
            let k = less.index_of(first);
            assert(order[k] == first);
            assert(before(requests, order[k], order[order.len() - 1]));
            assert(current.offset <= request.offset);
            let m = current.request_indices.len() as int;
            assert(joined.request_indices[0] == current.request_indices[0]);
            assert(joined.request_indices[m] == index);
            assert forall|at: int|
                #![trigger asked_for(joined, requests, at)]
                joined.offset <= at < joined.offset + joined.len implies asked_for(
                joined,
                requests,
                at,
            ) by {
                if at < current.end() {
                    assert(asked_for(current, requests, at));
                    let i = choose|i: int|
                        0 <= i < current.request_indices.len() && requests[(
                        #[trigger] current.request_indices[i]) as int].offset <= at
                            < requests[current.request_indices[i] as int].offset
                            + requests[current.request_indices[i] as int].len;
                    assert(joined.request_indices[i] == current.request_indices[i]);
                } else {
                    assert(requests[joined.request_indices[m] as int] == request);
                }
            }
            if current.end() >= request.end() {
                let i = choose|i: int|
                    0 <= i < current.request_indices.len() && current.offset + current.len
                        == requests[(#[trigger] current.request_indices[i]) as int].offset
                        + requests[current.request_indices[i] as int].len;
                assert(joined.request_indices[i] == current.request_indices[i]);
            }
            assert(is_made_of_its_requests(joined, requests));
            assert(merged.drop_last() =~= previous.drop_last());
        }
        assert forall|i: int| 0 <= i < merged.len() implies is_made_of_its_requests(
            #[trigger] merged[i],
            requests,
        ) by {
            if i < merged.len() - 1 {
                assert(merged[i] == previous[i]);
            }
        }
        assert forall|i: int| 0 <= i < merged.len() - 1 implies {
            let read = #[trigger] merged[i];
            let read_end = read.offset + read.len;
            let next = requests[merged[i + 1].request_indices[0] as int];
            let next_end = next.offset + next.len;
            ||| next.offset > read_end
            ||| next_end - read.offset > MAX_MERGED_READ_BYTES
            ||| read.len > MAX_MERGED_READ_BYTES
        } by {
            assert(merged[i] == previous[i]);
            if fresh && i == merged.len() - 2 {
                assert(previous.last() == previous[i]);
                assert(merged[i + 1].request_indices[0] == index);
            } else if !fresh && i == merged.len() - 2 {
                assert(merged[i + 1].request_indices[0] == previous[i + 1].request_indices[0]);
            } else {
                assert(merged[i + 1] == previous[i + 1]);
            }
        }
    }
}

/// A leader takes the reads that came first, as many as a batch holds, and leaves the
/// others queued in order.
pub proof fn batches_take_the_first_reads<T>(state: CoalescerState<T>)
    ensures
        next_batch(state) + batch_taken(state).queue == state.queue,
        state.queue.len() <= 16 ==> next_batch(state).len() == state.queue.len(),
        state.queue.len() > 16 ==> next_batch(state).len() == 16,
        batch_taken(state).leader_active == state.leader_active,
{
    assert(next_batch(state) + batch_taken(state).queue =~= state.queue);
}

/// A read that is queued waits behind those that are, and somebody leads from then on.
pub proof fn queued_reads_wait_their_turn<T>(
    state: CoalescerState<T>,
    request: ReadRequest,
    waiter: T,
)
    ensures
        enqueued(state, request, waiter).leader_active,
        enqueued(state, request, waiter).queue == state.queue + seq![(request, waiter)],
{
    assert(enqueued(state, request, waiter).queue =~= state.queue + seq![(request, waiter)]);
}

/// Each read of a batch gets its own result. The wrong number of results fails each of
/// them, and a panic fails everything that is queued as well. Nobody goes without an
/// answer or gets one twice.
pub proof fn every_read_of_a_batch_is_answered<T>(
    completions: Seq<Completion<T>>,
    state: CoalescerState<T>,
    batch: Seq<Queued<T>>,
    results: Results,
    i: int,
)
    requires
        hand_out(completions, state, batch, results),
        0 <= i < completions.len(),
    ensures
        results is Some ==> completions.len() == batch.len() && completions[i].0 == batch[i].1,
        results is None ==> completions.len() == batch.len() + state.queue.len()
            && completions[i].0 == (batch + state.queue)[i].1,
        results matches Some(all) ==> if all.len() == batch.len() {
            completions[i].1 == all[i]
        } else {
            completions[i].1 matches Err(e) && e@.code == error::ErrorCode::InvalidArgument
        },
        results is None ==> (completions[i].1 matches Err(e) && e@.code
            == error::ErrorCode::InvalidArgument),
{
}

/// Once a batch was read its leader leads on exactly if something is queued, which stays
/// queued. After a panic nobody leads and nothing is queued.
pub proof fn a_leader_leads_on_while_reads_are_queued<T>(
    state: CoalescerState<T>,
    results: Seq<Result<Vec<u8>>>,
)
    ensures
        batch_ended(state, Some(results)).queue == state.queue,
        batch_ended(state, Some(results)).leader_active <==> state.queue.len() > 0,
        !batch_ended(state, None).leader_active,
        batch_ended(state, None).queue.len() == 0,
{
}

} // verus!
