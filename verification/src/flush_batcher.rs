//! Coalesces database flushes in the calling tasks.
//!
//! A caller notes when it arrived and waits for its turn, which one caller has
//! at a time. On its turn it either finds that a flush which started after it
//! arrived has covered it, or flushes itself.

use vstd::prelude::*;

use crate::error::{Error, ErrorView, Result};

verus! {

/// What a [`FlushBatcher`] keeps.
#[verifier::ext_equal]
pub struct FlushState {
    /// ID of the most recently started flush.
    pub started: u64,
    /// ID of the most recently completed flush, whether successful or failed.
    pub finished: u64,
    /// The error of the most recently completed flush, if it failed.
    pub outcome: Option<ErrorView>,
}

/// Callers queued before a flush starts share its result.
#[derive(Debug)]
pub struct FlushBatcher {
    started: u64,
    finished: u64,
    outcome: Option<Error>,
}

impl View for FlushBatcher {
    type V = FlushState;

    closed spec fn view(&self) -> FlushState {
        FlushState {
            started: self.started,
            finished: self.finished,
            outcome: match self.outcome {
                Some(error) => Some(error@),
                None => None,
            },
        }
    }
}

/// What a caller does on its turn.
#[derive(Debug)]
pub enum Turn {
    /// A flush has covered it, and this is how that went.
    Covered(Result<()>),
    /// It flushes, under this ID.
    Flush(u64),
}

/// The error of a flush, if it failed.
pub open spec fn failure_of(result: Result<()>) -> Option<ErrorView> {
    match result {
        Ok(()) => None,
        Err(error) => Some(error@),
    }
}

/// Whether a caller that arrived when `arrival` was the latest flush to have
/// started is covered.
pub open spec fn covered(state: FlushState, arrival: u64) -> bool {
    state.finished > arrival
}

/// The state once a caller that is not covered starts its flush.
pub open spec fn flush_started(state: FlushState) -> FlushState {
    FlushState { started: (state.started + 1) as u64, ..state }
}

/// The state once the flush `index` ended.
pub open spec fn flush_finished(
    state: FlushState,
    index: u64,
    failure: Option<ErrorView>,
) -> FlushState {
    FlushState { finished: index, outcome: failure, ..state }
}

impl FlushState {
    /// Whether no flush is under way.
    pub open spec fn idle(self) -> bool {
        self.started == self.finished
    }
}

impl FlushBatcher {
    /// Nothing flushed yet.
    pub fn new() -> (r: Self)
        ensures
            r@ == (FlushState { started: 0, finished: 0, outcome: None }),
            r@.idle(),
    {
        FlushBatcher { started: 0, finished: 0, outcome: None }
    }

    /// Notes when a caller arrived: the latest flush to have started by then.
    pub fn arrive(&self) -> (arrival: u64)
        ensures
            arrival == self@.started,
    {
        self.started
    }

    /// Returns whether a caller is covered.
    pub fn covers(&self, arrival: u64) -> (r: bool)
        ensures
            r == covered(self@, arrival),
    {
        self.finished > arrival
    }

    /// Says what a caller does on its turn. One that is covered skips a redundant
    /// flush.
    pub fn take_turn(&mut self, arrival: u64) -> (r: Turn)
        requires
            covered(old(self)@, arrival) || old(self)@.started < u64::MAX,
        ensures
            covered(old(self)@, arrival) ==> final(self)@ == old(self)@ && (r matches Turn::Covered(
                result,
            ) && failure_of(result) == old(self)@.outcome),
            !covered(old(self)@, arrival) ==> final(self)@ == flush_started(old(self)@) && (
            r matches Turn::Flush(index) && index == old(self)@.started + 1),
    {
        if self.covers(arrival) {
            let result = match &self.outcome {
                Some(error) => Err(error.clone()),
                None => Ok(()),
            };
            return Turn::Covered(result);
        }
        self.started = self.started + 1;
        Turn::Flush(self.started)
    }

    /// Notes how the flush `index` went.
    pub fn finish(&mut self, index: u64, result: &Result<()>)
        ensures
            final(self)@ == flush_finished(old(self)@, index, failure_of(*result)),
    {
        self.finished = index;
        self.outcome = match result {
            Ok(()) => None,
            Err(error) => Some(error.clone()),
        };
    }
}

/// Callers queued before a flush starts share its result: once it ended, each of
/// them is covered and learns how it went.
pub proof fn callers_queued_before_a_flush_share_its_result(
    at_arrival: FlushState,
    before: FlushState,
    failure: Option<ErrorView>,
)
    requires
        at_arrival.started <= before.started,
        before.started < u64::MAX,
    ensures
        ({
            let started = flush_started(before);
            let after = flush_finished(started, started.started, failure);
            covered(after, at_arrival.started) && after.outcome == failure
        }),
{
}

/// A caller that comes while nothing is under way gets its own flush, whatever
/// came of the flushes before: a failure does not poison later ones.
pub proof fn a_lone_caller_gets_its_own_flush(state: FlushState)
    requires
        state.idle(),
    ensures
        !covered(state, state.started),
{
}

/// A caller that comes while a flush is under way is not covered by that flush,
/// which may have missed its writes, but by the next one.
pub proof fn a_flush_covers_only_earlier_callers(
    before: FlushState,
    failure: Option<ErrorView>,
    next_failure: Option<ErrorView>,
)
    requires
        before.idle(),
        before.started < u64::MAX - 1,
    ensures
        ({
            let under_way = flush_started(before);
            let arrival = under_way.started;
            let ended = flush_finished(under_way, under_way.started, failure);
            let follow_up = flush_started(ended);
            let done = flush_finished(follow_up, follow_up.started, next_failure);
            &&& !covered(under_way, arrival)
            &&& ended.idle()
            &&& !covered(ended, arrival)
            &&& covered(done, arrival)
            &&& done.outcome == next_failure
        }),
{
}

/// How a flush went is kept as it was: a success without an error, and a failure with
/// its own.
pub proof fn outcomes_are_kept(result: Result<()>)
    ensures
        result is Ok <==> failure_of(result) is None,
        result matches Err(error) ==> failure_of(result) == Some(error@),
{
}

/// Starting a flush makes it the latest to have started and touches nothing else; its
/// end makes it the latest to have ended.
pub proof fn flushes_are_counted_in_order(
    state: FlushState,
    index: u64,
    failure: Option<ErrorView>,
)
    requires
        state.started < u64::MAX,
    ensures
        flush_started(state).started == state.started + 1,
        flush_started(state).finished == state.finished,
        flush_started(state).outcome == state.outcome,
        flush_finished(state, index, failure).finished == index,
        flush_finished(state, index, failure).started == state.started,
        flush_finished(state, index, failure).outcome == failure,
        covered(state, index) <==> state.finished > index,
{
}

} // verus!
