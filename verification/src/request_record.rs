//! When a storage request counts as over.
//!
//! A request that is served piece by piece is timed from its start to its end,
//! and counted once however it ends.

use vstd::prelude::*;

verus! {

/// Whether a request has been counted.
#[derive(Debug)]
pub struct RequestRecord {
    recorded: bool,
}

impl View for RequestRecord {
    type V = bool;

    closed spec fn view(&self) -> bool {
        self.recorded
    }
}

impl RequestRecord {
    /// A request that has just started.
    pub fn new() -> (r: Self)
        ensures
            !r@,
    {
        RequestRecord { recorded: false }
    }

    /// Counts the request, unless it has been: returns whether it is to be
    /// counted now.
    pub fn record_once(&mut self) -> (r: bool)
        ensures
            r == !old(self)@,
            final(self)@,
    {
        let first = !self.recorded;
        self.recorded = true;
        first
    }
}

/// Whether reading a piece of a stream ended it: it failed, which is `None`, or
/// no bytes were left.
pub fn ends_stream(bytes_read: Option<usize>) -> (r: bool)
    ensures
        r == !(bytes_read matches Some(n) && n > 0),
{
    match bytes_read {
        Some(n) => n == 0,
        None => true,
    }
}

/// Whether asking for the next entry of a listing ended it: it failed, which is
/// `None`, or no entry was left.
pub fn ends_listing(found: Option<bool>) -> (r: bool)
    ensures
        r == (found != Some(true)),
{
    match found {
        Some(found) => !found,
        None => true,
    }
}

} // verus!
