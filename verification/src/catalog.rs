//! How catalog operations get at the store.
//!
//! An operation runs inside one transaction but never touches it. It is called
//! with the answers so far and either asks for one more or is done, in which
//! case it names the writes to commit.

use vstd::prelude::*;

use crate::batch;
use crate::batch::{Change, Mutation, Store};
use crate::error;
use crate::error::{Error, ErrorView, Result};
use crate::file_metadata;
use crate::keys;

verus! {

/// One read that an operation needs.
#[derive(Debug)]
pub enum ReadRequest {
    /// The value under a key.
    Get(Vec<u8>),
    /// Every key that starts with a prefix.
    KeysWithPrefix(Vec<u8>),
}

/// What a read is for.
#[verifier::ext_equal]
pub enum Wanted {
    Get(Seq<u8>),
    KeysWithPrefix(Seq<u8>),
}

impl View for ReadRequest {
    type V = Wanted;

    open spec fn view(&self) -> Wanted {
        match self {
            ReadRequest::Get(key) => Wanted::Get(key@),
            ReadRequest::KeysWithPrefix(prefix) => Wanted::KeysWithPrefix(prefix@),
        }
    }
}

/// How far an operation has come.
#[derive(Debug)]
pub enum Step<T> {
    /// It needs this read next.
    Read(ReadRequest),
    /// It is done.
    Done(T),
}

/// The answers to the reads of one transaction.
#[derive(Debug)]
pub struct Reads {
    gets: Vec<(Vec<u8>, Option<Vec<u8>>)>,
    scans: Vec<(Vec<u8>, Vec<Vec<u8>>)>,
}

/// A list of keys.
pub open spec fn key_list(keys: Seq<Vec<u8>>) -> Seq<Seq<u8>> {
    keys.map_values(|key: Vec<u8>| key@)
}

/// A value that may be there.
pub open spec fn value_of(value: Option<Vec<u8>>) -> Option<Seq<u8>> {
    match value {
        Some(bytes) => Some(bytes@),
        None => None,
    }
}

spec fn find_get(gets: Seq<(Vec<u8>, Option<Vec<u8>>)>, key: Seq<u8>) -> Option<Option<Seq<u8>>>
    decreases gets.len(),
{
    if gets.len() == 0 {
        None
    } else if gets.last().0@ == key {
        Some(value_of(gets.last().1))
    } else {
        find_get(gets.drop_last(), key)
    }
}

spec fn find_scan(scans: Seq<(Vec<u8>, Vec<Vec<u8>>)>, prefix: Seq<u8>) -> Option<Seq<Seq<u8>>>
    decreases scans.len(),
{
    if scans.len() == 0 {
        None
    } else if scans.last().0@ == prefix {
        Some(key_list(scans.last().1@))
    } else {
        find_scan(scans.drop_last(), prefix)
    }
}

/// Compares two byte strings.
pub(crate) fn same_bytes(a: &[u8], b: &[u8]) -> (r: bool)
    ensures
        r <==> a@ == b@,
{
    if a.len() != b.len() {
        return false;
    }
    let mut i: usize = 0;
    while i < a.len()
        invariant
            i <= a@.len(),
            a@.len() == b@.len(),
            forall|k: int| 0 <= k < i ==> a@[k] == b@[k],
        decreases a@.len() - i,
    {
        if a[i] != b[i] {
            return false;
        }
        i = i + 1;
    }
    assert(a@ =~= b@);
    true
}

impl Reads {
    /// The answer for a key, if there is one: the value, or that there is none.
    pub closed spec fn get_answer(self, key: Seq<u8>) -> Option<Option<Seq<u8>>> {
        find_get(self.gets@, key)
    }

    /// The answer for a prefix, if there is one.
    pub closed spec fn scan_answer(self, prefix: Seq<u8>) -> Option<Seq<Seq<u8>>> {
        find_scan(self.scans@, prefix)
    }

    /// Whether each answer is what the store says.
    pub open spec fn come_from(self, store: Store) -> bool {
        &&& forall|key: Seq<u8>| #[trigger]
            self.get_answer(key) matches Some(answer) ==> {
                &&& answer is Some <==> store.contains_key(key)
                &&& answer matches Some(value) ==> value == store[key]
            }
        &&& forall|prefix: Seq<u8>| #[trigger]
            self.scan_answer(prefix) matches Some(found) ==> forall|key: Seq<u8>| #[trigger]
                found.contains(key) <==> store.contains_key(key) && keys::starts_with(key, prefix)
    }

    /// Whether these are the answers `before` with one for `key` taken in.
    pub open spec fn took_get(self, before: Reads, key: Seq<u8>, value: Option<Seq<u8>>) -> bool {
        &&& forall|k: Seq<u8>| #[trigger]
            self.get_answer(k) == if k == key {
                Some(value)
            } else {
                before.get_answer(k)
            }
        &&& forall|prefix: Seq<u8>| #[trigger]
            self.scan_answer(prefix) == before.scan_answer(prefix)
    }

    /// Whether these are the answers `before` with one for `prefix` taken in.
    pub open spec fn took_scan(self, before: Reads, prefix: Seq<u8>, found: Seq<Seq<u8>>) -> bool {
        &&& forall|p: Seq<u8>| #[trigger]
            self.scan_answer(p) == if p == prefix {
                Some(found)
            } else {
                before.scan_answer(p)
            }
        &&& forall|key: Seq<u8>| #[trigger] self.get_answer(key) == before.get_answer(key)
    }

    /// No answers yet.
    pub fn new() -> (r: Self)
        ensures
            forall|key: Seq<u8>| #[trigger] r.get_answer(key) is None,
            forall|prefix: Seq<u8>| #[trigger] r.scan_answer(prefix) is None,
    {
        Reads { gets: Vec::new(), scans: Vec::new() }
    }

    /// Takes in the value under a key.
    pub fn add_get(&mut self, key: Vec<u8>, value: Option<Vec<u8>>)
        ensures
            final(self).took_get(*old(self), key@, value_of(value)),
    {
        self.gets.push((key, value));
        assert(self.gets@.drop_last() =~= old(self).gets@);
    }

    /// Takes in the keys under a prefix.
    pub fn add_scan(&mut self, prefix: Vec<u8>, found: Vec<Vec<u8>>)
        ensures
            final(self).took_scan(*old(self), prefix@, key_list(found@)),
    {
        self.scans.push((prefix, found));
        assert(self.scans@.drop_last() =~= old(self).scans@);
    }

    /// Looks a key's answer up.
    pub fn get(&self, key: &[u8]) -> (r: Option<&Option<Vec<u8>>>)
        ensures
            r is Some <==> self.get_answer(key@) is Some,
            r matches Some(value) ==> self.get_answer(key@) == Some(value_of(*value)),
    {
        let mut n: usize = self.gets.len();
        assert(self.gets@.take(n as int) =~= self.gets@);
        while n > 0
            invariant
                n <= self.gets@.len(),
                self.get_answer(key@) == find_get(self.gets@.take(n as int), key@),
            decreases n,
        {
            proof {
                let upto = self.gets@.take(n as int);
                assert(upto.drop_last() =~= self.gets@.take(n - 1));
                assert(upto.last() == self.gets@[n - 1]);
            }
            if same_bytes(self.gets[n - 1].0.as_slice(), key) {
                return Some(&self.gets[n - 1].1);
            }
            n = n - 1;
        }
        None
    }

    /// Looks a prefix's answer up.
    pub fn scan(&self, prefix: &[u8]) -> (r: Option<&Vec<Vec<u8>>>)
        ensures
            r is Some <==> self.scan_answer(prefix@) is Some,
            r matches Some(found) ==> self.scan_answer(prefix@) == Some(key_list(found@)),
    {
        let mut n: usize = self.scans.len();
        assert(self.scans@.take(n as int) =~= self.scans@);
        while n > 0
            invariant
                n <= self.scans@.len(),
                self.scan_answer(prefix@) == find_scan(self.scans@.take(n as int), prefix@),
            decreases n,
        {
            proof {
                let upto = self.scans@.take(n as int);
                assert(upto.drop_last() =~= self.scans@.take(n - 1));
                assert(upto.last() == self.scans@[n - 1]);
            }
            if same_bytes(self.scans[n - 1].0.as_slice(), prefix) {
                return Some(&self.scans[n - 1].1);
            }
            n = n - 1;
        }
        None
    }
}

/// What an operation does next, given the answers so far.
#[verifier::ext_equal]
pub enum Plan<T> {
    /// It needs this read.
    Read(Wanted),
    /// It fails.
    Fail(ErrorView),
    /// It fails on a metadata record that does not decode.
    FailToDecode,
    /// It is done.
    Done(T),
}

/// Whether a plan asks only for what has not been answered.
pub open spec fn asks_for_news<T>(plan: Plan<T>, reads: Reads) -> bool {
    match plan {
        Plan::Read(Wanted::Get(key)) => reads.get_answer(key) is None,
        Plan::Read(Wanted::KeysWithPrefix(prefix)) => reads.scan_answer(prefix) is None,
        _ => true,
    }
}

/// Whether an error is the one for a record that does not decode.
pub open spec fn is_decode_failure(e: Error) -> bool {
    e@.source is Some && e@ == (ErrorView {
        source: e@.source,
        ..error::metadata_decode_error("metadata decode error"@, file_metadata::HERE@)
    })
}

/// Whether `r` asks or fails as `plan` says, and is done only if `plan` is.
pub open spec fn follows<T, U>(r: Result<Step<T>>, plan: Plan<U>) -> bool {
    match plan {
        Plan::Read(wanted) => r matches Ok(Step::Read(request)) && request@ == wanted,
        Plan::Fail(error) => r matches Err(e) && e@ == error,
        Plan::FailToDecode => r matches Err(e) && is_decode_failure(e),
        Plan::Done(_) => r matches Ok(Step::Done(_)),
    }
}

/// Whether `r` is what `plan` says, where being done means a batch of writes.
pub open spec fn follows_batch(r: Result<Step<Vec<Mutation>>>, plan: Plan<Seq<Change>>) -> bool {
    &&& follows(r, plan)
    &&& plan matches Plan::Done(changes) ==> r matches Ok(Step::Done(batch)) && batch::changes_of(
        batch@,
    ) == changes
}

/// The deletion of each of a list of keys.
pub open spec fn deletions(keys: Seq<Seq<u8>>) -> Seq<Change> {
    keys.map_values(|key: Seq<u8>| Change::Delete(key))
}

/// Adds the deletion of each of `keys` to `batch`.
pub(crate) fn delete_keys(batch: &mut Vec<Mutation>, keys: &Vec<Vec<u8>>)
    ensures
        batch::changes_of(final(batch)@) == batch::changes_of(old(batch)@) + deletions(
            key_list(keys@),
        ),
{
    let ghost before = batch::changes_of(batch@);
    let mut i: usize = 0;
    assert(before + deletions(key_list(keys@.take(0))) =~= before);
    while i < keys.len()
        invariant
            i <= keys@.len(),
            batch::changes_of(batch@) == before + deletions(key_list(keys@.take(i as int))),
        decreases keys@.len() - i,
    {
        let ghost so_far = batch@;
        let mutation = Mutation::Delete { key: keys[i].clone() };
        batch.push(mutation);
        proof {
            let done = keys@.take(i as int);
            assert(batch::changes_of(batch@) =~= batch::changes_of(so_far).push(mutation@));
            assert(keys@.take(i + 1) =~= done.push(keys@[i as int]));
            assert(deletions(key_list(keys@.take(i + 1))) =~= deletions(key_list(done)).push(
                Change::Delete(keys@[i as int]@),
            ));
        }
        i = i + 1;
    }
    assert(keys@.take(i as int) =~= keys@);
}

/// Adds the deletion of `key` to `batch`.
pub(crate) fn push_delete(batch: &mut Vec<Mutation>, key: Vec<u8>)
    ensures
        batch::changes_of(final(batch)@) == batch::changes_of(old(batch)@).push(
            Change::Delete(key@),
        ),
{
    let ghost before = batch@;
    let mutation = Mutation::Delete { key };
    batch.push(mutation);
    assert(batch::changes_of(batch@) =~= batch::changes_of(before).push(mutation@));
}

/// Adds the write of `value` under `key` to `batch`.
pub(crate) fn push_put(batch: &mut Vec<Mutation>, key: Vec<u8>, value: Vec<u8>)
    ensures
        batch::changes_of(final(batch)@) == batch::changes_of(old(batch)@).push(
            Change::Put(key@, value@),
        ),
{
    let ghost before = batch@;
    let mutation = Mutation::Put { key, value };
    batch.push(mutation);
    assert(batch::changes_of(batch@) =~= batch::changes_of(before).push(mutation@));
}

} // verus!
