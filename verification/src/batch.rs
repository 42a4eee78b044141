//! Writes to the store that land together.

use slatedb::WriteBatch;
use vstd::prelude::*;

verus! {

/// What the store holds: values under keys.
pub type Store = Map<Seq<u8>, Seq<u8>>;

/// One write to the store.
#[derive(Debug)]
pub enum Mutation {
    Put { key: Vec<u8>, value: Vec<u8> },
    Delete { key: Vec<u8> },
}

/// What one write does.
#[verifier::ext_equal]
pub enum Change {
    Put(Seq<u8>, Seq<u8>),
    Delete(Seq<u8>),
}

impl Change {
    /// The key a write is about.
    pub open spec fn key(self) -> Seq<u8> {
        match self {
            Change::Put(key, _) => key,
            Change::Delete(key) => key,
        }
    }

    /// The store after the write.
    pub open spec fn on(self, store: Store) -> Store {
        match self {
            Change::Put(key, value) => store.insert(key, value),
            Change::Delete(key) => store.remove(key),
        }
    }
}

impl View for Mutation {
    type V = Change;

    open spec fn view(&self) -> Change {
        match self {
            Mutation::Put { key, value } => Change::Put(key@, value@),
            Mutation::Delete { key } => Change::Delete(key@),
        }
    }
}

/// What a batch does, write by write.
pub open spec fn changes_of(batch: Seq<Mutation>) -> Seq<Change> {
    batch.map_values(|mutation: Mutation| mutation@)
}

/// The store after the writes of a batch, in order.
pub open spec fn applied(store: Store, changes: Seq<Change>) -> Store
    decreases changes.len(),
{
    if changes.len() == 0 {
        store
    } else {
        changes.last().on(applied(store, changes.drop_last()))
    }
}

/// Whether some write of a batch is about `key`.
pub open spec fn touches(changes: Seq<Change>, key: Seq<u8>) -> bool {
    exists|i: int| 0 <= i < changes.len() && (#[trigger] changes[i]).key() == key
}

/// A batch leaves every key alone that it does not write to.
pub proof fn untouched_keys_stay(store: Store, changes: Seq<Change>, key: Seq<u8>)
    requires
        !touches(changes, key),
    ensures
        applied(store, changes).contains_key(key) <==> store.contains_key(key),
        store.contains_key(key) ==> applied(store, changes)[key] == store[key],
    decreases changes.len(),
{
    if changes.len() > 0 {
        let less = changes.drop_last();
        assert(changes[changes.len() - 1].key() != key);
        assert(!touches(less, key)) by {
            if touches(less, key) {
                let i = choose|i: int| 0 <= i < less.len() && (#[trigger] less[i]).key() == key;
                assert(changes[i].key() == key);
            }
        }
        untouched_keys_stay(store, less, key);
    }
}

/// What a batch leaves under a key is what the last write to that key left.
pub proof fn last_write_stays(store: Store, changes: Seq<Change>, i: int)
    requires
        0 <= i < changes.len(),
        forall|j: int| i < j < changes.len() ==> (#[trigger] changes[j]).key() != changes[i].key(),
    ensures
        changes[i] matches Change::Put(key, value) ==> applied(store, changes).contains_key(key)
            && applied(store, changes)[key] == value,
        changes[i] matches Change::Delete(key) ==> !applied(store, changes).contains_key(key),
    decreases changes.len(),
{
    if i < changes.len() - 1 {
        let less = changes.drop_last();
        assert(changes[changes.len() - 1].key() != changes[i].key());
        assert forall|j: int| i < j < less.len() implies (#[trigger] less[j]).key()
            != less[i].key() by {
            assert(changes[j].key() != changes[i].key());
        }
        last_write_stays(store, less, i);
    }
}

/// `slatedb::WriteBatch`, writes that SlateDB applies together.
#[verifier::external_type_specification]
#[verifier::external_body]
pub struct ExWriteBatch(WriteBatch);

/// What is to become of keys: a new value, or nothing where they are deleted.
pub type Outcomes = Map<Seq<u8>, Option<Seq<u8>>>;

/// What a `slatedb::WriteBatch` holds: for each key that it writes to, the put or
/// the delete.
pub uninterp spec fn held_in(batch: WriteBatch) -> Outcomes;

/// Nothing becomes of any key.
pub open spec fn nothing_held() -> Outcomes {
    Map::empty()
}

/// `WriteBatch::new`: a batch that writes nothing.
#[verifier::external_body]
fn new_batch() -> (r: WriteBatch)
    ensures
        held_in(r) == nothing_held(),
{
    WriteBatch::new()
}

/// `WriteBatch::put`: replaces what the batch holds for the key by a put of the
/// value. It panics on an empty key, and on lengths beyond `u32`.
#[verifier::external_body]
fn put(batch: &mut WriteBatch, key: &[u8], value: &[u8])
    requires
        0 < key@.len() <= u32::MAX,
        value@.len() <= u32::MAX,
    ensures
        held_in(*final(batch)) == held_in(*old(batch)).insert(key@, Some(value@)),
{
    batch.put(key, value)
}

/// `WriteBatch::delete`: replaces what the batch holds for the key by a delete. It
/// panics on an empty key, and on a length beyond `u32`.
#[verifier::external_body]
fn delete(batch: &mut WriteBatch, key: &[u8])
    requires
        0 < key@.len() <= u32::MAX,
    ensures
        held_in(*final(batch)) == held_in(*old(batch)).insert(key@, None),
{
    batch.delete(key)
}

impl Change {
    /// Whether SlateDB takes the write: its key is not empty, and neither length
    /// is beyond `u32`.
    pub open spec fn fits(self) -> bool {
        &&& 0 < self.key().len() <= u32::MAX
        &&& self matches Change::Put(_, value) ==> value.len() <= u32::MAX
    }

    /// What the write makes of its key.
    pub open spec fn outcome(self) -> Option<Seq<u8>> {
        match self {
            Change::Put(_, value) => Some(value),
            Change::Delete(_) => None,
        }
    }
}

/// Whether SlateDB takes every write of a batch.
pub open spec fn all_fit(changes: Seq<Change>) -> bool {
    forall|i: int| 0 <= i < changes.len() ==> (#[trigger] changes[i]).fits()
}

/// What a batch makes of keys: what the last write to each of them does.
pub open spec fn outcomes(changes: Seq<Change>) -> Outcomes
    decreases changes.len(),
{
    if changes.len() == 0 {
        nothing_held()
    } else {
        outcomes(changes.drop_last()).insert(changes.last().key(), changes.last().outcome())
    }
}

/// The store once keys have become what they are to become.
pub open spec fn settled(store: Store, outcomes: Outcomes) -> Store {
    Map::new(
        |key: Seq<u8>|
            if outcomes.contains_key(key) {
                outcomes[key] is Some
            } else {
                store.contains_key(key)
            },
        |key: Seq<u8>|
            if outcomes.contains_key(key) {
                outcomes[key]->0
            } else {
                store[key]
            },
    )
}

/// Returns whether SlateDB takes every write of a batch.
pub fn fits_in_batch(mutations: &[Mutation]) -> (r: bool)
    ensures
        r <==> all_fit(changes_of(mutations@)),
{
    let max: usize = u32::MAX as usize;
    let mut i: usize = 0;
    while i < mutations.len()
        invariant
            max == u32::MAX,
            i <= mutations@.len(),
            forall|j: int| 0 <= j < i ==> (#[trigger] changes_of(mutations@)[j]).fits(),
        decreases mutations@.len() - i,
    {
        let fits = match &mutations[i] {
            Mutation::Put { key, value } => key.len() > 0 && key.len() <= max && value.len() <= max,
            Mutation::Delete { key } => key.len() > 0 && key.len() <= max,
        };
        assert(fits <==> changes_of(mutations@)[i as int].fits());
        if !fits {
            return false;
        }
        i = i + 1;
    }
    true
}

/// Puts writes into a batch of SlateDB's, in order, so that they land together.
pub fn write_batch(mutations: &[Mutation]) -> (r: WriteBatch)
    requires
        all_fit(changes_of(mutations@)),
    ensures
        held_in(r) == outcomes(changes_of(mutations@)),
{
    let mut batch = new_batch();
    let ghost changes = changes_of(mutations@);
    let mut i: usize = 0;
    assert(changes.take(0) =~= Seq::empty());
    while i < mutations.len()
        invariant
            i <= mutations@.len(),
            changes == changes_of(mutations@),
            all_fit(changes),
            held_in(batch) == outcomes(changes.take(i as int)),
        decreases mutations@.len() - i,
    {
        proof {
            assert(changes.take(i + 1).drop_last() =~= changes.take(i as int));
            assert(changes[i as int].fits());
        }
        match &mutations[i] {
            Mutation::Put { key, value } => {
                self::put(&mut batch, key.as_slice(), value.as_slice());
            },
            Mutation::Delete { key } => {
                self::delete(&mut batch, key.as_slice());
            },
        }
        i = i + 1;
    }
    assert(changes.take(i as int) =~= changes);
    batch
}

/// A batch as SlateDB holds it, with one write for each key, leaves the store as
/// its writes would leave it one after the other.
pub proof fn a_batch_does_what_its_writes_do(store: Store, changes: Seq<Change>)
    ensures
        settled(store, outcomes(changes)) == applied(store, changes),
    decreases changes.len(),
{
    if changes.len() > 0 {
        a_batch_does_what_its_writes_do(store, changes.drop_last());
    }
    assert(settled(store, outcomes(changes)) =~= applied(store, changes));
}

/// SlateDB takes every write with a key that is not empty, whose lengths it can count.
pub proof fn writes_fit_unless_they_cannot_be_counted(key: Seq<u8>, value: Seq<u8>)
    ensures
        Change::Delete(key).fits() <==> 0 < key.len() <= u32::MAX,
        Change::Put(key, value).fits() <==> 0 < key.len() <= u32::MAX && value.len() <= u32::MAX,
{
}

/// A put is found under its key, a delete leaves its key without a value, and neither
/// touches another key.
pub proof fn a_write_changes_its_key_alone(
    store: Store,
    key: Seq<u8>,
    value: Seq<u8>,
    other: Seq<u8>,
)
    requires
        other != key,
    ensures
        ({
            let put = applied(store, seq![Change::Put(key, value)]);
            let deleted = applied(store, seq![Change::Delete(key)]);
            &&& put.contains_key(key) && put[key] == value
            &&& !deleted.contains_key(key)
            &&& put.contains_key(other) <==> store.contains_key(other)
            &&& deleted.contains_key(other) <==> store.contains_key(other)
            &&& store.contains_key(other) ==> put[other] == store[other] && deleted[other]
                == store[other]
        }),
{
    reveal_with_fuel(applied, 2);
    assert(seq![Change::Put(key, value)].drop_last() =~= Seq::empty());
    assert(seq![Change::Delete(key)].drop_last() =~= Seq::empty());
}

} // verus!
