use vstd::prelude::*;
use crate::bytes::append_bytes;
use crate::hash::{HashValue, sha3_256_of};
use crate::storage::StorageError;

verus! {

/// The versioned world state that transactions change. Its model is the sequence of write
/// sets committed so far and the sequence staged on top of them since the last commit.
pub trait ChainState: Sized {
    /// The internal invariant of the state.
    spec fn inv(&self) -> bool;

    /// Write sets of committed versions, oldest first.
    spec fn committed(&self) -> Seq<HashValue>;

    /// Write sets staged since the last commit, oldest first.
    spec fn staged(&self) -> Seq<HashValue>;

    /// The state root of the committed and staged effects.
    spec fn current_root(&self) -> HashValue;

    /// Stages the effects of one executed transaction and returns the state root they lead
    /// to. Staged effects are seen by later executions and are not durable.
    fn apply_write_set(&mut self, write_set: HashValue) -> (r: Result<HashValue, StorageError>)
        requires
            old(self).inv(),
        ensures
            final(self).inv(),
            final(self).committed() == old(self).committed(),
            r is Ok ==> final(self).staged() == old(self).staged().push(write_set),
            r matches Ok(root) ==> root == final(self).current_root(),
            r is Err ==> final(self).staged() == old(self).staged(),
    ;

    /// Makes the staged effects one committed version and returns its root.
    fn commit(&mut self) -> (r: Result<HashValue, StorageError>)
        requires
            old(self).inv(),
        ensures
            final(self).inv(),
            r is Ok ==> final(self).committed() == old(self).committed() + old(self).staged()
                && final(self).staged().len() == 0,
            r matches Ok(root) ==> root == final(self).current_root() && root == old(self).current_root(),
            r is Err ==> final(self).committed() == old(self).committed() && final(self).staged() == old(self).staged(),
    ;

    /// Persists the committed version.
    fn flush(&mut self) -> (r: Result<(), StorageError>)
        requires
            old(self).inv(),
        ensures
            final(self).inv(),
            final(self).committed() == old(self).committed(),
            final(self).staged() == old(self).staged(),
            final(self).current_root() == old(self).current_root(),
    ;

    /// Drops every staged effect.
    fn rollback(&mut self)
        requires
            old(self).inv(),
        ensures
            final(self).inv(),
            final(self).committed() == old(self).committed(),
            final(self).staged().len() == 0,
    ;
}

/// The root after applying `ws` in order, starting from the all-zero root: each step hashes
/// the previous root followed by the write set.
pub open spec fn root_after(ws: Seq<HashValue>) -> Seq<u8>
    decreases ws.len(),
{
    if ws.len() == 0 {
        Seq::new(32, |i: int| 0u8)
    } else {
        sha3_256_of(root_after(ws.drop_last()) + ws.last()@)
    }
}

/// A world state held in memory, with room for a bounded number of write sets.
pub struct MemoryChainState {
    committed: Vec<HashValue>,
    staged: Vec<HashValue>,
    root: HashValue,
    committed_root: HashValue,
    flushed: usize,
    capacity: usize,
}

impl MemoryChainState {
    pub closed spec fn wf(&self) -> bool {
        &&& self.root@ == root_after(self.committed@ + self.staged@)
        &&& self.committed_root@ == root_after(self.committed@)
        &&& self.flushed <= self.committed@.len()
    }

    /// The root of the committed and staged write sets.
    pub closed spec fn spec_root(&self) -> Seq<u8> {
        self.root@
    }

    /// An empty state that holds at most `capacity` write sets.
    pub fn new(capacity: usize) -> (r: MemoryChainState)
        ensures
            r.inv(),
            r.committed().len() == 0,
            r.staged().len() == 0,
            r.spec_capacity() == capacity,
    {
        let zero = HashValue::zero();
        let r = MemoryChainState { committed: Vec::new(), staged: Vec::new(), root: zero, committed_root: zero, flushed: 0, capacity };
        assert(r.committed@ + r.staged@ =~= Seq::<HashValue>::empty());
        r
    }

    pub closed spec fn spec_capacity(&self) -> usize {
        self.capacity
    }

    /// Number of committed write sets.
    pub fn committed_count(&self) -> (r: usize)
        ensures
            r == self.committed().len(),
    {
        self.committed.len()
    }

    /// Number of staged write sets.
    pub fn staged_count(&self) -> (r: usize)
        ensures
            r == self.staged().len(),
    {
        self.staged.len()
    }

    pub closed spec fn spec_flushed(&self) -> usize {
        self.flushed
    }

    /// Number of committed write sets that the last flush persisted.
    pub fn flushed_count(&self) -> (r: usize)
        ensures
            r == self.spec_flushed(),
    {
        self.flushed
    }

    /// The root of the committed and staged write sets.
    pub fn state_root(&self) -> (r: HashValue)
        requires
            self.wf(),
        ensures
            r@ == root_after(self.committed() + self.staged()),
    {
        self.root
    }
}

/// The root after `prev` followed by `write_set`.
fn next_root(prev: &HashValue, write_set: &HashValue) -> (r: HashValue)
    ensures
        r@ == sha3_256_of(prev@ + write_set@),
{
    let mut data: Vec<u8> = Vec::new();
    append_bytes(&mut data, &prev.bytes);
    append_bytes(&mut data, &write_set.bytes);
    assert(data@ =~= prev@ + write_set@);
    HashValue::sha3_256_of(&data)
}

impl ChainState for MemoryChainState {
    closed spec fn inv(&self) -> bool {
        self.wf()
    }

    closed spec fn committed(&self) -> Seq<HashValue> {
        self.committed@
    }

    closed spec fn staged(&self) -> Seq<HashValue> {
        self.staged@
    }

    closed spec fn current_root(&self) -> HashValue {
        self.root
    }

    /// Fails with `StorageError::Backend` once the state holds its capacity of write sets.
    fn apply_write_set(&mut self, write_set: HashValue) -> (r: Result<HashValue, StorageError>) {
        if self.committed.len() >= self.capacity || self.staged.len() >= self.capacity - self.committed.len() {
            return Err(StorageError::Backend);
        }
        let ghost all = self.committed@ + self.staged@;
        self.root = next_root(&self.root, &write_set);
        self.staged.push(write_set);
        assert((self.committed@ + self.staged@).drop_last() =~= all);
        Ok(self.root)
    }

    fn commit(&mut self) -> (r: Result<HashValue, StorageError>) {
        let ghost all = self.committed@ + self.staged@;
        self.committed.append(&mut self.staged);
        assert(self.committed@ =~= all);
        assert(self.committed@ + self.staged@ =~= all);
        self.committed_root = self.root;
        Ok(self.root)
    }

    /// Records that every committed write set is persisted.
    fn flush(&mut self) -> (r: Result<(), StorageError>) {
        self.flushed = self.committed.len();
        Ok(())
    }

    fn rollback(&mut self) {
        self.staged.clear();
        self.root = self.committed_root;
        assert(self.committed@ + self.staged@ =~= self.committed@);
    }
}

} // verus!
