use vstd::prelude::*;
use crate::hash::HashValue;
use crate::types::{Block, BlockHeader, BlockNumber, SignedUserTransaction, Transaction, TransactionInfo, header_id, transaction_id};

verus! {

pub type BlockView = (BlockHeader, Seq<SignedUserTransaction>);

/// A stored transaction: its receipt, itself, and the identity of its block.
pub type TransactionEntry = (TransactionInfo, Transaction, Seq<u8>);

pub open spec fn opt_block_view(o: Option<Block>) -> Option<BlockView> {
    match o {
        Some(b) => Some(b@),
        None => None,
    }
}

/// Receipts and transactions of one block, as stored.
pub open spec fn entries_of(infos: Seq<(TransactionInfo, Transaction)>, id: Seq<u8>) -> Seq<TransactionEntry> {
    infos.map_values(|e: (TransactionInfo, Transaction)| (e.0, e.1, id))
}

/// The index of applied blocks and of their transactions.
pub struct BlockStore {
    blocks: Vec<(HashValue, Block)>,
    transactions: Vec<(TransactionInfo, Transaction, HashValue)>,
}

impl BlockStore {
    /// The stored blocks in the order of storing, each with its identity.
    pub closed spec fn block_seq(&self) -> Seq<(Seq<u8>, BlockView)> {
        self.blocks@.map_values(|e: (HashValue, Block)| (e.0@, e.1@))
    }

    /// The stored transactions in the order of storing.
    pub closed spec fn txn_seq(&self) -> Seq<TransactionEntry> {
        self.transactions@.map_values(|e: (TransactionInfo, Transaction, HashValue)| (e.0, e.1, e.2@))
    }

    pub open spec fn wf(&self) -> bool {
        let s = self.block_seq();
        &&& forall|i: int| 0 <= i < self.txn_seq().len() ==> (#[trigger] self.txn_seq()[i]).0.transaction_hash@
            == transaction_id(self.txn_seq()[i].1)
        &&& forall|i: int| 0 <= i < s.len() ==> (#[trigger] s[i]).0 == header_id(s[i].1.0)
        &&& forall|i: int, j: int| 0 <= i < s.len() && 0 <= j < s.len() && i != j ==> (#[trigger] s[i]).0 != (#[trigger] s[j]).0
    }

    pub open spec fn has_block(&self, id: Seq<u8>) -> bool {
        exists|i: int| 0 <= i < self.block_seq().len() && (#[trigger] self.block_seq()[i]).0 == id
    }

    /// The stored block whose identity is `id`.
    pub open spec fn block_with_id(&self, id: Seq<u8>) -> Option<BlockView> {
        if self.has_block(id) {
            let i = choose|i: int| 0 <= i < self.block_seq().len() && (#[trigger] self.block_seq()[i]).0 == id;
            Some(self.block_seq()[i].1)
        } else {
            None
        }
    }

    /// The first stored block numbered `n`.
    pub open spec fn block_with_number(&self, n: BlockNumber) -> Option<BlockView> {
        let s = self.block_seq();
        if exists|i: int| 0 <= i < s.len() && (#[trigger] s[i]).1.0.number == n {
            let i = choose|i: int|
                0 <= i < s.len() && (#[trigger] s[i]).1.0.number == n && forall|j: int| 0 <= j < i ==> (#[trigger] s[j]).1.0.number != n;
            Some(s[i].1)
        } else {
            None
        }
    }

    /// The first stored transaction whose hash is `h`.
    pub open spec fn transaction_with_hash(&self, h: Seq<u8>) -> Option<(TransactionInfo, Transaction, Seq<u8>)> {
        let s = self.txn_seq();
        if exists|i: int| 0 <= i < s.len() && (#[trigger] s[i]).0.transaction_hash@ == h {
            let i = choose|i: int|
                0 <= i < s.len() && (#[trigger] s[i]).0.transaction_hash@ == h
                    && forall|j: int| 0 <= j < i ==> (#[trigger] s[j]).0.transaction_hash@ != h;
            Some(s[i])
        } else {
            None
        }
    }

    pub fn new() -> (r: BlockStore)
        ensures
            r.wf(),
            r.block_seq().len() == 0,
            r.txn_seq().len() == 0,
    {
        BlockStore { blocks: Vec::new(), transactions: Vec::new() }
    }

    fn find_block(&self, id: &HashValue) -> (r: Option<usize>)
        requires
            self.wf(),
        ensures
            r matches Some(i) ==> i < self.block_seq().len() && self.block_seq()[i as int].0 == id@
                && self.block_with_id(id@) == Some(self.block_seq()[i as int].1),
            r is None ==> !self.has_block(id@) && self.block_with_id(id@) is None,
    {
        let mut i: usize = 0;
        while i < self.blocks.len()
            invariant
                self.wf(),
                i <= self.blocks@.len(),
                forall|j: int| 0 <= j < i ==> (#[trigger] self.block_seq()[j]).0 != id@,
            decreases self.blocks@.len() - i,
        {
            if self.blocks[i].0.equals(id) {
                assert(self.block_seq()[i as int].0 == id@);
                assert(self.has_block(id@));
                let ghost k = choose|k: int| 0 <= k < self.block_seq().len() && (#[trigger] self.block_seq()[k]).0 == id@;
                assert(k == i as int);
                return Some(i);
            }
            i = i + 1;
        }
        None
    }

    fn find_number(&self, n: BlockNumber) -> (r: Option<usize>)
        ensures
            r matches Some(i) ==> i < self.block_seq().len() && self.block_with_number(n) == Some(self.block_seq()[i as int].1),
            r is None ==> self.block_with_number(n) is None,
    {
        let ghost s = self.block_seq();
        let mut i: usize = 0;
        while i < self.blocks.len()
            invariant
                s == self.block_seq(),
                i <= self.blocks@.len(),
                forall|j: int| 0 <= j < i ==> (#[trigger] s[j]).1.0.number != n,
            decreases self.blocks@.len() - i,
        {
            if self.blocks[i].1.header.number == n {
                assert(s[i as int].1.0.number == n);
                let ghost k = choose|k: int|
                    0 <= k < s.len() && (#[trigger] s[k]).1.0.number == n && forall|j: int| 0 <= j < k ==> (#[trigger] s[j]).1.0.number != n;
                assert(k == i) by {
                    if k < i {
                    } else if k > i {
                        assert(s[i as int].1.0.number != n);
                    }
                }
                return Some(i);
            }
            i = i + 1;
        }
        None
    }

    fn find_transaction(&self, h: &HashValue) -> (r: Option<usize>)
        ensures
            r matches Some(i) ==> i < self.txn_seq().len() && self.transaction_with_hash(h@) == Some(self.txn_seq()[i as int]),
            r is None ==> self.transaction_with_hash(h@) is None,
    {
        let ghost s = self.txn_seq();
        let mut i: usize = 0;
        while i < self.transactions.len()
            invariant
                s == self.txn_seq(),
                i <= self.transactions@.len(),
                forall|j: int| 0 <= j < i ==> (#[trigger] s[j]).0.transaction_hash@ != h@,
            decreases self.transactions@.len() - i,
        {
            if self.transactions[i].0.transaction_hash.equals(h) {
                assert(s[i as int].0.transaction_hash@ == h@);
                let ghost k = choose|k: int|
                    0 <= k < s.len() && (#[trigger] s[k]).0.transaction_hash@ == h@
                        && forall|j: int| 0 <= j < k ==> (#[trigger] s[j]).0.transaction_hash@ != h@;
                assert(k == i) by {
                    if k > i {
                        assert(s[i as int].0.transaction_hash@ != h@);
                    }
                }
                return Some(i);
            }
            i = i + 1;
        }
        None
    }

    /// The block whose identity is `hash`.
    pub fn get_block_by_hash(&self, hash: HashValue) -> (r: Option<Block>)
        requires
            self.wf(),
        ensures
            opt_block_view(r) == self.block_with_id(hash@),
    {
        match self.find_block(&hash) {
            Some(i) => Some(self.blocks[i].1.duplicate()),
            None => None,
        }
    }

    /// The header of the block whose identity is `hash`.
    pub fn get_block_header_by_hash(&self, hash: HashValue) -> (r: Option<BlockHeader>)
        requires
            self.wf(),
        ensures
            r matches Some(h) ==> self.block_with_id(hash@) matches Some(b) && h == b.0,
            r is None ==> self.block_with_id(hash@) is None,
    {
        match self.find_block(&hash) {
            Some(i) => Some(self.blocks[i].1.header),
            None => None,
        }
    }

    /// The first stored block numbered `number`.
    pub fn get_block_by_number(&self, number: BlockNumber) -> (r: Option<Block>)
        ensures
            opt_block_view(r) == self.block_with_number(number),
    {
        match self.find_number(number) {
            Some(i) => Some(self.blocks[i].1.duplicate()),
            None => None,
        }
    }

    /// The header of the first stored block numbered `number`.
    pub fn get_block_header_by_number(&self, number: BlockNumber) -> (r: Option<BlockHeader>)
        ensures
            r matches Some(h) ==> self.block_with_number(number) matches Some(b) && h == b.0,
            r is None ==> self.block_with_number(number) is None,
    {
        match self.find_number(number) {
            Some(i) => Some(self.blocks[i].1.header),
            None => None,
        }
    }

    /// The receipt of the first stored transaction whose hash is `hash`.
    pub fn get_transaction_info(&self, hash: HashValue) -> (r: Option<TransactionInfo>)
        ensures
            r matches Some(t) ==> self.transaction_with_hash(hash@) matches Some(e) && t == e.0,
            r is None ==> self.transaction_with_hash(hash@) is None,
    {
        match self.find_transaction(&hash) {
            Some(i) => Some(self.transactions[i].0),
            None => None,
        }
    }

    /// The first stored transaction whose hash is `hash`.
    pub fn get_transaction(&self, hash: HashValue) -> (r: Option<Transaction>)
        ensures
            r matches Some(t) ==> self.transaction_with_hash(hash@) matches Some(e) && t == e.1,
            r is None ==> self.transaction_with_hash(hash@) is None,
    {
        match self.find_transaction(&hash) {
            Some(i) => Some(self.transactions[i].1),
            None => None,
        }
    }

    /// Stores `block` and the receipts of its transactions, each of which must carry its own
    /// transaction's hash. Storing a block whose identity is already stored changes nothing.
    pub fn commit_block(&mut self, block: Block, infos: Vec<(TransactionInfo, Transaction)>)
        requires
            old(self).wf(),
            forall|j: int| 0 <= j < infos@.len() ==> (#[trigger] infos@[j]).0.transaction_hash@ == transaction_id(infos@[j].1),
        ensures
            final(self).wf(),
            final(self).has_block(header_id(block.header)),
            old(self).has_block(header_id(block.header)) ==> final(self).block_seq() == old(self).block_seq()
                && final(self).txn_seq() == old(self).txn_seq(),
            !old(self).has_block(header_id(block.header)) ==> {
                &&& final(self).block_seq() == old(self).block_seq().push((header_id(block.header), block@))
                &&& final(self).txn_seq() == old(self).txn_seq() + entries_of(infos@, header_id(block.header))
                &&& final(self).block_with_id(header_id(block.header)) == Some(block@)
            },
    {
        let id = block.id();
        if self.find_block(&id).is_some() {
            return;
        }
        let ghost old_blocks = self.block_seq();
        let ghost old_txns = self.txn_seq();
        self.blocks.push((id, block));
        let ghost s = self.block_seq();
        assert(s =~= old_blocks.push((id@, block@)));
        assert forall|i: int, j: int| 0 <= i < s.len() && 0 <= j < s.len() && i != j implies (#[trigger] s[i]).0 != (#[trigger] s[j]).0 by {
            if i == s.len() - 1 {
                assert(!old(self).has_block(id@));
                assert(old_blocks[j].0 != id@);
            } else if j == s.len() - 1 {
                assert(old_blocks[i].0 != id@);
            }
        }
        assert(self.has_block(id@)) by {
            assert(s[s.len() - 1].0 == id@);
        }
        let ghost k = choose|k: int| 0 <= k < s.len() && (#[trigger] s[k]).0 == id@;
        assert(k == s.len() - 1);
        let mut i: usize = 0;
        while i < infos.len()
            invariant
                i <= infos@.len(),
                self.block_seq() == s,
                self.txn_seq() == old_txns + entries_of(infos@.subrange(0, i as int), id@),
                forall|j: int| 0 <= j < old_txns.len() ==> (#[trigger] old_txns[j]).0.transaction_hash@ == transaction_id(old_txns[j].1),
                forall|j: int| 0 <= j < infos@.len() ==> (#[trigger] infos@[j]).0.transaction_hash@ == transaction_id(infos@[j].1),
            decreases infos@.len() - i,
        {
            let ghost prev = self.txn_seq();
            self.transactions.push((infos[i].0, infos[i].1, id));
            assert(self.txn_seq() =~= prev.push((infos@[i as int].0, infos@[i as int].1, id@)));
            assert(entries_of(infos@.subrange(0, i + 1), id@) =~= entries_of(infos@.subrange(0, i as int), id@).push((infos@[i as int].0, infos@[i as int].1, id@)));
            assert(self.txn_seq() =~= old_txns + entries_of(infos@.subrange(0, i + 1), id@));
            i = i + 1;
        }
        assert(infos@.subrange(0, infos@.len() as int) =~= infos@);
    }
}

} // verus!
