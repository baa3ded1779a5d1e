use vstd::prelude::*;
use crate::chain_state::ChainState;
use crate::block_store::{BlockStore, BlockView, TransactionEntry, opt_block_view};
use crate::hash::HashValue;
use crate::storage::StorageError;
use crate::types::{
    AccountAddress, Block, BlockHeader, BlockMetadata, BlockNumber, SignedUserTransaction, Transaction, TransactionInfo,
    TransactionOutput, TransactionStatus, VMConfig, header_id, is_genesis_header, is_metadata_of, transaction_id,
};

verus! {

/// Why applying a block failed.
#[derive(Debug, PartialEq, Eq, Structural)]
pub enum ChainError {
    /// The block does not extend the head: caller misuse or corrupted chain state.
    InvariantViolation,
    /// The consensus rules reject the header.
    Consensus,
    /// A transaction was discarded or could not be executed; the VM's status code.
    Execution(u64),
    /// A backend failed.
    Storage(StorageError),
    /// The block to resume from is not stored.
    HeadNotFound,
}

/// The consensus rules refused a header.
#[derive(Debug, PartialEq, Eq, Structural)]
pub struct ConsensusError {}

/// The executor could not run a transaction.
#[derive(Debug, PartialEq, Eq, Structural)]
pub struct ExecutorError {
    pub major_status: u64,
}

/// Rules that decide whether a header may extend the chain.
pub trait Consensus {
    /// Whether `header` may follow `parent`.
    spec fn accepts(&self, parent: BlockHeader, header: BlockHeader) -> bool;

    /// Checks `header` against `parent`; changes nothing.
    fn verify_header(&self, parent: &BlockHeader, header: &BlockHeader) -> (r: Result<(), ConsensusError>)
        ensures
            r is Ok <==> self.accepts(*parent, *header),
    ;
}

/// Consensus for development chains: every header is accepted.
pub struct DummyConsensus {}

impl Consensus for DummyConsensus {
    open spec fn accepts(&self, parent: BlockHeader, header: BlockHeader) -> bool {
        true
    }

    fn verify_header(&self, parent: &BlockHeader, header: &BlockHeader) -> (r: Result<(), ConsensusError>) {
        Ok(())
    }
}

/// The virtual machine that runs one transaction against the chain state.
pub trait TransactionExecutor<S> {
    fn execute_transaction(&self, config: &VMConfig, chain_state: &S, txn: Transaction) -> Result<TransactionOutput, ExecutorError>;
}

/// `header` directly extends the block with header `head`.
pub open spec fn extends(head: BlockHeader, header: BlockHeader) -> bool {
    &&& header.parent_hash@ == header_id(head)
    &&& header.number == head.number + 1
}

/// Whether `header` directly extends `head`: its parent is `head` and its number is one more.
pub fn check_linkage(head: &BlockHeader, header: &BlockHeader) -> (r: Result<(), ChainError>)
    ensures
        r is Ok <==> extends(*head, *header),
        r is Err ==> r == Err::<(), ChainError>(ChainError::InvariantViolation),
{
    let head_id = head.id();
    if !header.parent_hash.equals(&head_id) {
        return Err(ChainError::InvariantViolation);
    }
    if head.number == u64::MAX || header.number != head.number + 1 {
        return Err(ChainError::InvariantViolation);
    }
    Ok(())
}

/// What a transaction's status means for its block: a kept transaction gives its status
/// code, a discarded one fails the block.
pub fn status_verdict(status: TransactionStatus) -> (r: Result<u64, ChainError>)
    ensures
        status matches TransactionStatus::Keep(c) ==> r == Ok::<u64, ChainError>(c),
        status matches TransactionStatus::Discard(c) ==> r == Err::<u64, ChainError>(ChainError::Execution(c)),
{
    match status {
        TransactionStatus::Keep(c) => Ok(c),
        TransactionStatus::Discard(c) => Err(ChainError::Execution(c)),
    }
}

/// `entries` are the stored receipts of applying the block `b`: one per user transaction in
/// order, then one for its metadata transaction, each under its own hash and the block's
/// identity, with the placeholder all-zero accumulator root. Gas, status code and state root
/// are what the executor and the state reported.
pub open spec fn receipts_of(entries: Seq<TransactionEntry>, b: BlockView) -> bool {
    &&& entries.len() == b.1.len() + 1
    &&& forall|j: int| 0 <= j < b.1.len() ==> (#[trigger] entries[j]).1 == Transaction::UserTransaction(b.1[j])
    &&& entries[b.1.len() as int].1 matches Transaction::BlockMetadata(m) && is_metadata_of(m, b.0)
    &&& forall|j: int| 0 <= j < entries.len() ==> (#[trigger] entries[j]).0.transaction_hash@ == transaction_id(entries[j].1)
        && entries[j].2 == header_id(b.0)
        && entries[j].0.accumulator_root@ == Seq::new(32, |k: int| 0u8)
}

/// The transactions that applying a block with these parts executes.
fn block_transactions(header: &BlockHeader, users: &Vec<SignedUserTransaction>) -> (r: Vec<Transaction>)
    ensures
        r@.len() == users@.len() + 1,
        forall|j: int| 0 <= j < users@.len() ==> (#[trigger] r@[j]) == Transaction::UserTransaction(users@[j]),
        r@[users@.len() as int] matches Transaction::BlockMetadata(m) && is_metadata_of(m, *header),
{
    let mut txns: Vec<Transaction> = Vec::new();
    let mut i: usize = 0;
    while i < users.len()
        invariant
            i <= users@.len(),
            txns@.len() == i,
            forall|j: int| 0 <= j < i ==> (#[trigger] txns@[j]) == Transaction::UserTransaction(users@[j]),
        decreases users@.len() - i,
    {
        txns.push(Transaction::UserTransaction(users[i]));
        i = i + 1;
    }
    txns.push(Transaction::BlockMetadata(header.into_metadata()));
    txns
}


/// `out` is `inp` with some items left out, the rest in their order.
pub open spec fn subsequence_of(out: Seq<SignedUserTransaction>, inp: Seq<SignedUserTransaction>) -> bool
    decreases inp.len(),
{
    if inp.len() == 0 {
        out.len() == 0
    } else {
        ||| subsequence_of(out, inp.drop_last())
        ||| (out.len() > 0 && out.last() == inp.last() && subsequence_of(out.drop_last(), inp.drop_last()))
    }
}

/// Whether a speculatively executed transaction goes into a template: it ran and was kept.
pub fn keeps_in_template(outcome: &Result<TransactionOutput, ExecutorError>) -> (r: bool)
    ensures
        r == (outcome matches Ok(o) && o.status is Keep),
{
    match outcome {
        Ok(o) => match o.status {
            TransactionStatus::Keep(_) => true,
            TransactionStatus::Discard(_) => false,
        },
        Err(_) => false,
    }
}

/// Gas used so far plus `used`, saturating at the largest value.
pub fn add_gas(total: u64, used: u64) -> (r: u64)
    ensures
        r == if total + used > u64::MAX { u64::MAX as int } else { total + used },
{
    if total <= u64::MAX - used {
        total + used
    } else {
        u64::MAX
    }
}

/// A block ready for sealing: a header without a nonce, and its user transactions.
#[derive(Debug)]
pub struct BlockTemplate {
    pub parent_hash: HashValue,
    pub number: BlockNumber,
    pub timestamp: u64,
    pub author: AccountAddress,
    pub accumulator_root: HashValue,
    pub state_root: HashValue,
    pub gas_used: u64,
    pub transactions: Vec<SignedUserTransaction>,
}

impl BlockTemplate {
    /// The block that sealing the template with `nonce` gives.
    pub fn into_block(self, nonce: u64) -> (r: Block)
        ensures
            r.header == (BlockHeader {
                parent_hash: self.parent_hash,
                number: self.number,
                timestamp: self.timestamp,
                author: self.author,
                accumulator_root: self.accumulator_root,
                state_root: self.state_root,
                gas_used: self.gas_used,
                nonce,
            }),
            r.transactions@ == self.transactions@,
    {
        let header = BlockHeader {
            parent_hash: self.parent_hash,
            number: self.number,
            timestamp: self.timestamp,
            author: self.author,
            accumulator_root: self.accumulator_root,
            state_root: self.state_root,
            gas_used: self.gas_used,
            nonce,
        };
        Block::new(header, self.transactions)
    }
}

/// The canonical chain: its head block, the world state, the index of applied blocks, and
/// the executor and consensus rules chosen when it was made.
pub struct BlockChain<E: TransactionExecutor<S>, C: Consensus, S: ChainState> {
    config: VMConfig,
    head: Block,
    chain_state: S,
    storage: BlockStore,
    executor: E,
    consensus: C,
}

impl<E: TransactionExecutor<S>, C: Consensus, S: ChainState> BlockChain<E, C, S> {
    pub closed spec fn spec_head(&self) -> BlockView {
        self.head@
    }

    pub closed spec fn spec_storage(&self) -> BlockStore {
        self.storage
    }

    pub closed spec fn spec_consensus(&self) -> C {
        self.consensus
    }

    pub closed spec fn spec_chain_state(&self) -> S {
        self.chain_state
    }

    pub open spec fn wf(&self) -> bool {
        &&& self.spec_storage().wf()
        &&& self.spec_chain_state().inv()
        &&& self.spec_chain_state().staged().len() == 0
    }

    /// A chain over `storage`. With a header given, its block must be stored and becomes the
    /// head; without one the chain starts at the genesis block.
    pub fn new(
        config: VMConfig,
        storage: BlockStore,
        head_block_header: Option<BlockHeader>,
        chain_state: S,
        executor: E,
        consensus: C,
    ) -> (r: Result<Self, ChainError>)
        requires
            storage.wf(),
            chain_state.inv(),
            chain_state.staged().len() == 0,
        ensures
            r matches Ok(c) ==> c.wf() && c.spec_storage() == storage && c.spec_consensus() == consensus
                && c.spec_chain_state() == chain_state,
            head_block_header is None ==> (r matches Ok(c) && is_genesis_header(c.spec_head().0) && c.spec_head().1.len() == 0),
            head_block_header matches Some(h) ==> match storage.block_with_id(header_id(h)) {
                Some(b) => (r matches Ok(c) && c.spec_head() == b),
                None => r == Err::<Self, ChainError>(ChainError::HeadNotFound),
            },
    {
        let head = match head_block_header {
            Some(h) => match storage.get_block_by_hash(h.id()) {
                Some(b) => b,
                None => return Err(ChainError::HeadNotFound),
            },
            None => Block::genesis(),
        };
        Ok(BlockChain { config, head, chain_state, storage, executor, consensus })
    }

    /// A copy of the head block.
    pub fn head_block(&self) -> (r: Block)
        ensures
            r@ == self.spec_head(),
    {
        self.head.duplicate()
    }

    pub fn current_header(&self) -> (r: BlockHeader)
        ensures
            r == self.spec_head().0,
    {
        self.head.header
    }

    pub fn get_header(&self, hash: HashValue) -> (r: Option<BlockHeader>)
        requires
            self.wf(),
        ensures
            r matches Some(h) ==> self.spec_storage().block_with_id(hash@) matches Some(b) && h == b.0,
            r is None ==> self.spec_storage().block_with_id(hash@) is None,
    {
        self.storage.get_block_header_by_hash(hash)
    }

    pub fn get_header_by_number(&self, number: BlockNumber) -> (r: Option<BlockHeader>)
        ensures
            r matches Some(h) ==> self.spec_storage().block_with_number(number) matches Some(b) && h == b.0,
            r is None ==> self.spec_storage().block_with_number(number) is None,
    {
        self.storage.get_block_header_by_number(number)
    }

    pub fn get_block_by_number(&self, number: BlockNumber) -> (r: Option<Block>)
        ensures
            opt_block_view(r) == self.spec_storage().block_with_number(number),
    {
        self.storage.get_block_by_number(number)
    }

    pub fn get_block(&self, hash: HashValue) -> (r: Option<Block>)
        requires
            self.wf(),
        ensures
            opt_block_view(r) == self.spec_storage().block_with_id(hash@),
    {
        self.storage.get_block_by_hash(hash)
    }

    pub fn get_transaction(&self, hash: HashValue) -> (r: Option<Transaction>)
        ensures
            r matches Some(t) ==> self.spec_storage().transaction_with_hash(hash@) matches Some(e) && t == e.1,
            r is None ==> self.spec_storage().transaction_with_hash(hash@) is None,
    {
        self.storage.get_transaction(hash)
    }

    pub fn get_transaction_info(&self, hash: HashValue) -> (r: Option<TransactionInfo>)
        ensures
            r matches Some(t) ==> self.spec_storage().transaction_with_hash(hash@) matches Some(e) && t == e.0,
            r is None ==> self.spec_storage().transaction_with_hash(hash@) is None,
    {
        self.storage.get_transaction_info(hash)
    }

    /// The world state, for reading.
    pub fn chain_state_reader(&self) -> (r: &S)
        ensures
            *r == self.spec_chain_state(),
    {
        &self.chain_state
    }

    /// Applies `block` on top of the head. The block must extend the head and pass the
    /// consensus rules; its user transactions and then its metadata transaction run in order,
    /// and the first discarded one fails the whole block. Effects are staged and committed
    /// once for the block; then the block and its receipts are stored, the state is flushed,
    /// and the head advances. On failure the head stays, and the block index is untouched
    /// unless the final flush failed.
    pub fn apply(&mut self, block: Block) -> (r: Result<HashValue, ChainError>)
        requires
            old(self).wf(),
        ensures
            final(self).wf(),
            final(self).spec_consensus() == old(self).spec_consensus(),
            !extends(old(self).spec_head().0, block.header) <==> r == Err::<HashValue, ChainError>(ChainError::InvariantViolation),
            extends(old(self).spec_head().0, block.header) && !old(self).spec_consensus().accepts(old(self).spec_head().0, block.header)
                <==> r == Err::<HashValue, ChainError>(ChainError::Consensus),
            r is Ok ==> final(self).spec_chain_state().committed().len() == old(self).spec_chain_state().committed().len() + block@.1.len() + 1
                && final(self).spec_chain_state().committed().subrange(0, old(self).spec_chain_state().committed().len() as int)
                    == old(self).spec_chain_state().committed(),
            r matches Err(e) && !(e is Storage) ==> final(self).spec_chain_state().committed() == old(self).spec_chain_state().committed(),
            r matches Ok(id) ==> {
                &&& id@ == header_id(block.header)
                &&& extends(old(self).spec_head().0, block.header)
                &&& old(self).spec_consensus().accepts(old(self).spec_head().0, block.header)
                &&& final(self).spec_head() == block@
                &&& final(self).spec_storage().has_block(id@)
            },
            r is Ok && !old(self).spec_storage().has_block(header_id(block.header)) ==> {
                let before = old(self).spec_storage();
                let after = final(self).spec_storage();
                &&& after.block_seq() == before.block_seq().push((header_id(block.header), block@))
                &&& after.block_with_id(header_id(block.header)) == Some(block@)
                &&& after.txn_seq().len() > before.txn_seq().len()
                &&& after.txn_seq().subrange(0, before.txn_seq().len() as int) == before.txn_seq()
                &&& receipts_of(after.txn_seq().subrange(before.txn_seq().len() as int, after.txn_seq().len() as int), block@)
                &&& after.txn_seq().last().0.state_root == final(self).spec_chain_state().current_root()
            },
            r is Ok && old(self).spec_storage().has_block(header_id(block.header)) ==> {
                &&& final(self).spec_storage().block_seq() == old(self).spec_storage().block_seq()
                &&& final(self).spec_storage().txn_seq() == old(self).spec_storage().txn_seq()
            },
            r is Err ==> final(self).spec_head() == old(self).spec_head(),
            r matches Err(e) && !(e is Storage) ==> final(self).spec_storage() == old(self).spec_storage(),
            r matches Err(e) && (e is InvariantViolation || e is Consensus) ==> final(self).spec_chain_state() == old(self).spec_chain_state(),
    {
        let head_header = self.head.header;
        check_linkage(&head_header, &block.header)?;
        if self.consensus.verify_header(&head_header, &block.header).is_err() {
            return Err(ChainError::Consensus);
        }
        let block_id = block.id();
        let txns = block_transactions(&block.header, &block.transactions);
        let mut infos: Vec<(TransactionInfo, Transaction)> = Vec::new();
        let mut i: usize = 0;
        while i < txns.len()
            invariant
                i <= txns@.len(),
                infos@.len() == i,
                forall|j: int| 0 <= j < i ==> (#[trigger] infos@[j]).1 == txns@[j]
                    && infos@[j].0.transaction_hash@ == transaction_id(txns@[j])
                    && infos@[j].0.accumulator_root@ == Seq::new(32, |k: int| 0u8),
                self.head == old(self).head,
                self.storage == old(self).storage,
                self.consensus == old(self).consensus,
                self.storage.wf(),
                extends(old(self).head.header, block.header),
                old(self).consensus.accepts(old(self).head.header, block.header),
                self.chain_state.inv(),
                self.chain_state.committed() == old(self).chain_state.committed(),
                self.chain_state.staged().len() == i,
                txns@.len() == block@.1.len() + 1,
                i > 0 ==> infos@[i - 1].0.state_root == self.chain_state.current_root(),
            decreases txns@.len() - i,
        {
            let txn = txns[i];
            let txn_hash = txn.crypto_hash();
            let output = match self.executor.execute_transaction(&self.config, &self.chain_state, txn) {
                Ok(o) => o,
                Err(e) => {
                    self.chain_state.rollback();
                    return Err(ChainError::Execution(e.major_status));
                }
            };
            let major_status = match status_verdict(output.status) {
                Ok(c) => c,
                Err(e) => {
                    self.chain_state.rollback();
                    return Err(e);
                }
            };
            let state_root = match self.chain_state.apply_write_set(output.write_set) {
                Ok(root) => root,
                Err(e) => {
                    self.chain_state.rollback();
                    return Err(ChainError::Storage(e));
                }
            };
            let info = TransactionInfo {
                transaction_hash: txn_hash,
                state_root,
                accumulator_root: HashValue::zero(),
                gas_used: output.gas_used,
                major_status,
            };
            infos.push((info, txn));
            i = i + 1;
        }
        if let Err(e) = self.chain_state.commit() {
            self.chain_state.rollback();
            return Err(ChainError::Storage(e));
        }
        let ghost before = self.storage;
        let ghost id = header_id(block.header);
        let ghost recorded = crate::block_store::entries_of(infos@, id);
        assert(receipts_of(recorded, block@)) by {
            assert forall|j: int| 0 <= j < block@.1.len() implies (#[trigger] recorded[j]).1 == Transaction::UserTransaction(block@.1[j]) by {
                assert(infos@[j].1 == txns@[j]);
            }
            assert(recorded[block@.1.len() as int].1 == txns@[block@.1.len() as int]);
        }
        self.storage.commit_block(block.duplicate(), infos);
        proof {
            if !before.has_block(id) {
                let a = self.storage.txn_seq();
                let n = before.txn_seq().len() as int;
                assert(a.subrange(0, n) =~= before.txn_seq());
                assert(a.subrange(n, a.len() as int) =~= recorded);
            }
        }
        if let Err(e) = self.chain_state.flush() {
            return Err(ChainError::Storage(e));
        }
        self.head = block;
        Ok(block_id)
    }

    /// A template extending the head, authored by `author` at `timestamp`. The pending
    /// transactions run speculatively in the order given; those discarded or failing are left
    /// out, the others are kept in order. Staged effects are dropped afterwards, and the head
    /// and the block index stay as they were.
    pub fn create_block_template(
        &mut self,
        author: AccountAddress,
        timestamp: u64,
        pending: Vec<SignedUserTransaction>,
    ) -> (r: Result<BlockTemplate, ChainError>)
        requires
            old(self).wf(),
        ensures
            final(self).wf(),
            final(self).spec_head() == old(self).spec_head(),
            final(self).spec_storage() == old(self).spec_storage(),
            final(self).spec_consensus() == old(self).spec_consensus(),
            final(self).spec_chain_state().committed() == old(self).spec_chain_state().committed(),
            old(self).spec_head().0.number == u64::MAX <==> r == Err::<BlockTemplate, ChainError>(ChainError::InvariantViolation),
            r matches Err(e) ==> e is InvariantViolation || e is Storage,
            old(self).spec_head().0.number < u64::MAX && pending@.len() == 0 ==> (r matches Ok(t)
                && t.transactions@.len() == 0 && t.gas_used == 0 && t.state_root == old(self).spec_head().0.state_root),
            r matches Ok(t) ==> {
                &&& t.parent_hash@ == header_id(old(self).spec_head().0)
                &&& t.number == old(self).spec_head().0.number + 1
                &&& t.author == author
                &&& t.timestamp == timestamp
                &&& subsequence_of(t.transactions@, pending@)
            },
    {
        let previous_header = self.head.header;
        if previous_header.number == u64::MAX {
            return Err(ChainError::InvariantViolation);
        }
        let mut included: Vec<SignedUserTransaction> = Vec::new();
        let mut state_root = previous_header.state_root;
        let mut gas_used: u64 = 0;
        let mut i: usize = 0;
        while i < pending.len()
            invariant
                i <= pending@.len(),
                subsequence_of(included@, pending@.subrange(0, i as int)),
                self.head == old(self).head,
                self.storage == old(self).storage,
                self.consensus == old(self).consensus,
                self.storage.wf(),
                old(self).head.header.number < u64::MAX,
                previous_header == old(self).head.header,
                self.chain_state.inv(),
                self.chain_state.committed() == old(self).chain_state.committed(),
                self.chain_state.staged().len() == included@.len(),
                included@.len() == 0 ==> gas_used == 0 && state_root == previous_header.state_root,
            decreases pending@.len() - i,
        {
            let user_txn = pending[i];
            let ghost inp = pending@.subrange(0, i + 1);
            assert(inp.drop_last() =~= pending@.subrange(0, i as int));
            assert(inp.last() == user_txn);
            let outcome = self.executor.execute_transaction(&self.config, &self.chain_state, Transaction::UserTransaction(user_txn));
            if keeps_in_template(&outcome) {
                if let Ok(output) = outcome {
                    match self.chain_state.apply_write_set(output.write_set) {
                        Ok(root) => {
                            let ghost before = included@;
                            included.push(user_txn);
                            assert(included@.drop_last() =~= before);
                            state_root = root;
                            gas_used = add_gas(gas_used, output.gas_used);
                        }
                        Err(e) => {
                            self.chain_state.rollback();
                            return Err(ChainError::Storage(e));
                        }
                    }
                }
            }
            i = i + 1;
        }
        self.chain_state.rollback();
        assert(pending@.subrange(0, pending@.len() as int) =~= pending@);
        Ok(BlockTemplate {
            parent_hash: previous_header.id(),
            number: previous_header.number + 1,
            timestamp,
            author,
            accumulator_root: HashValue::zero(),
            state_root,
            gas_used,
            transactions: included,
        })
    }
}


/// Once `apply(B)` has succeeded on a chain that did not hold B, reading B's identity gives B, and every one of its transactions has a stored receipt.
pub proof fn lemma_applied_block_is_readable(before: BlockStore, after: BlockStore, b: BlockView)
    requires
        after.block_seq() == before.block_seq().push((header_id(b.0), b)),
        after.block_with_id(header_id(b.0)) == Some(b),
        after.txn_seq().len() > before.txn_seq().len(),
        after.txn_seq().subrange(0, before.txn_seq().len() as int) == before.txn_seq(),
        receipts_of(after.txn_seq().subrange(before.txn_seq().len() as int, after.txn_seq().len() as int), b),
    ensures
        after.block_with_id(header_id(b.0)) == Some(b),
        forall|j: int| 0 <= j <= b.1.len() ==> after.transaction_with_hash(
            transaction_id(#[trigger] after.txn_seq()[before.txn_seq().len() + j].1),
        ) is Some,
{
    let n = before.txn_seq().len() as int;
    let s = after.txn_seq();
    assert forall|j: int| 0 <= j <= b.1.len() implies after.transaction_with_hash(
        transaction_id(#[trigger] s[n + j].1),
    ) is Some by {
        let sub = s.subrange(n, s.len() as int);
        assert(sub[j] == s[n + j]);
        assert(s[n + j].0.transaction_hash@ == transaction_id(s[n + j].1));
    }
}

} // verus!
