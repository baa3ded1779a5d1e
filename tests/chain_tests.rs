use chain_core::block_store::BlockStore;
use chain_core::chain::{
    BlockChain, ChainError, Consensus, ConsensusError, DummyConsensus, ExecutorError, TransactionExecutor, check_linkage,
    status_verdict,
};
use chain_core::chain_state::{ChainState, MemoryChainState};
use chain_core::hash::HashValue;
use chain_core::storage::StorageError;
use chain_core::types::{
    Block, BlockHeader, SignedUserTransaction, Transaction, TransactionOutput, TransactionStatus, VMConfig,
};

/// Keeps every transaction except those sent by `banned`, which it discards with status 4001.
struct TestExecutor {
    banned: HashValue,
}

impl TransactionExecutor<MemoryChainState> for TestExecutor {
    fn execute_transaction(
        &self,
        _config: &VMConfig,
        _chain_state: &MemoryChainState,
        txn: Transaction,
    ) -> Result<TransactionOutput, ExecutorError> {
        let status = match txn {
            Transaction::UserTransaction(u) if u.sender == self.banned => TransactionStatus::Discard(4001),
            _ => TransactionStatus::Keep(0),
        };
        Ok(TransactionOutput { status, gas_used: 10, write_set: HashValue { bytes: [3u8; 32] } })
    }
}

type TestChain = BlockChain<TestExecutor, DummyConsensus, MemoryChainState>;

/// Rejects every header whose timestamp is not after its parent's.
struct TimestampConsensus {}

impl Consensus for TimestampConsensus {
    fn accepts(&self, parent: BlockHeader, header: BlockHeader) -> bool {
        header.timestamp > parent.timestamp
    }

    fn verify_header(&self, parent: &BlockHeader, header: &BlockHeader) -> Result<(), ConsensusError> {
        if header.timestamp > parent.timestamp {
            Ok(())
        } else {
            Err(ConsensusError {})
        }
    }
}

fn addr(b: u8) -> HashValue {
    HashValue { bytes: [b; 32] }
}

fn user_txn(sender: u8, seq: u64) -> SignedUserTransaction {
    SignedUserTransaction { sender: addr(sender), sequence_number: seq, payload: addr(0xee), max_gas_amount: 1000, gas_unit_price: 1 }
}

fn genesis_chain() -> TestChain {
    BlockChain::new(
        VMConfig { max_gas_amount: 1_000_000 },
        BlockStore::new(),
        None,
        MemoryChainState::new(1000),
        TestExecutor { banned: addr(0xbb) },
        DummyConsensus {},
    )
    .unwrap()
}

fn child_header(parent: &BlockHeader) -> BlockHeader {
    BlockHeader {
        parent_hash: parent.id(),
        number: parent.number + 1,
        timestamp: parent.timestamp + 10,
        author: addr(0xaa),
        accumulator_root: HashValue::zero(),
        state_root: HashValue::zero(),
        gas_used: 0,
        nonce: 42,
    }
}

#[test]
fn genesis_plus_one_block() {
    let mut chain = genesis_chain();
    assert_eq!(chain.current_header().number, 0);
    let genesis = chain.current_header();
    let txn = user_txn(1, 0);
    let block = Block::new(child_header(&genesis), vec![txn]);
    let id = block.id();
    assert_eq!(chain.apply(block).unwrap(), id);
    assert_eq!(chain.current_header().number, 1);
    assert_eq!(chain.head_block().id(), id);
    let stored = chain.get_block_by_number(1).unwrap();
    assert_eq!(stored.id(), id);
    assert_eq!(stored.transactions().len(), 1);
    assert_eq!(chain.get_block(id).unwrap().header.number, 1);
    assert_eq!(chain.get_header(id).unwrap().id(), id);
    assert_eq!(chain.get_header_by_number(1).unwrap().id(), id);
    let txn_hash = Transaction::UserTransaction(txn).crypto_hash();
    let info = chain.get_transaction_info(txn_hash).unwrap();
    assert_eq!(info.transaction_hash, txn_hash);
    assert_eq!(info.gas_used, 10);
    assert_eq!(info.major_status, 0);
    assert!(matches!(chain.get_transaction(txn_hash), Some(Transaction::UserTransaction(_))));
    // the metadata transaction has a receipt too
    let meta_hash = Transaction::BlockMetadata(chain.current_header().into_metadata()).crypto_hash();
    assert!(chain.get_transaction_info(meta_hash).is_some());
    assert_eq!(chain.chain_state_reader().flushed_count(), 2);
    assert_eq!(chain.chain_state_reader().committed_count(), 2);
    assert_eq!(chain.chain_state_reader().staged_count(), 0);
}

#[test]
fn wrong_parent_is_invariant_violation() {
    let mut chain = genesis_chain();
    let mut header = child_header(&chain.current_header());
    header.parent_hash = addr(0x5a);
    let block = Block::new(header, vec![user_txn(1, 0)]);
    assert_eq!(chain.apply(block), Err(ChainError::InvariantViolation));
    assert_eq!(chain.current_header().number, 0);
    assert!(chain.get_block_by_number(1).is_none());
    assert_eq!(chain.chain_state_reader().flushed_count(), 0);
}

#[test]
fn wrong_number_is_invariant_violation() {
    let mut chain = genesis_chain();
    let mut header = child_header(&chain.current_header());
    header.number = 2;
    assert_eq!(chain.apply(Block::new_nil_block(header)), Err(ChainError::InvariantViolation));
    assert_eq!(chain.current_header().number, 0);
}

#[test]
fn discarded_transaction_fails_block() {
    let mut chain = genesis_chain();
    let good = user_txn(1, 0);
    let bad = user_txn(0xbb, 0);
    let block = Block::new(child_header(&chain.current_header()), vec![good, bad]);
    assert_eq!(chain.apply(block), Err(ChainError::Execution(4001)));
    assert_eq!(chain.current_header().number, 0);
    assert!(chain.get_block_by_number(1).is_none());
    assert!(chain.get_transaction_info(Transaction::UserTransaction(good).crypto_hash()).is_none());
    assert!(chain.get_transaction_info(Transaction::UserTransaction(bad).crypto_hash()).is_none());
    assert_eq!(chain.chain_state_reader().committed_count(), 0);
    assert_eq!(chain.chain_state_reader().staged_count(), 0);
}

#[test]
fn full_state_fails_block_and_rolls_back() {
    let mut chain: TestChain = BlockChain::new(
        VMConfig { max_gas_amount: 1 },
        BlockStore::new(),
        None,
        MemoryChainState::new(1),
        TestExecutor { banned: addr(0xbb) },
        DummyConsensus {},
    )
    .unwrap();
    let block = Block::new(child_header(&chain.current_header()), vec![user_txn(1, 0)]);
    assert_eq!(chain.apply(block), Err(ChainError::Storage(StorageError::Backend)));
    assert_eq!(chain.current_header().number, 0);
    assert!(chain.get_block_by_number(1).is_none());
    assert_eq!(chain.chain_state_reader().committed_count(), 0);
    assert_eq!(chain.chain_state_reader().staged_count(), 0);
}

#[test]
fn two_blocks_in_a_row() {
    let mut chain = genesis_chain();
    let b1 = Block::new(child_header(&chain.current_header()), vec![user_txn(1, 0)]);
    chain.apply(b1).unwrap();
    let b2 = Block::new(child_header(&chain.current_header()), vec![user_txn(1, 1), user_txn(2, 0)]);
    let id2 = b2.id();
    chain.apply(b2).unwrap();
    assert_eq!(chain.current_header().number, 2);
    assert_eq!(chain.get_block_by_number(2).unwrap().id(), id2);
    assert_eq!(chain.get_block_by_number(1).unwrap().header.number, 1);
}

#[test]
fn resume_from_stored_head() {
    let mut chain = genesis_chain();
    let b1 = Block::new(child_header(&chain.current_header()), vec![]);
    let b1_header = b1.header;
    chain.apply(b1).unwrap();
    let mut store = BlockStore::new();
    store.commit_block(chain.head_block(), Vec::new());
    let resumed: TestChain = BlockChain::new(
        VMConfig { max_gas_amount: 1 },
        store,
        Some(b1_header),
        MemoryChainState::new(1000),
        TestExecutor { banned: addr(0xbb) },
        DummyConsensus {},
    )
    .unwrap();
    assert_eq!(resumed.current_header().id(), b1_header.id());
}

#[test]
fn resume_from_missing_head_fails() {
    let missing = child_header(&BlockHeader::genesis());
    let r: Result<TestChain, ChainError> = BlockChain::new(
        VMConfig { max_gas_amount: 1 },
        BlockStore::new(),
        Some(missing),
        MemoryChainState::new(1000),
        TestExecutor { banned: addr(0xbb) },
        DummyConsensus {},
    );
    assert!(matches!(r, Err(ChainError::HeadNotFound)));
}

#[test]
fn storing_a_block_twice_is_a_no_op() {
    let mut store = BlockStore::new();
    let block = Block::new(child_header(&BlockHeader::genesis()), vec![user_txn(1, 0)]);
    let id = block.id();
    store.commit_block(block.duplicate(), Vec::new());
    store.commit_block(block, Vec::new());
    assert_eq!(store.get_block_by_hash(id).unwrap().id(), id);
    assert!(store.get_block_by_number(2).is_none());
}

#[test]
fn template_skips_discarded_transactions() {
    let mut chain = genesis_chain();
    let genesis_id = chain.current_header().id();
    let a = user_txn(1, 0);
    let x = user_txn(0xbb, 0);
    let b = user_txn(2, 0);
    let template = chain.create_block_template(addr(0xaa), 77, vec![a, x, b]).unwrap();
    assert_eq!(template.parent_hash, genesis_id);
    assert_eq!(template.number, 1);
    assert_eq!(template.timestamp, 77);
    assert_eq!(template.gas_used, 20);
    assert_eq!(template.transactions.len(), 2);
    assert_eq!(template.transactions[0].sender, addr(1));
    assert_eq!(template.transactions[1].sender, addr(2));
    assert_eq!(chain.chain_state_reader().staged_count(), 0);
    let block = template.into_block(5);
    chain.apply(block).unwrap();
    assert_eq!(chain.current_header().number, 1);
}

#[test]
fn linkage_and_status_decisions() {
    let genesis = BlockHeader::genesis();
    let child = child_header(&genesis);
    assert_eq!(check_linkage(&genesis, &child), Ok(()));
    assert_eq!(check_linkage(&child, &genesis), Err(ChainError::InvariantViolation));
    assert_eq!(status_verdict(TransactionStatus::Keep(7)), Ok(7));
    assert_eq!(status_verdict(TransactionStatus::Discard(9)), Err(ChainError::Execution(9)));
    assert_eq!(DummyConsensus {}.verify_header(&genesis, &child).is_ok(), true);
}

#[test]
fn header_identity_depends_on_every_field() {
    let g = BlockHeader::genesis();
    let mut other = g;
    other.nonce = 1;
    assert_ne!(g.id(), other.id());
    assert_eq!(g.id(), BlockHeader::genesis().id());
    assert_eq!(g.to_bytes().len(), 32 * 4 + 8 * 4);
    assert_ne!(g.id().to_vec(), g.to_bytes()[..32].to_vec());
}

#[test]
fn consensus_rejection_fails_block() {
    let mut chain: BlockChain<TestExecutor, TimestampConsensus, MemoryChainState> = BlockChain::new(
        VMConfig { max_gas_amount: 1 },
        BlockStore::new(),
        None,
        MemoryChainState::new(1000),
        TestExecutor { banned: addr(0xbb) },
        TimestampConsensus {},
    )
    .unwrap();
    let mut header = child_header(&chain.current_header());
    header.timestamp = 0;
    assert_eq!(chain.apply(Block::new(header, vec![user_txn(1, 0)])), Err(ChainError::Consensus));
    assert_eq!(chain.current_header().number, 0);
    assert!(chain.get_block_by_number(1).is_none());
    assert_eq!(chain.chain_state_reader().committed_count(), 0);
    header.timestamp = 5;
    assert!(chain.apply(Block::new(header, vec![user_txn(1, 0)])).is_ok());
}

#[test]
fn head_at_largest_number_cannot_be_extended() {
    let mut top = child_header(&BlockHeader::genesis());
    top.number = u64::MAX;
    let mut store = BlockStore::new();
    store.commit_block(Block::new_nil_block(top), Vec::new());
    let mut chain: TestChain = BlockChain::new(
        VMConfig { max_gas_amount: 1 },
        store,
        Some(top),
        MemoryChainState::new(1000),
        TestExecutor { banned: addr(0xbb) },
        DummyConsensus {},
    )
    .unwrap();
    assert_eq!(chain.current_header().number, u64::MAX);
    assert!(matches!(chain.create_block_template(addr(1), 1, vec![]), Err(ChainError::InvariantViolation)));
    let mut next = child_header(&BlockHeader::genesis());
    next.parent_hash = top.id();
    next.number = 0;
    assert_eq!(chain.apply(Block::new_nil_block(next)), Err(ChainError::InvariantViolation));
}

#[test]
fn template_from_empty_pool() {
    let mut chain = genesis_chain();
    let template = chain.create_block_template(addr(0xaa), 3, Vec::new()).unwrap();
    assert!(template.transactions.is_empty());
    assert_eq!(template.gas_used, 0);
    assert_eq!(template.state_root, HashValue::zero());
}

#[test]
fn state_root_chains_write_sets() {
    let mut state = MemoryChainState::new(10);
    let zero = state.state_root();
    assert_eq!(zero, HashValue::zero());
    let r1 = state.apply_write_set(addr(1)).unwrap();
    assert_ne!(r1, zero);
    assert_eq!(state.state_root(), r1);
    state.rollback();
    assert_eq!(state.state_root(), zero);
    let again = state.apply_write_set(addr(1)).unwrap();
    assert_eq!(again, r1);
    assert_eq!(state.commit().unwrap(), r1);
    state.flush().unwrap();
    assert_eq!(state.committed_count(), 1);
    assert_eq!(state.flushed_count(), 1);
}
