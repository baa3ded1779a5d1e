use vstd::prelude::*;
use crate::bytes::append_bytes;
use crate::hash::{HashValue, sha3_256_of};

verus! {

/// An account address.
pub type AccountAddress = HashValue;

/// Height of a block in the chain; the genesis block has number 0.
pub type BlockNumber = u64;

/// The little-endian bytes of `n`.
pub open spec fn le64(n: u64) -> Seq<u8> {
    Seq::new(8, |i: int| ((n >> ((8 * i) as u64)) & 0xff) as u8)
}

/// Appends the little-endian bytes of `n` to `out`.
pub fn append_u64(out: &mut Vec<u8>, n: u64)
    ensures
        final(out)@ == old(out)@ + le64(n),
{
    let mut i: u64 = 0;
    while i < 8
        invariant
            i <= 8,
            out@ == old(out)@ + le64(n).subrange(0, i as int),
        decreases 8 - i,
    {
        out.push(((n >> (8 * i)) & 0xff) as u8);
        i = i + 1;
        assert(out@ =~= old(out)@ + le64(n).subrange(0, i as int));
    }
    assert(le64(n).subrange(0, 8) =~= le64(n));
}

/// Parameters handed to the transaction executor.
#[derive(Clone, Copy, Debug)]
pub struct VMConfig {
    pub max_gas_amount: u64,
}

/// The header of a block.
#[derive(Clone, Copy, Debug)]
pub struct BlockHeader {
    pub parent_hash: HashValue,
    pub number: BlockNumber,
    pub timestamp: u64,
    pub author: AccountAddress,
    pub accumulator_root: HashValue,
    pub state_root: HashValue,
    pub gas_used: u64,
    pub nonce: u64,
}

/// The bytes that a header's identity is the hash of.
pub open spec fn header_bytes(h: BlockHeader) -> Seq<u8> {
    h.parent_hash@ + le64(h.number) + le64(h.timestamp) + h.author@ + h.accumulator_root@ + h.state_root@
        + le64(h.gas_used) + le64(h.nonce)
}

/// The identity of a header: the hash of its bytes.
pub open spec fn header_id(h: BlockHeader) -> Seq<u8> {
    sha3_256_of(header_bytes(h))
}

/// The header of the genesis block: number 0, every other field zero.
pub open spec fn is_genesis_header(h: BlockHeader) -> bool {
    let zero = Seq::new(32, |i: int| 0u8);
    &&& h.parent_hash@ == zero
    &&& h.number == 0
    &&& h.timestamp == 0
    &&& h.author@ == zero
    &&& h.accumulator_root@ == zero
    &&& h.state_root@ == zero
    &&& h.gas_used == 0
    &&& h.nonce == 0
}

impl BlockHeader {
    /// The header of the genesis block.
    pub fn genesis() -> (r: BlockHeader)
        ensures
            is_genesis_header(r),
    {
        let zero = HashValue::zero();
        BlockHeader {
            parent_hash: zero,
            number: 0,
            timestamp: 0,
            author: zero,
            accumulator_root: zero,
            state_root: zero,
            gas_used: 0,
            nonce: 0,
        }
    }

    /// The bytes of the header.
    pub fn to_bytes(&self) -> (r: Vec<u8>)
        ensures
            r@ == header_bytes(*self),
    {
        let mut out: Vec<u8> = Vec::new();
        append_bytes(&mut out, &self.parent_hash.bytes);
        append_u64(&mut out, self.number);
        append_u64(&mut out, self.timestamp);
        append_bytes(&mut out, &self.author.bytes);
        append_bytes(&mut out, &self.accumulator_root.bytes);
        append_bytes(&mut out, &self.state_root.bytes);
        append_u64(&mut out, self.gas_used);
        append_u64(&mut out, self.nonce);
        assert(out@ =~= header_bytes(*self));
        out
    }

    /// The identity of the header.
    pub fn id(&self) -> (r: HashValue)
        ensures
            r@ == header_id(*self),
    {
        HashValue::sha3_256_of(&self.to_bytes())
    }

    pub fn parent_hash(&self) -> (r: HashValue)
        ensures
            r == self.parent_hash,
    {
        self.parent_hash
    }

    pub fn number(&self) -> (r: BlockNumber)
        ensures
            r == self.number,
    {
        self.number
    }

    /// The metadata transaction that closes a block with this header.
    pub fn into_metadata(&self) -> (r: BlockMetadata)
        ensures
            is_metadata_of(r, *self),
    {
        BlockMetadata { id: self.id(), timestamp: self.timestamp, author: self.author, number: self.number }
    }
}

/// A signed transaction submitted by a user. Its script or module is known here by its hash.
#[derive(Clone, Copy, Debug)]
pub struct SignedUserTransaction {
    pub sender: AccountAddress,
    pub sequence_number: u64,
    pub payload: HashValue,
    pub max_gas_amount: u64,
    pub gas_unit_price: u64,
}

/// The transaction appended to every block, derived from its header.
#[derive(Clone, Copy, Debug)]
pub struct BlockMetadata {
    pub id: HashValue,
    pub timestamp: u64,
    pub author: AccountAddress,
    pub number: BlockNumber,
}

/// `m` is the metadata transaction of a block with header `h`.
pub open spec fn is_metadata_of(m: BlockMetadata, h: BlockHeader) -> bool {
    &&& m.id@ == header_id(h)
    &&& m.timestamp == h.timestamp
    &&& m.author == h.author
    &&& m.number == h.number
}

#[derive(Clone, Copy, Debug)]
pub enum Transaction {
    UserTransaction(SignedUserTransaction),
    BlockMetadata(BlockMetadata),
}

/// The bytes that a transaction's identity is the hash of.
pub open spec fn transaction_bytes(t: Transaction) -> Seq<u8> {
    match t {
        Transaction::UserTransaction(u) => seq![0u8] + u.sender@ + le64(u.sequence_number) + u.payload@
            + le64(u.max_gas_amount) + le64(u.gas_unit_price),
        Transaction::BlockMetadata(m) => seq![1u8] + m.id@ + le64(m.timestamp) + m.author@ + le64(m.number),
    }
}

/// The identity of a transaction: the hash of its bytes.
pub open spec fn transaction_id(t: Transaction) -> Seq<u8> {
    sha3_256_of(transaction_bytes(t))
}

impl Transaction {
    pub fn to_bytes(&self) -> (r: Vec<u8>)
        ensures
            r@ == transaction_bytes(*self),
    {
        let mut out: Vec<u8> = Vec::new();
        match self {
            Transaction::UserTransaction(u) => {
                out.push(0u8);
                append_bytes(&mut out, &u.sender.bytes);
                append_u64(&mut out, u.sequence_number);
                append_bytes(&mut out, &u.payload.bytes);
                append_u64(&mut out, u.max_gas_amount);
                append_u64(&mut out, u.gas_unit_price);
            }
            Transaction::BlockMetadata(m) => {
                out.push(1u8);
                append_bytes(&mut out, &m.id.bytes);
                append_u64(&mut out, m.timestamp);
                append_bytes(&mut out, &m.author.bytes);
                append_u64(&mut out, m.number);
            }
        }
        assert(out@ =~= transaction_bytes(*self));
        out
    }

    /// The identity of the transaction.
    pub fn crypto_hash(&self) -> (r: HashValue)
        ensures
            r@ == transaction_id(*self),
    {
        HashValue::sha3_256_of(&self.to_bytes())
    }
}

/// Outcome of executing one transaction.
#[derive(Clone, Copy, Debug, PartialEq, Eq, Structural)]
pub enum TransactionStatus {
    /// Effects are kept; the VM's status code.
    Keep(u64),
    /// The transaction is rejected; the VM's status code.
    Discard(u64),
}

/// What the executor reports for one transaction.
#[derive(Clone, Copy, Debug)]
pub struct TransactionOutput {
    pub status: TransactionStatus,
    pub gas_used: u64,
    /// Hash of the effects to apply to the chain state.
    pub write_set: HashValue,
}

/// Receipt of one applied transaction.
#[derive(Clone, Copy, Debug)]
pub struct TransactionInfo {
    pub transaction_hash: HashValue,
    pub state_root: HashValue,
    /// Root of the ordered commitment of transactions; zero until one is kept.
    pub accumulator_root: HashValue,
    pub gas_used: u64,
    pub major_status: u64,
}

/// A block: a header and the user transactions it carries, in order.
#[derive(Debug)]
pub struct Block {
    pub header: BlockHeader,
    pub transactions: Vec<SignedUserTransaction>,
}

impl View for Block {
    type V = (BlockHeader, Seq<SignedUserTransaction>);

    open spec fn view(&self) -> (BlockHeader, Seq<SignedUserTransaction>) {
        (self.header, self.transactions@)
    }
}

/// The transactions that applying a block executes: its user transactions in order, then its
/// metadata transaction.
pub open spec fn user_transactions(b: (BlockHeader, Seq<SignedUserTransaction>)) -> Seq<Transaction> {
    b.1.map_values(|u: SignedUserTransaction| Transaction::UserTransaction(u))
}

impl Block {
    pub fn new(header: BlockHeader, transactions: Vec<SignedUserTransaction>) -> (r: Block)
        ensures
            r@ == (header, transactions@),
    {
        Block { header, transactions }
    }

    /// A block without transactions.
    pub fn new_nil_block(header: BlockHeader) -> (r: Block)
        ensures
            r@ == (header, Seq::<SignedUserTransaction>::empty()),
    {
        Block { header, transactions: Vec::new() }
    }

    /// The genesis block.
    pub fn genesis() -> (r: Block)
        ensures
            is_genesis_header(r.header),
            r.transactions@.len() == 0,
    {
        Block::new_nil_block(BlockHeader::genesis())
    }

    pub fn header(&self) -> (r: &BlockHeader)
        ensures
            *r == self.header,
    {
        &self.header
    }

    pub fn id(&self) -> (r: HashValue)
        ensures
            r@ == header_id(self.header),
    {
        self.header.id()
    }

    pub fn transactions(&self) -> (r: &Vec<SignedUserTransaction>)
        ensures
            r@ == self.transactions@,
    {
        &self.transactions
    }

    /// A copy of the block.
    pub fn duplicate(&self) -> (r: Block)
        ensures
            r@ == self@,
    {
        let mut txns: Vec<SignedUserTransaction> = Vec::new();
        let mut i: usize = 0;
        while i < self.transactions.len()
            invariant
                i <= self.transactions@.len(),
                txns@ == self.transactions@.subrange(0, i as int),
            decreases self.transactions@.len() - i,
        {
            txns.push(self.transactions[i]);
            i = i + 1;
        }
        assert(txns@ =~= self.transactions@);
        Block { header: self.header, transactions: txns }
    }
}

} // verus!
