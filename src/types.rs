use vstd::prelude::*;

verus! {

/// A 256-bit hash (block hash, transaction hash, log topic), held as two halves.
#[derive(Clone, Copy, Debug, PartialEq, Eq, Structural)]
pub struct H256 {
    pub hi: u128,
    pub lo: u128,
}

impl H256 {
    pub fn zero() -> (r: H256)
        ensures
            r.hi == 0 && r.lo == 0,
    {
        H256 { hi: 0, lo: 0 }
    }

    pub fn from_low_u64(v: u64) -> (r: H256)
        ensures
            r.hi == 0 && r.lo == v as u128,
    {
        H256 { hi: 0, lo: v as u128 }
    }
}

/// A 160-bit account address: the upper 32 bits and the lower 128 bits.
#[derive(Clone, Copy, Debug, PartialEq, Eq, Structural)]
pub struct Address {
    pub hi: u32,
    pub lo: u128,
}

impl Address {
    pub open spec fn zero_spec() -> Address {
        Address { hi: 0, lo: 0 }
    }

    pub fn zero() -> (r: Address)
        ensures
            r == Address::zero_spec(),
    {
        Address { hi: 0, lo: 0 }
    }

    pub fn from_low_u64(v: u64) -> (r: Address)
        ensures
            r.hi == 0 && r.lo == v as u128,
    {
        Address { hi: 0, lo: v as u128 }
    }
}

/// A block named by number or by one of the symbolic tags.
#[derive(Clone, Copy, Debug, PartialEq, Eq, Structural)]
pub enum BlockNumber {
    Latest,
    Earliest,
    Pending,
    Number(u64),
}

/// A block named by number (or tag) or by hash.
#[derive(Clone, Copy, Debug, PartialEq, Eq, Structural)]
pub enum BlockId {
    Number(BlockNumber),
    Hash(H256),
}

/// An event emitted by a transaction, as the chain data store holds it.
#[derive(Clone, Debug)]
pub struct Log {
    pub address: Address,
    pub topics: Vec<H256>,
    pub data: Vec<u8>,
    pub block_number: u64,
    pub log_index: u64,
    pub transaction_hash: H256,
}

/// The mathematical value of a `Log`.
pub struct LogView {
    pub address: Address,
    pub topics: Seq<H256>,
    pub data: Seq<u8>,
    pub block_number: u64,
    pub log_index: u64,
    pub transaction_hash: H256,
}

impl View for Log {
    type V = LogView;

    open spec fn view(&self) -> LogView {
        LogView {
            address: self.address,
            topics: self.topics@,
            data: self.data@,
            block_number: self.block_number,
            log_index: self.log_index,
            transaction_hash: self.transaction_hash,
        }
    }
}

impl Log {
    /// A copy of this log with the same value.
    pub fn duplicate(&self) -> (r: Log)
        ensures
            r@ == self@,
    {
        let mut topics: Vec<H256> = Vec::new();
        let mut i: usize = 0;
        while i < self.topics.len()
            invariant
                i <= self.topics@.len(),
                topics@ == self.topics@.take(i as int),
            decreases self.topics@.len() - i,
        {
            topics.push(self.topics[i]);
            i = i + 1;
            assert(topics@ =~= self.topics@.take(i as int));
        }
        assert(topics@ =~= self.topics@);
        let mut data: Vec<u8> = Vec::new();
        let mut j: usize = 0;
        while j < self.data.len()
            invariant
                j <= self.data@.len(),
                data@ == self.data@.take(j as int),
            decreases self.data@.len() - j,
        {
            data.push(self.data[j]);
            j = j + 1;
            assert(data@ =~= self.data@.take(j as int));
        }
        assert(data@ =~= self.data@);
        Log {
            address: self.address,
            topics,
            data,
            block_number: self.block_number,
            log_index: self.log_index,
            transaction_hash: self.transaction_hash,
        }
    }
}

/// The views of a sequence of logs.
pub open spec fn log_views(s: Seq<Log>) -> Seq<LogView> {
    s.map_values(|l: Log| l@)
}

/// A transaction waiting in the mempool, with the time it was received (microseconds).
#[derive(Clone, Copy, Debug, PartialEq, Eq, Structural)]
pub struct PendingTx {
    pub hash: H256,
    pub received_at: i64,
}

/// A transaction as the query facade reports it.
#[derive(Clone, Copy, Debug, PartialEq, Eq, Structural)]
pub struct Transaction {
    pub hash: H256,
    pub from: Address,
    pub to: Option<Address>,
    pub nonce: u64,
    pub value: u128,
    pub block_number: Option<u64>,
    pub transaction_index: Option<u64>,
}

/// The receipt of a transaction. `status` is 1 for success and 0 for failure.
#[derive(Clone, Copy, Debug, PartialEq, Eq, Structural)]
pub struct TransactionReceipt {
    pub transaction_hash: H256,
    pub status: Option<u64>,
    pub block_number: Option<u64>,
    pub gas_used: u64,
}

/// A transaction named by hash, or by block and position in the block.
#[derive(Clone, Copy, Debug, PartialEq, Eq, Structural)]
pub enum TransactionId {
    Hash(H256),
    Block(BlockId, u64),
}

/// A client's log filter: a block range, an address set and per-position topic sets.
#[derive(Clone, Debug)]
pub struct Filter {
    pub from_block: Option<BlockNumber>,
    pub to_block: Option<BlockNumber>,
    pub address: Option<Vec<Address>>,
    pub topics: Option<Vec<Option<Vec<H256>>>>,
    pub block_hash: Option<H256>,
}

/// A filter installed in the registry, with its cursor.
/// `Blocks(n)`: the last block whose hash was reported.
/// `Events(f, n)`: the last block whose logs were reported (the next poll starts after it).
/// `PendingTransactions(t)`: the receive time of the last reported transaction.
#[derive(Clone, Debug)]
pub enum TypedFilter {
    Blocks(u64),
    Events(Filter, u64),
    PendingTransactions(i64),
}

/// What a poll of a filter reports.
#[derive(Clone, Debug)]
pub enum FilterChanges {
    Hashes(Vec<H256>),
    Logs(Vec<Log>),
    Empty,
}

/// The errors of the query facade.
#[derive(Clone, Debug, PartialEq, Eq)]
pub enum Web3Error {
    /// The block identifier does not name a sealed block.
    NoBlock,
    /// No filter is installed under the id (or it was evicted).
    FilterNotFound,
    /// The filter names more than four topic positions.
    TooManyTopics,
    /// A filter that names a block hash also names a block range.
    InvalidFilterBlockHash,
    /// The range holds more logs than the limit:
    /// (limit, first block of the range, last block that is safe to ask for).
    LogsLimitExceeded(usize, u64, u64),
    /// The execution sandbox or the submission pipeline refused the transaction.
    SubmitTransactionError(String, Vec<u8>),
    /// The method is not offered by this node.
    MethodNotSupported,
}

} // verus!
