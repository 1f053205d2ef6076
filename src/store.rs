use vstd::prelude::*;
use crate::types::{
    BlockId, BlockNumber, H256, Log, LogView, PendingTx, Transaction, TransactionReceipt, Web3Error,
};

verus! {

/// `a` comes strictly before `b` in the store's log order: by block, then by index in block.
pub open spec fn log_before(a: LogView, b: LogView) -> bool {
    a.block_number < b.block_number || (a.block_number == b.block_number && a.log_index
        < b.log_index)
}

/// The logs are in strictly ascending store order.
pub open spec fn logs_ordered(s: Seq<LogView>) -> bool {
    forall|i: int, j: int| 0 <= i < j < s.len() ==> log_before(#[trigger] s[i], #[trigger] s[j])
}

/// The pending transactions are in non-decreasing order of receive time.
pub open spec fn pending_ordered(s: Seq<PendingTx>) -> bool {
    forall|i: int, j: int|
        0 <= i < j < s.len() ==> (#[trigger] s[i]).received_at <= (#[trigger] s[j]).received_at
}

/// What the chain data store holds at the time of a call: the hashes of the sealed blocks
/// (block `n` at index `n`, block 0 being genesis), their logs in store order, and the
/// pending transactions in order of arrival.
#[derive(Clone, Debug)]
pub struct ChainStore {
    pub block_hashes: Vec<H256>,
    pub logs: Vec<Log>,
    pub pending_txs: Vec<PendingTx>,
    pub transactions: Vec<Transaction>,
    pub receipts: Vec<TransactionReceipt>,
}

impl ChainStore {
    pub open spec fn wf(&self) -> bool {
        &&& 1 <= self.block_hashes@.len() < u64::MAX
        &&& logs_ordered(crate::types::log_views(self.logs@))
        &&& forall|i: int|
            0 <= i < self.logs@.len() ==> (#[trigger] self.logs@[i]).block_number
                < self.block_hashes@.len()
        &&& pending_ordered(self.pending_txs@)
    }

    /// The number of the last sealed block.
    pub open spec fn tip(&self) -> u64 {
        (self.block_hashes@.len() - 1) as u64
    }

    /// A store that holds only the genesis block.
    pub fn genesis(hash: H256) -> (r: ChainStore)
        ensures
            r.wf(),
            r.block_hashes@ == seq![hash],
            r.logs@.len() == 0,
            r.pending_txs@.len() == 0,
            r.transactions@.len() == 0,
            r.receipts@.len() == 0,
    {
        let mut block_hashes: Vec<H256> = Vec::new();
        block_hashes.push(hash);
        ChainStore {
            block_hashes,
            logs: Vec::new(),
            pending_txs: Vec::new(),
            transactions: Vec::new(),
            receipts: Vec::new(),
        }
    }

    /// Decides `wf`: checks the block count, the order and blocks of the logs, and the
    /// order of the pending transactions.
    pub fn is_well_formed(&self) -> (r: bool)
        ensures
            r == self.wf(),
    {
        let n = self.block_hashes.len();
        if n < 1 || n as u64 == u64::MAX {
            return false;
        }
        let ghost views = crate::types::log_views(self.logs@);
        let mut k: usize = 0;
        while k < self.logs.len()
            invariant
                k <= self.logs@.len(),
                n == self.block_hashes@.len(),
                views == crate::types::log_views(self.logs@),
                forall|i: int, j: int|
                    0 <= i < j < k ==> log_before(#[trigger] views[i], #[trigger] views[j]),
                forall|i: int| 0 <= i < k ==> (#[trigger] self.logs@[i]).block_number < n,
            decreases self.logs@.len() - k,
        {
            if self.logs[k].block_number >= n as u64 {
                return false;
            }
            if k > 0 {
                let a = &self.logs[k - 1];
                let b = &self.logs[k];
                if !(a.block_number < b.block_number || (a.block_number == b.block_number
                    && a.log_index < b.log_index)) {
                    assert(!log_before(views[k - 1], views[k as int]));
                    return false;
                }
                assert forall|i: int| 0 <= i < k implies log_before(
                    #[trigger] views[i],
                    views[k as int],
                ) by {
                    if i < k - 1 {
                        assert(log_before(views[i], views[k - 1]));
                    }
                }
            }
            k = k + 1;
        }
        let mut p: usize = 0;
        while p < self.pending_txs.len()
            invariant
                p <= self.pending_txs@.len(),
                forall|i: int, j: int|
                    0 <= i < j < p ==> (#[trigger] self.pending_txs@[i]).received_at
                        <= (#[trigger] self.pending_txs@[j]).received_at,
            decreases self.pending_txs@.len() - p,
        {
            if p > 0 {
                if self.pending_txs[p - 1].received_at > self.pending_txs[p].received_at {
                    return false;
                }
                assert forall|i: int| 0 <= i < p implies (
                #[trigger] self.pending_txs@[i]).received_at
                    <= self.pending_txs@[p as int].received_at by {
                    if i < p - 1 {
                        assert(self.pending_txs@[i].received_at
                            <= self.pending_txs@[p - 1].received_at);
                    }
                }
            }
            p = p + 1;
        }
        true
    }

    /// The number of the last sealed block.
    pub fn sealed_block_number(&self) -> (r: u64)
        requires
            self.wf(),
        ensures
            r == self.tip(),
    {
        (self.block_hashes.len() - 1) as u64
    }

    /// The number of the sealed block with this hash, if any (the lowest one).
    pub fn block_number_by_hash(&self, hash: H256) -> (r: Option<u64>)
        requires
            self.wf(),
        ensures
            r.is_none() <==> !self.block_hashes@.contains(hash),
            r matches Some(n) ==> n < self.block_hashes@.len() && self.block_hashes@[n as int]
                == hash && forall|k: int| 0 <= k < n ==> self.block_hashes@[k] != hash,
    {
        let mut i: usize = 0;
        while i < self.block_hashes.len()
            invariant
                i <= self.block_hashes@.len(),
                forall|k: int| 0 <= k < i ==> self.block_hashes@[k] != hash,
            decreases self.block_hashes@.len() - i,
        {
            if self.block_hashes[i] == hash {
                return Some(i as u64);
            }
            i = i + 1;
        }
        None
    }
}

/// The block number that a tag or number stands for, against a store whose tip is `tip`.
pub open spec fn block_number_value(tip: u64, b: BlockNumber) -> u64 {
    match b {
        BlockNumber::Latest => tip,
        BlockNumber::Earliest => 0,
        BlockNumber::Pending => (tip + 1) as u64,
        BlockNumber::Number(n) => n,
    }
}

/// The bound of a filter's range: a missing bound means the latest block.
pub open spec fn filter_bound_value(tip: u64, b: Option<BlockNumber>) -> u64 {
    match b {
        None => tip,
        Some(b) => block_number_value(tip, b),
    }
}

/// Resolves the bound of a filter's range to a block number; a missing bound means latest.
pub fn resolve_filter_block_number(store: &ChainStore, b: Option<BlockNumber>) -> (r: u64)
    requires
        store.wf(),
    ensures
        r == filter_bound_value(store.tip(), b),
{
    let tip = store.sealed_block_number();
    match b {
        None => tip,
        Some(BlockNumber::Latest) => tip,
        Some(BlockNumber::Earliest) => 0,
        Some(BlockNumber::Pending) => tip + 1,
        Some(BlockNumber::Number(n)) => n,
    }
}

/// The block that a block identifier names, if it resolves against the store.
pub open spec fn resolve_block_spec(store: ChainStore, id: BlockId) -> Option<u64> {
    match id {
        BlockId::Hash(h) => if store.block_hashes@.contains(h) {
            Some(choose|n: u64| n < store.block_hashes@.len() && store.block_hashes@[n as int] == h
                && forall|k: int| 0 <= k < n ==> store.block_hashes@[k] != h)
        } else {
            None
        },
        BlockId::Number(BlockNumber::Number(n)) => if n <= store.tip() {
            Some(n)
        } else {
            None
        },
        BlockId::Number(b) => Some(block_number_value(store.tip(), b)),
    }
}

/// Resolves a block identifier to a block number: tags always resolve (`pending` to the
/// block after the tip), a literal number only up to the tip, a hash only if a sealed block
/// has it; otherwise `NoBlock`.
pub fn resolve_block(store: &ChainStore, id: BlockId) -> (r: Result<u64, Web3Error>)
    requires
        store.wf(),
    ensures
        r matches Ok(n) ==> resolve_block_spec(*store, id) == Some(n),
        r matches Err(e) ==> e == Web3Error::NoBlock && resolve_block_spec(*store, id).is_none(),
{
    let tip = store.sealed_block_number();
    match id {
        BlockId::Hash(h) => {
            match store.block_number_by_hash(h) {
                Some(n) => {
                    proof {
                        let spec_n = choose|m: u64| m < store.block_hashes@.len()
                            && store.block_hashes@[m as int] == h && forall|k: int|
                            0 <= k < m ==> store.block_hashes@[k] != h;
                        assert(spec_n == n) by {
                            if spec_n < n {
                                assert(store.block_hashes@[spec_n as int] != h);
                            } else if spec_n > n {
                                assert(store.block_hashes@[n as int] != h);
                            }
                        }
                    }
                    Ok(n)
                },
                None => Err(Web3Error::NoBlock),
            }
        },
        BlockId::Number(BlockNumber::Number(n)) => {
            if n <= tip {
                Ok(n)
            } else {
                Err(Web3Error::NoBlock)
            }
        },
        BlockId::Number(BlockNumber::Latest) => Ok(tip),
        BlockId::Number(BlockNumber::Earliest) => Ok(0),
        BlockId::Number(BlockNumber::Pending) => Ok(tip + 1),
    }
}

} // verus!
