use vstd::prelude::*;
use crate::store::{ChainStore, resolve_block, resolve_block_spec};
use crate::types::{H256, Transaction, TransactionId, TransactionReceipt};

verus! {

/// The first transaction of `s` with hash `h`, if any.
pub open spec fn first_with_hash(s: Seq<Transaction>, h: H256) -> Option<Transaction>
    decreases s.len(),
{
    if s.len() == 0 {
        None
    } else if s[0].hash == h {
        Some(s[0])
    } else {
        first_with_hash(s.drop_first(), h)
    }
}

/// `s` without the transactions whose hash is `h`.
pub open spec fn without_hash(s: Seq<Transaction>, h: H256) -> Seq<Transaction>
    decreases s.len(),
{
    if s.len() == 0 {
        Seq::empty()
    } else {
        let rest = without_hash(s.drop_last(), h);
        if s.last().hash == h {
            rest
        } else {
            rest.push(s.last())
        }
    }
}

proof fn lemma_first_with_hash_step(s: Seq<Transaction>, h: H256, i: int)
    requires
        0 <= i < s.len(),
        forall|k: int| 0 <= k < i ==> s[k].hash != h,
    ensures
        first_with_hash(s.subrange(i, s.len() as int), h) == if s[i].hash == h {
            Some(s[i])
        } else {
            first_with_hash(s.subrange(i + 1, s.len() as int), h)
        },
{
    assert(s.subrange(i, s.len() as int).drop_first() =~= s.subrange(i + 1, s.len() as int));
}

/// The first transaction of `v` whose hash is `h`.
pub fn find_by_hash(v: &Vec<Transaction>, h: H256) -> (r: Option<Transaction>)
    ensures
        r == first_with_hash(v@, h),
{
    let mut i: usize = 0;
    assert(v@.subrange(0, v@.len() as int) =~= v@);
    while i < v.len()
        invariant
            i <= v@.len(),
            forall|k: int| 0 <= k < i ==> v@[k].hash != h,
            first_with_hash(v@.subrange(i as int, v@.len() as int), h) == first_with_hash(v@, h),
        decreases v@.len() - i,
    {
        proof {
            lemma_first_with_hash_step(v@, h, i as int);
        }
        if v[i].hash == h {
            return Some(v[i]);
        }
        i = i + 1;
    }
    None
}

/// Transactions that this node forwarded to the main node and does not yet hold itself.
#[derive(Clone, Debug)]
pub struct TxCache {
    txs: Vec<Transaction>,
}

impl View for TxCache {
    type V = Seq<Transaction>;

    closed spec fn view(&self) -> Seq<Transaction> {
        self.txs@
    }
}

impl TxCache {
    pub fn new() -> (r: TxCache)
        ensures
            r@ == Seq::<Transaction>::empty(),
    {
        TxCache { txs: Vec::new() }
    }

    /// Records a transaction that was forwarded to the main node.
    pub fn save_tx(&mut self, tx: Transaction)
        ensures
            final(self)@ == old(self)@.push(tx),
    {
        self.txs.push(tx);
    }

    /// The cached transaction with this hash, if any.
    pub fn find_tx(&self, h: H256) -> (r: Option<Transaction>)
        ensures
            r == first_with_hash(self@, h),
    {
        find_by_hash(&self.txs, h)
    }

    /// Drops every cached transaction with this hash.
    pub fn forget_tx(&mut self, h: H256)
        ensures
            final(self)@ == without_hash(old(self)@, h),
    {
        let mut kept: Vec<Transaction> = Vec::new();
        let mut i: usize = 0;
        while i < self.txs.len()
            invariant
                i <= self.txs@.len(),
                self.txs@ == old(self).txs@,
                kept@ == without_hash(self.txs@.take(i as int), h),
            decreases self.txs@.len() - i,
        {
            let ghost after = self.txs@.take(i + 1);
            assert(after.drop_last() =~= self.txs@.take(i as int));
            let t = self.txs[i];
            if t.hash != h {
                kept.push(t);
            }
            i = i + 1;
        }
        assert(self.txs@.take(self.txs@.len() as int) =~= self.txs@);
        self.txs = kept;
    }
}

/// The transaction that the store holds under a transaction id.
pub open spec fn local_transaction(store: ChainStore, id: TransactionId) -> Option<Transaction> {
    match id {
        TransactionId::Hash(h) => first_with_hash(store.transactions@, h),
        TransactionId::Block(b, index) => match resolve_block_spec(store, b) {
            None => None,
            Some(n) => first_at_position(store.transactions@, n, index),
        },
    }
}

/// The first transaction of `s` at position `index` of block `n`.
pub open spec fn first_at_position(s: Seq<Transaction>, n: u64, index: u64) -> Option<Transaction>
    decreases s.len(),
{
    if s.len() == 0 {
        None
    } else if s[0].block_number == Some(n) && s[0].transaction_index == Some(index) {
        Some(s[0])
    } else {
        first_at_position(s.drop_first(), n, index)
    }
}

fn find_at_position(v: &Vec<Transaction>, n: u64, index: u64) -> (r: Option<Transaction>)
    ensures
        r == first_at_position(v@, n, index),
{
    let mut i: usize = 0;
    assert(v@.subrange(0, v@.len() as int) =~= v@);
    while i < v.len()
        invariant
            i <= v@.len(),
            first_at_position(v@.subrange(i as int, v@.len() as int), n, index) == first_at_position(
                v@,
                n,
                index,
            ),
        decreases v@.len() - i,
    {
        assert(v@.subrange(i as int, v@.len() as int).drop_first() =~= v@.subrange(
            i + 1,
            v@.len() as int,
        ));
        let t = v[i];
        if t.block_number == Some(n) && t.transaction_index == Some(index) {
            return Some(t);
        }
        i = i + 1;
    }
    None
}

/// Looks a transaction up in the store by hash, or by block and position.
pub fn find_local_transaction(store: &ChainStore, id: TransactionId) -> (r: Option<Transaction>)
    requires
        store.wf(),
    ensures
        r == local_transaction(*store, id),
{
    match id {
        TransactionId::Hash(h) => find_by_hash(&store.transactions, h),
        TransactionId::Block(b, index) => match resolve_block(store, b) {
            Ok(n) => find_at_position(&store.transactions, n, index),
            Err(_) => None,
        },
    }
}

/// The first receipt of `s` for the transaction with hash `h`.
pub open spec fn first_receipt(s: Seq<TransactionReceipt>, h: H256) -> Option<TransactionReceipt>
    decreases s.len(),
{
    if s.len() == 0 {
        None
    } else if s[0].transaction_hash == h {
        Some(s[0])
    } else {
        first_receipt(s.drop_first(), h)
    }
}

/// Looks a receipt up in the store by transaction hash.
pub fn find_local_receipt(store: &ChainStore, h: H256) -> (r: Option<TransactionReceipt>)
    ensures
        r == first_receipt(store.receipts@, h),
{
    let v = &store.receipts;
    let mut i: usize = 0;
    assert(v@.subrange(0, v@.len() as int) =~= v@);
    while i < v.len()
        invariant
            i <= v@.len(),
            v == &store.receipts,
            first_receipt(v@.subrange(i as int, v@.len() as int), h) == first_receipt(v@, h),
        decreases v@.len() - i,
    {
        assert(v@.subrange(i as int, v@.len() as int).drop_first() =~= v@.subrange(
            i + 1,
            v@.len() as int,
        ));
        let t = v[i];
        if t.transaction_hash == h {
            return Some(t);
        }
        i = i + 1;
    }
    None
}

/// A receipt from the main node describes a transaction that was rejected before it was
/// included: failed status and no block.
pub open spec fn is_terminal_rejection(r: TransactionReceipt) -> bool {
    r.status == Some(0u64) && r.block_number.is_none()
}

/// The receipt to hand on from the main node's answer: only one of a transaction rejected
/// before inclusion; any other answer gives no receipt.
pub fn main_node_receipt_to_forward(answer: Option<TransactionReceipt>) -> (r: Option<
    TransactionReceipt,
>)
    ensures
        r == match answer {
            Some(rc) => if is_terminal_rejection(rc) {
                Some(rc)
            } else {
                None
            },
            None => None,
        },
{
    match answer {
        Some(rc) => {
            if rc.status == Some(0u64) && rc.block_number.is_none() {
                Some(rc)
            } else {
                None
            }
        },
        None => None,
    }
}

} // verus!
