use vstd::prelude::*;
use itertools::Itertools;
use crate::filters::Filters;
use crate::logs::{EVENT_TOPIC_NUMBER_LIMIT, query_logs, query_logs_spec, topic_count};
use crate::poll::{
    block_cursor_after, block_hashes_after, block_hashes_after_spec, event_poll_spec,
    pending_cursor_after, pending_hashes_after, pending_poll_spec, poll_events,
};
use crate::replica::{
    TxCache, find_local_receipt, find_local_transaction, first_receipt, first_with_hash,
    local_transaction, without_hash,
};
use crate::store::{
    ChainStore, filter_bound_value, resolve_block, resolve_block_spec, resolve_filter_block_number,
};
use crate::types::{
    Address, BlockId, BlockNumber, Filter, FilterChanges, H256, Log, LogView, PendingTx,
    Transaction, TransactionId, TransactionReceipt, TypedFilter, Web3Error, log_views,
};

verus! {

/// The version string of the protocol this node speaks.
pub const PROTOCOL_VERSION: &'static str = "zks/1";

/// Settings of the query facade.
#[derive(Clone, Debug)]
pub struct ApiConfig {
    pub l2_chain_id: u64,
    /// The most rows that one log query or poll may return over a range of blocks.
    pub req_entities_limit: usize,
    /// This node follows a main node and forwards transactions to it.
    pub follower: bool,
    /// The accounts that this node can sign for.
    pub accounts: Vec<Address>,
}

/// What a filter poll reports, as a mathematical value.
pub enum ChangesView {
    Hashes(Seq<H256>),
    Logs(Seq<LogView>),
    Empty,
}

pub open spec fn changes_view(c: FilterChanges) -> ChangesView {
    match c {
        FilterChanges::Hashes(v) => ChangesView::Hashes(v@),
        FilterChanges::Logs(v) => ChangesView::Logs(log_views(v@)),
        FilterChanges::Empty => ChangesView::Empty,
    }
}

pub open spec fn changes_result_view(r: Result<FilterChanges, Web3Error>) -> Result<
    ChangesView,
    Web3Error,
> {
    match r {
        Ok(c) => Ok(changes_view(c)),
        Err(e) => Err(e),
    }
}

/// What polling filter `f` reports, and the filter that replaces it.
pub open spec fn poll_spec(store: ChainStore, f: TypedFilter, limit: usize) -> Result<
    (ChangesView, TypedFilter),
    Web3Error,
> {
    match f {
        TypedFilter::Blocks(c) => Ok(
            (
                ChangesView::Hashes(block_hashes_after_spec(store, c, limit)),
                TypedFilter::Blocks(block_cursor_after(store, c, limit)),
            ),
        ),
        TypedFilter::PendingTransactions(ts) => Ok(
            (
                ChangesView::Hashes(
                    pending_poll_spec(store, ts, limit).map_values(|t: PendingTx| t.hash),
                ),
                TypedFilter::PendingTransactions(pending_cursor_after(store, ts, limit)),
            ),
        ),
        TypedFilter::Events(fl, c) => match event_poll_spec(store, fl, c, limit) {
            Ok((s, nc)) => Ok((ChangesView::Logs(s), TypedFilter::Events(fl, nc))),
            Err(e) => Err(e),
        },
    }
}

/// What `getFilterChanges(id)` answers over the installed filters `m`, and the filters
/// afterwards. A poll that would exceed the entity limit evicts the filter and reports
/// `FilterNotFound`.
pub open spec fn filter_changes_outcome(
    store: ChainStore,
    m: Map<u64, TypedFilter>,
    id: u64,
    limit: usize,
) -> (Result<ChangesView, Web3Error>, Map<u64, TypedFilter>) {
    if !m.contains_key(id) {
        (Err(Web3Error::FilterNotFound), m)
    } else {
        match poll_spec(store, m[id], limit) {
            Ok((cv, nf)) => (Ok(cv), m.insert(id, nf)),
            Err(Web3Error::LogsLimitExceeded(_, _, _)) => (
                Err(Web3Error::FilterNotFound),
                m.remove(id),
            ),
            Err(e) => (Err(e), m),
        }
    }
}

/// The filter after a block hash in it is resolved: a hash alone becomes the range of
/// that one block; a hash beside a range is refused; an unknown hash is `NoBlock`.
pub open spec fn resolve_filter_block_hash_spec(store: ChainStore, f: Filter) -> Result<
    Filter,
    Web3Error,
> {
    match f.block_hash {
        None => Ok(f),
        Some(h) => if f.from_block.is_some() || f.to_block.is_some() {
            Err(Web3Error::InvalidFilterBlockHash)
        } else {
            match resolve_block_spec(store, BlockId::Hash(h)) {
                None => Err(Web3Error::NoBlock),
                Some(n) => Ok(
                    Filter {
                        from_block: Some(BlockNumber::Number(n)),
                        to_block: Some(BlockNumber::Number(n)),
                        ..f
                    },
                ),
            }
        },
    }
}

/// The cursor of a new event filter: the last block before the first one it reports. That
/// is the block before its lower bound, but never before the tip: a new filter reports
/// only blocks that were not sealed yet.
pub open spec fn initial_event_cursor(tip: u64, from: Option<BlockNumber>) -> u64 {
    match from {
        Some(BlockNumber::Number(n)) => if n >= 1 && n - 1 > tip {
            (n - 1) as u64
        } else {
            tip
        },
        _ => tip,
    }
}

/// What `newFilter(f)` installs, or the error it reports.
pub open spec fn new_filter_spec(store: ChainStore, f: Filter) -> Result<TypedFilter, Web3Error> {
    if topic_count(f) > EVENT_TOPIC_NUMBER_LIMIT {
        Err(Web3Error::TooManyTopics)
    } else {
        match resolve_filter_block_hash_spec(store, f) {
            Ok(g) => Ok(TypedFilter::Events(g, initial_event_cursor(store.tip(), g.from_block))),
            Err(e) => Err(e),
        }
    }
}

/// What `getLogs(f)` answers: more than four topic positions is `TooManyTopics`, before
/// the store is consulted; otherwise the logs of the filter's range (a missing bound is the
/// latest block), under the entity limit.
pub open spec fn get_logs_spec(store: ChainStore, f: Filter, limit: usize) -> Result<
    Seq<LogView>,
    Web3Error,
> {
    if topic_count(f) > EVENT_TOPIC_NUMBER_LIMIT {
        Err(Web3Error::TooManyTopics)
    } else {
        match resolve_filter_block_hash_spec(store, f) {
            Ok(g) => query_logs_spec(
                store,
                g,
                filter_bound_value(store.tip(), g.from_block),
                filter_bound_value(store.tip(), g.to_block),
                limit,
            ),
            Err(e) => Err(e),
        }
    }
}

/// The answer of a transaction lookup: found here (or known to be absent), or to be asked
/// of the main node.
#[derive(Clone, Copy, Debug, PartialEq, Eq, Structural)]
pub enum TxLookup {
    Found(Option<Transaction>),
    AskMainNode,
}

/// The answer of a receipt lookup: found here (or known to be absent), or to be asked of
/// the main node, whose answer then goes through `main_node_receipt_to_forward`.
#[derive(Clone, Copy, Debug, PartialEq, Eq, Structural)]
pub enum ReceiptLookup {
    Found(Option<TransactionReceipt>),
    AskMainNode,
}

/// Whether this node is syncing, and how far.
#[derive(Clone, Copy, Debug, PartialEq, Eq, Structural)]
pub enum SyncState {
    NotSyncing,
    Syncing { starting_block: u64, current_block: u64, highest_block: u64 },
}

/// What a follower node knows of its progress against the main node.
#[derive(Clone, Copy, Debug, PartialEq, Eq, Structural)]
pub struct SyncProgress {
    pub is_synced: bool,
    pub local_block: u64,
    pub main_node_block: u64,
}

/// The `eth` query facade: its settings, the installed filters and, on a follower node,
/// the cache of transactions forwarded to the main node.
#[derive(Debug)]
pub struct EthNamespace {
    config: ApiConfig,
    filters: Filters,
    proxy: Option<TxCache>,
}

impl EthNamespace {
    pub closed spec fn config(&self) -> ApiConfig {
        self.config
    }

    /// The installed filters by id.
    pub closed spec fn filters(&self) -> Map<u64, TypedFilter> {
        self.filters@
    }

    /// The id that the next install receives.
    pub closed spec fn next_filter_id(&self) -> u64 {
        self.filters.next_id()
    }

    /// The forwarded-transaction cache: present exactly on a follower node.
    pub closed spec fn proxy_cache(&self) -> Option<Seq<Transaction>> {
        match self.proxy {
            Some(c) => Some(c@),
            None => None,
        }
    }

    pub closed spec fn wf(&self) -> bool {
        &&& self.filters.wf()
        &&& self.proxy.is_some() == self.config.follower
    }

    pub open spec fn limit(&self) -> usize {
        self.config().req_entities_limit
    }

    pub fn new(config: ApiConfig) -> (r: EthNamespace)
        ensures
            r.wf(),
            r.config() == config,
            r.filters() == Map::<u64, TypedFilter>::empty(),
            r.next_filter_id() == 0,
            r.proxy_cache() == if config.follower {
                Some(Seq::<Transaction>::empty())
            } else {
                None
            },
    {
        let proxy = if config.follower {
            Some(TxCache::new())
        } else {
            None
        };
        EthNamespace { config, filters: Filters::new(), proxy }
    }

    /// There is an id left for one more filter.
    pub fn can_install_filter(&self) -> (r: bool)
        ensures
            r == (self.next_filter_id() < u64::MAX),
    {
        self.filters.can_add()
    }

    /// Records a transaction that this follower forwarded to the main node.
    pub fn remember_proxied_tx(&mut self, tx: Transaction)
        requires
            old(self).wf(),
        ensures
            final(self).wf(),
            final(self).config() == old(self).config(),
            final(self).filters() == old(self).filters(),
            final(self).next_filter_id() == old(self).next_filter_id(),
            final(self).proxy_cache() == match old(self).proxy_cache() {
                Some(c) => Some(c.push(tx)),
                None => None,
            },
    {
        if let Some(cache) = &mut self.proxy {
            cache.save_tx(tx);
        }
    }

    /// The number of the last sealed block.
    pub fn get_block_number_impl(&self, store: &ChainStore) -> (r: u64)
        requires
            store.wf(),
        ensures
            r == store.tip(),
    {
        store.sealed_block_number()
    }

    pub fn chain_id_impl(&self) -> (r: u64)
        ensures
            r == self.config().l2_chain_id,
    {
        self.config.l2_chain_id
    }

    pub fn protocol_version(&self) -> (r: String)
        ensures
            r@ == PROTOCOL_VERSION@,
    {
        String::from_str(PROTOCOL_VERSION)
    }

    /// Installs a block filter whose cursor is the current tip.
    pub fn new_block_filter_impl(&mut self, store: &ChainStore) -> (id: u64)
        requires
            old(self).wf(),
            store.wf(),
            old(self).next_filter_id() < u64::MAX,
        ensures
            final(self).wf(),
            id == old(self).next_filter_id(),
            !old(self).filters().contains_key(id),
            final(self).filters() == old(self).filters().insert(id, TypedFilter::Blocks(store.tip())),
            final(self).next_filter_id() == id + 1,
            final(self).config() == old(self).config(),
            final(self).proxy_cache() == old(self).proxy_cache(),
    {
        let tip = store.sealed_block_number();
        self.filters.add(TypedFilter::Blocks(tip))
    }

    /// Installs a pending-transaction filter whose cursor is the time `now` (microseconds).
    pub fn install_pending_transaction_filter(&mut self, now: i64) -> (id: u64)
        requires
            old(self).wf(),
            old(self).next_filter_id() < u64::MAX,
        ensures
            final(self).wf(),
            id == old(self).next_filter_id(),
            !old(self).filters().contains_key(id),
            final(self).filters() == old(self).filters().insert(
                id,
                TypedFilter::PendingTransactions(now),
            ),
            final(self).next_filter_id() == id + 1,
            final(self).config() == old(self).config(),
            final(self).proxy_cache() == old(self).proxy_cache(),
    {
        self.filters.add(TypedFilter::PendingTransactions(now))
    }

    /// Installs a pending-transaction filter from the current time.
    pub fn new_pending_transaction_filter_impl(&mut self) -> (id: u64)
        requires
            old(self).wf(),
            old(self).next_filter_id() < u64::MAX,
        ensures
            final(self).wf(),
            id == old(self).next_filter_id(),
            final(self).filters().contains_key(id),
            final(self).filters()[id] is PendingTransactions,
            final(self).filters().remove(id) == old(self).filters(),
            final(self).next_filter_id() == id + 1,
            final(self).config() == old(self).config(),
            final(self).proxy_cache() == old(self).proxy_cache(),
    {
        let now = now_micros();
        let id = self.install_pending_transaction_filter(now);
        assert(self.filters().remove(id) =~= old(self).filters());
        id
    }

    /// Installs an event filter: more than four topic positions is `TooManyTopics`; a block
    /// hash is resolved first (see `resolve_filter_block_hash_spec`).
    pub fn new_filter_impl(&mut self, store: &ChainStore, filter: Filter) -> (r: Result<
        u64,
        Web3Error,
    >)
        requires
            old(self).wf(),
            store.wf(),
            old(self).next_filter_id() < u64::MAX,
        ensures
            final(self).wf(),
            final(self).config() == old(self).config(),
            final(self).proxy_cache() == old(self).proxy_cache(),
            ({
                let id = old(self).next_filter_id();
                match new_filter_spec(*store, filter) {
                    Ok(tf) => {
                        &&& r == Ok::<u64, Web3Error>(id)
                        &&& !old(self).filters().contains_key(id)
                        &&& final(self).filters() == old(self).filters().insert(id, tf)
                        &&& final(self).next_filter_id() == id + 1
                    },
                    Err(e) => {
                        &&& r == Err::<u64, Web3Error>(e)
                        &&& final(self).filters() == old(self).filters()
                        &&& final(self).next_filter_id() == id
                    },
                }
            }),
    {
        if let Some(topics) = &filter.topics {
            if topics.len() > EVENT_TOPIC_NUMBER_LIMIT {
                return Err(Web3Error::TooManyTopics);
            }
        }
        let g = match resolve_filter_block_hash(store, filter) {
            Ok(g) => g,
            Err(e) => {
                return Err(e);
            },
        };
        let tip = store.sealed_block_number();
        let cursor = match g.from_block {
            Some(BlockNumber::Number(n)) => {
                if n >= 1 && n - 1 > tip {
                    n - 1
                } else {
                    tip
                }
            },
            _ => tip,
        };
        Ok(self.filters.add(TypedFilter::Events(g, cursor)))
    }

    /// A one-shot log query, as `get_logs_spec` says.
    pub fn get_logs_impl(&self, store: &ChainStore, filter: Filter) -> (r: Result<
        Vec<Log>,
        Web3Error,
    >)
        requires
            store.wf(),
        ensures
            match (r, get_logs_spec(*store, filter, self.limit())) {
                (Ok(v), Ok(s)) => log_views(v@) == s,
                (Err(e), Err(e2)) => e == e2,
                _ => false,
            },
    {
        if let Some(topics) = &filter.topics {
            if topics.len() > EVENT_TOPIC_NUMBER_LIMIT {
                return Err(Web3Error::TooManyTopics);
            }
        }
        let g = match resolve_filter_block_hash(store, filter) {
            Ok(g) => g,
            Err(e) => {
                return Err(e);
            },
        };
        let from = resolve_filter_block_number(store, g.from_block);
        let to = resolve_filter_block_number(store, g.to_block);
        query_logs(store, &g, from, to, self.config.req_entities_limit)
    }

    /// All logs of an installed event filter, from its own lower bound and whatever its
    /// cursor: the same query as `getLogs`, and no eviction when it exceeds the limit.
    /// Any other kind of filter, or none, is `FilterNotFound`.
    pub fn get_filter_logs_impl(&self, store: &ChainStore, id: u64) -> (r: Result<
        FilterChanges,
        Web3Error,
    >)
        requires
            self.wf(),
            store.wf(),
        ensures
            match (self.filters().contains_key(id), self.filters()[id]) {
                (true, TypedFilter::Events(f, _)) => match (
                    r,
                    query_logs_spec(
                        *store,
                        f,
                        filter_bound_value(store.tip(), f.from_block),
                        filter_bound_value(store.tip(), f.to_block),
                        self.limit(),
                    ),
                ) {
                    (Ok(FilterChanges::Logs(v)), Ok(s)) => log_views(v@) == s,
                    (Err(e), Err(e2)) => e == e2,
                    _ => false,
                },
                _ => r == Err::<FilterChanges, Web3Error>(Web3Error::FilterNotFound),
            },
    {
        match self.filters.get(id) {
            Some(TypedFilter::Events(f, _)) => {
                let from = resolve_filter_block_number(store, f.from_block);
                let to = resolve_filter_block_number(store, f.to_block);
                match query_logs(store, f, from, to, self.config.req_entities_limit) {
                    Ok(logs) => Ok(FilterChanges::Logs(logs)),
                    Err(e) => Err(e),
                }
            },
            _ => Err(Web3Error::FilterNotFound),
        }
    }

    /// Polls the filter under `id` and advances its cursor, as `filter_changes_outcome`
    /// says. The poll takes `&mut self`, so reading the filter, computing its changes and
    /// writing the new cursor form one step: two polls of one id cannot interleave and lose
    /// an update.
    pub fn get_filter_changes_impl(&mut self, store: &ChainStore, id: u64) -> (r: Result<
        FilterChanges,
        Web3Error,
    >)
        requires
            old(self).wf(),
            store.wf(),
        ensures
            final(self).wf(),
            final(self).config() == old(self).config(),
            final(self).proxy_cache() == old(self).proxy_cache(),
            final(self).next_filter_id() == old(self).next_filter_id(),
            (changes_result_view(r), final(self).filters()) == filter_changes_outcome(
                *store,
                old(self).filters(),
                id,
                old(self).limit(),
            ),
    {
        let limit = self.config.req_entities_limit;
        let ghost m = self.filters@;
        let taken = self.filters.take(id);
        match taken {
            None => Err(Web3Error::FilterNotFound),
            Some(TypedFilter::Blocks(c)) => {
                let (hashes, nc) = block_hashes_after(store, c, limit);
                self.filters.update_or_insert(id, TypedFilter::Blocks(nc));
                Ok(FilterChanges::Hashes(hashes))
            },
            Some(TypedFilter::PendingTransactions(ts)) => {
                let (hashes, nts) = pending_hashes_after(store, ts, limit);
                self.filters.update_or_insert(id, TypedFilter::PendingTransactions(nts));
                Ok(FilterChanges::Hashes(hashes))
            },
            Some(TypedFilter::Events(f, c)) => {
                match poll_events(store, &f, c, limit) {
                    Ok((logs, nc)) => {
                        self.filters.update_or_insert(id, TypedFilter::Events(f, nc));
                        Ok(FilterChanges::Logs(logs))
                    },
                    Err(Web3Error::LogsLimitExceeded(_, _, _)) => Err(Web3Error::FilterNotFound),
                    Err(e) => {
                        self.filters.update_or_insert(id, TypedFilter::Events(f, c));
                        proof {
                            assert(self.filters@ =~= m);
                        }
                        Err(e)
                    },
                }
            },
        }
    }

    /// A transaction lookup. On a follower node a transaction found here is dropped from
    /// the forwarded-transaction cache; one not found here is looked up in the cache by
    /// hash, and failing that must be asked of the main node.
    pub fn get_transaction_impl(&mut self, store: &ChainStore, id: TransactionId) -> (r: TxLookup)
        requires
            old(self).wf(),
            store.wf(),
        ensures
            final(self).wf(),
            final(self).config() == old(self).config(),
            final(self).filters() == old(self).filters(),
            final(self).next_filter_id() == old(self).next_filter_id(),
            match old(self).proxy_cache() {
                None => {
                    &&& r == TxLookup::Found(local_transaction(*store, id))
                    &&& final(self).proxy_cache() == old(self).proxy_cache()
                },
                Some(cache) => match local_transaction(*store, id) {
                    Some(tx) => r == TxLookup::Found(Some(tx)) && final(self).proxy_cache()
                        == Some(without_hash(cache, tx.hash)),
                    None => final(self).proxy_cache() == old(self).proxy_cache() && match id {
                        TransactionId::Hash(h) => match first_with_hash(cache, h) {
                            Some(tx) => r == TxLookup::Found(Some(tx)),
                            None => r == TxLookup::AskMainNode,
                        },
                        _ => r == TxLookup::AskMainNode,
                    },
                },
            },
    {
        let local = find_local_transaction(store, id);
        match &mut self.proxy {
            None => TxLookup::Found(local),
            Some(cache) => match local {
                Some(tx) => {
                    cache.forget_tx(tx.hash);
                    TxLookup::Found(Some(tx))
                },
                None => match id {
                    TransactionId::Hash(h) => match cache.find_tx(h) {
                        Some(tx) => TxLookup::Found(Some(tx)),
                        None => TxLookup::AskMainNode,
                    },
                    _ => TxLookup::AskMainNode,
                },
            },
        }
    }

    /// A receipt lookup. On a follower node a receipt not found here must be asked of the
    /// main node, whose answer goes through `main_node_receipt_to_forward`.
    pub fn get_transaction_receipt_impl(&self, store: &ChainStore, hash: H256) -> (r:
        ReceiptLookup)
        requires
            self.wf(),
        ensures
            r == match first_receipt(store.receipts@, hash) {
                Some(rc) => ReceiptLookup::Found(Some(rc)),
                None => if self.proxy_cache().is_some() {
                    ReceiptLookup::AskMainNode
                } else {
                    ReceiptLookup::Found(None)
                },
            },
    {
        match find_local_receipt(store, hash) {
            Some(rc) => ReceiptLookup::Found(Some(rc)),
            None => {
                if self.proxy.is_some() {
                    ReceiptLookup::AskMainNode
                } else {
                    ReceiptLookup::Found(None)
                }
            },
        }
    }

    /// The accounts this node can sign for, each once, in strictly ascending order of
    /// address.
    pub fn accounts_impl(&self) -> (r: Vec<Address>)
        ensures
            addresses_strictly_sorted(r@),
            forall|a: Address| r@.contains(a) <==> self.config().accounts@.contains(a),
    {
        let ghost accounts = self.config.accounts@;
        let mut keys: Vec<(u32, u128)> = Vec::new();
        let mut i: usize = 0;
        while i < self.config.accounts.len()
            invariant
                i <= accounts.len(),
                accounts == self.config.accounts@,
                keys@ == accounts.take(i as int).map_values(|a: Address| address_key(a)),
            decreases accounts.len() - i,
        {
            let a = self.config.accounts[i];
            keys.push((a.hi, a.lo));
            i = i + 1;
            assert(keys@ =~= accounts.take(i as int).map_values(|a: Address| address_key(a)));
        }
        assert(accounts.take(i as int) =~= accounts);
        let ghost key_seq = keys@;
        assert(key_seq == accounts.map_values(|a: Address| address_key(a)));
        assert(key_seq.len() == accounts.len());
        let sorted = sorted_keys(keys);
        proof {
            broadcast use vstd::seq_lib::group_to_multiset_ensures;

            assert forall|k: (u32, u128)| sorted@.contains(k) <==> key_seq.contains(k) by {
                assert(sorted@.contains(k) <==> sorted@.to_multiset().count(k) > 0);
                assert(key_seq.contains(k) <==> key_seq.to_multiset().count(k) > 0);
            }
        }
        let unique = dedup_sorted_keys(&sorted);
        let out = addresses_of_keys(&unique);
        proof {
            assert forall|a: Address| out@.contains(a) <==> accounts.contains(a) by {
                if out@.contains(a) {
                    let m = choose|m: int| 0 <= m < out@.len() && out@[m] == a;
                    assert(unique@[m] == address_key(a));
                    assert(unique@.contains(address_key(a)));
                    assert(sorted@.contains(address_key(a)));
                    assert(key_seq.contains(address_key(a)));
                    let i2 = choose|i2: int|
                        0 <= i2 < key_seq.len() && key_seq[i2] == address_key(a);
                    assert(key_seq[i2] == address_key(accounts[i2]));
                    assert(accounts[i2] == a);
                }
                if accounts.contains(a) {
                    let i2 = choose|i2: int| 0 <= i2 < accounts.len() && accounts[i2] == a;
                    assert(key_seq[i2] == address_key(a));
                    assert(key_seq.contains(address_key(a)));
                    let m = choose|m: int| 0 <= m < unique@.len() && unique@[m] == address_key(a);
                    assert(out@[m] == a);
                }
            }
        }
        out
    }

    /// A follower reports how far it is behind the main node; a main node never syncs.
    pub fn syncing_impl(&self, progress: Option<SyncProgress>) -> (r: SyncState)
        ensures
            r == match progress {
                Some(p) => if p.is_synced {
                    SyncState::NotSyncing
                } else {
                    SyncState::Syncing {
                        starting_block: 0,
                        current_block: p.local_block,
                        highest_block: p.main_node_block,
                    }
                },
                None => SyncState::NotSyncing,
            },
    {
        match progress {
            Some(p) => {
                if p.is_synced {
                    SyncState::NotSyncing
                } else {
                    SyncState::Syncing {
                        starting_block: 0,
                        current_block: p.local_block,
                        highest_block: p.main_node_block,
                    }
                }
            },
            None => SyncState::NotSyncing,
        }
    }

    /// There is no coinbase account: the zero address.
    pub fn coinbase_impl(&self) -> (r: Address)
        ensures
            r == Address::zero_spec(),
    {
        Address::zero()
    }

    /// This node compiles nothing.
    pub fn compilers_impl(&self) -> (r: Vec<String>)
        ensures
            r@.len() == 0,
    {
        Vec::new()
    }

    /// There are no uncle blocks.
    pub fn uncle_count_impl(&self, block: BlockId) -> (r: Option<u64>)
        ensures
            r == Some(0u64),
    {
        Some(0)
    }

    /// The chain is not mined.
    pub fn hashrate_impl(&self) -> (r: u64)
        ensures
            r == 0,
    {
        0
    }

    /// The chain is not mined.
    pub fn mining_impl(&self) -> (r: bool)
        ensures
            !r,
    {
        false
    }

    /// Signing is not offered.
    pub fn sign_impl(&self, address: Address, data: Vec<u8>) -> (r: Result<Vec<u8>, Web3Error>)
        ensures
            r == Err::<Vec<u8>, Web3Error>(Web3Error::MethodNotSupported),
    {
        Err(Web3Error::MethodNotSupported)
    }

    /// Submitting a hash rate is not offered.
    pub fn submit_hashrate_impl(&self, rate: H256, id: H256) -> (r: Result<bool, Web3Error>)
        ensures
            r == Err::<bool, Web3Error>(Web3Error::MethodNotSupported),
    {
        Err(Web3Error::MethodNotSupported)
    }

    /// Submitting proof of work is not offered.
    pub fn submit_work_impl(&self, nonce: u64, pow_hash: H256, mix_digest: H256) -> (r: Result<
        bool,
        Web3Error,
    >)
        ensures
            r == Err::<bool, Web3Error>(Web3Error::MethodNotSupported),
    {
        Err(Web3Error::MethodNotSupported)
    }

    /// Compiling source code is not offered.
    pub fn compile_impl(&self, source: String) -> (r: Result<Vec<u8>, Web3Error>)
        ensures
            r == Err::<Vec<u8>, Web3Error>(Web3Error::MethodNotSupported),
    {
        Err(Web3Error::MethodNotSupported)
    }

    /// The filter installed under `id`, if any.
    pub fn installed_filter(&self, id: u64) -> (r: Option<&TypedFilter>)
        ensures
            r is Some <==> self.filters().contains_key(id),
            r matches Some(f) ==> *f == self.filters()[id],
    {
        self.filters.get(id)
    }

    /// Removes a filter; true iff one was installed under `id`.
    pub fn uninstall_filter_impl(&mut self, id: u64) -> (r: bool)
        requires
            old(self).wf(),
        ensures
            final(self).wf(),
            r == old(self).filters().contains_key(id),
            final(self).filters() == old(self).filters().remove(id),
            final(self).next_filter_id() == old(self).next_filter_id(),
            final(self).config() == old(self).config(),
            final(self).proxy_cache() == old(self).proxy_cache(),
    {
        self.filters.remove(id)
    }
}

/// Resolves the block hash of a filter as `resolve_filter_block_hash_spec` says.
pub fn resolve_filter_block_hash(store: &ChainStore, f: Filter) -> (r: Result<Filter, Web3Error>)
    requires
        store.wf(),
    ensures
        r == resolve_filter_block_hash_spec(*store, f),
{
    match f.block_hash {
        None => Ok(f),
        Some(h) => {
            if f.from_block.is_some() || f.to_block.is_some() {
                return Err(Web3Error::InvalidFilterBlockHash);
            }
            match resolve_block(store, BlockId::Hash(h)) {
                Ok(n) => {
                    let mut g = f;
                    g.from_block = Some(BlockNumber::Number(n));
                    g.to_block = Some(BlockNumber::Number(n));
                    Ok(g)
                },
                Err(e) => Err(e),
            }
        },
    }
}

/// An address as a pair of integers, ordered as the address is.
pub open spec fn address_key(a: Address) -> (u32, u128) {
    (a.hi, a.lo)
}

/// `a` comes before `b` in lexicographic order.
pub open spec fn key_le(a: (u32, u128), b: (u32, u128)) -> bool {
    a.0 < b.0 || (a.0 == b.0 && a.1 <= b.1)
}

pub open spec fn keys_sorted(s: Seq<(u32, u128)>) -> bool {
    forall|i: int, j: int| 0 <= i < j < s.len() ==> key_le(#[trigger] s[i], #[trigger] s[j])
}

/// `a` comes strictly before `b` in lexicographic order.
pub open spec fn key_lt(a: (u32, u128), b: (u32, u128)) -> bool {
    a.0 < b.0 || (a.0 == b.0 && a.1 < b.1)
}

/// The addresses are in strictly ascending order, so none appears twice.
pub open spec fn addresses_strictly_sorted(s: Seq<Address>) -> bool {
    forall|i: int, j: int|
        0 <= i < j < s.len() ==> key_lt(address_key(#[trigger] s[i]), address_key(#[trigger] s[j]))
}

/// The keys of a sorted sequence, each once, in strictly ascending order.
fn dedup_sorted_keys(sorted: &Vec<(u32, u128)>) -> (r: Vec<(u32, u128)>)
    requires
        keys_sorted(sorted@),
    ensures
        forall|i: int, j: int| 0 <= i < j < r@.len() ==> key_lt(#[trigger] r@[i], #[trigger] r@[j]),
        forall|k: (u32, u128)| r@.contains(k) <==> sorted@.contains(k),
{
    let mut out: Vec<(u32, u128)> = Vec::new();
    let mut j: usize = 0;
    while j < sorted.len()
        invariant
            j <= sorted@.len(),
            keys_sorted(sorted@),
            forall|a: int, b: int|
                0 <= a < b < out@.len() ==> key_lt(#[trigger] out@[a], #[trigger] out@[b]),
            j == 0 ==> out@.len() == 0,
            j > 0 ==> out@.len() > 0 && out@.last() == sorted@[j - 1],
            forall|k: int| 0 <= k < j ==> out@.contains(#[trigger] sorted@[k]),
            forall|m: int| 0 <= m < out@.len() ==> sorted@.take(j as int).contains(#[trigger] out@[m]),
        decreases sorted@.len() - j,
    {
        let k = sorted[j];
        let fresh = if out.len() == 0 {
            true
        } else {
            let last = out[out.len() - 1];
            last.0 != k.0 || last.1 != k.1
        };
        let ghost prev = out@;
        if fresh {
            out.push(k);
            proof {
                if j > 0 {
                    assert(key_le(sorted@[j - 1], sorted@[j as int]));
                }
                assert forall|a: int, b: int| 0 <= a < b < out@.len() implies key_lt(
                    #[trigger] out@[a],
                    #[trigger] out@[b],
                ) by {
                    if b < prev.len() {
                        assert(out@[a] == prev[a] && out@[b] == prev[b]);
                    } else if a < prev.len() - 1 {
                        assert(key_lt(prev[a], prev.last()));
                    }
                }
                assert forall|i: int| 0 <= i <= j implies out@.contains(#[trigger] sorted@[i]) by {
                    if i < j {
                        let m = choose|m: int| 0 <= m < prev.len() && prev[m] == sorted@[i];
                        assert(out@[m] == prev[m]);
                    } else {
                        assert(out@[prev.len() as int] == sorted@[i]);
                    }
                }
                assert forall|m: int| 0 <= m < out@.len() implies sorted@.take(j + 1).contains(
                    #[trigger] out@[m],
                ) by {
                    if m < prev.len() {
                        assert(out@[m] == prev[m]);
                        let i = choose|i: int| 0 <= i < j && sorted@.take(j as int)[i] == prev[m];
                        assert(sorted@.take(j + 1)[i] == prev[m]);
                    } else {
                        assert(sorted@.take(j + 1)[j as int] == out@[m]);
                    }
                }
            }
        } else {
            proof {
                assert(out@.last() == k);
                assert forall|i: int| 0 <= i <= j implies out@.contains(#[trigger] sorted@[i]) by {
                    if i == j {
                        assert(out@[out@.len() - 1] == sorted@[i]);
                    }
                }
                assert forall|m: int| 0 <= m < out@.len() implies sorted@.take(j + 1).contains(
                    #[trigger] out@[m],
                ) by {
                    let i = choose|i: int| 0 <= i < j && sorted@.take(j as int)[i] == out@[m];
                    assert(sorted@.take(j + 1)[i] == out@[m]);
                }
            }
        }
        j = j + 1;
    }
    proof {
        assert(sorted@.take(j as int) =~= sorted@);
        assert forall|k: (u32, u128)| out@.contains(k) <==> sorted@.contains(k) by {
            if sorted@.contains(k) {
                let i = choose|i: int| 0 <= i < sorted@.len() && sorted@[i] == k;
                assert(out@.contains(sorted@[i]));
            }
            if out@.contains(k) {
                let m = choose|m: int| 0 <= m < out@.len() && out@[m] == k;
                assert(sorted@.take(j as int).contains(out@[m]));
            }
        }
    }
    out
}

/// The addresses that the keys stand for, in the same order.
fn addresses_of_keys(keys: &Vec<(u32, u128)>) -> (r: Vec<Address>)
    ensures
        r@.len() == keys@.len(),
        forall|i: int| 0 <= i < r@.len() ==> address_key(#[trigger] r@[i]) == keys@[i],
{
    let mut out: Vec<Address> = Vec::new();
    let mut j: usize = 0;
    while j < keys.len()
        invariant
            j <= keys@.len(),
            out@.len() == j,
            forall|i: int| 0 <= i < j ==> address_key(#[trigger] out@[i]) == keys@[i],
        decreases keys@.len() - j,
    {
        let (hi, lo) = keys[j];
        out.push(Address { hi, lo });
        j = j + 1;
    }
    out
}

/// Relies on itertools' `Itertools::sorted`: the same pairs in ascending order (std's
/// order on tuples, field by field).
#[verifier::external_body]
fn sorted_keys(v: Vec<(u32, u128)>) -> (r: Vec<(u32, u128)>)
    ensures
        keys_sorted(r@),
        r@.to_multiset() == v@.to_multiset(),
{
    v.into_iter().sorted().collect()
}

/// Relies on chrono's `Utc::now` and `DateTime::timestamp_micros`: the current time in
/// microseconds since the Unix epoch. Nothing is promised of the value; `Utc::now` panics
/// only if the system clock reads a time before the epoch.
#[verifier::external_body]
fn now_micros() -> (r: i64) {
    chrono::Utc::now().timestamp_micros()
}

} // verus!
