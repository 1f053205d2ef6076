use eth_namespace::namespace::{ApiConfig, EthNamespace};
use eth_namespace::store::{resolve_block, ChainStore};
use eth_namespace::types::{
    Address, BlockId, BlockNumber, Filter, FilterChanges, H256, Log, PendingTx, TypedFilter,
    Web3Error,
};

fn config(limit: usize) -> ApiConfig {
    ApiConfig { l2_chain_id: 270, req_entities_limit: limit, follower: false, accounts: vec![] }
}

fn chain(tip: u64) -> ChainStore {
    let mut store = ChainStore::genesis(H256::from_low_u64(1_000_000));
    for n in 1..=tip {
        store.block_hashes.push(H256::from_low_u64(1_000_000 + n));
    }
    store
}

fn log(block: u64, index: u64, topic: u64) -> Log {
    Log {
        address: Address::from_low_u64(7),
        topics: vec![H256::from_low_u64(topic)],
        data: vec![1, 2, 3],
        block_number: block,
        log_index: index,
        transaction_hash: H256::from_low_u64(block * 1000 + index),
    }
}

fn empty_filter() -> Filter {
    Filter { from_block: None, to_block: None, address: None, topics: None, block_hash: None }
}

fn range_filter(from: u64, to: u64) -> Filter {
    Filter {
        from_block: Some(BlockNumber::Number(from)),
        to_block: Some(BlockNumber::Number(to)),
        ..empty_filter()
    }
}

fn store_with_1500_logs() -> ChainStore {
    let mut store = chain(300);
    for i in 0..1500u64 {
        let block = 100 + i * 200 / 1500;
        store.logs.push(log(block, i, 9));
    }
    store
}

#[test]
fn new_filter_with_five_topics_is_refused() {
    let store = chain(10);
    let mut ns = EthNamespace::new(config(1000));
    let topic = |v: u64| Some(vec![H256::from_low_u64(v)]);
    let f = Filter {
        topics: Some(vec![topic(1), topic(2), topic(3), topic(4), topic(5)]),
        ..empty_filter()
    };
    assert_eq!(ns.new_filter_impl(&store, f).unwrap_err(), Web3Error::TooManyTopics);
    assert!(ns.installed_filter(0).is_none());
}

#[test]
fn get_logs_over_the_limit_names_a_safe_block() {
    let store = store_with_1500_logs();
    let ns = EthNamespace::new(config(1000));
    // The 1000th matching log (index 999) sits in block 233, as does the 1001st.
    assert_eq!(store.logs[999].block_number, 233);
    let r = ns.get_logs_impl(&store, range_filter(100, 300));
    assert_eq!(r.unwrap_err(), Web3Error::LogsLimitExceeded(1000, 100, 232));
}

#[test]
fn get_logs_in_one_block_is_never_limited() {
    let mut store = chain(5);
    for i in 0..50u64 {
        store.logs.push(log(3, i, 9));
    }
    let ns = EthNamespace::new(config(10));
    let logs = ns.get_logs_impl(&store, range_filter(3, 3)).unwrap();
    assert_eq!(logs.len(), 50);
    // A two-block range over the same logs is limited.
    let r = ns.get_logs_impl(&store, range_filter(2, 3));
    assert_eq!(r.unwrap_err(), Web3Error::LogsLimitExceeded(10, 2, 2));
}

#[test]
fn get_logs_filters_by_address_and_topic_in_order() {
    let mut store = chain(6);
    store.logs.push(log(1, 0, 5));
    store.logs.push(log(2, 0, 9));
    store.logs.push(log(2, 1, 5));
    let mut other = log(3, 0, 5);
    other.address = Address::from_low_u64(8);
    store.logs.push(other);
    store.logs.push(log(4, 0, 5));
    let ns = EthNamespace::new(config(100));
    let f = Filter {
        from_block: Some(BlockNumber::Number(2)),
        to_block: Some(BlockNumber::Latest),
        address: Some(vec![Address::from_low_u64(7)]),
        topics: Some(vec![Some(vec![H256::from_low_u64(5)])]),
        block_hash: None,
    };
    let logs = ns.get_logs_impl(&store, f).unwrap();
    let keys: Vec<(u64, u64)> = logs.iter().map(|l| (l.block_number, l.log_index)).collect();
    assert_eq!(keys, vec![(2, 1), (4, 0)]);
}

#[test]
fn get_logs_by_block_hash() {
    let mut store = chain(4);
    store.logs.push(log(2, 0, 5));
    store.logs.push(log(3, 0, 5));
    let ns = EthNamespace::new(config(100));
    let f = Filter { block_hash: Some(H256::from_low_u64(1_000_003)), ..empty_filter() };
    let logs = ns.get_logs_impl(&store, f).unwrap();
    assert_eq!(logs.len(), 1);
    assert_eq!(logs[0].block_number, 3);
    let unknown = Filter { block_hash: Some(H256::from_low_u64(42)), ..empty_filter() };
    assert_eq!(ns.get_logs_impl(&store, unknown).unwrap_err(), Web3Error::NoBlock);
    let both = Filter {
        block_hash: Some(H256::from_low_u64(1_000_003)),
        from_block: Some(BlockNumber::Earliest),
        ..empty_filter()
    };
    assert_eq!(ns.get_logs_impl(&store, both).unwrap_err(), Web3Error::InvalidFilterBlockHash);
}

#[test]
fn block_filter_polls_twice_without_new_blocks() {
    let store = chain(7);
    let mut ns = EthNamespace::new(config(100));
    let id = ns.new_block_filter_impl(&store);
    assert!(matches!(ns.installed_filter(id), Some(TypedFilter::Blocks(7))));
    for _ in 0..2 {
        match ns.get_filter_changes_impl(&store, id).unwrap() {
            FilterChanges::Hashes(h) => assert!(h.is_empty()),
            other => panic!("unexpected {:?}", other),
        }
        assert!(matches!(ns.installed_filter(id), Some(TypedFilter::Blocks(7))));
    }
}

#[test]
fn block_filter_reports_new_block_hashes() {
    let mut store = chain(3);
    let mut ns = EthNamespace::new(config(2));
    let id = ns.new_block_filter_impl(&store);
    for n in 4..=6u64 {
        store.block_hashes.push(H256::from_low_u64(1_000_000 + n));
    }
    match ns.get_filter_changes_impl(&store, id).unwrap() {
        FilterChanges::Hashes(h) => {
            assert_eq!(h, vec![H256::from_low_u64(1_000_004), H256::from_low_u64(1_000_005)])
        }
        other => panic!("unexpected {:?}", other),
    }
    assert!(matches!(ns.installed_filter(id), Some(TypedFilter::Blocks(5))));
    match ns.get_filter_changes_impl(&store, id).unwrap() {
        FilterChanges::Hashes(h) => assert_eq!(h, vec![H256::from_low_u64(1_000_006)]),
        other => panic!("unexpected {:?}", other),
    }
}

#[test]
fn fresh_event_filter_poll_is_empty() {
    let mut store = chain(5);
    store.logs.push(log(5, 0, 1));
    let mut ns = EthNamespace::new(config(100));
    let id = ns.new_filter_impl(&store, empty_filter()).unwrap();
    match ns.get_filter_changes_impl(&store, id).unwrap() {
        FilterChanges::Logs(l) => assert!(l.is_empty()),
        other => panic!("unexpected {:?}", other),
    }
    assert!(matches!(ns.installed_filter(id), Some(TypedFilter::Events(_, 5))));
}

#[test]
fn event_filter_never_reports_a_log_twice() {
    let mut store = chain(5);
    let mut ns = EthNamespace::new(config(100));
    let id = ns.new_filter_impl(&store, empty_filter()).unwrap();
    store.block_hashes.push(H256::from_low_u64(1_000_006));
    store.logs.push(log(6, 0, 1));
    store.logs.push(log(6, 1, 1));
    let first = match ns.get_filter_changes_impl(&store, id).unwrap() {
        FilterChanges::Logs(l) => l,
        other => panic!("unexpected {:?}", other),
    };
    let keys: Vec<(u64, u64)> = first.iter().map(|l| (l.block_number, l.log_index)).collect();
    assert_eq!(keys, vec![(6, 0), (6, 1)]);
    store.block_hashes.push(H256::from_low_u64(1_000_007));
    store.logs.push(log(7, 0, 1));
    let second = match ns.get_filter_changes_impl(&store, id).unwrap() {
        FilterChanges::Logs(l) => l,
        other => panic!("unexpected {:?}", other),
    };
    let keys: Vec<(u64, u64)> = second.iter().map(|l| (l.block_number, l.log_index)).collect();
    assert_eq!(keys, vec![(7, 0)]);
}

#[test]
fn overflowing_filter_is_evicted() {
    let mut store = chain(2);
    let mut ns = EthNamespace::new(config(3));
    let id = ns.new_filter_impl(&store, empty_filter()).unwrap();
    for n in 3..=5u64 {
        store.block_hashes.push(H256::from_low_u64(1_000_000 + n));
        store.logs.push(log(n, 0, 1));
        store.logs.push(log(n, 1, 1));
    }
    assert_eq!(ns.get_filter_changes_impl(&store, id).unwrap_err(), Web3Error::FilterNotFound);
    assert!(ns.installed_filter(id).is_none());
    assert_eq!(ns.get_filter_changes_impl(&store, id).unwrap_err(), Web3Error::FilterNotFound);
}

#[test]
fn get_filter_logs_reads_from_the_filter_start() {
    let mut store = chain(4);
    store.logs.push(log(1, 0, 1));
    store.logs.push(log(3, 0, 1));
    let mut ns = EthNamespace::new(config(100));
    let id = ns.new_filter_impl(&store, range_filter(2, 4)).unwrap();
    match ns.get_filter_logs_impl(&store, id).unwrap() {
        FilterChanges::Logs(l) => {
            assert_eq!(l.len(), 1);
            assert_eq!(l[0].block_number, 3);
        }
        other => panic!("unexpected {:?}", other),
    }
    let block_id = ns.new_block_filter_impl(&store);
    assert_eq!(ns.get_filter_logs_impl(&store, block_id).unwrap_err(), Web3Error::FilterNotFound);
    assert_eq!(ns.get_filter_logs_impl(&store, 99).unwrap_err(), Web3Error::FilterNotFound);
}

#[test]
fn pending_transaction_filter_reports_later_arrivals() {
    let mut store = chain(1);
    store.pending_txs.push(PendingTx { hash: H256::from_low_u64(1), received_at: 10 });
    let mut ns = EthNamespace::new(config(100));
    let id = ns.install_pending_transaction_filter(10);
    match ns.get_filter_changes_impl(&store, id).unwrap() {
        FilterChanges::Hashes(h) => assert!(h.is_empty()),
        other => panic!("unexpected {:?}", other),
    }
    store.pending_txs.push(PendingTx { hash: H256::from_low_u64(2), received_at: 20 });
    store.pending_txs.push(PendingTx { hash: H256::from_low_u64(3), received_at: 30 });
    match ns.get_filter_changes_impl(&store, id).unwrap() {
        FilterChanges::Hashes(h) => {
            assert_eq!(h, vec![H256::from_low_u64(2), H256::from_low_u64(3)])
        }
        other => panic!("unexpected {:?}", other),
    }
    assert!(matches!(ns.installed_filter(id), Some(TypedFilter::PendingTransactions(30))));
}

#[test]
fn pending_transaction_filter_from_the_clock() {
    let mut ns = EthNamespace::new(config(100));
    let id = ns.new_pending_transaction_filter_impl();
    match ns.installed_filter(id) {
        Some(TypedFilter::PendingTransactions(t)) => assert!(*t > 1_600_000_000_000_000),
        other => panic!("unexpected {:?}", other),
    }
}

#[test]
fn uninstall_missing_filter_is_false() {
    let store = chain(1);
    let mut ns = EthNamespace::new(config(100));
    assert!(!ns.uninstall_filter_impl(5));
    let id = ns.new_block_filter_impl(&store);
    assert!(ns.uninstall_filter_impl(id));
    assert!(!ns.uninstall_filter_impl(id));
    // Ids are not handed out again.
    let next = ns.new_block_filter_impl(&store);
    assert_ne!(next, id);
}

#[test]
fn new_filter_cursor_starts_at_tip_or_before_lower_bound() {
    let store = chain(10);
    let mut ns = EthNamespace::new(config(100));
    let a = ns.new_filter_impl(&store, range_filter(3, 20)).unwrap();
    assert!(matches!(ns.installed_filter(a), Some(TypedFilter::Events(_, 10))));
    let b = ns.new_filter_impl(&store, range_filter(15, 20)).unwrap();
    assert!(matches!(ns.installed_filter(b), Some(TypedFilter::Events(_, 14))));
}

#[test]
fn block_resolution() {
    let store = chain(8);
    assert_eq!(resolve_block(&store, BlockId::Number(BlockNumber::Latest)), Ok(8));
    assert_eq!(resolve_block(&store, BlockId::Number(BlockNumber::Pending)), Ok(9));
    assert_eq!(resolve_block(&store, BlockId::Number(BlockNumber::Earliest)), Ok(0));
    assert_eq!(resolve_block(&store, BlockId::Number(BlockNumber::Number(8))), Ok(8));
    assert_eq!(
        resolve_block(&store, BlockId::Number(BlockNumber::Number(9))),
        Err(Web3Error::NoBlock)
    );
    assert_eq!(resolve_block(&store, BlockId::Hash(H256::from_low_u64(1_000_004))), Ok(4));
    assert_eq!(resolve_block(&store, BlockId::Hash(H256::from_low_u64(3))), Err(Web3Error::NoBlock));
    let ns = EthNamespace::new(config(1));
    assert_eq!(ns.get_block_number_impl(&store), 8);
}

#[test]
fn get_logs_counts_topics_before_resolving_the_block_hash() {
    let store = chain(3);
    let ns = EthNamespace::new(config(100));
    let topic = |v: u64| Some(vec![H256::from_low_u64(v)]);
    let f = Filter {
        topics: Some(vec![topic(1), topic(2), topic(3), topic(4), topic(5)]),
        block_hash: Some(H256::from_low_u64(42)),
        ..empty_filter()
    };
    assert_eq!(ns.get_logs_impl(&store, f).unwrap_err(), Web3Error::TooManyTopics);
}
