use eth_namespace::filters::Filters;
use eth_namespace::logs::nth_matching_block;
use eth_namespace::store::ChainStore;
use eth_namespace::types::{Address, Filter, H256, Log, PendingTx, TypedFilter};

fn log(block: u64, index: u64) -> Log {
    Log {
        address: Address::from_low_u64(1),
        topics: vec![],
        data: vec![],
        block_number: block,
        log_index: index,
        transaction_hash: H256::zero(),
    }
}

#[test]
fn registry_update_and_remove() {
    let mut filters = Filters::new();
    let a = filters.add(TypedFilter::Blocks(3));
    let b = filters.add(TypedFilter::PendingTransactions(8));
    assert_eq!((a, b), (0, 1));
    filters.update(a, TypedFilter::Blocks(4));
    assert!(matches!(filters.get(a), Some(TypedFilter::Blocks(4))));
    assert!(filters.remove(a));
    // Updating a removed filter does nothing.
    filters.update(a, TypedFilter::Blocks(9));
    assert!(filters.get(a).is_none());
    assert!(!filters.remove(a));
    assert!(matches!(filters.take(b), Some(TypedFilter::PendingTransactions(8))));
    assert!(filters.get(b).is_none());
    assert_eq!(filters.add(TypedFilter::Blocks(0)), 2);
}

#[test]
fn store_well_formedness() {
    let mut store = ChainStore::genesis(H256::zero());
    store.block_hashes.push(H256::from_low_u64(1));
    store.logs.push(log(0, 0));
    store.logs.push(log(1, 0));
    store.logs.push(log(1, 1));
    assert!(store.is_well_formed());
    store.logs.push(log(1, 1));
    assert!(!store.is_well_formed());
    store.logs.pop();
    store.logs.push(log(2, 0));
    assert!(!store.is_well_formed());
    store.logs.pop();
    store.pending_txs.push(PendingTx { hash: H256::zero(), received_at: 5 });
    store.pending_txs.push(PendingTx { hash: H256::zero(), received_at: 4 });
    assert!(!store.is_well_formed());
}

#[test]
fn block_of_the_log_past_the_limit() {
    let mut store = ChainStore::genesis(H256::zero());
    for n in 1..=4u64 {
        store.block_hashes.push(H256::from_low_u64(n));
        store.logs.push(log(n, 0));
        store.logs.push(log(n, 1));
    }
    let f = Filter { from_block: None, to_block: None, address: None, topics: None, block_hash: None };
    assert_eq!(nth_matching_block(&store, &f, 2, 4, 0), Some(2));
    assert_eq!(nth_matching_block(&store, &f, 2, 4, 3), Some(3));
    assert_eq!(nth_matching_block(&store, &f, 2, 4, 5), Some(4));
    assert_eq!(nth_matching_block(&store, &f, 2, 4, 6), None);
}
