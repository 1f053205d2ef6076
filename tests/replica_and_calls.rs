use eth_namespace::execution::{
    decompose_full_nonce, finish_call, finish_estimate, finish_submission, prepare_call, prepare_estimate,
    resolve_read_block, split_deploy_data, transaction_count_source, CallRequest, ExecutionError, NonceSource, U256,
};
use eth_namespace::namespace::{
    ApiConfig, EthNamespace, ReceiptLookup, SyncProgress, SyncState, TxLookup,
};
use eth_namespace::replica::main_node_receipt_to_forward;
use eth_namespace::store::ChainStore;
use eth_namespace::types::{
    Address, BlockId, BlockNumber, H256, Transaction, TransactionId, TransactionReceipt, Web3Error,
};

fn follower() -> EthNamespace {
    EthNamespace::new(ApiConfig {
        l2_chain_id: 270,
        req_entities_limit: 100,
        follower: true,
        accounts: vec![],
    })
}

fn chain(tip: u64) -> ChainStore {
    let mut store = ChainStore::genesis(H256::from_low_u64(500));
    for n in 1..=tip {
        store.block_hashes.push(H256::from_low_u64(500 + n));
    }
    store
}

fn tx(hash: u64, block: Option<u64>) -> Transaction {
    Transaction {
        hash: H256::from_low_u64(hash),
        from: Address::from_low_u64(1),
        to: Some(Address::from_low_u64(2)),
        nonce: 0,
        value: 10,
        block_number: block,
        transaction_index: block.map(|_| 0),
    }
}

fn request() -> CallRequest {
    CallRequest {
        from: Some(Address::from_low_u64(1)),
        to: Some(Address::from_low_u64(2)),
        gas: Some(21000),
        max_fee_per_gas: Some(1),
        max_priority_fee_per_gas: Some(1),
        value: None,
        data: vec![0xaa],
        nonce: None,
        transaction_type: None,
        gas_per_pubdata: None,
    }
}

#[test]
fn proxied_transaction_is_served_from_cache_until_sealed() {
    let mut store = chain(3);
    let mut ns = follower();
    let h = H256::from_low_u64(77);
    ns.remember_proxied_tx(tx(77, None));
    assert_eq!(ns.get_transaction_impl(&store, TransactionId::Hash(h)), TxLookup::Found(Some(tx(77, None))));
    // The node seals the transaction itself.
    store.transactions.push(tx(77, Some(3)));
    assert_eq!(ns.get_transaction_impl(&store, TransactionId::Hash(h)), TxLookup::Found(Some(tx(77, Some(3)))));
    // The cache entry is gone: without the local copy the lookup goes to the main node.
    let empty = chain(3);
    assert_eq!(ns.get_transaction_impl(&empty, TransactionId::Hash(h)), TxLookup::AskMainNode);
}

#[test]
fn transaction_lookup_on_main_node_and_by_position() {
    let mut store = chain(3);
    store.transactions.push(tx(5, Some(2)));
    let mut ns = EthNamespace::new(ApiConfig {
        l2_chain_id: 270,
        req_entities_limit: 100,
        follower: false,
        accounts: vec![],
    });
    let by_pos = TransactionId::Block(BlockId::Number(BlockNumber::Number(2)), 0);
    assert_eq!(ns.get_transaction_impl(&store, by_pos), TxLookup::Found(Some(tx(5, Some(2)))));
    let missing = TransactionId::Hash(H256::from_low_u64(6));
    assert_eq!(ns.get_transaction_impl(&store, missing), TxLookup::Found(None));
    let mut f = follower();
    assert_eq!(f.get_transaction_impl(&store, by_pos), TxLookup::Found(Some(tx(5, Some(2)))));
    let later = TransactionId::Block(BlockId::Number(BlockNumber::Number(9)), 0);
    assert_eq!(f.get_transaction_impl(&store, later), TxLookup::AskMainNode);
}

#[test]
fn rejected_receipt_from_main_node_is_forwarded() {
    let store = chain(3);
    let ns = follower();
    let h = H256::from_low_u64(9);
    assert_eq!(ns.get_transaction_receipt_impl(&store, h), ReceiptLookup::AskMainNode);
    let rejected =
        TransactionReceipt { transaction_hash: h, status: Some(0), block_number: None, gas_used: 0 };
    assert_eq!(main_node_receipt_to_forward(Some(rejected)), Some(rejected));
    let included = TransactionReceipt {
        transaction_hash: h,
        status: Some(1),
        block_number: Some(500),
        gas_used: 21000,
    };
    assert_eq!(main_node_receipt_to_forward(Some(included)), None);
    let failed_in_block = TransactionReceipt { status: Some(0), block_number: Some(4), ..included };
    assert_eq!(main_node_receipt_to_forward(Some(failed_in_block)), None);
    assert_eq!(main_node_receipt_to_forward(None), None);
}

#[test]
fn local_receipt_is_returned() {
    let mut store = chain(3);
    let h = H256::from_low_u64(9);
    let rc = TransactionReceipt { transaction_hash: h, status: Some(1), block_number: Some(2), gas_used: 5 };
    store.receipts.push(rc);
    let ns = follower();
    assert_eq!(ns.get_transaction_receipt_impl(&store, h), ReceiptLookup::Found(Some(rc)));
    let main = EthNamespace::new(ApiConfig {
        l2_chain_id: 1,
        req_entities_limit: 1,
        follower: false,
        accounts: vec![],
    });
    assert_eq!(
        main.get_transaction_receipt_impl(&store, H256::from_low_u64(10)),
        ReceiptLookup::Found(None)
    );
}

#[test]
fn call_defaults_to_pending_and_fills_nonce() {
    let store = chain(4);
    let (block, req) = prepare_call(&store, request(), None, 12).unwrap();
    assert_eq!(block, 5);
    assert_eq!(req.nonce, Some(12));
    let mut with_nonce = request();
    with_nonce.nonce = Some(3);
    let (block, req) =
        prepare_call(&store, with_nonce, Some(BlockId::Number(BlockNumber::Number(2))), 12).unwrap();
    assert_eq!(block, 2);
    assert_eq!(req.nonce, Some(3));
    let r = prepare_call(&store, request(), Some(BlockId::Number(BlockNumber::Number(7))), 0);
    assert_eq!(r.unwrap_err(), Web3Error::NoBlock);
}

#[test]
fn estimate_overrides_fees_and_pubdata() {
    let mut req = request();
    req.gas_per_pubdata = Some(0);
    let est = prepare_estimate(req, 4, 250_000_000);
    assert_eq!(est.nonce, Some(4));
    assert_eq!(est.gas_per_pubdata, Some(50000));
    assert_eq!(est.transaction_type, Some(113));
    assert_eq!(est.max_fee_per_gas, Some(250_000_000));
    assert_eq!(est.max_priority_fee_per_gas, Some(250_000_000));
    let plain = prepare_estimate(request(), 4, 7);
    assert_eq!(plain.gas_per_pubdata, None);
    assert_eq!(plain.transaction_type, None);
    assert_eq!(plain.max_fee_per_gas, Some(7));
}

#[test]
fn call_failure_becomes_submit_error() {
    let err = ExecutionError { message: "reverted".to_string(), data: vec![1, 2] };
    let r = finish_call(Err(err), false);
    assert_eq!(r.unwrap_err(), Web3Error::SubmitTransactionError("reverted".to_string(), vec![1, 2]));
    let sub = finish_submission(H256::from_low_u64(3), Err(ExecutionError { message: "nonce".to_string(), data: vec![] }));
    assert_eq!(sub.unwrap_err(), Web3Error::SubmitTransactionError("nonce".to_string(), vec![]));
    assert_eq!(finish_submission(H256::from_low_u64(3), Ok(())), Ok(H256::from_low_u64(3)));
    let est = finish_estimate(Err(ExecutionError { message: "out of gas".to_string(), data: vec![7] }));
    assert_eq!(est.unwrap_err(), Web3Error::SubmitTransactionError("out of gas".to_string(), vec![7]));
    assert_eq!(finish_estimate(Ok(30000)), Ok(30000));
}

#[test]
fn revert_data_is_trimmed_only_when_asked() {
    let mut out = vec![0u8; 96];
    out.extend_from_slice(&[0x08, 0xc3, 0x79, 0xa0, 0x11, 0x22]);
    let trimmed = finish_call(Ok(out.clone()), true).unwrap();
    assert_eq!(trimmed, vec![0x08, 0xc3, 0x79, 0xa0, 0x11, 0x22]);
    assert_eq!(finish_call(Ok(out.clone()), false).unwrap(), out);
    let mut other = vec![0u8; 96];
    other.extend_from_slice(&[0x08, 0xc3, 0x79, 0xa1]);
    assert_eq!(finish_call(Ok(other.clone()), true).unwrap(), other);
}

#[test]
fn nonce_sources_and_full_nonce() {
    let store = chain(4);
    assert_eq!(transaction_count_source(&store, None), Ok(NonceSource::Pending));
    assert_eq!(
        transaction_count_source(&store, Some(BlockId::Number(BlockNumber::Latest))),
        Ok(NonceSource::AtBlock(4))
    );
    assert_eq!(
        transaction_count_source(&store, Some(BlockId::Hash(H256::from_low_u64(1)))),
        Err(Web3Error::NoBlock)
    );
    assert_eq!(decompose_full_nonce(U256 { hi: 2, lo: 9 }), (9, 2));
    assert_eq!(resolve_read_block(&store, None), Ok(5));
    assert_eq!(
        resolve_read_block(&store, Some(BlockId::Number(BlockNumber::Number(5)))),
        Err(Web3Error::NoBlock)
    );
}

#[test]
fn static_answers() {
    let ns = EthNamespace::new(ApiConfig {
        l2_chain_id: 270,
        req_entities_limit: 1,
        follower: false,
        accounts: vec![
            Address { hi: 1, lo: 0 },
            Address::from_low_u64(9),
            Address::from_low_u64(3),
            Address::from_low_u64(9),
        ],
    });
    assert_eq!(ns.protocol_version(), "zks/1");
    assert_eq!(ns.chain_id_impl(), 270);
    assert_eq!(ns.coinbase_impl(), Address::zero());
    assert!(ns.compilers_impl().is_empty());
    assert_eq!(ns.uncle_count_impl(BlockId::Number(BlockNumber::Latest)), Some(0));
    assert_eq!(ns.hashrate_impl(), 0);
    assert!(!ns.mining_impl());
    assert_eq!(
        ns.accounts_impl(),
        vec![Address::from_low_u64(3), Address::from_low_u64(9), Address { hi: 1, lo: 0 }]
    );
    assert_eq!(ns.sign_impl(Address::zero(), vec![]), Err(Web3Error::MethodNotSupported));
    assert_eq!(ns.compile_impl("contract".to_string()), Err(Web3Error::MethodNotSupported));
    assert_eq!(
        ns.submit_work_impl(0, H256::zero(), H256::zero()),
        Err(Web3Error::MethodNotSupported)
    );
    assert_eq!(
        ns.submit_hashrate_impl(H256::zero(), H256::zero()),
        Err(Web3Error::MethodNotSupported)
    );
    assert_eq!(ns.syncing_impl(None), SyncState::NotSyncing);
    let behind = SyncProgress { is_synced: false, local_block: 5, main_node_block: 9 };
    assert_eq!(
        ns.syncing_impl(Some(behind)),
        SyncState::Syncing { starting_block: 0, current_block: 5, highest_block: 9 }
    );
    assert_eq!(ns.syncing_impl(Some(SyncProgress { is_synced: true, ..behind })), SyncState::NotSyncing);
}

#[test]
fn deploy_data_splits_at_the_longest_known_bytecode() {
    let data: Vec<u8> = (0..70u8).collect();
    let short = data[..32].to_vec();
    let long = data[..64].to_vec();
    assert_eq!(split_deploy_data(&data, &vec![short.clone()]), Some(32));
    assert_eq!(split_deploy_data(&data, &vec![short, long]), Some(64));
    assert_eq!(split_deploy_data(&data, &vec![data[..40].to_vec()]), None);
    assert_eq!(split_deploy_data(&data, &vec![]), None);
}
