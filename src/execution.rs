use vstd::prelude::*;
use crate::store::{ChainStore, resolve_block, resolve_block_spec};
use crate::types::{Address, BlockId, BlockNumber, H256, Web3Error};

verus! {

/// The most gas per pubdata byte a transaction may offer; the default when it offers none.
pub const MAX_GAS_PER_PUBDATA_BYTE: u64 = 50000;

/// The transaction type number of an EIP-712 transaction.
pub const EIP_712_TX_TYPE: u64 = 113;

/// The selector that opens the revert data of `Error(string)`, in hex.
pub const REVERT_SELECTOR_HEX: &'static str = "08c379a0";

/// A transaction to simulate, as a client sends it. `gas_per_pubdata` is present exactly
/// when the request carries EIP-712 metadata.
#[derive(Clone, Debug)]
pub struct CallRequest {
    pub from: Option<Address>,
    pub to: Option<Address>,
    pub gas: Option<u64>,
    pub max_fee_per_gas: Option<u64>,
    pub max_priority_fee_per_gas: Option<u64>,
    pub value: Option<u128>,
    pub data: Vec<u8>,
    pub nonce: Option<u64>,
    pub transaction_type: Option<u64>,
    pub gas_per_pubdata: Option<u64>,
}

/// A failure reported by the execution sandbox or the submission pipeline.
#[derive(Clone, Debug)]
pub struct ExecutionError {
    pub message: String,
    pub data: Vec<u8>,
}

/// The block that a call runs against: the one named, or the pending block.
pub open spec fn call_block(block: Option<BlockId>) -> BlockId {
    match block {
        Some(b) => b,
        None => BlockId::Number(BlockNumber::Pending),
    }
}

/// The request with its nonce filled from the account's next nonce when absent.
pub open spec fn with_nonce(request: CallRequest, next_nonce: u64) -> CallRequest {
    match request.nonce {
        Some(_) => request,
        None => CallRequest { nonce: Some(next_nonce), ..request },
    }
}

/// Resolves the block of a call (the pending block when none is named) and fills an absent
/// nonce from `next_nonce`, the next nonce of the sender at that block. A block that does
/// not resolve is `NoBlock`.
pub fn prepare_call(
    store: &ChainStore,
    request: CallRequest,
    block: Option<BlockId>,
    next_nonce: u64,
) -> (r: Result<(u64, CallRequest), Web3Error>)
    requires
        store.wf(),
    ensures
        r == match resolve_block_spec(*store, call_block(block)) {
            Some(n) => Ok((n, with_nonce(request, next_nonce))),
            None => Err(Web3Error::NoBlock),
        },
{
    let b = match block {
        Some(b) => b,
        None => BlockId::Number(BlockNumber::Pending),
    };
    match resolve_block(store, b) {
        Ok(n) => {
            let mut req = request;
            if req.nonce.is_none() {
                req.nonce = Some(next_nonce);
            }
            Ok((n, req))
        },
        Err(e) => Err(e),
    }
}

/// The request to estimate the fee of: nonce filled, a zero gas per pubdata replaced by the
/// maximum, the EIP-712 type set when EIP-712 metadata is present, and both fee fields set
/// to the node's gas price, so that the caller's fees do not bias the estimate.
pub open spec fn estimate_request(request: CallRequest, next_nonce: u64, gas_price: u64) -> CallRequest {
    let r = with_nonce(request, next_nonce);
    CallRequest {
        gas_per_pubdata: match r.gas_per_pubdata {
            Some(g) => if g == 0 {
                Some(MAX_GAS_PER_PUBDATA_BYTE)
            } else {
                Some(g)
            },
            None => None,
        },
        transaction_type: if r.gas_per_pubdata.is_some() {
            Some(EIP_712_TX_TYPE)
        } else {
            r.transaction_type
        },
        max_fee_per_gas: Some(gas_price),
        max_priority_fee_per_gas: Some(gas_price),
        ..r
    }
}

/// Builds the request that the sandbox estimates the fee of (see `estimate_request`).
pub fn prepare_estimate(request: CallRequest, next_nonce: u64, gas_price: u64) -> (r: CallRequest)
    ensures
        r == estimate_request(request, next_nonce, gas_price),
{
    let mut req = request;
    if req.nonce.is_none() {
        req.nonce = Some(next_nonce);
    }
    match req.gas_per_pubdata {
        Some(g) => {
            if g == 0 {
                req.gas_per_pubdata = Some(MAX_GAS_PER_PUBDATA_BYTE);
            }
            req.transaction_type = Some(EIP_712_TX_TYPE);
        },
        None => {},
    }
    req.max_fee_per_gas = Some(gas_price);
    req.max_priority_fee_per_gas = Some(gas_price);
    req
}

/// Two lowercase hex digits per byte.
pub open spec fn hex_digit(n: int) -> char {
    if n < 10 {
        (48 + n) as char
    } else {
        (87 + n) as char
    }
}

pub open spec fn hex_of(b: Seq<u8>) -> Seq<char>
    decreases b.len(),
{
    if b.len() == 0 {
        Seq::empty()
    } else {
        seq![hex_digit(b[0] as int / 16), hex_digit(b[0] as int % 16)] + hex_of(b.drop_first())
    }
}

/// Relies on hex's `encode`: two lowercase hex digits for each byte, in order.
#[verifier::external_body]
fn encode_hex(b: &Vec<u8>) -> (r: String)
    ensures
        r@ == hex_of(b@),
{
    hex::encode(b)
}

/// The call's output carries `Error(string)` revert data at byte 96: at least 100 bytes,
/// and bytes 96 to 99 read `08c379a0` in hex.
pub open spec fn has_revert_at_96(out: Seq<u8>) -> bool {
    out.len() >= 100 && hex_of(out.subrange(96, 100)) == REVERT_SELECTOR_HEX@
}

/// The result of a call as the client sees it: a sandbox failure becomes
/// `SubmitTransactionError` with its message and data. With `trim_revert` set, output that
/// carries revert data at byte 96 is cut to start there.
pub fn finish_call(result: Result<Vec<u8>, ExecutionError>, trim_revert: bool) -> (r: Result<
    Vec<u8>,
    Web3Error,
>)
    ensures
        match result {
            Err(e) => r == Err::<Vec<u8>, Web3Error>(
                Web3Error::SubmitTransactionError(e.message, e.data),
            ),
            Ok(out) => r is Ok && r->Ok_0@ == if trim_revert && has_revert_at_96(out@) {
                out@.subrange(96, out@.len() as int)
            } else {
                out@
            },
        },
{
    match result {
        Err(e) => Err(Web3Error::SubmitTransactionError(e.message, e.data)),
        Ok(out) => {
            if trim_revert && out.len() >= 100 {
                let mut selector: Vec<u8> = Vec::new();
                let mut i: usize = 96;
                while i < 100
                    invariant
                        96 <= i <= 100,
                        out@.len() >= 100,
                        selector@ == out@.subrange(96, i as int),
                    decreases 100 - i,
                {
                    selector.push(out[i]);
                    i = i + 1;
                    assert(selector@ =~= out@.subrange(96, i as int));
                }
                let hex = encode_hex(&selector);
                let expected = String::from_str(REVERT_SELECTOR_HEX);
                if hex == expected {
                    let mut tail: Vec<u8> = Vec::new();
                    let mut k: usize = 96;
                    while k < out.len()
                        invariant
                            96 <= k <= out@.len(),
                            tail@ == out@.subrange(96, k as int),
                        decreases out@.len() - k,
                    {
                        tail.push(out[k]);
                        k = k + 1;
                        assert(tail@ =~= out@.subrange(96, k as int));
                    }
                    return Ok(tail);
                }
            }
            Ok(out)
        },
    }
}

/// The result of a submission as the client sees it: the transaction's hash, or the
/// pipeline's refusal as `SubmitTransactionError` with its message and data.
pub fn finish_submission(hash: H256, result: Result<(), ExecutionError>) -> (r: Result<
    H256,
    Web3Error,
>)
    ensures
        r == match result {
            Ok(_) => Ok::<H256, Web3Error>(hash),
            Err(e) => Err(Web3Error::SubmitTransactionError(e.message, e.data)),
        },
{
    match result {
        Ok(_) => Ok(hash),
        Err(e) => Err(Web3Error::SubmitTransactionError(e.message, e.data)),
    }
}

/// The result of a fee estimate as the client sees it: the gas limit, or the sandbox's
/// failure as `SubmitTransactionError` with its message and data.
pub fn finish_estimate(result: Result<u64, ExecutionError>) -> (r: Result<u64, Web3Error>)
    ensures
        r == match result {
            Ok(g) => Ok::<u64, Web3Error>(g),
            Err(e) => Err(Web3Error::SubmitTransactionError(e.message, e.data)),
        },
{
    match result {
        Ok(g) => Ok(g),
        Err(e) => Err(Web3Error::SubmitTransactionError(e.message, e.data)),
    }
}

/// A 256-bit unsigned number, as its upper and lower 128 bits.
#[derive(Clone, Copy, Debug, PartialEq, Eq, Structural)]
pub struct U256 {
    pub hi: u128,
    pub lo: u128,
}

/// 2^128: the full nonce holds the account nonce below it and the deployment nonce above.
pub open spec fn nonce_offset() -> int {
    u128::MAX as int + 1
}

impl U256 {
    pub open spec fn value(&self) -> int {
        self.hi as int * nonce_offset() + self.lo as int
    }
}

/// Splits a full nonce into the account nonce (the remainder by 2^128) and the deployment
/// nonce (the quotient).
pub fn decompose_full_nonce(full: U256) -> (r: (u128, u128))
    ensures
        full.value() == r.1 as int * nonce_offset() + r.0 as int,
        r.0 == full.value() % nonce_offset(),
        r.1 == full.value() / nonce_offset(),
{
    proof {
        let m: int = nonce_offset();
        vstd::arithmetic::div_mod::lemma_fundamental_div_mod_converse(
            full.value(),
            m,
            full.hi as int,
            full.lo as int,
        );
    }
    (full.lo, full.hi)
}

/// Where the nonce of an account is read: from the mempool's next nonce for the pending
/// block, or from the state at a sealed block.
#[derive(Clone, Copy, Debug, PartialEq, Eq, Structural)]
pub enum NonceSource {
    Pending,
    AtBlock(u64),
}

/// Where `getTransactionCount` reads the nonce for `block` (the pending block when none is
/// named); a block that does not resolve is `NoBlock`.
pub fn transaction_count_source(store: &ChainStore, block: Option<BlockId>) -> (r: Result<
    NonceSource,
    Web3Error,
>)
    requires
        store.wf(),
    ensures
        r == match call_block(block) {
            BlockId::Number(BlockNumber::Pending) => Ok::<NonceSource, Web3Error>(NonceSource::Pending),
            b => match resolve_block_spec(*store, b) {
                Some(n) => Ok(NonceSource::AtBlock(n)),
                None => Err(Web3Error::NoBlock),
            },
        },
{
    let b = match block {
        Some(b) => b,
        None => BlockId::Number(BlockNumber::Pending),
    };
    match b {
        BlockId::Number(BlockNumber::Pending) => Ok(NonceSource::Pending),
        _ => match resolve_block(store, b) {
            Ok(n) => Ok(NonceSource::AtBlock(n)),
            Err(e) => Err(e),
        },
    }
}

/// Resolves the block of a point read (balance, code, storage): the pending block when
/// none is named; a block that does not resolve is `NoBlock`.
pub fn resolve_read_block(store: &ChainStore, block: Option<BlockId>) -> (r: Result<u64, Web3Error>)
    requires
        store.wf(),
    ensures
        r == match resolve_block_spec(*store, call_block(block)) {
            Some(n) => Ok::<u64, Web3Error>(n),
            None => Err(Web3Error::NoBlock),
        },
{
    let b = match block {
        Some(b) => b,
        None => BlockId::Number(BlockNumber::Pending),
    };
    resolve_block(store, b)
}

/// The length of a bytecode chunk: a contract's bytecode is a whole number of chunks.
pub const BYTECODE_CHUNK_LEN: usize = 32;

/// The known bytecodes as byte sequences.
pub open spec fn known_views(known: Seq<Vec<u8>>) -> Seq<Seq<u8>> {
    known.map_values(|v: Vec<u8>| v@)
}

/// Where deploy data of the EVM kind splits into bytecode and constructor arguments: the
/// bytecode is the longest prefix of at most `k` bytes, a whole number of chunks, that is a
/// known bytecode.
pub open spec fn deploy_split_from(data: Seq<u8>, known: Seq<Seq<u8>>, k: int) -> Option<int>
    decreases k,
{
    if k < 0 {
        None
    } else if known.contains(data.take(k)) {
        Some(k)
    } else if k < BYTECODE_CHUNK_LEN {
        None
    } else {
        deploy_split_from(data, known, k - BYTECODE_CHUNK_LEN)
    }
}

/// The split of `data`: searched from its longest whole-chunk prefix down.
pub open spec fn deploy_split(data: Seq<u8>, known: Seq<Seq<u8>>) -> Option<int> {
    let chunk = BYTECODE_CHUNK_LEN as int;
    deploy_split_from(data, known, (data.len() as int) / chunk * chunk)
}

fn is_prefix(v: &Vec<u8>, data: &Vec<u8>, k: usize) -> (r: bool)
    requires
        k <= data@.len(),
    ensures
        r == (v@ == data@.take(k as int)),
{
    if v.len() != k {
        return false;
    }
    let mut i: usize = 0;
    while i < k
        invariant
            i <= k <= data@.len(),
            v@.len() == k,
            forall|j: int| 0 <= j < i ==> v@[j] == data@[j],
        decreases k - i,
    {
        if v[i] != data[i] {
            return false;
        }
        i = i + 1;
    }
    assert(v@ =~= data@.take(k as int));
    true
}

fn known_prefix(known: &Vec<Vec<u8>>, data: &Vec<u8>, k: usize) -> (r: bool)
    requires
        k <= data@.len(),
    ensures
        r == known_views(known@).contains(data@.take(k as int)),
{
    let ghost kv = known_views(known@);
    let mut i: usize = 0;
    while i < known.len()
        invariant
            i <= known@.len(),
            kv == known_views(known@),
            k <= data@.len(),
            forall|j: int| 0 <= j < i ==> kv[j] != data@.take(k as int),
        decreases known@.len() - i,
    {
        if is_prefix(&known[i], data, k) {
            assert(kv[i as int] == data@.take(k as int));
            return true;
        }
        i = i + 1;
    }
    false
}

/// Splits deploy data into the length of its bytecode, a known bytecode, and the
/// constructor arguments after it; `None` when no whole-chunk prefix is a known bytecode.
pub fn split_deploy_data(data: &Vec<u8>, known: &Vec<Vec<u8>>) -> (r: Option<usize>)
    ensures
        match deploy_split(data@, known_views(known@)) {
            Some(k) => r == Some(k as usize),
            None => r.is_none(),
        },
{
    let mut k: usize = data.len() / BYTECODE_CHUNK_LEN * BYTECODE_CHUNK_LEN;
    assert(k as int == data@.len() / 32 * 32) by (nonlinear_arith)
        requires
            k == data@.len() / 32 * 32,
    ;
    assert(k <= data@.len()) by (nonlinear_arith)
        requires
            k as int == data@.len() / 32 * 32,
    ;
    while !known_prefix(known, data, k)
        invariant
            k <= data@.len(),
            deploy_split_from(data@, known_views(known@), k as int) == deploy_split(
                data@,
                known_views(known@),
            ),
        decreases k,
    {
        if k < BYTECODE_CHUNK_LEN {
            return None;
        }
        k = k - BYTECODE_CHUNK_LEN;
    }
    Some(k)
}

} // verus!
