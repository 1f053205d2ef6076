use vstd::prelude::*;
use crate::logs::{query_logs, query_logs_spec};
use crate::store::{ChainStore, resolve_filter_block_number, filter_bound_value};
use crate::types::{Filter, H256, Log, LogView, PendingTx, Web3Error, log_views};

verus! {

/// The hashes of the sealed blocks after block `c`, at most `limit` of them, in order.
pub open spec fn block_hashes_after_spec(store: ChainStore, c: u64, limit: usize) -> Seq<H256> {
    let n = store.block_hashes@.len();
    if c + 1 >= n {
        Seq::empty()
    } else {
        let end = if c + 1 + limit < n {
            c + 1 + limit
        } else {
            n as int
        };
        store.block_hashes@.subrange(c + 1, end)
    }
}

/// The number of the last block in `block_hashes_after_spec`, or `c` when it is empty.
pub open spec fn block_cursor_after(store: ChainStore, c: u64, limit: usize) -> u64 {
    let s = block_hashes_after_spec(store, c, limit);
    if s.len() == 0 {
        c
    } else {
        (c + s.len()) as u64
    }
}

/// Polls a block filter whose cursor is `c`: the hashes of the next blocks (at most
/// `limit`) and the new cursor.
pub fn block_hashes_after(store: &ChainStore, c: u64, limit: usize) -> (r: (Vec<H256>, u64))
    requires
        store.wf(),
    ensures
        r.0@ == block_hashes_after_spec(*store, c, limit),
        r.1 == block_cursor_after(*store, c, limit),
{
    let n = store.block_hashes.len();
    let mut out: Vec<H256> = Vec::new();
    if c >= (n - 1) as u64 {
        return (out, c);
    }
    let start = (c + 1) as usize;
    let end: usize = if limit < n - start {
        start + limit
    } else {
        n
    };
    let mut k: usize = start;
    while k < end
        invariant
            start <= k <= end <= n,
            n == store.block_hashes@.len(),
            out@ == store.block_hashes@.subrange(start as int, k as int),
        decreases end - k,
    {
        out.push(store.block_hashes[k]);
        k = k + 1;
        assert(out@ =~= store.block_hashes@.subrange(start as int, k as int));
    }
    let last = if end > start {
        (end - 1) as u64
    } else {
        c
    };
    (out, last)
}

/// The pending transactions received after time `ts`, in store order.
pub open spec fn pending_after_spec(s: Seq<PendingTx>, ts: i64) -> Seq<PendingTx>
    decreases s.len(),
{
    if s.len() == 0 {
        Seq::empty()
    } else {
        let rest = pending_after_spec(s.drop_last(), ts);
        if s.last().received_at > ts {
            rest.push(s.last())
        } else {
            rest
        }
    }
}

/// What a pending-transaction filter reports: the first `limit` transactions received
/// after `ts`.
pub open spec fn pending_poll_spec(store: ChainStore, ts: i64, limit: usize) -> Seq<PendingTx> {
    let all = pending_after_spec(store.pending_txs@, ts);
    if all.len() <= limit {
        all
    } else {
        all.take(limit as int)
    }
}

/// The new cursor of a pending-transaction filter: the receive time of the last reported
/// transaction, or `ts` when none was reported.
pub open spec fn pending_cursor_after(store: ChainStore, ts: i64, limit: usize) -> i64 {
    let s = pending_poll_spec(store, ts, limit);
    if s.len() == 0 {
        ts
    } else {
        s.last().received_at
    }
}

/// Polls a pending-transaction filter whose cursor is `ts`.
pub fn pending_hashes_after(store: &ChainStore, ts: i64, limit: usize) -> (r: (Vec<H256>, i64))
    ensures
        r.0@ == pending_poll_spec(*store, ts, limit).map_values(|t: PendingTx| t.hash),
        r.1 == pending_cursor_after(*store, ts, limit),
{
    let mut all: Vec<PendingTx> = Vec::new();
    let mut i: usize = 0;
    while i < store.pending_txs.len()
        invariant
            i <= store.pending_txs@.len(),
            all@ == pending_after_spec(store.pending_txs@.take(i as int), ts),
        decreases store.pending_txs@.len() - i,
    {
        let ghost after = store.pending_txs@.take(i + 1);
        assert(after.drop_last() =~= store.pending_txs@.take(i as int));
        let t = store.pending_txs[i];
        if t.received_at > ts {
            all.push(t);
        }
        i = i + 1;
    }
    assert(store.pending_txs@.take(store.pending_txs@.len() as int) =~= store.pending_txs@);
    let ghost chosen = pending_poll_spec(*store, ts, limit);
    let count: usize = if all.len() <= limit {
        all.len()
    } else {
        limit
    };
    assert(chosen =~= all@.take(count as int));
    let mut hashes: Vec<H256> = Vec::new();
    let mut j: usize = 0;
    while j < count
        invariant
            count <= all@.len(),
            j <= count,
            hashes@ == all@.take(j as int).map_values(|t: PendingTx| t.hash),
        decreases count - j,
    {
        hashes.push(all[j].hash);
        j = j + 1;
        assert(hashes@ =~= all@.take(j as int).map_values(|t: PendingTx| t.hash));
    }
    let last = if count == 0 {
        ts
    } else {
        all[count - 1].received_at
    };
    (hashes, last)
}

/// The first block that the next poll of an event filter covers: the one after the cursor.
pub open spec fn next_block(c: u64) -> u64 {
    if c < u64::MAX {
        (c + 1) as u64
    } else {
        c
    }
}

/// The new cursor of an event filter after logs `s` were reported.
pub open spec fn event_cursor_after(c: u64, s: Seq<LogView>) -> u64 {
    if s.len() == 0 {
        c
    } else {
        s.last().block_number
    }
}

/// What polling an event filter whose cursor is `c` answers: the logs of the blocks after
/// the cursor up to the filter's upper bound, under the same limit as a log query, and the
/// new cursor.
pub open spec fn event_poll_spec(store: ChainStore, f: Filter, c: u64, limit: usize) -> Result<
    (Seq<LogView>, u64),
    Web3Error,
> {
    let to = filter_bound_value(store.tip(), f.to_block);
    match query_logs_spec(store, f, next_block(c), to, limit) {
        Ok(s) => Ok((s, event_cursor_after(c, s))),
        Err(e) => Err(e),
    }
}

/// Polls an event filter whose cursor is `c`.
pub fn poll_events(store: &ChainStore, f: &Filter, c: u64, limit: usize) -> (r: Result<
    (Vec<Log>, u64),
    Web3Error,
>)
    requires
        store.wf(),
    ensures
        match (r, event_poll_spec(*store, *f, c, limit)) {
            (Ok((v, nc)), Ok((s, sc))) => log_views(v@) == s && nc == sc,
            (Err(e), Err(e2)) => e == e2,
            _ => false,
        },
{
    let to = resolve_filter_block_number(store, f.to_block);
    let from = if c < u64::MAX {
        c + 1
    } else {
        c
    };
    match query_logs(store, f, from, to, limit) {
        Ok(logs) => {
            let nc = if logs.len() == 0 {
                c
            } else {
                logs[logs.len() - 1].block_number
            };
            Ok((logs, nc))
        },
        Err(e) => Err(e),
    }
}

} // verus!
