use vstd::prelude::*;
use crate::logs::{
    lemma_select_elements, lemma_select_ordered, matching_logs, query_logs_spec, select_logs, topic_count,
};
use crate::namespace::{
    ChangesView, filter_changes_outcome, get_logs_spec, new_filter_spec, poll_spec,
    resolve_filter_block_hash_spec,
};
use crate::poll::{event_poll_spec, next_block, pending_after_spec, pending_poll_spec};
use crate::store::{ChainStore, filter_bound_value, log_before, logs_ordered};
use crate::types::{Filter, LogView, PendingTx, TypedFilter, Web3Error, log_views};

verus! {

proof fn lemma_select_none_before(f: Filter, from: u64, to: u64, s: Seq<LogView>)
    requires
        forall|i: int| 0 <= i < s.len() ==> (#[trigger] s[i]).block_number < from,
    ensures
        select_logs(f, from, to, s) == Seq::<LogView>::empty(),
    decreases s.len(),
{
    if s.len() > 0 {
        lemma_select_none_before(f, from, to, s.drop_last());
    }
}

proof fn lemma_pending_none_after(s: Seq<PendingTx>, ts: i64)
    requires
        forall|i: int| 0 <= i < s.len() ==> (#[trigger] s[i]).received_at <= ts,
    ensures
        pending_after_spec(s, ts) == Seq::<PendingTx>::empty(),
    decreases s.len(),
{
    if s.len() > 0 {
        lemma_pending_none_after(s.drop_last(), ts);
    }
}

/// A block filter installed at the tip of a store reports no hashes when polled against the
/// same store, and keeps its cursor.
pub proof fn lemma_fresh_block_filter_is_quiet(
    store: ChainStore,
    m: Map<u64, TypedFilter>,
    id: u64,
    limit: usize,
)
    requires
        store.wf(),
    ensures
        ({
            let installed = m.insert(id, TypedFilter::Blocks(store.tip()));
            filter_changes_outcome(store, installed, id, limit) == (
                Ok::<ChangesView, Web3Error>(ChangesView::Hashes(Seq::empty())),
                installed,
            )
        }),
{
    let installed = m.insert(id, TypedFilter::Blocks(store.tip()));
    assert(installed.insert(id, TypedFilter::Blocks(store.tip())) =~= installed);
}

/// An event filter installed against a store reports no logs when polled against the same
/// store, and keeps its cursor.
pub proof fn lemma_fresh_event_filter_is_quiet(
    store: ChainStore,
    m: Map<u64, TypedFilter>,
    id: u64,
    f: Filter,
    limit: usize,
)
    requires
        store.wf(),
        new_filter_spec(store, f) is Ok,
    ensures
        ({
            let installed = m.insert(id, new_filter_spec(store, f)->Ok_0);
            filter_changes_outcome(store, installed, id, limit) == (
                Ok::<ChangesView, Web3Error>(ChangesView::Logs(Seq::empty())),
                installed,
            )
        }),
{
    let tf = new_filter_spec(store, f)->Ok_0;
    let installed = m.insert(id, tf);
    let g = resolve_filter_block_hash_spec(store, f)->Ok_0;
    let c = tf->Events_1;
    assert(topic_count(g) == topic_count(f));
    assert(c >= store.tip() && c < u64::MAX);
    let logs = log_views(store.logs@);
    assert forall|i: int| 0 <= i < logs.len() implies (#[trigger] logs[i]).block_number < next_block(
        c,
    ) by {
        assert(logs[i] == store.logs@[i]@);
    }
    let to = filter_bound_value(store.tip(), g.to_block);
    lemma_select_none_before(g, next_block(c), to, logs);
    assert(installed.insert(id, tf) =~= installed);
}

/// A pending-transaction filter installed at time `ts` reports nothing while every pending
/// transaction was received by `ts`, and keeps its cursor.
pub proof fn lemma_fresh_pending_filter_is_quiet(
    store: ChainStore,
    m: Map<u64, TypedFilter>,
    id: u64,
    ts: i64,
    limit: usize,
)
    requires
        store.wf(),
        forall|i: int|
            0 <= i < store.pending_txs@.len() ==> (#[trigger] store.pending_txs@[i]).received_at
                <= ts,
    ensures
        ({
            let installed = m.insert(id, TypedFilter::PendingTransactions(ts));
            filter_changes_outcome(store, installed, id, limit) == (
                Ok::<ChangesView, Web3Error>(ChangesView::Hashes(Seq::empty())),
                installed,
            )
        }),
{
    let installed = m.insert(id, TypedFilter::PendingTransactions(ts));
    lemma_pending_none_after(store.pending_txs@, ts);
    assert(Seq::<PendingTx>::empty().map_values(|t: PendingTx| t.hash) =~= Seq::empty());
    assert(installed.insert(id, TypedFilter::PendingTransactions(ts)) =~= installed);
}

/// The logs of an event-filter poll are in store order (by block, then by index), and a
/// later poll from the cursor that it left, against any later store, reports only logs that
/// come after every log of the first poll: none is reported twice.
pub proof fn lemma_event_polls_ordered_and_disjoint(
    s1: ChainStore,
    s2: ChainStore,
    f: Filter,
    c: u64,
    limit: usize,
)
    requires
        s1.wf(),
        s2.wf(),
    ensures
        event_poll_spec(s1, f, c, limit) matches Ok((l1, c1)) ==> {
            &&& logs_ordered(l1)
            &&& event_poll_spec(s2, f, c1, limit) matches Ok((l2, _)) ==> {
                &&& logs_ordered(l2)
                &&& forall|i: int, j: int|
                    0 <= i < l1.len() && 0 <= j < l2.len() ==> log_before(
                        #[trigger] l1[i],
                        #[trigger] l2[j],
                    ) && l1[i] != l2[j]
            }
        },
{
    let to1 = filter_bound_value(s1.tip(), f.to_block);
    let to2 = filter_bound_value(s2.tip(), f.to_block);
    let v1 = log_views(s1.logs@);
    let v2 = log_views(s2.logs@);
    lemma_select_ordered(f, next_block(c), to1, v1);
    if event_poll_spec(s1, f, c, limit) is Ok {
        let (l1, c1) = event_poll_spec(s1, f, c, limit)->Ok_0;
        assert(l1 == select_logs(f, next_block(c), to1, v1));
        lemma_select_ordered(f, next_block(c1), to2, v2);
        lemma_select_elements(f, next_block(c), to1, v1);
        lemma_select_elements(f, next_block(c1), to2, v2);
        if event_poll_spec(s2, f, c1, limit) is Ok {
            let l2 = event_poll_spec(s2, f, c1, limit)->Ok_0.0;
            assert(l2 == select_logs(f, next_block(c1), to2, v2));
            if l1.len() > 0 {
                let last = l1[l1.len() - 1];
                assert(c1 == last.block_number);
                let k = choose|k: int| 0 <= k < v1.len() && v1[k] == last;
                assert(v1[k] == s1.logs@[k]@);
                assert(c1 < u64::MAX);
                assert forall|i: int, j: int| 0 <= i < l1.len() && 0 <= j < l2.len() implies log_before(
                    #[trigger] l1[i],
                    #[trigger] l2[j],
                ) && l1[i] != l2[j] by {
                    if i < l1.len() - 1 {
                        assert(log_before(l1[i], l1[l1.len() - 1]));
                    }
                    assert(l1[i].block_number <= c1);
                    assert(l2[j].block_number >= c1 + 1);
                }
            }
        }
    }
}

/// The logs of a `getLogs` answer are in store order: by block, then by index in block.
pub proof fn lemma_get_logs_ordered(store: ChainStore, f: Filter, limit: usize)
    requires
        store.wf(),
    ensures
        get_logs_spec(store, f, limit) matches Ok(s) ==> logs_ordered(s),
{
    if resolve_filter_block_hash_spec(store, f) is Ok {
        let g = resolve_filter_block_hash_spec(store, f)->Ok_0;
        lemma_select_ordered(
            g,
            filter_bound_value(store.tip(), g.from_block),
            filter_bound_value(store.tip(), g.to_block),
            log_views(store.logs@),
        );
    }
}

/// A filter whose poll would exceed the entity limit is evicted and reported as not found,
/// and so is every later poll of its id, against any store.
pub proof fn lemma_overflowing_filter_is_evicted(
    store: ChainStore,
    later: ChainStore,
    m: Map<u64, TypedFilter>,
    id: u64,
    limit: usize,
)
    requires
        m.contains_key(id),
        poll_spec(store, m[id], limit) matches Err(Web3Error::LogsLimitExceeded(_, _, _)),
    ensures
        filter_changes_outcome(store, m, id, limit) == (
            Err::<ChangesView, Web3Error>(Web3Error::FilterNotFound),
            m.remove(id),
        ),
        filter_changes_outcome(later, m.remove(id), id, limit).0 == Err::<ChangesView, Web3Error>(
            Web3Error::FilterNotFound,
        ),
{
}

/// A log query whose range is one block never fails for the entity limit, however many
/// logs match: with at most four topic positions it reports them all.
pub proof fn lemma_single_block_query_is_not_limited(
    store: ChainStore,
    f: Filter,
    b: u64,
    limit: usize,
)
    ensures
        !(query_logs_spec(store, f, b, b, limit) is Err && query_logs_spec(
            store,
            f,
            b,
            b,
            limit,
        )->Err_0 is LogsLimitExceeded),
        topic_count(f) <= 4 ==> query_logs_spec(store, f, b, b, limit) == Ok::<
            Seq<LogView>,
            Web3Error,
        >(matching_logs(store, f, b, b)),
{
}

/// The same for `getLogs`: a filter whose range resolves to one block is never refused for
/// the entity limit.
pub proof fn lemma_single_block_get_logs_is_not_limited(store: ChainStore, f: Filter, limit: usize)
    requires
        resolve_filter_block_hash_spec(store, f) matches Ok(g) && filter_bound_value(
            store.tip(),
            g.from_block,
        ) == filter_bound_value(store.tip(), g.to_block),
    ensures
        !(get_logs_spec(store, f, limit) matches Err(Web3Error::LogsLimitExceeded(_, _, _))),
{
}

proof fn lemma_pending_after_later(s: Seq<PendingTx>, ts: i64)
    ensures
        forall|i: int|
            0 <= i < pending_after_spec(s, ts).len() ==> (#[trigger] pending_after_spec(
                s,
                ts,
            )[i]).received_at > ts,
    decreases s.len(),
{
    if s.len() > 0 {
        lemma_pending_after_later(s.drop_last(), ts);
        let r = pending_after_spec(s, ts);
        let q = pending_after_spec(s.drop_last(), ts);
        assert forall|i: int| 0 <= i < r.len() implies (#[trigger] r[i]).received_at > ts by {
            if i < q.len() {
                assert(r[i] == q[i]);
            }
        }
    }
}

/// The position of a filter's cursor: a block number or a receive time.
pub open spec fn cursor_of(f: TypedFilter) -> int {
    match f {
        TypedFilter::Blocks(c) => c as int,
        TypedFilter::Events(_, c) => c as int,
        TypedFilter::PendingTransactions(t) => t as int,
    }
}

/// A poll replaces a filter with one of the same kind (an event filter keeps its address and
/// topic sets and its bounds) whose cursor is not behind the old one.
pub proof fn lemma_poll_cursor_advances(store: ChainStore, f: TypedFilter, limit: usize)
    requires
        store.wf(),
    ensures
        poll_spec(store, f, limit) matches Ok((_, nf)) ==> {
            &&& cursor_of(nf) >= cursor_of(f)
            &&& match (f, nf) {
                (TypedFilter::Blocks(_), TypedFilter::Blocks(_)) => true,
                (TypedFilter::PendingTransactions(_), TypedFilter::PendingTransactions(_)) => true,
                (TypedFilter::Events(a, _), TypedFilter::Events(b, _)) => a == b,
                _ => false,
            }
        },
{
    match f {
        TypedFilter::Blocks(c) => {},
        TypedFilter::PendingTransactions(ts) => {
            lemma_pending_after_later(store.pending_txs@, ts);
            let all = pending_after_spec(store.pending_txs@, ts);
            let chosen = pending_poll_spec(store, ts, limit);
            if chosen.len() > 0 {
                assert(chosen.last() == all[chosen.len() - 1]);
            }
        },
        TypedFilter::Events(fl, c) => {
            let to = filter_bound_value(store.tip(), fl.to_block);
            lemma_select_elements(fl, next_block(c), to, log_views(store.logs@));
        },
    }
}

} // verus!
