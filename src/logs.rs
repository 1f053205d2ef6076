use vstd::prelude::*;
use crate::store::{ChainStore, logs_ordered, log_before};
use crate::types::{Address, Filter, H256, Log, LogView, Web3Error, log_views};

verus! {

/// The most topic positions a filter may constrain.
pub const EVENT_TOPIC_NUMBER_LIMIT: usize = 4;

/// The number of topic positions that the filter lists.
pub open spec fn topic_count(f: Filter) -> nat {
    match f.topics {
        None => 0,
        Some(t) => t@.len(),
    }
}

/// The address of a log is accepted: no address set, an empty one, or one that holds it.
pub open spec fn address_accepted(f: Filter, a: Address) -> bool {
    match f.address {
        None => true,
        Some(v) => v@.len() == 0 || v@.contains(a),
    }
}

/// Each constrained topic position `i` of the filter holds the log's topic at `i`.
pub open spec fn topics_accepted(f: Filter, t: Seq<H256>) -> bool {
    match f.topics {
        None => true,
        Some(ts) => forall|i: int|
            0 <= i < ts@.len() && (#[trigger] ts@[i]) is Some ==> i < t.len() && ts@[i]->Some_0@.contains(
                t[i],
            ),
    }
}

/// The log lies in blocks `from..=to` and passes the filter's address and topic sets.
pub open spec fn log_matches(f: Filter, from: u64, to: u64, l: LogView) -> bool {
    &&& from <= l.block_number <= to
    &&& address_accepted(f, l.address)
    &&& topics_accepted(f, l.topics)
}

/// The logs of `s` that match, in the order of `s`.
pub open spec fn select_logs(f: Filter, from: u64, to: u64, s: Seq<LogView>) -> Seq<LogView>
    decreases s.len(),
{
    if s.len() == 0 {
        Seq::empty()
    } else {
        let rest = select_logs(f, from, to, s.drop_last());
        if log_matches(f, from, to, s.last()) {
            rest.push(s.last())
        } else {
            rest
        }
    }
}

/// The logs of the store that the filter selects in blocks `from..=to`, in store order.
pub open spec fn matching_logs(store: ChainStore, f: Filter, from: u64, to: u64) -> Seq<LogView> {
    select_logs(f, from, to, log_views(store.logs@))
}

/// The block that is safe to ask for when the log at `b` would cross the limit.
pub open spec fn safe_block_before(b: u64) -> u64 {
    if b == 0 {
        0
    } else {
        (b - 1) as u64
    }
}

/// What a log query over `from..=to` with the given entity limit answers.
/// A range of more than one block whose matching logs exceed the limit is refused, naming
/// the block before the one that holds the first log past the limit.
pub open spec fn query_logs_spec(
    store: ChainStore,
    f: Filter,
    from: u64,
    to: u64,
    limit: usize,
) -> Result<Seq<LogView>, Web3Error> {
    let m = matching_logs(store, f, from, to);
    if topic_count(f) > EVENT_TOPIC_NUMBER_LIMIT {
        Err(Web3Error::TooManyTopics)
    } else if from != to && m.len() > limit {
        Err(Web3Error::LogsLimitExceeded(limit, from, safe_block_before(m[limit as int].block_number)))
    } else {
        Ok(m)
    }
}

/// A selection is no longer than its source, holds only logs of the source, and only
/// logs that match.
pub proof fn lemma_select_elements(f: Filter, from: u64, to: u64, s: Seq<LogView>)
    ensures
        select_logs(f, from, to, s).len() <= s.len(),
        forall|i: int|
            0 <= i < select_logs(f, from, to, s).len() ==> exists|k: int|
                0 <= k < s.len() && s[k] == #[trigger] select_logs(f, from, to, s)[i],
        forall|i: int|
            0 <= i < select_logs(f, from, to, s).len() ==> log_matches(
                f,
                from,
                to,
                #[trigger] select_logs(f, from, to, s)[i],
            ),
    decreases s.len(),
{
    if s.len() > 0 {
        let p = s.drop_last();
        lemma_select_elements(f, from, to, p);
        let r = select_logs(f, from, to, s);
        let q = select_logs(f, from, to, p);
        assert forall|i: int| 0 <= i < r.len() implies exists|k: int|
            0 <= k < s.len() && s[k] == #[trigger] r[i] by {
            if i < q.len() {
                let k = choose|k: int| 0 <= k < p.len() && p[k] == q[i];
                assert(s[k] == r[i]);
            } else {
                assert(s[s.len() - 1] == r[i]);
            }
        }
    }
}

/// A selection from logs in store order is itself in store order.
pub proof fn lemma_select_ordered(f: Filter, from: u64, to: u64, s: Seq<LogView>)
    requires
        logs_ordered(s),
    ensures
        logs_ordered(select_logs(f, from, to, s)),
    decreases s.len(),
{
    if s.len() > 0 {
        let p = s.drop_last();
        assert(logs_ordered(p)) by {
            assert forall|i: int, j: int| 0 <= i < j < p.len() implies log_before(
                #[trigger] p[i],
                #[trigger] p[j],
            ) by {
                assert(p[i] == s[i] && p[j] == s[j]);
            }
        }
        lemma_select_ordered(f, from, to, p);
        lemma_select_elements(f, from, to, p);
        let q = select_logs(f, from, to, p);
        if log_matches(f, from, to, s.last()) {
            let r = q.push(s.last());
            assert forall|i: int, j: int| 0 <= i < j < r.len() implies log_before(
                #[trigger] r[i],
                #[trigger] r[j],
            ) by {
                if j < q.len() {
                    assert(r[i] == q[i] && r[j] == q[j]);
                } else {
                    assert(r[i] == q[i]);
                    let k = choose|k: int| 0 <= k < p.len() && p[k] == q[i];
                    assert(s[k] == r[i]);
                    assert(s[s.len() - 1] == r[j]);
                }
            }
        }
    }
}

proof fn lemma_select_prefix(f: Filter, from: u64, to: u64, s: Seq<LogView>, k: int)
    requires
        0 <= k <= s.len(),
    ensures
        select_logs(f, from, to, s.take(k)).len() <= select_logs(f, from, to, s).len(),
        select_logs(f, from, to, s.take(k)) == select_logs(f, from, to, s).take(
            select_logs(f, from, to, s.take(k)).len() as int,
        ),
    decreases s.len(),
{
    if k == s.len() {
        assert(s.take(k) =~= s);
        assert(select_logs(f, from, to, s).take(select_logs(f, from, to, s).len() as int)
            =~= select_logs(f, from, to, s));
    } else {
        let p = s.drop_last();
        assert(p.take(k) =~= s.take(k));
        lemma_select_prefix(f, from, to, p, k);
        let q = select_logs(f, from, to, p);
        let a = select_logs(f, from, to, s.take(k));
        if log_matches(f, from, to, s.last()) {
            assert(q.push(s.last()).take(a.len() as int) =~= q.take(a.len() as int));
        }
    }
}

/// The block of the matching log at position `n` (counting from 0), if there are more than
/// `n`: the block that holds the first log past a limit of `n`. It counts without keeping
/// the logs.
pub fn nth_matching_block(store: &ChainStore, f: &Filter, from: u64, to: u64, n: usize) -> (r:
    Option<u64>)
    ensures
        r == if matching_logs(*store, *f, from, to).len() > n {
            Some(matching_logs(*store, *f, from, to)[n as int].block_number)
        } else {
            None::<u64>
        },
{
    let ghost all = log_views(store.logs@);
    let mut count: usize = 0;
    let mut i: usize = 0;
    while i < store.logs.len()
        invariant
            i <= store.logs@.len(),
            all == log_views(store.logs@),
            count == select_logs(*f, from, to, all.take(i as int)).len(),
            count <= n,
        decreases store.logs@.len() - i,
    {
        let ghost before = all.take(i as int);
        let ghost after = all.take(i + 1);
        assert(after.drop_last() =~= before);
        assert(after.last() == store.logs@[i as int]@);
        if matches_filter(f, from, to, &store.logs[i]) {
            if count == n {
                proof {
                    let sel = select_logs(*f, from, to, after);
                    assert(sel == select_logs(*f, from, to, before).push(after.last()));
                    assert(sel[n as int] == store.logs@[i as int]@);
                    lemma_select_prefix(*f, from, to, all, i + 1);
                    assert(select_logs(*f, from, to, all).take(n + 1)[n as int] == sel[n as int]);
                }
                return Some(store.logs[i].block_number);
            }
            count = count + 1;
        }
        i = i + 1;
    }
    proof {
        assert(all.take(i as int) =~= all);
    }
    None
}

fn contains_address(v: &Vec<Address>, a: Address) -> (r: bool)
    ensures
        r == v@.contains(a),
{
    let mut i: usize = 0;
    while i < v.len()
        invariant
            i <= v@.len(),
            forall|k: int| 0 <= k < i ==> v@[k] != a,
        decreases v@.len() - i,
    {
        if v[i] == a {
            assert(v@[i as int] == a);
            return true;
        }
        i = i + 1;
    }
    false
}

fn contains_hash(v: &Vec<H256>, h: H256) -> (r: bool)
    ensures
        r == v@.contains(h),
{
    let mut i: usize = 0;
    while i < v.len()
        invariant
            i <= v@.len(),
            forall|k: int| 0 <= k < i ==> v@[k] != h,
        decreases v@.len() - i,
    {
        if v[i] == h {
            assert(v@[i as int] == h);
            return true;
        }
        i = i + 1;
    }
    false
}

/// Decides `log_matches` for one log.
pub fn matches_filter(f: &Filter, from: u64, to: u64, l: &Log) -> (r: bool)
    ensures
        r == log_matches(*f, from, to, l@),
{
    if l.block_number < from || l.block_number > to {
        return false;
    }
    let address_ok = match &f.address {
        None => true,
        Some(v) => v.len() == 0 || contains_address(v, l.address),
    };
    if !address_ok {
        return false;
    }
    match &f.topics {
        None => true,
        Some(ts) => {
            let mut i: usize = 0;
            while i < ts.len()
                invariant
                    f.topics == Some(*ts),
                    log_matches(*f, from, to, l@) <==> topics_accepted(*f, l@.topics),
                    i <= ts@.len(),
                    forall|k: int|
                        0 <= k < i && (#[trigger] ts@[k]) is Some ==> k < l.topics@.len()
                            && ts@[k]->Some_0@.contains(l.topics@[k]),
                decreases ts@.len() - i,
            {
                match &ts[i] {
                    None => {},
                    Some(set) => {
                        if i >= l.topics.len() {
                            assert(ts@[i as int] is Some);
                            return false;
                        }
                        if !contains_hash(set, l.topics[i]) {
                            assert(ts@[i as int] is Some);
                            return false;
                        }
                    },
                }
                i = i + 1;
            }
            true
        },
    }
}

/// The logs of the store in `from..=to` that the filter selects, in store order.
pub fn collect_matching_logs(store: &ChainStore, f: &Filter, from: u64, to: u64) -> (r: Vec<Log>)
    ensures
        log_views(r@) == matching_logs(*store, *f, from, to),
{
    let mut r: Vec<Log> = Vec::new();
    let mut i: usize = 0;
    while i < store.logs.len()
        invariant
            i <= store.logs@.len(),
            log_views(r@) == select_logs(*f, from, to, log_views(store.logs@).take(i as int)),
        decreases store.logs@.len() - i,
    {
        let ghost before = log_views(store.logs@).take(i as int);
        let ghost after = log_views(store.logs@).take(i + 1);
        assert(after.drop_last() =~= before);
        assert(after.last() == store.logs@[i as int]@);
        if matches_filter(f, from, to, &store.logs[i]) {
            let l = store.logs[i].duplicate();
            let ghost old_r = r@;
            r.push(l);
            assert(log_views(r@) =~= log_views(old_r).push(l@));
        }
        i = i + 1;
    }
    assert(log_views(store.logs@).take(store.logs@.len() as int) =~= log_views(store.logs@));
    r
}

/// A log query over blocks `from..=to`: more than four topic positions is `TooManyTopics`;
/// over a range of more than one block, more matching logs than `limit` is
/// `LogsLimitExceeded`, found before any log is copied; otherwise the matching logs in
/// store order.
pub fn query_logs(store: &ChainStore, f: &Filter, from: u64, to: u64, limit: usize) -> (r: Result<
    Vec<Log>,
    Web3Error,
>)
    ensures
        match (r, query_logs_spec(*store, *f, from, to, limit)) {
            (Ok(v), Ok(s)) => log_views(v@) == s,
            (Err(e), Err(e2)) => e == e2,
            _ => false,
        },
{
    if let Some(t) = &f.topics {
        if t.len() > EVENT_TOPIC_NUMBER_LIMIT {
            return Err(Web3Error::TooManyTopics);
        }
    }
    if from != to {
        if let Some(b) = nth_matching_block(store, f, from, to, limit) {
            let safe = if b == 0 {
                0
            } else {
                b - 1
            };
            return Err(Web3Error::LogsLimitExceeded(limit, from, safe));
        }
    }
    Ok(collect_matching_logs(store, f, from, to))
}

} // verus!
