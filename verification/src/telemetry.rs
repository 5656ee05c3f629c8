//! What the telemetry writer does with a batch of queued writes: the request counters are
//! summed per server before they reach the database, the request details go in one by one.

use vstd::prelude::*;
use crate::db::{ProxyRequestDetailWrite, RequestStatKind};

verus! {

/// One queued telemetry write.
pub enum TelemetryWrite {
    RequestStat { server_id: String, server_name: String, port: u16, kind: RequestStatKind },
    ProxyRequestDetail(ProxyRequestDetailWrite),
}

/// The counters that a batch adds to one server's row of the day, with the name and port of
/// the server as its last counted request gave them.
#[derive(Debug)]
pub struct StatDelta {
    pub server_id: String,
    pub server_name: String,
    pub port: u16,
    pub requests: i64,
    pub redirects: i64,
    pub cache_hits: i64,
    pub blocks: i64,
    pub errors: i64,
}

/// The server id, name, port and kind of a counted request; nothing for a request detail.
pub open spec fn stat_of(w: TelemetryWrite) -> Option<(Seq<char>, Seq<char>, u16, RequestStatKind)> {
    match w {
        TelemetryWrite::RequestStat { server_id, server_name, port, kind } => Some(
            (server_id@, server_name@, port, kind),
        ),
        TelemetryWrite::ProxyRequestDetail(_) => None,
    }
}

/// How many of the writes count a request of kind `k` for server `id`.
pub open spec fn kind_count(s: Seq<TelemetryWrite>, id: Seq<char>, k: RequestStatKind) -> int
    decreases s.len(),
{
    if s.len() == 0 {
        0
    } else {
        kind_count(s.drop_last(), id, k) + match stat_of(s.last()) {
            Some(st) => if st.0 == id && st.3 == k {
                1int
            } else {
                0int
            },
            None => 0int,
        }
    }
}

/// The name and port that the last counted request of server `id` carries.
pub open spec fn last_label(s: Seq<TelemetryWrite>, id: Seq<char>) -> (Seq<char>, u16)
    decreases s.len(),
{
    if s.len() == 0 {
        (Seq::empty(), 0u16)
    } else {
        match stat_of(s.last()) {
            Some(st) => if st.0 == id {
                (st.1, st.2)
            } else {
                last_label(s.drop_last(), id)
            },
            None => last_label(s.drop_last(), id),
        }
    }
}

/// The servers that the writes count requests for, each once, in the order of their first
/// counted request.
pub open spec fn stat_ids(s: Seq<TelemetryWrite>) -> Seq<Seq<char>>
    decreases s.len(),
{
    if s.len() == 0 {
        Seq::empty()
    } else {
        let p = stat_ids(s.drop_last());
        match stat_of(s.last()) {
            Some(st) => if p.contains(st.0) {
                p
            } else {
                p.push(st.0)
            },
            None => p,
        }
    }
}

/// `d` holds what the writes add up to for its server.
pub open spec fn sums_up(d: StatDelta, s: Seq<TelemetryWrite>) -> bool {
    let id = d.server_id@;
    &&& d.server_name@ == last_label(s, id).0
    &&& d.port == last_label(s, id).1
    &&& d.requests == kind_count(s, id, RequestStatKind::Request)
    &&& d.redirects == kind_count(s, id, RequestStatKind::Redirect)
    &&& d.cache_hits == kind_count(s, id, RequestStatKind::CacheHit)
    &&& d.blocks == kind_count(s, id, RequestStatKind::Block)
    &&& d.errors == kind_count(s, id, RequestStatKind::Error)
}

proof fn lemma_count_bounded(s: Seq<TelemetryWrite>, id: Seq<char>, k: RequestStatKind)
    ensures
        0 <= kind_count(s, id, k) <= s.len(),
    decreases s.len(),
{
    if s.len() > 0 {
        lemma_count_bounded(s.drop_last(), id, k);
    }
}

proof fn lemma_absent_not_counted(s: Seq<TelemetryWrite>, id: Seq<char>, k: RequestStatKind)
    requires
        !stat_ids(s).contains(id),
    ensures
        kind_count(s, id, k) == 0,
    decreases s.len(),
{
    if s.len() > 0 {
        let p = stat_ids(s.drop_last());
        if p.contains(id) {
            match stat_of(s.last()) {
                Some(st) => {
                    if !p.contains(st.0) {
                        assert(stat_ids(s) == p.push(st.0));
                        let j = choose|j: int| 0 <= j < p.len() && p[j] == id;
                        assert(stat_ids(s)[j] == id);
                    }
                },
                None => {},
            }
            assert(false);
        }
        lemma_absent_not_counted(s.drop_last(), id, k);
        match stat_of(s.last()) {
            Some(st) => {
                if st.0 == id {
                    assert(stat_ids(s) == p.push(st.0));
                    assert(stat_ids(s)[p.len() as int] == id);
                }
            },
            None => {},
        }
    }
}

proof fn lemma_ids_distinct(s: Seq<TelemetryWrite>)
    ensures
        stat_ids(s).no_duplicates(),
    decreases s.len(),
{
    if s.len() > 0 {
        lemma_ids_distinct(s.drop_last());
    }
}

fn same_text(a: &String, b: &String) -> (r: bool)
    ensures
        r == (a@ == b@),
{
    crate::strmap::str_eq(a.as_str(), b.as_str())
}

fn add_kind(d: &StatDelta, name: &String, port: u16, kind: RequestStatKind) -> (r: StatDelta)
    requires
        d.requests < i64::MAX,
        d.redirects < i64::MAX,
        d.cache_hits < i64::MAX,
        d.blocks < i64::MAX,
        d.errors < i64::MAX,
    ensures
        r.server_id@ == d.server_id@,
        r.server_name@ == name@,
        r.port == port,
        r.requests == d.requests + if kind == RequestStatKind::Request { 1int } else { 0int },
        r.redirects == d.redirects + if kind == RequestStatKind::Redirect { 1int } else { 0int },
        r.cache_hits == d.cache_hits + if kind == RequestStatKind::CacheHit { 1int } else { 0int },
        r.blocks == d.blocks + if kind == RequestStatKind::Block { 1int } else { 0int },
        r.errors == d.errors + if kind == RequestStatKind::Error { 1int } else { 0int },
{
    let delta = kind.delta();
    StatDelta {
        server_id: d.server_id.clone(),
        server_name: name.clone(),
        port,
        requests: d.requests + delta.0,
        redirects: d.redirects + delta.1,
        cache_hits: d.cache_hits + delta.2,
        blocks: d.blocks + delta.3,
        errors: d.errors + delta.4,
    }
}

/// The counters that a batch adds, one entry per server that it counts requests for, in the
/// order of each server's first counted request. Request details count for nothing here.
pub fn aggregate_request_stats(writes: &[TelemetryWrite]) -> (r: Vec<StatDelta>)
    requires
        writes@.len() <= i64::MAX,
    ensures
        r@.len() == stat_ids(writes@).len(),
        forall|j: int|
            0 <= j < r@.len() ==> #[trigger] r@[j].server_id@ == stat_ids(writes@)[j] && sums_up(
                r@[j],
                writes@,
            ),
{
    let mut out: Vec<StatDelta> = Vec::new();
    let mut i: usize = 0;
    while i < writes.len()
        invariant
            i <= writes@.len(),
            writes@.len() <= i64::MAX,
            out@.len() == stat_ids(writes@.take(i as int)).len(),
            forall|j: int|
                0 <= j < out@.len() ==> #[trigger] out@[j].server_id@ == stat_ids(
                    writes@.take(i as int),
                )[j] && sums_up(out@[j], writes@.take(i as int)),
        decreases writes@.len() - i,
    {
        let ghost pre = writes@.take(i as int);
        let ghost post = writes@.take(i + 1);
        proof {
            assert(post.drop_last() =~= pre);
            assert(post.last() == writes@[i as int]);
            lemma_ids_distinct(pre);
        }
        match &writes[i] {
            TelemetryWrite::RequestStat { server_id, server_name, port, kind } => {
                let mut j: usize = 0;
                let mut found = false;
                while j < out.len()
                    invariant_except_break
                        !found,
                    invariant
                        j <= out@.len(),
                        found ==> j < out@.len() && out@[j as int].server_id@ == server_id@,
                        !found ==> forall|k: int| 0 <= k < j ==> out@[k].server_id@ != server_id@,
                    ensures
                        found ==> j < out@.len() && out@[j as int].server_id@ == server_id@,
                        !found ==> forall|k: int|
                            0 <= k < out@.len() ==> out@[k].server_id@ != server_id@,
                    decreases out@.len() - j,
                {
                    if same_text(&out[j].server_id, server_id) {
                        found = true;
                        break;
                    }
                    j = j + 1;
                }
                if found {
                    proof {
                        assert(stat_ids(pre)[j as int] == server_id@);
                        assert(stat_ids(pre).contains(server_id@));
                        assert(stat_ids(post) == stat_ids(pre));
                        lemma_count_bounded(pre, server_id@, RequestStatKind::Request);
                        lemma_count_bounded(pre, server_id@, RequestStatKind::Redirect);
                        lemma_count_bounded(pre, server_id@, RequestStatKind::CacheHit);
                        lemma_count_bounded(pre, server_id@, RequestStatKind::Block);
                        lemma_count_bounded(pre, server_id@, RequestStatKind::Error);
                        assert(sums_up(out@[j as int], pre));
                    }
                    let updated = add_kind(&out[j], server_name, *port, *kind);
                    out.set(j, updated);
                    proof {
                        assert forall|k: int| 0 <= k < out@.len() implies #[trigger] out@[k].server_id@
                            == stat_ids(post)[k] && sums_up(out@[k], post) by {
                            if k != j {
                                assert(stat_ids(pre)[k] != stat_ids(pre)[j as int]);
                            }
                        }
                    }
                } else {
                    proof {
                        if stat_ids(pre).contains(server_id@) {
                            let k = choose|k: int|
                                0 <= k < stat_ids(pre).len() && stat_ids(pre)[k] == server_id@;
                            assert(out@[k].server_id@ == server_id@);
                        }
                        assert(stat_ids(post) == stat_ids(pre).push(server_id@));
                        lemma_absent_not_counted(pre, server_id@, RequestStatKind::Request);
                        lemma_absent_not_counted(pre, server_id@, RequestStatKind::Redirect);
                        lemma_absent_not_counted(pre, server_id@, RequestStatKind::CacheHit);
                        lemma_absent_not_counted(pre, server_id@, RequestStatKind::Block);
                        lemma_absent_not_counted(pre, server_id@, RequestStatKind::Error);
                    }
                    let empty = StatDelta {
                        server_id: server_id.clone(),
                        server_name: server_name.clone(),
                        port: *port,
                        requests: 0,
                        redirects: 0,
                        cache_hits: 0,
                        blocks: 0,
                        errors: 0,
                    };
                    let fresh = add_kind(&empty, server_name, *port, *kind);
                    out.push(fresh);
                    proof {
                        assert forall|k: int| 0 <= k < out@.len() implies #[trigger] out@[k].server_id@
                            == stat_ids(post)[k] && sums_up(out@[k], post) by {
                            if k < out@.len() - 1 {
                                assert(stat_ids(pre)[k] != server_id@);
                            }
                        }
                    }
                }
            },
            TelemetryWrite::ProxyRequestDetail(_) => {
                proof {
                    assert(stat_ids(post) == stat_ids(pre));
                    assert forall|k: int| 0 <= k < out@.len() implies #[trigger] out@[k].server_id@
                        == stat_ids(post)[k] && sums_up(out@[k], post) by {
                        assert(sums_up(out@[k], pre));
                    }
                }
            },
        }
        i = i + 1;
    }
    proof {
        assert(writes@.take(writes@.len() as int) =~= writes@);
    }
    out
}


/// What the writer's queue gives it while it fills a batch.
#[derive(Debug, Clone, Copy, PartialEq, Eq, Structural)]
pub enum QueueEvent {
    Write,
    Shutdown,
    Empty,
}

/// What the writer does next.
#[derive(Debug, Clone, Copy, PartialEq, Eq, Structural)]
pub enum BatchAction {
    /// Take the write into the batch and ask the queue again.
    Collect,
    /// Take the write, if there is one, and store the batch.
    Flush,
    /// Store the batch and stop.
    FlushAndStop,
}

/// With `len` writes in the batch, what the writer does with what the queue gave it: a
/// write is taken and the queue asked again until the batch holds
/// `TELEMETRY_WRITE_BATCH_SIZE` writes; an empty queue ends the batch; a shutdown ends the
/// batch and the writer.
pub fn after_event(len: usize, event: QueueEvent) -> (r: BatchAction)
    requires
        len < crate::db::TELEMETRY_WRITE_BATCH_SIZE,
    ensures
        r == match event {
            QueueEvent::Write => if len + 1 < crate::db::TELEMETRY_WRITE_BATCH_SIZE {
                BatchAction::Collect
            } else {
                BatchAction::Flush
            },
            QueueEvent::Shutdown => BatchAction::FlushAndStop,
            QueueEvent::Empty => BatchAction::Flush,
        },
{
    match event {
        QueueEvent::Write => if len + 1 < crate::db::TELEMETRY_WRITE_BATCH_SIZE {
            BatchAction::Collect
        } else {
            BatchAction::Flush
        },
        QueueEvent::Shutdown => BatchAction::FlushAndStop,
        QueueEvent::Empty => BatchAction::Flush,
    }
}

/// How handing a write to the queue went.
#[derive(Debug, Clone, Copy, PartialEq, Eq, Structural)]
pub enum SendOutcome {
    Sent,
    Full,
    Disconnected,
}

/// Why a write is dropped, if it is: the writer is shutting down, the queue is full, or the
/// writer has stopped. A write that was sent is not dropped.
pub fn drop_reason(closing: bool, outcome: SendOutcome) -> (r: Option<&'static str>)
    ensures
        closing ==> r == Some("writer shutting down"),
        !closing ==> r == match outcome {
            SendOutcome::Sent => None,
            SendOutcome::Full => Some("queue full"),
            SendOutcome::Disconnected => Some("writer stopped"),
        },
{
    if closing {
        return Some("writer shutting down");
    }
    match outcome {
        SendOutcome::Sent => None,
        SendOutcome::Full => Some("queue full"),
        SendOutcome::Disconnected => Some("writer stopped"),
    }
}

} // verus!
