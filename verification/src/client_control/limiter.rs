//! The in-memory side of the playback rate and concurrency limits: sliding windows of
//! playback requests, recently seen playback events and the runtime ban tables, with the
//! decisions each request gets.

use std::collections::VecDeque;
use vstd::prelude::*;
use vstd::string::StringExecFns;
use crate::client_control::{PlaybackRateHit, PLAYBACK_RATE_RECENT_EVENT_TTL_SECONDS, PLAYBACK_RATE_STATE_CAPACITY};
use crate::client_control::blocks::{
    block_active, lemma_active_keeps, lemma_pruned_blocks, lemma_upsert_blocks, block_matches,
    active_blocks, lemma_active_len, block_note_spec, concurrent_limit_block_note, concurrent_note_spec, is_client_id, rate_limit_block_note, upsert_blocks,
    upsert_rate_limit_block_with_note, block_views, blocked_until_of, blocked_until_value, make_room_for_rate_state,
    prune_inactive_rate_limit_blocks, pruned_blocks, rate_limit_subject, rate_subject_spec,
    same_but_blocks, server_ip_key, server_ip_key_spec, server_user_key, server_user_key_spec,
};
use crate::client_control::sessions::{
    active_session_count, at_least_one, count_active_playback_sessions,
    effective_concurrent_playback_limit, effective_limit_spec,
};
use crate::emby::PlaybackSession;
use crate::users_api::UserPolicyRecord;
use crate::client_control::{
    action_blocks_ip, action_blocks_ip_spec, action_disables_user, action_disables_user_spec,
    action_requires_user, action_requires_user_spec, action_uses_user_key, normalize_action_spec,
    normalize_playback_rate_limit_action,
    action_uses_user_key_spec, BlockView, ClientControlConfig, PlaybackRateBlockRecord,
};
use crate::strmap::str_eq;
use crate::text::{decimal, lemma_decimal_parses, chars_eq_ignore_case, chars_eq_str, chars_of, eq_ignore_case, string_of, trim, trimmed};
use crate::strmap::StrMap;

verus! {

/// The runtime tables of the limits, each keyed by text.
pub struct RateLimitState {
    /// Playback requests of each subject, oldest first.
    pub hits: StrMap<VecDeque<PlaybackRateHit>>,
    /// When each playback event was last seen.
    pub recent_events: StrMap<u64>,
    /// Expiry of each user ban.
    pub bans: StrMap<u64>,
    /// Expiry of each IP ban.
    pub ip_bans: StrMap<u64>,
}

/// The contents of the runtime tables.
pub struct RateTables {
    pub hits: Map<Seq<char>, Seq<PlaybackRateHit>>,
    pub recent: Map<Seq<char>, u64>,
    pub bans: Map<Seq<char>, u64>,
    pub ip_bans: Map<Seq<char>, u64>,
}

pub open spec fn deque_views(m: Map<Seq<char>, VecDeque<PlaybackRateHit>>) -> Map<
    Seq<char>,
    Seq<PlaybackRateHit>,
> {
    Map::new(|k: Seq<char>| m.dom().contains(k), |k: Seq<char>| m[k]@)
}

impl View for RateLimitState {
    type V = RateTables;

    open spec fn view(&self) -> RateTables {
        RateTables {
            hits: deque_views(self.hits@),
            recent: self.recent_events@,
            bans: self.bans@,
            ip_bans: self.ip_bans@,
        }
    }
}

impl RateLimitState {
    /// Every table is well formed and holds at most the capacity of entries.
    pub open spec fn wf(self) -> bool {
        &&& self.hits.wf()
        &&& self.hits.spec_len() <= PLAYBACK_RATE_STATE_CAPACITY
        &&& self.recent_events.wf()
        &&& self.recent_events.spec_len() <= PLAYBACK_RATE_STATE_CAPACITY
        &&& self.bans.wf()
        &&& self.bans.spec_len() <= PLAYBACK_RATE_STATE_CAPACITY
        &&& self.ip_bans.wf()
        &&& self.ip_bans.spec_len() <= PLAYBACK_RATE_STATE_CAPACITY
    }

    /// Empty tables.
    pub fn new() -> (s: Self)
        ensures
            s.wf(),
            s@.hits == Map::<Seq<char>, Seq<PlaybackRateHit>>::empty(),
            s@.recent == Map::<Seq<char>, u64>::empty(),
            s@.bans == Map::<Seq<char>, u64>::empty(),
            s@.ip_bans == Map::<Seq<char>, u64>::empty(),
    {
        let s = RateLimitState {
            hits: StrMap::new(),
            recent_events: StrMap::new(),
            bans: StrMap::new(),
            ip_bans: StrMap::new(),
        };
        assert(deque_views(s.hits@) =~= Map::<Seq<char>, Seq<PlaybackRateHit>>::empty());
        s
    }
}

/// The oldest requests that fell out of the window are dropped from the front.
pub open spec fn window_hits(q: Seq<PlaybackRateHit>, now: u64, window: u64) -> Seq<PlaybackRateHit>
    decreases q.len(),
{
    if q.len() > 0 && sat_sub(now, q[0].timestamp) >= window {
        window_hits(q.drop_first(), now, window)
    } else {
        q
    }
}

/// The requests are in the order they came: timestamps never go down.
pub open spec fn hits_in_time_order(q: Seq<PlaybackRateHit>) -> bool {
    forall|i: int, j: int| 0 <= i < j < q.len() ==> (#[trigger] q[i]).timestamp <= (#[trigger] q[j]).timestamp
}

/// The sliding window of a time-ordered queue is exactly its requests made less than
/// `window` seconds before `now` (`now - t < window`, saturating): the older ones, all at
/// its front, are gone, and every recent one stays, in order. So only requests inside the
/// window count against the limit.
pub proof fn lemma_window_holds_exactly_recent_hits(q: Seq<PlaybackRateHit>, now: u64, window: u64)
    requires
        hits_in_time_order(q),
    ensures
        exists|d: int|
            0 <= d <= q.len() && window_hits(q, now, window) == q.skip(d) && (forall|i: int|
                0 <= i < d ==> sat_sub(now, (#[trigger] q[i]).timestamp) >= window) && (forall|i: int|
                d <= i < q.len() ==> sat_sub(now, (#[trigger] q[i]).timestamp) < window),
        forall|h: PlaybackRateHit| #[trigger] window_hits(q, now, window).contains(h) ==> sat_sub(now, h.timestamp)
            < window,
        forall|i: int| 0 <= i < q.len() && sat_sub(now, (#[trigger] q[i]).timestamp) < window
            ==> window_hits(q, now, window).contains(q[i]),
    decreases q.len(),
{
    if q.len() > 0 && sat_sub(now, q[0].timestamp) >= window {
        let t = q.drop_first();
        assert(hits_in_time_order(t)) by {
            assert forall|i: int, j: int| 0 <= i < j < t.len() implies (#[trigger] t[i]).timestamp
                <= (#[trigger] t[j]).timestamp by {
                assert(t[i] == q[i + 1] && t[j] == q[j + 1]);
            }
        }
        lemma_window_holds_exactly_recent_hits(t, now, window);
        let d0 = choose|d: int|
            0 <= d <= t.len() && window_hits(t, now, window) == t.skip(d) && (forall|i: int|
                0 <= i < d ==> sat_sub(now, (#[trigger] t[i]).timestamp) >= window) && (forall|i: int|
                d <= i < t.len() ==> sat_sub(now, (#[trigger] t[i]).timestamp) < window);
        let d = d0 + 1;
        assert(t.skip(d0) =~= q.skip(d));
        assert forall|i: int| 0 <= i < d implies sat_sub(now, (#[trigger] q[i]).timestamp) >= window by {
            if i > 0 {
                assert(q[i] == t[i - 1]);
            }
        }
        assert forall|i: int| d <= i < q.len() implies sat_sub(now, (#[trigger] q[i]).timestamp) < window by {
            assert(q[i] == t[i - 1]);
        }
        assert forall|i: int| 0 <= i < q.len() && sat_sub(now, (#[trigger] q[i]).timestamp) < window implies
            window_hits(q, now, window).contains(q[i]) by {
            assert(i >= 1);
            assert(q[i] == t[i - 1]);
        }
    } else {
        assert(q.skip(0) =~= q);
        assert forall|i: int| 0 <= i < q.len() implies sat_sub(now, (#[trigger] q[i]).timestamp) < window by {
            if i > 0 {
                assert(q[0].timestamp <= q[i].timestamp);
            }
        }
        assert forall|i: int| 0 <= i < q.len() && sat_sub(now, (#[trigger] q[i]).timestamp) < window implies
            window_hits(q, now, window).contains(q[i]) by {
            assert(window_hits(q, now, window)[i] == q[i]);
        }
    }
    assert forall|h: PlaybackRateHit| #[trigger] window_hits(q, now, window).contains(h) implies sat_sub(now,
        h.timestamp) < window by {
        let d = choose|d: int|
            0 <= d <= q.len() && window_hits(q, now, window) == q.skip(d) && (forall|i: int|
                0 <= i < d ==> sat_sub(now, (#[trigger] q[i]).timestamp) >= window) && (forall|i: int|
                d <= i < q.len() ==> sat_sub(now, (#[trigger] q[i]).timestamp) < window);
        let k = choose|k: int| 0 <= k < window_hits(q, now, window).len() && window_hits(q, now, window)[k] == h;
        assert(q.skip(d)[k] == q[k + d]);
    }
}

/// `a.saturating_sub(b)`.
pub open spec fn sat_sub(a: u64, b: u64) -> u64 {
    if a >= b {
        (a - b) as u64
    } else {
        0
    }
}

/// The tables after a sweep of the windows: every window pruned, empty ones dropped.
pub open spec fn swept_hits(m: Map<Seq<char>, Seq<PlaybackRateHit>>, now: u64, window: u64) -> Map<
    Seq<char>,
    Seq<PlaybackRateHit>,
> {
    Map::new(
        |k: Seq<char>| m.dom().contains(k) && window_hits(m[k], now, window).len() > 0,
        |k: Seq<char>| window_hits(m[k], now, window),
    )
}

/// The entries whose value lies after `now`.
pub open spec fn live_entries(m: Map<Seq<char>, u64>, now: u64) -> Map<Seq<char>, u64> {
    Map::new(|k: Seq<char>| m.dom().contains(k) && m[k] > now, |k: Seq<char>| m[k])
}

/// The events seen less than the time-to-live ago.
pub open spec fn fresh_entries(m: Map<Seq<char>, u64>, now: u64) -> Map<Seq<char>, u64> {
    Map::new(
        |k: Seq<char>| m.dom().contains(k) && sat_sub(now, m[k]) < PLAYBACK_RATE_RECENT_EVENT_TTL_SECONDS,
        |k: Seq<char>| m[k],
    )
}

/// `after` is `before` with room made for `key`: unchanged when it holds the key or is not
/// full, else with one of its keys gone.
pub open spec fn room_made<V>(before: Map<Seq<char>, V>, after: Map<Seq<char>, V>, key: Seq<char>) -> bool {
    if before.dom().contains(key) || before.dom().len() < PLAYBACK_RATE_STATE_CAPACITY {
        after == before
    } else {
        exists|k: Seq<char>| before.dom().contains(k) && after == #[trigger] before.remove(k)
    }
}

/// Keeps the entries whose value lies after `cutoff`.
fn retain_after(m: &mut StrMap<u64>, cutoff: u64)
    requires
        old(m).wf(),
    ensures
        final(m).wf(),
        final(m)@ == live_entries(old(m)@, cutoff),
        final(m).spec_len() <= old(m).spec_len(),
{
    let mut fresh: StrMap<u64> = StrMap::new();
    let n = m.len();
    proof {
        m.lemma_key_positions();
    }
    let mut i: usize = 0;
    while i < n
        invariant
            m.wf(),
            n == m.spec_len(),
            i <= n,
            fresh.wf(),
            fresh.spec_len() <= i,
            forall|k: Seq<char>| #[trigger] fresh@.dom().contains(k) <==> (exists|j: int|
                0 <= j < i && m.spec_key_at(j) == k && m@[k] > cutoff),
            forall|k: Seq<char>| #[trigger] fresh@.dom().contains(k) ==> fresh@[k] == m@[k],
            forall|k: Seq<char>| #[trigger] m@.dom().contains(k) ==> exists|j: int|
                0 <= j < m.spec_len() && m.spec_key_at(j) == k,
            forall|j: int| 0 <= j < m.spec_len() ==> #[trigger] m@.dom().contains(m.spec_key_at(j)),
            forall|a: int, b: int|
                0 <= a < b < m.spec_len() ==> m.spec_key_at(a) != m.spec_key_at(b),
        decreases n - i,
    {
        let (k, v) = m.entry_at(i);
        if *v > cutoff {
            let key = k.clone();
            proof {
                assert(!fresh@.dom().contains(key@)) by {
                    if fresh@.dom().contains(key@) {
                        let j = choose|j: int| 0 <= j < i && m.spec_key_at(j) == key@ && m@[key@] > cutoff;
                        assert(m.spec_key_at(j) != m.spec_key_at(i as int));
                    }
                }
            }
            fresh.insert(key, *v);
        }
        i = i + 1;
    }
    proof {
        assert(fresh@ =~= live_entries(m@, cutoff)) by {
            assert forall|k: Seq<char>| #[trigger] live_entries(m@, cutoff).dom().contains(k) implies fresh@.dom().contains(k) by {
                let j = choose|j: int| 0 <= j < m.spec_len() && m.spec_key_at(j) == k;
            }
        }
        m.lemma_dom_len();
        fresh.lemma_dom_len();
    }
    *m = fresh;
}

/// Keeps the events seen less than the time-to-live ago.
fn retain_fresh(m: &mut StrMap<u64>, now: u64)
    requires
        old(m).wf(),
    ensures
        final(m).wf(),
        final(m)@ == fresh_entries(old(m)@, now),
        final(m).spec_len() <= old(m).spec_len(),
{
    if now >= PLAYBACK_RATE_RECENT_EVENT_TTL_SECONDS {
        let ghost before = m@;
        retain_after(m, now - PLAYBACK_RATE_RECENT_EVENT_TTL_SECONDS);
        assert(m@ =~= fresh_entries(before, now));
    } else {
        assert(m@ =~= fresh_entries(m@, now));
    }
}

impl PlaybackRateHit {
    /// A field-by-field copy.
    pub fn duplicate(&self) -> (r: Self)
        ensures
            r == *self,
    {
        PlaybackRateHit { timestamp: self.timestamp, user_name: self.user_name.clone() }
    }
}

fn sat_sub_exec(a: u64, b: u64) -> (r: u64)
    ensures
        r == sat_sub(a, b),
{
    if a >= b {
        a - b
    } else {
        0
    }
}

fn front_expired(q: &VecDeque<PlaybackRateHit>, now: u64, window: u64) -> (r: bool)
    ensures
        r == (q@.len() > 0 && sat_sub(now, q@[0].timestamp) >= window),
{
    if q.len() == 0 {
        false
    } else {
        sat_sub_exec(now, q[0].timestamp) >= window
    }
}

/// Drops the requests that fell out of the window from the front.
fn trim_window(q: &mut VecDeque<PlaybackRateHit>, now: u64, window: u64)
    ensures
        final(q)@ == window_hits(old(q)@, now, window),
{
    let ghost target = window_hits(q@, now, window);
    while front_expired(q, now, window)
        invariant
            window_hits(q@, now, window) == target,
        decreases q@.len(),
    {
        let ghost before = q@;
        let _ = q.pop_front();
        assert(q@ =~= before.drop_first());
    }
}

fn copy_hits(q: &VecDeque<PlaybackRateHit>) -> (r: VecDeque<PlaybackRateHit>)
    ensures
        r@ == q@,
{
    let mut r: VecDeque<PlaybackRateHit> = VecDeque::new();
    let mut i: usize = 0;
    while i < q.len()
        invariant
            i <= q@.len(),
            r@ == q@.take(i as int),
        decreases q@.len() - i,
    {
        let h = q[i].duplicate();
        r.push_back(h);
        assert(r@ =~= q@.take(i + 1));
        i = i + 1;
    }
    assert(q@.take(q@.len() as int) =~= q@);
    r
}

/// Prunes every window and drops the subjects left without requests.
fn sweep_hits(m: &mut StrMap<VecDeque<PlaybackRateHit>>, now: u64, window: u64)
    requires
        old(m).wf(),
    ensures
        final(m).wf(),
        deque_views(final(m)@) == swept_hits(deque_views(old(m)@), now, window),
        final(m).spec_len() <= old(m).spec_len(),
{
    let mut fresh: StrMap<VecDeque<PlaybackRateHit>> = StrMap::new();
    let n = m.len();
    proof {
        m.lemma_key_positions();
    }
    let mut i: usize = 0;
    while i < n
        invariant
            m.wf(),
            n == m.spec_len(),
            i <= n,
            fresh.wf(),
            fresh.spec_len() <= i,
            forall|k: Seq<char>| #[trigger] fresh@.dom().contains(k) <==> (exists|j: int|
                0 <= j < i && m.spec_key_at(j) == k && window_hits(m@[k]@, now, window).len() > 0),
            forall|k: Seq<char>| #[trigger] fresh@.dom().contains(k) ==> fresh@[k]@ == window_hits(m@[k]@, now, window),
            forall|k: Seq<char>| #[trigger] m@.dom().contains(k) ==> exists|j: int|
                0 <= j < m.spec_len() && m.spec_key_at(j) == k,
            forall|j: int| 0 <= j < m.spec_len() ==> #[trigger] m@.dom().contains(m.spec_key_at(j)),
            forall|a: int, b: int|
                0 <= a < b < m.spec_len() ==> m.spec_key_at(a) != m.spec_key_at(b),
        decreases n - i,
    {
        let (k, q) = m.entry_at(i);
        let mut w = copy_hits(q);
        trim_window(&mut w, now, window);
        if w.len() > 0 {
            let key = k.clone();
            proof {
                assert(!fresh@.dom().contains(key@)) by {
                    if fresh@.dom().contains(key@) {
                        let j = choose|j: int| 0 <= j < i && m.spec_key_at(j) == key@ && window_hits(m@[key@]@, now, window).len() > 0;
                        assert(m.spec_key_at(j) != m.spec_key_at(i as int));
                    }
                }
            }
            fresh.insert(key, w);
        }
        i = i + 1;
    }
    proof {
        assert(deque_views(fresh@) =~= swept_hits(deque_views(m@), now, window)) by {
            assert forall|k: Seq<char>| #[trigger] swept_hits(deque_views(m@), now, window).dom().contains(k) implies fresh@.dom().contains(k) by {
                let j = choose|j: int| 0 <= j < m.spec_len() && m.spec_key_at(j) == k;
            }
        }
        m.lemma_dom_len();
        fresh.lemma_dom_len();
    }
    *m = fresh;
}

/// A live entry for `key`: present with a value after `now`.
pub open spec fn ban_live(m: Map<Seq<char>, u64>, key: Seq<char>, now: u64) -> bool {
    m.dom().contains(key) && m[key] > now
}

/// The table after an expired entry for `key` is dropped.
pub open spec fn ban_cleared(m: Map<Seq<char>, u64>, key: Seq<char>, now: u64) -> Map<Seq<char>, u64> {
    if m.dom().contains(key) && m[key] <= now {
        m.remove(key)
    } else {
        m
    }
}

/// Drops an expired entry for `key` and tells whether a live one is left.
fn ban_in_force(m: &mut StrMap<u64>, key: &str, now: u64) -> (r: bool)
    requires
        old(m).wf(),
    ensures
        final(m).wf(),
        final(m).spec_len() <= old(m).spec_len(),
        r == ban_live(old(m)@, key@, now),
        final(m)@ == ban_cleared(old(m)@, key@, now),
{
    let expired = match m.get(key) {
        Some(until) => *until <= now,
        None => false,
    };
    if expired {
        m.remove(key);
    }
    match m.get(key) {
        Some(until) => *until > now,
        None => false,
    }
}

/// `after` is `before` with `key` set to `value`, after a sweep to `swept` when `before` was
/// full without the key, and room made for the key.
pub open spec fn stored_with_room<V>(
    before: Map<Seq<char>, V>,
    swept: Map<Seq<char>, V>,
    after: Map<Seq<char>, V>,
    key: Seq<char>,
    value: V,
) -> bool {
    let base = if !before.dom().contains(key) && before.dom().len() >= PLAYBACK_RATE_STATE_CAPACITY {
        swept
    } else {
        before
    };
    exists|mid: Map<Seq<char>, V>| room_made(base, mid, key) && after == #[trigger] mid.insert(key, value)
}

proof fn lemma_room_made<V>(m: &StrMap<V>, before: StrMap<V>, key: Seq<char>)
    requires
        before.wf(),
        m.wf(),
        if before@.dom().contains(key) || before.spec_len() < PLAYBACK_RATE_STATE_CAPACITY {
            m@ == before@ && m.spec_len() == before.spec_len()
        } else {
            &&& before@.dom().contains(before.spec_oldest_key())
            &&& m@ == before@.remove(before.spec_oldest_key())
            &&& m.spec_len() == before.spec_len() - 1
        },
    ensures
        room_made(before@, m@, key),
{
    before.lemma_dom_len();
    if !(before@.dom().contains(key) || before.spec_len() < PLAYBACK_RATE_STATE_CAPACITY) {
        let k = before.spec_oldest_key();
        assert(before@.dom().contains(k) && m@ == before@.remove(k));
    }
}

/// Records `key` with `value` in a bounded table: when the table is full and lacks the key,
/// the entries at or before `now` are swept first, then room is made for the key.
fn store_bounded(m: &mut StrMap<u64>, key: String, value: u64, now: u64)
    requires
        old(m).wf(),
        old(m).spec_len() <= PLAYBACK_RATE_STATE_CAPACITY,
    ensures
        final(m).wf(),
        final(m).spec_len() <= PLAYBACK_RATE_STATE_CAPACITY,
        stored_with_room(old(m)@, live_entries(old(m)@, now), final(m)@, key@, value),
{
    let ghost before = m@;
    proof {
        m.lemma_dom_len();
    }
    if !m.contains_key(key.as_str()) && m.len() >= PLAYBACK_RATE_STATE_CAPACITY {
        retain_after(m, now);
    }
    let ghost base = *m;
    make_room_for_rate_state(m, key.as_str());
    proof {
        lemma_room_made(m, base, key@);
        m.lemma_dom_len();
        base.lemma_dom_len();
    }
    let ghost mid = m@;
    let ghost k = key@;
    m.insert(key, value);
    assert(room_made(base@, mid, k) && m@ == mid.insert(k, value));
}

/// Records `key` at `now` in the recent-event table: when the table is full and lacks the
/// key, stale events are swept first, then room is made for the key.
fn store_event(m: &mut StrMap<u64>, key: String, now: u64)
    requires
        old(m).wf(),
        old(m).spec_len() <= PLAYBACK_RATE_STATE_CAPACITY,
    ensures
        final(m).wf(),
        final(m).spec_len() <= PLAYBACK_RATE_STATE_CAPACITY,
        stored_with_room(old(m)@, fresh_entries(old(m)@, now), final(m)@, key@, now),
{
    proof {
        m.lemma_dom_len();
    }
    if !m.contains_key(key.as_str()) && m.len() >= PLAYBACK_RATE_STATE_CAPACITY {
        retain_fresh(m, now);
    }
    let ghost base = *m;
    make_room_for_rate_state(m, key.as_str());
    proof {
        lemma_room_made(m, base, key@);
        m.lemma_dom_len();
        base.lemma_dom_len();
    }
    let ghost mid = m@;
    let ghost k = key@;
    m.insert(key, now);
    assert(room_made(base@, mid, k) && m@ == mid.insert(k, now));
}

/// The window of `key` after a request: the pruned window with the request appended.
pub open spec fn counted_window(
    h: Map<Seq<char>, Seq<PlaybackRateHit>>,
    key: Seq<char>,
    now: u64,
    window: u64,
    hit: PlaybackRateHit,
) -> Seq<PlaybackRateHit> {
    window_hits(
        if h.dom().contains(key) {
            h[key]
        } else {
            Seq::empty()
        },
        now,
        window,
    ).push(hit)
}

/// The request table a new request starts from: swept when full without the key.
pub open spec fn hits_base(h: Map<Seq<char>, Seq<PlaybackRateHit>>, key: Seq<char>, now: u64, window: u64) -> Map<
    Seq<char>,
    Seq<PlaybackRateHit>,
> {
    if !h.dom().contains(key) && h.dom().len() >= PLAYBACK_RATE_STATE_CAPACITY {
        swept_hits(h, now, window)
    } else {
        h
    }
}

proof fn lemma_deque_views_dom(m: Map<Seq<char>, VecDeque<PlaybackRateHit>>)
    ensures
        deque_views(m).dom() == m.dom(),
{
    assert(deque_views(m).dom() =~= m.dom());
}

proof fn lemma_deque_views_room(
    before: Map<Seq<char>, VecDeque<PlaybackRateHit>>,
    after: Map<Seq<char>, VecDeque<PlaybackRateHit>>,
    key: Seq<char>,
)
    requires
        room_made(before, after, key),
    ensures
        room_made(deque_views(before), deque_views(after), key),
{
    lemma_deque_views_dom(before);
    lemma_deque_views_dom(after);
    if !(before.dom().contains(key) || before.dom().len() < PLAYBACK_RATE_STATE_CAPACITY) {
        let k = choose|k: Seq<char>| before.dom().contains(k) && after == #[trigger] before.remove(k);
        assert(deque_views(after) =~= deque_views(before).remove(k));
    }
}

/// Counts a request of `key`: sweeps the table when it is full without the key, makes room
/// for the key, prunes the key's window and appends the request. Gives the window's length.
fn count_hit(
    m: &mut StrMap<VecDeque<PlaybackRateHit>>,
    key: String,
    hit: PlaybackRateHit,
    now: u64,
    window: u64,
) -> (len: usize)
    requires
        old(m).wf(),
        old(m).spec_len() <= PLAYBACK_RATE_STATE_CAPACITY,
    ensures
        final(m).wf(),
        final(m).spec_len() <= PLAYBACK_RATE_STATE_CAPACITY,
        ({
            let base = hits_base(deque_views(old(m)@), key@, now, window);
            let q = counted_window(base, key@, now, window, hit);
            &&& exists|mid: Map<Seq<char>, Seq<PlaybackRateHit>>|
                room_made(base, mid, key@) && deque_views(final(m)@) == #[trigger] mid.insert(key@, q)
            &&& len == q.len()
        }),
{
    let ghost h0 = deque_views(m@);
    proof {
        m.lemma_dom_len();
        lemma_deque_views_dom(m@);
    }
    if !m.contains_key(key.as_str()) && m.len() >= PLAYBACK_RATE_STATE_CAPACITY {
        sweep_hits(m, now, window);
    }
    let ghost base = *m;
    assert(deque_views(base@) == hits_base(h0, key@, now, window));
    make_room_for_rate_state(m, key.as_str());
    proof {
        lemma_room_made(m, base, key@);
        lemma_deque_views_room(base@, m@, key@);
        m.lemma_dom_len();
        base.lemma_dom_len();
        lemma_deque_views_dom(base@);
        lemma_deque_views_dom(m@);
    }
    let ghost mid = m@;
    assert(mid.dom().contains(key@) == base@.dom().contains(key@));
    let mut q = match m.take(key.as_str()) {
        Some(q) => q,
        None => VecDeque::new(),
    };
    trim_window(&mut q, now, window);
    q.push_back(hit);
    let len = q.len();
    let ghost k = key@;
    let ghost qv = q@;
    m.insert(key, q);
    proof {
        assert(deque_views(m@) =~= deque_views(mid).insert(k, qv));
        assert(qv == counted_window(deque_views(base@), k, now, window, hit));
    }
    len
}

/// An event seen less than the time-to-live ago.
pub open spec fn event_fresh(m: Map<Seq<char>, u64>, key: Seq<char>, now: u64) -> bool {
    m.dom().contains(key) && sat_sub(now, m[key]) < PLAYBACK_RATE_RECENT_EVENT_TTL_SECONDS
}

/// The table after a stale entry for `key` is dropped.
pub open spec fn event_cleared(m: Map<Seq<char>, u64>, key: Seq<char>, now: u64) -> Map<Seq<char>, u64> {
    if m.dom().contains(key) && sat_sub(now, m[key]) >= PLAYBACK_RATE_RECENT_EVENT_TTL_SECONDS {
        m.remove(key)
    } else {
        m
    }
}

/// What the recent-event table does with an event: a stale entry is dropped; when `skip` is
/// set, a fresh one makes the request a duplicate; otherwise, when `record` is set, the event
/// is stored at `now`.
pub open spec fn event_seen(
    before: Map<Seq<char>, u64>,
    after: Map<Seq<char>, u64>,
    key: Seq<char>,
    now: u64,
    skip: bool,
    record: bool,
    duplicate: bool,
) -> bool {
    let cleared = event_cleared(before, key, now);
    &&& duplicate == (skip && event_fresh(before, key, now))
    &&& if duplicate || !record {
        after == cleared
    } else {
        stored_with_room(cleared, fresh_entries(cleared, now), after, key, now)
    }
}

fn see_event(m: &mut StrMap<u64>, key: String, now: u64, skip: bool, record: bool) -> (duplicate: bool)
    requires
        old(m).wf(),
        old(m).spec_len() <= PLAYBACK_RATE_STATE_CAPACITY,
    ensures
        final(m).wf(),
        final(m).spec_len() <= PLAYBACK_RATE_STATE_CAPACITY,
        event_seen(old(m)@, final(m)@, key@, now, skip, record, duplicate),
{
    let stale = match m.get(key.as_str()) {
        Some(t) => sat_sub_exec(now, *t) >= PLAYBACK_RATE_RECENT_EVENT_TTL_SECONDS,
        None => false,
    };
    if stale {
        m.remove(key.as_str());
    }
    let fresh = match m.get(key.as_str()) {
        Some(t) => sat_sub_exec(now, *t) < PLAYBACK_RATE_RECENT_EVENT_TTL_SECONDS,
        None => false,
    };
    if skip && fresh {
        return true;
    }
    if record {
        store_event(m, key, now);
    }
    false
}

/// The limits that apply to one playback request.
pub struct RateLimitSettings {
    /// The user's own policy applies; windows then count the user rather than the IP.
    pub user_level: bool,
    pub action: String,
    pub window_seconds: u64,
    pub max_requests: u64,
    pub block_seconds: u64,
}

/// A playback request as the rate limit sees it.
#[derive(Debug, Clone)]
pub struct PlaybackRateLimitInput {
    pub server_id: String,
    pub server_name: String,
    pub playback_user: String,
    pub playback_ip: String,
    pub playback_event: String,
    pub skip_recent_event: bool,
    pub record_recent_event: bool,
}

/// What the rate limit decides for a request.
#[derive(Debug, Clone, Copy, PartialEq, Eq, Structural)]
pub enum RateLimitOutcome {
    /// The limit does not apply; the request goes through uncounted.
    NotApplicable,
    /// A block or ban in force refuses the request.
    Blocked,
    /// A recent repeat of the same playback event goes through uncounted.
    Duplicate,
    /// Counted and within the limit.
    Counted,
    /// Counted and over the limit: a block is due.
    Exceeded,
}

impl RateLimitOutcome {
    /// Whether the request is refused.
    pub fn refuses(&self) -> (r: bool)
        ensures
            r == (*self == RateLimitOutcome::Blocked || *self == RateLimitOutcome::Exceeded),
    {
        match self {
            RateLimitOutcome::Blocked => true,
            RateLimitOutcome::Exceeded => true,
            _ => false,
        }
    }
}

/// The decision and whether pruning changed the stored blocks (which then need saving).
pub struct RateLimitStep {
    pub outcome: RateLimitOutcome,
    pub pruned: bool,
}

/// A block that refuses requests of this subject.
pub open spec fn block_refuses(
    b: BlockView,
    server_id: Seq<char>,
    action: Seq<char>,
    same_action: bool,
    user: Seq<char>,
    ip: Seq<char>,
    now: u64,
) -> bool {
    &&& b.enabled
    &&& b.server_id == server_id
    &&& blocked_until_value(b.blocked_until) > now
    &&& (!same_action || b.action == action)
    &&& if action_uses_user_key_spec(action) {
        eq_ignore_case(b.user_name, user)
    } else {
        b.ip == ip
    }
}

pub open spec fn blocks_refuse(
    s: Seq<BlockView>,
    server_id: Seq<char>,
    action: Seq<char>,
    same_action: bool,
    user: Seq<char>,
    ip: Seq<char>,
    now: u64,
) -> bool {
    exists|i: int|
        0 <= i < s.len() && block_refuses(#[trigger] s[i], server_id, action, same_action, user, ip, now)
}

fn any_block_refuses(
    blocks: &Vec<PlaybackRateBlockRecord>,
    server_id: &str,
    action: &str,
    same_action: bool,
    user: &str,
    ip: &str,
    now: u64,
) -> (r: bool)
    ensures
        r == blocks_refuse(block_views(blocks@), server_id@, action@, same_action, user@, ip@, now),
{
    let by_user = action_uses_user_key(action);
    let user_chars = chars_of(user);
    let mut i: usize = 0;
    while i < blocks.len()
        invariant
            i <= blocks@.len(),
            by_user == action_uses_user_key_spec(action@),
            user_chars@ == user@,
            forall|j: int|
                0 <= j < i ==> !block_refuses(
                    #[trigger] block_views(blocks@)[j],
                    server_id@,
                    action@,
                    same_action,
                    user@,
                    ip@,
                    now,
                ),
        decreases blocks@.len() - i,
    {
        let b = &blocks[i];
        assert(block_views(blocks@)[i as int] == b@);
        let subject = if by_user {
            let name = chars_of(b.user_name.as_str());
            chars_eq_ignore_case(&name, &user_chars)
        } else {
            str_eq(b.ip.as_str(), ip)
        };
        if b.enabled && str_eq(b.server_id.as_str(), server_id) && blocked_until_of(b) > now && (
        !same_action || str_eq(b.action.as_str(), action)) && subject {
            return true;
        }
        i = i + 1;
    }
    false
}

/// The request names a user.
pub open spec fn names_user(user: Seq<char>) -> bool {
    user.len() > 0 && user != "--"@
}

/// The request names an IP.
pub open spec fn names_ip(ip: Seq<char>) -> bool {
    ip.len() > 0 && ip != "--"@
}

/// The rate limit applies to the request.
pub open spec fn rate_applies(settings: Option<RateLimitSettings>, input: PlaybackRateLimitInput) -> bool {
    &&& settings is Some
    &&& names_ip(trim(input.playback_ip@))
    &&& !(action_requires_user_spec(settings->0.action@) && !names_user(trim(input.playback_user@)))
}

/// The key of the recent-event table for the request, when the request names an event or asks
/// for deduplication.
pub open spec fn recent_event_key(s: RateLimitSettings, input: PlaybackRateLimitInput) -> Option<
    Seq<char>,
> {
    let subject = rate_subject_spec(s.user_level, trim(input.playback_user@), trim(input.playback_ip@));
    let event = trim(input.playback_event@);
    if event.len() > 0 {
        Some(input.server_id@ + ":"@ + subject + ":"@ + event)
    } else if input.skip_recent_event || input.record_recent_event {
        Some(input.server_id@ + ":"@ + subject + ":playback-start"@)
    } else {
        None
    }
}

/// The key of the request's window.
pub open spec fn rate_key(s: RateLimitSettings, input: PlaybackRateLimitInput) -> Seq<char> {
    input.server_id@ + ":"@ + rate_subject_spec(
        s.user_level,
        trim(input.playback_user@),
        trim(input.playback_ip@),
    )
}

/// The request's window after counting it, from the table `h`.
pub open spec fn window_after(
    h: Map<Seq<char>, Seq<PlaybackRateHit>>,
    s: RateLimitSettings,
    input: PlaybackRateLimitInput,
    now: u64,
    hit: PlaybackRateHit,
) -> Seq<PlaybackRateHit> {
    let key = rate_key(s, input);
    let window = at_least_one(s.window_seconds);
    counted_window(hits_base(h, key, now, window), key, now, window, hit)
}

/// How the tables change and what is decided for a request to which the rate limit applies,
/// given the blocks in force.
pub open spec fn rate_transition(
    t0: RateTables,
    t1: RateTables,
    blocks: Seq<BlockView>,
    s: RateLimitSettings,
    input: PlaybackRateLimitInput,
    now: u64,
    outcome: RateLimitOutcome,
) -> bool {
    let user = trim(input.playback_user@);
    let ip = trim(input.playback_ip@);
    let ukey = server_user_key_spec(input.server_id@, user);
    let ikey = server_ip_key_spec(input.server_id@, ip);
    let bans1 = ban_cleared(t0.bans, ukey, now);
    let ip_bans1 = ban_cleared(t0.ip_bans, ikey, now);
    if blocks_refuse(blocks, input.server_id@, s.action@, false, user, ip, now) {
        outcome == RateLimitOutcome::Blocked && t1 == t0
    } else if ban_live(t0.bans, ukey, now) {
        outcome == RateLimitOutcome::Blocked && t1 == t0
    } else if ban_live(t0.ip_bans, ikey, now) {
        outcome == RateLimitOutcome::Blocked && t1 == RateTables { bans: bans1, ..t0 }
    } else {
        &&& t1.bans == bans1
        &&& t1.ip_bans == ip_bans1
        &&& match recent_event_key(s, input) {
            Some(ek) => event_seen(
                t0.recent,
                t1.recent,
                ek,
                now,
                input.skip_recent_event,
                input.record_recent_event,
                outcome == RateLimitOutcome::Duplicate,
            ),
            None => t1.recent == t0.recent && outcome != RateLimitOutcome::Duplicate,
        }
        &&& if outcome == RateLimitOutcome::Duplicate {
            t1.hits == t0.hits
        } else {
            let key = rate_key(s, input);
            let window = at_least_one(s.window_seconds);
            let base = hits_base(t0.hits, key, now, window);
            exists|hit: PlaybackRateHit, mid: Map<Seq<char>, Seq<PlaybackRateHit>>|
                hit.timestamp == now && hit.user_name@ == user && room_made(base, mid, key) && t1.hits
                    == #[trigger] mid.insert(key, counted_window(base, key, now, window, hit))
                    && outcome == (if counted_window(base, key, now, window, hit).len()
                    > at_least_one(s.max_requests) {
                    RateLimitOutcome::Exceeded
                } else {
                    RateLimitOutcome::Counted
                })
        }
    }
}

/// A counted request is refused (`Exceeded`) exactly when its window, the request included,
/// then holds more than `max_requests` requests (at least one); the request is the newest in
/// the window, at `now`, and, when the stored requests were in time order, every other
/// request left in the window was made less than `window_seconds` (at least one) before
/// `now`: older requests never count.
pub proof fn lemma_exceeded_only_over_the_limit_in_window(
    t0: RateTables,
    t1: RateTables,
    blocks: Seq<BlockView>,
    s: RateLimitSettings,
    input: PlaybackRateLimitInput,
    now: u64,
    outcome: RateLimitOutcome,
)
    requires
        rate_transition(t0, t1, blocks, s, input, now, outcome),
        outcome == RateLimitOutcome::Exceeded || outcome == RateLimitOutcome::Counted,
    ensures
        t1.hits.dom().contains(rate_key(s, input)),
        (outcome == RateLimitOutcome::Exceeded) == (t1.hits[rate_key(s, input)].len() > at_least_one(
            s.max_requests,
        )),
        t1.hits[rate_key(s, input)].len() >= 1,
        t1.hits[rate_key(s, input)].last().timestamp == now,
        t0.hits.dom().contains(rate_key(s, input)) && hits_in_time_order(t0.hits[rate_key(s, input)]) ==> forall|i: int|
            0 <= i < t1.hits[rate_key(s, input)].len() - 1 ==> sat_sub(
                now,
                (#[trigger] t1.hits[rate_key(s, input)][i]).timestamp,
            ) < at_least_one(s.window_seconds),
{
    let key = rate_key(s, input);
    let window = at_least_one(s.window_seconds);
    let base = hits_base(t0.hits, key, now, window);
    let (hit, mid) = choose|hit: PlaybackRateHit, mid: Map<Seq<char>, Seq<PlaybackRateHit>>|
        hit.timestamp == now && hit.user_name@ == trim(input.playback_user@) && room_made(base, mid, key)
            && t1.hits == #[trigger] mid.insert(key, counted_window(base, key, now, window, hit)) && outcome == (
            if counted_window(base, key, now, window, hit).len() > at_least_one(s.max_requests) {
            RateLimitOutcome::Exceeded
        } else {
            RateLimitOutcome::Counted
        });
    let cw = counted_window(base, key, now, window, hit);
    assert(t1.hits[key] == cw);
    if t0.hits.dom().contains(key) && hits_in_time_order(t0.hits[key]) {
        assert(base.dom().contains(key) && base[key] == t0.hits[key]);
        let w = window_hits(t0.hits[key], now, window);
        lemma_window_holds_exactly_recent_hits(t0.hits[key], now, window);
        assert forall|i: int| 0 <= i < cw.len() - 1 implies sat_sub(now, (#[trigger] cw[i]).timestamp) < window by {
            assert(cw[i] == w[i]);
            assert(w.contains(w[i]));
        }
    }
}

fn join3(a: &str, b: &str, c: &str) -> (r: String)
    ensures
        r@ == a@ + b@ + c@,
{
    let mut r = String::from_str(a);
    r.append(b);
    r.append(c);
    r
}

/// Decides a playback request against the rate limit (`settings`, `None` when neither the
/// global nor the user's limit is on) at time `now`: prunes the stored blocks, refuses the
/// request while a block or ban of its subject is in force, lets a recent repeat of the same
/// playback event through uncounted, and otherwise counts it in its sliding window (see
/// [`rate_transition`]).
pub fn check_playback_rate_limit(
    state: &mut RateLimitState,
    config: &mut ClientControlConfig,
    settings: &Option<RateLimitSettings>,
    input: &PlaybackRateLimitInput,
    now: u64,
) -> (r: RateLimitStep)
    requires
        old(state).wf(),
    ensures
        final(state).wf(),
        !rate_applies(*settings, *input) ==> r.outcome == RateLimitOutcome::NotApplicable
            && final(state)@ == old(state)@ && *final(config) == *old(config) && !r.pruned,
        rate_applies(*settings, *input) ==> {
            &&& block_views(final(config).rate_limit_blocks@) == pruned_blocks(
                block_views(old(config).rate_limit_blocks@),
                now,
            )
            &&& same_but_blocks(*final(config), *old(config))
            &&& r.pruned == (final(config).rate_limit_blocks@.len()
                != old(config).rate_limit_blocks@.len())
            &&& r.outcome != RateLimitOutcome::NotApplicable
            &&& rate_transition(
                old(state)@,
                final(state)@,
                block_views(final(config).rate_limit_blocks@),
                settings->0,
                *input,
                now,
                r.outcome,
            )
        },
{
    let s = match settings {
        Some(s) => s,
        None => {
            return RateLimitStep { outcome: RateLimitOutcome::NotApplicable, pruned: false };
        },
    };
    let user = trimmed(input.playback_user.as_str());
    let ip = trimmed(input.playback_ip.as_str());
    if ip.len() == 0 || chars_eq_str(&ip, "--") {
        return RateLimitStep { outcome: RateLimitOutcome::NotApplicable, pruned: false };
    }
    let has_user = user.len() > 0 && !chars_eq_str(&user, "--");
    if action_requires_user(s.action.as_str()) && !has_user {
        return RateLimitStep { outcome: RateLimitOutcome::NotApplicable, pruned: false };
    }
    let pruned = prune_inactive_rate_limit_blocks(config, now);
    let user_s = string_of(&user);
    let ip_s = string_of(&ip);
    let ghost t0 = state@;
    if any_block_refuses(
        &config.rate_limit_blocks,
        input.server_id.as_str(),
        s.action.as_str(),
        false,
        user_s.as_str(),
        ip_s.as_str(),
        now,
    ) {
        return RateLimitStep { outcome: RateLimitOutcome::Blocked, pruned };
    }
    let ukey = server_user_key(input.server_id.as_str(), user_s.as_str());
    if ban_in_force(&mut state.bans, ukey.as_str(), now) {
        assert(state@ =~= t0);
        return RateLimitStep { outcome: RateLimitOutcome::Blocked, pruned };
    }
    let ikey = server_ip_key(input.server_id.as_str(), ip_s.as_str());
    if ban_in_force(&mut state.ip_bans, ikey.as_str(), now) {
        return RateLimitStep { outcome: RateLimitOutcome::Blocked, pruned };
    }
    let window = if s.window_seconds < 1 {
        1
    } else {
        s.window_seconds
    };
    let max_requests = if s.max_requests < 1 {
        1
    } else {
        s.max_requests
    };
    let subject = rate_limit_subject(s.user_level, user_s.as_str(), ip_s.as_str());
    let event = trimmed(input.playback_event.as_str());
    assert(subject@ == rate_subject_spec(s.user_level, trim(input.playback_user@), trim(input.playback_ip@)));
    let event_key: Option<String> = if event.len() > 0 {
        let prefix = join3(input.server_id.as_str(), ":", subject.as_str());
        let e = string_of(&event);
        let k = join3(prefix.as_str(), ":", e.as_str());
        assert(k@ == input.server_id@ + ":"@ + subject@ + ":"@ + trim(input.playback_event@));
        Some(k)
    } else if input.skip_recent_event || input.record_recent_event {
        let prefix = join3(input.server_id.as_str(), ":", subject.as_str());
        let mut k = prefix;
        k.append(":playback-start");
        assert(k@ == input.server_id@ + ":"@ + subject@ + ":playback-start"@);
        Some(k)
    } else {
        None
    };
    proof {
        reveal_strlit(":");
    }
    let ghost t_ban = state@;
    assert(match event_key {
        Some(k) => recent_event_key(*s, *input) == Some(k@),
        None => recent_event_key(*s, *input) is None,
    });
    match event_key {
        Some(k) => {
            let duplicate = see_event(
                &mut state.recent_events,
                k,
                now,
                input.skip_recent_event,
                input.record_recent_event,
            );
            if duplicate {
                return RateLimitStep { outcome: RateLimitOutcome::Duplicate, pruned };
            }
        },
        None => {},
    }
    let key = join3(input.server_id.as_str(), ":", subject.as_str());
    let hit = PlaybackRateHit { timestamp: now, user_name: user_s.clone() };
    let ghost hv = hit;
    let ghost h_before = state.hits@;
    let ghost key_s = key@;
    assert(key_s == rate_key(*s, *input));
    let len = count_hit(&mut state.hits, key, hit, now, window);
    let outcome = if len as u64 > max_requests {
        RateLimitOutcome::Exceeded
    } else {
        RateLimitOutcome::Counted
    };
    proof {
        let base = hits_base(deque_views(h_before), key_s, now, window);
        let mid = choose|mid: Map<Seq<char>, Seq<PlaybackRateHit>>|
            room_made(base, mid, key_s) && deque_views(state.hits@) == #[trigger] mid.insert(
                key_s,
                counted_window(base, key_s, now, window, hv),
            );
        assert(window == at_least_one(s.window_seconds));
        assert(max_requests == at_least_one(s.max_requests));
        assert(hv.timestamp == now && hv.user_name@ == trim(input.playback_user@));
        assert(room_made(base, mid, key_s) && state@.hits == mid.insert(
            key_s,
            counted_window(base, key_s, now, window, hv),
        ) && outcome == (if counted_window(base, key_s, now, window, hv).len() > at_least_one(
            s.max_requests,
        ) {
            RateLimitOutcome::Exceeded
        } else {
            RateLimitOutcome::Counted
        }));
    }
    RateLimitStep { outcome, pruned }
}

/// `a.saturating_add(b)`.
pub open spec fn sat_add(a: u64, b: u64) -> u64 {
    if a + b > 0xffff_ffff_ffff_ffff {
        0xffff_ffff_ffff_ffff
    } else {
        (a + b) as u64
    }
}

fn sat_add_exec(a: u64, b: u64) -> (r: u64)
    ensures
        r == sat_add(a, b),
{
    if a > 0xffff_ffff_ffff_ffffu64 - b {
        0xffff_ffff_ffff_ffffu64
    } else {
        a + b
    }
}

/// A block that a limit decided to place on a subject.
pub struct PendingBlock {
    pub action: String,
    /// The trimmed user name of the request.
    pub user: String,
    /// The trimmed IP of the request.
    pub ip: String,
    pub blocked_until: u64,
    pub block_seconds: u64,
    /// The window of the rate limit (0 for the concurrent limit).
    pub window: u64,
    /// The request threshold of the rate limit, or the concurrent limit.
    pub max_requests: u64,
    /// The number of other playbacks (concurrent limit only).
    pub active_count: u64,
    pub note: String,
    /// A user ban is recorded in the runtime table.
    pub ban_user: bool,
    /// An IP ban is recorded in the runtime table.
    pub ban_ip: bool,
    /// Only a block of the same action counts as already placed.
    pub same_action: bool,
}

/// The block that a request over the rate limit earns.
pub fn rate_block_plan(settings: &RateLimitSettings, input: &PlaybackRateLimitInput, now: u64) -> (p:
    PendingBlock)
    ensures
        p.action@ == settings.action@,
        p.user@ == trim(input.playback_user@),
        p.ip@ == trim(input.playback_ip@),
        p.block_seconds == at_least_one(settings.block_seconds),
        p.blocked_until == sat_add(now, at_least_one(settings.block_seconds)),
        p.window == at_least_one(settings.window_seconds),
        p.max_requests == at_least_one(settings.max_requests),
        p.active_count == 0,
        p.note@ == block_note_spec(
            settings.action@,
            trim(input.playback_ip@),
            trim(input.playback_user@),
        ),
        p.ban_user == (action_disables_user_spec(settings.action@) && names_user(
            trim(input.playback_user@),
        )),
        p.ban_ip == action_blocks_ip_spec(settings.action@),
        !p.same_action,
{
    let user = trimmed(input.playback_user.as_str());
    let ip = trimmed(input.playback_ip.as_str());
    let has_user = user.len() > 0 && !chars_eq_str(&user, "--");
    let user_s = string_of(&user);
    let ip_s = string_of(&ip);
    let block_seconds = if settings.block_seconds < 1 {
        1
    } else {
        settings.block_seconds
    };
    let note = rate_limit_block_note(settings.action.as_str(), ip_s.as_str(), user_s.as_str());
    PendingBlock {
        action: settings.action.clone(),
        user: user_s,
        ip: ip_s,
        blocked_until: sat_add_exec(now, block_seconds),
        block_seconds,
        window: if settings.window_seconds < 1 {
            1
        } else {
            settings.window_seconds
        },
        max_requests: if settings.max_requests < 1 {
            1
        } else {
            settings.max_requests
        },
        active_count: 0,
        note,
        ban_user: action_disables_user(settings.action.as_str()) && has_user,
        ban_ip: action_blocks_ip(settings.action.as_str()),
        same_action: false,
    }
}

/// Whether the block was already in force, and whether pruning changed the stored blocks.
pub struct CommitResult {
    pub already_blocked: bool,
    pub pruned: bool,
}

/// Places a pending block at time `now` on the latest stored settings: prunes them; when a
/// block of the subject is already in force nothing else changes; otherwise the block is
/// recorded (see [`upsert_blocks`]) and the user or IP ban goes into the runtime tables.
pub fn commit_block(
    state: &mut RateLimitState,
    latest: &mut ClientControlConfig,
    server_id: &str,
    server_name: &str,
    plan: &PendingBlock,
    now: u64,
) -> (r: CommitResult)
    requires
        old(state).wf(),
    ensures
        final(state).wf(),
        same_but_blocks(*final(latest), *old(latest)),
        ({
            let blocks = pruned_blocks(block_views(old(latest).rate_limit_blocks@), now);
            let ukey = server_user_key_spec(server_id@, plan.user@);
            let ikey = server_ip_key_spec(server_id@, plan.ip@);
            &&& r.already_blocked == blocks_refuse(
                blocks,
                server_id@,
                plan.action@,
                plan.same_action,
                plan.user@,
                plan.ip@,
                now,
            )
            &&& r.pruned == (blocks.len() != old(latest).rate_limit_blocks@.len())
            &&& if r.already_blocked {
                &&& block_views(final(latest).rate_limit_blocks@) == blocks
                &&& final(state)@ == old(state)@
            } else {
                &&& exists|id: Seq<char>, created_at: Seq<char>|
                    is_client_id(id) && block_views(final(latest).rate_limit_blocks@)
                        == #[trigger] upsert_blocks(
                        blocks,
                        server_id@,
                        server_name@,
                        plan.action@,
                        plan.ip@,
                        plan.user@,
                        plan.blocked_until,
                        plan.note@,
                        id,
                        created_at,
                    )
                &&& final(state)@.hits == old(state)@.hits
                &&& final(state)@.recent == old(state)@.recent
                &&& if plan.ban_user {
                    stored_with_room(
                        old(state)@.bans,
                        live_entries(old(state)@.bans, now),
                        final(state)@.bans,
                        ukey,
                        plan.blocked_until,
                    )
                } else {
                    final(state)@.bans == old(state)@.bans
                }
                &&& if plan.ban_ip {
                    stored_with_room(
                        old(state)@.ip_bans,
                        live_entries(old(state)@.ip_bans, now),
                        final(state)@.ip_bans,
                        ikey,
                        plan.blocked_until,
                    )
                } else {
                    final(state)@.ip_bans == old(state)@.ip_bans
                }
            }
        }),
{
    let pruned = prune_inactive_rate_limit_blocks(latest, now);
    if any_block_refuses(
        &latest.rate_limit_blocks,
        server_id,
        plan.action.as_str(),
        plan.same_action,
        plan.user.as_str(),
        plan.ip.as_str(),
        now,
    ) {
        return CommitResult { already_blocked: true, pruned };
    }
    let note = plan.note.clone();
    upsert_rate_limit_block_with_note(
        latest,
        server_id,
        server_name,
        plan.action.as_str(),
        plan.ip.as_str(),
        plan.user.as_str(),
        plan.blocked_until,
        note,
    );
    if plan.ban_user {
        let key = server_user_key(server_id, plan.user.as_str());
        store_bounded(&mut state.bans, key, plan.blocked_until, now);
    }
    if plan.ban_ip {
        let key = server_ip_key(server_id, plan.ip.as_str());
        store_bounded(&mut state.ip_bans, key, plan.blocked_until, now);
    }
    CommitResult { already_blocked: false, pruned }
}

/// A playback request as the concurrent playback limit sees it.
#[derive(Debug, Clone)]
pub struct ConcurrentPlaybackLimitInput {
    pub server_id: String,
    pub server_name: String,
    pub playback_user: String,
    pub playback_ip: String,
    pub item_id: String,
    pub device_id: Option<String>,
}

/// What the concurrent limit decides before it looks at the active sessions.
#[derive(Debug, Clone, Copy, PartialEq, Eq, Structural)]
pub enum ConcurrentOutcome {
    /// The limit does not apply; the request goes through.
    NotApplicable,
    /// A block or ban in force refuses the request.
    Blocked,
    /// The user's active sessions decide.
    CountSessions,
}

/// The decision, whether pruning changed the stored blocks, the limit that applies and
/// whether the user's own limit set it.
pub struct ConcurrentStep {
    pub outcome: ConcurrentOutcome,
    pub pruned: bool,
    pub limit: u64,
    pub user_level: bool,
}

/// The user's own concurrent limit, when the policy turns it on.
pub open spec fn user_concurrent_limit_spec(policy: Option<UserPolicyRecord>) -> Option<u64> {
    match policy {
        Some(p) => if p.concurrent_playback_limit_enabled {
            Some(p.concurrent_playback_limit_max)
        } else {
            None
        },
        None => None,
    }
}

pub fn user_concurrent_limit(policy: Option<&UserPolicyRecord>) -> (r: Option<u64>)
    ensures
        r == user_concurrent_limit_spec(match policy {
            Some(p) => Some(*p),
            None => None,
        }),
{
    match policy {
        Some(p) => if p.concurrent_playback_limit_enabled {
            Some(p.concurrent_playback_limit_max)
        } else {
            None
        },
        None => None,
    }
}

/// The limit that applies: the global one when it is on, the user's, or the lower of both.
pub open spec fn concurrent_limit_spec(config: ClientControlConfig, user_limit: Option<u64>) -> Option<u64> {
    effective_limit_spec(
        if config.concurrent_playback_limit_enabled {
            Some(config.concurrent_playback_limit_max)
        } else {
            None
        },
        user_limit,
    )
}

/// The action of a concurrent block: the user's when the user's own limit is on, else the IP's.
pub open spec fn concurrent_action(user_level: bool) -> Seq<char> {
    if user_level {
        "block_user"@
    } else {
        "block_ip"@
    }
}

/// The concurrent limit applies to the request.
pub open spec fn concurrent_applies(
    config: ClientControlConfig,
    user_limit: Option<u64>,
    input: ConcurrentPlaybackLimitInput,
) -> bool {
    &&& concurrent_limit_spec(config, user_limit) is Some
    &&& names_user(trim(input.playback_user@))
    &&& names_ip(trim(input.playback_ip@))
}

/// How the tables change and what is decided for a request to which the concurrent limit
/// applies, given the blocks in force.
pub open spec fn concurrent_transition(
    t0: RateTables,
    t1: RateTables,
    blocks: Seq<BlockView>,
    user_level: bool,
    input: ConcurrentPlaybackLimitInput,
    now: u64,
    outcome: ConcurrentOutcome,
) -> bool {
    let user = trim(input.playback_user@);
    let ip = trim(input.playback_ip@);
    let action = concurrent_action(user_level);
    let ukey = server_user_key_spec(input.server_id@, user);
    let ikey = server_ip_key_spec(input.server_id@, ip);
    if blocks_refuse(blocks, input.server_id@, action, true, user, ip, now) {
        outcome == ConcurrentOutcome::Blocked && t1 == t0
    } else if user_level {
        if ban_live(t0.bans, ukey, now) {
            outcome == ConcurrentOutcome::Blocked && t1 == t0
        } else {
            outcome == ConcurrentOutcome::CountSessions && t1 == RateTables {
                bans: ban_cleared(t0.bans, ukey, now),
                ..t0
            }
        }
    } else {
        if ban_live(t0.ip_bans, ikey, now) {
            outcome == ConcurrentOutcome::Blocked && t1 == t0
        } else {
            outcome == ConcurrentOutcome::CountSessions && t1 == RateTables {
                ip_bans: ban_cleared(t0.ip_bans, ikey, now),
                ..t0
            }
        }
    }
}

fn concurrent_action_str(user_level: bool) -> (r: &'static str)
    ensures
        r@ == concurrent_action(user_level),
        action_uses_user_key_spec(r@) == user_level,
{
    proof {
        reveal_strlit("block_user");
        reveal_strlit("block_ip");
        reveal_strlit("disable_user");
        assert("block_ip"@.len() != "block_user"@.len());
        assert("block_ip"@.len() != "disable_user"@.len());
        assert("block_user"@[0] != "disable_user"@[0]);
    }
    if user_level {
        "block_user"
    } else {
        "block_ip"
    }
}

/// Decides a playback request against the concurrent limit at time `now`, up to the point
/// where the active sessions decide: prunes the stored blocks and refuses the request while a
/// block of the same action or a ban of its subject is in force (see
/// [`concurrent_transition`]).
pub fn check_concurrent_playback_limit(
    state: &mut RateLimitState,
    config: &mut ClientControlConfig,
    user_limit: Option<u64>,
    input: &ConcurrentPlaybackLimitInput,
    now: u64,
) -> (r: ConcurrentStep)
    requires
        old(state).wf(),
    ensures
        final(state).wf(),
        !concurrent_applies(*old(config), user_limit, *input) ==> r.outcome
            == ConcurrentOutcome::NotApplicable && final(state)@ == old(state)@ && *final(config)
            == *old(config) && !r.pruned,
        concurrent_applies(*old(config), user_limit, *input) ==> {
            &&& block_views(final(config).rate_limit_blocks@) == pruned_blocks(
                block_views(old(config).rate_limit_blocks@),
                now,
            )
            &&& same_but_blocks(*final(config), *old(config))
            &&& r.pruned == (final(config).rate_limit_blocks@.len()
                != old(config).rate_limit_blocks@.len())
            &&& r.limit == concurrent_limit_spec(*old(config), user_limit)->0
            &&& r.user_level == (user_limit is Some)
            &&& r.outcome != ConcurrentOutcome::NotApplicable
            &&& concurrent_transition(
                old(state)@,
                final(state)@,
                block_views(final(config).rate_limit_blocks@),
                user_limit is Some,
                *input,
                now,
                r.outcome,
            )
        },
{
    let global = if config.concurrent_playback_limit_enabled {
        Some(config.concurrent_playback_limit_max)
    } else {
        None
    };
    let user_level = user_limit.is_some();
    let limit = match effective_concurrent_playback_limit(global, user_limit) {
        Some(l) => l,
        None => {
            return ConcurrentStep {
                outcome: ConcurrentOutcome::NotApplicable,
                pruned: false,
                limit: 0,
                user_level,
            };
        },
    };
    let user = trimmed(input.playback_user.as_str());
    let ip = trimmed(input.playback_ip.as_str());
    if user.len() == 0 || chars_eq_str(&user, "--") || ip.len() == 0 || chars_eq_str(&ip, "--") {
        return ConcurrentStep {
            outcome: ConcurrentOutcome::NotApplicable,
            pruned: false,
            limit: 0,
            user_level,
        };
    }
    let action = concurrent_action_str(user_level);
    let pruned = prune_inactive_rate_limit_blocks(config, now);
    let user_s = string_of(&user);
    let ip_s = string_of(&ip);
    if any_block_refuses(
        &config.rate_limit_blocks,
        input.server_id.as_str(),
        action,
        true,
        user_s.as_str(),
        ip_s.as_str(),
        now,
    ) {
        return ConcurrentStep { outcome: ConcurrentOutcome::Blocked, pruned, limit, user_level };
    }
    if user_level {
        let ukey = server_user_key(input.server_id.as_str(), user_s.as_str());
        if ban_in_force(&mut state.bans, ukey.as_str(), now) {
            return ConcurrentStep { outcome: ConcurrentOutcome::Blocked, pruned, limit, user_level };
        }
    } else {
        let ikey = server_ip_key(input.server_id.as_str(), ip_s.as_str());
        if ban_in_force(&mut state.ip_bans, ikey.as_str(), now) {
            return ConcurrentStep { outcome: ConcurrentOutcome::Blocked, pruned, limit, user_level };
        }
    }
    ConcurrentStep { outcome: ConcurrentOutcome::CountSessions, pruned, limit, user_level }
}

/// The block seconds of a concurrent block: the user's when the user's own concurrent limit
/// is on, else the global rate-limit setting.
pub fn concurrent_block_seconds(config: &ClientControlConfig, policy: Option<&UserPolicyRecord>) -> (r:
    u64)
    ensures
        r == match policy {
            Some(p) => if p.concurrent_playback_limit_enabled {
                p.rate_limit_block_seconds
            } else {
                config.playback_rate_limit_block_seconds
            },
            None => config.playback_rate_limit_block_seconds,
        },
{
    match policy {
        Some(p) => if p.concurrent_playback_limit_enabled {
            p.rate_limit_block_seconds
        } else {
            config.playback_rate_limit_block_seconds
        },
        None => config.playback_rate_limit_block_seconds,
    }
}

/// The block that a request earns when the user already has `limit` or more other playbacks
/// (see [`active_session_count`]); `None` while the user stays under the limit. `sessions` is
/// the outcome of looking up the server's sessions: when the lookup failed (`None`) the
/// request goes through and no block is earned.
pub fn concurrent_block_plan(
    sessions: Option<&[PlaybackSession]>,
    input: &ConcurrentPlaybackLimitInput,
    limit: u64,
    user_level: bool,
    block_seconds: u64,
    now: u64,
) -> (r: Option<PendingBlock>)
    ensures
        sessions is None ==> r is None,
        sessions matches Some(sessions) ==> ({
            let user = trim(input.playback_user@);
            let ip = trim(input.playback_ip@);
            let count = active_session_count(
                sessions@,
                input.server_id@,
                user,
                input.item_id@,
                match input.device_id {
                    Some(d) => Some(d@),
                    None => None,
                },
            );
            &&& (r is None <==> count < limit)
            &&& r matches Some(p) ==> {
                &&& p.action@ == concurrent_action(user_level)
                &&& p.user@ == user
                &&& p.ip@ == ip
                &&& p.block_seconds == at_least_one(block_seconds)
                &&& p.blocked_until == sat_add(now, at_least_one(block_seconds))
                &&& p.window == 0
                &&& p.max_requests == limit
                &&& p.active_count == count
                &&& p.note@ == concurrent_note_spec(ip, user)
                &&& p.ban_user == user_level
                &&& p.ban_ip == !user_level
                &&& p.same_action
            }
        }),
{
    let sessions = match sessions {
        Some(s) => s,
        None => {
            return None;
        },
    };
    let user = trimmed(input.playback_user.as_str());
    let ip = trimmed(input.playback_ip.as_str());
    let user_s = string_of(&user);
    let ip_s = string_of(&ip);
    let device: Option<&str> = match &input.device_id {
        Some(d) => Some(d.as_str()),
        None => None,
    };
    let count = count_active_playback_sessions(
        sessions,
        input.server_id.as_str(),
        user_s.as_str(),
        input.item_id.as_str(),
        device,
    );
    if count < limit {
        return None;
    }
    let seconds = if block_seconds < 1 {
        1
    } else {
        block_seconds
    };
    let action = concurrent_action_str(user_level);
    let note = concurrent_limit_block_note(ip_s.as_str(), user_s.as_str());
    Some(
        PendingBlock {
            action: String::from_str(action),
            user: user_s,
            ip: ip_s,
            blocked_until: sat_add_exec(now, seconds),
            block_seconds: seconds,
            window: 0,
            max_requests: limit,
            active_count: count,
            note,
            ban_user: user_level,
            ban_ip: !user_level,
            same_action: true,
        },
    )
}

/// The user's own rate limit is on.
pub open spec fn policy_rate_on(policy: Option<UserPolicyRecord>) -> bool {
    policy matches Some(p) && p.rate_limit_enabled
}

pub open spec fn opt_policy(policy: Option<&UserPolicyRecord>) -> Option<UserPolicyRecord> {
    match policy {
        Some(p) => Some(*p),
        None => None,
    }
}

/// The rate limit that applies to a user: the user's own policy when it is on, else the
/// global settings when they are on; `None` when neither is.
pub fn rate_limit_settings(config: &ClientControlConfig, policy: Option<&UserPolicyRecord>) -> (r:
    Option<RateLimitSettings>)
    ensures
        ({
            let p = opt_policy(policy);
            let on = policy_rate_on(p);
            &&& (r is None <==> (!config.playback_rate_limit_enabled && !on))
            &&& r matches Some(s) ==> {
                &&& s.user_level == on
                &&& s.action@ == normalize_action_spec(
                    if on {
                        p->0.rate_limit_action@
                    } else {
                        config.playback_rate_limit_action@
                    },
                )
                &&& s.window_seconds == if on {
                    p->0.rate_limit_window_seconds
                } else {
                    config.playback_rate_limit_window_seconds
                }
                &&& s.max_requests == if on {
                    p->0.rate_limit_max_requests
                } else {
                    config.playback_rate_limit_max_requests
                }
                &&& s.block_seconds == if on {
                    p->0.rate_limit_block_seconds
                } else {
                    config.playback_rate_limit_block_seconds
                }
            }
        }),
{
    match policy {
        Some(p) => {
            if p.rate_limit_enabled {
                return Some(
                    RateLimitSettings {
                        user_level: true,
                        action: normalize_playback_rate_limit_action(p.rate_limit_action.as_str()),
                        window_seconds: p.rate_limit_window_seconds,
                        max_requests: p.rate_limit_max_requests,
                        block_seconds: p.rate_limit_block_seconds,
                    },
                );
            }
        },
        None => {},
    }
    if !config.playback_rate_limit_enabled {
        return None;
    }
    Some(
        RateLimitSettings {
            user_level: false,
            action: normalize_playback_rate_limit_action(config.playback_rate_limit_action.as_str()),
            window_seconds: config.playback_rate_limit_window_seconds,
            max_requests: config.playback_rate_limit_max_requests,
            block_seconds: config.playback_rate_limit_block_seconds,
        },
    )
}

/// The first block with identifier `id`.
pub open spec fn first_block_with_id(s: Seq<BlockView>, id: Seq<char>, i: int) -> Option<int>
    decreases s.len() - i,
{
    if i < 0 || i >= s.len() {
        None
    } else if s[i].id == id {
        Some(i)
    } else {
        first_block_with_id(s, id, i + 1)
    }
}

proof fn lemma_first_block_with_id(s: Seq<BlockView>, id: Seq<char>, i: int)
    requires
        0 <= i,
    ensures
        first_block_with_id(s, id, i) matches Some(j) ==> i <= j < s.len() && s[j].id == id,
    decreases s.len() - i,
{
    if i < s.len() && s[i].id != id {
        lemma_first_block_with_id(s, id, i + 1);
    }
}

fn find_block_with_id(blocks: &Vec<PlaybackRateBlockRecord>, id: &str) -> (r: Option<usize>)
    ensures
        match r {
            Some(j) => first_block_with_id(block_views(blocks@), id@, 0) == Some(j as int),
            None => first_block_with_id(block_views(blocks@), id@, 0) is None,
        },
{
    let ghost s = block_views(blocks@);
    let mut j: usize = 0;
    while j < blocks.len()
        invariant
            j <= blocks@.len(),
            s == block_views(blocks@),
            first_block_with_id(s, id@, 0) == first_block_with_id(s, id@, j as int),
        decreases blocks@.len() - j,
    {
        assert(s[j as int] == blocks@[j as int]@);
        if str_eq(blocks[j].id.as_str(), id) {
            return Some(j);
        }
        j = j + 1;
    }
    None
}

/// A block lifted by hand, with what the panel still has to do about it.
pub struct UnblockPlan {
    pub record: PlaybackRateBlockRecord,
    /// The block's action, normalized.
    pub action: String,
    /// The Emby user is to be enabled again.
    pub enable_user: bool,
}

/// Lifts the first block with identifier `id`: removes it from the settings and its ban from
/// the runtime tables. The error names a missing block.
pub fn unblock_rate_limit_block(state: &mut RateLimitState, config: &mut ClientControlConfig, id: &str) -> (r:
    Result<UnblockPlan, String>)
    requires
        old(state).wf(),
    ensures
        final(state).wf(),
        match first_block_with_id(block_views(old(config).rate_limit_blocks@), id@, 0) {
            None => r is Err && r->Err_0@ == "rate limit block not found"@ && final(state)@
                == old(state)@ && *final(config) == *old(config),
            Some(j) => r matches Ok(plan) && {
                let b = block_views(old(config).rate_limit_blocks@)[j];
                let action = normalize_action_spec(b.action);
                &&& plan.record@ == b
                &&& plan.action@ == action
                &&& plan.enable_user == (action_disables_user_spec(action) && trim(b.user_name).len()
                    > 0 && b.user_name != "--"@)
                &&& block_views(final(config).rate_limit_blocks@) == block_views(
                    old(config).rate_limit_blocks@,
                ).remove(j)
                &&& same_but_blocks(*final(config), *old(config))
                &&& final(state)@.hits == old(state)@.hits
                &&& final(state)@.recent == old(state)@.recent
                &&& final(state)@.ip_bans == if action_blocks_ip_spec(action) {
                    old(state)@.ip_bans.remove(server_ip_key_spec(b.server_id, b.ip))
                } else {
                    old(state)@.ip_bans
                }
                &&& final(state)@.bans == if action_uses_user_key_spec(action) {
                    old(state)@.bans.remove(server_user_key_spec(b.server_id, b.user_name))
                } else {
                    old(state)@.bans
                }
            },
        },
{
    let ghost s = block_views(config.rate_limit_blocks@);
    let j = match find_block_with_id(&config.rate_limit_blocks, id) {
        Some(j) => j,
        None => {
            proof {
                reveal_strlit("rate limit block not found");
            }
            return Err(String::from_str("rate limit block not found"));
        },
    };
    proof {
        lemma_first_block_with_id(s, id@, 0);
    }
    let mut blocks: Vec<PlaybackRateBlockRecord> = Vec::new();
    std::mem::swap(&mut blocks, &mut config.rate_limit_blocks);
    let record = blocks.remove(j);
    assert(block_views(blocks@) =~= s.remove(j as int));
    config.rate_limit_blocks = blocks;
    let action = normalize_playback_rate_limit_action(record.action.as_str());
    if action_blocks_ip(action.as_str()) {
        let key = server_ip_key(record.server_id.as_str(), record.ip.as_str());
        state.ip_bans.remove(key.as_str());
    }
    if action_uses_user_key(action.as_str()) {
        let key = server_user_key(record.server_id.as_str(), record.user_name.as_str());
        state.bans.remove(key.as_str());
    }
    let user = trimmed(record.user_name.as_str());
    let dashes = crate::client_control::str_eq_lit(&record.user_name, "--");
    let enable_user = action_disables_user(action.as_str()) && user.len() > 0 && !dashes;
    Ok(UnblockPlan { record, action, enable_user })
}

/// Every block except those with identifier `id`, in their order.
pub open spec fn blocks_without_id(s: Seq<BlockView>, id: Seq<char>) -> Seq<BlockView>
    decreases s.len(),
{
    if s.len() == 0 {
        Seq::empty()
    } else {
        let a = blocks_without_id(s.drop_last(), id);
        if s.last().id != id {
            a.push(s.last())
        } else {
            a
        }
    }
}

/// Removes every block with identifier `id`.
pub fn remove_blocks_with_id(config: &mut ClientControlConfig, id: &str)
    ensures
        block_views(final(config).rate_limit_blocks@) == blocks_without_id(
            block_views(old(config).rate_limit_blocks@),
            id@,
        ),
        same_but_blocks(*final(config), *old(config)),
{
    let mut rest: Vec<PlaybackRateBlockRecord> = Vec::new();
    std::mem::swap(&mut rest, &mut config.rate_limit_blocks);
    let ghost input = block_views(rest@);
    let mut kept: Vec<PlaybackRateBlockRecord> = Vec::new();
    let n = rest.len();
    let mut i: usize = 0;
    assert(input.take(0) =~= Seq::<BlockView>::empty());
    while rest.len() > 0
        invariant
            n == input.len(),
            i + rest@.len() == n,
            block_views(rest@) == input.skip(i as int),
            block_views(kept@) == blocks_without_id(input.take(i as int), id@),
        decreases rest@.len(),
    {
        let ghost before = rest@;
        let record = rest.remove(0);
        assert(block_views(rest@) =~= input.skip(i + 1)) by {
            assert forall|k: int| 0 <= k < rest@.len() implies #[trigger] block_views(rest@)[k]
                == input.skip(i + 1)[k] by {
                assert(block_views(before)[k + 1] == input.skip(i as int)[k + 1]);
            }
        }
        assert(block_views(before)[0] == input.skip(i as int)[0]);
        assert(record@ == input[i as int]);
        assert(input.take(i + 1).drop_last() =~= input.take(i as int));
        let ghost k0 = block_views(kept@);
        if !str_eq(record.id.as_str(), id) {
            kept.push(record);
            assert(block_views(kept@) =~= k0.push(input[i as int]));
        }
        i = i + 1;
    }
    assert(input.take(n as int) =~= input);
    config.rate_limit_blocks = kept;
}

/// A placed block refuses its subject until it expires: once a request over the rate limit
/// has its block recorded on the stored blocks (as [`commit_block`] records it at `now`), every
/// later request of the same subject with the same settings, at any time before the expiry,
/// is refused and leaves the runtime tables as they are.
pub proof fn lemma_rate_block_refuses_until_expiry(
    blocks: Seq<BlockView>,
    s: RateLimitSettings,
    input: PlaybackRateLimitInput,
    plan: PendingBlock,
    server_name: Seq<char>,
    id: Seq<char>,
    created_at: Seq<char>,
    now: u64,
    later: u64,
    t0: RateTables,
    t1: RateTables,
    outcome: RateLimitOutcome,
)
    requires
        rate_applies(Some(s), input),
        plan.action@ == s.action@,
        plan.user@ == trim(input.playback_user@),
        plan.ip@ == trim(input.playback_ip@),
        later < plan.blocked_until,
        rate_transition(
            t0,
            t1,
            pruned_blocks(
                upsert_blocks(
                    pruned_blocks(blocks, now),
                    input.server_id@,
                    server_name,
                    plan.action@,
                    plan.ip@,
                    plan.user@,
                    plan.blocked_until,
                    plan.note@,
                    id,
                    created_at,
                ),
                later,
            ),
            s,
            input,
            later,
            outcome,
        ),
    ensures
        outcome == RateLimitOutcome::Blocked,
        t1 == t0,
{
    let sid = input.server_id@;
    let user = trim(input.playback_user@);
    let ip = trim(input.playback_ip@);
    let p = pruned_blocks(blocks, now);
    lemma_pruned_blocks(blocks, now);
    let u = upsert_blocks(p, sid, server_name, plan.action@, plan.ip@, plan.user@, plan.blocked_until, plan.note@, id, created_at);
    lemma_upsert_blocks(p, sid, server_name, plan.action@, plan.ip@, plan.user@, plan.blocked_until, plan.note@, id, created_at);
    let j = choose|j: int|
        0 <= j < u.len() && block_matches(#[trigger] u[j], sid, plan.action@, plan.ip@, plan.user@)
            && u[j].blocked_until == decimal(plan.blocked_until as nat);
    lemma_decimal_parses(plan.blocked_until as nat, 0xffff_ffff_ffff_ffff);
    assert(blocked_until_value(u[j].blocked_until) == plan.blocked_until);
    assert(block_active(u[j], later));
    lemma_active_keeps(u, later, j);
    lemma_active_len(u, later);
    let a = active_blocks(u, later);
    assert(pruned_blocks(u, later) == a);
    let i = choose|i: int| 0 <= i < a.len() && a[i] == u[j];
    assert(block_refuses(a[i], sid, s.action@, false, user, ip, later));
    assert(blocks_refuse(a, sid, s.action@, false, user, ip, later));
}

/// A placed concurrent block refuses its subject until it expires: once a request over the
/// concurrent limit has its block recorded on the stored blocks (as [`commit_block`] records
/// it at `now`), every later request of the same subject under the same kind of limit, at any
/// time before the expiry, is refused and leaves the runtime tables as they are.
pub proof fn lemma_concurrent_block_refuses_until_expiry(
    blocks: Seq<BlockView>,
    user_level: bool,
    input: ConcurrentPlaybackLimitInput,
    plan: PendingBlock,
    server_name: Seq<char>,
    id: Seq<char>,
    created_at: Seq<char>,
    now: u64,
    later: u64,
    t0: RateTables,
    t1: RateTables,
    outcome: ConcurrentOutcome,
)
    requires
        plan.action@ == concurrent_action(user_level),
        plan.user@ == trim(input.playback_user@),
        plan.ip@ == trim(input.playback_ip@),
        later < plan.blocked_until,
        concurrent_transition(
            t0,
            t1,
            pruned_blocks(
                upsert_blocks(
                    pruned_blocks(blocks, now),
                    input.server_id@,
                    server_name,
                    plan.action@,
                    plan.ip@,
                    plan.user@,
                    plan.blocked_until,
                    plan.note@,
                    id,
                    created_at,
                ),
                later,
            ),
            user_level,
            input,
            later,
            outcome,
        ),
    ensures
        outcome == ConcurrentOutcome::Blocked,
        t1 == t0,
{
    let sid = input.server_id@;
    let user = trim(input.playback_user@);
    let ip = trim(input.playback_ip@);
    let p = pruned_blocks(blocks, now);
    lemma_pruned_blocks(blocks, now);
    let u = upsert_blocks(p, sid, server_name, plan.action@, plan.ip@, plan.user@, plan.blocked_until, plan.note@, id, created_at);
    lemma_upsert_blocks(p, sid, server_name, plan.action@, plan.ip@, plan.user@, plan.blocked_until, plan.note@, id, created_at);
    let j = choose|j: int|
        0 <= j < u.len() && block_matches(#[trigger] u[j], sid, plan.action@, plan.ip@, plan.user@)
            && u[j].blocked_until == decimal(plan.blocked_until as nat);
    lemma_decimal_parses(plan.blocked_until as nat, 0xffff_ffff_ffff_ffff);
    assert(block_active(u[j], later));
    lemma_active_keeps(u, later, j);
    lemma_active_len(u, later);
    let a = active_blocks(u, later);
    assert(pruned_blocks(u, later) == a);
    let i = choose|i: int| 0 <= i < a.len() && a[i] == u[j];
    assert(block_refuses(a[i], sid, concurrent_action(user_level), true, user, ip, later));
    assert(blocks_refuse(a, sid, concurrent_action(user_level), true, user, ip, later));
}

impl RateLimitState {
    /// Empties every table.
    pub fn clear(&mut self)
        ensures
            final(self).wf(),
            final(self)@.hits == Map::<Seq<char>, Seq<PlaybackRateHit>>::empty(),
            final(self)@.recent == Map::<Seq<char>, u64>::empty(),
            final(self)@.bans == Map::<Seq<char>, u64>::empty(),
            final(self)@.ip_bans == Map::<Seq<char>, u64>::empty(),
    {
        *self = RateLimitState::new();
    }
}

} // verus!
