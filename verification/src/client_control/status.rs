//! The rows of the rate-limit status page: one per counted window with requests in the
//! current window, then one per block in force on an IP that no window row shows, the
//! busiest first.

use std::collections::VecDeque;
use vstd::prelude::*;
use vstd::string::StringExecFns;
use crate::client_control::blocks::{block_views, blocked_until_of, blocked_until_value};
use crate::client_control::limiter::{names_user, sat_add, sat_sub, RateLimitState};
use crate::client_control::sessions::at_least_one;
use crate::client_control::{
    normalize_value, normalize_value_spec, BlockView, ClientControlConfig, PlaybackRateBlockRecord,
    PlaybackRateHit, PlaybackRateWindowStatus,
};
use crate::strmap::{str_eq, StrMap};
use crate::text::{
    chars_eq_str, chars_of, decimal, decimal_string, opt_string_view, split_once, split_once_chars,
    string_of, trim, trimmed,
};

verus! {

/// The text of a status row, without its location.
pub struct StatusRow {
    pub server_id: Seq<char>,
    pub block_id: Option<Seq<char>>,
    pub block_action: Option<Seq<char>>,
    pub user_name: Seq<char>,
    pub ip: Seq<char>,
    pub current_count: u64,
    pub threshold: u64,
    pub remaining: u64,
    pub window_seconds: u64,
    pub reset_at: Seq<char>,
    pub blocked: bool,
}

impl View for PlaybackRateWindowStatus {
    type V = StatusRow;

    open spec fn view(&self) -> StatusRow {
        StatusRow {
            server_id: self.server_id@,
            block_id: opt_string_view(self.block_id),
            block_action: opt_string_view(self.block_action),
            user_name: self.user_name@,
            ip: self.ip@,
            current_count: self.current_count,
            threshold: self.threshold,
            remaining: self.remaining,
            window_seconds: self.window_seconds,
            reset_at: self.reset_at@,
            blocked: self.blocked,
        }
    }
}

pub open spec fn row_views(s: Seq<PlaybackRateWindowStatus>) -> Seq<StatusRow> {
    s.map_values(|r: PlaybackRateWindowStatus| r@)
}

/// The requests of a window made less than `window` seconds before `now`.
pub open spec fn active_hits(q: Seq<PlaybackRateHit>, now: u64, window: u64) -> Seq<PlaybackRateHit>
    decreases q.len(),
{
    if q.len() == 0 {
        Seq::empty()
    } else {
        let a = active_hits(q.drop_last(), now, window);
        if sat_sub(now, q.last().timestamp) < window {
            a.push(q.last())
        } else {
            a
        }
    }
}

/// The last user named by the requests.
pub open spec fn last_named_user(q: Seq<PlaybackRateHit>) -> Option<Seq<char>>
    decreases q.len(),
{
    if q.len() == 0 {
        None
    } else if names_user(trim(q.last().user_name@)) {
        Some(trim(q.last().user_name@))
    } else {
        last_named_user(q.drop_last())
    }
}

/// A block in force on the IP of the server.
pub open spec fn block_on(b: BlockView, server_id: Seq<char>, ip: Seq<char>, now: u64) -> bool {
    b.enabled && b.server_id == server_id && b.ip == ip && blocked_until_value(b.blocked_until) > now
}

/// The first block in force on the IP of the server, from position `i` on.
pub open spec fn first_block_on(s: Seq<BlockView>, server_id: Seq<char>, ip: Seq<char>, now: u64, i: int) -> Option<
    int,
>
    decreases s.len() - i,
{
    if i < 0 || i >= s.len() {
        None
    } else if block_on(s[i], server_id, ip, now) {
        Some(i)
    } else {
        first_block_on(s, server_id, ip, now, i + 1)
    }
}

/// The user named by the first block in force on the IP that names one, from position `i` on.
pub open spec fn block_user_on(s: Seq<BlockView>, server_id: Seq<char>, ip: Seq<char>, now: u64, i: int) -> Option<
    Seq<char>,
>
    decreases s.len() - i,
{
    if i < 0 || i >= s.len() {
        None
    } else if block_on(s[i], server_id, ip, now) && names_user(trim(s[i].user_name)) {
        Some(trim(s[i].user_name))
    } else {
        block_user_on(s, server_id, ip, now, i + 1)
    }
}

/// The row of the window stored under `key`, when the key has the form `server:ip` and the
/// window holds requests of the current window.
pub open spec fn window_row(
    key: Seq<char>,
    q: Seq<PlaybackRateHit>,
    blocks: Seq<BlockView>,
    now: u64,
    window: u64,
    threshold: u64,
) -> Option<StatusRow> {
    match split_once(key, ":"@) {
        None => None,
        Some((server_id, ip)) => {
            let active = active_hits(q, now, window);
            if active.len() == 0 {
                None
            } else {
                let user = match last_named_user(active) {
                    Some(u) => u,
                    None => match block_user_on(blocks, server_id, ip, now, 0) {
                        Some(u) => u,
                        None => "--"@,
                    },
                };
                let block = first_block_on(blocks, server_id, ip, now, 0);
                let count = active.len() as u64;
                Some(
                    StatusRow {
                        server_id: server_id,
                        block_id: match block {
                            Some(j) => Some(blocks[j].id),
                            None => None,
                        },
                        block_action: match block {
                            Some(j) => Some(blocks[j].action),
                            None => None,
                        },
                        user_name: user,
                        ip: ip,
                        current_count: count,
                        threshold: threshold,
                        remaining: sat_sub(threshold, count),
                        window_seconds: window,
                        reset_at: decimal(sat_add(active[0].timestamp, window) as nat),
                        blocked: block is Some,
                    },
                )
            }
        },
    }
}

/// The window rows of the first `n` entries of the table, in its order.
pub open spec fn window_rows(
    hits: StrMap<VecDeque<PlaybackRateHit>>,
    n: int,
    blocks: Seq<BlockView>,
    now: u64,
    window: u64,
    threshold: u64,
) -> Seq<StatusRow>
    decreases n,
{
    if n <= 0 {
        Seq::empty()
    } else {
        let rows = window_rows(hits, n - 1, blocks, now, window, threshold);
        let key = hits.spec_key_at(n - 1);
        match window_row(key, hits@[key]@, blocks, now, window, threshold) {
            Some(r) => rows.push(r),
            None => rows,
        }
    }
}

/// The blocks from position `i` on that add a row: those in force on a non-blank IP whose
/// server and IP no earlier row shows.
pub open spec fn block_rows(
    s: Seq<BlockView>,
    i: int,
    seen: Set<(Seq<char>, Seq<char>)>,
    now: u64,
    window: u64,
    threshold: u64,
) -> Seq<StatusRow>
    decreases s.len() - i,
{
    if i < 0 || i >= s.len() {
        Seq::empty()
    } else {
        let b = s[i];
        let until = blocked_until_value(b.blocked_until);
        if !b.enabled || until <= now || trim(b.ip).len() == 0 || seen.contains((b.server_id, b.ip)) {
            block_rows(s, i + 1, seen, now, window, threshold)
        } else {
            seq![
                StatusRow {
                    server_id: b.server_id,
                    block_id: Some(b.id),
                    block_action: Some(b.action),
                    user_name: normalize_value_spec(b.user_name),
                    ip: normalize_value_spec(b.ip),
                    current_count: 0,
                    threshold: threshold,
                    remaining: threshold,
                    window_seconds: window,
                    reset_at: decimal(until),
                    blocked: true,
                },
            ] + block_rows(s, i + 1, seen.insert((b.server_id, b.ip)), now, window, threshold)
        }
    }
}

/// The server and IP shown by rows.
pub open spec fn row_keys(rows: Seq<StatusRow>) -> Set<(Seq<char>, Seq<char>)> {
    Set::new(|k: (Seq<char>, Seq<char>)| exists|i: int| 0 <= i < rows.len() && #[trigger] rows[i].server_id == k.0 && rows[i].ip == k.1)
}

/// The first position from `i` on whose count is below `c`, or the length.
pub open spec fn first_smaller(s: Seq<StatusRow>, c: u64, i: int) -> int
    decreases s.len() - i,
{
    if i < 0 || i >= s.len() {
        s.len() as int
    } else if s[i].current_count < c {
        i
    } else {
        first_smaller(s, c, i + 1)
    }
}

/// The rows sorted by count, largest first, rows with equal counts in their order.
pub open spec fn sort_by_count_desc(s: Seq<StatusRow>) -> Seq<StatusRow>
    decreases s.len(),
{
    if s.len() == 0 {
        Seq::empty()
    } else {
        let t = sort_by_count_desc(s.drop_last());
        t.insert(first_smaller(t, s.last().current_count, 0), s.last())
    }
}

/// The status page: the window rows, then the block rows for servers and IPs they do not
/// show, sorted by count, largest first.
pub open spec fn status_rows(
    hits: StrMap<VecDeque<PlaybackRateHit>>,
    blocks: Seq<BlockView>,
    now: u64,
    window: u64,
    threshold: u64,
) -> Seq<StatusRow> {
    let w = window_rows(hits, hits.spec_len() as int, blocks, now, window, threshold);
    sort_by_count_desc(w + block_rows(blocks, 0, row_keys(w), now, window, threshold))
}

fn active_hits_exec(q: &VecDeque<PlaybackRateHit>, now: u64, window: u64) -> (r: Vec<PlaybackRateHit>)
    ensures
        r@ == active_hits(q@, now, window),
{
    let mut r: Vec<PlaybackRateHit> = Vec::new();
    let mut i: usize = 0;
    assert(q@.take(0) =~= Seq::<PlaybackRateHit>::empty());
    while i < q.len()
        invariant
            i <= q@.len(),
            r@ == active_hits(q@.take(i as int), now, window),
        decreases q@.len() - i,
    {
        assert(q@.take(i + 1).drop_last() =~= q@.take(i as int));
        let ts = q[i].timestamp;
        let age = if now >= ts {
            now - ts
        } else {
            0
        };
        if age < window {
            r.push(q[i].duplicate());
        }
        i = i + 1;
    }
    assert(q@.take(q@.len() as int) =~= q@);
    r
}

fn last_named_user_exec(a: &Vec<PlaybackRateHit>) -> (r: Option<String>)
    ensures
        opt_string_view(r) == last_named_user(a@),
{
    let mut i: usize = a.len();
    assert(a@.take(a@.len() as int) =~= a@);
    while i > 0
        invariant
            i <= a@.len(),
            last_named_user(a@) == last_named_user(a@.take(i as int)),
        decreases i,
    {
        let t = trimmed(a[i - 1].user_name.as_str());
        assert(a@.take(i as int).drop_last() =~= a@.take(i - 1));
        assert(a@.take(i as int).last() == a@[i - 1]);
        if t.len() > 0 && !chars_eq_str(&t, "--") {
            return Some(string_of(&t));
        }
        i = i - 1;
    }
    None
}

fn block_on_exec(b: &PlaybackRateBlockRecord, server_id: &str, ip: &str, now: u64) -> (r: bool)
    ensures
        r == block_on(b@, server_id@, ip@, now),
{
    b.enabled && str_eq(b.server_id.as_str(), server_id) && str_eq(b.ip.as_str(), ip)
        && blocked_until_of(b) > now
}

fn first_block_on_exec(blocks: &Vec<PlaybackRateBlockRecord>, server_id: &str, ip: &str, now: u64) -> (r:
    Option<usize>)
    ensures
        match r {
            Some(j) => j < blocks@.len() && first_block_on(block_views(blocks@), server_id@, ip@, now, 0)
                == Some(j as int),
            None => first_block_on(block_views(blocks@), server_id@, ip@, now, 0) is None,
        },
{
    let ghost s = block_views(blocks@);
    let mut j: usize = 0;
    while j < blocks.len()
        invariant
            j <= blocks@.len(),
            s == block_views(blocks@),
            first_block_on(s, server_id@, ip@, now, 0) == first_block_on(s, server_id@, ip@, now, j as int),
        decreases blocks@.len() - j,
    {
        assert(s[j as int] == blocks@[j as int]@);
        if block_on_exec(&blocks[j], server_id, ip, now) {
            return Some(j);
        }
        j = j + 1;
    }
    None
}

fn block_user_on_exec(blocks: &Vec<PlaybackRateBlockRecord>, server_id: &str, ip: &str, now: u64) -> (r:
    Option<String>)
    ensures
        opt_string_view(r) == block_user_on(block_views(blocks@), server_id@, ip@, now, 0),
{
    let ghost s = block_views(blocks@);
    let mut j: usize = 0;
    while j < blocks.len()
        invariant
            j <= blocks@.len(),
            s == block_views(blocks@),
            block_user_on(s, server_id@, ip@, now, 0) == block_user_on(s, server_id@, ip@, now, j as int),
        decreases blocks@.len() - j,
    {
        assert(s[j as int] == blocks@[j as int]@);
        let t = trimmed(blocks[j].user_name.as_str());
        if block_on_exec(&blocks[j], server_id, ip, now) && t.len() > 0 && !chars_eq_str(&t, "--") {
            return Some(string_of(&t));
        }
        j = j + 1;
    }
    None
}

fn window_row_exec(
    key: &String,
    q: &VecDeque<PlaybackRateHit>,
    blocks: &Vec<PlaybackRateBlockRecord>,
    now: u64,
    window: u64,
    threshold: u64,
) -> (r: Option<PlaybackRateWindowStatus>)
    ensures
        match r {
            Some(row) => window_row(key@, q@, block_views(blocks@), now, window, threshold) == Some(row@)
                && row.ip_location is None,
            None => window_row(key@, q@, block_views(blocks@), now, window, threshold) is None,
        },
{
    let k = chars_of(key.as_str());
    let colon = chars_of(":");
    let (sid_v, ip_v) = match split_once_chars(&k, &colon) {
        Some(parts) => parts,
        None => {
            return None;
        },
    };
    let active = active_hits_exec(q, now, window);
    if active.len() == 0 {
        return None;
    }
    let server_id = string_of(&sid_v);
    let ip = string_of(&ip_v);
    let user = match last_named_user_exec(&active) {
        Some(u) => u,
        None => match block_user_on_exec(blocks, server_id.as_str(), ip.as_str(), now) {
            Some(u) => u,
            None => String::from_str("--"),
        },
    };
    let block = first_block_on_exec(blocks, server_id.as_str(), ip.as_str(), now);
    let ghost bs = block_views(blocks@);
    let (block_id, block_action) = match block {
        Some(j) => {
            assert(bs[j as int] == blocks@[j as int]@);
            (Some(blocks[j].id.clone()), Some(blocks[j].action.clone()))
        },
        None => (None, None),
    };
    let count = active.len() as u64;
    let oldest = active[0].timestamp;
    let reset = if oldest > 0xffff_ffff_ffff_ffffu64 - window {
        0xffff_ffff_ffff_ffffu64
    } else {
        oldest + window
    };
    let remaining = if threshold >= count {
        threshold - count
    } else {
        0
    };
    Some(
        PlaybackRateWindowStatus {
            server_id,
            block_id,
            block_action,
            user_name: user,
            ip,
            ip_location: None,
            current_count: count,
            threshold,
            remaining,
            window_seconds: window,
            reset_at: decimal_string(reset),
            blocked: block.is_some(),
        },
    )
}

pub open spec fn seen_set(seen: Seq<(String, String)>) -> Set<(Seq<char>, Seq<char>)> {
    Set::new(|k: (Seq<char>, Seq<char>)| exists|i: int| 0 <= i < seen.len() && #[trigger] seen[i].0@ == k.0 && seen[i].1@ == k.1)
}

fn seen_contains(seen: &Vec<(String, String)>, a: &String, b: &String) -> (r: bool)
    ensures
        r == seen_set(seen@).contains((a@, b@)),
{
    let mut i: usize = 0;
    while i < seen.len()
        invariant
            i <= seen@.len(),
            forall|j: int| 0 <= j < i ==> !(#[trigger] seen@[j].0@ == a@ && seen@[j].1@ == b@),
        decreases seen@.len() - i,
    {
        if str_eq(seen[i].0.as_str(), a.as_str()) && str_eq(seen[i].1.as_str(), b.as_str()) {
            assert(seen_set(seen@).contains((a@, b@)));
            return true;
        }
        i = i + 1;
    }
    false
}

fn first_smaller_exec(sorted: &Vec<PlaybackRateWindowStatus>, c: u64) -> (p: usize)
    ensures
        p as int == first_smaller(row_views(sorted@), c, 0),
{
    let ghost s = row_views(sorted@);
    let mut j: usize = 0;
    while j < sorted.len()
        invariant
            j <= sorted@.len(),
            s == row_views(sorted@),
            first_smaller(s, c, 0) == first_smaller(s, c, j as int),
        decreases sorted@.len() - j,
    {
        assert(s[j as int] == sorted@[j as int]@);
        if sorted[j].current_count < c {
            return j;
        }
        j = j + 1;
    }
    j
}

proof fn lemma_first_smaller_bounds(s: Seq<StatusRow>, c: u64, i: int)
    requires
        0 <= i <= s.len(),
    ensures
        i <= first_smaller(s, c, i) <= s.len(),
    decreases s.len() - i,
{
    if i < s.len() && s[i].current_count >= c {
        lemma_first_smaller_bounds(s, c, i + 1);
    }
}

/// Sorts the rows by count, largest first, keeping the order of rows with equal counts.
fn sort_rows_by_count(rows: Vec<PlaybackRateWindowStatus>) -> (r: Vec<PlaybackRateWindowStatus>)
    ensures
        row_views(r@) == sort_by_count_desc(row_views(rows@)),
        forall|i: int| 0 <= i < r@.len() ==> (#[trigger] r@[i]).ip_location is None <== forall|j: int|
            0 <= j < rows@.len() ==> (#[trigger] rows@[j]).ip_location is None,
{
    let ghost input = row_views(rows@);
    let ghost all_none = forall|j: int| 0 <= j < rows@.len() ==> (#[trigger] rows@[j]).ip_location is None;
    let ghost orig = rows@;
    let mut rest = rows;
    let mut sorted: Vec<PlaybackRateWindowStatus> = Vec::new();
    let n = rest.len();
    let mut i: usize = 0;
    assert(input.take(0) =~= Seq::<StatusRow>::empty());
    while rest.len() > 0
        invariant
            n == input.len(),
            i + rest@.len() == n,
            rest@ == orig.skip(i as int),
            input == row_views(orig),
            row_views(sorted@) == sort_by_count_desc(input.take(i as int)),
            all_none == forall|j: int| 0 <= j < orig.len() ==> (#[trigger] orig[j]).ip_location is None,
            all_none ==> forall|j: int| 0 <= j < sorted@.len() ==> (#[trigger] sorted@[j]).ip_location is None,
        decreases rest@.len(),
    {
        let ghost before = rest@;
        let row = rest.remove(0);
        assert(rest@ =~= orig.skip(i + 1));
        assert(row == orig[i as int]);
        assert(input.take(i + 1).drop_last() =~= input.take(i as int));
        let p = first_smaller_exec(&sorted, row.current_count);
        let ghost s0 = row_views(sorted@);
        let ghost r0 = sorted@;
        proof {
            lemma_first_smaller_bounds(s0, row.current_count, 0);
        }
        sorted.insert(p, row);
        assert(row_views(sorted@) =~= s0.insert(p as int, input[i as int]));
        proof {
            if all_none {
                assert forall|j: int| 0 <= j < sorted@.len() implies (#[trigger] sorted@[j]).ip_location is None by {
                    if j < p {
                        assert(sorted@[j] == r0[j]);
                    } else if j > p {
                        assert(sorted@[j] == r0[j - 1]);
                    }
                }
            }
        }
        i = i + 1;
    }
    assert(input.take(n as int) =~= input);
    sorted
}

/// The status rows of the rate limit at `now` (see [`status_rows`]), without locations, which
/// the caller looks up.
pub fn rate_limit_status_rows(state: &RateLimitState, config: &ClientControlConfig, now: u64) -> (r: Vec<
    PlaybackRateWindowStatus,
>)
    requires
        state.wf(),
    ensures
        row_views(r@) == status_rows(
            state.hits,
            block_views(config.rate_limit_blocks@),
            now,
            at_least_one(config.playback_rate_limit_window_seconds),
            at_least_one(config.playback_rate_limit_max_requests),
        ),
        forall|i: int| 0 <= i < r@.len() ==> (#[trigger] r@[i]).ip_location is None,
{
    let window = if config.playback_rate_limit_window_seconds < 1 {
        1
    } else {
        config.playback_rate_limit_window_seconds
    };
    let threshold = if config.playback_rate_limit_max_requests < 1 {
        1
    } else {
        config.playback_rate_limit_max_requests
    };
    let ghost bs = block_views(config.rate_limit_blocks@);
    let mut rows: Vec<PlaybackRateWindowStatus> = Vec::new();
    let mut seen: Vec<(String, String)> = Vec::new();
    let n = state.hits.len();
    let mut i: usize = 0;
    while i < n
        invariant
            state.wf(),
            n == state.hits.spec_len(),
            i <= n,
            bs == block_views(config.rate_limit_blocks@),
            row_views(rows@) == window_rows(state.hits, i as int, bs, now, window, threshold),
            forall|j: int| 0 <= j < rows@.len() ==> (#[trigger] rows@[j]).ip_location is None,
            seen_set(seen@) == row_keys(row_views(rows@)),
        decreases n - i,
    {
        let (key, q) = state.hits.entry_at(i);
        match window_row_exec(key, q, &config.rate_limit_blocks, now, window, threshold) {
            Some(row) => {
                let ghost r0 = row_views(rows@);
                let ghost s0 = seen@;
                let pair = (row.server_id.clone(), row.ip.clone());
                seen.push(pair);
                rows.push(row);
                assert(row_views(rows@) =~= r0.push(rows@[rows@.len() - 1]@));
                assert(seen_set(seen@) =~= row_keys(row_views(rows@))) by {
                    assert forall|k: (Seq<char>, Seq<char>)| seen_set(seen@).contains(k) implies row_keys(row_views(rows@)).contains(k) by {
                        let j = choose|j: int| 0 <= j < seen@.len() && #[trigger] seen@[j].0@ == k.0 && seen@[j].1@ == k.1;
                        if j < s0.len() {
                            assert(seen@[j] == s0[j]);
                            assert(seen_set(s0).contains(k));
                            let m = choose|m: int| 0 <= m < r0.len() && #[trigger] r0[m].server_id == k.0 && r0[m].ip == k.1;
                            assert(row_views(rows@)[m] == r0[m]);
                        } else {
                            assert(row_views(rows@)[r0.len() as int].server_id == k.0);
                        }
                    }
                    assert forall|k: (Seq<char>, Seq<char>)| row_keys(row_views(rows@)).contains(k) implies seen_set(seen@).contains(k) by {
                        let m = choose|m: int| 0 <= m < row_views(rows@).len() && #[trigger] row_views(rows@)[m].server_id == k.0 && row_views(rows@)[m].ip == k.1;
                        if m < r0.len() {
                            assert(row_views(rows@)[m] == r0[m]);
                            assert(row_keys(r0).contains(k));
                            let j = choose|j: int| 0 <= j < s0.len() && #[trigger] s0[j].0@ == k.0 && s0[j].1@ == k.1;
                            assert(seen@[j] == s0[j]);
                        } else {
                            assert(seen@[s0.len() as int].0@ == k.0);
                        }
                    }
                }
            },
            None => {},
        }
        i = i + 1;
    }
    let ghost w = row_views(rows@);
    let mut j: usize = 0;
    while j < config.rate_limit_blocks.len()
        invariant
            j <= config.rate_limit_blocks@.len(),
            bs == block_views(config.rate_limit_blocks@),
            forall|m: int| 0 <= m < rows@.len() ==> (#[trigger] rows@[m]).ip_location is None,
            row_views(rows@) + block_rows(bs, j as int, seen_set(seen@), now, window, threshold) == w
                + block_rows(bs, 0, row_keys(w), now, window, threshold),
        decreases config.rate_limit_blocks@.len() - j,
    {
        let b = &config.rate_limit_blocks[j];
        assert(bs[j as int] == b@);
        let until = blocked_until_of(b);
        let ip_t = trimmed(b.ip.as_str());
        if !b.enabled || until <= now || ip_t.len() == 0 || seen_contains(&seen, &b.server_id, &b.ip) {
        } else {
            let ghost r0 = row_views(rows@);
            let ghost s0 = seen@;
            let row = PlaybackRateWindowStatus {
                server_id: b.server_id.clone(),
                block_id: Some(b.id.clone()),
                block_action: Some(b.action.clone()),
                user_name: normalize_value(b.user_name.as_str()),
                ip: normalize_value(b.ip.as_str()),
                ip_location: None,
                current_count: 0,
                threshold,
                remaining: threshold,
                window_seconds: window,
                reset_at: decimal_string(until),
                blocked: true,
            };
            seen.push((b.server_id.clone(), b.ip.clone()));
            rows.push(row);
            assert(seen_set(seen@) =~= seen_set(s0).insert((b@.server_id, b@.ip))) by {
                assert forall|k: (Seq<char>, Seq<char>)| seen_set(seen@).contains(k) implies seen_set(s0).insert((b@.server_id, b@.ip)).contains(k) by {
                    let q = choose|q: int| 0 <= q < seen@.len() && #[trigger] seen@[q].0@ == k.0 && seen@[q].1@ == k.1;
                    if q < s0.len() {
                        assert(seen@[q] == s0[q]);
                    }
                }
                assert forall|k: (Seq<char>, Seq<char>)| seen_set(s0).insert((b@.server_id, b@.ip)).contains(k) implies seen_set(seen@).contains(k) by {
                    if seen_set(s0).contains(k) {
                        let q = choose|q: int| 0 <= q < s0.len() && #[trigger] s0[q].0@ == k.0 && s0[q].1@ == k.1;
                        assert(seen@[q] == s0[q]);
                    } else {
                        assert(seen@[s0.len() as int].0@ == k.0);
                    }
                }
            }
            assert(row_views(rows@) =~= r0.push(rows@[rows@.len() - 1]@));
            assert(row_views(rows@) + block_rows(bs, j + 1, seen_set(seen@), now, window, threshold)
                =~= r0 + block_rows(bs, j as int, seen_set(s0), now, window, threshold));
        }
        j = j + 1;
    }
    assert(block_rows(bs, j as int, seen_set(seen@), now, window, threshold) =~= Seq::<StatusRow>::empty());
    assert(row_views(rows@) =~= w + block_rows(bs, 0, row_keys(w), now, window, threshold));
    sort_rows_by_count(rows)
}

} // verus!
