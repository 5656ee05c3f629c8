//! Rate-limit blocks kept in the client control settings, the keys of the runtime ban
//! tables, and the identifiers and clock readings that new records carry.

use vstd::prelude::*;
use vstd::string::StringExecFns;
use crate::client_control::{
    action_uses_user_key, action_uses_user_key_spec, BlockView, ClientControlConfig,
    PlaybackRateBlockRecord, PLAYBACK_RATE_STATE_CAPACITY,
};
use crate::strmap::StrMap;
use crate::text::{
    chars_of, decimal, decimal_string, parse_unsigned, parse_unsigned_chars, string_of, to_lowercase,
    trim, trimmed, unicode_lowercase,
};

verus! {

// ---------------------------------------------------------------------------------------
// Clock and identifiers
// ---------------------------------------------------------------------------------------

/// `SystemTime::now()` as whole seconds since the Unix epoch (0 before the epoch). The
/// contract says nothing of the value: it is the machine's clock.
#[verifier::external_body]
pub(crate) fn now_seconds() -> (r: u64) {
    std::time::SystemTime::now().duration_since(std::time::UNIX_EPOCH).map(|d| d.as_secs()).unwrap_or(0)
}

/// `SystemTime::now()` as whole milliseconds since the Unix epoch (0 before the epoch). The
/// contract says nothing of the value: it is the machine's clock.
#[verifier::external_body]
pub(crate) fn now_millis() -> (r: u128) {
    std::time::SystemTime::now().duration_since(std::time::UNIX_EPOCH).map(|d| d.as_millis()).unwrap_or(0)
}

/// `rand::random::<[u8; 4]>()`: four bytes from the thread-local generator. Nothing is
/// promised of them.
#[verifier::external_body]
fn random_bytes() -> (r: [u8; 4]) {
    rand::random::<[u8; 4]>()
}

/// The current time as the decimal text of the Unix seconds.
pub fn chrono_like_now() -> (r: String)
    ensures
        exists|t: u64| r@ == decimal(t as nat),
{
    let t = now_seconds();
    decimal_string(t)
}

pub open spec fn hex_digit(d: nat) -> char {
    if d < 10 {
        (('0' as u32) + d) as char
    } else {
        (('a' as u32) + (d - 10)) as char
    }
}

/// Two lower-case hexadecimal digits, as `{:02x}` writes a byte.
pub open spec fn hex_byte(b: u8) -> Seq<char> {
    seq![hex_digit((b / 16) as nat), hex_digit((b % 16) as nat)]
}

/// The identifier `client-<seconds>-<8 hex digits>` of a new record.
pub open spec fn client_id_spec(now: u64, b: [u8; 4]) -> Seq<char> {
    "client-"@ + decimal(now as nat) + "-"@ + hex_byte(b[0]) + hex_byte(b[1]) + hex_byte(b[2])
        + hex_byte(b[3])
}

/// Whether `id` has the shape of an identifier that [`new_id`] makes.
pub open spec fn is_client_id(id: Seq<char>) -> bool {
    exists|t: u64, b: [u8; 4]| id == client_id_spec(t, b)
}

fn hex_digit_exec(d: u8) -> (c: char)
    requires
        d < 16,
    ensures
        c == hex_digit(d as nat),
{
    if d < 10 {
        let b: u8 = 48u8 + d;
        b as char
    } else {
        let b: u8 = 97u8 + (d - 10);
        b as char
    }
}

fn push_hex_byte(out: &mut String, b: u8)
    ensures
        final(out)@ == old(out)@ + hex_byte(b),
{
    let mut v: Vec<char> = Vec::new();
    v.push(hex_digit_exec(b / 16));
    v.push(hex_digit_exec(b % 16));
    let piece = string_of(&v);
    assert(v@ =~= hex_byte(b));
    out.append(piece.as_str());
}

/// The identifier for the time `now` and the random bytes `b`.
pub fn format_client_id(now: u64, b: [u8; 4]) -> (r: String)
    ensures
        r@ == client_id_spec(now, b),
{
    let mut id = String::from_str("client-");
    let t = decimal_string(now);
    id.append(t.as_str());
    id.append("-");
    push_hex_byte(&mut id, b[0]);
    push_hex_byte(&mut id, b[1]);
    push_hex_byte(&mut id, b[2]);
    push_hex_byte(&mut id, b[3]);
    proof {
        reveal_strlit("client-");
        reveal_strlit("-");
    }
    id
}

/// A fresh identifier from the clock and four random bytes.
pub fn new_id() -> (r: String)
    ensures
        is_client_id(r@),
{
    let now = now_seconds();
    let b = random_bytes();
    format_client_id(now, b)
}

// ---------------------------------------------------------------------------------------
// Expiry of blocks
// ---------------------------------------------------------------------------------------

/// The expiry stored as text: its `u64` value, or 0 when it does not parse.
pub open spec fn blocked_until_value(s: Seq<char>) -> nat {
    match parse_unsigned(s, 0xffff_ffff_ffff_ffff) {
        Some(v) => v,
        None => 0,
    }
}

/// The expiry of a block, 0 when its text does not parse as a `u64`.
pub fn blocked_until_of(record: &PlaybackRateBlockRecord) -> (r: u64)
    ensures
        r as nat == blocked_until_value(record.blocked_until@),
{
    let v = chars_of(record.blocked_until.as_str());
    match parse_unsigned_chars(&v, 0xffff_ffff_ffff_ffffu128) {
        Some(x) => x as u64,
        None => 0,
    }
}

/// A block is in force while it is enabled and its expiry lies after `now`.
pub open spec fn block_active(b: BlockView, now: u64) -> bool {
    b.enabled && blocked_until_value(b.blocked_until) > now
}

pub open spec fn block_views(s: Seq<PlaybackRateBlockRecord>) -> Seq<BlockView> {
    s.map_values(|r: PlaybackRateBlockRecord| r@)
}

/// The blocks still in force, in their order.
pub open spec fn active_blocks(s: Seq<BlockView>, now: u64) -> Seq<BlockView>
    decreases s.len(),
{
    if s.len() == 0 {
        Seq::empty()
    } else {
        let a = active_blocks(s.drop_last(), now);
        if block_active(s.last(), now) {
            a.push(s.last())
        } else {
            a
        }
    }
}

/// The first position from `i` on whose expiry is later than `k`, or the length.
pub open spec fn first_later(s: Seq<BlockView>, k: nat, i: int) -> int
    decreases s.len() - i,
{
    if i < 0 || i >= s.len() {
        s.len() as int
    } else if blocked_until_value(s[i].blocked_until) > k {
        i
    } else {
        first_later(s, k, i + 1)
    }
}

/// The blocks sorted by expiry, blocks with equal expiry in their order (a stable sort).
pub open spec fn sort_by_expiry(s: Seq<BlockView>) -> Seq<BlockView>
    decreases s.len(),
{
    if s.len() == 0 {
        Seq::empty()
    } else {
        let t = sort_by_expiry(s.drop_last());
        let x = s.last();
        t.insert(first_later(t, blocked_until_value(x.blocked_until), 0), x)
    }
}

/// The blocks that pruning keeps: those in force, and when more than the capacity are, the
/// capacity of them with the latest expiry, sorted by expiry.
pub open spec fn pruned_blocks(s: Seq<BlockView>, now: u64) -> Seq<BlockView> {
    let a = active_blocks(s, now);
    if a.len() > PLAYBACK_RATE_STATE_CAPACITY {
        sort_by_expiry(a).skip(a.len() - PLAYBACK_RATE_STATE_CAPACITY)
    } else {
        a
    }
}

/// Two settings that differ at most in their blocks.
pub open spec fn same_but_blocks(a: ClientControlConfig, b: ClientControlConfig) -> bool {
    &&& a.enabled == b.enabled
    &&& a.notify_enabled == b.notify_enabled
    &&& a.playback_rate_limit_enabled == b.playback_rate_limit_enabled
    &&& a.playback_rate_limit_window_seconds == b.playback_rate_limit_window_seconds
    &&& a.playback_rate_limit_max_requests == b.playback_rate_limit_max_requests
    &&& a.playback_rate_limit_block_seconds == b.playback_rate_limit_block_seconds
    &&& a.playback_rate_limit_action == b.playback_rate_limit_action
    &&& a.concurrent_playback_limit_enabled == b.concurrent_playback_limit_enabled
    &&& a.concurrent_playback_limit_max == b.concurrent_playback_limit_max
    &&& a.webhook == b.webhook
    &&& a.webhooks == b.webhooks
    &&& a.records == b.records
}

proof fn lemma_first_later_bounds(s: Seq<BlockView>, k: nat, i: int)
    requires
        0 <= i <= s.len(),
    ensures
        i <= first_later(s, k, i) <= s.len(),
    decreases s.len() - i,
{
    if i < s.len() && blocked_until_value(s[i].blocked_until) <= k {
        lemma_first_later_bounds(s, k, i + 1);
    }
}

pub proof fn lemma_active_len(s: Seq<BlockView>, now: u64)
    ensures
        active_blocks(s, now).len() <= s.len(),
        forall|j: int| 0 <= j < active_blocks(s, now).len() ==> block_active(
            #[trigger] active_blocks(s, now)[j],
            now,
        ),
    decreases s.len(),
{
    if s.len() > 0 {
        lemma_active_len(s.drop_last(), now);
    }
}

proof fn lemma_sort_len(s: Seq<BlockView>)
    ensures
        sort_by_expiry(s).len() == s.len(),
        forall|j: int| 0 <= j < s.len() ==> sort_by_expiry(s).contains(#[trigger] s[j]),
        forall|j: int|
            0 <= j < s.len() ==> s.contains(#[trigger] sort_by_expiry(s)[j]),
    decreases s.len(),
{
    if s.len() > 0 {
        let t = sort_by_expiry(s.drop_last());
        lemma_sort_len(s.drop_last());
        lemma_first_later_bounds(t, blocked_until_value(s.last().blocked_until), 0);
        let p = first_later(t, blocked_until_value(s.last().blocked_until), 0);
        let u = t.insert(p, s.last());
        assert forall|j: int| 0 <= j < s.len() implies u.contains(#[trigger] s[j]) by {
            if j == s.len() - 1 {
                assert(u[p] == s[j]);
            } else {
                assert(s.drop_last()[j] == s[j]);
                let m = choose|m: int| 0 <= m < t.len() && t[m] == s[j];
                if m < p {
                    assert(u[m] == s[j]);
                } else {
                    assert(u[m + 1] == s[j]);
                }
            }
        }
        assert forall|j: int| 0 <= j < s.len() implies s.contains(#[trigger] u[j]) by {
            if j == p {
                assert(s[s.len() - 1] == u[j]);
            } else {
                let m = if j < p { j } else { j - 1 };
                assert(u[j] == t[m]);
                let q = choose|q: int| 0 <= q < s.drop_last().len() && s.drop_last()[q] == t[m];
                assert(s[q] == u[j]);
            }
        }
    }
}

/// Keeps the blocks in force, in their order.
fn retain_active(blocks: Vec<PlaybackRateBlockRecord>, now: u64) -> (r: Vec<PlaybackRateBlockRecord>)
    ensures
        block_views(r@) == active_blocks(block_views(blocks@), now),
{
    let ghost input = block_views(blocks@);
    let mut rest = blocks;
    let mut kept: Vec<PlaybackRateBlockRecord> = Vec::new();
    let n = rest.len();
    let mut i: usize = 0;
    assert(input.take(0) =~= Seq::<BlockView>::empty());
    while rest.len() > 0
        invariant
            n == input.len(),
            i + rest@.len() == n,
            block_views(rest@) == input.skip(i as int),
            block_views(kept@) == active_blocks(input.take(i as int), now),
        decreases rest@.len(),
    {
        let ghost before = rest@;
        let record = rest.remove(0);
        assert(block_views(rest@) =~= input.skip(i + 1)) by {
            assert forall|k: int| 0 <= k < rest@.len() implies #[trigger] block_views(rest@)[k]
                == input.skip(i + 1)[k] by {
                assert(block_views(before)[k + 1] == input.skip(i as int)[k + 1]);
            }
        }
        assert(block_views(before)[0] == input.skip(i as int)[0]);
        assert(record@ == input[i as int]);
        assert(input.take(i + 1).drop_last() =~= input.take(i as int));
        let until = blocked_until_of(&record);
        if record.enabled && until > now {
            let ghost k0 = block_views(kept@);
            kept.push(record);
            assert(block_views(kept@) =~= k0.push(input[i as int]));
        }
        i = i + 1;
    }
    assert(input.take(n as int) =~= input);
    kept
}

/// The position where a block with expiry `k` goes in blocks sorted by expiry.
fn insertion_point(sorted: &Vec<PlaybackRateBlockRecord>, k: u64) -> (p: usize)
    ensures
        p as int == first_later(block_views(sorted@), k as nat, 0),
{
    let ghost s = block_views(sorted@);
    let mut j: usize = 0;
    while j < sorted.len()
        invariant
            j <= sorted@.len(),
            s == block_views(sorted@),
            first_later(s, k as nat, 0) == first_later(s, k as nat, j as int),
        decreases sorted@.len() - j,
    {
        let u = blocked_until_of(&sorted[j]);
        assert(s[j as int] == sorted@[j as int]@);
        if u > k {
            return j;
        }
        j = j + 1;
    }
    j
}

/// Sorts the blocks by expiry, keeping the order of blocks with equal expiry.
fn sort_blocks_by_expiry(blocks: Vec<PlaybackRateBlockRecord>) -> (r: Vec<PlaybackRateBlockRecord>)
    ensures
        block_views(r@) == sort_by_expiry(block_views(blocks@)),
{
    let ghost input = block_views(blocks@);
    let mut rest = blocks;
    let mut sorted: Vec<PlaybackRateBlockRecord> = Vec::new();
    let n = rest.len();
    let mut i: usize = 0;
    assert(input.take(0) =~= Seq::<BlockView>::empty());
    while rest.len() > 0
        invariant
            n == input.len(),
            i + rest@.len() == n,
            block_views(rest@) == input.skip(i as int),
            block_views(sorted@) == sort_by_expiry(input.take(i as int)),
        decreases rest@.len(),
    {
        let ghost before = rest@;
        let record = rest.remove(0);
        assert(block_views(rest@) =~= input.skip(i + 1)) by {
            assert forall|k: int| 0 <= k < rest@.len() implies #[trigger] block_views(rest@)[k]
                == input.skip(i + 1)[k] by {
                assert(block_views(before)[k + 1] == input.skip(i as int)[k + 1]);
            }
        }
        assert(block_views(before)[0] == input.skip(i as int)[0]);
        assert(record@ == input[i as int]);
        assert(input.take(i + 1).drop_last() =~= input.take(i as int));
        let k = blocked_until_of(&record);
        let p = insertion_point(&sorted, k);
        let ghost s0 = block_views(sorted@);
        proof {
            lemma_first_later_bounds(s0, k as nat, 0);
        }
        sorted.insert(p, record);
        assert(block_views(sorted@) =~= s0.insert(p as int, input[i as int]));
        i = i + 1;
    }
    assert(input.take(n as int) =~= input);
    sorted
}

/// Drops the blocks that are no longer in force and, when more than the capacity remain,
/// keeps the capacity of them that expire last, sorted by expiry. Tells whether the number
/// of blocks changed.
pub fn prune_inactive_rate_limit_blocks(config: &mut ClientControlConfig, now: u64) -> (changed: bool)
    ensures
        block_views(final(config).rate_limit_blocks@) == pruned_blocks(
            block_views(old(config).rate_limit_blocks@),
            now,
        ),
        same_but_blocks(*final(config), *old(config)),
        changed == (final(config).rate_limit_blocks@.len() != old(config).rate_limit_blocks@.len()),
        final(config).rate_limit_blocks@.len() <= PLAYBACK_RATE_STATE_CAPACITY,
        forall|j: int|
            0 <= j < final(config).rate_limit_blocks@.len() ==> block_active(
                #[trigger] final(config).rate_limit_blocks@[j]@,
                now,
            ),
{
    let ghost input = block_views(config.rate_limit_blocks@);
    let before_len = config.rate_limit_blocks.len();
    let mut blocks: Vec<PlaybackRateBlockRecord> = Vec::new();
    std::mem::swap(&mut blocks, &mut config.rate_limit_blocks);
    let mut kept = retain_active(blocks, now);
    proof {
        lemma_active_len(input, now);
    }
    if kept.len() > PLAYBACK_RATE_STATE_CAPACITY {
        let ghost a = block_views(kept@);
        let mut sorted = sort_blocks_by_expiry(kept);
        proof {
            lemma_sort_len(a);
        }
        let excess = sorted.len() - PLAYBACK_RATE_STATE_CAPACITY;
        let tail = sorted.split_off(excess);
        let ghost sv = sort_by_expiry(a);
        assert(block_views(tail@) =~= sv.skip(excess as int));
        assert forall|j: int| 0 <= j < tail@.len() implies block_active(#[trigger] tail@[j]@, now) by {
            assert(block_views(tail@)[j] == sv[j + excess]);
            assert(a.contains(sv[j + excess]));
            let q = choose|q: int| 0 <= q < a.len() && a[q] == sv[j + excess];
            assert(block_active(a[q], now));
        }
        kept = tail;
    } else {
        assert forall|j: int| 0 <= j < kept@.len() implies block_active(#[trigger] kept@[j]@, now) by {
            assert(block_views(kept@)[j] == kept@[j]@);
        }
    }
    config.rate_limit_blocks = kept;
    config.rate_limit_blocks.len() != before_len
}

// ---------------------------------------------------------------------------------------
// Recording a block
// ---------------------------------------------------------------------------------------

/// An enabled block of the same server and action for the same subject: the user name for
/// actions keyed by user, the IP otherwise.
pub open spec fn block_matches(
    b: BlockView,
    server_id: Seq<char>,
    action: Seq<char>,
    ip: Seq<char>,
    user_name: Seq<char>,
) -> bool {
    &&& b.enabled
    &&& b.server_id == server_id
    &&& b.action == action
    &&& if action_uses_user_key_spec(action) {
        b.user_name == user_name
    } else {
        b.ip == ip
    }
}

pub open spec fn first_match(
    s: Seq<BlockView>,
    server_id: Seq<char>,
    action: Seq<char>,
    ip: Seq<char>,
    user_name: Seq<char>,
    i: int,
) -> Option<int>
    decreases s.len() - i,
{
    if i < 0 || i >= s.len() {
        None
    } else if block_matches(s[i], server_id, action, ip, user_name) {
        Some(i)
    } else {
        first_match(s, server_id, action, ip, user_name, i + 1)
    }
}

/// The first position from `i` on of a block with the smallest expiry among positions `i..`.
pub open spec fn first_min_expiry(s: Seq<BlockView>, i: int) -> int
    decreases s.len() - i,
{
    if i < 0 || i >= s.len() - 1 {
        i
    } else {
        let m = first_min_expiry(s, i + 1);
        if blocked_until_value(s[m].blocked_until) < blocked_until_value(s[i].blocked_until) {
            m
        } else {
            i
        }
    }
}

/// What recording a block does to the blocks: an existing matching block gets the new
/// expiry and note; otherwise, when the blocks are full, the one that expires first leaves,
/// and a new enabled block with identifier `id` and creation time `created_at` is added.
pub open spec fn upsert_blocks(
    s: Seq<BlockView>,
    server_id: Seq<char>,
    server_name: Seq<char>,
    action: Seq<char>,
    ip: Seq<char>,
    user_name: Seq<char>,
    blocked_until: u64,
    note: Seq<char>,
    id: Seq<char>,
    created_at: Seq<char>,
) -> Seq<BlockView> {
    match first_match(s, server_id, action, ip, user_name, 0) {
        Some(j) => s.update(
            j,
            BlockView { blocked_until: decimal(blocked_until as nat), note: note, ..s[j] },
        ),
        None => {
            let base = if s.len() >= PLAYBACK_RATE_STATE_CAPACITY && s.len() > 0 {
                s.remove(first_min_expiry(s, 0))
            } else {
                s
            };
            base.push(
                BlockView {
                    id: id,
                    server_id: server_id,
                    server_name: server_name,
                    action: action,
                    ip: ip,
                    user_name: user_name,
                    blocked_until: decimal(blocked_until as nat),
                    created_at: created_at,
                    enabled: true,
                    note: note,
                    ip_location: None,
                },
            )
        },
    }
}

proof fn lemma_first_match(
    s: Seq<BlockView>,
    server_id: Seq<char>,
    action: Seq<char>,
    ip: Seq<char>,
    user_name: Seq<char>,
    i: int,
)
    requires
        0 <= i,
    ensures
        first_match(s, server_id, action, ip, user_name, i) matches Some(j) ==> i <= j < s.len(),
    decreases s.len() - i,
{
    if i < s.len() && !block_matches(s[i], server_id, action, ip, user_name) {
        lemma_first_match(s, server_id, action, ip, user_name, i + 1);
    }
}

proof fn lemma_first_min_bounds(s: Seq<BlockView>, i: int)
    requires
        0 <= i < s.len(),
    ensures
        i <= first_min_expiry(s, i) < s.len(),
    decreases s.len() - i,
{
    if i < s.len() - 1 {
        lemma_first_min_bounds(s, i + 1);
    }
}

fn find_matching_block(
    blocks: &Vec<PlaybackRateBlockRecord>,
    server_id: &str,
    action: &str,
    ip: &str,
    user_name: &str,
) -> (r: Option<usize>)
    ensures
        match r {
            Some(j) => first_match(block_views(blocks@), server_id@, action@, ip@, user_name@, 0)
                == Some(j as int),
            None => first_match(block_views(blocks@), server_id@, action@, ip@, user_name@, 0)
                is None,
        },
{
    let ghost s = block_views(blocks@);
    let by_user = action_uses_user_key(action);
    let mut j: usize = 0;
    while j < blocks.len()
        invariant
            j <= blocks@.len(),
            s == block_views(blocks@),
            by_user == action_uses_user_key_spec(action@),
            first_match(s, server_id@, action@, ip@, user_name@, 0) == first_match(
                s,
                server_id@,
                action@,
                ip@,
                user_name@,
                j as int,
            ),
        decreases blocks@.len() - j,
    {
        let b = &blocks[j];
        assert(s[j as int] == b@);
        let subject_matches = if by_user {
            crate::strmap::str_eq(b.user_name.as_str(), user_name)
        } else {
            crate::strmap::str_eq(b.ip.as_str(), ip)
        };
        if b.enabled && crate::strmap::str_eq(b.server_id.as_str(), server_id)
            && crate::strmap::str_eq(b.action.as_str(), action) && subject_matches {
            return Some(j);
        }
        j = j + 1;
    }
    None
}

fn min_expiry_index(blocks: &Vec<PlaybackRateBlockRecord>) -> (r: usize)
    requires
        blocks@.len() > 0,
    ensures
        r as int == first_min_expiry(block_views(blocks@), 0),
{
    let ghost s = block_views(blocks@);
    let n = blocks.len();
    let mut best: usize = n - 1;
    let mut best_until = blocked_until_of(&blocks[n - 1]);
    let mut i: usize = n - 1;
    assert(s[n - 1] == blocks@[n - 1]@);
    while i > 0
        invariant
            0 <= i < n,
            n == blocks@.len(),
            s == block_views(blocks@),
            best as int == first_min_expiry(s, i as int),
            i <= best < n,
            best_until as nat == blocked_until_value(s[best as int].blocked_until),
        decreases i,
    {
        i = i - 1;
        let u = blocked_until_of(&blocks[i]);
        assert(s[i as int] == blocks@[i as int]@);
        if !(best_until < u) {
            best = i;
            best_until = u;
        }
    }
    best
}

/// Records a block with the given identifier and creation time (see [`upsert_blocks`]).
pub fn upsert_rate_limit_block_at(
    config: &mut ClientControlConfig,
    server_id: &str,
    server_name: &str,
    action: &str,
    ip: &str,
    user_name: &str,
    blocked_until: u64,
    note: String,
    id: String,
    created_at: String,
)
    ensures
        block_views(final(config).rate_limit_blocks@) == upsert_blocks(
            block_views(old(config).rate_limit_blocks@),
            server_id@,
            server_name@,
            action@,
            ip@,
            user_name@,
            blocked_until,
            note@,
            id@,
            created_at@,
        ),
        same_but_blocks(*final(config), *old(config)),
{
    let ghost s = block_views(config.rate_limit_blocks@);
    let until_text = decimal_string(blocked_until);
    match find_matching_block(&config.rate_limit_blocks, server_id, action, ip, user_name) {
        Some(j) => {
            proof {
                lemma_first_match(s, server_id@, action@, ip@, user_name@, 0);
            }
            let mut blocks: Vec<PlaybackRateBlockRecord> = Vec::new();
            std::mem::swap(&mut blocks, &mut config.rate_limit_blocks);
            let mut record = blocks.remove(j);
            record.blocked_until = until_text;
            record.note = note;
            blocks.insert(j, record);
            assert(block_views(blocks@) =~= s.update(
                j as int,
                BlockView { blocked_until: decimal(blocked_until as nat), note: note@, ..s[j as int] },
            ));
            config.rate_limit_blocks = blocks;
        },
        None => {
            let mut blocks: Vec<PlaybackRateBlockRecord> = Vec::new();
            std::mem::swap(&mut blocks, &mut config.rate_limit_blocks);
            if blocks.len() >= PLAYBACK_RATE_STATE_CAPACITY && blocks.len() > 0 {
                let m = min_expiry_index(&blocks);
                proof {
                    lemma_first_min_bounds(s, 0);
                }
                let _gone = blocks.remove(m);
                assert(block_views(blocks@) =~= s.remove(m as int));
            }
            let ghost base = block_views(blocks@);
            let record = PlaybackRateBlockRecord {
                id: id,
                server_id: String::from_str(server_id),
                server_name: String::from_str(server_name),
                action: String::from_str(action),
                ip: String::from_str(ip),
                user_name: String::from_str(user_name),
                blocked_until: until_text,
                created_at: created_at,
                enabled: true,
                note: note,
                ip_location: None,
            };
            blocks.push(record);
            assert(block_views(blocks@) =~= base.push(record@));
            config.rate_limit_blocks = blocks;
        },
    }
}

/// Records a block: refreshes the expiry and note of a matching enabled block, or adds a new
/// one with a fresh identifier and the current time (see [`upsert_blocks`]).
pub fn upsert_rate_limit_block_with_note(
    config: &mut ClientControlConfig,
    server_id: &str,
    server_name: &str,
    action: &str,
    ip: &str,
    user_name: &str,
    blocked_until: u64,
    note: String,
)
    ensures
        exists|id: Seq<char>, created_at: Seq<char>|
            is_client_id(id) && block_views(final(config).rate_limit_blocks@) == upsert_blocks(
                block_views(old(config).rate_limit_blocks@),
                server_id@,
                server_name@,
                action@,
                ip@,
                user_name@,
                blocked_until,
                note@,
                id,
                created_at,
            ),
        same_but_blocks(*final(config), *old(config)),
{
    let now = chrono_like_now();
    let id = new_id();
    upsert_rate_limit_block_at(
        config,
        server_id,
        server_name,
        action,
        ip,
        user_name,
        blocked_until,
        note,
        id,
        now,
    );
}

// ---------------------------------------------------------------------------------------
// Notes and keys
// ---------------------------------------------------------------------------------------

/// The note of a block that the rate limit placed.
pub open spec fn block_note_spec(action: Seq<char>, ip: Seq<char>, user_name: Seq<char>) -> Seq<char> {
    if action == "disable_user"@ {
        "频率超限禁用用户 "@ + user_name
    } else if action == "block_user"@ {
        "限制超限封禁用户 "@ + user_name
    } else if action == "mixed"@ {
        "频率超限禁用用户 "@ + user_name + " 并屏蔽 IP "@ + ip
    } else {
        "频率超限屏蔽 IP "@ + ip
    }
}

pub fn rate_limit_block_note(action: &str, ip: &str, user_name: &str) -> (r: String)
    ensures
        r@ == block_note_spec(action@, ip@, user_name@),
{
    proof {
        reveal_strlit("disable_user");
        reveal_strlit("block_user");
        reveal_strlit("mixed");
    }
    if crate::strmap::str_eq(action, "disable_user") {
        let mut r = String::from_str("频率超限禁用用户 ");
        r.append(user_name);
        r
    } else if crate::strmap::str_eq(action, "block_user") {
        let mut r = String::from_str("限制超限封禁用户 ");
        r.append(user_name);
        r
    } else if crate::strmap::str_eq(action, "mixed") {
        let mut r = String::from_str("频率超限禁用用户 ");
        r.append(user_name);
        r.append(" 并屏蔽 IP ");
        r.append(ip);
        r
    } else {
        let mut r = String::from_str("频率超限屏蔽 IP ");
        r.append(ip);
        r
    }
}

/// The note of a block that the concurrent playback limit placed.
pub open spec fn concurrent_note_spec(ip: Seq<char>, user_name: Seq<char>) -> Seq<char> {
    "同时播放超限封禁用户 "@ + user_name + "（来源 IP "@ + ip + "）"@
}

pub fn concurrent_limit_block_note(ip: &str, user_name: &str) -> (r: String)
    ensures
        r@ == concurrent_note_spec(ip@, user_name@),
{
    let mut r = String::from_str("同时播放超限封禁用户 ");
    r.append(user_name);
    r.append("（来源 IP ");
    r.append(ip);
    r.append("）");
    r
}

fn lowercase_of(v: &Vec<char>) -> (r: String)
    ensures
        r@ == unicode_lowercase(v@),
{
    let s = string_of(v);
    to_lowercase(s.as_str())
}

/// The key of a user in the runtime ban table: `server:user`, the user in lower case.
pub open spec fn server_user_key_spec(server_id: Seq<char>, user_name: Seq<char>) -> Seq<char> {
    trim(server_id) + ":"@ + unicode_lowercase(trim(user_name))
}

pub fn server_user_key(server_id: &str, user_name: &str) -> (r: String)
    ensures
        r@ == server_user_key_spec(server_id@, user_name@),
{
    let s = trimmed(server_id);
    let mut r = string_of(&s);
    r.append(":");
    let u = trimmed(user_name);
    let l = lowercase_of(&u);
    r.append(l.as_str());
    r
}

/// The key of an IP in the runtime ban table: `server:ip`.
pub open spec fn server_ip_key_spec(server_id: Seq<char>, ip: Seq<char>) -> Seq<char> {
    trim(server_id) + ":"@ + trim(ip)
}

pub fn server_ip_key(server_id: &str, ip: &str) -> (r: String)
    ensures
        r@ == server_ip_key_spec(server_id@, ip@),
{
    let s = trimmed(server_id);
    let mut r = string_of(&s);
    r.append(":");
    let i = trimmed(ip);
    let t = string_of(&i);
    r.append(t.as_str());
    r
}

/// Whom a rate window counts: the user when the user's own limit applies and a user is
/// named, the IP otherwise.
pub open spec fn rate_subject_spec(user_level: bool, user_name: Seq<char>, ip: Seq<char>) -> Seq<char> {
    if user_level && trim(user_name).len() > 0 && trim(user_name) != "--"@ {
        "user:"@ + unicode_lowercase(trim(user_name))
    } else {
        "ip:"@ + trim(ip)
    }
}

pub fn rate_limit_subject(user_level: bool, user_name: &str, ip: &str) -> (r: String)
    ensures
        r@ == rate_subject_spec(user_level, user_name@, ip@),
{
    let u = trimmed(user_name);
    let dashes = crate::text::chars_eq_str(&u, "--");
    if user_level && u.len() > 0 && !dashes {
        let mut r = String::from_str("user:");
        let l = lowercase_of(&u);
        r.append(l.as_str());
        r
    } else {
        let mut r = String::from_str("ip:");
        let i = trimmed(ip);
        let t = string_of(&i);
        r.append(t.as_str());
        r
    }
}

/// Makes room for `key` in a full runtime table by evicting one entry; a table that holds
/// the key or is not full is left as it is.
pub fn make_room_for_rate_state<T>(entries: &mut StrMap<T>, key: &str)
    requires
        old(entries).wf(),
    ensures
        final(entries).wf(),
        if old(entries)@.dom().contains(key@) || old(entries).spec_len()
            < PLAYBACK_RATE_STATE_CAPACITY {
            final(entries)@ == old(entries)@ && final(entries).spec_len() == old(entries).spec_len()
        } else {
            &&& old(entries)@.dom().contains(old(entries).spec_oldest_key())
            &&& final(entries)@ == old(entries)@.remove(old(entries).spec_oldest_key())
            &&& final(entries).spec_len() == old(entries).spec_len() - 1
        },
{
    if entries.contains_key(key) || entries.len() < PLAYBACK_RATE_STATE_CAPACITY {
        return;
    }
    entries.evict_one();
}

/// Pruning keeps at most the capacity of blocks, all in force.
pub proof fn lemma_pruned_blocks(s: Seq<BlockView>, now: u64)
    ensures
        pruned_blocks(s, now).len() <= PLAYBACK_RATE_STATE_CAPACITY,
        forall|j: int|
            0 <= j < pruned_blocks(s, now).len() ==> block_active(#[trigger] pruned_blocks(s, now)[j], now),
{
    lemma_active_len(s, now);
    let a = active_blocks(s, now);
    if a.len() > PLAYBACK_RATE_STATE_CAPACITY {
        lemma_sort_len(a);
        let sv = sort_by_expiry(a);
        let excess = a.len() - PLAYBACK_RATE_STATE_CAPACITY;
        assert forall|j: int| 0 <= j < pruned_blocks(s, now).len() implies block_active(
            #[trigger] pruned_blocks(s, now)[j],
            now,
        ) by {
            assert(pruned_blocks(s, now)[j] == sv[j + excess]);
            assert(a.contains(sv[j + excess]));
            let q = choose|q: int| 0 <= q < a.len() && a[q] == sv[j + excess];
        }
    }
}

/// A block in force is kept by the filter of blocks in force.
pub proof fn lemma_active_keeps(s: Seq<BlockView>, now: u64, i: int)
    requires
        0 <= i < s.len(),
        block_active(s[i], now),
    ensures
        active_blocks(s, now).contains(s[i]),
    decreases s.len(),
{
    let t = s.drop_last();
    if i == s.len() - 1 {
        assert(active_blocks(s, now).last() == s[i]);
    } else {
        assert(t[i] == s[i]);
        lemma_active_keeps(t, now, i);
        let j = choose|j: int| 0 <= j < active_blocks(t, now).len() && active_blocks(t, now)[j] == s[i];
        if block_active(s.last(), now) {
            assert(active_blocks(s, now)[j] == s[i]);
        }
    }
}

/// Recording a block keeps the blocks within the capacity and leaves an enabled block of the
/// server, the action and the subject that expires at `blocked_until`.
pub proof fn lemma_upsert_blocks(
    s: Seq<BlockView>,
    server_id: Seq<char>,
    server_name: Seq<char>,
    action: Seq<char>,
    ip: Seq<char>,
    user_name: Seq<char>,
    blocked_until: u64,
    note: Seq<char>,
    id: Seq<char>,
    created_at: Seq<char>,
)
    requires
        s.len() <= PLAYBACK_RATE_STATE_CAPACITY,
    ensures
        ({
            let u = upsert_blocks(s, server_id, server_name, action, ip, user_name, blocked_until, note, id, created_at);
            &&& u.len() <= PLAYBACK_RATE_STATE_CAPACITY
            &&& exists|j: int|
                0 <= j < u.len() && block_matches(#[trigger] u[j], server_id, action, ip, user_name)
                    && u[j].blocked_until == decimal(blocked_until as nat)
        }),
{
    let u = upsert_blocks(s, server_id, server_name, action, ip, user_name, blocked_until, note, id, created_at);
    lemma_first_match(s, server_id, action, ip, user_name, 0);
    match first_match(s, server_id, action, ip, user_name, 0) {
        Some(j) => {
            assert(first_match(s, server_id, action, ip, user_name, 0) == Some(j));
            lemma_first_match_holds(s, server_id, action, ip, user_name, 0);
            assert(block_matches(u[j], server_id, action, ip, user_name));
        },
        None => {
            if s.len() >= PLAYBACK_RATE_STATE_CAPACITY && s.len() > 0 {
                lemma_first_min_bounds(s, 0);
            }
            assert(block_matches(u[u.len() - 1], server_id, action, ip, user_name));
        },
    }
}

proof fn lemma_first_match_holds(
    s: Seq<BlockView>,
    server_id: Seq<char>,
    action: Seq<char>,
    ip: Seq<char>,
    user_name: Seq<char>,
    i: int,
)
    requires
        0 <= i,
    ensures
        first_match(s, server_id, action, ip, user_name, i) matches Some(j) ==> block_matches(
            s[j],
            server_id,
            action,
            ip,
            user_name,
        ),
    decreases s.len() - i,
{
    if i < s.len() && !block_matches(s[i], server_id, action, ip, user_name) {
        lemma_first_match_holds(s, server_id, action, ip, user_name, i + 1);
    }
}

} // verus!
