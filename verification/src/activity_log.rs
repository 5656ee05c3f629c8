//! A bounded in-memory log of playback and general activity, newest entries listed first.

use std::collections::VecDeque;
use vstd::prelude::*;
use vstd::string::StringExecFns;
use crate::text::{chars_of, contains, contains_chars, lower, lower_chars, opt_string_view, string_of};

verus! {

/// What an entry is about.
#[derive(Debug, Clone, Copy, PartialEq, Eq, Structural)]
pub enum ActivityKind {
    Playback,
    General,
}

pub open spec fn kind_text(kind: ActivityKind) -> Seq<char> {
    match kind {
        ActivityKind::Playback => "playback"@,
        ActivityKind::General => "general"@,
    }
}

impl ActivityKind {
    /// `playback` or `general`.
    pub fn as_str(self) -> (r: &'static str)
        ensures
            r@ == kind_text(self),
    {
        match self {
            ActivityKind::Playback => "playback",
            ActivityKind::General => "general",
        }
    }
}

/// How serious an entry is.
#[derive(Debug, Clone, Copy, PartialEq, Eq, Structural)]
pub enum ActivityLevel {
    Success,
    Info,
    Warn,
    Error,
}

pub open spec fn level_text(level: ActivityLevel) -> Seq<char> {
    match level {
        ActivityLevel::Success => "success"@,
        ActivityLevel::Info => "info"@,
        ActivityLevel::Warn => "warn"@,
        ActivityLevel::Error => "error"@,
    }
}

impl ActivityLevel {
    /// `success`, `info`, `warn` or `error`.
    pub fn as_str(self) -> (r: &'static str)
        ensures
            r@ == level_text(self),
    {
        match self {
            ActivityLevel::Success => "success",
            ActivityLevel::Info => "info",
            ActivityLevel::Warn => "warn",
            ActivityLevel::Error => "error",
        }
    }
}

/// Which entries a listing shows.
pub struct ActivityLogFilter<'a> {
    pub server_id: Option<&'a str>,
    pub kind: Option<ActivityKind>,
    pub level: Option<&'a str>,
    pub keyword: Option<&'a str>,
    pub since_ms: Option<u128>,
    pub until_ms: Option<u128>,
    pub limit: usize,
}

/// One logged event.
#[derive(Debug, Clone)]
pub struct ActivityLogEntry {
    pub id: u64,
    pub timestamp_ms: u128,
    pub kind: String,
    pub level: String,
    pub server_id: Option<String>,
    pub server_name: String,
    pub playback_user: Option<String>,
    pub playback_ip: Option<String>,
    pub message: String,
    pub detail: String,
}

impl ActivityLogEntry {
    /// A field-by-field copy.
    pub fn duplicate(&self) -> (r: Self)
        ensures
            r == *self,
    {
        ActivityLogEntry {
            id: self.id,
            timestamp_ms: self.timestamp_ms,
            kind: self.kind.clone(),
            level: self.level.clone(),
            server_id: match &self.server_id {
                Some(s) => Some(s.clone()),
                None => None,
            },
            server_name: self.server_name.clone(),
            playback_user: match &self.playback_user {
                Some(s) => Some(s.clone()),
                None => None,
            },
            playback_ip: match &self.playback_ip {
                Some(s) => Some(s.clone()),
                None => None,
            },
            message: self.message.clone(),
            detail: self.detail.clone(),
        }
    }
}

/// A playback event to log.
pub struct PlaybackLogRecord<'a> {
    pub level: ActivityLevel,
    pub server_id: Option<&'a str>,
    pub server_name: &'a str,
    pub playback_user: &'a str,
    pub playback_ip: &'a str,
    pub message: String,
    pub detail: String,
}

/// The log: at most `limit` entries, oldest first, with the identifier the next entry gets,
/// and (in proofs only) every entry ever recorded.
pub struct ActivityLogStore {
    limit: usize,
    next_id: u64,
    entries: VecDeque<ActivityLogEntry>,
    history: Ghost<Seq<ActivityLogEntry>>,
}

/// How many identifiers a `u64` counter takes before it wraps.
pub open spec fn id_span() -> int {
    0x1_0000_0000_0000_0000
}

/// `SystemTime::now()` as milliseconds since the Unix epoch (0 before the epoch). The
/// contract says nothing of the value: it is the machine's clock.
#[verifier::external_body]
fn now_ms() -> (r: u128) {
    std::time::SystemTime::now().duration_since(std::time::UNIX_EPOCH).map(|d| d.as_millis()).unwrap_or(0)
}

pub open spec fn opt_str_view(o: Option<&str>) -> Option<Seq<char>> {
    match o {
        Some(s) => Some(s@),
        None => None,
    }
}

/// The entries that remain when one more is added to a log of `limit` entries: the oldest
/// ones leave until there is room.
pub open spec fn room_for_one(s: Seq<ActivityLogEntry>, limit: nat) -> Seq<ActivityLogEntry> {
    if s.len() >= limit {
        s.skip(s.len() - limit + 1)
    } else {
        s
    }
}

/// An entry of a kind, level, server and playback with these texts.
pub open spec fn entry_has(
    e: ActivityLogEntry,
    id: u64,
    kind: ActivityKind,
    level: ActivityLevel,
    server_id: Option<Seq<char>>,
    server_name: Seq<char>,
    playback_user: Option<Seq<char>>,
    playback_ip: Option<Seq<char>>,
    message: Seq<char>,
    detail: Seq<char>,
) -> bool {
    &&& e.id == id
    &&& e.kind@ == kind_text(kind)
    &&& e.level@ == level_text(level)
    &&& opt_string_view(e.server_id) == server_id
    &&& e.server_name@ == server_name
    &&& opt_string_view(e.playback_user) == playback_user
    &&& opt_string_view(e.playback_ip) == playback_ip
    &&& e.message@ == message
    &&& e.detail@ == detail
}

/// Whether an entry passes a listing's filter: the server, kind and level when given
/// (`all` meaning any level), the time bounds when given, and the keyword, ignoring ASCII
/// case, in the server name, user, IP, level, message and detail joined by spaces.
pub open spec fn entry_passes(
    e: ActivityLogEntry,
    server_id: Option<Seq<char>>,
    kind: Option<ActivityKind>,
    level: Option<Seq<char>>,
    keyword: Option<Seq<char>>,
    since_ms: Option<u128>,
    until_ms: Option<u128>,
) -> bool {
    &&& (server_id matches Some(s) ==> opt_string_view(e.server_id) == Some(s))
    &&& (kind matches Some(k) ==> e.kind@ == kind_text(k))
    &&& (level matches Some(l) ==> l == "all"@ || e.level@ == l)
    &&& (since_ms matches Some(t) ==> e.timestamp_ms >= t)
    &&& (until_ms matches Some(t) ==> e.timestamp_ms <= t)
    &&& (keyword matches Some(k) ==> contains(lower(haystack(e)), lower(k)))
}

/// The text a keyword is looked for in.
pub open spec fn haystack(e: ActivityLogEntry) -> Seq<char> {
    e.server_name@ + " "@ + text_or_empty(e.playback_user) + " "@ + text_or_empty(e.playback_ip)
        + " "@ + e.level@ + " "@ + e.message@ + " "@ + e.detail@
}

pub open spec fn text_or_empty(o: Option<String>) -> Seq<char> {
    match o {
        Some(s) => s@,
        None => Seq::empty(),
    }
}

/// Up to `n` entries that pass the filter, newest first.
pub open spec fn newest_passing(
    s: Seq<ActivityLogEntry>,
    server_id: Option<Seq<char>>,
    kind: Option<ActivityKind>,
    level: Option<Seq<char>>,
    keyword: Option<Seq<char>>,
    since_ms: Option<u128>,
    until_ms: Option<u128>,
    n: nat,
) -> Seq<ActivityLogEntry>
    decreases s.len(),
{
    if s.len() == 0 || n == 0 {
        Seq::empty()
    } else if entry_passes(s.last(), server_id, kind, level, keyword, since_ms, until_ms) {
        seq![s.last()] + newest_passing(
            s.drop_last(),
            server_id,
            kind,
            level,
            keyword,
            since_ms,
            until_ms,
            (n - 1) as nat,
        )
    } else {
        newest_passing(s.drop_last(), server_id, kind, level, keyword, since_ms, until_ms, n)
    }
}

/// `limit` clamped to `1..=hi`.
pub open spec fn clamp_usize(limit: usize, hi: usize) -> usize {
    if limit < 1 {
        1
    } else if limit > hi {
        hi
    } else {
        limit
    }
}

impl ActivityLogStore {
    /// At least one entry is allowed and no more than the limit are kept; the log holds the
    /// latest `limit` entries of all ever recorded; the `k`-th recorded entry (from 0) has id
    /// `k + 1` and the next one gets the id after, counting modulo 2^64; until the counter
    /// wraps, the held ids ascend and stay below the next one.
    pub closed spec fn wf(&self) -> bool {
        &&& self.limit >= 1
        &&& self.entries@.len() <= self.limit
        &&& self.entries@ == latest_n(self.history@, self.limit as nat)
        &&& forall|k: int| 0 <= k < self.history@.len() ==> (#[trigger] self.history@[k]).id as int == (k + 1)
            % id_span()
        &&& self.next_id as int == (self.history@.len() as int + 1) % id_span()
        &&& self.history@.len() < u64::MAX ==> self.ids_in_order()
    }

    /// Every entry ever recorded, oldest first.
    pub closed spec fn spec_history(&self) -> Seq<ActivityLogEntry> {
        self.history@
    }

    /// The entries, oldest first.
    pub closed spec fn spec_entries(&self) -> Seq<ActivityLogEntry> {
        self.entries@
    }

    /// How many entries are kept.
    pub closed spec fn spec_limit(&self) -> usize {
        self.limit
    }

    /// The identifier of the next entry.
    pub closed spec fn spec_next_id(&self) -> u64 {
        self.next_id
    }

    /// The held entries' ids ascend, oldest first, and are all below the next id.
    pub open spec fn ids_in_order(&self) -> bool {
        &&& forall|i: int, j: int|
            0 <= i < j < self.spec_entries().len() ==> (#[trigger] self.spec_entries()[i]).id
                < (#[trigger] self.spec_entries()[j]).id
        &&& forall|i: int|
            0 <= i < self.spec_entries().len() ==> (#[trigger] self.spec_entries()[i]).id < self.spec_next_id()
    }

    /// An empty log that keeps at most `limit` entries (at least one), numbering from 1.
    pub fn new(limit: usize) -> (r: Self)
        ensures
            r.wf(),
            r.ids_in_order(),
            r.spec_entries().len() == 0,
            r.spec_limit() == if limit < 1 {
                1
            } else {
                limit
            },
            r.spec_next_id() == 1,
            r.spec_history().len() == 0,
    {
        let r = ActivityLogStore {
            limit: if limit < 1 {
                1
            } else {
                limit
            },
            next_id: 1,
            entries: VecDeque::new(),
            history: Ghost(Seq::empty()),
        };
        assert(r.entries@ =~= latest_n(r.history@, r.limit as nat));
        r
    }

    fn push_entry(&mut self, entry: ActivityLogEntry)
        requires
            old(self).limit >= 1,
            old(self).entries@.len() <= old(self).limit,
        ensures
            final(self).limit >= 1,
            final(self).entries@.len() <= final(self).limit,
            final(self).limit == old(self).limit,
            final(self).next_id == old(self).next_id,
            final(self).history == old(self).history,
            final(self).entries@ == room_for_one(old(self).entries@, old(self).limit as nat).push(entry),
    {
        let mut q: VecDeque<ActivityLogEntry> = VecDeque::new();
        std::mem::swap(&mut q, &mut self.entries);
        let ghost start = q@;
        let limit = self.limit;
        assert(start.skip(0) =~= start);
        while q.len() >= limit
            invariant
                limit >= 1,
                q@.len() <= limit,
                start.len() <= limit,
                q@.len() <= start.len(),
                q@ == start.skip(start.len() - q@.len()),
                start.len() >= limit ==> q@.len() >= limit - 1,
                start.len() < limit ==> q@ == start,
            decreases q@.len(),
        {
            let ghost before = q@;
            assert(before.len() >= limit);
            let popped = q.pop_front();
            assert(popped is Some);
            assert(q@ =~= before.subrange(1, before.len() as int));
            assert(q@ =~= start.skip(start.len() - q@.len()));
        }
        assert(q@ == room_for_one(start, limit as nat)) by {
            if start.len() >= limit {
                assert(q@.len() == limit - 1);
            } else {
                assert(q@ =~= start);
            }
        }
        q.push_back(entry);
        self.entries = q;
    }

    /// What `record` and `record_playback` keep: one entry `e` with the next id, appended as
    /// the oldest entries leave, keeps the store well formed.
    proof fn lemma_record_step(self, before: Self, e: ActivityLogEntry)
        requires
            before.wf(),
            e.id == before.next_id,
            self.limit == before.limit,
            self.next_id == before.next_id.wrapping_add(1),
            self.entries@ == room_for_one(before.entries@, before.limit as nat).push(e),
            self.history@ == before.history@.push(e),
        ensures
            self.wf(),
            self.entries@.last() == e,
    {
        let l = before.history@.len() as int;
        lemma_log_keeps_latest(before.history@, before.limit as nat, e);
        assert(self.history@.len() == l + 1);
        assert forall|k: int| 0 <= k < self.history@.len() implies (#[trigger] self.history@[k]).id as int == (k + 1)
            % id_span() by {
            if k < l {
                assert(self.history@[k] == before.history@[k]);
            }
        }
        assert(self.next_id as int == (l + 2) % id_span()) by {
            vstd::arithmetic::div_mod::lemma_add_mod_noop(l + 1, 1, id_span());
            vstd::arithmetic::div_mod::lemma_small_mod(1, id_span() as nat);
        }
        if self.history@.len() < u64::MAX {
            assert(before.history@.len() < u64::MAX);
            assert(before.next_id as int == l + 1) by {
                vstd::arithmetic::div_mod::lemma_small_mod((l + 1) as nat, id_span() as nat);
            }
            lemma_room_keeps_order(before.entries@, before.limit as nat, e, before.next_id);
        }
    }

    /// Logs an event of `kind` at the current time; when the log is full the oldest entries
    /// leave.
    pub fn record(
        &mut self,
        kind: ActivityKind,
        level: ActivityLevel,
        server_id: Option<&str>,
        server_name: &str,
        message: String,
        detail: String,
    )
        requires
            old(self).wf(),
        ensures
            final(self).wf(),
            final(self).spec_limit() == old(self).spec_limit(),
            final(self).spec_next_id() == old(self).spec_next_id().wrapping_add(1),
            final(self).spec_history() == old(self).spec_history().push(final(self).spec_entries().last()),
            final(self).spec_history().len() < u64::MAX ==> final(self).ids_in_order(),
            final(self).spec_entries().len() == room_for_one(
                old(self).spec_entries(),
                old(self).spec_limit() as nat,
            ).len() + 1,
            final(self).spec_entries().drop_last() == room_for_one(
                old(self).spec_entries(),
                old(self).spec_limit() as nat,
            ),
            entry_has(
                final(self).spec_entries().last(),
                old(self).spec_next_id(),
                kind,
                level,
                opt_str_view(server_id),
                server_name@,
                None,
                None,
                message@,
                detail@,
            ),
    {
        let id = self.next_id;
        self.next_id = self.next_id.wrapping_add(1);
        let entry = ActivityLogEntry {
            id,
            timestamp_ms: now_ms(),
            kind: String::from_str(kind.as_str()),
            level: String::from_str(level.as_str()),
            server_id: match server_id {
                Some(s) => Some(String::from_str(s)),
                None => None,
            },
            server_name: String::from_str(server_name),
            playback_user: None,
            playback_ip: None,
            message,
            detail,
        };
        let ghost e = entry;
        self.push_entry(entry);
        self.history = Ghost(self.history@.push(e));
        assert(self.entries@.drop_last() =~= room_for_one(old(self).entries@, old(self).limit as nat));
        proof {
            self.lemma_record_step(*old(self), e);
        }
    }

    /// Logs a playback event at the current time; when the log is full the oldest entries
    /// leave.
    pub fn record_playback(&mut self, record: PlaybackLogRecord<'_>)
        requires
            old(self).wf(),
        ensures
            final(self).wf(),
            final(self).spec_limit() == old(self).spec_limit(),
            final(self).spec_next_id() == old(self).spec_next_id().wrapping_add(1),
            final(self).spec_history() == old(self).spec_history().push(final(self).spec_entries().last()),
            final(self).spec_history().len() < u64::MAX ==> final(self).ids_in_order(),
            final(self).spec_entries().len() == room_for_one(
                old(self).spec_entries(),
                old(self).spec_limit() as nat,
            ).len() + 1,
            final(self).spec_entries().drop_last() == room_for_one(
                old(self).spec_entries(),
                old(self).spec_limit() as nat,
            ),
            entry_has(
                final(self).spec_entries().last(),
                old(self).spec_next_id(),
                ActivityKind::Playback,
                record.level,
                opt_str_view(record.server_id),
                record.server_name@,
                Some(record.playback_user@),
                Some(record.playback_ip@),
                record.message@,
                record.detail@,
            ),
    {
        let id = self.next_id;
        self.next_id = self.next_id.wrapping_add(1);
        let entry = ActivityLogEntry {
            id,
            timestamp_ms: now_ms(),
            kind: String::from_str(ActivityKind::Playback.as_str()),
            level: String::from_str(record.level.as_str()),
            server_id: match record.server_id {
                Some(s) => Some(String::from_str(s)),
                None => None,
            },
            server_name: String::from_str(record.server_name),
            playback_user: Some(String::from_str(record.playback_user)),
            playback_ip: Some(String::from_str(record.playback_ip)),
            message: record.message,
            detail: record.detail,
        };
        let ghost e = entry;
        self.push_entry(entry);
        self.history = Ghost(self.history@.push(e));
        assert(self.entries@.drop_last() =~= room_for_one(old(self).entries@, old(self).limit as nat));
        proof {
            self.lemma_record_step(*old(self), e);
        }
    }
}

fn opt_text_exec(o: &Option<String>) -> (r: &str)
    ensures
        r@ == text_or_empty(*o),
{
    proof {
        reveal_strlit("");
    }
    match o {
        Some(s) => s.as_str(),
        None => "",
    }
}

fn haystack_exec(e: &ActivityLogEntry) -> (r: Vec<char>)
    ensures
        r@ == lower(haystack(*e)),
{
    let mut h = String::from_str(e.server_name.as_str());
    h.append(" ");
    h.append(opt_text_exec(&e.playback_user));
    h.append(" ");
    h.append(opt_text_exec(&e.playback_ip));
    h.append(" ");
    h.append(e.level.as_str());
    h.append(" ");
    h.append(e.message.as_str());
    h.append(" ");
    h.append(e.detail.as_str());
    let v = chars_of(h.as_str());
    lower_chars(&v)
}

fn passes_exec(
    e: &ActivityLogEntry,
    server_id: Option<&str>,
    kind: Option<ActivityKind>,
    level: Option<&str>,
    keyword: &Option<Vec<char>>,
    since_ms: Option<u128>,
    until_ms: Option<u128>,
) -> (r: bool)
    ensures
        r == entry_passes(
            *e,
            opt_str_view(server_id),
            kind,
            opt_str_view(level),
            match keyword {
                Some(k) => Some(k@),
                None => None,
            },
            since_ms,
            until_ms,
        ),
{
    proof {
        reveal_strlit("all");
    }
    match server_id {
        Some(sid) => {
            let same = match &e.server_id {
                Some(s) => crate::strmap::str_eq(s.as_str(), sid),
                None => false,
            };
            if !same {
                return false;
            }
        },
        None => {},
    }
    match kind {
        Some(k) => {
            if !crate::strmap::str_eq(e.kind.as_str(), k.as_str()) {
                return false;
            }
        },
        None => {},
    }
    match level {
        Some(l) => {
            if !crate::strmap::str_eq(l, "all") && !crate::strmap::str_eq(e.level.as_str(), l) {
                return false;
            }
        },
        None => {},
    }
    match since_ms {
        Some(t) => {
            if e.timestamp_ms < t {
                return false;
            }
        },
        None => {},
    }
    match until_ms {
        Some(t) => {
            if e.timestamp_ms > t {
                return false;
            }
        },
        None => {},
    }
    match keyword {
        Some(k) => {
            let lk = lower_chars(k);
            let h = haystack_exec(e);
            contains_chars(&h, &lk)
        },
        None => true,
    }
}

impl ActivityLogStore {
    fn select(
        &self,
        server_id: Option<&str>,
        kind: Option<ActivityKind>,
        level: Option<&str>,
        keyword: Option<&str>,
        since_ms: Option<u128>,
        until_ms: Option<u128>,
        limit: usize,
    ) -> (r: Vec<ActivityLogEntry>)
        requires
            self.wf(),
        ensures
            r@ == newest_passing(
                self.entries@,
                opt_str_view(server_id),
                kind,
                opt_str_view(level),
                opt_str_view(keyword),
                since_ms,
                until_ms,
                clamp_usize(limit, self.limit) as nat,
            ),
    {
        let n = if limit < 1 {
            1
        } else if limit > self.limit {
            self.limit
        } else {
            limit
        };
        let kw: Option<Vec<char>> = match keyword {
            Some(k) => Some(chars_of(k)),
            None => None,
        };
        let ghost sv = opt_str_view(server_id);
        let ghost lv = opt_str_view(level);
        let ghost kv = opt_str_view(keyword);
        let ghost s = self.entries@;
        let mut out: Vec<ActivityLogEntry> = Vec::new();
        let mut i: usize = self.entries.len();
        assert(s.take(s.len() as int) =~= s);
        while i > 0 && out.len() < n
            invariant
                i <= s.len(),
                s == self.entries@,
                out@.len() <= n,
                sv == opt_str_view(server_id),
                lv == opt_str_view(level),
                kv == match kw {
                    Some(k) => Some(k@),
                    None => None::<Seq<char>>,
                },
                out@ + newest_passing(s.take(i as int), sv, kind, lv, kv, since_ms, until_ms, (n - out@.len()) as nat)
                    == newest_passing(s, sv, kind, lv, kv, since_ms, until_ms, n as nat),
            decreases i,
        {
            let e = &self.entries[i - 1];
            let ghost t = s.take(i as int);
            assert(t.last() == *e);
            assert(t.drop_last() =~= s.take(i - 1));
            let ghost m = (n - out@.len()) as nat;
            assert(m > 0);
            assert(t.len() > 0);
            let ok = passes_exec(e, server_id, kind, level, &kw, since_ms, until_ms);
            assert(ok == entry_passes(t.last(), sv, kind, lv, kv, since_ms, until_ms));
            if ok {
                let ghost o0 = out@;
                let ghost rest = newest_passing(s.take(i - 1), sv, kind, lv, kv, since_ms, until_ms, (m - 1) as nat);
                assert(newest_passing(t, sv, kind, lv, kv, since_ms, until_ms, m) == seq![*e] + rest);
                out.push(e.duplicate());
                assert(out@ =~= o0 + seq![*e]);
                assert(o0 + seq![*e] + rest =~= o0 + (seq![*e] + rest));
            } else {
                assert(newest_passing(t, sv, kind, lv, kv, since_ms, until_ms, m) == newest_passing(s.take(i - 1), sv, kind, lv, kv, since_ms, until_ms, m));
            }
            i = i - 1;
        }
        assert(newest_passing(s.take(i as int), sv, kind, lv, kv, since_ms, until_ms, (n - out@.len()) as nat) =~= Seq::<ActivityLogEntry>::empty());
        assert(out@ =~= out@ + Seq::<ActivityLogEntry>::empty());
        out
    }

    /// Up to `limit` entries (clamped to `1..=` the log's limit) of the server and kind when
    /// given, newest first.
    pub fn list(&self, server_id: Option<&str>, kind: Option<ActivityKind>, limit: usize) -> (r: Vec<
        ActivityLogEntry,
    >)
        requires
            self.wf(),
        ensures
            r@ == newest_passing(
                self.spec_entries(),
                opt_str_view(server_id),
                kind,
                None,
                None,
                None,
                None,
                clamp_usize(limit, self.spec_limit()) as nat,
            ),
    {
        self.select(server_id, kind, None, None, None, None, limit)
    }

    /// Up to `filter.limit` entries (clamped to `1..=` the log's limit) that pass the filter
    /// (see [`entry_passes`]), newest first.
    pub fn list_filtered(&self, filter: ActivityLogFilter<'_>) -> (r: Vec<ActivityLogEntry>)
        requires
            self.wf(),
        ensures
            r@ == newest_passing(
                self.spec_entries(),
                opt_str_view(filter.server_id),
                filter.kind,
                opt_str_view(filter.level),
                opt_str_view(filter.keyword),
                filter.since_ms,
                filter.until_ms,
                clamp_usize(filter.limit, self.spec_limit()) as nat,
            ),
    {
        self.select(
            filter.server_id,
            filter.kind,
            filter.level,
            filter.keyword,
            filter.since_ms,
            filter.until_ms,
            filter.limit,
        )
    }
}


proof fn lemma_room_keeps_order(s: Seq<ActivityLogEntry>, limit: nat, e: ActivityLogEntry, next: u64)
    requires
        limit >= 1,
        e.id == next,
        forall|i: int, j: int| 0 <= i < j < s.len() ==> (#[trigger] s[i]).id < (#[trigger] s[j]).id,
        forall|i: int| 0 <= i < s.len() ==> (#[trigger] s[i]).id < next,
    ensures
        ({
            let t = room_for_one(s, limit).push(e);
            &&& forall|i: int, j: int| 0 <= i < j < t.len() ==> (#[trigger] t[i]).id < (#[trigger] t[j]).id
            &&& forall|i: int| 0 <= i < t.len() ==> (#[trigger] t[i]).id <= next
        }),
{
    let r = room_for_one(s, limit);
    let d = s.len() - r.len();
    assert forall|i: int| 0 <= i < r.len() implies #[trigger] r[i] == s[i + d] by {}
    let t = r.push(e);
    assert forall|i: int, j: int| 0 <= i < j < t.len() implies (#[trigger] t[i]).id < (#[trigger] t[j]).id by {
        assert(t[i] == s[i + d]);
        if j < r.len() {
            assert(t[j] == s[j + d]);
        }
    }
    assert forall|i: int| 0 <= i < t.len() implies (#[trigger] t[i]).id <= next by {
        if i < r.len() {
            assert(t[i] == s[i + d]);
        }
    }
}

/// The last `n` of a sequence, or all of it when it is shorter.
pub open spec fn latest_n(s: Seq<ActivityLogEntry>, n: nat) -> Seq<ActivityLogEntry> {
    if s.len() <= n {
        s
    } else {
        s.skip(s.len() - n)
    }
}

/// A log that holds the latest `limit` of the entries recorded so far holds, once one more
/// is recorded (the oldest leaving to make room, see `record`), the latest `limit` of those
/// and the new one. As `new` starts empty, after any records a log holds the latest `limit`
/// of all it was given.
pub proof fn lemma_log_keeps_latest(recorded: Seq<ActivityLogEntry>, limit: nat, e: ActivityLogEntry)
    requires
        limit >= 1,
    ensures
        room_for_one(latest_n(recorded, limit), limit).push(e) == latest_n(recorded.push(e), limit),
{
    let h = latest_n(recorded, limit);
    let lhs = room_for_one(h, limit).push(e);
    let rhs = latest_n(recorded.push(e), limit);
    assert(lhs.len() == rhs.len());
    assert forall|i: int| 0 <= i < lhs.len() implies lhs[i] == rhs[i] by {
        if i < lhs.len() - 1 {
            let r = room_for_one(h, limit);
            assert(lhs[i] == r[i]);
        }
    }
    assert(lhs =~= rhs);
}


/// Starting from the empty log `new` gives, a log to which the entries `recorded` were added
/// one by one, each as `record` adds it (the oldest leaving to make room), holds the latest
/// `limit` of them.
pub proof fn lemma_log_holds_latest(snapshots: Seq<Seq<ActivityLogEntry>>, recorded: Seq<ActivityLogEntry>, limit: nat)
    requires
        limit >= 1,
        snapshots.len() == recorded.len() + 1,
        snapshots[0].len() == 0,
        forall|k: int|
            0 <= k < recorded.len() ==> #[trigger] snapshots[k + 1] == room_for_one(snapshots[k], limit).push(recorded[k]),
    ensures
        snapshots.last() == latest_n(recorded, limit),
    decreases recorded.len(),
{
    if recorded.len() == 0 {
        assert(snapshots.last() =~= latest_n(recorded, limit));
    } else {
        let n = recorded.len() - 1;
        let sd = snapshots.drop_last();
        let rd = recorded.drop_last();
        assert forall|k: int| 0 <= k < rd.len() implies #[trigger] sd[k + 1] == room_for_one(sd[k], limit).push(rd[k]) by {
            assert(snapshots[k + 1] == room_for_one(snapshots[k], limit).push(recorded[k]));
        }
        lemma_log_holds_latest(sd, rd, limit);
        assert(snapshots[n + 1] == room_for_one(snapshots[n], limit).push(recorded[n]));
        lemma_log_keeps_latest(rd, limit, recorded[n]);
        assert(rd.push(recorded[n]) =~= recorded);
    }
}

impl ActivityLogStore {
    /// A well-formed log holds the latest `limit` of all entries recorded since `new` (so after
    /// `k` records the last `min(k, limit)` of them); the first recorded entry has id 1; until
    /// 2^64 - 1 entries were recorded the held ids ascend and stay below the next id.
    pub proof fn lemma_holds_latest_of_history(&self)
        requires
            self.wf(),
        ensures
            self.spec_entries() == latest_n(self.spec_history(), self.spec_limit() as nat),
            self.spec_history().len() > 0 ==> self.spec_history()[0].id == 1,
            self.spec_history().len() < u64::MAX ==> self.ids_in_order(),
    {
        if self.history@.len() > 0 {
            assert(self.history@[0].id as int == 1int % id_span());
        }
    }
}

} // verus!
