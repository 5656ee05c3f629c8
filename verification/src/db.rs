//! The records the panel keeps in its database, where the database lives, and the settings
//! cache that sits in front of the settings table.

use vstd::prelude::*;
use vstd::string::StringExecFns;
use crate::ip_location::IpLocation;
use crate::strmap::StrMap;

verus! {

/// Where the database lives when no `/data` volume is mounted.
pub const DEFAULT_DATABASE_PATH: &'static str = "data/embypanel.db";

/// Where the database lives on a `/data` volume.
pub const CONTAINER_DATABASE_PATH: &'static str = "/data/embypanel.db";

/// Seconds between two runs of one maintenance task.
pub const MAINTENANCE_INTERVAL_SECONDS: i64 = 3600;

/// How many writes wait for the telemetry writer at most.
pub const TELEMETRY_WRITE_QUEUE_CAPACITY: usize = 2048;

/// How many writes the telemetry writer stores in one transaction.
pub const TELEMETRY_WRITE_BATCH_SIZE: usize = 64;

/// The database file: on the `/data` volume when there is one, else under `data/`.
pub fn database_path(data_volume: bool) -> (r: String)
    ensures
        r@ == if data_volume {
            CONTAINER_DATABASE_PATH@
        } else {
            DEFAULT_DATABASE_PATH@
        },
{
    if data_volume {
        String::from_str(CONTAINER_DATABASE_PATH)
    } else {
        String::from_str(DEFAULT_DATABASE_PATH)
    }
}

/// The directory of the database file, where the panel keeps its other data too.
pub fn data_dir(data_volume: bool) -> (r: String)
    ensures
        r@ == if data_volume {
            "/data"@
        } else {
            "data"@
        },
{
    if data_volume {
        String::from_str("/data")
    } else {
        String::from_str("data")
    }
}

/// One proxied request as the telemetry writer receives it.
#[derive(Debug)]
pub struct ProxyRequestDetailWrite {
    pub timestamp_ms: u128,
    pub server_id: String,
    pub server_name: String,
    pub port: u16,
    pub method: String,
    pub path: String,
    pub path_type: String,
    pub status_code: u16,
    pub outcome: String,
    pub duration_ms: u128,
    pub playback_user: String,
    pub playback_ip: String,
    pub cache_hit: bool,
    pub blocked: bool,
    pub detail: String,
}

/// An administrator's password hash and id.
#[derive(Debug)]
pub struct AdminPasswordHash {
    pub admin_user_id: i64,
    pub password_hash: String,
}

/// What a counted request was.
#[derive(Debug, Clone, Copy, PartialEq, Eq, Structural)]
pub enum RequestStatKind {
    Request,
    Redirect,
    CacheHit,
    Block,
    Error,
}

impl RequestStatKind {
    /// What one request of this kind adds to the day's counters: requests, redirects, cache
    /// hits, blocks and errors, in that order; exactly one of them is 1.
    pub fn delta(self) -> (r: (i64, i64, i64, i64, i64))
        ensures
            r == match self {
                RequestStatKind::Request => (1i64, 0i64, 0i64, 0i64, 0i64),
                RequestStatKind::Redirect => (0i64, 1i64, 0i64, 0i64, 0i64),
                RequestStatKind::CacheHit => (0i64, 0i64, 1i64, 0i64, 0i64),
                RequestStatKind::Block => (0i64, 0i64, 0i64, 1i64, 0i64),
                RequestStatKind::Error => (0i64, 0i64, 0i64, 0i64, 1i64),
            },
    {
        match self {
            RequestStatKind::Request => (1, 0, 0, 0, 0),
            RequestStatKind::Redirect => (0, 1, 0, 0, 0),
            RequestStatKind::CacheHit => (0, 0, 1, 0, 0),
            RequestStatKind::Block => (0, 0, 0, 1, 0),
            RequestStatKind::Error => (0, 0, 0, 0, 1),
        }
    }
}

/// One server's counters of one day.
#[derive(Debug)]
pub struct RequestStatsDaily {
    pub date: String,
    pub server_id: String,
    pub server_name: String,
    pub port: u16,
    pub requests: i64,
    pub redirects: i64,
    pub cache_hits: i64,
    pub blocks: i64,
    pub errors: i64,
    pub updated_at_ms: u128,
}

/// Filters of the request log.
#[derive(Debug)]
pub struct ProxyRequestDetailFilter<'a> {
    pub server_id: Option<&'a str>,
    pub path_type: Option<&'a str>,
    pub keyword: Option<&'a str>,
    pub since_ms: Option<u128>,
    pub until_ms: Option<u128>,
    pub limit: usize,
}

/// One stored proxied request.
#[derive(Debug)]
pub struct ProxyRequestDetail {
    pub id: i64,
    pub timestamp_ms: u128,
    pub server_id: String,
    pub server_name: String,
    pub port: u16,
    pub method: String,
    pub path: String,
    pub path_type: String,
    pub status_code: u16,
    pub outcome: String,
    pub duration_ms: u128,
    pub playback_user: String,
    pub playback_ip: String,
    pub ip_location: Option<IpLocation>,
    pub cache_hit: bool,
    pub blocked: bool,
    pub detail: String,
}

/// One entry of the audit log.
#[derive(Debug)]
pub struct AuditLogEntry {
    pub id: i64,
    pub timestamp_ms: u128,
    pub admin_user_id: Option<i64>,
    pub admin_username: String,
    pub action: String,
    pub summary: String,
    pub result: String,
}

/// Whether an administrator exists yet.
#[derive(Debug)]
pub struct SetupStatus {
    pub initialized: bool,
}

/// A millisecond count as SQLite stores it: capped at `i64::MAX`.
pub fn sqlite_i64(value: u128) -> (r: i64)
    ensures
        r as int == if value > i64::MAX as u128 {
            i64::MAX as int
        } else {
            value as int
        },
{
    if value > i64::MAX as u128 {
        i64::MAX
    } else {
        value as i64
    }
}

/// A maintenance task is due when an hour has passed since its last run (the difference
/// saturating at the bounds of `i64`).
pub fn maintenance_due(now: i64, last_run: i64) -> (r: bool)
    ensures
        r == (now - last_run >= MAINTENANCE_INTERVAL_SECONDS),
{
    let diff: i64 = if last_run < 0 && now > i64::MAX + last_run {
        i64::MAX
    } else if last_run > 0 && now < i64::MIN + last_run {
        i64::MIN
    } else {
        now - last_run
    };
    diff >= MAINTENANCE_INTERVAL_SECONDS
}

/// A dropped telemetry write is reported when the number dropped so far is a power of two.
pub fn drop_is_reported(dropped: u64) -> (r: bool)
    ensures
        r == is_power_of_two(dropped as nat),
{
    if dropped == 0 {
        return false;
    }
    let mut n = dropped;
    while n % 2 == 0
        invariant
            n > 0,
            is_power_of_two(n as nat) == is_power_of_two(dropped as nat),
        decreases n,
    {
        proof {
            assert(n == 2 * (n / 2));
        }
        n = n / 2;
    }
    proof {
        if n > 1 {
            assert(n % 2 == 1);
        }
    }
    n == 1
}

/// `n` is 1, 2, 4, 8 and so on.
pub open spec fn is_power_of_two(n: nat) -> bool
    decreases n,
{
    if n == 0 {
        false
    } else if n == 1 {
        true
    } else {
        n % 2 == 0 && is_power_of_two(n / 2)
    }
}

/// The port a stored configuration used to default to, now kept for the panel itself.
pub const RESERVED_PORT: u16 = 8090;

/// A stored configuration on the reserved port moves to the default port. Tells whether it
/// moved (and must then be saved again).
pub fn migrate_reserved_port(config: &mut crate::config::Config) -> (moved: bool)
    ensures
        moved == (old(config).port == RESERVED_PORT),
        final(config).port == if moved {
            8096
        } else {
            old(config).port
        },
        crate::config::same_but_servers(*final(config), *old(config)),
        final(config).servers@ == old(config).servers@,
        final(config).emby_host == old(config).emby_host,
        final(config).emby_api_key == old(config).emby_api_key,
{
    if config.port == RESERVED_PORT {
        config.port = crate::config::default_port();
        true
    } else {
        false
    }
}

/// The cache in front of the settings table and the revision of the settings: each key
/// read is remembered with its stored JSON (`None` when the key has no row), and every
/// write bumps the revision.
pub struct SettingsStore {
    path: String,
    settings_cache: StrMap<Option<String>>,
    settings_revision: u64,
}

impl SettingsStore {
    pub closed spec fn wf(self) -> bool {
        self.settings_cache.wf()
    }

    /// The database file.
    pub closed spec fn spec_path(self) -> Seq<char> {
        self.path@
    }

    /// What the cache holds: per key, the stored JSON or `None` for a key without a row.
    pub closed spec fn spec_cache(self) -> Map<Seq<char>, Option<String>> {
        self.settings_cache@
    }

    pub closed spec fn spec_revision(self) -> u64 {
        self.settings_revision
    }

    /// A store on the database file, with an empty cache, at revision 0.
    pub fn new(path: &str) -> (s: Self)
        ensures
            s.wf(),
            s.spec_path() == path@,
            s.spec_cache() == Map::<Seq<char>, Option<String>>::empty(),
            s.spec_revision() == 0,
    {
        SettingsStore { path: String::from_str(path), settings_cache: StrMap::new(), settings_revision: 0 }
    }

    /// The database file.
    pub fn path(&self) -> (r: &str)
        ensures
            r@ == self.spec_path(),
    {
        self.path.as_str()
    }

    /// How many times the settings were written; it wraps around after `u64::MAX`.
    pub fn settings_revision(&self) -> (r: u64)
        ensures
            r == self.spec_revision(),
    {
        self.settings_revision
    }

    /// The cached JSON of a key: `None` when the key was never read or written, `Some(None)`
    /// when it has no row.
    pub fn cached_setting(&self, key: &str) -> (r: Option<Option<String>>)
        requires
            self.wf(),
        ensures
            match r {
                Some(v) => self.spec_cache().dom().contains(key@) && self.spec_cache()[key@] == v,
                None => !self.spec_cache().dom().contains(key@),
            },
    {
        match self.settings_cache.get(key) {
            Some(v) => Some(
                match v {
                    Some(s) => Some(s.clone()),
                    None => None,
                },
            ),
            None => None,
        }
    }

    /// Remembers what the settings table holds for a key that was read from it.
    pub fn remember_setting(&mut self, key: &str, value: Option<String>)
        requires
            old(self).wf(),
        ensures
            final(self).wf(),
            final(self).spec_cache() == old(self).spec_cache().insert(key@, value),
            final(self).spec_revision() == old(self).spec_revision(),
            final(self).spec_path() == old(self).spec_path(),
    {
        self.settings_cache.insert(String::from_str(key), value);
    }

    /// Records that a key's JSON was written: the cache holds it and the revision goes up by
    /// one.
    pub fn setting_saved(&mut self, key: &str, json: String)
        requires
            old(self).wf(),
        ensures
            final(self).wf(),
            final(self).spec_cache() == old(self).spec_cache().insert(key@, Some(json)),
            final(self).spec_revision() == (old(self).spec_revision() + 1) % 0x1_0000_0000_0000_0000,
            final(self).spec_path() == old(self).spec_path(),
    {
        self.settings_cache.insert(String::from_str(key), Some(json));
        self.settings_revision = self.settings_revision.wrapping_add(1);
    }

    /// Records that a key's row was deleted: the cache knows it has none and the revision
    /// goes up by one.
    pub fn setting_deleted(&mut self, key: &str)
        requires
            old(self).wf(),
        ensures
            final(self).wf(),
            final(self).spec_cache() == old(self).spec_cache().insert(key@, None::<String>),
            final(self).spec_revision() == (old(self).spec_revision() + 1) % 0x1_0000_0000_0000_0000,
            final(self).spec_path() == old(self).spec_path(),
    {
        self.settings_cache.insert(String::from_str(key), None);
        self.settings_revision = self.settings_revision.wrapping_add(1);
    }

    /// Finishes a write of a key's JSON once the table answered: on success the write is
    /// recorded (see [`SettingsStore::setting_saved`]); a failed write leaves the store as it
    /// was and its error is returned.
    pub fn finish_save(&mut self, key: &str, json: String, written: Result<(), crate::error::AppError>) -> (r: Result<
        (),
        crate::error::AppError,
    >)
        requires
            old(self).wf(),
        ensures
            final(self).wf(),
            r == written,
            written is Ok ==> final(self).spec_cache() == old(self).spec_cache().insert(key@, Some(json))
                && final(self).spec_revision() == (old(self).spec_revision() + 1) % 0x1_0000_0000_0000_0000
                && final(self).spec_path() == old(self).spec_path(),
            written is Err ==> *final(self) == *old(self),
    {
        match written {
            Ok(u) => {
                self.setting_saved(key, json);
                Ok(u)
            },
            Err(e) => Err(e),
        }
    }

    /// Finishes a delete of a key's row once the table answered: on success the delete is
    /// recorded (see [`SettingsStore::setting_deleted`]); a failed delete leaves the store as
    /// it was and its error is returned.
    pub fn finish_delete(&mut self, key: &str, deleted: Result<(), crate::error::AppError>) -> (r: Result<
        (),
        crate::error::AppError,
    >)
        requires
            old(self).wf(),
        ensures
            final(self).wf(),
            r == deleted,
            deleted is Ok ==> final(self).spec_cache() == old(self).spec_cache().insert(key@, None::<String>)
                && final(self).spec_revision() == (old(self).spec_revision() + 1) % 0x1_0000_0000_0000_0000
                && final(self).spec_path() == old(self).spec_path(),
            deleted is Err ==> *final(self) == *old(self),
    {
        match deleted {
            Ok(u) => {
                self.setting_deleted(key);
                Ok(u)
            },
            Err(e) => Err(e),
        }
    }
}

/// After a key is written, reading it from the cache gives back what was written, and the
/// revision has moved on.
pub proof fn lemma_saved_setting_reads_back(
    before: SettingsStore,
    after: SettingsStore,
    key: Seq<char>,
    json: String,
)
    requires
        after.spec_cache() == before.spec_cache().insert(key, Some(json)),
        after.spec_revision() == (before.spec_revision() + 1) % 0x1_0000_0000_0000_0000,
        before.spec_revision() < u64::MAX,
    ensures
        after.spec_cache().dom().contains(key),
        after.spec_cache()[key] == Some(json),
        after.spec_revision() > before.spec_revision(),
{
}


/// What one call does to the settings store, as far as the revision goes.
#[derive(Debug, Clone, Copy, PartialEq, Eq, Structural)]
pub enum SettingStep {
    /// `setting_saved`: a key was written.
    Saved,
    /// `setting_deleted`: a key's row was deleted.
    Deleted,
    /// `remember_setting`: a key was read.
    Loaded,
    /// `finish_save` or `finish_delete` after the table refused the write.
    Refused,
}

/// How many of the steps write or delete.
pub open spec fn writes_in(steps: Seq<SettingStep>) -> nat
    decreases steps.len(),
{
    if steps.len() == 0 {
        0
    } else {
        writes_in(steps.drop_last()) + if steps.last() == SettingStep::Saved || steps.last()
            == SettingStep::Deleted {
            1nat
        } else {
            0nat
        }
    }
}

/// The revision of `after` follows from that of `before` by a step, as the contracts of
/// `setting_saved`, `setting_deleted`, `remember_setting`, `finish_save` and `finish_delete`
/// say.
pub open spec fn revision_step(before: SettingsStore, step: SettingStep, after: SettingsStore) -> bool {
    if step == SettingStep::Loaded || step == SettingStep::Refused {
        after.spec_revision() == before.spec_revision()
    } else {
        after.spec_revision() == (before.spec_revision() + 1) % 0x1_0000_0000_0000_0000
    }
}

/// A store starts at revision 0 (`new`), each write or delete that succeeds raises the
/// revision by one (wrapping after `u64::MAX`), and a read or a refused write leaves it:
/// after any steps from a new store the revision is the number of successful writes and
/// deletes.
pub proof fn lemma_revision_counts_writes(stores: Seq<SettingsStore>, steps: Seq<SettingStep>)
    requires
        stores.len() == steps.len() + 1,
        stores[0].spec_revision() == 0,
        forall|k: int| 0 <= k < steps.len() ==> revision_step(stores[k], #[trigger] steps[k], stores[k + 1]),
    ensures
        stores.last().spec_revision() == writes_in(steps) % 0x1_0000_0000_0000_0000,
    decreases steps.len(),
{
    if steps.len() > 0 {
        let n = steps.len() - 1;
        lemma_revision_counts_writes(stores.drop_last(), steps.drop_last());
        assert(revision_step(stores[n], steps[n], stores[n + 1]));
        assert(stores.drop_last().last() == stores[n]);
        if steps.last() == SettingStep::Saved || steps.last() == SettingStep::Deleted {
            let w = writes_in(steps.drop_last()) as int;
            assert(((w % 0x1_0000_0000_0000_0000) + 1) % 0x1_0000_0000_0000_0000 == (w + 1) % 0x1_0000_0000_0000_0000) by (nonlinear_arith)
                requires w >= 0;
        }
    }
}

} // verus!
