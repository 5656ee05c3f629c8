//! Connectivity checks of the servers: what a check found, and the monitor's memory of
//! failures, errors and restarts that decides what is reported and when a proxy restarts.

use vstd::prelude::*;
use vstd::string::StringExecFns;
use crate::config::Config;
use crate::strmap::StrMap;
use crate::text::{decimal, decimal_string, decimal_string_wide};

verus! {

/// The shortest time between two rounds of checks, in seconds.
pub const MIN_CHECK_INTERVAL_SECONDS: u64 = 10;

/// The outcome of checking one server.
#[derive(Debug, Clone)]
pub struct ConnectivityCheckStatus {
    pub server_id: String,
    pub server_name: String,
    pub port: u16,
    pub enabled: bool,
    pub ok: bool,
    pub emby_ok: bool,
    pub openlist_ok: Option<bool>,
    pub proxy_ok: bool,
    pub checked_at_ms: u128,
    pub duration_ms: u128,
    pub failed_since_ms: Option<u128>,
    pub auto_restarted_at_ms: Option<u128>,
    pub last_error: Option<String>,
}

impl ConnectivityCheckStatus {
    /// A field-by-field copy.
    pub fn duplicate(&self) -> (r: Self)
        ensures
            r == *self,
    {
        ConnectivityCheckStatus {
            server_id: self.server_id.clone(),
            server_name: self.server_name.clone(),
            port: self.port,
            enabled: self.enabled,
            ok: self.ok,
            emby_ok: self.emby_ok,
            openlist_ok: self.openlist_ok,
            proxy_ok: self.proxy_ok,
            checked_at_ms: self.checked_at_ms,
            duration_ms: self.duration_ms,
            failed_since_ms: self.failed_since_ms,
            auto_restarted_at_ms: self.auto_restarted_at_ms,
            last_error: match &self.last_error {
                Some(e) => Some(e.clone()),
                None => None,
            },
        }
    }
}

/// The status shown for a server that was not checked yet.
pub open spec fn unchecked_status(s: ConnectivityCheckStatus, server: crate::config::EmbyServerConfig, has_openlist: bool) -> bool {
    &&& s.server_id == server.id
    &&& s.server_name == server.name
    &&& s.port == server.port
    &&& s.enabled == server.enabled
    &&& !s.ok && !s.emby_ok && !s.proxy_ok
    &&& s.openlist_ok == if has_openlist {
        Some(false)
    } else {
        None
    }
    &&& s.checked_at_ms == 0 && s.duration_ms == 0
    &&& s.failed_since_ms is None && s.auto_restarted_at_ms is None
    &&& s.last_error matches Some(e) && e@ == "尚未巡检"@
}

/// How long to wait between rounds: the configured interval, at least 10 seconds.
pub fn check_interval(config: &Config) -> (r: u64)
    ensures
        r == if config.connectivity_check_interval_seconds < MIN_CHECK_INTERVAL_SECONDS {
            MIN_CHECK_INTERVAL_SECONDS
        } else {
            config.connectivity_check_interval_seconds
        },
{
    if config.connectivity_check_interval_seconds < MIN_CHECK_INTERVAL_SECONDS {
        MIN_CHECK_INTERVAL_SECONDS
    } else {
        config.connectivity_check_interval_seconds
    }
}

/// The errors of one check, joined by `；`: Emby's, the proxy port's, OpenList's.
pub open spec fn check_errors(emby: Option<Seq<char>>, proxy: Option<Seq<char>>, openlist: Option<Seq<char>>) -> Seq<
    Seq<char>,
> {
    (if emby is Some {
        seq!["Emby: "@ + emby->0]
    } else {
        seq![]
    }) + (if proxy is Some {
        seq!["反代端口: "@ + proxy->0]
    } else {
        seq![]
    }) + (if openlist is Some {
        seq!["OpenList: "@ + openlist->0]
    } else {
        seq![]
    })
}

fn err_text(r: &Result<(), String>) -> (t: Option<String>)
    ensures
        crate::text::opt_string_view(t) == match r {
            Ok(_) => None,
            Err(e) => Some(e@),
        },
{
    match r {
        Ok(_) => None,
        Err(e) => Some(e.clone()),
    }
}

pub open spec fn result_error(r: Result<(), String>) -> Option<Seq<char>> {
    match r {
        Ok(_) => None,
        Err(e) => Some(e@),
    }
}

pub open spec fn opt_result_error(r: Option<Result<(), String>>) -> Option<Seq<char>> {
    match r {
        Some(Err(e)) => Some(e@),
        _ => None,
    }
}

/// What the results of checking a server amount to: it is fine when Emby and the proxy port
/// answered and OpenList, when configured, did too; the errors are joined by `；`.
pub fn check_outcome(
    emby: &Result<(), String>,
    proxy: &Result<(), String>,
    openlist: &Option<Result<(), String>>,
) -> (r: (bool, Option<bool>, Option<String>))
    ensures
        r.0 == (emby is Ok && proxy is Ok && (openlist matches Some(o) ==> o is Ok)),
        r.1 == match openlist {
            Some(o) => Some(o is Ok),
            None => None,
        },
        crate::text::opt_string_view(r.2) == if check_errors(
            result_error(*emby),
            result_error(*proxy),
            opt_result_error(*openlist),
        ).len() == 0 {
            None
        } else {
            Some(
                crate::text::join(
                    check_errors(result_error(*emby), result_error(*proxy), opt_result_error(*openlist)),
                    "；"@,
                ),
            )
        },
{
    let ghost es = check_errors(result_error(*emby), result_error(*proxy), opt_result_error(*openlist));
    let mut errors: Vec<Vec<char>> = Vec::new();
    match emby {
        Err(e) => {
            let mut t = String::from_str("Emby: ");
            t.append(e.as_str());
            errors.push(crate::text::chars_of(t.as_str()));
        },
        Ok(_) => {},
    }
    match proxy {
        Err(e) => {
            let mut t = String::from_str("反代端口: ");
            t.append(e.as_str());
            errors.push(crate::text::chars_of(t.as_str()));
        },
        Ok(_) => {},
    }
    match openlist {
        Some(Err(e)) => {
            let mut t = String::from_str("OpenList: ");
            t.append(e.as_str());
            errors.push(crate::text::chars_of(t.as_str()));
        },
        _ => {},
    }
    assert(crate::text::views(errors@) =~= es);
    let openlist_ok = match openlist {
        Some(o) => Some(o.is_ok()),
        None => None,
    };
    let ok = emby.is_ok() && proxy.is_ok() && match openlist {
        Some(o) => o.is_ok(),
        None => true,
    };
    let last_error = if errors.len() == 0 {
        None
    } else {
        let sep = crate::text::chars_of("；");
        Some(crate::text::string_of(&crate::text::join_chars(&errors, &sep)))
    };
    (ok, openlist_ok, last_error)
}

/// The error of an unanswered proxy port.
pub fn proxy_port_error(port: u16, timed_out: bool, reason: &str) -> (r: String)
    ensures
        r@ == if timed_out {
            "连接 127.0.0.1:"@ + decimal(port as nat) + " 超时"@
        } else {
            "连接 127.0.0.1:"@ + decimal(port as nat) + " 失败: "@ + reason@
        },
{
    let mut r = String::from_str("连接 127.0.0.1:");
    let p = decimal_string(port as u64);
    r.append(p.as_str());
    if timed_out {
        r.append(" 超时");
    } else {
        r.append(" 失败: ");
        r.append(reason);
    }
    r
}

/// What a check changes in what was reported of a server.
#[derive(Debug, PartialEq, Eq)]
pub enum StatusChange {
    /// Nothing new to report.
    Unchanged,
    /// The server works again after a reported problem.
    Recovered,
    /// A new problem, reported with its error.
    Failed(String),
}

/// The memory of the connectivity monitor, per server id: the last statuses, since when the
/// proxy port has failed, the last reported error, and when the proxy was last restarted.
pub struct ConnectivityMonitor {
    statuses: StrMap<ConnectivityCheckStatus>,
    proxy_failed_since: StrMap<u128>,
    last_error: StrMap<String>,
    last_restart: StrMap<u128>,
}

impl ConnectivityMonitor {
    pub closed spec fn wf(self) -> bool {
        &&& self.statuses.wf()
        &&& self.proxy_failed_since.wf()
        &&& self.last_error.wf()
        &&& self.last_restart.wf()
    }

    pub closed spec fn spec_statuses(self) -> Map<Seq<char>, ConnectivityCheckStatus> {
        self.statuses@
    }

    pub closed spec fn spec_failed_since(self) -> Map<Seq<char>, u128> {
        self.proxy_failed_since@
    }

    pub closed spec fn spec_last_error(self) -> Map<Seq<char>, String> {
        self.last_error@
    }

    pub closed spec fn spec_last_restart(self) -> Map<Seq<char>, u128> {
        self.last_restart@
    }

    /// A monitor that remembers nothing.
    pub fn new() -> (r: Self)
        ensures
            r.wf(),
            r.spec_statuses() == Map::<Seq<char>, ConnectivityCheckStatus>::empty(),
            r.spec_failed_since() == Map::<Seq<char>, u128>::empty(),
            r.spec_last_error() == Map::<Seq<char>, String>::empty(),
            r.spec_last_restart() == Map::<Seq<char>, u128>::empty(),
    {
        ConnectivityMonitor {
            statuses: StrMap::new(),
            proxy_failed_since: StrMap::new(),
            last_error: StrMap::new(),
            last_restart: StrMap::new(),
        }
    }

    /// The status of each server of the configuration, in order: the last one checked, or
    /// an unchecked status.
    pub fn statuses(&self, config: &Config) -> (r: Vec<ConnectivityCheckStatus>)
        requires
            self.wf(),
        ensures
            r@.len() == config.servers@.len(),
            forall|i: int|
                0 <= i < r@.len() ==> if self.spec_statuses().dom().contains(
                    #[trigger] config.servers@[i].id@,
                ) {
                    r@[i] == self.spec_statuses()[config.servers@[i].id@]
                } else {
                    unchecked_status(r@[i], config.servers@[i], config.openlist_addr is Some)
                },
    {
        let mut out: Vec<ConnectivityCheckStatus> = Vec::new();
        let mut i: usize = 0;
        while i < config.servers.len()
            invariant
                self.wf(),
                i <= config.servers@.len(),
                out@.len() == i,
                forall|k: int|
                    0 <= k < i ==> if self.spec_statuses().dom().contains(
                        #[trigger] config.servers@[k].id@,
                    ) {
                        out@[k] == self.spec_statuses()[config.servers@[k].id@]
                    } else {
                        unchecked_status(out@[k], config.servers@[k], config.openlist_addr is Some)
                    },
            decreases config.servers@.len() - i,
        {
            let server = &config.servers[i];
            let s = match self.statuses.get(server.id.as_str()) {
                Some(st) => st.duplicate(),
                None => ConnectivityCheckStatus {
                    server_id: server.id.clone(),
                    server_name: server.name.clone(),
                    port: server.port,
                    enabled: server.enabled,
                    ok: false,
                    emby_ok: false,
                    openlist_ok: if config.openlist_addr.is_some() {
                        Some(false)
                    } else {
                        None
                    },
                    proxy_ok: false,
                    checked_at_ms: 0,
                    duration_ms: 0,
                    failed_since_ms: None,
                    auto_restarted_at_ms: None,
                    last_error: Some(String::from_str("尚未巡检")),
                },
            };
            out.push(s);
            i = i + 1;
        }
        out
    }

    /// Replaces the remembered statuses with those of a round of checks.
    pub fn replace_statuses(&mut self, statuses: Vec<ConnectivityCheckStatus>)
        requires
            old(self).wf(),
        ensures
            final(self).wf(),
            forall|k: Seq<char>|
                #[trigger] final(self).spec_statuses().dom().contains(k) <==> exists|i: int|
                    0 <= i < statuses@.len() && statuses@[i].server_id@ == k,
            final(self).spec_failed_since() == old(self).spec_failed_since(),
            final(self).spec_last_error() == old(self).spec_last_error(),
            final(self).spec_last_restart() == old(self).spec_last_restart(),
    {
        let mut fresh: StrMap<ConnectivityCheckStatus> = StrMap::new();
        let ghost all = statuses@;
        let mut rest = statuses;
        let n = rest.len();
        let mut i: usize = 0;
        while rest.len() > 0
            invariant
                fresh.wf(),
                n == all.len(),
                i + rest@.len() == n,
                rest@ == all.skip(i as int),
                forall|k: Seq<char>|
                    #[trigger] fresh@.dom().contains(k) <==> exists|j: int|
                        0 <= j < i && all[j].server_id@ == k,
            decreases rest@.len(),
        {
            let s = rest.remove(0);
            assert(rest@ =~= all.skip(i + 1));
            assert(s == all[i as int]);
            let key = s.server_id.clone();
            fresh.insert(key, s);
            proof {
                assert forall|k: Seq<char>| #[trigger] fresh@.dom().contains(k) <==> exists|j: int|
                    0 <= j < i + 1 && all[j].server_id@ == k by {
                    if exists|j: int| 0 <= j < i + 1 && all[j].server_id@ == k {
                        let j = choose|j: int| 0 <= j < i + 1 && all[j].server_id@ == k;
                        if j < i {
                        }
                    }
                }
            }
            i = i + 1;
        }
        self.statuses = fresh;
    }

    /// Remembers a restart of a server's proxy: its status shows it, the time is kept, and
    /// the failure streak ends.
    pub fn update_restart_time(&mut self, server_id: &str, restarted_at_ms: u128)
        requires
            old(self).wf(),
        ensures
            final(self).wf(),
            final(self).spec_last_restart() == old(self).spec_last_restart().insert(server_id@, restarted_at_ms),
            final(self).spec_failed_since() == old(self).spec_failed_since().remove(server_id@),
            final(self).spec_last_error() == old(self).spec_last_error(),
            final(self).spec_statuses().dom() == old(self).spec_statuses().dom(),
            old(self).spec_statuses().dom().contains(server_id@) ==> final(self).spec_statuses()[server_id@]
                == (ConnectivityCheckStatus {
                auto_restarted_at_ms: Some(restarted_at_ms),
                ..old(self).spec_statuses()[server_id@]
            }),
            forall|k: Seq<char>|
                k != server_id@ && #[trigger] old(self).spec_statuses().dom().contains(k) ==> final(self).spec_statuses()[k] == old(self).spec_statuses()[k],
    {
        let ghost before = self.statuses@;
        match self.statuses.take(server_id) {
            Some(st) => {
                let mut st = st;
                st.auto_restarted_at_ms = Some(restarted_at_ms);
                self.statuses.insert(String::from_str(server_id), st);
                assert(self.statuses@.dom() =~= before.dom());
            },
            None => {},
        }
        self.last_restart.insert(String::from_str(server_id), restarted_at_ms);
        self.proxy_failed_since.remove(server_id);
    }

    /// Since when a server's proxy port has failed: `None` once it answers; the time of the
    /// first failure of the streak while it does not.
    pub fn update_proxy_failure_since(&mut self, server_id: &str, proxy_ok: bool, now: u128) -> (r: Option<u128>)
        requires
            old(self).wf(),
        ensures
            final(self).wf(),
            proxy_ok ==> r is None && final(self).spec_failed_since() == old(self).spec_failed_since().remove(server_id@),
            !proxy_ok ==> r == Some(
                if old(self).spec_failed_since().dom().contains(server_id@) {
                    old(self).spec_failed_since()[server_id@]
                } else {
                    now
                },
            ) && final(self).spec_failed_since() == old(self).spec_failed_since().insert(server_id@, r->0),
            final(self).spec_statuses() == old(self).spec_statuses(),
            final(self).spec_last_error() == old(self).spec_last_error(),
            final(self).spec_last_restart() == old(self).spec_last_restart(),
    {
        if proxy_ok {
            self.proxy_failed_since.remove(server_id);
            return None;
        }
        let since = match self.proxy_failed_since.get(server_id) {
            Some(t) => *t,
            None => now,
        };
        let ghost before = self.proxy_failed_since@;
        self.proxy_failed_since.insert(String::from_str(server_id), since);
        proof {
            if before.dom().contains(server_id@) {
                assert(before.insert(server_id@, since) =~= before);
            }
        }
        Some(since)
    }

    /// What a check of a server changes in what was reported: a working server after a
    /// reported error has recovered (and the error is forgotten); a failing one with an error
    /// other than the last reported is a new problem (and is remembered); anything else is
    /// no news.
    pub fn status_change(&mut self, status: &ConnectivityCheckStatus) -> (r: StatusChange)
        requires
            old(self).wf(),
        ensures
            final(self).wf(),
            ({
                let prev = if old(self).spec_last_error().dom().contains(status.server_id@) {
                    old(self).spec_last_error()[status.server_id@]@
                } else {
                    Seq::empty()
                };
                let key = crate::monitoring::opt_text(status.last_error);
                if status.ok {
                    if prev.len() > 0 {
                        r == StatusChange::Recovered && final(self).spec_last_error() == old(self).spec_last_error().remove(status.server_id@)
                    } else {
                        r == StatusChange::Unchanged && final(self).spec_last_error() == old(self).spec_last_error()
                    }
                } else if prev == key {
                    r == StatusChange::Unchanged && final(self).spec_last_error() == old(self).spec_last_error()
                } else {
                    (r matches StatusChange::Failed(e) && e@ == key) && final(self).spec_last_error().dom()
                        == old(self).spec_last_error().dom().insert(status.server_id@) && final(self).spec_last_error()[status.server_id@]@ == key
                }
            }),
            final(self).spec_statuses() == old(self).spec_statuses(),
            final(self).spec_failed_since() == old(self).spec_failed_since(),
            final(self).spec_last_restart() == old(self).spec_last_restart(),
    {
        let key: String = match &status.last_error {
            Some(e) => e.clone(),
            None => String::new(),
        };
        proof {
            reveal_strlit("");
            assert(""@ =~= Seq::<char>::empty());
        }
        let prev: String = match self.last_error.get(status.server_id.as_str()) {
            Some(p) => p.clone(),
            None => String::new(),
        };
        if status.ok {
            if !prev.as_str().is_empty() {
                self.last_error.remove(status.server_id.as_str());
                return StatusChange::Recovered;
            }
            return StatusChange::Unchanged;
        }
        if crate::strmap::str_eq(prev.as_str(), key.as_str()) {
            return StatusChange::Unchanged;
        }
        self.last_error.insert(status.server_id.clone(), key.clone());
        StatusChange::Failed(key)
    }

    /// A failing proxy is restarted when automatic restarts are on, it has failed for at
    /// least the configured seconds, and as long has passed since its last restart (the
    /// differences saturating at zero).
    pub fn auto_restart_due(&self, status: &ConnectivityCheckStatus, auto_restart_seconds: u64, now: u128) -> (r: bool)
        requires
            self.wf(),
        ensures
            r == (auto_restart_seconds != 0 && !status.proxy_ok && status.failed_since_ms is Some && now
                - status.failed_since_ms->0 >= auto_restart_seconds * 1000 && now - (
            if self.spec_last_restart().dom().contains(status.server_id@) {
                self.spec_last_restart()[status.server_id@] as int
            } else {
                0
            }) >= auto_restart_seconds * 1000),
    {
        if auto_restart_seconds == 0 || status.proxy_ok {
            return false;
        }
        let failed = match status.failed_since_ms {
            Some(t) => t,
            None => {
                return false;
            },
        };
        let threshold: u128 = (auto_restart_seconds as u128) * 1000;
        let since_failure: u128 = if now >= failed {
            now - failed
        } else {
            0
        };
        if since_failure < threshold {
            return false;
        }
        let last: u128 = match self.last_restart.get(status.server_id.as_str()) {
            Some(t) => *t,
            None => 0,
        };
        let since_restart: u128 = if now >= last {
            now - last
        } else {
            0
        };
        since_restart >= threshold
    }
}


/// The title of the notification of a new connectivity problem: `<server> 连通性异常`.
pub fn issue_title(status: &ConnectivityCheckStatus) -> (r: String)
    ensures
        r@ == status.server_name@ + " 连通性异常"@,
{
    let mut r = status.server_name.clone();
    r.append(" 连通性异常");
    r
}

/// The text of the notification of a new connectivity problem: the server, its port, the
/// check time in milliseconds and the error, one per line.
pub fn issue_text(status: &ConnectivityCheckStatus) -> (r: String)
    ensures
        r@ == "服务器："@ + status.server_name@ + "\n端口："@ + decimal(status.port as nat) + "\n检查时间："@
            + decimal(status.checked_at_ms as nat) + "\n异常："@ + crate::monitoring::opt_text(
            status.last_error,
        ),
{
    let mut r = String::from_str("服务器：");
    r.append(status.server_name.as_str());
    r.append("\n端口：");
    let port = decimal_string(status.port as u64);
    r.append(port.as_str());
    r.append("\n检查时间：");
    let at = decimal_string_wide(status.checked_at_ms);
    r.append(at.as_str());
    r.append("\n异常：");
    match &status.last_error {
        Some(e) => r.append(e.as_str()),
        None => {},
    }
    proof {
        reveal_strlit("");
        assert(""@ =~= Seq::<char>::empty());
    }
    r
}

/// The detail of an automatic restart's activity record: `连续无响应 <seconds> 秒`.
pub fn restart_detail(auto_restart_seconds: u64) -> (r: String)
    ensures
        r@ == "连续无响应 "@ + decimal(auto_restart_seconds as nat) + " 秒"@,
{
    let mut r = String::from_str("连续无响应 ");
    let n = decimal_string(auto_restart_seconds);
    r.append(n.as_str());
    r.append(" 秒");
    r
}

/// The detail of an automatic restart's log line: `<server> :<port>`.
pub fn restart_log_detail(status: &ConnectivityCheckStatus) -> (r: String)
    ensures
        r@ == status.server_name@ + " :"@ + decimal(status.port as nat),
{
    let mut r = status.server_name.clone();
    r.append(" :");
    let port = decimal_string(status.port as u64);
    r.append(port.as_str());
    r
}

} // verus!
