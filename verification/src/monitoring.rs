//! The monitoring pages: their queries, which configurations their views cover, the CSV
//! export of the activity log, and the checks on what they are asked for.

use vstd::prelude::*;
use vstd::string::StringExecFns;
use crate::activity_log::{ActivityKind, ActivityLogEntry};
use crate::client_control::{lemma_lex_asymmetric, lemma_lex_irreflexive, lemma_lex_less_then_le, lex_le, lex_less};
use crate::db::RequestStatsDaily;
use crate::error::AppError;
use crate::urls::{url_append_pair, url_with_pair_of};
use crate::config::{Config, EmbyServerConfig, is_for_server, picked_server, same_config, usable_servers};
use crate::text::{chars_of, decimal, decimal_string, decimal_string_wide, replace_all, replace_chars, string_of};
use crate::users_api::{byte_len, fits_bytes, is_id_char};

verus! {

/// How many servers are asked at once.
pub const SERVER_QUERY_CONCURRENCY_LIMIT: usize = 4;

/// The load of the machine the panel runs on.
#[derive(Debug, Clone)]
pub struct ServerHealth {
    pub uptime_seconds: u64,
    pub cpu_percent: u8,
    pub cpu_name: String,
    pub cpu_cores: usize,
    pub memory_used_bytes: u64,
    pub memory_total_bytes: u64,
    pub memory_percent: u8,
    pub disk_used_bytes: u64,
    pub disk_total_bytes: u64,
    pub disk_percent: u8,
}

/// Filters of the activity log page.
#[derive(Debug)]
pub struct ActivityLogQuery {
    pub server_id: Option<String>,
    pub kind: Option<String>,
    pub level: Option<String>,
    pub keyword: Option<String>,
    pub since_ms: Option<u128>,
    pub until_ms: Option<u128>,
    pub limit: Option<usize>,
}

/// Filters of the audit log page.
#[derive(Debug)]
pub struct AuditLogQuery {
    pub action: Option<String>,
    pub keyword: Option<String>,
    pub limit: Option<usize>,
}

/// Filters of the request log page.
#[derive(Debug)]
pub struct RequestDetailQuery {
    pub server_id: Option<String>,
    pub path_type: Option<String>,
    pub keyword: Option<String>,
    pub since_ms: Option<u128>,
    pub until_ms: Option<u128>,
    pub limit: Option<usize>,
}

/// Filters of the block log page.
#[derive(Debug)]
pub struct BlockLogQuery {
    pub server_id: Option<String>,
    pub path_type: Option<String>,
    pub level: Option<String>,
    pub keyword: Option<String>,
    pub since_ms: Option<u128>,
    pub until_ms: Option<u128>,
    pub limit: Option<usize>,
}

/// The poster of a playing item.
#[derive(Debug)]
pub struct PlaybackImageQuery {
    pub server_id: String,
    pub item_id: String,
}

/// An item id the poster page accepts: 1 to 128 bytes, each an ASCII letter or digit, `_`
/// or `-`.
pub open spec fn item_id_valid(item_id: Seq<char>) -> bool {
    item_id.len() >= 1 && byte_len(item_id) <= 128 && forall|i: int|
        0 <= i < item_id.len() ==> is_id_char(#[trigger] item_id[i])
}

pub fn is_valid_item_id(item_id: &str) -> (r: bool)
    ensures
        r == item_id_valid(item_id@),
{
    let v = chars_of(item_id);
    if v.len() == 0 || !fits_bytes(item_id, 128) {
        return false;
    }
    let mut i: usize = 0;
    while i < v.len()
        invariant
            i <= v@.len(),
            v@ == item_id@,
            forall|j: int| 0 <= j < i ==> is_id_char(#[trigger] v@[j]),
        decreases v@.len() - i,
    {
        let c = v[i];
        if !(('a' <= c && c <= 'z') || ('A' <= c && c <= 'Z') || ('0' <= c && c <= '9') || c == '-'
            || c == '_') {
            assert(!is_id_char(v@[i as int]));
            return false;
        }
        i = i + 1;
    }
    true
}

/// A field of the CSV export: in double quotes, its double quotes doubled.
pub open spec fn csv_field(value: Seq<char>) -> Seq<char> {
    "\""@ + replace_all(value, "\""@, "\"\""@) + "\""@
}

pub fn csv_escape(value: &str) -> (r: String)
    ensures
        r@ == csv_field(value@),
{
    proof {
        reveal_strlit("\"");
    }
    let v = chars_of(value);
    let q = chars_of("\"");
    let qq = chars_of("\"\"");
    let body = replace_chars(&v, &q, &qq);
    let mut out = String::from_str("\"");
    let b = string_of(&body);
    out.append(b.as_str());
    out.append("\"");
    out
}

/// The first line of the CSV export.
pub open spec fn csv_header() -> Seq<char> {
    "id,time,kind,level,server,user,ip,message,detail\n"@
}

pub open spec fn opt_text(o: Option<String>) -> Seq<char> {
    match o {
        Some(s) => s@,
        None => ""@,
    }
}

/// The CSV line of an activity entry.
pub open spec fn csv_line(e: ActivityLogEntry) -> Seq<char> {
    decimal(e.id as nat) + ","@ + decimal(e.timestamp_ms as nat) + ","@ + csv_field(e.kind@) + ","@
        + csv_field(e.level@) + ","@ + csv_field(e.server_name@) + ","@ + csv_field(
        opt_text(e.playback_user),
    ) + ","@ + csv_field(opt_text(e.playback_ip)) + ","@ + csv_field(e.message@) + ","@ + csv_field(
        e.detail@,
    ) + "\n"@
}

/// The CSV lines of the entries, in order.
pub open spec fn csv_lines(s: Seq<ActivityLogEntry>) -> Seq<char>
    decreases s.len(),
{
    if s.len() == 0 {
        Seq::empty()
    } else {
        csv_lines(s.drop_last()) + csv_line(s.last())
    }
}

fn opt_str(o: &Option<String>) -> (r: &str)
    ensures
        r@ == opt_text(*o),
{
    match o {
        Some(s) => s.as_str(),
        None => "",
    }
}

fn csv_line_of(e: &ActivityLogEntry) -> (r: String)
    ensures
        r@ == csv_line(*e),
{
    let mut out = decimal_string(e.id);
    out.append(",");
    let ts = decimal_string_wide(e.timestamp_ms);
    out.append(ts.as_str());
    out.append(",");
    let f = csv_escape(e.kind.as_str());
    out.append(f.as_str());
    out.append(",");
    let f = csv_escape(e.level.as_str());
    out.append(f.as_str());
    out.append(",");
    let f = csv_escape(e.server_name.as_str());
    out.append(f.as_str());
    out.append(",");
    let f = csv_escape(opt_str(&e.playback_user));
    out.append(f.as_str());
    out.append(",");
    let f = csv_escape(opt_str(&e.playback_ip));
    out.append(f.as_str());
    out.append(",");
    let f = csv_escape(e.message.as_str());
    out.append(f.as_str());
    out.append(",");
    let f = csv_escape(e.detail.as_str());
    out.append(f.as_str());
    out.append("\n");
    out
}

/// The CSV export of activity entries: a header, then one line per entry.
pub fn activity_csv(entries: &Vec<ActivityLogEntry>) -> (r: String)
    ensures
        r@ == csv_header() + csv_lines(entries@),
{
    let mut out = String::from_str("id,time,kind,level,server,user,ip,message,detail\n");
    let mut i: usize = 0;
    assert(entries@.take(0) =~= Seq::<ActivityLogEntry>::empty());
    while i < entries.len()
        invariant
            i <= entries@.len(),
            out@ == csv_header() + csv_lines(entries@.take(i as int)),
        decreases entries@.len() - i,
    {
        let line = csv_line_of(&entries[i]);
        out.append(line.as_str());
        assert(entries@.take(i + 1).drop_last() =~= entries@.take(i as int));
        assert(entries@.take(i + 1).last() == entries@[i as int]);
        i = i + 1;
    }
    assert(entries@.take(entries@.len() as int) =~= entries@);
    out
}

/// The kind of a log query: `playback` or `general`, anything else meaning both.
pub fn activity_kind_filter(kind: Option<&str>) -> (r: Option<ActivityKind>)
    ensures
        r == match kind {
            Some(k) => if k@ == "playback"@ {
                Some(ActivityKind::Playback)
            } else if k@ == "general"@ {
                Some(ActivityKind::General)
            } else {
                None
            },
            None => None,
        },
{
    match kind {
        Some(k) => if crate::strmap::str_eq(k, "playback") {
            Some(ActivityKind::Playback)
        } else if crate::strmap::str_eq(k, "general") {
            Some(ActivityKind::General)
        } else {
            None
        },
        None => None,
    }
}

/// A filter value of a query; `all` means no filter.
pub fn unless_all(value: Option<&str>) -> (r: Option<&str>)
    ensures
        r == match value {
            Some(v) => if v@ == "all"@ {
                None
            } else {
                Some(v)
            },
            None => None,
        },
{
    match value {
        Some(v) => if crate::strmap::str_eq(v, "all") {
            None
        } else {
            Some(v)
        },
        None => None,
    }
}

/// The configurations whose playbacks are shown: one per usable server, else the
/// configuration itself.
pub fn playback_configs(config: &Config) -> (r: Vec<Config>)
    ensures
        usable_servers(config.servers@).len() == 0 ==> r@.len() == 1 && same_config(r@[0], *config),
        usable_servers(config.servers@).len() > 0 ==> r@.len() == usable_servers(config.servers@).len()
            && forall|i: int|
            0 <= i < r@.len() ==> is_for_server(#[trigger] r@[i], *config, usable_servers(config.servers@)[i]),
{
    let configs = config.proxy_configs();
    if configs.len() == 0 {
        let mut one: Vec<Config> = Vec::new();
        one.push(config.duplicate());
        one
    } else {
        configs
    }
}

/// The configuration of a server by id: without servers only `default` names the
/// configuration itself; otherwise the server with the id, as
/// [`Config::proxy_config_for_server`] makes it.
pub fn playback_config_by_server_id(config: &Config, server_id: &str) -> (r: Option<Config>)
    ensures
        config.servers@.len() == 0 ==> (r is Some <==> server_id@ == "default"@),
        config.servers@.len() == 0 ==> (r matches Some(c) ==> same_config(c, *config)),
        config.servers@.len() > 0 ==> (r is Some <==> exists|i: int|
            0 <= i < config.servers@.len() && (#[trigger] config.servers@[i]).id@ == server_id@),
        config.servers@.len() > 0 ==> (r matches Some(c) ==> match picked_server(
            config.servers@,
            Some(server_id@),
        ) {
            Some(i) => is_for_server(c, *config, config.servers@[i]),
            None => false,
        }),
{
    if config.servers.len() == 0 {
        if crate::strmap::str_eq(server_id, "default") {
            return Some(config.duplicate());
        }
        return None;
    }
    match crate::settings_api::find_server(&config.servers, server_id) {
        Some(i) => {
            let id = config.servers[i].id.as_str();
            let r = config.proxy_config_for_server(Some(id));
            proof {
                assert(crate::config::first_id_at(config.servers@, server_id@, i as int));
            }
            Some(r)
        },
        None => None,
    }
}

/// The id and name the monitoring pages show for a configuration (see
/// [`crate::gateway::config_server_label`]).
pub fn server_label(config: &Config) -> (r: (String, String))
    ensures
        config.servers@.len() > 0 ==> r.0@ == config.servers@[0].id@ && r.1@
            == config.servers@[0].name@,
        config.servers@.len() == 0 ==> r.0@ == "default"@ && r.1@ == "默认服务器"@,
{
    crate::gateway::config_server_label(config)
}


/// How a listed session's playback mode is settled.
#[derive(Debug)]
pub enum ModeSource {
    /// Keep the mode Emby's report gave.
    Keep,
    /// Use the mode the proxy recorded when it served the stream.
    Recorded(String),
    /// Work it out from the item's media path.
    Infer,
}

/// A transcoding session keeps its mode; otherwise a mode the proxy recorded for the stream
/// wins; otherwise a direct play or direct stream that the proxy did not see is worked out
/// from the media path; any other mode is kept.
pub fn session_mode_source(transcoding: bool, recorded: Option<&str>, mode: &str) -> (r: ModeSource)
    ensures
        transcoding ==> r is Keep,
        !transcoding && recorded is Some ==> (r matches ModeSource::Recorded(t) && t@ == recorded->0@),
        !transcoding && recorded is None ==> (r is Infer <==> (mode@ == "emby_direct_play"@ || mode@
            == "emby_direct_stream"@)),
        !transcoding && recorded is None ==> (r is Keep || r is Infer),
{
    if transcoding {
        return ModeSource::Keep;
    }
    match recorded {
        Some(t) => ModeSource::Recorded(String::from_str(t)),
        None => {
            if crate::strmap::str_eq(mode, "emby_direct_play") || crate::strmap::str_eq(
                mode,
                "emby_direct_stream",
            ) {
                ModeSource::Infer
            } else {
                ModeSource::Keep
            }
        },
    }
}


/// The text and numbers of a day's counter row.
pub type StatsRowView = (Seq<char>, Seq<char>, Seq<char>, u16, i64, i64, i64, i64, i64, u128);

/// The view of a counter row: date, server id, server name, port, counters, update time.
pub open spec fn stats_row_view(r: RequestStatsDaily) -> StatsRowView {
    (
        r.date@,
        r.server_id@,
        r.server_name@,
        r.port,
        r.requests,
        r.redirects,
        r.cache_hits,
        r.blocks,
        r.errors,
        r.updated_at_ms,
    )
}

/// The views of counter rows.
pub open spec fn stats_views(rows: Seq<RequestStatsDaily>) -> Seq<StatsRowView> {
    rows.map_values(|r: RequestStatsDaily| stats_row_view(r))
}

/// The empty row of today for a server without counters yet.
pub open spec fn zero_row(server: EmbyServerConfig, today: Seq<char>) -> StatsRowView {
    (today, server.id@, server.name@, server.port, 0, 0, 0, 0, 0, 0)
}

/// The empty rows of today for the configured servers whose id no stored row has, in order.
pub open spec fn missing_rows(servers: Seq<EmbyServerConfig>, stored_ids: Seq<Seq<char>>, today: Seq<char>) -> Seq<
    StatsRowView,
>
    decreases servers.len(),
{
    if servers.len() == 0 {
        Seq::empty()
    } else {
        let p = missing_rows(servers.drop_last(), stored_ids, today);
        if stored_ids.contains(servers.last().id@) {
            p
        } else {
            p.push(zero_row(servers.last(), today))
        }
    }
}

/// The ids of stored rows.
pub open spec fn row_ids(rows: Seq<RequestStatsDaily>) -> Seq<Seq<char>> {
    rows.map_values(|r: RequestStatsDaily| r.server_id@)
}

/// `r` holds the rows `rows`, each once, in the order of their server names (`String`
/// order), rows of equal names in their order in `rows`.
pub open spec fn sorted_by_name(r: Seq<StatsRowView>, rows: Seq<StatsRowView>) -> bool {
    &&& r.len() == rows.len()
    &&& forall|k: int| 0 <= k < r.len() ==> rows.contains(#[trigger] r[k])
    &&& forall|j: int| 0 <= j < rows.len() ==> r.contains(#[trigger] rows[j])
    &&& forall|a: int, b: int| 0 <= a < b < r.len() ==> lex_le((#[trigger] r[a]).2, (#[trigger] r[b]).2)
    &&& exists|idx: Seq<int>|
        {
            &&& idx.len() == r.len()
            &&& forall|k: int| 0 <= k < r.len() ==> 0 <= #[trigger] idx[k] < rows.len() && rows[idx[k]] == r[k]
            &&& forall|a: int, b: int| 0 <= a < b < r.len() ==> #[trigger] idx[a] != #[trigger] idx[b]
            &&& forall|a: int, b: int|
                0 <= a < b < r.len() && r[a].2 == r[b].2 ==> #[trigger] idx[a] < #[trigger] idx[b]
        }
}

/// What sorting rows by name keeps, after `i` rows were placed.
pub open spec fn rows_placed(out: Seq<StatsRowView>, idx: Seq<int>, rows: Seq<StatsRowView>, i: int) -> bool {
    &&& out.len() == i
    &&& idx.len() == i
    &&& forall|k: int| 0 <= k < i ==> 0 <= #[trigger] idx[k] < i && idx[k] < rows.len() && rows[idx[k]] == out[k]
    &&& forall|a: int, b: int| 0 <= a < b < i ==> #[trigger] idx[a] != #[trigger] idx[b]
    &&& forall|j: int| 0 <= j < i ==> #[trigger] idx.contains(j)
    &&& forall|a: int, b: int| 0 <= a < b < i ==> lex_le((#[trigger] out[a]).2, (#[trigger] out[b]).2)
    &&& forall|a: int, b: int| 0 <= a < b < i && out[a].2 == out[b].2 ==> #[trigger] idx[a] < #[trigger] idx[b]
}

proof fn lemma_place_row(out: Seq<StatsRowView>, idx: Seq<int>, rows: Seq<StatsRowView>, i: int, p: int)
    requires
        rows_placed(out, idx, rows, i),
        0 <= i < rows.len(),
        0 <= p <= i,
        forall|k: int| 0 <= k < p ==> lex_le((#[trigger] out[k]).2, rows[i].2),
        p < i ==> lex_less(rows[i].2, out[p].2),
    ensures
        rows_placed(out.insert(p, rows[i]), idx.insert(p, i), rows, i + 1),
{
    let key = rows[i].2;
    let nout = out.insert(p, rows[i]);
    let nidx = idx.insert(p, i);
    assert forall|k: int| 0 <= k < i + 1 implies 0 <= #[trigger] nidx[k] < i + 1 && nidx[k] < rows.len()
        && rows[nidx[k]] == nout[k] by {
        if k < p {
            assert(0 <= idx[k] < i);
        } else if k > p {
            assert(0 <= idx[k - 1] < i);
        }
    }
    assert forall|a: int, b: int| 0 <= a < b < i + 1 implies #[trigger] nidx[a] != #[trigger] nidx[b] by {
        let oa = if a < p { a } else { a - 1 };
        let ob = if b < p { b } else { b - 1 };
        if a != p && b != p {
            assert(nidx[a] == idx[oa] && nidx[b] == idx[ob]);
        } else if a == p {
            assert(0 <= idx[ob] < i);
        } else {
            assert(0 <= idx[oa] < i);
        }
    }
    assert forall|j: int| 0 <= j < i + 1 implies #[trigger] nidx.contains(j) by {
        if j == i {
            assert(nidx[p] == j);
        } else {
            assert(idx.contains(j));
            let k = choose|k: int| 0 <= k < idx.len() && idx[k] == j;
            if k < p {
                assert(nidx[k] == j);
            } else {
                assert(nidx[k + 1] == j);
            }
        }
    }
    assert forall|a: int, b: int| 0 <= a < b < i + 1 implies lex_le((#[trigger] nout[a]).2, (#[trigger] nout[b]).2)
        && (nout[a].2 == nout[b].2 ==> nidx[a] < nidx[b]) by {
        let oa = if a < p { a } else { a - 1 };
        let ob = if b < p { b } else { b - 1 };
        if a != p && b != p {
            assert(nout[a] == out[oa] && nout[b] == out[ob]);
            assert(nidx[a] == idx[oa] && nidx[b] == idx[ob]);
        } else if b == p {
            assert(nout[a] == out[a]);
            assert(0 <= idx[a] < i);
            assert(lex_le(out[a].2, key));
        } else {
            assert(nout[b] == out[ob]);
            assert(0 <= idx[p] < i);
            assert(0 <= idx[ob] < i);
            if ob > p {
                assert(lex_le(out[p].2, out[ob].2));
            } else {
                lemma_lex_irreflexive(out[p].2);
            }
            lemma_lex_less_then_le(key, out[p].2, out[ob].2);
            lemma_lex_asymmetric(key, out[ob].2);
            lemma_lex_irreflexive(key);
        }
    }
}

fn copy_row(r: &RequestStatsDaily) -> (c: RequestStatsDaily)
    ensures
        stats_row_view(c) == stats_row_view(*r),
{
    RequestStatsDaily {
        date: r.date.clone(),
        server_id: r.server_id.clone(),
        server_name: r.server_name.clone(),
        port: r.port,
        requests: r.requests,
        redirects: r.redirects,
        cache_hits: r.cache_hits,
        blocks: r.blocks,
        errors: r.errors,
        updated_at_ms: r.updated_at_ms,
    }
}

/// Today's counters for the page: the stored rows and an empty row for every configured
/// server that has none, sorted by server name (`String` order), rows of equal names in that
/// order.
pub fn complete_request_stats(rows: &Vec<RequestStatsDaily>, servers: &Vec<EmbyServerConfig>, today: &str) -> (r: Vec<
    RequestStatsDaily,
>)
    ensures
        sorted_by_name(stats_views(r@), stats_views(rows@) + missing_rows(servers@, row_ids(rows@), today@)),
{
    let mut all: Vec<RequestStatsDaily> = Vec::new();
    let mut i: usize = 0;
    while i < rows.len()
        invariant
            i <= rows@.len(),
            stats_views(all@) == stats_views(rows@).take(i as int),
        decreases rows@.len() - i,
    {
        let ghost before = stats_views(all@);
        all.push(copy_row(&rows[i]));
        proof {
            assert(stats_views(all@) =~= before.push(stats_row_view(rows@[i as int])));
            assert(stats_views(rows@).take(i + 1) =~= stats_views(rows@).take(i as int).push(
                stats_views(rows@)[i as int],
            ));
        }
        i = i + 1;
    }
    proof {
        assert(stats_views(rows@).take(rows@.len() as int) =~= stats_views(rows@));
    }
    let ghost ids = row_ids(rows@);
    let mut s: usize = 0;
    while s < servers.len()
        invariant
            s <= servers@.len(),
            ids == row_ids(rows@),
            stats_views(all@) == stats_views(rows@) + missing_rows(servers@.take(s as int), ids, today@),
        decreases servers@.len() - s,
    {
        proof {
            assert(servers@.take(s + 1).drop_last() =~= servers@.take(s as int));
            assert(servers@.take(s + 1).last() == servers@[s as int]);
        }
        let server = &servers[s];
        let mut known = false;
        let mut j: usize = 0;
        while j < rows.len()
            invariant
                j <= rows@.len(),
                known == (exists|k: int| 0 <= k < j && #[trigger] rows@[k].server_id@ == server.id@),
            decreases rows@.len() - j,
        {
            let same = crate::strmap::str_eq(rows[j].server_id.as_str(), server.id.as_str());
            known = known || same;
            j = j + 1;
        }
        proof {
            if ids.contains(server.id@) {
                let k = choose|k: int| 0 <= k < ids.len() && ids[k] == server.id@;
                assert(rows@[k].server_id@ == server.id@);
            }
            if known {
                let k = choose|k: int| 0 <= k < rows@.len() && #[trigger] rows@[k].server_id@ == server.id@;
                assert(ids[k] == server.id@);
            }
        }
        if !known {
            let ghost before = stats_views(all@);
            all.push(
                RequestStatsDaily {
                    date: String::from_str(today),
                    server_id: server.id.clone(),
                    server_name: server.name.clone(),
                    port: server.port,
                    requests: 0,
                    redirects: 0,
                    cache_hits: 0,
                    blocks: 0,
                    errors: 0,
                    updated_at_ms: 0,
                },
            );
            proof {
                assert(stats_views(all@) =~= before.push(zero_row(servers@[s as int], today@)));
            }
        }
        s = s + 1;
    }
    proof {
        assert(servers@.take(servers@.len() as int) =~= servers@);
    }
    let ghost whole = stats_views(all@);
    let mut out: Vec<RequestStatsDaily> = Vec::new();
    let ghost mut idx: Seq<int> = Seq::empty();
    let mut t: usize = 0;
    while t < all.len()
        invariant
            t <= all@.len(),
            whole == stats_views(all@),
            rows_placed(stats_views(out@), idx, whole, t as int),
        decreases all@.len() - t,
    {
        let row = copy_row(&all[t]);
        let mut p: usize = 0;
        while p < out.len() && !crate::client_control::str_less(row.server_name.as_str(), out[p].server_name.as_str())
            invariant
                p <= out@.len(),
                forall|k: int| 0 <= k < p ==> lex_le((#[trigger] out@[k]).server_name@, row.server_name@),
            decreases out@.len() - p,
        {
            p = p + 1;
        }
        let ghost before = stats_views(out@);
        proof {
            assert(whole[t as int] == stats_row_view(row));
            assert forall|k: int| 0 <= k < p implies lex_le((#[trigger] before[k]).2, whole[t as int].2) by {
                assert(before[k] == stats_row_view(out@[k]));
            }
            if p < out@.len() {
                assert(before[p as int] == stats_row_view(out@[p as int]));
            }
            lemma_place_row(before, idx, whole, t as int, p as int);
        }
        out.insert(p, row);
        proof {
            idx = idx.insert(p as int, t as int);
            assert(stats_views(out@) =~= before.insert(p as int, whole[t as int]));
        }
        t = t + 1;
    }
    proof {
        let r = stats_views(out@);
        assert forall|k: int| 0 <= k < r.len() implies whole.contains(#[trigger] r[k]) by {
            assert(0 <= idx[k] < whole.len());
        }
        assert forall|j: int| 0 <= j < whole.len() implies r.contains(#[trigger] whole[j]) by {
            assert(idx.contains(j));
            let k = choose|k: int| 0 <= k < idx.len() && idx[k] == j;
            assert(0 <= idx[k] < whole.len());
        }
        assert forall|k: int| 0 <= k < r.len() implies 0 <= #[trigger] idx[k] < whole.len() && whole[idx[k]] == r[k] by {
            assert(0 <= idx[k] < whole.len());
        }
    }
    out
}


/// The address of an item's poster: `/Items/<item>/Images/Primary` on the Emby host, with
/// `maxWidth=640` and then `quality=90` appended to the query. Each step's failure is a URL
/// error.
pub fn playback_image_url(config: &Config, item_id: &str) -> (r: Result<String, AppError>)
    ensures
        match crate::config::joined_url_spec(config.emby_host@, "/Items/"@ + item_id@ + "/Images/Primary"@) {
            Err(e) => (r matches Err(AppError::Url(m)) && m@ == e),
            Ok(u) => match url_with_pair_of(u, "maxWidth"@, "640"@) {
                Err(e) => (r matches Err(AppError::Url(m)) && m@ == e),
                Ok(v) => match url_with_pair_of(v, "quality"@, "90"@) {
                    Err(e) => (r matches Err(AppError::Url(m)) && m@ == e),
                    Ok(w) => (r matches Ok(x) && x@ == w),
                },
            },
        },
{
    let mut path = String::from_str("/Items/");
    path.append(item_id);
    path.append("/Images/Primary");
    let base = match config.emby_url(path.as_str()) {
        Ok(u) => u,
        Err(e) => {
            return Err(AppError::Url(e));
        },
    };
    let sized = match url_append_pair(base.as_str(), "maxWidth", "640") {
        Ok(u) => u,
        Err(e) => {
            return Err(AppError::Url(e));
        },
    };
    match url_append_pair(sized.as_str(), "quality", "90") {
        Ok(u) => Ok(u),
        Err(e) => Err(AppError::Url(e)),
    }
}

/// What Emby's answer for a poster means: 404 is no poster (`Ok(false)`), another status
/// outside 2xx is a bad gateway naming the status as printed, a success is a poster.
pub fn image_answer(status: u16, status_text: &str) -> (r: Result<bool, AppError>)
    ensures
        status == 404 ==> r == Ok::<bool, AppError>(false),
        status != 404 && !(200 <= status < 300) ==> (r matches Err(AppError::BadGateway(m)) && m@
            == "Emby playback image query failed with status "@ + status_text@),
        200 <= status < 300 ==> r == Ok::<bool, AppError>(true),
{
    if status == 404 {
        return Ok(false);
    }
    if !(200 <= status && status < 300) {
        let mut m = String::from_str("Emby playback image query failed with status ");
        m.append(status_text);
        return Err(AppError::BadGateway(m));
    }
    Ok(true)
}

/// A content type that is an image: it starts with `image/` once trimmed and lower-cased
/// (ASCII).
pub fn is_image_content_type(value: &str) -> (r: bool)
    ensures
        r == crate::text::starts_with(crate::text::lower(crate::text::trim(value@)), "image/"@),
{
    let t = crate::text::trimmed(value);
    let l = crate::text::lower_chars(&t);
    crate::text::starts_with_chars(&l, &chars_of("image/"))
}

} // verus!
