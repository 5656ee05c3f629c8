//! The log of blocked requests and block actions: one tab-separated line per event in
//! `block.log` and its numbered backups, newest first when listed.

use vstd::prelude::*;
use vstd::string::StringExecFns;
use crate::db::ProxyRequestDetail;
use crate::gateway::{tz_offset_seconds, tz_offset_spec};
use crate::ip_location::{IpLocation, IpLocationView};
use crate::text::{
    all_digits, chars_of, decimal, decimal_string, decimal_string_wide, digits_value, join,
    join_chars, lemma_decimal_parses, lemma_split_char_nonempty, parse_unsigned,
    parse_unsigned_chars, split_char, split_chars, string_of, trim, trimmed, views,
};

verus! {

/// The size from which the log is rotated, in bytes.
pub const MAX_BYTES: u64 = 10485760;

/// How many numbered backups are kept.
pub const MAX_BACKUPS: u64 = 5;

/// One event of the block log.
#[derive(Debug, Clone)]
pub struct BlockLogEntry {
    pub id: i64,
    pub event_type: String,
    pub timestamp_ms: u128,
    pub server_id: String,
    pub server_name: String,
    pub port: u16,
    pub method: String,
    pub path: String,
    pub path_type: String,
    pub status_code: u16,
    pub outcome: String,
    pub duration_ms: u128,
    pub playback_user: String,
    pub playback_ip: String,
    pub ip_location_text: String,
    pub ip_location: Option<IpLocation>,
    pub cache_hit: bool,
    pub blocked: bool,
    pub detail: String,
}

/// The texts and numbers of a [`BlockLogEntry`].
pub struct BlockEntryView {
    pub id: i64,
    pub event_type: Seq<char>,
    pub timestamp_ms: u128,
    pub server_id: Seq<char>,
    pub server_name: Seq<char>,
    pub port: u16,
    pub method: Seq<char>,
    pub path: Seq<char>,
    pub path_type: Seq<char>,
    pub status_code: u16,
    pub outcome: Seq<char>,
    pub duration_ms: u128,
    pub playback_user: Seq<char>,
    pub playback_ip: Seq<char>,
    pub ip_location_text: Seq<char>,
    pub ip_location: Option<IpLocationView>,
    pub cache_hit: bool,
    pub blocked: bool,
    pub detail: Seq<char>,
}

impl View for BlockLogEntry {
    type V = BlockEntryView;

    open spec fn view(&self) -> BlockEntryView {
        BlockEntryView {
            id: self.id,
            event_type: self.event_type@,
            timestamp_ms: self.timestamp_ms,
            server_id: self.server_id@,
            server_name: self.server_name@,
            port: self.port,
            method: self.method@,
            path: self.path@,
            path_type: self.path_type@,
            status_code: self.status_code,
            outcome: self.outcome@,
            duration_ms: self.duration_ms,
            playback_user: self.playback_user@,
            playback_ip: self.playback_ip@,
            ip_location_text: self.ip_location_text@,
            ip_location: match self.ip_location {
                Some(l) => Some(l@),
                None => None,
            },
            cache_hit: self.cache_hit,
            blocked: self.blocked,
            detail: self.detail@,
        }
    }
}

pub open spec fn entry_views(s: Seq<BlockLogEntry>) -> Seq<BlockEntryView> {
    s.map_values(|e: BlockLogEntry| e@)
}

/// What is written to the log for one event.
#[derive(Debug, Clone)]
pub struct BlockLogInsert<'a> {
    pub event_type: &'a str,
    pub timestamp_ms: u128,
    pub server_id: &'a str,
    pub server_name: &'a str,
    pub port: u16,
    pub method: &'a str,
    pub path: &'a str,
    pub path_type: &'a str,
    pub status_code: u16,
    pub outcome: &'a str,
    pub duration_ms: u128,
    pub playback_user: &'a str,
    pub playback_ip: &'a str,
    pub ip_location_text: &'a str,
    pub cache_hit: bool,
    pub detail: &'a str,
}

/// The texts and numbers of a [`BlockLogInsert`].
pub struct InsertView {
    pub event_type: Seq<char>,
    pub timestamp_ms: u128,
    pub server_id: Seq<char>,
    pub server_name: Seq<char>,
    pub port: u16,
    pub method: Seq<char>,
    pub path: Seq<char>,
    pub path_type: Seq<char>,
    pub status_code: u16,
    pub outcome: Seq<char>,
    pub duration_ms: u128,
    pub playback_user: Seq<char>,
    pub playback_ip: Seq<char>,
    pub ip_location_text: Seq<char>,
    pub cache_hit: bool,
    pub detail: Seq<char>,
}

impl<'a> View for BlockLogInsert<'a> {
    type V = InsertView;

    open spec fn view(&self) -> InsertView {
        InsertView {
            event_type: self.event_type@,
            timestamp_ms: self.timestamp_ms,
            server_id: self.server_id@,
            server_name: self.server_name@,
            port: self.port,
            method: self.method@,
            path: self.path@,
            path_type: self.path_type@,
            status_code: self.status_code,
            outcome: self.outcome@,
            duration_ms: self.duration_ms,
            playback_user: self.playback_user@,
            playback_ip: self.playback_ip@,
            ip_location_text: self.ip_location_text@,
            cache_hit: self.cache_hit,
            detail: self.detail@,
        }
    }
}

/// Filters of the listing.
#[derive(Debug, Clone, Default)]
pub struct BlockLogFilter<'a> {
    pub server_id: Option<&'a str>,
    pub path_type: Option<&'a str>,
    pub keyword: Option<&'a str>,
    pub since_ms: Option<u128>,
    pub until_ms: Option<u128>,
    pub limit: usize,
}

/// The event type of old lines that have none.
pub fn default_event_type() -> (r: String)
    ensures
        r@ == "request"@,
{
    String::from_str("request")
}

pub open spec fn event_type_spec(event_type: Seq<char>) -> Seq<char> {
    if event_type == "block"@ {
        "block"@
    } else if event_type == "unblock"@ {
        "unblock"@
    } else {
        "request"@
    }
}

/// `block` and `unblock` stay; anything else is a `request`.
pub fn normalize_event_type(event_type: &str) -> (r: &'static str)
    ensures
        r@ == event_type_spec(event_type@),
{
    if crate::strmap::str_eq(event_type, "block") {
        "block"
    } else if crate::strmap::str_eq(event_type, "unblock") {
        "unblock"
    } else {
        "request"
    }
}

pub open spec fn path_type_label_spec(path_type: Seq<char>) -> Seq<char> {
    if path_type == "video_stream"@ {
        "视频流"@
    } else if path_type == "playback_info"@ {
        "播放信息"@
    } else if path_type == "system_info"@ {
        "系统信息"@
    } else if path_type == "base_html_player"@ {
        "播放器脚本"@
    } else if path_type == "rate_limit_action"@ {
        "封禁动作"@
    } else {
        "普通代理"@
    }
}

/// The name a path type is shown by.
pub fn path_type_label(path_type: &str) -> (r: &'static str)
    ensures
        r@ == path_type_label_spec(path_type@),
{
    if crate::strmap::str_eq(path_type, "video_stream") {
        "视频流"
    } else if crate::strmap::str_eq(path_type, "playback_info") {
        "播放信息"
    } else if crate::strmap::str_eq(path_type, "system_info") {
        "系统信息"
    } else if crate::strmap::str_eq(path_type, "base_html_player") {
        "播放器脚本"
    } else if crate::strmap::str_eq(path_type, "rate_limit_action") {
        "封禁动作"
    } else {
        "普通代理"
    }
}

/// A character that would break a log line.
pub open spec fn is_line_break(c: char) -> bool {
    c == '\t' || c == '\r' || c == '\n'
}

/// The text with tabs, carriage returns and line feeds made spaces.
pub open spec fn sanitized(s: Seq<char>) -> Seq<char> {
    s.map_values(|c: char| if is_line_break(c) { ' ' } else { c })
}

fn sanitize_chars(v: &Vec<char>) -> (r: Vec<char>)
    ensures
        r@ == sanitized(v@),
{
    let mut out: Vec<char> = Vec::new();
    let mut i: usize = 0;
    while i < v.len()
        invariant
            i <= v@.len(),
            out@ == sanitized(v@.take(i as int)),
        decreases v@.len() - i,
    {
        let c = v[i];
        if c == '\t' || c == '\r' || c == '\n' {
            out.push(' ');
        } else {
            out.push(c);
        }
        i = i + 1;
        assert(out@ =~= sanitized(v@.take(i as int)));
    }
    assert(v@.take(v@.len() as int) =~= v@);
    out
}

/// A field made safe for a log line.
pub fn sanitize_field(value: String) -> (r: String)
    ensures
        r@ == sanitized(value@),
{
    let v = chars_of(value.as_str());
    string_of(&sanitize_chars(&v))
}

/// The local time of a moment, as `chrono` formats `%Y/%-m/%-d %H:%M:%S` for the UTC time
/// shifted by the offset in seconds.
pub uninterp spec fn time_text_of(timestamp_ms: u128, offset_seconds: int) -> Seq<char>;

/// The first moment `chrono` holds, in milliseconds from 1970: the start of -262143-01-01
/// (UTC).
pub const CHRONO_FIRST_MS: i64 = -8334601315200000;

/// The last moment `chrono` holds to the millisecond: the end of 262142-12-31 (UTC).
pub const CHRONO_LAST_MS: i64 = 8210266876799999;

/// A moment, in milliseconds from 1970, that `chrono` holds.
pub open spec fn chrono_holds(ms: int) -> bool {
    CHRONO_FIRST_MS <= ms <= CHRONO_LAST_MS
}

/// A moment's local time can be formatted: the moment read as `i64` milliseconds (the start
/// of 1970 when `chrono` cannot hold that), shifted by the offset, is still a moment `chrono`
/// holds. Past that, the shift overflows and panics.
pub open spec fn local_time_formattable(timestamp_ms: u128, offset_seconds: int) -> bool {
    let i = (timestamp_ms as i64) as int;
    let base = if chrono_holds(i) {
        i
    } else {
        0
    };
    chrono_holds(base + offset_seconds * 1000)
}

/// `chrono::DateTime::<Utc>::from_timestamp_millis` of the moment, plus the offset as a
/// `chrono::Duration`, formatted as `%Y/%-m/%-d %H:%M:%S`. The result is named by
/// `time_text_of` of the moment and the offset. A moment `chrono` cannot hold becomes the
/// start of 1970; the sum panics only when it leaves what `chrono` holds, which `requires`
/// rules out.
#[verifier::external_body]
fn format_local_time(timestamp_ms: u128, offset_seconds: i32) -> (r: String)
    requires
        local_time_formattable(timestamp_ms, offset_seconds as int),
    ensures
        r@ == time_text_of(timestamp_ms, offset_seconds as int),
{
    let time = chrono::DateTime::<chrono::Utc>::from_timestamp_millis(timestamp_ms as i64)
        .unwrap_or_default() + chrono::Duration::seconds(offset_seconds as i64);
    time.format("%Y/%-m/%-d %H:%M:%S").to_string()
}

/// The local time of a moment in the time zone named by a `TZ` value.
pub fn format_time(timestamp_ms: u128, tz: &str) -> (r: String)
    requires
        local_time_formattable(timestamp_ms, tz_offset_spec(tz@)),
    ensures
        r@ == time_text_of(timestamp_ms, tz_offset_spec(tz@)),
{
    let offset = tz_offset_seconds(tz);
    format_local_time(timestamp_ms, offset)
}

/// `--` for a blank text.
pub open spec fn or_dashes(s: Seq<char>) -> Seq<char> {
    if trim(s).len() == 0 {
        "--"@
    } else {
        s
    }
}

/// The address shown for an event: `--` when blank, with its location after ` · ` when
/// there is one.
pub open spec fn ip_text(e: BlockEntryView) -> Seq<char> {
    if trim(e.playback_ip).len() == 0 {
        "--"@
    } else if trim(e.ip_location_text).len() > 0 {
        e.playback_ip + " · "@ + e.ip_location_text
    } else {
        e.playback_ip
    }
}

/// The readable summary of an event at a local time with the address shown as `ip`.
pub open spec fn summary_with_ip(e: BlockEntryView, time: Seq<char>, ip: Seq<char>) -> Seq<char> {
    let user = or_dashes(e.playback_user);
    if e.event_type == "block"@ {
        time + " 封禁动作 服务器 "@ + e.server_name + " 用户 "@ + user + " IP "@ + ip + " 方式 "@
            + e.outcome + " "@ + e.detail
    } else if e.event_type == "unblock"@ {
        time + " 解除封禁 服务器 "@ + e.server_name + " 用户 "@ + user + " IP "@ + ip + " "@
            + e.detail
    } else {
        time + " 已拦截 服务器 "@ + e.server_name + " 用户 "@ + user + " IP "@ + ip + " "@ + e.method
            + " "@ + e.path + " "@ + e.outcome + " "@ + path_type_label_spec(e.path_type) + " HTTP "@
            + decimal(e.status_code as nat) + " "@ + decimal(e.duration_ms as nat) + "ms "@ + (
        if e.cache_hit {
            "缓存命中"@
        } else {
            "未命中"@
        }) + " "@ + e.detail
    }
}

/// The readable summary of an event at a local time.
pub open spec fn summary_spec(e: BlockEntryView, time: Seq<char>) -> Seq<char> {
    summary_with_ip(e, time, ip_text(e))
}

/// The summary of an event with the address shown as given.
pub fn human_log_summary_with_ip(entry: &BlockLogEntry, ip: &str, tz: &str) -> (r: String)
    requires
        local_time_formattable(entry.timestamp_ms, tz_offset_spec(tz@)),
    ensures
        r@ == summary_with_ip(entry@, time_text_of(entry.timestamp_ms, tz_offset_spec(tz@)), ip@),
{
    let mut s = format_time(entry.timestamp_ms, tz);
    let user_t = trimmed(entry.playback_user.as_str());
    let user: &str = if user_t.len() == 0 {
        "--"
    } else {
        entry.playback_user.as_str()
    };
    if crate::strmap::str_eq(entry.event_type.as_str(), "block") {
        s.append(" 封禁动作 服务器 ");
        s.append(entry.server_name.as_str());
        s.append(" 用户 ");
        s.append(user);
        s.append(" IP ");
        s.append(ip);
        s.append(" 方式 ");
        s.append(entry.outcome.as_str());
        s.append(" ");
        s.append(entry.detail.as_str());
    } else if crate::strmap::str_eq(entry.event_type.as_str(), "unblock") {
        s.append(" 解除封禁 服务器 ");
        s.append(entry.server_name.as_str());
        s.append(" 用户 ");
        s.append(user);
        s.append(" IP ");
        s.append(ip);
        s.append(" ");
        s.append(entry.detail.as_str());
    } else {
        s.append(" 已拦截 服务器 ");
        s.append(entry.server_name.as_str());
        s.append(" 用户 ");
        s.append(user);
        s.append(" IP ");
        s.append(ip);
        s.append(" ");
        s.append(entry.method.as_str());
        s.append(" ");
        s.append(entry.path.as_str());
        s.append(" ");
        s.append(entry.outcome.as_str());
        s.append(" ");
        s.append(path_type_label(entry.path_type.as_str()));
        s.append(" HTTP ");
        let status = decimal_string(entry.status_code as u64);
        s.append(status.as_str());
        s.append(" ");
        let duration = decimal_string_wide(entry.duration_ms);
        s.append(duration.as_str());
        s.append("ms ");
        s.append(
            if entry.cache_hit {
                "缓存命中"
            } else {
                "未命中"
            },
        );
        s.append(" ");
        s.append(entry.detail.as_str());
    }
    s
}

/// The readable summary of an event (see [`summary_spec`]).
pub fn human_log_summary(entry: &BlockLogEntry, tz: &str) -> (r: String)
    requires
        local_time_formattable(entry.timestamp_ms, tz_offset_spec(tz@)),
    ensures
        r@ == summary_spec(entry@, time_text_of(entry.timestamp_ms, tz_offset_spec(tz@))),
{
    let ip_t = trimmed(entry.playback_ip.as_str());
    if ip_t.len() == 0 {
        return human_log_summary_with_ip(entry, "--", tz);
    }
    let loc_t = trimmed(entry.ip_location_text.as_str());
    if loc_t.len() > 0 {
        let mut ip = entry.playback_ip.clone();
        ip.append(" · ");
        ip.append(entry.ip_location_text.as_str());
        human_log_summary_with_ip(entry, ip.as_str(), tz)
    } else {
        human_log_summary_with_ip(entry, entry.playback_ip.as_str(), tz)
    }
}

/// `true` or `false`, as `bool::to_string`.
pub open spec fn bool_text(b: bool) -> Seq<char> {
    if b {
        "true"@
    } else {
        "false"@
    }
}

/// The fields of an event's line, in order, before they are made safe.
pub open spec fn line_fields(e: BlockEntryView, summary: Seq<char>) -> Seq<Seq<char>> {
    seq![
        decimal(e.timestamp_ms as nat),
        e.event_type,
        e.server_id,
        e.server_name,
        decimal(e.port as nat),
        e.playback_user,
        e.playback_ip,
        e.ip_location_text,
        e.method,
        e.path,
        e.path_type,
        decimal(e.status_code as nat),
        e.outcome,
        decimal(e.duration_ms as nat),
        bool_text(e.cache_hit),
        bool_text(e.blocked),
        e.detail,
        summary,
    ]
}

/// An event's line at a local time: its fields made safe and joined by tabs.
pub open spec fn rendered_spec(e: BlockEntryView, time: Seq<char>) -> Seq<char> {
    join(line_fields(e, summary_spec(e, time)).map_values(|f: Seq<char>| sanitized(f)), "\t"@)
}

fn push_field(fields: &mut Vec<Vec<char>>, text: &str)
    ensures
        views(final(fields)@) == views(old(fields)@).push(sanitized(text@)),
{
    let v = chars_of(text);
    let ghost before = views(fields@);
    fields.push(sanitize_chars(&v));
    assert(views(fields@) =~= before.push(sanitized(text@)));
}

/// The line an event is written as.
pub fn render_log_line(entry: &BlockLogEntry, tz: &str) -> (r: String)
    requires
        local_time_formattable(entry.timestamp_ms, tz_offset_spec(tz@)),
    ensures
        r@ == rendered_spec(entry@, time_text_of(entry.timestamp_ms, tz_offset_spec(tz@))),
{
    let summary = human_log_summary(entry, tz);
    let mut fields: Vec<Vec<char>> = Vec::new();
    let ts = decimal_string_wide(entry.timestamp_ms);
    push_field(&mut fields, ts.as_str());
    push_field(&mut fields, entry.event_type.as_str());
    push_field(&mut fields, entry.server_id.as_str());
    push_field(&mut fields, entry.server_name.as_str());
    let port = decimal_string(entry.port as u64);
    push_field(&mut fields, port.as_str());
    push_field(&mut fields, entry.playback_user.as_str());
    push_field(&mut fields, entry.playback_ip.as_str());
    push_field(&mut fields, entry.ip_location_text.as_str());
    push_field(&mut fields, entry.method.as_str());
    push_field(&mut fields, entry.path.as_str());
    push_field(&mut fields, entry.path_type.as_str());
    let status = decimal_string(entry.status_code as u64);
    push_field(&mut fields, status.as_str());
    push_field(&mut fields, entry.outcome.as_str());
    let duration = decimal_string_wide(entry.duration_ms);
    push_field(&mut fields, duration.as_str());
    push_field(
        &mut fields,
        if entry.cache_hit {
            "true"
        } else {
            "false"
        },
    );
    push_field(
        &mut fields,
        if entry.blocked {
            "true"
        } else {
            "false"
        },
    );
    push_field(&mut fields, entry.detail.as_str());
    push_field(&mut fields, summary.as_str());
    let ghost t = time_text_of(entry.timestamp_ms, tz_offset_spec(tz@));
    assert(views(fields@) =~= line_fields(entry@, summary_spec(entry@, t)).map_values(
        |f: Seq<char>| sanitized(f),
    ));
    let tab = chars_of("\t");
    string_of(&join_chars(&fields, &tab))
}

/// Field `i` of a line, or the default when the line has fewer fields.
pub open spec fn field_or(raw: Seq<Seq<char>>, i: int, default: Seq<char>) -> Seq<char> {
    if 0 <= i < raw.len() {
        raw[i]
    } else {
        default
    }
}

/// A number field, 0 when it does not parse.
pub open spec fn number_or_zero(s: Seq<char>, max: nat) -> nat {
    match parse_unsigned(s, max) {
        Some(n) => n,
        None => 0,
    }
}

/// The event of a tab-separated line: the first field must be the time in milliseconds,
/// missing fields take defaults, and lines of 18 or more fields carry the location text
/// after the address. The id is the time.
pub open spec fn parsed_line(line: Seq<char>) -> Option<BlockEntryView> {
    let raw = split_char(line, '\t');
    match parse_unsigned(raw[0], u128::MAX as nat) {
        None => None,
        Some(ts) => {
            let wide = raw.len() >= 18;
            let k: int = if wide {
                8
            } else {
                7
            };
            Some(
                BlockEntryView {
                    id: (ts as u128) as i64,
                    event_type: field_or(raw, 1, "request"@),
                    timestamp_ms: ts as u128,
                    server_id: field_or(raw, 2, ""@),
                    server_name: field_or(raw, 3, "--"@),
                    port: number_or_zero(field_or(raw, 4, "0"@), 65535) as u16,
                    method: field_or(raw, k, ""@),
                    path: field_or(raw, k + 1, ""@),
                    path_type: field_or(raw, k + 2, "proxy"@),
                    status_code: number_or_zero(field_or(raw, k + 3, "0"@), 65535) as u16,
                    outcome: field_or(raw, k + 4, "--"@),
                    duration_ms: number_or_zero(field_or(raw, k + 5, "0"@), u128::MAX as nat) as u128,
                    playback_user: field_or(raw, 5, "--"@),
                    playback_ip: field_or(raw, 6, "--"@),
                    ip_location_text: if wide {
                        field_or(raw, 7, ""@)
                    } else {
                        ""@
                    },
                    ip_location: None,
                    cache_hit: field_or(raw, k + 6, "false"@) == "true"@,
                    blocked: field_or(raw, k + 7, "true"@) != "false"@,
                    detail: field_or(raw, k + 8, ""@),
                },
            )
        },
    }
}

fn field_text(raw: &Vec<Vec<char>>, i: usize, default: &str) -> (r: String)
    ensures
        r@ == field_or(views(raw@), i as int, default@),
{
    if i < raw.len() {
        assert(views(raw@)[i as int] == raw@[i as int]@);
        string_of(&raw[i])
    } else {
        String::from_str(default)
    }
}

fn field_number(raw: &Vec<Vec<char>>, i: usize, max: u128) -> (r: u128)
    ensures
        r as nat == number_or_zero(field_or(views(raw@), i as int, "0"@), max as nat),
        r <= max,
{
    proof {
        reveal_strlit("0");
        lemma_decimal_parses(0, max as nat);
        assert(decimal(0) =~= "0"@);
    }
    if i < raw.len() {
        assert(views(raw@)[i as int] == raw@[i as int]@);
        match parse_unsigned_chars(&raw[i], max) {
            Some(n) => n,
            None => 0,
        }
    } else {
        0
    }
}

fn field_is(raw: &Vec<Vec<char>>, i: usize, default: &str, lit: &str) -> (r: bool)
    ensures
        r == (field_or(views(raw@), i as int, default@) == lit@),
{
    let f = field_text(raw, i, default);
    crate::strmap::str_eq(f.as_str(), lit)
}

/// The event of a log line: the entry read from it as JSON when it is one (older logs),
/// else its tab-separated fields (see [`parsed_line`]).
pub fn parse_log_line(line: &str, json: Option<BlockLogEntry>) -> (r: Option<BlockLogEntry>)
    ensures
        match json {
            Some(e) => r == Some(e),
            None => match r {
                Some(e) => parsed_line(line@) == Some(e@),
                None => parsed_line(line@) is None,
            },
        },
{
    if json.is_some() {
        return json;
    }
    let v = chars_of(line);
    let raw = split_chars(&v, '\t');
    let ghost rv = views(raw@);
    assert(rv[0] == raw@[0]@);
    let ts = match parse_unsigned_chars(&raw[0], u128::MAX) {
        Some(t) => t,
        None => {
            return None;
        },
    };
    let wide = raw.len() >= 18;
    let k: usize = if wide {
        8
    } else {
        7
    };
    let ip_location_text = if wide {
        field_text(&raw, 7, "")
    } else {
        String::new()
    };
    let e = BlockLogEntry {
        id: ts as i64,
        event_type: field_text(&raw, 1, "request"),
        timestamp_ms: ts,
        server_id: field_text(&raw, 2, ""),
        server_name: field_text(&raw, 3, "--"),
        port: field_number(&raw, 4, 65535) as u16,
        method: field_text(&raw, k, ""),
        path: field_text(&raw, k + 1, ""),
        path_type: field_text(&raw, k + 2, "proxy"),
        status_code: field_number(&raw, k + 3, 65535) as u16,
        outcome: field_text(&raw, k + 4, "--"),
        duration_ms: field_number(&raw, k + 5, u128::MAX),
        playback_user: field_text(&raw, 5, "--"),
        playback_ip: field_text(&raw, 6, "--"),
        ip_location_text,
        ip_location: None,
        cache_hit: field_is(&raw, k + 6, "false", "true"),
        blocked: !field_is(&raw, k + 7, "true", "false"),
        detail: field_text(&raw, k + 8, ""),
    };
    proof {
        reveal_strlit("");
    }
    let ghost p = parsed_line(line@)->0;
    assert(e@.ip_location_text == p.ip_location_text);
    assert(e@.ip_location == p.ip_location);
    assert(e@.event_type == p.event_type);
    assert(e@.detail == p.detail);
    assert(e@ == p);
    Some(e)
}

/// A text without tabs, carriage returns or line feeds.
pub open spec fn free_of_breaks(s: Seq<char>) -> bool {
    forall|i: int| 0 <= i < s.len() ==> !is_line_break(#[trigger] s[i])
}

/// The texts of an event hold no line breaks.
pub open spec fn clean_entry(e: BlockEntryView) -> bool {
    &&& free_of_breaks(e.event_type)
    &&& free_of_breaks(e.server_id)
    &&& free_of_breaks(e.server_name)
    &&& free_of_breaks(e.method)
    &&& free_of_breaks(e.path)
    &&& free_of_breaks(e.path_type)
    &&& free_of_breaks(e.outcome)
    &&& free_of_breaks(e.playback_user)
    &&& free_of_breaks(e.playback_ip)
    &&& free_of_breaks(e.ip_location_text)
    &&& free_of_breaks(e.detail)
}

proof fn lemma_sanitized_clean(s: Seq<char>)
    ensures
        !sanitized(s).contains('\t'),
        free_of_breaks(s) ==> sanitized(s) == s,
{
    assert forall|i: int| 0 <= i < sanitized(s).len() implies sanitized(s)[i] != '\t' by {}
    if free_of_breaks(s) {
        assert(sanitized(s) =~= s);
    }
}

proof fn lemma_decimal_clean(n: nat)
    ensures
        free_of_breaks(decimal(n)),
{
    crate::text::lemma_decimal_digits(n);
    assert forall|i: int| 0 <= i < decimal(n).len() implies !is_line_break(#[trigger] decimal(n)[i]) by {
        assert('0' <= decimal(n)[i] <= '9');
    }
}

/// Reading back the line an event is written as gives the event again, for an event whose
/// id is its time, with no resolved location, and whose texts hold no line breaks (the
/// writer turns those into spaces).
pub proof fn lemma_line_round_trip(e: BlockEntryView, time: Seq<char>)
    requires
        clean_entry(e),
        e.id == e.timestamp_ms as i64,
        e.ip_location is None,
    ensures
        parsed_line(rendered_spec(e, time)) == Some(e),
{
    reveal_strlit("true");
    reveal_strlit("false");
    let fields = line_fields(e, summary_spec(e, time));
    let pieces = fields.map_values(|f: Seq<char>| sanitized(f));
    assert forall|i: int| 0 <= i < pieces.len() implies !(#[trigger] pieces[i]).contains('\t') by {
        lemma_sanitized_clean(fields[i]);
    }
    assert(seq!['\t'] =~= "\t"@) by {
        reveal_strlit("\t");
    }
    crate::text::lemma_split_join(pieces, '\t');
    let raw = split_char(rendered_spec(e, time), '\t');
    assert(raw == pieces);
    lemma_decimal_clean(e.timestamp_ms as nat);
    lemma_decimal_clean(e.port as nat);
    lemma_decimal_clean(e.status_code as nat);
    lemma_decimal_clean(e.duration_ms as nat);
    assert forall|i: int| 0 <= i < 17 implies (#[trigger] pieces[i]) == fields[i] by {
        lemma_sanitized_clean(fields[i]);
        assert(free_of_breaks(bool_text(e.cache_hit)));
        assert(free_of_breaks(bool_text(e.blocked)));
    }
    lemma_decimal_parses(e.timestamp_ms as nat, u128::MAX as nat);
    lemma_decimal_parses(e.port as nat, 65535);
    lemma_decimal_parses(e.status_code as nat, 65535);
    lemma_decimal_parses(e.duration_ms as nat, u128::MAX as nat);
    assert(raw[0] == decimal(e.timestamp_ms as nat));
    let p = parsed_line(rendered_spec(e, time))->0;
    assert(raw[14] == bool_text(e.cache_hit));
    assert(raw[15] == bool_text(e.blocked));
    assert(p.cache_hit == e.cache_hit);
    assert(p.blocked == e.blocked);
    assert(p.port == e.port);
    assert(p.status_code == e.status_code);
    assert(p.duration_ms == e.duration_ms);
    assert(p == e);
}

/// The event written for an insert: its id is its time, its type normalized, it is a block,
/// and it has no resolved location.
pub open spec fn insert_entry_spec(r: InsertView) -> BlockEntryView {
    BlockEntryView {
        id: r.timestamp_ms as i64,
        event_type: event_type_spec(r.event_type),
        timestamp_ms: r.timestamp_ms,
        server_id: r.server_id,
        server_name: r.server_name,
        port: r.port,
        method: r.method,
        path: r.path,
        path_type: r.path_type,
        status_code: r.status_code,
        outcome: r.outcome,
        duration_ms: r.duration_ms,
        playback_user: r.playback_user,
        playback_ip: r.playback_ip,
        ip_location_text: r.ip_location_text,
        ip_location: None,
        cache_hit: r.cache_hit,
        blocked: true,
        detail: r.detail,
    }
}

/// The event an insert is written as (see [`insert_entry_spec`]).
pub fn entry_from_insert(record: &BlockLogInsert) -> (e: BlockLogEntry)
    ensures
        e@ == insert_entry_spec(record@),
{
    let e = BlockLogEntry {
        id: record.timestamp_ms as i64,
        event_type: String::from_str(normalize_event_type(record.event_type)),
        timestamp_ms: record.timestamp_ms,
        server_id: String::from_str(record.server_id),
        server_name: String::from_str(record.server_name),
        port: record.port,
        method: String::from_str(record.method),
        path: String::from_str(record.path),
        path_type: String::from_str(record.path_type),
        status_code: record.status_code,
        outcome: String::from_str(record.outcome),
        duration_ms: record.duration_ms,
        playback_user: String::from_str(record.playback_user),
        playback_ip: String::from_str(record.playback_ip),
        ip_location_text: String::from_str(record.ip_location_text),
        ip_location: None,
        cache_hit: record.cache_hit,
        blocked: true,
        detail: String::from_str(record.detail),
    };
    assert(e@ == insert_entry_spec(record@));
    e
}

/// A blocked request from the request log as an insert of the block log: a `request`
/// event without location text.
pub fn proxy_detail_to_insert(row: &ProxyRequestDetail) -> (r: BlockLogInsert<'_>)
    ensures
        r@ == proxy_insert_spec(*row),
{
    BlockLogInsert {
        timestamp_ms: row.timestamp_ms,
        event_type: "request",
        server_id: row.server_id.as_str(),
        server_name: row.server_name.as_str(),
        port: row.port,
        method: row.method.as_str(),
        path: row.path.as_str(),
        path_type: row.path_type.as_str(),
        status_code: row.status_code,
        outcome: row.outcome.as_str(),
        duration_ms: row.duration_ms,
        playback_user: row.playback_user.as_str(),
        playback_ip: row.playback_ip.as_str(),
        ip_location_text: "",
        cache_hit: row.cache_hit,
        detail: row.detail.as_str(),
    }
}

/// The texts a keyword is looked for in, joined by spaces, in ASCII lower case.
pub open spec fn keyword_haystack(e: BlockEntryView) -> Seq<char> {
    crate::text::lower(
        e.event_type + " "@ + e.server_name + " "@ + e.method + " "@ + e.path + " "@ + e.path_type
            + " "@ + e.outcome + " "@ + e.playback_user + " "@ + e.playback_ip + " "@ + e.detail,
    )
}

/// The keyword of a filter: trimmed, in ASCII lower case, `None` when blank.
pub open spec fn keyword_spec(keyword: Option<Seq<char>>) -> Option<Seq<char>> {
    match keyword {
        Some(k) => if trim(k).len() > 0 {
            Some(crate::text::lower(trim(k)))
        } else {
            None
        },
        None => None,
    }
}

/// An event passes a filter: the server and path type when given, the time window when
/// given, and the keyword inside its texts when there is one.
pub open spec fn passes_filter(e: BlockEntryView, f: BlockLogFilter, keyword: Option<Seq<char>>) -> bool {
    &&& (f.server_id matches Some(id) ==> e.server_id == id@)
    &&& (f.path_type matches Some(t) ==> e.path_type == t@)
    &&& (f.since_ms matches Some(since) ==> e.timestamp_ms >= since)
    &&& (f.until_ms matches Some(until) ==> e.timestamp_ms <= until)
    &&& (keyword matches Some(k) ==> crate::text::contains(keyword_haystack(e), k))
}

/// Whether an event passes a filter, given the filter's normalized keyword.
pub fn matches_filter(entry: &BlockLogEntry, filter: &BlockLogFilter, keyword: Option<&str>) -> (r:
    bool)
    ensures
        r == passes_filter(entry@, *filter, crate::text::opt_str_view(keyword)),
{
    match filter.server_id {
        Some(id) => if !crate::strmap::str_eq(entry.server_id.as_str(), id) {
            return false;
        },
        None => {},
    }
    match filter.path_type {
        Some(t) => if !crate::strmap::str_eq(entry.path_type.as_str(), t) {
            return false;
        },
        None => {},
    }
    match filter.since_ms {
        Some(since) => if entry.timestamp_ms < since {
            return false;
        },
        None => {},
    }
    match filter.until_ms {
        Some(until) => if entry.timestamp_ms > until {
            return false;
        },
        None => {},
    }
    match keyword {
        Some(k) => {
            let mut h = entry.event_type.clone();
            h.append(" ");
            h.append(entry.server_name.as_str());
            h.append(" ");
            h.append(entry.method.as_str());
            h.append(" ");
            h.append(entry.path.as_str());
            h.append(" ");
            h.append(entry.path_type.as_str());
            h.append(" ");
            h.append(entry.outcome.as_str());
            h.append(" ");
            h.append(entry.playback_user.as_str());
            h.append(" ");
            h.append(entry.playback_ip.as_str());
            h.append(" ");
            h.append(entry.detail.as_str());
            let hv = chars_of(h.as_str());
            let lh = crate::text::lower_chars(&hv);
            let kv = chars_of(k);
            crate::text::contains_chars(&lh, &kv)
        },
        None => true,
    }
}

/// The normalized keyword of a filter (see [`keyword_spec`]).
pub fn normalized_keyword(keyword: Option<&str>) -> (r: Option<String>)
    ensures
        crate::text::opt_string_view(r) == keyword_spec(crate::text::opt_str_view(keyword)),
{
    match keyword {
        Some(k) => {
            let t = trimmed(k);
            if t.len() > 0 {
                Some(string_of(&crate::text::lower_chars(&t)))
            } else {
                None
            }
        },
        None => None,
    }
}

/// Event `a` is listed after event `b`: it is older, or as old with a smaller id.
pub open spec fn listed_after(a: BlockEntryView, b: BlockEntryView) -> bool {
    a.timestamp_ms < b.timestamp_ms || (a.timestamp_ms == b.timestamp_ms && a.id < b.id)
}

/// The first position from `i` on whose event is listed after `x`, or the length.
pub open spec fn first_after(s: Seq<BlockEntryView>, x: BlockEntryView, i: int) -> int
    decreases s.len() - i,
{
    if i < 0 || i >= s.len() {
        s.len() as int
    } else if listed_after(s[i], x) {
        i
    } else {
        first_after(s, x, i + 1)
    }
}

/// The events newest first (by time, then id), events with equal keys in their order (a
/// stable sort).
pub open spec fn newest_first(s: Seq<BlockEntryView>) -> Seq<BlockEntryView>
    decreases s.len(),
{
    if s.len() == 0 {
        Seq::empty()
    } else {
        let t = newest_first(s.drop_last());
        t.insert(first_after(t, s.last(), 0), s.last())
    }
}

proof fn lemma_first_after_bounds(s: Seq<BlockEntryView>, x: BlockEntryView, i: int)
    requires
        0 <= i <= s.len(),
    ensures
        i <= first_after(s, x, i) <= s.len(),
    decreases s.len() - i,
{
    if i < s.len() && !listed_after(s[i], x) {
        lemma_first_after_bounds(s, x, i + 1);
    }
}

fn insertion_point(sorted: &Vec<BlockLogEntry>, x: &BlockLogEntry) -> (p: usize)
    ensures
        p as int == first_after(entry_views(sorted@), x@, 0),
{
    let ghost s = entry_views(sorted@);
    let mut j: usize = 0;
    while j < sorted.len()
        invariant
            j <= sorted@.len(),
            s == entry_views(sorted@),
            first_after(s, x@, 0) == first_after(s, x@, j as int),
        decreases sorted@.len() - j,
    {
        assert(s[j as int] == sorted@[j as int]@);
        let e = &sorted[j];
        if e.timestamp_ms < x.timestamp_ms || (e.timestamp_ms == x.timestamp_ms && e.id < x.id) {
            return j;
        }
        j = j + 1;
    }
    j
}

/// Sorts events newest first (see [`newest_first`]).
pub fn sort_newest_first(entries: Vec<BlockLogEntry>) -> (r: Vec<BlockLogEntry>)
    ensures
        entry_views(r@) == newest_first(entry_views(entries@)),
{
    let ghost input = entry_views(entries@);
    let mut rest = entries;
    let mut sorted: Vec<BlockLogEntry> = Vec::new();
    let n = rest.len();
    let mut i: usize = 0;
    assert(input.take(0) =~= Seq::<BlockEntryView>::empty());
    while rest.len() > 0
        invariant
            n == input.len(),
            i + rest@.len() == n,
            entry_views(rest@) == input.skip(i as int),
            entry_views(sorted@) == newest_first(input.take(i as int)),
        decreases rest@.len(),
    {
        let ghost before = rest@;
        let e = rest.remove(0);
        assert(entry_views(rest@) =~= input.skip(i + 1)) by {
            assert forall|k: int| 0 <= k < rest@.len() implies #[trigger] entry_views(rest@)[k]
                == input.skip(i + 1)[k] by {
                assert(entry_views(before)[k + 1] == input.skip(i as int)[k + 1]);
            }
        }
        assert(entry_views(before)[0] == input.skip(i as int)[0]);
        assert(e@ == input[i as int]);
        assert(input.take(i + 1).drop_last() =~= input.take(i as int));
        let p = insertion_point(&sorted, &e);
        let ghost s0 = entry_views(sorted@);
        proof {
            lemma_first_after_bounds(s0, e@, 0);
        }
        sorted.insert(p, e);
        assert(entry_views(sorted@) =~= s0.insert(p as int, input[i as int]));
        i = i + 1;
    }
    assert(input.take(n as int) =~= input);
    sorted
}

/// A line of a log file and the entry it holds when read as JSON.
pub open spec fn line_view(l: (String, Option<BlockLogEntry>)) -> (Seq<char>, Option<BlockEntryView>) {
    (
        l.0@,
        match l.1 {
            Some(e) => Some(e@),
            None => None,
        },
    )
}

pub open spec fn line_views(ls: Seq<(String, Option<BlockLogEntry>)>) -> Seq<(Seq<char>, Option<BlockEntryView>)> {
    ls.map_values(|l: (String, Option<BlockLogEntry>)| line_view(l))
}

pub open spec fn file_views(fs: Seq<Vec<(String, Option<BlockLogEntry>)>>) -> Seq<
    Seq<(Seq<char>, Option<BlockEntryView>)>,
> {
    fs.map_values(|f: Vec<(String, Option<BlockLogEntry>)>| line_views(f@))
}

/// The event of a line: its JSON entry, else its tab-separated fields.
pub open spec fn line_event(l: (Seq<char>, Option<BlockEntryView>)) -> Option<BlockEntryView> {
    match l.1 {
        Some(e) => Some(e),
        None => parsed_line(l.0),
    }
}

/// The events of a file's lines, skipping lines that hold none.
pub open spec fn file_events(ls: Seq<(Seq<char>, Option<BlockEntryView>)>) -> Seq<BlockEntryView>
    decreases ls.len(),
{
    if ls.len() == 0 {
        Seq::empty()
    } else {
        let rest = file_events(ls.drop_last());
        match line_event(ls.last()) {
            Some(e) => rest.push(e),
            None => rest,
        }
    }
}

/// The events that pass a filter, in order.
pub open spec fn passing(s: Seq<BlockEntryView>, f: BlockLogFilter, keyword: Option<Seq<char>>) -> Seq<
    BlockEntryView,
>
    decreases s.len(),
{
    if s.len() == 0 {
        Seq::empty()
    } else {
        let rest = passing(s.drop_last(), f, keyword);
        if passes_filter(s.last(), f, keyword) {
            rest.push(s.last())
        } else {
            rest
        }
    }
}

/// The events of the files in turn, each file's newest first, that pass the filter.
pub open spec fn listing(
    files: Seq<Seq<(Seq<char>, Option<BlockEntryView>)>>,
    f: BlockLogFilter,
    keyword: Option<Seq<char>>,
) -> Seq<BlockEntryView>
    decreases files.len(),
{
    if files.len() == 0 {
        Seq::empty()
    } else {
        listing(files.drop_last(), f, keyword) + passing(newest_first(file_events(files.last())), f, keyword)
    }
}

/// How many events a listing returns at most: the filter's limit within 1 to 500.
pub open spec fn listing_cap(limit: usize) -> int {
    if limit < 1 {
        1
    } else if limit > 500 {
        500
    } else {
        limit as int
    }
}

fn events_of_file(lines: Vec<(String, Option<BlockLogEntry>)>) -> (r: Vec<BlockLogEntry>)
    ensures
        entry_views(r@) == file_events(line_views(lines@)),
{
    let ghost input = line_views(lines@);
    let mut rest = lines;
    let mut out: Vec<BlockLogEntry> = Vec::new();
    let n = rest.len();
    let mut i: usize = 0;
    assert(input.take(0) =~= Seq::<(Seq<char>, Option<BlockEntryView>)>::empty());
    while rest.len() > 0
        invariant
            n == input.len(),
            i + rest@.len() == n,
            line_views(rest@) == input.skip(i as int),
            entry_views(out@) == file_events(input.take(i as int)),
        decreases rest@.len(),
    {
        let ghost before = rest@;
        let line = rest.remove(0);
        assert(line_views(rest@) =~= input.skip(i + 1)) by {
            assert forall|k: int| 0 <= k < rest@.len() implies #[trigger] line_views(rest@)[k]
                == input.skip(i + 1)[k] by {
                assert(line_views(before)[k + 1] == input.skip(i as int)[k + 1]);
            }
        }
        assert(line_views(before)[0] == input.skip(i as int)[0]);
        assert(line_view(line) == input[i as int]);
        assert(input.take(i + 1).drop_last() =~= input.take(i as int));
        let (text, json) = line;
        match parse_log_line(text.as_str(), json) {
            Some(e) => {
                let ghost o = entry_views(out@);
                out.push(e);
                assert(entry_views(out@) =~= o.push(e@));
            },
            None => {},
        }
        i = i + 1;
    }
    assert(input.take(n as int) =~= input);
    out
}

fn passing_events(entries: &Vec<BlockLogEntry>, filter: &BlockLogFilter, keyword: Option<&str>, out: &mut Vec<BlockLogEntry>)
    ensures
        entry_views(final(out)@) == entry_views(old(out)@) + passing(
            entry_views(entries@),
            *filter,
            crate::text::opt_str_view(keyword),
        ),
{
    let ghost s = entry_views(entries@);
    let ghost o = entry_views(out@);
    let ghost kw = crate::text::opt_str_view(keyword);
    let mut i: usize = 0;
    assert(s.take(0) =~= Seq::<BlockEntryView>::empty());
    assert(o + Seq::<BlockEntryView>::empty() =~= o);
    while i < entries.len()
        invariant
            i <= entries@.len(),
            s == entry_views(entries@),
            kw == crate::text::opt_str_view(keyword),
            entry_views(out@) == o + passing(s.take(i as int), *filter, kw),
        decreases entries@.len() - i,
    {
        assert(s.take(i + 1).drop_last() =~= s.take(i as int));
        assert(s.take(i + 1).last() == entries@[i as int]@);
        if matches_filter(&entries[i], filter, keyword) {
            let ghost before = entry_views(out@);
            out.push(entries[i].clone_entry());
            assert(entry_views(out@) =~= before.push(entries@[i as int]@));
        }
        i = i + 1;
    }
    assert(s.take(s.len() as int) =~= s);
}

impl BlockLogEntry {
    /// A field-by-field copy.
    pub fn clone_entry(&self) -> (r: Self)
        ensures
            r@ == self@,
    {
        BlockLogEntry {
            id: self.id,
            event_type: self.event_type.clone(),
            timestamp_ms: self.timestamp_ms,
            server_id: self.server_id.clone(),
            server_name: self.server_name.clone(),
            port: self.port,
            method: self.method.clone(),
            path: self.path.clone(),
            path_type: self.path_type.clone(),
            status_code: self.status_code,
            outcome: self.outcome.clone(),
            duration_ms: self.duration_ms,
            playback_user: self.playback_user.clone(),
            playback_ip: self.playback_ip.clone(),
            ip_location_text: self.ip_location_text.clone(),
            ip_location: match &self.ip_location {
                Some(l) => Some(l.duplicate()),
                None => None,
            },
            cache_hit: self.cache_hit,
            blocked: self.blocked,
            detail: self.detail.clone(),
        }
    }
}

/// The block log at a path: the current file and its numbered backups.
pub struct BlockLogStore {
    path: String,
}

impl BlockLogStore {
    /// The log file.
    pub closed spec fn spec_path(&self) -> Seq<char> {
        self.path@
    }

    /// The store of `block.log` in the `logs` directory of the data directory.
    pub fn new(data_dir: &str) -> (s: Self)
        ensures
            s.spec_path() == data_dir@ + "/logs/block.log"@,
    {
        let mut path = String::from_str(data_dir);
        path.append("/logs/block.log");
        BlockLogStore { path }
    }

    /// The log file.
    pub fn path(&self) -> (r: &str)
        ensures
            r@ == self.spec_path(),
    {
        self.path.as_str()
    }

    /// The line an insert is appended as (see [`entry_from_insert`] and [`render_log_line`]).
    pub fn record(&self, record: BlockLogInsert<'_>, tz: &str) -> (r: String)
        requires
            local_time_formattable(record.timestamp_ms, tz_offset_spec(tz@)),
        ensures
            r@ == rendered_spec(
                insert_entry_spec(record@),
                time_text_of(record.timestamp_ms, tz_offset_spec(tz@)),
            ),
    {
        let e = entry_from_insert(&record);
        render_log_line(&e, tz)
    }

    /// The lines a log that does not exist yet starts with: the blocked requests of the
    /// request log, oldest first (they come newest first). Nothing when the log exists.
    pub fn bootstrap_from_proxy_logs(&self, log_exists: bool, rows: &Vec<ProxyRequestDetail>, tz: &str) -> (r:
        Vec<String>)
        requires
            forall|i: int| 0 <= i < rows@.len() ==> local_time_formattable((#[trigger] rows@[i]).timestamp_ms, tz_offset_spec(tz@)),
        ensures
            log_exists ==> r@.len() == 0,
            !log_exists ==> r@.len() == rows@.len() && forall|i: int|
                0 <= i < r@.len() ==> (#[trigger] r@[i])@ == rendered_spec(
                    insert_entry_spec(proxy_insert_spec(rows@[rows@.len() - 1 - i])),
                    time_text_of(rows@[rows@.len() - 1 - i].timestamp_ms, tz_offset_spec(tz@)),
                ),
    {
        let mut out: Vec<String> = Vec::new();
        if log_exists {
            return out;
        }
        let n = rows.len();
        let mut k: usize = 0;
        while k < n
            invariant
                n == rows@.len(),
                k <= n,
                out@.len() == k,
                forall|i: int| 0 <= i < rows@.len() ==> local_time_formattable((#[trigger] rows@[i]).timestamp_ms, tz_offset_spec(tz@)),
                forall|i: int|
                    0 <= i < k ==> (#[trigger] out@[i])@ == rendered_spec(
                        insert_entry_spec(proxy_insert_spec(rows@[rows@.len() - 1 - i])),
                        time_text_of(rows@[rows@.len() - 1 - i].timestamp_ms, tz_offset_spec(tz@)),
                    ),
            decreases n - k,
        {
            let row = &rows[n - 1 - k];
            let ins = proxy_detail_to_insert(row);
            let line = self.record(ins, tz);
            out.push(line);
            k = k + 1;
        }
        out
    }

    /// The events of the log, given the lines of its files that exist, current file first:
    /// each file's events newest first, those that pass the filter, at most the filter's
    /// limit (within 1 to 500) of them.
    pub fn list(&self, files: Vec<Vec<(String, Option<BlockLogEntry>)>>, filter: BlockLogFilter<'_>) -> (r:
        Vec<BlockLogEntry>)
        ensures
            ({
                let all = listing(file_views(files@), filter, keyword_spec(crate::text::opt_str_view(filter.keyword)));
                entry_views(r@) == if all.len() > listing_cap(filter.limit) {
                    all.take(listing_cap(filter.limit))
                } else {
                    all
                }
            }),
    {
        let keyword = normalized_keyword(filter.keyword);
        let kw: Option<&str> = match &keyword {
            Some(k) => Some(k.as_str()),
            None => None,
        };
        let ghost kwv = keyword_spec(crate::text::opt_str_view(filter.keyword));
        assert(crate::text::opt_str_view(kw) == kwv);
        let ghost input = file_views(files@);
        let mut rest = files;
        let mut out: Vec<BlockLogEntry> = Vec::new();
        let n = rest.len();
        let mut i: usize = 0;
        assert(input.take(0) =~= Seq::<Seq<(Seq<char>, Option<BlockEntryView>)>>::empty());
        while rest.len() > 0
            invariant
                n == input.len(),
                i + rest@.len() == n,
                file_views(rest@) == input.skip(i as int),
                crate::text::opt_str_view(kw) == kwv,
                entry_views(out@) == listing(input.take(i as int), filter, kwv),
            decreases rest@.len(),
        {
            let ghost before = rest@;
            let file = rest.remove(0);
            assert(file_views(rest@) =~= input.skip(i + 1)) by {
                assert forall|k: int| 0 <= k < rest@.len() implies #[trigger] file_views(rest@)[k]
                    == input.skip(i + 1)[k] by {
                    assert(file_views(before)[k + 1] == input.skip(i as int)[k + 1]);
                }
            }
            assert(file_views(before)[0] == input.skip(i as int)[0]);
            assert(line_views(file@) == input[i as int]);
            assert(input.take(i + 1).drop_last() =~= input.take(i as int));
            let events = events_of_file(file);
            let sorted = sort_newest_first(events);
            passing_events(&sorted, &filter, kw, &mut out);
            i = i + 1;
        }
        assert(input.take(n as int) =~= input);
        let cap: usize = if filter.limit < 1 {
            1
        } else if filter.limit > 500 {
            500
        } else {
            filter.limit
        };
        out.truncate(cap);
        proof {
            let all = listing(input, filter, kwv);
            if all.len() > cap {
                assert(entry_views(out@) =~= all.take(cap as int));
            } else {
                assert(entry_views(out@) =~= all);
            }
        }
        out
    }

    /// The log file and its backups, newest first.
    pub fn log_paths(&self) -> (r: Vec<String>)
        ensures
            r@.len() == MAX_BACKUPS + 1,
            r@[0]@ == self.spec_path(),
            forall|i: int| 1 <= i <= MAX_BACKUPS ==> (#[trigger] r@[i])@ == self.spec_path() + "."@ + decimal(i as nat),
    {
        let mut out: Vec<String> = Vec::new();
        out.push(self.path.clone());
        let mut index: u64 = 1;
        while index <= MAX_BACKUPS
            invariant
                1 <= index <= MAX_BACKUPS + 1,
                out@.len() == index,
                out@[0]@ == self.spec_path(),
                forall|i: int| 1 <= i < index ==> (#[trigger] out@[i])@ == self.spec_path() + "."@ + decimal(i as nat),
            decreases MAX_BACKUPS + 1 - index,
        {
            out.push(backup_path(self.path.as_str(), index));
            index = index + 1;
        }
        out
    }
}

/// The fields a blocked request is written with: a `request` event without location text.
pub open spec fn proxy_insert_spec(row: ProxyRequestDetail) -> InsertView {
    InsertView {
        event_type: "request"@,
        timestamp_ms: row.timestamp_ms,
        server_id: row.server_id@,
        server_name: row.server_name@,
        port: row.port,
        method: row.method@,
        path: row.path@,
        path_type: row.path_type@,
        status_code: row.status_code,
        outcome: row.outcome@,
        duration_ms: row.duration_ms,
        playback_user: row.playback_user@,
        playback_ip: row.playback_ip@,
        ip_location_text: ""@,
        cache_hit: row.cache_hit,
        detail: row.detail@,
    }
}

/// The `n`-th backup of a log file: its path, a dot and the number.
pub fn backup_path(path: &str, index: u64) -> (r: String)
    ensures
        r@ == path@ + "."@ + decimal(index as nat),
{
    let mut out = String::from_str(path);
    out.append(".");
    let d = decimal_string(index);
    out.append(d.as_str());
    out
}

/// A log of this many bytes is rotated before the next line.
pub fn rotation_due(len: Option<u64>) -> (r: bool)
    ensures
        r == (len matches Some(n) && n >= MAX_BYTES),
{
    match len {
        Some(n) => n >= MAX_BYTES,
        None => false,
    }
}

} // verus!
