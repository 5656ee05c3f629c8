//! Rules of the proxy gateway: time zones of the log clock, which requests are logged,
//! direct links and their cache filter, and values read from requests.

use vstd::prelude::*;
use vstd::string::StringExecFns;
use crate::text::{
    chars_eq, chars_eq_ignore_case, chars_eq_str, chars_of, contains, contains_chars, decimal,
    decimal_string, ends_with, ends_with_chars, eq_ignore_case, find, find_chars, lower, lower_chars,
    parse_i32, parse_i32_chars, slice_chars, split_char, split_chars, split_once, split_once_chars,
    starts_with, starts_with_chars, string_of, trim, trim_char, trim_char_chars, trim_chars, trimmed,
    views, lines, lines_chars, opt_str_view, opt_string_view, string_views,
};
use crate::config::Config;
use crate::error::AppError;
use crate::strmap::str_eq;
use crate::url_mapping::{applied, apply_rules, rule_texts};
use crate::urls::{
    form_encode, form_encoded_of, form_pairs, form_pairs_of, pair_views, url_host, url_host_of,
};

verus! {

/// An offset such as `+08:00`, `-5` or `UTC+8`: the sign, then hours (0–23) and optional
/// minutes (0–59) after a colon, in seconds.
pub open spec fn utc_offset_spec(value: Seq<char>) -> Option<int> {
    let v = trim(
        if starts_with(value, "UTC"@) || starts_with(value, "GMT"@) {
            value.subrange(3, value.len() as int)
        } else {
            value
        },
    );
    if v.len() == 0 || (v[0] != '+' && v[0] != '-') {
        None
    } else {
        let sign: int = if v[0] == '+' {
            1
        } else {
            -1
        };
        let rest = v.drop_first();
        let parts: Option<(int, int)> = match split_once(rest, ":"@) {
            Some((h, m)) => match (parse_i32(h), parse_i32(m)) {
                (Some(h), Some(m)) => Some((h, m)),
                _ => None,
            },
            None => match parse_i32(rest) {
                Some(h) => Some((h, 0)),
                None => None,
            },
        };
        match parts {
            Some((h, m)) => if 0 <= h <= 23 && 0 <= m <= 59 {
                Some(sign * (h * 3600 + m * 60))
            } else {
                None
            },
            None => None,
        }
    }
}

/// The offset of a `UTC±hh[:mm]` text (see [`utc_offset_spec`]).
pub fn parse_utc_offset(value: &str) -> (r: Option<i32>)
    ensures
        match r {
            Some(x) => utc_offset_spec(value@) == Some(x as int),
            None => utc_offset_spec(value@) is None,
        },
        r matches Some(x) ==> -86400 < x < 86400,
{
    proof {
        reveal_strlit("UTC");
        reveal_strlit("GMT");
    }
    let raw = chars_of(value);
    let utc = chars_of("UTC");
    let gmt = chars_of("GMT");
    let stripped = if starts_with_chars(&raw, &utc) || starts_with_chars(&raw, &gmt) {
        slice_chars(&raw, 3, raw.len())
    } else {
        slice_chars(&raw, 0, raw.len())
    };
    assert(raw@.subrange(0, raw@.len() as int) =~= raw@);
    let v = trim_chars(&stripped);
    if v.len() == 0 || (v[0] != '+' && v[0] != '-') {
        return None;
    }
    let sign: i32 = if v[0] == '+' {
        1
    } else {
        -1
    };
    let rest = slice_chars(&v, 1, v.len());
    assert(rest@ =~= v@.drop_first());
    let colon = chars_of(":");
    let (hours, minutes) = match split_once_chars(&rest, &colon) {
        Some((h, m)) => {
            let hv = match parse_i32_chars(&h) {
                Some(x) => x,
                None => {
                    return None;
                },
            };
            let mv = match parse_i32_chars(&m) {
                Some(x) => x,
                None => {
                    return None;
                },
            };
            (hv, mv)
        },
        None => {
            let hv = match parse_i32_chars(&rest) {
                Some(x) => x,
                None => {
                    return None;
                },
            };
            (hv, 0i32)
        },
    };
    if !(0 <= hours && hours <= 23) || !(0 <= minutes && minutes <= 59) {
        return None;
    }
    Some(sign * (hours * 3600 + minutes * 60))
}

/// The offset of a `TZ` value in seconds: China's zones 8 hours, UTC 0, an explicit
/// `UTC±hh[:mm]` offset, and 0 for anything else.
pub open spec fn tz_offset_spec(tz: Seq<char>) -> int {
    let t = trim(tz);
    if eq_ignore_case(t, "Asia/Shanghai"@) || eq_ignore_case(t, "Asia/Chongqing"@) || eq_ignore_case(
        t,
        "Asia/Harbin"@,
    ) || eq_ignore_case(t, "Asia/Urumqi"@) || eq_ignore_case(t, "PRC"@) {
        28800
    } else if eq_ignore_case(t, "UTC"@) || eq_ignore_case(t, "Etc/UTC"@) || t == "Z"@ {
        0
    } else {
        match utc_offset_spec(t) {
            Some(x) => x,
            None => 0,
        }
    }
}

fn eq_ic_lit(v: &Vec<char>, lit: &str) -> (r: bool)
    ensures
        r == eq_ignore_case(v@, lit@),
{
    let l = chars_of(lit);
    chars_eq_ignore_case(v, &l)
}

pub fn tz_offset_seconds(tz: &str) -> (r: i32)
    ensures
        r as int == tz_offset_spec(tz@),
        -86400 < r < 86400,
{
    let t = trimmed(tz);
    if eq_ic_lit(&t, "Asia/Shanghai") || eq_ic_lit(&t, "Asia/Chongqing") || eq_ic_lit(&t, "Asia/Harbin")
        || eq_ic_lit(&t, "Asia/Urumqi") || eq_ic_lit(&t, "PRC") {
        return 28800;
    }
    if eq_ic_lit(&t, "UTC") || eq_ic_lit(&t, "Etc/UTC") || chars_eq_str(&t, "Z") {
        return 0;
    }
    let ts = string_of(&t);
    match parse_utc_offset(ts.as_str()) {
        Some(x) => x,
        None => 0,
    }
}

/// A media link the client can be sent to directly.
pub fn is_direct_url(value: &str) -> (r: bool)
    ensures
        r == (starts_with(value@, "http://"@) || starts_with(value@, "https://"@)),
{
    let v = chars_of(value);
    let a = chars_of("http://");
    let b = chars_of("https://");
    starts_with_chars(&v, &a) || starts_with_chars(&v, &b)
}

/// The extensions of static assets that are not logged.
pub open spec fn static_extension(ext: Seq<char>) -> bool {
    ext == "js"@ || ext == "css"@ || ext == "png"@ || ext == "jpg"@ || ext == "jpeg"@ || ext
        == "gif"@ || ext == "svg"@ || ext == "webp"@ || ext == "ico"@ || ext == "woff"@ || ext
        == "woff2"@ || ext == "map"@
}

/// A request worth logging: not the web client and not a static asset (by the text after the
/// last `.`), ignoring ASCII case.
pub open spec fn records_request_spec(path: Seq<char>) -> bool {
    let l = lower(path);
    !(starts_with(l, "/web/"@) || starts_with(l, "/emby/web/"@)) && !static_extension(
        split_char(l, '.').last(),
    )
}

pub fn should_record_general_request(path: &str) -> (r: bool)
    ensures
        r == records_request_spec(path@),
{
    let p = chars_of(path);
    let l = lower_chars(&p);
    let w1 = chars_of("/web/");
    let w2 = chars_of("/emby/web/");
    if starts_with_chars(&l, &w1) || starts_with_chars(&l, &w2) {
        return false;
    }
    let pieces = split_chars(&l, '.');
    let last = &pieces[pieces.len() - 1];
    assert(views(pieces@).last() == last@);
    !(chars_eq_str(last, "js") || chars_eq_str(last, "css") || chars_eq_str(last, "png")
        || chars_eq_str(last, "jpg") || chars_eq_str(last, "jpeg") || chars_eq_str(last, "gif")
        || chars_eq_str(last, "svg") || chars_eq_str(last, "webp") || chars_eq_str(last, "ico")
        || chars_eq_str(last, "woff") || chars_eq_str(last, "woff2") || chars_eq_str(last, "map"))
}

/// A cache lifetime as the log shows it: whole minutes as `Nm`, otherwise `Ns`.
pub open spec fn ttl_label(seconds: u64) -> Seq<char> {
    if seconds >= 60 && seconds % 60 == 0 {
        decimal((seconds / 60) as nat) + "m"@
    } else {
        decimal(seconds as nat) + "s"@
    }
}

pub fn cache_ttl_label(seconds: u64) -> (r: String)
    ensures
        r@ == ttl_label(seconds),
{
    if seconds >= 60 && seconds % 60 == 0 {
        let mut r = decimal_string(seconds / 60);
        r.append("m");
        r
    } else {
        let mut r = decimal_string(seconds);
        r.append("s");
        r
    }
}

/// The value of the first `name=value` part (split at `,`, trimmed) whose name is `key`
/// ignoring ASCII case, trimmed and without surrounding double quotes; `None` when no part
/// names the key or the value is empty.
pub open spec fn auth_value_from(parts: Seq<Seq<char>>, key: Seq<char>, i: int) -> Option<Seq<char>>
    decreases parts.len() - i,
{
    if i < 0 || i >= parts.len() {
        None
    } else {
        match split_once(trim(parts[i]), "="@) {
            Some((name, value)) => if eq_ignore_case(trim(name), key) {
                let v = trim_char(trim(value), '"');
                if v.len() > 0 {
                    Some(v)
                } else {
                    None
                }
            } else {
                auth_value_from(parts, key, i + 1)
            },
            None => auth_value_from(parts, key, i + 1),
        }
    }
}

/// A field of a `MediaBrowser` authorization value, such as its token or device.
pub fn media_browser_auth_value(value: &str, key: &str) -> (r: Option<String>)
    ensures
        match r {
            Some(s) => auth_value_from(split_char(value@, ','), key@, 0) == Some(s@),
            None => auth_value_from(split_char(value@, ','), key@, 0) is None,
        },
{
    let v = chars_of(value);
    let k = chars_of(key);
    let parts = split_chars(&v, ',');
    let ghost pv = views(parts@);
    let eq = chars_of("=");
    let mut i: usize = 0;
    while i < parts.len()
        invariant
            i <= parts@.len(),
            pv == views(parts@),
            pv == split_char(value@, ','),
            k@ == key@,
            eq@ == "="@,
            auth_value_from(pv, key@, 0) == auth_value_from(pv, key@, i as int),
        decreases parts@.len() - i,
    {
        assert(pv[i as int] == parts@[i as int]@);
        let part = trim_chars(&parts[i]);
        match split_once_chars(&part, &eq) {
            Some((name, val)) => {
                let n = trim_chars(&name);
                if chars_eq_ignore_case(&n, &k) {
                    let tv = trim_chars(&val);
                    let out = trim_char_chars(&tv, '"');
                    if out.len() > 0 {
                        return Some(string_of(&out));
                    } else {
                        return None;
                    }
                }
            },
            None => {},
        }
        i = i + 1;
    }
    None
}

/// The scan of a wildcard pattern's pieces from `i` on over what is left of the value: every
/// non-empty piece must occur, the first one at the start unless the pattern starts with `*`.
pub open spec fn wild_scan(
    parts: Seq<Seq<char>>,
    i: int,
    remaining: Seq<char>,
    anchored: bool,
) -> bool
    decreases parts.len() - i,
{
    if i < 0 || i >= parts.len() {
        true
    } else if parts[i].len() == 0 {
        wild_scan(parts, i + 1, remaining, anchored)
    } else {
        match find(remaining, parts[i]) {
            None => false,
            Some(pos) => if i == 0 && anchored && pos != 0 {
                false
            } else {
                wild_scan(
                    parts,
                    i + 1,
                    remaining.subrange(pos + parts[i].len(), remaining.len() as int),
                    anchored,
                )
            },
        }
    }
}

/// Whether `value` matches a pattern with `*` wildcards, as the cache domain filter reads it.
pub open spec fn wildcard_spec(value: Seq<char>, pattern: Seq<char>) -> bool {
    let parts = split_char(pattern, '*');
    if parts.len() == 1 {
        value == pattern
    } else {
        wild_scan(parts, 0, value, !starts_with(pattern, "*"@)) && (ends_with(pattern, "*"@)
            || ends_with(value, parts.last()))
    }
}

pub fn wildcard_match(value: &str, pattern: &str) -> (r: bool)
    ensures
        r == wildcard_spec(value@, pattern@),
{
    proof {
        reveal_strlit("*");
    }
    let v = chars_of(value);
    let p = chars_of(pattern);
    let parts = split_chars(&p, '*');
    let ghost pv = views(parts@);
    if parts.len() == 1 {
        return chars_eq(&v, &p);
    }
    let star = chars_of("*");
    let anchored = !starts_with_chars(&p, &star);
    let mut remaining = slice_chars(&v, 0, v.len());
    assert(v@.subrange(0, v@.len() as int) =~= v@);
    let mut i: usize = 0;
    while i < parts.len()
        invariant
            i <= parts@.len(),
            pv == views(parts@),
            pv == split_char(pattern@, '*'),
            pv.len() != 1,
            anchored == !starts_with(pattern@, "*"@),
            wild_scan(pv, 0, value@, anchored) == wild_scan(pv, i as int, remaining@, anchored),
        decreases parts@.len() - i,
    {
        assert(pv[i as int] == parts@[i as int]@);
        let part = &parts[i];
        if part.len() > 0 {
            match find_chars(&remaining, part) {
                None => {
                    return false;
                },
                Some(pos) => {
                    if i == 0 && anchored && pos != 0 {
                        return false;
                    }
                    proof {
                        crate::text::lemma_first_occurrence(remaining@, part@, 0);
                    }
                    assert(crate::text::occurs_at(remaining@, part@, pos as int));
                    let plen = part.len();
                    let rlen = remaining.len();
                    assert(pos + plen <= rlen);
                    let end = pos + plen;
                    remaining = slice_chars(&remaining, end, rlen);
                },
            }
        }
        i = i + 1;
    }
    let last = &parts[parts.len() - 1];
    assert(pv.last() == last@);
    ends_with_chars(&p, &star) || ends_with_chars(&v, last)
}

/// A host matches a cache filter pattern: by wildcard when the pattern has `*`, otherwise by
/// containing it.
pub fn domain_filter_matches(host: &str, pattern: &str) -> (r: bool)
    ensures
        r == if contains(pattern@, "*"@) {
            wildcard_spec(host@, pattern@)
        } else {
            contains(host@, pattern@)
        },
{
    let p = chars_of(pattern);
    let star = chars_of("*");
    if contains_chars(&p, &star) {
        wildcard_match(host, pattern)
    } else {
        let h = chars_of(host);
        contains_chars(&h, &p)
    }
}

/// The value of the first pair from index `i` on whose name is `key`, ignoring ASCII case.
pub open spec fn param_from(ps: Seq<(Seq<char>, Seq<char>)>, key: Seq<char>, i: int) -> Option<
    Seq<char>,
>
    decreases ps.len() - i,
{
    if i < 0 || i >= ps.len() {
        None
    } else if eq_ignore_case(ps[i].0, key) {
        Some(ps[i].1)
    } else {
        param_from(ps, key, i + 1)
    }
}

/// The value of the first pair named `key`, ignoring ASCII case.
pub fn param_in_pairs(pairs: &Vec<(String, String)>, key: &str) -> (r: Option<String>)
    ensures
        opt_string_view(r) == param_from(pair_views(pairs@), key@, 0),
{
    let k = chars_of(key);
    let ghost pv = pair_views(pairs@);
    let mut i: usize = 0;
    while i < pairs.len()
        invariant
            i <= pairs@.len(),
            pv == pair_views(pairs@),
            k@ == key@,
            param_from(pv, key@, 0) == param_from(pv, key@, i as int),
        decreases pairs@.len() - i,
    {
        let name = chars_of(pairs[i].0.as_str());
        assert(pv[i as int] == (pairs@[i as int].0@, pairs@[i as int].1@));
        if chars_eq_ignore_case(&name, &k) {
            return Some(pairs[i].1.clone());
        }
        i = i + 1;
    }
    None
}

/// The value of the first query parameter named `key`, ignoring ASCII case (the query read
/// as `form_urlencoded` pairs).
pub fn query_param(query: &str, key: &str) -> (r: Option<String>)
    ensures
        opt_string_view(r) == param_from(form_pairs_of(query@), key@, 0),
{
    let pairs = form_pairs(query);
    param_in_pairs(&pairs, key)
}

/// A cache filter entry: the host of the line when it parses as a URL, else the line, in
/// ASCII lower case.
pub open spec fn filter_entry_spec(line: Seq<char>, host: Option<Seq<char>>) -> Seq<char> {
    lower(
        match host {
            Some(h) => h,
            None => line,
        },
    )
}

/// The entries of the non-blank lines, each trimmed (see [`filter_entry_spec`]).
pub open spec fn filter_entries_from(ls: Seq<Seq<char>>) -> Seq<Seq<char>>
    decreases ls.len(),
{
    if ls.len() == 0 {
        seq![]
    } else {
        let t = trim(ls.last());
        let rest = filter_entries_from(ls.drop_last());
        if t.len() == 0 {
            rest
        } else {
            rest.push(filter_entry_spec(t, url_host_of(t)))
        }
    }
}

/// One cache filter entry from a trimmed line and the host it has as a URL.
pub fn filter_entry(line: &str, host: Option<String>) -> (r: String)
    ensures
        r@ == filter_entry_spec(line@, opt_string_view(host)),
{
    let src = match host {
        Some(h) => chars_of(h.as_str()),
        None => chars_of(line),
    };
    string_of(&lower_chars(&src))
}

/// The entries of a cache domain filter, one per non-blank line.
pub fn cache_filter_entries(value: &str) -> (r: Vec<String>)
    ensures
        string_views(r@) == filter_entries_from(lines(value@)),
{
    let v = chars_of(value);
    let ls = lines_chars(&v);
    let ghost lv = views(ls@);
    let mut out: Vec<String> = Vec::new();
    let mut i: usize = 0;
    assert(lv.take(0) =~= Seq::<Seq<char>>::empty());
    assert(string_views(out@) =~= Seq::<Seq<char>>::empty());
    while i < ls.len()
        invariant
            i <= ls@.len(),
            lv == views(ls@),
            lv == lines(value@),
            string_views(out@) == filter_entries_from(lv.take(i as int)),
        decreases ls@.len() - i,
    {
        assert(lv.take(i + 1).drop_last() =~= lv.take(i as int));
        assert(lv.take(i + 1).last() == ls@[i as int]@);
        let t = trim_chars(&ls[i]);
        if t.len() > 0 {
            let ts = string_of(&t);
            let host = url_host(ts.as_str());
            let e = filter_entry(ts.as_str(), host);
            let ghost before = string_views(out@);
            out.push(e);
            assert(string_views(out@) =~= before.push(e@));
        }
        i = i + 1;
    }
    assert(lv.take(lv.len() as int) =~= lv);
    out
}

/// A host matches a cache filter pattern (see [`domain_filter_matches`]).
pub open spec fn domain_match_spec(host: Seq<char>, pattern: Seq<char>) -> bool {
    if contains(pattern, "*"@) {
        wildcard_spec(host, pattern)
    } else {
        contains(host, pattern)
    }
}

/// Some pattern matches the host.
pub open spec fn any_match(host: Seq<char>, patterns: Seq<Seq<char>>) -> bool {
    exists|i: int| 0 <= i < patterns.len() && domain_match_spec(host, #[trigger] patterns[i])
}

fn any_domain_match(host: &str, patterns: &Vec<String>) -> (r: bool)
    ensures
        r == any_match(host@, string_views(patterns@)),
{
    let ghost pv = string_views(patterns@);
    let mut i: usize = 0;
    while i < patterns.len()
        invariant
            i <= patterns@.len(),
            pv == string_views(patterns@),
            forall|k: int| 0 <= k < i ==> !domain_match_spec(host@, #[trigger] pv[k]),
        decreases patterns@.len() - i,
    {
        assert(pv[i as int] == patterns@[i as int]@);
        if domain_filter_matches(host, patterns[i].as_str()) {
            return true;
        }
        i = i + 1;
    }
    false
}

/// Whether a direct link is cached, given the link's host: caching is on (a positive
/// lifetime) and there is a host, which passes the domain filter. In `whitelist` mode some
/// entry must match it (an empty list caches nothing), in `blacklist` mode none may, in any
/// other mode every host passes. The host is compared in ASCII lower case.
pub open spec fn cache_decision_spec(
    ttl_seconds: u64,
    mode: Seq<char>,
    entries: Seq<Seq<char>>,
    host: Option<Seq<char>>,
) -> bool {
    if ttl_seconds == 0 {
        false
    } else {
        match host {
            None => false,
            Some(h) => if mode == "whitelist"@ {
                entries.len() > 0 && any_match(lower(h), entries)
            } else if mode == "blacklist"@ {
                !any_match(lower(h), entries)
            } else {
                true
            },
        }
    }
}

/// The cache decision for a link whose host is known (see [`cache_decision_spec`]).
pub fn cache_decision(ttl_seconds: u64, mode: &str, entries: &Vec<String>, host: Option<String>) -> (r:
    bool)
    ensures
        r == cache_decision_spec(ttl_seconds, mode@, string_views(entries@), opt_string_view(host)),
{
    if ttl_seconds == 0 {
        return false;
    }
    let h = match host {
        Some(h) => h,
        None => {
            return false;
        },
    };
    let hv = chars_of(h.as_str());
    let lh = string_of(&lower_chars(&hv));
    if str_eq(mode, "whitelist") {
        entries.len() > 0 && any_domain_match(lh.as_str(), entries)
    } else if str_eq(mode, "blacklist") {
        !any_domain_match(lh.as_str(), entries)
    } else {
        true
    }
}

/// Whether the direct link a playback is redirected to is cached, by the configuration's
/// cache lifetime and domain filter and the host of the link as a URL.
pub fn should_cache_direct_link(config: &Config, redirect_url: &str) -> (r: bool)
    ensures
        r == cache_decision_spec(
            config.cache_ttl_seconds,
            config.cache_domain_filter_mode@,
            filter_entries_from(lines(config.cache_domain_whitelist@)),
            url_host_of(redirect_url@),
        ),
{
    if config.cache_ttl_seconds == 0 {
        return false;
    }
    let host = url_host(redirect_url);
    let entries = cache_filter_entries(config.cache_domain_whitelist.as_str());
    cache_decision(config.cache_ttl_seconds, config.cache_domain_filter_mode.as_str(), &entries, host)
}

/// The log message of a playback redirect, with the cache lifetime when the link is cached.
pub fn redirect_log_message(config: &Config, should_cache: bool) -> (r: String)
    ensures
        r@ == if !should_cache {
            "重定向 strm"@
        } else {
            "重定向 strm(缓存"@ + ttl_label(config.cache_ttl_seconds) + ")"@
        },
{
    if !should_cache {
        String::from_str("重定向 strm")
    } else {
        let mut m = String::from_str("重定向 strm(缓存");
        let l = cache_ttl_label(config.cache_ttl_seconds);
        m.append(l.as_str());
        m.append(")");
        m
    }
}

/// The id and name the log shows for a configuration: those of its first server, else
/// `default` and the default server's name.
pub fn config_server_label(config: &Config) -> (r: (String, String))
    ensures
        config.servers@.len() > 0 ==> r.0@ == config.servers@[0].id@ && r.1@
            == config.servers@[0].name@,
        config.servers@.len() == 0 ==> r.0@ == "default"@ && r.1@ == "默认服务器"@,
{
    if config.servers.len() > 0 {
        (config.servers[0].id.clone(), config.servers[0].name.clone())
    } else {
        (String::from_str("default"), String::from_str("默认服务器"))
    }
}

/// The id of a configuration's first server, `default` without one.
pub open spec fn first_server_id(config: Config) -> Seq<char> {
    if config.servers@.len() > 0 {
        config.servers@[0].id@
    } else {
        "default"@
    }
}

/// The key under which a device's playback user is remembered: the server's id, `:`, and
/// the trimmed device id.
pub fn playback_user_key(config: &Config, device_id: &str) -> (r: String)
    ensures
        r@ == first_server_id(*config) + ":"@ + trim(device_id@),
{
    let mut k = if config.servers.len() > 0 {
        config.servers[0].id.clone()
    } else {
        String::from_str("default")
    };
    k.append(":");
    let d = string_of(&trimmed(device_id));
    k.append(d.as_str());
    k
}

/// A header's text trimmed; `None` when it is missing or blank.
pub open spec fn header_spec(raw: Option<Seq<char>>) -> Option<Seq<char>> {
    match raw {
        Some(v) => if trim(v).len() > 0 {
            Some(trim(v))
        } else {
            None
        },
        None => None,
    }
}

/// The trimmed text of a header, `None` when it is missing or blank.
pub fn header_value(raw: Option<&str>) -> (r: Option<String>)
    ensures
        opt_string_view(r) == header_spec(opt_str_view(raw)),
{
    match raw {
        Some(v) => {
            let t = trimmed(v);
            if t.len() > 0 {
                Some(string_of(&t))
            } else {
                None
            }
        },
        None => None,
    }
}

/// `Some` only of a non-empty text.
pub open spec fn non_empty(o: Option<Seq<char>>) -> Option<Seq<char>> {
    match o {
        Some(t) => if t.len() > 0 {
            Some(t)
        } else {
            None
        },
        None => None,
    }
}

/// The token of the first part from `i` on (parts trimmed) that starts with `Token=` or
/// `token=`: the rest without surrounding double quotes, trimmed.
pub open spec fn token_from(parts: Seq<Seq<char>>, i: int) -> Option<Seq<char>>
    decreases parts.len() - i,
{
    if i < 0 || i >= parts.len() {
        None
    } else {
        let p = trim(parts[i]);
        if starts_with(p, "Token="@) {
            Some(trim(trim_char(p.skip("Token="@.len() as int), '"')))
        } else if starts_with(p, "token="@) {
            Some(trim(trim_char(p.skip("token="@.len() as int), '"')))
        } else {
            token_from(parts, i + 1)
        }
    }
}

/// The token of an `Authorization` value: after `Bearer `, or the first `Token=` part of a
/// `MediaBrowser` value; `None` when it is empty.
pub open spec fn auth_token_spec(value: Seq<char>) -> Option<Seq<char>> {
    if starts_with(value, "Bearer "@) {
        non_empty(Some(trim(value.skip("Bearer "@.len() as int))))
    } else {
        non_empty(token_from(split_char(value, ','), 0))
    }
}

fn token_of_parts(value: &Vec<char>) -> (r: Option<Vec<char>>)
    ensures
        match r {
            Some(t) => token_from(split_char(value@, ','), 0) == Some(t@),
            None => token_from(split_char(value@, ','), 0) is None,
        },
{
    let parts = split_chars(value, ',');
    let ghost pv = views(parts@);
    let upper_pre = chars_of("Token=");
    let lower_pre = chars_of("token=");
    let mut i: usize = 0;
    while i < parts.len()
        invariant
            i <= parts@.len(),
            pv == views(parts@),
            pv == split_char(value@, ','),
            upper_pre@ == "Token="@,
            lower_pre@ == "token="@,
            token_from(pv, 0) == token_from(pv, i as int),
        decreases parts@.len() - i,
    {
        assert(pv[i as int] == parts@[i as int]@);
        let p = trim_chars(&parts[i]);
        if starts_with_chars(&p, &upper_pre) {
            let rest = slice_chars(&p, upper_pre.len(), p.len());
            assert(rest@ =~= p@.skip("Token="@.len() as int));
            let unq = trim_char_chars(&rest, '"');
            return Some(trim_chars(&unq));
        }
        if starts_with_chars(&p, &lower_pre) {
            let rest = slice_chars(&p, lower_pre.len(), p.len());
            assert(rest@ =~= p@.skip("token="@.len() as int));
            let unq = trim_char_chars(&rest, '"');
            return Some(trim_chars(&unq));
        }
        i = i + 1;
    }
    None
}

/// The Emby token of an `Authorization` header (see [`auth_token_spec`]).
pub fn emby_token_from_authorization(authorization: Option<&str>) -> (r: Option<String>)
    ensures
        opt_string_view(r) == match header_spec(opt_str_view(authorization)) {
            Some(v) => auth_token_spec(v),
            None => None,
        },
{
    let value = match header_value(authorization) {
        Some(v) => v,
        None => {
            return None;
        },
    };
    let v = chars_of(value.as_str());
    let bearer = chars_of("Bearer ");
    let token = if starts_with_chars(&v, &bearer) {
        let rest = slice_chars(&v, bearer.len(), v.len());
        assert(rest@ =~= v@.skip("Bearer "@.len() as int));
        Some(trim_chars(&rest))
    } else {
        token_of_parts(&v)
    };
    match token {
        Some(t) => if t.len() > 0 {
            Some(string_of(&t))
        } else {
            None
        },
        None => None,
    }
}

/// A field of the first `MediaBrowser` authorization header that has it: `X-Emby-Authorization`
/// before `X-MediaBrowser-Authorization` (see [`auth_value_from`]).
pub open spec fn authorization_value_spec(
    x_emby: Option<Seq<char>>,
    x_media_browser: Option<Seq<char>>,
    key: Seq<char>,
) -> Option<Seq<char>> {
    let a = match header_spec(x_emby) {
        Some(v) => auth_value_from(split_char(v, ','), key, 0),
        None => None,
    };
    if a is Some {
        a
    } else {
        match header_spec(x_media_browser) {
            Some(v) => auth_value_from(split_char(v, ','), key, 0),
            None => None,
        }
    }
}

/// A field of the request's `MediaBrowser` authorization headers, given their texts.
pub fn emby_authorization_value(x_emby: Option<&str>, x_media_browser: Option<&str>, key: &str) -> (r:
    Option<String>)
    ensures
        opt_string_view(r) == authorization_value_spec(
            opt_str_view(x_emby),
            opt_str_view(x_media_browser),
            key@,
        ),
{
    match header_value(x_emby) {
        Some(v) => match media_browser_auth_value(v.as_str(), key) {
            Some(found) => {
                return Some(found);
            },
            None => {},
        },
        None => {},
    }
    match header_value(x_media_browser) {
        Some(v) => media_browser_auth_value(v.as_str(), key),
        None => None,
    }
}

/// The first of three optional texts that is present.
pub open spec fn first_of(a: Option<Seq<char>>, b: Option<Seq<char>>, c: Option<Seq<char>>) -> Option<
    Seq<char>,
> {
    if a is Some {
        a
    } else if b is Some {
        b
    } else {
        c
    }
}

/// The device of a playback: the query's `DeviceId`, else the `X-Emby-Device-Id` header,
/// else the authorization headers' `DeviceId`.
pub fn playback_device_id(
    query: &str,
    device_header: Option<&str>,
    x_emby: Option<&str>,
    x_media_browser: Option<&str>,
) -> (r: Option<String>)
    ensures
        opt_string_view(r) == first_of(
            param_from(form_pairs_of(query@), "DeviceId"@, 0),
            header_spec(opt_str_view(device_header)),
            authorization_value_spec(
                opt_str_view(x_emby),
                opt_str_view(x_media_browser),
                "DeviceId"@,
            ),
        ),
{
    match query_param(query, "DeviceId") {
        Some(d) => {
            return Some(d);
        },
        None => {},
    }
    match header_value(device_header) {
        Some(d) => {
            return Some(d);
        },
        None => {},
    }
    emby_authorization_value(x_emby, x_media_browser, "DeviceId")
}

/// A pair to add to a query: only when the query lacks the name and there is a value.
pub open spec fn extra_pair(name: Seq<char>, present: bool, value: Option<Seq<char>>) -> Seq<
    (Seq<char>, Seq<char>),
> {
    if !present && value is Some {
        seq![(name, value->0)]
    } else {
        seq![]
    }
}

/// The pairs of a stream query: the request's pairs, then `UserId` and `DeviceId` from the
/// headers where the query lacks them.
pub open spec fn stream_pairs_spec(
    pairs: Seq<(Seq<char>, Seq<char>)>,
    user: Option<Seq<char>>,
    device: Option<Seq<char>>,
) -> Seq<(Seq<char>, Seq<char>)> {
    pairs + extra_pair("UserId"@, param_from(pairs, "UserId"@, 0) is Some, user) + extra_pair(
        "DeviceId"@,
        param_from(pairs, "DeviceId"@, 0) is Some,
        device,
    )
}

/// The pairs of a stream query, given the request's pairs and the user and device its headers
/// name (see [`stream_pairs_spec`]).
pub fn stream_query_pairs(
    pairs: Vec<(String, String)>,
    user: Option<String>,
    device: Option<String>,
) -> (r: Vec<(String, String)>)
    ensures
        pair_views(r@) == stream_pairs_spec(
            pair_views(pairs@),
            opt_string_view(user),
            opt_string_view(device),
        ),
{
    let has_user = param_in_pairs(&pairs, "UserId").is_some();
    let has_device = param_in_pairs(&pairs, "DeviceId").is_some();
    let ghost pv = pair_views(pairs@);
    let mut out = pairs;
    let ghost mid = pv;
    match user {
        Some(u) => if !has_user {
            out.push((String::from_str("UserId"), u));
            proof {
                assert(pair_views(out@) =~= mid + seq![("UserId"@, u@)]);
            }
        } else {
            assert(pair_views(out@) =~= mid + seq![]);
        },
        None => {
            assert(pair_views(out@) =~= mid + seq![]);
        },
    }
    let ghost mid2 = pair_views(out@);
    match device {
        Some(d) => if !has_device {
            out.push((String::from_str("DeviceId"), d));
            proof {
                assert(pair_views(out@) =~= mid2 + seq![("DeviceId"@, d@)]);
            }
        } else {
            assert(pair_views(out@) =~= mid2 + seq![]);
        },
        None => {
            assert(pair_views(out@) =~= mid2 + seq![]);
        },
    }
    out
}

/// The user a playback's headers name: `X-Emby-User-Id`, else the authorization headers'
/// `UserId`.
pub open spec fn header_user_spec(
    user_header: Option<Seq<char>>,
    x_emby: Option<Seq<char>>,
    x_media_browser: Option<Seq<char>>,
) -> Option<Seq<char>> {
    let h = header_spec(user_header);
    if h is Some {
        h
    } else {
        authorization_value_spec(x_emby, x_media_browser, "UserId"@)
    }
}

/// The device a playback's headers name: `X-Emby-Device-Id`, else the authorization headers'
/// `DeviceId`.
pub open spec fn header_device_spec(
    device_header: Option<Seq<char>>,
    x_emby: Option<Seq<char>>,
    x_media_browser: Option<Seq<char>>,
) -> Option<Seq<char>> {
    let h = header_spec(device_header);
    if h is Some {
        h
    } else {
        authorization_value_spec(x_emby, x_media_browser, "DeviceId"@)
    }
}

/// The query a stream request is sent upstream with: the request's pairs re-encoded, with
/// `UserId` and `DeviceId` added from the headers where the query lacks them; `None` when
/// it is empty.
pub fn playback_stream_query(
    query: &str,
    user_header: Option<&str>,
    device_header: Option<&str>,
    x_emby: Option<&str>,
    x_media_browser: Option<&str>,
) -> (r: Option<String>)
    ensures
        ({
            let e = form_encoded_of(
                stream_pairs_spec(
                    form_pairs_of(query@),
                    header_user_spec(
                        opt_str_view(user_header),
                        opt_str_view(x_emby),
                        opt_str_view(x_media_browser),
                    ),
                    header_device_spec(
                        opt_str_view(device_header),
                        opt_str_view(x_emby),
                        opt_str_view(x_media_browser),
                    ),
                ),
            );
            opt_string_view(r) == if e.len() == 0 {
                None
            } else {
                Some(e)
            }
        }),
{
    let pairs = form_pairs(query);
    let user = match header_value(user_header) {
        Some(u) => Some(u),
        None => emby_authorization_value(x_emby, x_media_browser, "UserId"),
    };
    let device = match header_value(device_header) {
        Some(d) => Some(d),
        None => emby_authorization_value(x_emby, x_media_browser, "DeviceId"),
    };
    let all = stream_query_pairs(pairs, user, device);
    let encoded = form_encode(&all);
    if encoded.as_str().is_empty() {
        None
    } else {
        Some(encoded)
    }
}

/// The first value of a forwarded header (before any `,`), trimmed; `None` when missing or
/// blank.
pub open spec fn forwarded_spec(raw: Option<Seq<char>>) -> Option<Seq<char>> {
    match raw {
        Some(v) => non_empty(Some(trim(split_char(v, ',')[0]))),
        None => None,
    }
}

/// The first value of a forwarded header.
pub fn forwarded_header_value(raw: Option<&str>) -> (r: Option<String>)
    ensures
        opt_string_view(r) == forwarded_spec(opt_str_view(raw)),
{
    match raw {
        Some(v) => {
            let cv = chars_of(v);
            let parts = split_chars(&cv, ',');
            assert(views(parts@)[0] == parts@[0]@);
            let t = trim_chars(&parts[0]);
            if t.len() > 0 {
                Some(string_of(&t))
            } else {
                None
            }
        },
        None => None,
    }
}

/// The address clients reach the proxy at: `X-Forwarded-Proto` (else `http`), `://`, and
/// `X-Forwarded-Host`, else `Host`, else `127.0.0.1` on the fallback port.
pub open spec fn base_url_spec(
    forwarded_proto: Option<Seq<char>>,
    forwarded_host: Option<Seq<char>>,
    host: Option<Seq<char>>,
    fallback_port: u16,
) -> Seq<char> {
    let proto = match forwarded_spec(forwarded_proto) {
        Some(p) => p,
        None => "http"@,
    };
    let h = match forwarded_spec(forwarded_host) {
        Some(x) => x,
        None => match forwarded_spec(host) {
            Some(x) => x,
            None => "127.0.0.1:"@ + decimal(fallback_port as nat),
        },
    };
    proto + "://"@ + h
}

/// The address clients reach the proxy at, given the request's forwarding headers.
pub fn proxy_base_url(
    forwarded_proto: Option<&str>,
    forwarded_host: Option<&str>,
    host: Option<&str>,
    fallback_port: u16,
) -> (r: String)
    ensures
        r@ == base_url_spec(
            opt_str_view(forwarded_proto),
            opt_str_view(forwarded_host),
            opt_str_view(host),
            fallback_port,
        ),
{
    let mut out = match forwarded_header_value(forwarded_proto) {
        Some(p) => p,
        None => String::from_str("http"),
    };
    out.append("://");
    let h = match forwarded_header_value(forwarded_host) {
        Some(x) => x,
        None => match forwarded_header_value(host) {
            Some(x) => x,
            None => {
                let mut d = String::from_str("127.0.0.1:");
                let p = decimal_string(fallback_port as u64);
                d.append(p.as_str());
                d
            },
        },
    };
    out.append(h.as_str());
    out
}

/// A `.strm` link after the configuration's rewrite rules.
pub fn apply_strm_url_mappings(config: &Config, media_path: &str) -> (r: String)
    ensures
        r@ == applied(media_path@, rule_texts(config.strm_url_mapping_rules@)),
{
    apply_rules(media_path, config.strm_url_mapping_rules.as_slice())
}


/// Where a video stream request goes once its media path is known.
#[derive(Debug)]
pub enum MediaRoute {
    /// Redirect the client to the media path itself.
    Redirect,
    /// Ask OpenList for a download link of this storage path.
    OpenList(String),
    /// Hand the request to Emby.
    ProxyToEmby,
}

/// The route of a media path (after the `.strm` mappings): an OpenList `/d/` link goes
/// through OpenList when OpenList is configured; otherwise a direct `http://` or `https://`
/// link is followed as it is; anything else is proxied to Emby.
pub fn media_route(config: &Config, media_path: &str) -> (r: MediaRoute)
    ensures
        config.openlist_addr is Some && crate::openlist::openlist_path_spec(media_path@) is Some ==> (
        r matches MediaRoute::OpenList(q) && q@ == crate::openlist::openlist_path_spec(media_path@)->0),
        !(config.openlist_addr is Some && crate::openlist::openlist_path_spec(media_path@) is Some)
            && (starts_with(media_path@, "http://"@) || starts_with(media_path@, "https://"@)) ==> r is Redirect,
        !(config.openlist_addr is Some && crate::openlist::openlist_path_spec(media_path@) is Some)
            && !(starts_with(media_path@, "http://"@) || starts_with(media_path@, "https://"@)) ==> r is ProxyToEmby,
{
    if config.openlist_addr.is_some() {
        match crate::openlist::extract_openlist_path(media_path) {
            Some(p) => {
                return MediaRoute::OpenList(p);
            },
            None => {},
        }
    }
    if is_direct_url(media_path) {
        MediaRoute::Redirect
    } else {
        MediaRoute::ProxyToEmby
    }
}

/// The key a stream's direct link is cached under: the proxy's server id (`default` without
/// one), `:`, and the item's key (see [`crate::openlist::cache_key`]).
pub fn stream_cache_key(
    proxy_server_id: Option<&str>,
    item_id: &str,
    media_source_id: Option<&str>,
    user_agent: &str,
) -> (r: String)
    ensures
        r@ == match proxy_server_id {
            Some(s) => s@,
            None => "default"@,
        } + ":"@ + item_id@ + ":"@ + match media_source_id {
            Some(s) => s@,
            None => "default"@,
        } + ":"@ + user_agent@,
{
    let mut r = match proxy_server_id {
        Some(s) => String::from_str(s),
        None => String::from_str("default"),
    };
    r.append(":");
    let k = crate::openlist::cache_key(item_id, media_source_id, user_agent);
    r.append(k.as_str());
    proof {
        assert(r@ =~= match proxy_server_id {
            Some(s) => s@,
            None => "default"@,
        } + ":"@ + item_id@ + ":"@ + match media_source_id {
            Some(s) => s@,
            None => "default"@,
        } + ":"@ + user_agent@);
    }
    r
}


/// The user a stream request names itself: the query's `UserName` when it is not blank.
pub fn explicit_playback_user(query: &str) -> (r: Option<String>)
    ensures
        opt_string_view(r) == match param_from(form_pairs_of(query@), "UserName"@, 0) {
            Some(v) => if trim(v).len() > 0 {
                Some(v)
            } else {
                None
            },
            None => None,
        },
{
    match query_param(query, "UserName") {
        Some(v) => {
            let t = trimmed(v.as_str());
            if t.len() > 0 {
                Some(v)
            } else {
                None
            }
        },
        None => None,
    }
}

/// The Emby user id a request carries: the query's `UserId`, else the `X-Emby-User-Id`
/// header, else the authorization headers' `UserId`.
pub fn playback_user_id(
    query: &str,
    user_id_header: Option<&str>,
    x_emby: Option<&str>,
    x_media_browser: Option<&str>,
) -> (r: Option<String>)
    ensures
        opt_string_view(r) == first_of(
            param_from(form_pairs_of(query@), "UserId"@, 0),
            header_spec(opt_str_view(user_id_header)),
            authorization_value_spec(opt_str_view(x_emby), opt_str_view(x_media_browser), "UserId"@),
        ),
{
    match query_param(query, "UserId") {
        Some(u) => {
            return Some(u);
        },
        None => {},
    }
    match header_value(user_id_header) {
        Some(u) => {
            return Some(u);
        },
        None => {},
    }
    emby_authorization_value(x_emby, x_media_browser, "UserId")
}

/// The first token source of a request that has one: the query's `X-Emby-Token`, its
/// `api_key`, the `X-Emby-Token` header, the `X-MediaBrowser-Token` header, the
/// authorization headers' `Token`, the `Authorization` header.
pub open spec fn token_source_spec(
    query: Seq<char>,
    emby_token: Option<Seq<char>>,
    media_browser_token: Option<Seq<char>>,
    x_emby: Option<Seq<char>>,
    x_media_browser: Option<Seq<char>>,
    authorization: Option<Seq<char>>,
) -> Option<Seq<char>> {
    first_of(
        param_from(form_pairs_of(query), "X-Emby-Token"@, 0),
        param_from(form_pairs_of(query), "api_key"@, 0),
        first_of(
            header_spec(emby_token),
            header_spec(media_browser_token),
            first_of(
                authorization_value_spec(x_emby, x_media_browser, "Token"@),
                match header_spec(authorization) {
                    Some(v) => auth_token_spec(v),
                    None => None,
                },
                None,
            ),
        ),
    )
}

/// The token by which a stream request's user is looked up: the first token source,
/// trimmed; none when that is empty or is the server's own API key.
pub fn playback_token(
    api_key: &str,
    query: &str,
    emby_token: Option<&str>,
    media_browser_token: Option<&str>,
    x_emby: Option<&str>,
    x_media_browser: Option<&str>,
    authorization: Option<&str>,
) -> (r: Option<String>)
    ensures
        opt_string_view(r) == match token_source_spec(
            query@,
            opt_str_view(emby_token),
            opt_str_view(media_browser_token),
            opt_str_view(x_emby),
            opt_str_view(x_media_browser),
            opt_str_view(authorization),
        ) {
            Some(t) => if trim(t).len() == 0 || trim(t) == api_key@ {
                None
            } else {
                Some(trim(t))
            },
            None => None,
        },
{
    let found = match query_param(query, "X-Emby-Token") {
        Some(t) => Some(t),
        None => match query_param(query, "api_key") {
            Some(t) => Some(t),
            None => match header_value(emby_token) {
                Some(t) => Some(t),
                None => match header_value(media_browser_token) {
                    Some(t) => Some(t),
                    None => match emby_authorization_value(x_emby, x_media_browser, "Token") {
                        Some(t) => Some(t),
                        None => emby_token_from_authorization(authorization),
                    },
                },
            },
        },
    };
    match found {
        None => None,
        Some(t) => {
            let tv = trimmed(t.as_str());
            let token = string_of(&tv);
            if tv.len() == 0 || str_eq(token.as_str(), api_key) {
                None
            } else {
                Some(token)
            }
        },
    }
}


/// Which handler a proxied request goes to.
#[derive(Debug, Clone, Copy, PartialEq, Eq, Structural)]
pub enum RequestHandler {
    BaseHtmlPlayer,
    SystemInfo,
    PlaybackInfo,
    VideoStream,
    Proxy,
}

/// The handler of a request path: the web player script, the server information, playback
/// information, a video stream (not for `HEAD`), in that order of precedence; anything else
/// is proxied as it is.
pub fn request_handler(path: &str, is_head: bool) -> (r: RequestHandler)
    ensures
        r == if ends_with(path@, "/basehtmlplayer.js"@) {
            RequestHandler::BaseHtmlPlayer
        } else if ends_with(lower(path@), "/system/info"@) {
            RequestHandler::SystemInfo
        } else if ends_with(lower(path@), "/playbackinfo"@) && contains(lower(path@), "/items/"@) {
            RequestHandler::PlaybackInfo
        } else if !is_head && contains(lower(path@), "/videos/"@) && (contains(lower(path@), "/stream"@)
            || contains(lower(path@), "/original"@)) {
            RequestHandler::VideoStream
        } else {
            RequestHandler::Proxy
        },
{
    if crate::rewrite::is_base_html_player(path) {
        RequestHandler::BaseHtmlPlayer
    } else if crate::rewrite::is_system_info(path) {
        RequestHandler::SystemInfo
    } else if crate::rewrite::is_playback_info(path) {
        RequestHandler::PlaybackInfo
    } else if !is_head && crate::rewrite::is_video_stream(path) {
        RequestHandler::VideoStream
    } else {
        RequestHandler::Proxy
    }
}

/// Requests for playback information and video streams go through client control (the
/// user-agent rules) before anything else.
pub fn guarded_by_client_control(path: &str) -> (r: bool)
    ensures
        r == ((ends_with(lower(path@), "/playbackinfo"@) && contains(lower(path@), "/items/"@)) || (
        contains(lower(path@), "/videos/"@) && (contains(lower(path@), "/stream"@) || contains(
            lower(path@),
            "/original"@,
        )))),
{
    crate::rewrite::is_playback_info(path) || crate::rewrite::is_video_stream(path)
}

/// The error of a request body that could not be read: a body over the limit (the reader's
/// message mentions `length limit`, ASCII case ignored) is too large; anything else is an
/// internal error with the reader's message.
pub fn body_read_error(message: &str) -> (r: AppError)
    ensures
        contains(lower(message@), "length limit"@) ==> (r matches AppError::PayloadTooLarge(m) && m@
            == "request body is too large"@),
        !contains(lower(message@), "length limit"@) ==> (r matches AppError::Internal(m) && m@
            == "failed to read request body: "@ + message@),
{
    let l = lower_chars(&chars_of(message));
    if crate::text::contains_chars(&l, &chars_of("length limit")) {
        AppError::PayloadTooLarge(String::from_str("request body is too large"))
    } else {
        let mut m = String::from_str("failed to read request body: ");
        m.append(message);
        AppError::Internal(m)
    }
}

/// The detail of a request logged by the proxy: the method and the path with its query.
pub fn request_detail(method: &str, path_and_query: &str) -> (r: String)
    ensures
        r@ == method@ + " "@ + path_and_query@,
{
    let mut r = String::from_str(method);
    r.append(" ");
    r.append(path_and_query);
    r
}

/// The detail of a request blocked by a user-agent rule.
pub fn blocked_request_detail(method: &str, path: &str) -> (r: String)
    ensures
        r@ == method@ + " "@ + path@ + " 命中 UA 拦截规则"@,
{
    let mut r = String::from_str(method);
    r.append(" ");
    r.append(path);
    r.append(" 命中 UA 拦截规则");
    r
}


/// The playback log message of a redirect to a cached direct link.
pub const CACHE_HIT_LOG_MESSAGE: &'static str = "直链缓存命中";

/// What a video stream request has learned at one of its steps, in the order they come.
#[derive(Debug)]
pub enum StreamEvent {
    /// Whether the path names an item.
    ItemParsed(bool),
    /// Whether the playback rate limit refused the request.
    RateChecked(bool),
    /// The direct link cached for the stream, if any.
    CacheLooked(Option<String>),
    /// The media source's path as Emby reports it, if the source was found.
    MediaPathRead(Option<String>),
}

/// What a video stream request does next.
#[derive(Debug)]
pub enum StreamStep {
    /// Answer 400.
    BadRequest,
    /// Check the playback rate limit.
    CheckRate,
    /// Answer 429.
    TooManyRequests,
    /// Look up the direct link cache.
    LookUpCache,
    /// Log the cache hit and redirect to the cached link.
    RedirectCached(String),
    /// Ask Emby for the media source's path.
    ReadMediaPath,
    /// Hand the request to Emby.
    ProxyToEmby,
    /// Follow the route of the media path after the `.strm` mappings.
    Route(MediaRoute),
}

/// The next step of a video stream request: a path without an item is a bad request; then
/// the rate limit is checked and a refused request answered 429; then a cached link that
/// may still be cached is redirected to at once; then the media source's path is read, a
/// missing source proxied to Emby, and a found one routed after the `.strm` mappings (see
/// [`media_route`]).
pub fn stream_next(config: &Config, event: StreamEvent) -> (r: StreamStep)
    ensures
        match event {
            StreamEvent::ItemParsed(found) => if found {
                r is CheckRate
            } else {
                r is BadRequest
            },
            StreamEvent::RateChecked(limited) => if limited {
                r is TooManyRequests
            } else {
                r is LookUpCache
            },
            StreamEvent::CacheLooked(cached) => match cached {
                Some(link) => if cache_decision_spec(
                    config.cache_ttl_seconds,
                    config.cache_domain_filter_mode@,
                    filter_entries_from(lines(config.cache_domain_whitelist@)),
                    url_host_of(link@),
                ) {
                    (r matches StreamStep::RedirectCached(l) && l@ == link@)
                } else {
                    r is ReadMediaPath
                },
                None => r is ReadMediaPath,
            },
            StreamEvent::MediaPathRead(path) => match path {
                None => r is ProxyToEmby,
                Some(p) => (r matches StreamStep::Route(route) && {
                    let mapped = applied(p@, rule_texts(config.strm_url_mapping_rules@));
                    let direct = starts_with(mapped, "http://"@) || starts_with(mapped, "https://"@);
                    let through_openlist = config.openlist_addr is Some
                        && crate::openlist::openlist_path_spec(mapped) is Some;
                    if through_openlist {
                        (route matches MediaRoute::OpenList(q) && q@ == crate::openlist::openlist_path_spec(mapped)->0)
                    } else if direct {
                        route is Redirect
                    } else {
                        route is ProxyToEmby
                    }
                }),
            },
        },
{
    match event {
        StreamEvent::ItemParsed(found) => if found {
            StreamStep::CheckRate
        } else {
            StreamStep::BadRequest
        },
        StreamEvent::RateChecked(limited) => if limited {
            StreamStep::TooManyRequests
        } else {
            StreamStep::LookUpCache
        },
        StreamEvent::CacheLooked(cached) => match cached {
            Some(link) => if should_cache_direct_link(config, link.as_str()) {
                StreamStep::RedirectCached(link)
            } else {
                StreamStep::ReadMediaPath
            },
            None => StreamStep::ReadMediaPath,
        },
        StreamEvent::MediaPathRead(path) => match path {
            None => StreamStep::ProxyToEmby,
            Some(p) => {
                let mapped = apply_strm_url_mappings(config, p.as_str());
                StreamStep::Route(media_route(config, mapped.as_str()))
            },
        },
    }
}

} // verus!
