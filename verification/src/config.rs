//! The panel's runtime configuration: the Emby servers it fronts, OpenList, the direct-link
//! cache and connectivity checks, and how a stored configuration is normalized and checked.

use vstd::prelude::*;
use vstd::string::StringExecFns;
use crate::rewrite::nonempty_segments;
use crate::text::{
    chars_eq_str, chars_of, decimal, decimal_string, join, join_chars, lines, lines_chars, lower,
    lower_chars, opt_str_view, opt_string_view, slice_chars, split_char, split_chars, string_of, trim, trim_chars,
    trimmed, views,
};
use crate::url_mapping::{parse_rules, rule_texts, rules_of, RuleText, UrlMappingRule};
use crate::urls::{url_error_of, url_parse_error};
use crate::strmap::str_eq;

verus! {

/// One Emby server behind the panel and the port it is proxied on.
#[derive(Debug, Clone)]
pub struct EmbyServerConfig {
    pub id: String,
    pub name: String,
    pub emby_host: String,
    pub emby_api_key: String,
    pub port: u16,
    pub enabled: bool,
    pub block_web_ui: bool,
    pub real_ip_mode: String,
    pub real_ip_header: String,
    pub trusted_proxy_cidrs: String,
}

/// The text of a server's settings.
pub struct ServerView {
    pub id: Seq<char>,
    pub name: Seq<char>,
    pub emby_host: Seq<char>,
    pub emby_api_key: Seq<char>,
    pub port: u16,
    pub enabled: bool,
    pub block_web_ui: bool,
    pub real_ip_mode: Seq<char>,
    pub real_ip_header: Seq<char>,
    pub trusted_proxy_cidrs: Seq<char>,
}

impl View for EmbyServerConfig {
    type V = ServerView;

    open spec fn view(&self) -> ServerView {
        ServerView {
            id: self.id@,
            name: self.name@,
            emby_host: self.emby_host@,
            emby_api_key: self.emby_api_key@,
            port: self.port,
            enabled: self.enabled,
            block_web_ui: self.block_web_ui,
            real_ip_mode: self.real_ip_mode@,
            real_ip_header: self.real_ip_header@,
            trusted_proxy_cidrs: self.trusted_proxy_cidrs@,
        }
    }
}

pub open spec fn server_views(s: Seq<EmbyServerConfig>) -> Seq<ServerView> {
    s.map_values(|x: EmbyServerConfig| x@)
}

/// The whole configuration.
#[derive(Debug, Clone)]
pub struct Config {
    pub emby_host: String,
    pub emby_api_key: String,
    pub servers: Vec<EmbyServerConfig>,
    pub openlist_addr: Option<String>,
    pub openlist_token: Option<String>,
    pub port: u16,
    pub cache_ttl_seconds: u64,
    pub cache_max_capacity: u64,
    pub cache_enabled: bool,
    pub cache_domain_filter_mode: String,
    pub cache_domain_whitelist: String,
    pub cache_domain_blacklist: String,
    pub enable_internal_redirect: bool,
    pub internal_redirect_timeout_seconds: u64,
    pub strm_url_mappings: String,
    pub strm_url_mapping_enabled: bool,
    pub connectivity_check_enabled: bool,
    pub connectivity_check_interval_seconds: u64,
    pub connectivity_check_timeout_seconds: u64,
    pub connectivity_auto_restart_seconds: u64,
    pub strm_url_mapping_rules: Vec<UrlMappingRule>,
}

pub fn default_port() -> (r: u16)
    ensures
        r == 8096,
{
    8096
}

pub fn default_enabled() -> (r: bool)
    ensures
        r,
{
    true
}

pub fn default_real_ip_mode() -> (r: String)
    ensures
        r@ == "auto"@,
{
    String::from_str("auto")
}

pub fn default_cache_ttl_seconds() -> (r: u64)
    ensures
        r == 180,
{
    180
}

pub fn default_cache_max_capacity() -> (r: u64)
    ensures
        r == 10000,
{
    10000
}

pub fn default_cache_enabled() -> (r: bool)
    ensures
        r,
{
    true
}

pub fn default_cache_domain_filter_mode() -> (r: String)
    ensures
        r@ == "off"@,
{
    String::from_str("off")
}

pub fn default_internal_redirect_timeout_seconds() -> (r: u64)
    ensures
        r == 15,
{
    15
}

pub fn default_strm_url_mapping_enabled() -> (r: bool)
    ensures
        r,
{
    true
}

pub fn default_connectivity_check_enabled() -> (r: bool)
    ensures
        r,
{
    true
}

pub fn default_connectivity_check_interval_seconds() -> (r: u64)
    ensures
        r == 60,
{
    60
}

pub fn default_connectivity_check_timeout_seconds() -> (r: u64)
    ensures
        r == 5,
{
    5
}

pub fn default_connectivity_auto_restart_seconds() -> (r: u64)
    ensures
        r == 180,
{
    180
}

impl Config {
    /// The configuration a fresh installation runs with: a local Emby host, no servers, no
    /// OpenList, and the default cache and connectivity settings.
    pub fn default_runtime() -> (r: Self)
        ensures
            r.emby_host@ == "http://localhost:8096"@,
            r.emby_api_key@.len() == 0,
            r.servers@.len() == 0,
            r.openlist_addr is None,
            r.openlist_token is None,
            r.port == 8096,
            r.cache_ttl_seconds == 180,
            r.cache_max_capacity == 10000,
            r.cache_enabled,
            r.cache_domain_filter_mode@ == "off"@,
            r.cache_domain_whitelist@.len() == 0,
            r.cache_domain_blacklist@.len() == 0,
            !r.enable_internal_redirect,
            r.internal_redirect_timeout_seconds == 15,
            r.strm_url_mappings@.len() == 0,
            r.strm_url_mapping_enabled,
            r.connectivity_check_enabled,
            r.connectivity_check_interval_seconds == 60,
            r.connectivity_check_timeout_seconds == 5,
            r.connectivity_auto_restart_seconds == 180,
            r.strm_url_mapping_rules@.len() == 0,
    {
        Config {
            emby_host: String::from_str("http://localhost:8096"),
            emby_api_key: String::new(),
            servers: Vec::new(),
            openlist_addr: None,
            openlist_token: None,
            port: default_port(),
            cache_ttl_seconds: default_cache_ttl_seconds(),
            cache_max_capacity: default_cache_max_capacity(),
            cache_enabled: default_cache_enabled(),
            cache_domain_filter_mode: default_cache_domain_filter_mode(),
            cache_domain_whitelist: String::new(),
            cache_domain_blacklist: String::new(),
            enable_internal_redirect: false,
            internal_redirect_timeout_seconds: default_internal_redirect_timeout_seconds(),
            strm_url_mappings: String::new(),
            strm_url_mapping_enabled: default_strm_url_mapping_enabled(),
            connectivity_check_enabled: default_connectivity_check_enabled(),
            connectivity_check_interval_seconds: default_connectivity_check_interval_seconds(),
            connectivity_check_timeout_seconds: default_connectivity_check_timeout_seconds(),
            connectivity_auto_restart_seconds: default_connectivity_auto_restart_seconds(),
            strm_url_mapping_rules: Vec::new(),
        }
    }
}

/// A required value: trimmed, or the error `<name> cannot be empty`.
pub open spec fn required_spec(name: Seq<char>, value: Seq<char>) -> Result<Seq<char>, Seq<char>> {
    if trim(value).len() == 0 {
        Err(name + " cannot be empty"@)
    } else {
        Ok(trim(value))
    }
}

pub fn required(name: &str, value: &str) -> (r: Result<String, String>)
    ensures
        match r {
            Ok(v) => required_spec(name@, value@) == Ok::<Seq<char>, Seq<char>>(v@),
            Err(e) => required_spec(name@, value@) == Err::<Seq<char>, Seq<char>>(e@),
        },
{
    let t = trimmed(value);
    if t.len() == 0 {
        let mut e = String::from_str(name);
        e.append(" cannot be empty");
        return Err(e);
    }
    Ok(string_of(&t))
}

/// `s` without trailing `/`.
pub open spec fn trim_end_slashes(s: Seq<char>) -> Seq<char>
    decreases s.len(),
{
    if s.len() > 0 && s.last() == '/' {
        trim_end_slashes(s.drop_last())
    } else {
        s
    }
}

/// A base URL: required, without trailing `/`, and parsing as a URL.
pub open spec fn base_url_spec(name: Seq<char>, value: Seq<char>) -> Result<Seq<char>, Seq<char>> {
    match required_spec(name, value) {
        Err(e) => Err(e),
        Ok(v) => {
            let u = trim_end_slashes(v);
            match url_error_of(u) {
                Some(err) => Err(name + " must be a valid URL: "@ + err),
                None => Ok(u),
            }
        },
    }
}

pub fn trim_base_url(name: &str, value: &str) -> (r: Result<String, String>)
    ensures
        match r {
            Ok(v) => base_url_spec(name@, value@) == Ok::<Seq<char>, Seq<char>>(v@),
            Err(e) => base_url_spec(name@, value@) == Err::<Seq<char>, Seq<char>>(e@),
        },
{
    let v = required(name, value)?;
    let chars = chars_of(v.as_str());
    let mut end = chars.len();
    assert(chars@.subrange(0, chars@.len() as int) =~= chars@);
    while end > 0 && chars[end - 1] == '/'
        invariant
            end <= chars@.len(),
            trim_end_slashes(chars@.subrange(0, end as int)) == trim_end_slashes(chars@),
        decreases end,
    {
        assert(chars@.subrange(0, end as int).drop_last() =~= chars@.subrange(0, end - 1));
        end = end - 1;
    }
    let u = slice_chars(&chars, 0, end);
    proof {
        if end > 0 {
            assert(u@.last() == chars@[end - 1]);
        }
        assert(trim_end_slashes(u@) == u@);
        assert(chars@.subrange(0, chars@.len() as int) =~= chars@);
    }
    let us = string_of(&u);
    match url_parse_error(us.as_str()) {
        Some(err) => {
            let mut e = String::from_str(name);
            e.append(" must be a valid URL: ");
            e.append(err.as_str());
            Err(e)
        },
        None => Ok(us),
    }
}

/// A proxy port: not 0, and not the management API's port 8090.
pub open spec fn port_error(port: u16) -> Option<Seq<char>> {
    if port == 0 {
        Some("port must be between 1 and 65535"@)
    } else if port == 8090 {
        Some("port 8090 is reserved for the management API"@)
    } else {
        None
    }
}

pub fn validate_port(port: u16) -> (r: Result<(), String>)
    ensures
        match r {
            Ok(_) => port_error(port) is None,
            Err(e) => port_error(port) == Some(e@),
        },
{
    if port == 0 {
        return Err(String::from_str("port must be between 1 and 65535"));
    }
    if port == 8090 {
        return Err(String::from_str("port 8090 is reserved for the management API"));
    }
    Ok(())
}

pub open spec fn trim_all(s: Seq<Seq<char>>) -> Seq<Seq<char>> {
    s.map_values(|x: Seq<char>| trim(x))
}

/// The non-blank lines, trimmed, joined by line feeds.
pub open spec fn multiline_spec(value: Seq<char>) -> Seq<char> {
    join(nonempty_segments(trim_all(lines(value))), "\n"@)
}

fn trim_each(v: &Vec<Vec<char>>) -> (r: Vec<Vec<char>>)
    ensures
        views(r@) == trim_all(views(v@)),
{
    let mut r: Vec<Vec<char>> = Vec::new();
    let mut i: usize = 0;
    while i < v.len()
        invariant
            i <= v@.len(),
            views(r@) == trim_all(views(v@)).take(i as int),
        decreases v@.len() - i,
    {
        let t = trim_chars(&v[i]);
        let ghost r0 = views(r@);
        r.push(t);
        assert(views(v@)[i as int] == v@[i as int]@);
        assert(views(r@) =~= r0.push(trim(v@[i as int]@)));
        assert(views(r@) =~= trim_all(views(v@)).take(i + 1));
        i = i + 1;
    }
    assert(trim_all(views(v@)).take(v@.len() as int) =~= trim_all(views(v@)));
    r
}

fn nonempty_vecs(pieces: Vec<Vec<char>>) -> (r: Vec<Vec<char>>)
    ensures
        views(r@) == nonempty_segments(views(pieces@)),
{
    let ghost input = views(pieces@);
    let mut kept: Vec<Vec<char>> = Vec::new();
    let mut i: usize = 0;
    assert(input.take(0) =~= Seq::<Seq<char>>::empty());
    while i < pieces.len()
        invariant
            i <= pieces@.len(),
            input == views(pieces@),
            views(kept@) == nonempty_segments(input.take(i as int)),
        decreases pieces@.len() - i,
    {
        assert(input.take(i + 1).drop_last() =~= input.take(i as int));
        assert(input[i as int] == pieces@[i as int]@);
        if pieces[i].len() > 0 {
            let ghost k0 = views(kept@);
            kept.push(slice_chars(&pieces[i], 0, pieces[i].len()));
            assert(pieces@[i as int]@.subrange(0, pieces@[i as int]@.len() as int) =~= pieces@[i as int]@);
            assert(views(kept@) =~= k0.push(input[i as int]));
        }
        i = i + 1;
    }
    assert(input.take(pieces@.len() as int) =~= input);
    kept
}

/// A multi-line setting with blank lines dropped and every line trimmed.
pub fn normalize_multiline(value: &str) -> (r: String)
    ensures
        r@ == multiline_spec(value@),
{
    proof {
        reveal_strlit("\n");
    }
    let v = chars_of(value);
    let ls = lines_chars(&v);
    let t = trim_each(&ls);
    let kept = nonempty_vecs(t);
    let nl = chars_of("\n");
    let joined = join_chars(&kept, &nl);
    string_of(&joined)
}

/// Commas turned into line feeds.
pub open spec fn commas_to_lines(value: Seq<char>) -> Seq<char> {
    value.map_values(|c: char| if c == ',' { '\n' } else { c })
}

/// The items of a list split at commas and line feeds, trimmed, blanks dropped, joined by
/// line feeds.
pub open spec fn header_list_spec(value: Seq<char>) -> Seq<char> {
    join(nonempty_segments(trim_all(split_char(commas_to_lines(value), '\n'))), "\n"@)
}

fn commas_to_lines_exec(v: &Vec<char>) -> (r: Vec<char>)
    ensures
        r@ == commas_to_lines(v@),
{
    let mut r: Vec<char> = Vec::new();
    let mut i: usize = 0;
    while i < v.len()
        invariant
            i <= v@.len(),
            r@ == commas_to_lines(v@).take(i as int),
        decreases v@.len() - i,
    {
        if v[i] == ',' {
            r.push('\n');
        } else {
            r.push(v[i]);
        }
        assert(r@ =~= commas_to_lines(v@).take(i + 1));
        i = i + 1;
    }
    assert(commas_to_lines(v@).take(v@.len() as int) =~= commas_to_lines(v@));
    r
}

/// The header names of a list, one per line (see [`header_list_spec`]).
pub fn normalize_header_list(value: &str) -> (r: String)
    ensures
        r@ == header_list_spec(value@),
{
    proof {
        reveal_strlit("\n");
    }
    let v = chars_of(value);
    let c = commas_to_lines_exec(&v);
    let pieces = split_chars(&c, '\n');
    let t = trim_each(&pieces);
    let kept = nonempty_vecs(t);
    let nl = chars_of("\n");
    let joined = join_chars(&kept, &nl);
    string_of(&joined)
}

/// How a server finds the client's IP, with the aliases the settings accept.
pub open spec fn real_ip_mode_spec(value: Seq<char>) -> Result<Seq<char>, Seq<char>> {
    let m = lower(trim(value));
    if m.len() == 0 || m == "auto"@ || m == "system"@ {
        Ok("auto"@)
    } else if m == "header"@ || m == "single_header"@ {
        Ok("header"@)
    } else if m == "header_list"@ || m == "headers"@ || m == "list"@ {
        Ok("header_list"@)
    } else if m == "xff_last"@ || m == "x-forwarded-for-last"@ {
        Ok("xff_last"@)
    } else if m == "xff_second_last"@ || m == "x-forwarded-for-second-last"@ {
        Ok("xff_second_last"@)
    } else if m == "xff_third_last"@ || m == "x-forwarded-for-third-last"@ {
        Ok("xff_third_last"@)
    } else {
        Err(
            "real_ip_mode must be auto, header, header_list, xff_last, xff_second_last, or xff_third_last: "@
                + value,
        )
    }
}

pub fn normalize_real_ip_mode(value: &str) -> (r: Result<String, String>)
    ensures
        match r {
            Ok(v) => real_ip_mode_spec(value@) == Ok::<Seq<char>, Seq<char>>(v@),
            Err(e) => real_ip_mode_spec(value@) == Err::<Seq<char>, Seq<char>>(e@),
        },
{
    let t = trimmed(value);
    let m = lower_chars(&t);
    if m.len() == 0 || chars_eq_str(&m, "auto") || chars_eq_str(&m, "system") {
        Ok(String::from_str("auto"))
    } else if chars_eq_str(&m, "header") || chars_eq_str(&m, "single_header") {
        Ok(String::from_str("header"))
    } else if chars_eq_str(&m, "header_list") || chars_eq_str(&m, "headers") || chars_eq_str(
        &m,
        "list",
    ) {
        Ok(String::from_str("header_list"))
    } else if chars_eq_str(&m, "xff_last") || chars_eq_str(&m, "x-forwarded-for-last") {
        Ok(String::from_str("xff_last"))
    } else if chars_eq_str(&m, "xff_second_last") || chars_eq_str(&m, "x-forwarded-for-second-last") {
        Ok(String::from_str("xff_second_last"))
    } else if chars_eq_str(&m, "xff_third_last") || chars_eq_str(&m, "x-forwarded-for-third-last") {
        Ok(String::from_str("xff_third_last"))
    } else {
        let mut e = String::from_str(
            "real_ip_mode must be auto, header, header_list, xff_last, xff_second_last, or xff_third_last: ",
        );
        e.append(value);
        Err(e)
    }
}

/// The cache domain filter mode, with the aliases the settings accept.
pub open spec fn filter_mode_spec(value: Seq<char>) -> Result<Seq<char>, Seq<char>> {
    let m = lower(trim(value));
    if m.len() == 0 || m == "off"@ || m == "none"@ {
        Ok("off"@)
    } else if m == "whitelist"@ || m == "white"@ || m == "allow"@ {
        Ok("whitelist"@)
    } else if m == "blacklist"@ || m == "black"@ || m == "deny"@ {
        Ok("blacklist"@)
    } else {
        Err("cache_domain_filter_mode must be off, whitelist, or blacklist: "@ + value)
    }
}

pub fn normalize_cache_domain_filter_mode(value: &str) -> (r: Result<String, String>)
    ensures
        match r {
            Ok(v) => filter_mode_spec(value@) == Ok::<Seq<char>, Seq<char>>(v@),
            Err(e) => filter_mode_spec(value@) == Err::<Seq<char>, Seq<char>>(e@),
        },
{
    let t = trimmed(value);
    let m = lower_chars(&t);
    if m.len() == 0 || chars_eq_str(&m, "off") || chars_eq_str(&m, "none") {
        Ok(String::from_str("off"))
    } else if chars_eq_str(&m, "whitelist") || chars_eq_str(&m, "white") || chars_eq_str(&m, "allow") {
        Ok(String::from_str("whitelist"))
    } else if chars_eq_str(&m, "blacklist") || chars_eq_str(&m, "black") || chars_eq_str(&m, "deny") {
        Ok(String::from_str("blacklist"))
    } else {
        let mut e = String::from_str("cache_domain_filter_mode must be off, whitelist, or blacklist: ");
        e.append(value);
        Err(e)
    }
}

pub open spec fn ids_of(rs: Seq<ServerView>) -> Set<Seq<char>> {
    Set::new(|id: Seq<char>| exists|i: int| 0 <= i < rs.len() && #[trigger] rs[i].id == id)
}

pub open spec fn ports_of(rs: Seq<ServerView>) -> Set<u16> {
    Set::new(|p: u16| exists|i: int| 0 <= i < rs.len() && #[trigger] rs[i].port == p)
}

/// One server normalized, at position `index`, after the servers whose identifiers and ports
/// are `ids` and `ports`: identifier and name trimmed or numbered, host and key required, the
/// port checked, the IP mode and header list normalized, the trusted proxies as given; or the
/// first error.
pub open spec fn server_step(
    s: ServerView,
    index: int,
    trusted: Result<Seq<char>, Seq<char>>,
    ids: Set<Seq<char>>,
    ports: Set<u16>,
) -> Result<ServerView, Seq<char>> {
    let id = if trim(s.id).len() == 0 {
        "server-"@ + decimal((index + 1) as nat)
    } else {
        trim(s.id)
    };
    let name = if trim(s.name).len() == 0 {
        "服务器 "@ + decimal((index + 1) as nat)
    } else {
        trim(s.name)
    };
    if ids.contains(id) {
        Err("server id "@ + id + " is configured more than once"@)
    } else {
        match base_url_spec("server.emby_host"@, s.emby_host) {
            Err(e) => Err(e),
            Ok(host) => match required_spec("server.emby_api_key"@, s.emby_api_key) {
                Err(e) => Err(e),
                Ok(key) => match port_error(s.port) {
                    Some(e) => Err(e),
                    None => match real_ip_mode_spec(s.real_ip_mode) {
                        Err(e) => Err(e),
                        Ok(mode) => {
                            let header = header_list_spec(s.real_ip_header);
                            match trusted {
                                Err(e) => Err(e),
                                Ok(cidrs) => if mode == "header"@ && header.len() == 0 {
                                    Err(
                                        "server.real_ip_header cannot be empty when real_ip_mode is header"@,
                                    )
                                } else if ports.contains(s.port) {
                                    Err(
                                        "proxy port "@ + decimal(s.port as nat)
                                            + " is configured more than once"@,
                                    )
                                } else {
                                    Ok(
                                        ServerView {
                                            id: id,
                                            name: name,
                                            emby_host: host,
                                            emby_api_key: key,
                                            port: s.port,
                                            enabled: s.enabled,
                                            block_web_ui: s.block_web_ui,
                                            real_ip_mode: mode,
                                            real_ip_header: header,
                                            trusted_proxy_cidrs: cidrs,
                                        },
                                    )
                                },
                            }
                        },
                    },
                },
            },
        }
    }
}

pub open spec fn result_view(r: Result<String, String>) -> Result<Seq<char>, Seq<char>> {
    match r {
        Ok(v) => Ok(v@),
        Err(e) => Err(e@),
    }
}

/// The first `k` servers normalized in turn, or the first error.
pub open spec fn servers_normalized(
    ss: Seq<ServerView>,
    trusted: Seq<Result<Seq<char>, Seq<char>>>,
    k: int,
) -> Result<Seq<ServerView>, Seq<char>>
    decreases k,
{
    if k <= 0 {
        Ok(Seq::empty())
    } else {
        match servers_normalized(ss, trusted, k - 1) {
            Err(e) => Err(e),
            Ok(rs) => match server_step(ss[k - 1], k - 1, trusted[k - 1], ids_of(rs), ports_of(rs)) {
                Err(e) => Err(e),
                Ok(r) => Ok(rs.push(r)),
            },
        }
    }
}

proof fn lemma_servers_error_stays(
    ss: Seq<ServerView>,
    trusted: Seq<Result<Seq<char>, Seq<char>>>,
    k: int,
    j: int,
)
    requires
        0 < k <= j,
        servers_normalized(ss, trusted, k) is Err,
    ensures
        servers_normalized(ss, trusted, j) == servers_normalized(ss, trusted, k),
    decreases j - k,
{
    if j > k {
        lemma_servers_error_stays(ss, trusted, k, j - 1);
    }
}

/// The first enabled server, or the first one.
pub open spec fn primary_index(rs: Seq<ServerView>, i: int) -> int
    decreases rs.len() - i,
{
    if i < 0 || i >= rs.len() {
        0
    } else if rs[i].enabled {
        i
    } else {
        primary_index(rs, i + 1)
    }
}

proof fn lemma_primary_bounds(rs: Seq<ServerView>, i: int)
    requires
        0 <= i,
        rs.len() > 0,
    ensures
        0 <= primary_index(rs, i) < rs.len(),
    decreases rs.len() - i,
{
    if i < rs.len() && !rs[i].enabled {
        lemma_primary_bounds(rs, i + 1);
    }
}

pub open spec fn trusted_views(t: Seq<Result<String, String>>) -> Seq<Result<Seq<char>, Seq<char>>> {
    t.map_values(|r: Result<String, String>| result_view(r))
}

fn contains_id(ids: &Vec<String>, id: &String) -> (r: bool)
    ensures
        r == exists|i: int| 0 <= i < ids@.len() && #[trigger] ids@[i]@ == id@,
{
    let mut i: usize = 0;
    while i < ids.len()
        invariant
            i <= ids@.len(),
            forall|j: int| 0 <= j < i ==> #[trigger] ids@[j]@ != id@,
        decreases ids@.len() - i,
    {
        if crate::client_control::str_eq_string(&ids[i], id) {
            return true;
        }
        i = i + 1;
    }
    false
}

fn contains_port(ports: &Vec<u16>, port: u16) -> (r: bool)
    ensures
        r == exists|i: int| 0 <= i < ports@.len() && #[trigger] ports@[i] == port,
{
    let mut i: usize = 0;
    while i < ports.len()
        invariant
            i <= ports@.len(),
            forall|j: int| 0 <= j < i ==> #[trigger] ports@[j] != port,
        decreases ports@.len() - i,
    {
        if ports[i] == port {
            return true;
        }
        i = i + 1;
    }
    false
}

fn numbered(prefix: &str, index: usize) -> (r: String)
    requires
        index < 0xffff_ffff_ffff_ffff,
    ensures
        r@ == prefix@ + decimal((index + 1) as nat),
{
    let mut r = String::from_str(prefix);
    let d = decimal_string((index as u64) + 1);
    r.append(d.as_str());
    r
}

fn normalize_server(
    s: EmbyServerConfig,
    index: usize,
    trusted: &Result<String, String>,
    ids: &Vec<String>,
    ports: &Vec<u16>,
) -> (r: Result<EmbyServerConfig, String>)
    requires
        index < 0xffff_ffff_ffff_ffff,
    ensures
        match r {
            Ok(n) => server_step(
                s@,
                index as int,
                result_view(*trusted),
                Set::new(|id: Seq<char>| exists|i: int| 0 <= i < ids@.len() && #[trigger] ids@[i]@ == id),
                Set::new(|p: u16| exists|i: int| 0 <= i < ports@.len() && #[trigger] ports@[i] == p),
            ) == Ok::<ServerView, Seq<char>>(n@),
            Err(e) => server_step(
                s@,
                index as int,
                result_view(*trusted),
                Set::new(|id: Seq<char>| exists|i: int| 0 <= i < ids@.len() && #[trigger] ids@[i]@ == id),
                Set::new(|p: u16| exists|i: int| 0 <= i < ports@.len() && #[trigger] ports@[i] == p),
            ) == Err::<ServerView, Seq<char>>(e@),
        },
{
    proof {
        reveal_strlit("header");
    }
    let ghost idset = Set::new(|id: Seq<char>| exists|i: int| 0 <= i < ids@.len() && #[trigger] ids@[i]@ == id);
    let ghost portset = Set::new(|p: u16| exists|i: int| 0 <= i < ports@.len() && #[trigger] ports@[i] == p);
    let mut s = s;
    let idt = trimmed(s.id.as_str());
    s.id = if idt.len() == 0 {
        numbered("server-", index)
    } else {
        string_of(&idt)
    };
    let nt = trimmed(s.name.as_str());
    let name = if nt.len() == 0 {
        numbered("服务器 ", index)
    } else {
        string_of(&nt)
    };
    if contains_id(ids, &s.id) {
        assert(idset.contains(s.id@));
        let mut e = String::from_str("server id ");
        e.append(s.id.as_str());
        e.append(" is configured more than once");
        return Err(e);
    }
    assert(!idset.contains(s.id@));
    s.name = name;
    s.emby_host = trim_base_url("server.emby_host", s.emby_host.as_str())?;
    s.emby_api_key = required("server.emby_api_key", s.emby_api_key.as_str())?;
    validate_port(s.port)?;
    s.real_ip_mode = normalize_real_ip_mode(s.real_ip_mode.as_str())?;
    s.real_ip_header = normalize_header_list(s.real_ip_header.as_str());
    match trusted {
        Ok(c) => {
            s.trusted_proxy_cidrs = c.clone();
        },
        Err(e) => {
            return Err(e.clone());
        },
    }
    if crate::client_control::str_eq_lit(&s.real_ip_mode, "header") && s.real_ip_header.as_str().is_empty() {
        return Err(String::from_str("server.real_ip_header cannot be empty when real_ip_mode is header"));
    }
    if contains_port(ports, s.port) {
        assert(portset.contains(s.port));
        let mut e = String::from_str("proxy port ");
        let d = decimal_string(s.port as u64);
        e.append(d.as_str());
        e.append(" is configured more than once");
        return Err(e);
    }
    Ok(s)
}

/// See [`Config::normalize_servers_with`].
pub open spec fn servers_settled(before: Config, after: Config, r: Result<(), String>, tv: Seq<Result<Seq<char>, Seq<char>>>) -> bool {
    match servers_outcome(before, tv) {
        Err(e) => r is Err && r->Err_0@ =~= e && after == before,
        Ok((ss, host, key, port)) => {
            &&& r is Ok
            &&& server_views(after.servers@) =~~= ss
            &&& after.emby_host@ =~= host
            &&& after.emby_api_key@ =~= key
            &&& after.port == port
            &&& same_but_servers(after, before)
        },
    }
}

/// See [`Config::normalize_and_validate_with`].
pub open spec fn config_settled(before: Config, after: Config, r: Result<(), String>, tv: Seq<Result<Seq<char>, Seq<char>>>) -> bool {
    match servers_outcome(before, tv) {
        Err(e) => r is Err && r->Err_0@ =~= e,
        Ok((ss, host, key, port)) => match settings_error(before) {
            Some(e) => r is Err && r->Err_0@ =~= e,
            None => {
                let mode = filter_mode_spec(before.cache_domain_filter_mode@)->Ok_0;
                let white = multiline_spec(before.cache_domain_whitelist@);
                let black = multiline_spec(before.cache_domain_blacklist@);
                &&& r is Ok
                &&& server_views(after.servers@) =~~= ss
                &&& after.emby_host@ =~= host
                &&& after.emby_api_key@ =~= key
                &&& after.port == port
                &&& opt_string_view(after.openlist_addr) == match before.openlist_addr {
                    Some(a) => Some(base_url_spec("openlist_addr"@, a@)->Ok_0),
                    None => None,
                }
                &&& opt_string_view(after.openlist_token) == match before.openlist_token {
                    Some(t) => Some(trim(t@)),
                    None => None,
                }
                &&& after.cache_domain_filter_mode@ == mode
                &&& after.cache_domain_whitelist@ == if mode == "blacklist"@
                    && white.len() == 0 {
                    black
                } else {
                    white
                }
                &&& after.cache_domain_blacklist@.len() == 0
                &&& after.connectivity_check_interval_seconds == clamp_spec(
                    before.connectivity_check_interval_seconds,
                    10,
                    3600,
                )
                &&& after.connectivity_check_timeout_seconds == clamp_spec(
                    before.connectivity_check_timeout_seconds,
                    1,
                    60,
                )
                &&& after.connectivity_auto_restart_seconds == if before.connectivity_auto_restart_seconds < 86400 {
                    before.connectivity_auto_restart_seconds
                } else {
                    86400
                }
                &&& rules_of(
                    lines(before.strm_url_mappings@),
                    lines(before.strm_url_mappings@).len() as int,
                ) == Ok::<Seq<RuleText>, Seq<char>>(
                    rule_texts(after.strm_url_mapping_rules@),
                )
                &&& forall|i: int|
                    0 <= i < after.strm_url_mapping_rules@.len() ==> (
                    #[trigger] after.strm_url_mapping_rules@[i]).wf()
                &&& after.cache_ttl_seconds == before.cache_ttl_seconds
                &&& after.cache_max_capacity == before.cache_max_capacity
                &&& after.cache_enabled == before.cache_enabled
                &&& after.enable_internal_redirect == before.enable_internal_redirect
                &&& after.internal_redirect_timeout_seconds == before.internal_redirect_timeout_seconds
                &&& after.strm_url_mappings == before.strm_url_mappings
                &&& after.strm_url_mapping_enabled == before.strm_url_mapping_enabled
                &&& after.connectivity_check_enabled == before.connectivity_check_enabled
            },
        },
    }
}

impl Config {
    /// Normalizes the server list (see [`servers_normalized`]), given the normalized trusted
    /// proxies of each server; the top-level host, key and port follow the first enabled
    /// server, or the first. Without servers, a top-level host or key becomes the `default`
    /// server, and otherwise both are cleared. The first error leaves the configuration as it
    /// was.
    pub fn normalize_servers_with(&mut self, trusted: &Vec<Result<String, String>>) -> (r: Result<(), String>)
        requires
            old(self).servers@.len() > 0 ==> trusted@.len() == old(self).servers@.len(),
        ensures
            servers_settled(*old(self), *final(self), r, trusted_views(trusted@)),
    {
        if self.servers.len() == 0 {
            let host_t = trimmed(self.emby_host.as_str());
            let key_t = trimmed(self.emby_api_key.as_str());
            if host_t.len() > 0 || key_t.len() > 0 {
                let host = trim_base_url("emby_host", self.emby_host.as_str())?;
                let key = required("emby_api_key", self.emby_api_key.as_str())?;
                validate_port(self.port)?;
                let server = EmbyServerConfig {
                    id: String::from_str("default"),
                    name: String::from_str("默认服务器"),
                    emby_host: host.clone(),
                    emby_api_key: key.clone(),
                    port: self.port,
                    enabled: true,
                    block_web_ui: false,
                    real_ip_mode: default_real_ip_mode(),
                    real_ip_header: String::new(),
                    trusted_proxy_cidrs: String::new(),
                };
                self.emby_host = host;
                self.emby_api_key = key;
                self.servers.push(server);
                return Ok(());
            }
            validate_port(self.port)?;
            self.emby_host = String::new();
            self.emby_api_key = String::new();
            return Ok(());
        }
        let ghost ss = server_views(self.servers@);
        let ghost tv = trusted_views(trusted@);
        let mut normalized: Vec<EmbyServerConfig> = Vec::new();
        let mut ids: Vec<String> = Vec::new();
        let mut ports: Vec<u16> = Vec::new();
        let n = self.servers.len();
        let mut i: usize = 0;
        assert(server_views(normalized@) =~= Seq::<ServerView>::empty());
        while i < n
            invariant
                n == self.servers@.len(),
                n == trusted@.len(),
                ss == server_views(self.servers@),
                tv == trusted_views(trusted@),
                *self == *old(self),
                i <= n,
                normalized@.len() == i,
                ids@.len() == normalized@.len(),
                ports@.len() == normalized@.len(),
                forall|j: int| 0 <= j < normalized@.len() ==> #[trigger] ids@[j]@ == normalized@[j].id@,
                forall|j: int| 0 <= j < normalized@.len() ==> #[trigger] ports@[j] == normalized@[j].port,
                servers_normalized(ss, tv, i as int) == Ok::<Seq<ServerView>, Seq<char>>(
                    server_views(normalized@),
                ),
            decreases n - i,
        {
            let server = self.servers[i].clone_server();
            assert(ss[i as int] == server@);
            assert(tv[i as int] == result_view(trusted@[i as int]));
            let ghost rs = server_views(normalized@);
            assert(Set::new(|id: Seq<char>| exists|k: int| 0 <= k < ids@.len() && #[trigger] ids@[k]@ == id) =~= ids_of(rs)) by {
                assert forall|id: Seq<char>| ids_of(rs).contains(id) implies exists|k: int| 0 <= k < ids@.len() && #[trigger] ids@[k]@ == id by {
                    let k = choose|k: int| 0 <= k < rs.len() && #[trigger] rs[k].id == id;
                    assert(rs[k] == normalized@[k]@);
                    assert(ids@[k]@ == id);
                }
                assert forall|id: Seq<char>| (exists|k: int| 0 <= k < ids@.len() && #[trigger] ids@[k]@ == id) implies ids_of(rs).contains(id) by {
                    let k = choose|k: int| 0 <= k < ids@.len() && #[trigger] ids@[k]@ == id;
                    assert(rs[k] == normalized@[k]@);
                    assert(rs[k].id == id);
                }
            }
            assert(Set::new(|p: u16| exists|k: int| 0 <= k < ports@.len() && #[trigger] ports@[k] == p) =~= ports_of(rs)) by {
                assert forall|p: u16| ports_of(rs).contains(p) implies exists|k: int| 0 <= k < ports@.len() && #[trigger] ports@[k] == p by {
                    let k = choose|k: int| 0 <= k < rs.len() && #[trigger] rs[k].port == p;
                    assert(rs[k] == normalized@[k]@);
                    assert(ports@[k] == p);
                }
                assert forall|p: u16| (exists|k: int| 0 <= k < ports@.len() && #[trigger] ports@[k] == p) implies ports_of(rs).contains(p) by {
                    let k = choose|k: int| 0 <= k < ports@.len() && #[trigger] ports@[k] == p;
                    assert(rs[k] == normalized@[k]@);
                    assert(rs[k].port == p);
                }
            }
            match normalize_server(server, i, &trusted[i], &ids, &ports) {
                Err(e) => {
                    proof {
                        lemma_servers_error_stays(ss, tv, i + 1, n as int);
                    }
                    return Err(e);
                },
                Ok(ns) => {
                    ids.push(ns.id.clone());
                    ports.push(ns.port);
                    let ghost r0 = server_views(normalized@);
                    normalized.push(ns);
                    assert(server_views(normalized@) =~= r0.push(normalized@[i as int]@));
                },
            }
            i = i + 1;
        }
        let ghost rs = server_views(normalized@);
        proof {
            lemma_primary_bounds(rs, 0);
        }
        let p = primary_position(&normalized);
        assert(p as int == primary_index(rs, 0));
        assert(rs[p as int] == normalized@[p as int]@);
        self.emby_host = normalized[p].emby_host.clone();
        self.emby_api_key = normalized[p].emby_api_key.clone();
        self.port = normalized[p].port;
        self.servers = normalized;
        Ok(())
    }
}

fn primary_position(servers: &Vec<EmbyServerConfig>) -> (p: usize)
    requires
        servers@.len() > 0,
    ensures
        p as int == primary_index(server_views(servers@), 0),
        p < servers@.len(),
{
    let ghost rs = server_views(servers@);
    proof {
        lemma_primary_bounds(rs, 0);
    }
    let mut p: usize = 0;
    while p < servers.len()
        invariant
            p <= servers@.len(),
            rs == server_views(servers@),
            primary_index(rs, 0) == primary_index(rs, p as int),
        decreases servers@.len() - p,
    {
        assert(rs[p as int] == servers@[p as int]@);
        if servers[p].enabled {
            return p;
        }
        p = p + 1;
    }
    0
}

/// The `default` server that a top-level host and key become.
pub open spec fn default_server_view(host: Seq<char>, key: Seq<char>, port: u16) -> ServerView {
    ServerView {
        id: "default"@,
        name: "默认服务器"@,
        emby_host: host,
        emby_api_key: key,
        port: port,
        enabled: true,
        block_web_ui: false,
        real_ip_mode: "auto"@,
        real_ip_header: Seq::empty(),
        trusted_proxy_cidrs: Seq::empty(),
    }
}

/// The servers and the top-level host, key and port that normalizing the server list gives,
/// or its first error.
pub open spec fn servers_outcome(c: Config, tv: Seq<Result<Seq<char>, Seq<char>>>) -> Result<
    (Seq<ServerView>, Seq<char>, Seq<char>, u16),
    Seq<char>,
> {
    if c.servers@.len() == 0 {
        if trim(c.emby_host@).len() > 0 || trim(c.emby_api_key@).len() > 0 {
            match base_url_spec("emby_host"@, c.emby_host@) {
                Err(e) => Err(e),
                Ok(host) => match required_spec("emby_api_key"@, c.emby_api_key@) {
                    Err(e) => Err(e),
                    Ok(key) => match port_error(c.port) {
                        Some(e) => Err(e),
                        None => Ok((seq![default_server_view(host, key, c.port)], host, key, c.port)),
                    },
                },
            }
        } else {
            match port_error(c.port) {
                Some(e) => Err(e),
                None => Ok((Seq::empty(), Seq::empty(), Seq::empty(), c.port)),
            }
        }
    } else {
        match servers_normalized(server_views(c.servers@), tv, c.servers@.len() as int) {
            Err(e) => Err(e),
            Ok(rs) => {
                let p = rs[primary_index(rs, 0)];
                Ok((rs, p.emby_host, p.emby_api_key, p.port))
            },
        }
    }
}

/// Two configurations that differ at most in their servers and top-level Emby settings.
pub open spec fn same_but_servers(a: Config, b: Config) -> bool {
    &&& a.openlist_addr == b.openlist_addr
    &&& a.openlist_token == b.openlist_token
    &&& a.cache_ttl_seconds == b.cache_ttl_seconds
    &&& a.cache_max_capacity == b.cache_max_capacity
    &&& a.cache_enabled == b.cache_enabled
    &&& a.cache_domain_filter_mode == b.cache_domain_filter_mode
    &&& a.cache_domain_whitelist == b.cache_domain_whitelist
    &&& a.cache_domain_blacklist == b.cache_domain_blacklist
    &&& a.enable_internal_redirect == b.enable_internal_redirect
    &&& a.internal_redirect_timeout_seconds == b.internal_redirect_timeout_seconds
    &&& a.strm_url_mappings == b.strm_url_mappings
    &&& a.strm_url_mapping_enabled == b.strm_url_mapping_enabled
    &&& a.connectivity_check_enabled == b.connectivity_check_enabled
    &&& a.connectivity_check_interval_seconds == b.connectivity_check_interval_seconds
    &&& a.connectivity_check_timeout_seconds == b.connectivity_check_timeout_seconds
    &&& a.connectivity_auto_restart_seconds == b.connectivity_auto_restart_seconds
    &&& a.strm_url_mapping_rules@ == b.strm_url_mapping_rules@
}

/// Two configurations with the same settings and the same servers, in order.
pub open spec fn same_config(a: Config, b: Config) -> bool {
    &&& same_but_servers(a, b)
    &&& a.emby_host == b.emby_host
    &&& a.emby_api_key == b.emby_api_key
    &&& a.port == b.port
    &&& a.servers@ == b.servers@
}

impl EmbyServerConfig {
    /// A field-by-field copy.
    pub fn clone_server(&self) -> (r: Self)
        ensures
            r == *self,
    {
        EmbyServerConfig {
            id: self.id.clone(),
            name: self.name.clone(),
            emby_host: self.emby_host.clone(),
            emby_api_key: self.emby_api_key.clone(),
            port: self.port,
            enabled: self.enabled,
            block_web_ui: self.block_web_ui,
            real_ip_mode: self.real_ip_mode.clone(),
            real_ip_header: self.real_ip_header.clone(),
            trusted_proxy_cidrs: self.trusted_proxy_cidrs.clone(),
        }
    }
}

/// The first error of validating the configuration after its servers, in the order the
/// checks run; `None` when it is valid.
pub open spec fn settings_error(c: Config) -> Option<Seq<char>> {
    let addr = match c.openlist_addr {
        Some(a) => match base_url_spec("openlist_addr"@, a@) {
            Err(e) => Some(e),
            Ok(_) => None,
        },
        None => None,
    };
    let token = match c.openlist_token {
        Some(t) => match required_spec("openlist_token"@, t@) {
            Err(e) => Some(e),
            Ok(_) => None,
        },
        None => None,
    };
    if addr is Some {
        addr
    } else if token is Some {
        token
    } else if c.openlist_addr is Some != c.openlist_token is Some {
        Some("openlist_addr and openlist_token must be configured together"@)
    } else if c.cache_max_capacity == 0 {
        Some("cache_max_capacity must be positive"@)
    } else if filter_mode_spec(c.cache_domain_filter_mode@) is Err {
        Some(filter_mode_spec(c.cache_domain_filter_mode@)->Err_0)
    } else if c.internal_redirect_timeout_seconds == 0 {
        Some("internal_redirect_timeout_seconds must be positive"@)
    } else {
        match rules_of(lines(c.strm_url_mappings@), lines(c.strm_url_mappings@).len() as int) {
            Err(e) => Some(e),
            Ok(_) => None,
        }
    }
}

pub open spec fn clamp_spec(v: u64, lo: u64, hi: u64) -> u64 {
    if v < lo {
        lo
    } else if v > hi {
        hi
    } else {
        v
    }
}

impl Config {
    /// Normalizes and checks the configuration, given the normalized trusted proxies of each
    /// server: the servers (see [`servers_outcome`]), OpenList's address and token (both or
    /// neither), a positive cache capacity, the domain filter (a blacklist moves into the
    /// list field), a positive redirect timeout, the connectivity intervals clamped, and the
    /// `.strm` rewrite rules parsed. Gives the first error. The configuration's state after an
    /// error is not specified.
    pub fn normalize_and_validate_with(&mut self, trusted: &Vec<Result<String, String>>) -> (r: Result<
        (),
        String,
    >)
        requires
            old(self).servers@.len() > 0 ==> trusted@.len() == old(self).servers@.len(),
        ensures
            config_settled(*old(self), *final(self), r, trusted_views(trusted@)),
    {
        proof {
            reveal_strlit("blacklist");
        }
        self.normalize_servers_with(trusted)?;
        let ghost before = *self;
        let addr = match &self.openlist_addr {
            Some(a) => Some(trim_base_url("openlist_addr", a.as_str())?),
            None => None,
        };
        let token = match &self.openlist_token {
            Some(t) => Some(required("openlist_token", t.as_str())?),
            None => None,
        };
        if addr.is_some() != token.is_some() {
            return Err(String::from_str("openlist_addr and openlist_token must be configured together"));
        }
        if self.cache_max_capacity == 0 {
            return Err(String::from_str("cache_max_capacity must be positive"));
        }
        let white = normalize_multiline(self.cache_domain_whitelist.as_str());
        let black = normalize_multiline(self.cache_domain_blacklist.as_str());
        let mode = normalize_cache_domain_filter_mode(self.cache_domain_filter_mode.as_str())?;
        if self.internal_redirect_timeout_seconds == 0 {
            return Err(String::from_str("internal_redirect_timeout_seconds must be positive"));
        }
        let rules = parse_rules(self.strm_url_mappings.as_str())?;
        self.openlist_addr = addr;
        self.openlist_token = token;
        self.cache_domain_whitelist = if crate::client_control::str_eq_lit(&mode, "blacklist")
            && white.as_str().is_empty() {
            black
        } else {
            white
        };
        self.cache_domain_blacklist = String::new();
        self.cache_domain_filter_mode = mode;
        self.connectivity_check_interval_seconds = if self.connectivity_check_interval_seconds < 10 {
            10
        } else if self.connectivity_check_interval_seconds > 3600 {
            3600
        } else {
            self.connectivity_check_interval_seconds
        };
        self.connectivity_check_timeout_seconds = if self.connectivity_check_timeout_seconds < 1 {
            1
        } else if self.connectivity_check_timeout_seconds > 60 {
            60
        } else {
            self.connectivity_check_timeout_seconds
        };
        if self.connectivity_auto_restart_seconds > 86400 {
            self.connectivity_auto_restart_seconds = 86400;
        }
        self.strm_url_mapping_rules = rules;
        Ok(())
    }

    /// Checks a configuration before it is stored (see [`Config::normalize_and_validate`]).
    pub fn validate_for_storage_with(&mut self, trusted: &Vec<Result<String, String>>) -> (r: Result<(), String>)
        requires
            old(self).servers@.len() > 0 ==> trusted@.len() == old(self).servers@.len(),
        ensures
            r is Ok <==> (servers_outcome(*old(self), trusted_views(trusted@)) is Ok && settings_error(
                *old(self),
            ) is None),
    {
        self.normalize_and_validate_with(trusted)
    }

    /// A field-by-field copy.
    pub fn duplicate(&self) -> (r: Self)
        ensures
            same_config(r, *self),
    {
        let mut servers: Vec<EmbyServerConfig> = Vec::new();
        let mut i: usize = 0;
        while i < self.servers.len()
            invariant
                i <= self.servers@.len(),
                servers@ == self.servers@.take(i as int),
            decreases self.servers@.len() - i,
        {
            servers.push(self.servers[i].clone_server());
            i = i + 1;
            assert(servers@ =~= self.servers@.take(i as int));
        }
        assert(servers@ =~= self.servers@);
        let mut rules: Vec<UrlMappingRule> = Vec::new();
        let mut j: usize = 0;
        while j < self.strm_url_mapping_rules.len()
            invariant
                j <= self.strm_url_mapping_rules@.len(),
                rules@ == self.strm_url_mapping_rules@.take(j as int),
            decreases self.strm_url_mapping_rules@.len() - j,
        {
            rules.push(self.strm_url_mapping_rules[j].duplicate());
            j = j + 1;
            assert(rules@ =~= self.strm_url_mapping_rules@.take(j as int));
        }
        assert(rules@ =~= self.strm_url_mapping_rules@);
        Config {
            emby_host: self.emby_host.clone(),
            emby_api_key: self.emby_api_key.clone(),
            servers,
            openlist_addr: copy_opt(&self.openlist_addr),
            openlist_token: copy_opt(&self.openlist_token),
            port: self.port,
            cache_ttl_seconds: self.cache_ttl_seconds,
            cache_max_capacity: self.cache_max_capacity,
            cache_enabled: self.cache_enabled,
            cache_domain_filter_mode: self.cache_domain_filter_mode.clone(),
            cache_domain_whitelist: self.cache_domain_whitelist.clone(),
            cache_domain_blacklist: self.cache_domain_blacklist.clone(),
            enable_internal_redirect: self.enable_internal_redirect,
            internal_redirect_timeout_seconds: self.internal_redirect_timeout_seconds,
            strm_url_mappings: self.strm_url_mappings.clone(),
            strm_url_mapping_enabled: self.strm_url_mapping_enabled,
            connectivity_check_enabled: self.connectivity_check_enabled,
            connectivity_check_interval_seconds: self.connectivity_check_interval_seconds,
            connectivity_check_timeout_seconds: self.connectivity_check_timeout_seconds,
            connectivity_auto_restart_seconds: self.connectivity_auto_restart_seconds,
            strm_url_mapping_rules: rules,
        }
    }

    /// This configuration narrowed to one server: its host, key and port become the top-level
    /// ones and it is the only server; everything else is kept.
    fn for_server(&self, server: &EmbyServerConfig) -> (r: Self)
        ensures
            is_for_server(r, *self, *server),
    {
        let mut config = self.duplicate();
        config.emby_host = server.emby_host.clone();
        config.emby_api_key = server.emby_api_key.clone();
        config.port = server.port;
        let mut one: Vec<EmbyServerConfig> = Vec::new();
        one.push(server.clone_server());
        config.servers = one;
        config
    }

    /// The configuration a server is checked against (see [`is_for_server`]).
    pub fn for_server_for_validation(&self, server: &EmbyServerConfig) -> (r: Self)
        ensures
            is_for_server(r, *self, *server),
    {
        self.for_server(server)
    }

    /// One configuration per server that is enabled and has an API key (not only blanks),
    /// in the order of the servers.
    pub fn proxy_configs(&self) -> (r: Vec<Self>)
        ensures
            r@.len() == usable_servers(self.servers@).len(),
            forall|i: int|
                0 <= i < r@.len() ==> is_for_server(
                    #[trigger] r@[i],
                    *self,
                    usable_servers(self.servers@)[i],
                ),
    {
        let mut out: Vec<Config> = Vec::new();
        let mut i: usize = 0;
        while i < self.servers.len()
            invariant
                i <= self.servers@.len(),
                out@.len() == usable_servers(self.servers@.take(i as int)).len(),
                forall|k: int|
                    0 <= k < out@.len() ==> is_for_server(
                        #[trigger] out@[k],
                        *self,
                        usable_servers(self.servers@.take(i as int))[k],
                    ),
            decreases self.servers@.len() - i,
        {
            let server = &self.servers[i];
            let ghost before = self.servers@.take(i as int);
            assert(self.servers@.take(i + 1) .drop_last() =~= before);
            let key = trimmed(server.emby_api_key.as_str());
            if server.enabled && key.len() > 0 {
                out.push(self.for_server(server));
            }
            i = i + 1;
        }
        assert(self.servers@.take(self.servers@.len() as int) =~= self.servers@);
        out
    }

    /// The configuration for the server with the given id; else for the first enabled server;
    /// else for the first server; else this configuration itself.
    pub fn proxy_config_for_server(&self, server_id: Option<&str>) -> (r: Self)
        ensures
            match picked_server(self.servers@, opt_str_view(server_id)) {
                Some(i) => is_for_server(r, *self, self.servers@[i]),
                None => same_config(r, *self),
            },
    {
        let ghost s = self.servers@;
        let by_id = match server_id {
            Some(id) => first_with_id(&self.servers, id),
            None => None,
        };
        let pick = match by_id {
            Some(i) => {
                proof {
                    let id = opt_str_view(server_id)->0;
                    assert(first_id_at(s, id, i as int));
                    let c = choose|k: int| first_id_at(s, id, k);
                    assert(c == i as int) by {
                        if c < i {
                            assert(s[c].id@ != id);
                        } else if c > i {
                            assert(s[i as int].id@ != id);
                        }
                    }
                }
                Some(i)
            },
            None => match first_enabled(&self.servers) {
                Some(i) => {
                    proof {
                        assert(first_enabled_at(s, i as int));
                        let c = choose|k: int| first_enabled_at(s, k);
                        assert(c == i as int) by {
                            if c < i {
                                assert(!s[c].enabled);
                            } else if c > i {
                                assert(!s[i as int].enabled);
                            }
                        }
                    }
                    Some(i)
                },
                None => if self.servers.len() > 0 {
                    Some(0)
                } else {
                    None
                },
            },
        };
        match pick {
            Some(i) => self.for_server(&self.servers[i]),
            None => self.duplicate(),
        }
    }
}

fn copy_opt(o: &Option<String>) -> (r: Option<String>)
    ensures
        r == *o,
{
    match o {
        Some(s) => Some(s.clone()),
        None => None,
    }
}

/// `r` is `base` narrowed to `server`.
pub open spec fn is_for_server(r: Config, base: Config, server: EmbyServerConfig) -> bool {
    &&& r.emby_host == server.emby_host
    &&& r.emby_api_key == server.emby_api_key
    &&& r.port == server.port
    &&& r.servers@ == seq![server]
    &&& same_but_servers(r, base)
}

/// A server that gets its own proxy: enabled, with an API key that is not only blanks.
pub open spec fn is_usable(s: EmbyServerConfig) -> bool {
    s.enabled && trim(s.emby_api_key@).len() > 0
}

/// The usable servers, in order.
pub open spec fn usable_servers(s: Seq<EmbyServerConfig>) -> Seq<EmbyServerConfig>
    decreases s.len(),
{
    if s.len() == 0 {
        seq![]
    } else if is_usable(s.last()) {
        usable_servers(s.drop_last()).push(s.last())
    } else {
        usable_servers(s.drop_last())
    }
}

/// `i` is the first index of `s` whose server has the id.
pub open spec fn first_id_at(s: Seq<EmbyServerConfig>, id: Seq<char>, i: int) -> bool {
    &&& 0 <= i < s.len()
    &&& s[i].id@ == id
    &&& forall|j: int| 0 <= j < i ==> (#[trigger] s[j]).id@ != id
}

/// `i` is the first index of `s` whose server is enabled.
pub open spec fn first_enabled_at(s: Seq<EmbyServerConfig>, i: int) -> bool {
    &&& 0 <= i < s.len()
    &&& s[i].enabled
    &&& forall|j: int| 0 <= j < i ==> !(#[trigger] s[j]).enabled
}

/// Which server a proxy configuration is made for: the first with the id asked for, else
/// the first enabled one, else the first one.
pub open spec fn picked_server(s: Seq<EmbyServerConfig>, id: Option<Seq<char>>) -> Option<int> {
    if id is Some && exists|i: int| first_id_at(s, id->0, i) {
        Some(choose|i: int| first_id_at(s, id->0, i))
    } else if exists|i: int| first_enabled_at(s, i) {
        Some(choose|i: int| first_enabled_at(s, i))
    } else if s.len() > 0 {
        Some(0)
    } else {
        None
    }
}

fn first_with_id(servers: &Vec<EmbyServerConfig>, id: &str) -> (r: Option<usize>)
    ensures
        match r {
            Some(i) => first_id_at(servers@, id@, i as int),
            None => forall|j: int| 0 <= j < servers@.len() ==> (#[trigger] servers@[j]).id@ != id@,
        },
{
    let mut i: usize = 0;
    while i < servers.len()
        invariant
            i <= servers@.len(),
            forall|j: int| 0 <= j < i ==> (#[trigger] servers@[j]).id@ != id@,
        decreases servers@.len() - i,
    {
        if str_eq(servers[i].id.as_str(), id) {
            return Some(i);
        }
        i = i + 1;
    }
    None
}

fn first_enabled(servers: &Vec<EmbyServerConfig>) -> (r: Option<usize>)
    ensures
        match r {
            Some(i) => first_enabled_at(servers@, i as int),
            None => forall|j: int| 0 <= j < servers@.len() ==> !(#[trigger] servers@[j]).enabled,
        },
{
    let mut i: usize = 0;
    while i < servers.len()
        invariant
            i <= servers@.len(),
            forall|j: int| 0 <= j < i ==> !(#[trigger] servers@[j]).enabled,
        decreases servers@.len() - i,
    {
        if servers[i].enabled {
            return Some(i);
        }
        i = i + 1;
    }
    None
}

/// The URL `url::Url::parse` makes of the base after `set_path(path)` and `set_query(query)`,
/// as text; the parse error's text when the base does not parse.
pub uninterp spec fn url_joined_of(base: Seq<char>, path: Seq<char>, query: Option<Seq<char>>) -> Result<
    Seq<char>,
    Seq<char>,
>;

/// `url::Url::parse(base)`, then `Url::set_path` and `Url::set_query`, and the URL as text; the
/// parse error's text on failure. The result is named by `url_joined_of` of the three.
#[verifier::external_body]
fn url_with_path_and_query(base: &str, path: &str, query: Option<&str>) -> (r: Result<String, String>)
    ensures
        result_view(r) == url_joined_of(base@, path@, opt_str_view(query)),
{
    match url::Url::parse(base) {
        Ok(mut url) => {
            url.set_path(path);
            url.set_query(query);
            Ok(url.to_string())
        },
        Err(err) => Err(err.to_string()),
    }
}

/// A path with an optional query joined to a base URL: the text before the first `?` is
/// the path, the text after it the query.
pub open spec fn joined_url_spec(base: Seq<char>, path_and_query: Seq<char>) -> Result<Seq<char>, Seq<char>> {
    url_joined_of(
        base,
        split_char(path_and_query, '?')[0],
        match crate::text::split_once(path_and_query, "?"@) {
            Some((_, q)) => Some(q),
            None => None,
        },
    )
}

/// Joins a path and query to a base URL (see [`joined_url_spec`]).
pub fn join_base_and_path(base: &str, path_and_query: &str) -> (r: Result<String, String>)
    ensures
        result_view(r) == joined_url_spec(base@, path_and_query@),
{
    let v = chars_of(path_and_query);
    let pieces = split_chars(&v, '?');
    assert(views(pieces@)[0] == pieces@[0]@);
    let path = string_of(&pieces[0]);
    let q = chars_of("?");
    match crate::text::split_once_chars(&v, &q) {
        Some((_, query)) => {
            let qs = string_of(&query);
            url_with_path_and_query(base, path.as_str(), Some(qs.as_str()))
        },
        None => url_with_path_and_query(base, path.as_str(), None),
    }
}

impl Config {
    /// An Emby API address: the path and query joined to the Emby host.
    pub fn emby_url(&self, path_and_query: &str) -> (r: Result<String, String>)
        ensures
            result_view(r) == joined_url_spec(self.emby_host@, path_and_query@),
    {
        join_base_and_path(self.emby_host.as_str(), path_and_query)
    }

    /// An OpenList address: the path joined to OpenList's address, which must be set.
    pub fn openlist_url(&self, path: &str) -> (r: Result<String, String>)
        ensures
            match self.openlist_addr {
                Some(addr) => result_view(r) == joined_url_spec(addr@, path@),
                None => r matches Err(e) && e@ == "openlist_addr is required for OpenList /d path resolving"@,
            },
    {
        match &self.openlist_addr {
            Some(addr) => join_base_and_path(addr.as_str(), path),
            None => Err(String::from_str("openlist_addr is required for OpenList /d path resolving")),
        }
    }
}

/// The pieces of the lines split at `,`, line after line.
pub open spec fn comma_pieces(ls: Seq<Seq<char>>) -> Seq<Seq<char>>
    decreases ls.len(),
{
    if ls.len() == 0 {
        Seq::empty()
    } else {
        comma_pieces(ls.drop_last()) + split_char(ls.last(), ',')
    }
}

/// The items of a trusted proxy list: split at `,` and line feeds, trimmed, non-blank.
pub open spec fn cidr_items_spec(value: Seq<char>) -> Seq<Seq<char>> {
    crate::users_api::trimmed_nonblank(comma_pieces(split_char(value, '\n')))
}

/// The items of a trusted proxy list (see [`cidr_items_spec`]); each is then read as a
/// network or a single address.
pub fn trusted_proxy_items(value: &str) -> (r: Vec<String>)
    ensures
        crate::text::string_views(r@) == cidr_items_spec(value@),
{
    let v = chars_of(value);
    let ls = split_chars(&v, '\n');
    let ghost lv = views(ls@);
    let mut pieces: Vec<String> = Vec::new();
    let mut i: usize = 0;
    assert(lv.take(0) =~= Seq::<Seq<char>>::empty());
    assert(crate::text::string_views(pieces@) =~= Seq::<Seq<char>>::empty());
    while i < ls.len()
        invariant
            i <= ls@.len(),
            lv == views(ls@),
            lv == split_char(value@, '\n'),
            crate::text::string_views(pieces@) == comma_pieces(lv.take(i as int)),
        decreases ls@.len() - i,
    {
        assert(lv.take(i + 1).drop_last() =~= lv.take(i as int));
        assert(lv.take(i + 1).last() == ls@[i as int]@);
        let parts = split_chars(&ls[i], ',');
        let ghost before = crate::text::string_views(pieces@);
        let mut k: usize = 0;
        while k < parts.len()
            invariant
                k <= parts@.len(),
                crate::text::string_views(pieces@) == before + views(parts@).take(k as int),
            decreases parts@.len() - k,
        {
            let ghost b2 = crate::text::string_views(pieces@);
            pieces.push(string_of(&parts[k]));
            assert(views(parts@).take(k + 1) =~= views(parts@).take(k as int).push(parts@[k as int]@));
            assert(crate::text::string_views(pieces@) =~= b2.push(parts@[k as int]@));
            k = k + 1;
        }
        assert(views(parts@).take(parts@.len() as int) =~= views(parts@));
        i = i + 1;
    }
    assert(lv.take(lv.len() as int) =~= lv);
    crate::users_api::normalized_policy_items(&pieces)
}

/// The texts of a list, each kept at its first occurrence.
pub open spec fn distinct_texts(s: Seq<Seq<char>>) -> Seq<Seq<char>>
    decreases s.len(),
{
    if s.len() == 0 {
        Seq::empty()
    } else if s.drop_last().contains(s.last()) {
        distinct_texts(s.drop_last())
    } else {
        distinct_texts(s.drop_last()).push(s.last())
    }
}

proof fn lemma_distinct_texts_contains(s: Seq<Seq<char>>, x: Seq<char>)
    ensures
        distinct_texts(s).contains(x) <==> s.contains(x),
    decreases s.len(),
{
    if s.len() > 0 {
        let init = s.drop_last();
        let l = s.last();
        lemma_distinct_texts_contains(init, x);
        lemma_distinct_texts_contains(init, l);
        let d = distinct_texts(init);
        let ds = distinct_texts(s);
        if s.contains(x) {
            let i = choose|i: int| 0 <= i < s.len() && s[i] == x;
            if i < s.len() - 1 {
                assert(init[i] == x);
                assert(d.contains(x));
                let j = choose|j: int| 0 <= j < d.len() && d[j] == x;
                if !init.contains(l) {
                    assert(ds[j] == x);
                }
            } else {
                if !init.contains(l) {
                    assert(ds[d.len() as int] == x);
                } else {
                    assert(d.contains(l));
                }
            }
        }
        if ds.contains(x) {
            let j = choose|j: int| 0 <= j < ds.len() && ds[j] == x;
            if init.contains(l) {
                assert(d.contains(x));
            } else if j == d.len() {
                assert(s[s.len() - 1] == x);
            } else {
                assert(d[j] == x);
                assert(d.contains(x));
            }
            if init.contains(x) {
                let i = choose|i: int| 0 <= i < init.len() && init[i] == x;
                assert(s[i] == x);
            }
        }
    }
}

/// The first item that did not read as a network, from index `i` on.
pub open spec fn first_cidr_error(parsed: Seq<Result<Seq<char>, Seq<char>>>, i: int) -> Option<int>
    decreases parsed.len() - i,
{
    if i < 0 || i >= parsed.len() {
        None
    } else if parsed[i] is Err {
        Some(i)
    } else {
        first_cidr_error(parsed, i + 1)
    }
}

/// The network texts of items that all read as networks.
pub open spec fn network_texts(parsed: Seq<Result<Seq<char>, Seq<char>>>) -> Seq<Seq<char>> {
    parsed.map_values(|r: Result<Seq<char>, Seq<char>>| r->Ok_0)
}

/// A trusted proxy list normalized, given its items and what each read as (a network's
/// canonical text, or the error of reading it): the first bad item's error, or the
/// networks, each once, one per line.
pub open spec fn trusted_networks_spec(items: Seq<Seq<char>>, parsed: Seq<Result<Seq<char>, Seq<char>>>) -> Result<
    Seq<char>,
    Seq<char>,
> {
    match first_cidr_error(parsed, 0) {
        Some(i) => Err(
            "server.trusted_proxy_cidrs contains invalid IP or CIDR "@ + items[i] + ": "@
                + parsed[i]->Err_0,
        ),
        None => Ok(join(distinct_texts(network_texts(parsed)), "\n"@)),
    }
}

/// Normalizes a trusted proxy list (see [`trusted_networks_spec`]).
pub fn normalize_trusted_networks(items: &Vec<String>, parsed: &Vec<Result<String, String>>) -> (r: Result<
    String,
    String,
>)
    requires
        items@.len() == parsed@.len(),
    ensures
        result_view(r) == trusted_networks_spec(crate::text::string_views(items@), trusted_views(parsed@)),
{
    let ghost tv = trusted_views(parsed@);
    let mut texts: Vec<Vec<char>> = Vec::new();
    let mut i: usize = 0;
    assert(network_texts(tv).take(0) =~= Seq::<Seq<char>>::empty());
    assert(distinct_texts(Seq::<Seq<char>>::empty()) =~= Seq::<Seq<char>>::empty());
    while i < parsed.len()
        invariant
            i <= parsed@.len(),
            items@.len() == parsed@.len(),
            tv == trusted_views(parsed@),
            first_cidr_error(tv, 0) == first_cidr_error(tv, i as int),
            forall|j: int| 0 <= j < i ==> tv[j] is Ok,
            views(texts@) == distinct_texts(network_texts(tv).take(i as int)),
        decreases parsed@.len() - i,
    {
        assert(tv[i as int] == result_view(parsed@[i as int]));
        match &parsed[i] {
            Err(e) => {
                let mut m = String::from_str("server.trusted_proxy_cidrs contains invalid IP or CIDR ");
                m.append(items[i].as_str());
                m.append(": ");
                m.append(e.as_str());
                assert(crate::text::string_views(items@)[i as int] == items@[i as int]@);
                return Err(m);
            },
            Ok(t) => {
                let tc = chars_of(t.as_str());
                let ghost prefix = network_texts(tv).take(i as int);
                assert(network_texts(tv).take(i + 1) =~= prefix.push(t@));
                assert(network_texts(tv).take(i + 1).drop_last() =~= prefix);
                proof {
                    lemma_distinct_texts_contains(prefix, t@);
                }
                let mut seen = false;
                let mut k: usize = 0;
                while k < texts.len()
                    invariant
                        k <= texts@.len(),
                        seen == exists|j: int| 0 <= j < k && texts@[j]@ == tc@,
                    decreases texts@.len() - k,
                {
                    if crate::text::chars_eq(&texts[k], &tc) {
                        seen = true;
                    }
                    k = k + 1;
                }
                assert(seen == views(texts@).contains(t@)) by {
                    if seen {
                        let j = choose|j: int| 0 <= j < k && texts@[j]@ == tc@;
                        assert(views(texts@)[j] == t@);
                    }
                    if views(texts@).contains(t@) {
                        let j = choose|j: int| 0 <= j < views(texts@).len() && views(texts@)[j] == t@;
                        assert(texts@[j]@ == tc@);
                    }
                }
                if !seen {
                    let ghost before = views(texts@);
                    texts.push(tc);
                    assert(views(texts@) =~= before.push(t@));
                }
            },
        }
        i = i + 1;
    }
    assert(network_texts(tv).take(tv.len() as int) =~= network_texts(tv));
    let nl = chars_of("\n");
    Ok(string_of(&join_chars(&texts, &nl)))
}


/// The canonical text of an IP network (`ipnet::IpNet`, host bits cleared), or the text of
/// the error of reading it.
pub uninterp spec fn ip_net_normalized_of(item: Seq<char>) -> Result<Seq<char>, Seq<char>>;

/// The text of the network that holds exactly one IP address, where the text is one.
pub uninterp spec fn single_address_net_of(item: Seq<char>) -> Option<Seq<char>>;

/// The canonical text of an IP address (an IPv4-mapped IPv6 address as IPv4), where the text
/// is one.
pub uninterp spec fn canonical_ip_of(addr: Seq<char>) -> Option<Seq<char>>;

/// Whether a network text holds an address text; `false` where either cannot be read.
pub uninterp spec fn network_contains_of(network: Seq<char>, addr: Seq<char>) -> bool;

/// `item.parse::<ipnet::IpNet>()`, then `trunc` and `to_string`: named by
/// `ip_net_normalized_of`.
#[verifier::external_body]
fn ip_net_normalized(item: &str) -> (r: Result<String, String>)
    ensures
        result_view(r) == ip_net_normalized_of(item@),
{
    match item.parse::<ipnet::IpNet>() {
        Ok(network) => Ok(network.trunc().to_string()),
        Err(err) => Err(err.to_string()),
    }
}

/// `item.parse::<IpAddr>()`, then `ipnet::IpNet::from` and `to_string`: named by
/// `single_address_net_of`.
#[verifier::external_body]
fn single_address_net(item: &str) -> (r: Option<String>)
    ensures
        opt_string_view(r) == single_address_net_of(item@),
{
    match item.parse::<core::net::IpAddr>() {
        Ok(ip) => Some(ipnet::IpNet::from(ip).to_string()),
        Err(_) => None,
    }
}

/// `addr.parse::<IpAddr>()`, then `to_canonical` and `to_string`: named by `canonical_ip_of`.
#[verifier::external_body]
fn canonical_ip(addr: &str) -> (r: Option<String>)
    ensures
        opt_string_view(r) == canonical_ip_of(addr@),
{
    match addr.parse::<core::net::IpAddr>() {
        Ok(ip) => Some(ip.to_canonical().to_string()),
        Err(_) => None,
    }
}

/// `ipnet::IpNet::contains` of the parsed address in the parsed network: named by
/// `network_contains_of`.
#[verifier::external_body]
fn network_contains(network: &str, addr: &str) -> (r: bool)
    ensures
        r == network_contains_of(network@, addr@),
{
    match (network.parse::<ipnet::IpNet>(), addr.parse::<core::net::IpAddr>()) {
        (Ok(net), Ok(ip)) => net.contains(&ip),
        _ => false,
    }
}

/// How one trusted proxy item reads: as a network (host bits cleared), or failing that as a
/// single address; the network reader's error otherwise.
pub open spec fn trusted_item_spec(item: Seq<char>) -> Result<Seq<char>, Seq<char>> {
    match ip_net_normalized_of(item) {
        Ok(n) => Ok(n),
        Err(e) => match single_address_net_of(item) {
            Some(n) => Ok(n),
            None => Err(e),
        },
    }
}

/// Reads one trusted proxy item (see [`trusted_item_spec`]).
pub fn parse_trusted_item(item: &str) -> (r: Result<String, String>)
    ensures
        result_view(r) == trusted_item_spec(item@),
{
    match ip_net_normalized(item) {
        Ok(n) => Ok(n),
        Err(e) => match single_address_net(item) {
            Some(n) => Ok(n),
            None => Err(e),
        },
    }
}

/// A trusted proxy list normalized: its items read in turn, then the first bad item's error
/// or the networks, each once, one per line.
pub open spec fn trusted_cidrs_spec(value: Seq<char>) -> Result<Seq<char>, Seq<char>> {
    let items = cidr_items_spec(value);
    trusted_networks_spec(items, items.map_values(|it: Seq<char>| trusted_item_spec(it)))
}

/// Normalizes a trusted proxy list (see [`trusted_cidrs_spec`]).
pub fn normalize_trusted_proxy_cidrs(value: &str) -> (r: Result<String, String>)
    ensures
        result_view(r) == trusted_cidrs_spec(value@),
{
    let items = trusted_proxy_items(value);
    let ghost iv = crate::text::string_views(items@);
    let mut parsed: Vec<Result<String, String>> = Vec::new();
    let mut i: usize = 0;
    while i < items.len()
        invariant
            i <= items@.len(),
            iv == crate::text::string_views(items@),
            parsed@.len() == i,
            forall|j: int| 0 <= j < i ==> #[trigger] result_view(parsed@[j]) == trusted_item_spec(iv[j]),
        decreases items@.len() - i,
    {
        let p = parse_trusted_item(items[i].as_str());
        parsed.push(p);
        i = i + 1;
    }
    assert(trusted_views(parsed@) =~= iv.map_values(|it: Seq<char>| trusted_item_spec(it)));
    normalize_trusted_networks(&items, &parsed)
}

/// The normalized trusted proxy list of each server.
pub open spec fn trusted_outcomes(servers: Seq<EmbyServerConfig>) -> Seq<Result<Seq<char>, Seq<char>>> {
    servers.map_values(|s: EmbyServerConfig| trusted_cidrs_spec(s.trusted_proxy_cidrs@))
}

/// Each server's trusted proxy list normalized (see [`normalize_trusted_proxy_cidrs`]).
pub fn trusted_lists(servers: &Vec<EmbyServerConfig>) -> (r: Vec<Result<String, String>>)
    ensures
        r@.len() == servers@.len(),
        trusted_views(r@) == trusted_outcomes(servers@),
{
    let mut out: Vec<Result<String, String>> = Vec::new();
    let mut i: usize = 0;
    while i < servers.len()
        invariant
            i <= servers@.len(),
            out@.len() == i,
            forall|j: int| 0 <= j < i ==> #[trigger] result_view(out@[j]) == trusted_cidrs_spec(
                servers@[j].trusted_proxy_cidrs@,
            ),
        decreases servers@.len() - i,
    {
        let t = normalize_trusted_proxy_cidrs(servers[i].trusted_proxy_cidrs.as_str());
        out.push(t);
        i = i + 1;
    }
    assert(trusted_views(out@) =~= trusted_outcomes(servers@));
    out
}

impl Config {
    /// Normalizes the server list, each server's trusted proxies normalized by
    /// [`normalize_trusted_proxy_cidrs`] (see [`Config::normalize_servers_with`]).
    pub fn normalize_servers(&mut self) -> (r: Result<(), String>)
        ensures
            servers_settled(*old(self), *final(self), r, trusted_outcomes(old(self).servers@)),
    {
        let trusted = trusted_lists(&self.servers);
        self.normalize_servers_with(&trusted)
    }

    /// Normalizes and checks the configuration, each server's trusted proxies normalized by
    /// [`normalize_trusted_proxy_cidrs`] (see [`Config::normalize_and_validate_with`]).
    pub fn normalize_and_validate(&mut self) -> (r: Result<(), String>)
        ensures
            config_settled(*old(self), *final(self), r, trusted_outcomes(old(self).servers@)),
    {
        let trusted = trusted_lists(&self.servers);
        self.normalize_and_validate_with(&trusted)
    }

    /// Checks a configuration before it is stored (see [`Config::normalize_and_validate`]).
    pub fn validate_for_storage(&mut self) -> (r: Result<(), String>)
        ensures
            r is Ok <==> (servers_outcome(*old(self), trusted_outcomes(old(self).servers@)) is Ok
                && settings_error(*old(self)) is None),
    {
        let trusted = trusted_lists(&self.servers);
        self.validate_for_storage_with(&trusted)
    }
}

/// Whether a peer is one of a server's trusted proxies: its address, an IPv4-mapped IPv6
/// address taken as IPv4, lies in one of the networks of the (normalized) trusted list.
pub open spec fn trusted_peer_spec(cidrs: Seq<char>, peer_ip: Seq<char>) -> bool {
    match canonical_ip_of(peer_ip) {
        None => false,
        Some(ip) => exists|i: int|
            0 <= i < cidr_items_spec(cidrs).len() && network_contains_of(
                #[trigger] cidr_items_spec(cidrs)[i],
                ip,
            ),
    }
}

impl EmbyServerConfig {
    /// Whether a peer address is one of this server's trusted proxies (see
    /// [`trusted_peer_spec`]).
    pub fn is_trusted_proxy(&self, peer_ip: &str) -> (r: bool)
        ensures
            r == trusted_peer_spec(self.trusted_proxy_cidrs@, peer_ip@),
    {
        let ip = match canonical_ip(peer_ip) {
            Some(ip) => ip,
            None => return false,
        };
        let items = trusted_proxy_items(self.trusted_proxy_cidrs.as_str());
        let ghost iv = crate::text::string_views(items@);
        let mut i: usize = 0;
        while i < items.len()
            invariant
                i <= items@.len(),
                iv == crate::text::string_views(items@),
                iv == cidr_items_spec(self.trusted_proxy_cidrs@),
                canonical_ip_of(peer_ip@) == Some(ip@),
                forall|j: int| 0 <= j < i ==> !network_contains_of(#[trigger] iv[j], ip@),
            decreases items@.len() - i,
        {
            if network_contains(items[i].as_str(), ip.as_str()) {
                assert(iv[i as int] == items@[i as int]@);
                assert(network_contains_of(cidr_items_spec(self.trusted_proxy_cidrs@)[i as int], ip@));
                return true;
            }
            assert(iv[i as int] == items@[i as int]@);
            i = i + 1;
        }
        false
    }
}

} // verus!
