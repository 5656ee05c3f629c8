//! Client control: user-agent rules, webhook settings, playback rate limiting and the
//! concurrent playback limit.

pub mod blocks;
pub mod webhooks;
pub mod sessions;
pub mod backup;
pub mod limiter;
pub mod status;
pub mod rules;

use vstd::prelude::*;
use vstd::string::StringExecFns;
use crate::emby::PlaybackSession;
use crate::ip_location::IpLocation;
use crate::text::{
    chars_eq, chars_eq_ignore_case, chars_eq_str, chars_of, contains, contains_chars,
    eq_ignore_case, lower, lower_chars, split_once, split_once_chars, string_of, trim,
    trim_chars, trimmed,
};

verus! {

pub const PLAYBACK_RATE_RECENT_EVENT_TTL_SECONDS: u64 = 5;
pub const PLAYBACK_RATE_STATE_CAPACITY: usize = 4096;
pub const PLAYBACK_RATE_MAX_WINDOW_SECONDS: u64 = 86400;
pub const PLAYBACK_RATE_MAX_REQUESTS: u64 = 1000;
pub const PLAYBACK_RATE_MAX_BLOCK_SECONDS: u64 = 2678400;
pub const CONCURRENT_PLAYBACK_MAX: u64 = 100;

/// One counted playback request.
#[derive(Debug, Clone)]
pub struct PlaybackRateHit {
    pub timestamp: u64,
    pub user_name: String,
}

/// Where a user-agent rule came from.
#[derive(Debug, Clone, Copy, PartialEq, Eq, Structural)]
pub enum ClientRuleSource {
    Auto,
    Manual,
}

/// A user-agent rule; enabled rules block the clients whose user agent contains it.
#[derive(Debug, Clone)]
pub struct ClientRuleRecord {
    pub id: String,
    pub client_name: String,
    pub device_name: String,
    pub user_name: String,
    pub user_agent: String,
    pub source: ClientRuleSource,
    pub enabled: bool,
    pub created_at: String,
    pub updated_at: String,
    pub note: String,
}

/// The text of a [`ClientRuleRecord`].
pub struct RuleView {
    pub id: Seq<char>,
    pub client_name: Seq<char>,
    pub device_name: Seq<char>,
    pub user_name: Seq<char>,
    pub user_agent: Seq<char>,
    pub source: ClientRuleSource,
    pub enabled: bool,
    pub created_at: Seq<char>,
    pub updated_at: Seq<char>,
    pub note: Seq<char>,
}

impl View for ClientRuleRecord {
    type V = RuleView;

    open spec fn view(&self) -> RuleView {
        RuleView {
            id: self.id@,
            client_name: self.client_name@,
            device_name: self.device_name@,
            user_name: self.user_name@,
            user_agent: self.user_agent@,
            source: self.source,
            enabled: self.enabled,
            created_at: self.created_at@,
            updated_at: self.updated_at@,
            note: self.note@,
        }
    }
}

/// A webhook that receives notifications as a JSON POST.
#[derive(Debug, Clone)]
pub struct WebhookNotifyConfig {
    pub id: String,
    pub enabled: bool,
    pub name: String,
    pub url: String,
    pub secret: String,
}

/// The text of a [`WebhookNotifyConfig`].
pub struct WebhookView {
    pub id: Seq<char>,
    pub enabled: bool,
    pub name: Seq<char>,
    pub url: Seq<char>,
    pub secret: Seq<char>,
}

impl View for WebhookNotifyConfig {
    type V = WebhookView;

    open spec fn view(&self) -> WebhookView {
        WebhookView {
            id: self.id@,
            enabled: self.enabled,
            name: self.name@,
            url: self.url@,
            secret: self.secret@,
        }
    }
}

/// A block that the rate or concurrent playback limit placed on an IP or a user.
#[derive(Debug, Clone)]
pub struct PlaybackRateBlockRecord {
    pub id: String,
    pub server_id: String,
    pub server_name: String,
    pub action: String,
    pub ip: String,
    pub user_name: String,
    pub blocked_until: String,
    pub created_at: String,
    pub enabled: bool,
    pub note: String,
    pub ip_location: Option<IpLocation>,
}

/// The text of a [`PlaybackRateBlockRecord`].
pub struct BlockView {
    pub id: Seq<char>,
    pub server_id: Seq<char>,
    pub server_name: Seq<char>,
    pub action: Seq<char>,
    pub ip: Seq<char>,
    pub user_name: Seq<char>,
    pub blocked_until: Seq<char>,
    pub created_at: Seq<char>,
    pub enabled: bool,
    pub note: Seq<char>,
    pub ip_location: Option<IpLocation>,
}

impl View for PlaybackRateBlockRecord {
    type V = BlockView;

    open spec fn view(&self) -> BlockView {
        BlockView {
            id: self.id@,
            server_id: self.server_id@,
            server_name: self.server_name@,
            action: self.action@,
            ip: self.ip@,
            user_name: self.user_name@,
            blocked_until: self.blocked_until@,
            created_at: self.created_at@,
            enabled: self.enabled,
            note: self.note@,
            ip_location: self.ip_location,
        }
    }
}

/// The rate-limit window of one IP or user, as the status page shows it.
#[derive(Debug)]
pub struct PlaybackRateWindowStatus {
    pub server_id: String,
    pub block_id: Option<String>,
    pub block_action: Option<String>,
    pub user_name: String,
    pub ip: String,
    pub ip_location: Option<IpLocation>,
    pub current_count: u64,
    pub threshold: u64,
    pub remaining: u64,
    pub window_seconds: u64,
    pub reset_at: String,
    pub blocked: bool,
}

/// Client control settings, rules and active blocks.
#[derive(Debug, Clone)]
pub struct ClientControlConfig {
    pub enabled: bool,
    pub notify_enabled: bool,
    pub playback_rate_limit_enabled: bool,
    pub playback_rate_limit_window_seconds: u64,
    pub playback_rate_limit_max_requests: u64,
    pub playback_rate_limit_block_seconds: u64,
    pub playback_rate_limit_action: String,
    pub concurrent_playback_limit_enabled: bool,
    pub concurrent_playback_limit_max: u64,
    pub rate_limit_blocks: Vec<PlaybackRateBlockRecord>,
    pub webhook: WebhookNotifyConfig,
    pub webhooks: Vec<WebhookNotifyConfig>,
    pub records: Vec<ClientRuleRecord>,
}

/// The settings part of a client control update.
#[derive(Debug)]
pub struct UpdateClientControlRequest {
    pub enabled: bool,
    pub notify_enabled: bool,
    pub playback_rate_limit_enabled: bool,
    pub playback_rate_limit_window_seconds: u64,
    pub playback_rate_limit_max_requests: u64,
    pub playback_rate_limit_block_seconds: u64,
    pub playback_rate_limit_action: String,
    pub concurrent_playback_limit_enabled: bool,
    pub concurrent_playback_limit_max: u64,
    pub webhook: WebhookNotifyConfig,
    pub webhooks: Vec<WebhookNotifyConfig>,
}

/// A manual user-agent rule to add.
#[derive(Debug)]
pub struct AddUserAgentRuleRequest {
    pub user_agent: String,
    pub note: Option<String>,
}

#[derive(Debug)]
pub struct ToggleClientRuleRequest {
    pub id: String,
    pub enabled: bool,
}

#[derive(Debug)]
pub struct DeleteClientRuleRequest {
    pub id: String,
}

#[derive(Debug)]
pub struct UnblockRateLimitRequest {
    pub id: String,
}

#[derive(Debug)]
pub struct WebhookTestResponse {
    pub ok: bool,
}

#[derive(Debug)]
pub struct WebhookTestRequest {
    pub url: String,
    pub secret: Option<String>,
    pub title: String,
    pub text: String,
}

// ---------------------------------------------------------------------------------------
// Defaults and limits
// ---------------------------------------------------------------------------------------

pub fn default_playback_rate_limit_window_seconds() -> (r: u64)
    ensures
        r == 60,
{
    60
}

pub fn default_playback_rate_limit_max_requests() -> (r: u64)
    ensures
        r == 20,
{
    20
}

pub fn default_playback_rate_limit_block_seconds() -> (r: u64)
    ensures
        r == 1800,
{
    1800
}

pub fn default_playback_rate_limit_action() -> (r: String)
    ensures
        r@ == "block_ip"@,
{
    String::from_str("block_ip")
}

pub fn default_concurrent_playback_limit_max() -> (r: u64)
    ensures
        r == 3,
{
    3
}

pub open spec fn default_webhook_name_spec() -> Seq<char> {
    "新建 Webhook"@
}

pub fn default_webhook_name() -> (r: String)
    ensures
        r@ == default_webhook_name_spec(),
{
    String::from_str("新建 Webhook")
}

impl WebhookNotifyConfig {
    /// A disabled webhook with the default name and no address.
    pub fn default_webhook() -> (r: Self)
        ensures
            r@.id.len() == 0,
            !r@.enabled,
            r@.name == default_webhook_name_spec(),
            r@.url.len() == 0,
            r@.secret.len() == 0,
    {
        WebhookNotifyConfig {
            id: String::new(),
            enabled: false,
            name: default_webhook_name(),
            url: String::new(),
            secret: String::new(),
        }
    }
}

impl Default for WebhookNotifyConfig {
    fn default() -> (r: Self)
        ensures
            r@.id.len() == 0,
            !r@.enabled,
            r@.name == default_webhook_name_spec(),
            r@.url.len() == 0,
            r@.secret.len() == 0,
    {
        WebhookNotifyConfig::default_webhook()
    }
}

/// The settings a fresh installation starts with.
pub open spec fn is_default_config(c: ClientControlConfig) -> bool {
    &&& !c.enabled
    &&& !c.notify_enabled
    &&& !c.playback_rate_limit_enabled
    &&& c.playback_rate_limit_window_seconds == 60
    &&& c.playback_rate_limit_max_requests == 20
    &&& c.playback_rate_limit_block_seconds == 1800
    &&& c.playback_rate_limit_action@ == "block_ip"@
    &&& !c.concurrent_playback_limit_enabled
    &&& c.concurrent_playback_limit_max == 3
    &&& c.rate_limit_blocks@.len() == 0
    &&& c.webhook@.id.len() == 0
    &&& !c.webhook@.enabled
    &&& c.webhook@.name == default_webhook_name_spec()
    &&& c.webhook@.url.len() == 0
    &&& c.webhook@.secret.len() == 0
    &&& c.webhooks@.len() == 0
    &&& c.records@.len() == 0
}

pub fn default_config() -> (c: ClientControlConfig)
    ensures
        is_default_config(c),
{
    ClientControlConfig {
        enabled: false,
        notify_enabled: false,
        playback_rate_limit_enabled: false,
        playback_rate_limit_window_seconds: default_playback_rate_limit_window_seconds(),
        playback_rate_limit_max_requests: default_playback_rate_limit_max_requests(),
        playback_rate_limit_block_seconds: default_playback_rate_limit_block_seconds(),
        playback_rate_limit_action: default_playback_rate_limit_action(),
        concurrent_playback_limit_enabled: false,
        concurrent_playback_limit_max: default_concurrent_playback_limit_max(),
        rate_limit_blocks: Vec::new(),
        webhook: WebhookNotifyConfig::default_webhook(),
        webhooks: Vec::new(),
        records: Vec::new(),
    }
}

pub open spec fn clamp(v: u64, lo: u64, hi: u64) -> u64 {
    if v < lo {
        lo
    } else if v > hi {
        hi
    } else {
        v
    }
}

pub fn clamp_u64(v: u64, lo: u64, hi: u64) -> (r: u64)
    requires
        lo <= hi,
    ensures
        r == clamp(v, lo, hi),
{
    if v < lo {
        lo
    } else if v > hi {
        hi
    } else {
        v
    }
}

/// Clamps the window, request, block and concurrency limits to their allowed ranges and
/// tells whether any of them changed.
pub fn normalize_client_control_limits(config: &mut ClientControlConfig) -> (changed: bool)
    ensures
        final(config).playback_rate_limit_window_seconds == clamp(
            old(config).playback_rate_limit_window_seconds,
            1,
            PLAYBACK_RATE_MAX_WINDOW_SECONDS,
        ),
        final(config).playback_rate_limit_max_requests == clamp(
            old(config).playback_rate_limit_max_requests,
            1,
            PLAYBACK_RATE_MAX_REQUESTS,
        ),
        final(config).playback_rate_limit_block_seconds == clamp(
            old(config).playback_rate_limit_block_seconds,
            1,
            PLAYBACK_RATE_MAX_BLOCK_SECONDS,
        ),
        final(config).concurrent_playback_limit_max == clamp(
            old(config).concurrent_playback_limit_max,
            1,
            CONCURRENT_PLAYBACK_MAX,
        ),
        final(config).enabled == old(config).enabled,
        final(config).notify_enabled == old(config).notify_enabled,
        final(config).playback_rate_limit_enabled == old(config).playback_rate_limit_enabled,
        final(config).playback_rate_limit_action == old(config).playback_rate_limit_action,
        final(config).concurrent_playback_limit_enabled
            == old(config).concurrent_playback_limit_enabled,
        final(config).rate_limit_blocks == old(config).rate_limit_blocks,
        final(config).webhook == old(config).webhook,
        final(config).webhooks == old(config).webhooks,
        final(config).records == old(config).records,
        changed == (final(config).playback_rate_limit_window_seconds
            != old(config).playback_rate_limit_window_seconds
            || final(config).playback_rate_limit_max_requests
            != old(config).playback_rate_limit_max_requests
            || final(config).playback_rate_limit_block_seconds
            != old(config).playback_rate_limit_block_seconds
            || final(config).concurrent_playback_limit_max
            != old(config).concurrent_playback_limit_max),
{
    let previous = (
        config.playback_rate_limit_window_seconds,
        config.playback_rate_limit_max_requests,
        config.playback_rate_limit_block_seconds,
        config.concurrent_playback_limit_max,
    );
    config.playback_rate_limit_window_seconds = clamp_u64(
        config.playback_rate_limit_window_seconds,
        1,
        PLAYBACK_RATE_MAX_WINDOW_SECONDS,
    );
    config.playback_rate_limit_max_requests = clamp_u64(
        config.playback_rate_limit_max_requests,
        1,
        PLAYBACK_RATE_MAX_REQUESTS,
    );
    config.playback_rate_limit_block_seconds = clamp_u64(
        config.playback_rate_limit_block_seconds,
        1,
        PLAYBACK_RATE_MAX_BLOCK_SECONDS,
    );
    config.concurrent_playback_limit_max = clamp_u64(
        config.concurrent_playback_limit_max,
        1,
        CONCURRENT_PLAYBACK_MAX,
    );
    previous.0 != config.playback_rate_limit_window_seconds || previous.1
        != config.playback_rate_limit_max_requests || previous.2
        != config.playback_rate_limit_block_seconds || previous.3
        != config.concurrent_playback_limit_max
}

// ---------------------------------------------------------------------------------------
// Actions
// ---------------------------------------------------------------------------------------

/// The action that a configured action name stands for.
pub open spec fn normalize_action_spec(action: Seq<char>) -> Seq<char> {
    let a = lower(trim(action));
    if a == "disable_user"@ || a == "user"@ || a == "disable"@ {
        "disable_user"@
    } else if a == "block_user"@ || a == "user_block"@ {
        "block_user"@
    } else if a == "mixed"@ || a == "both"@ || a == "all"@ || a == "disable_user_and_block_ip"@ {
        "mixed"@
    } else {
        "block_ip"@
    }
}

/// `disable_user`, `block_user`, `mixed` or `block_ip`, with the aliases the panel accepts.
pub fn normalize_playback_rate_limit_action(action: &str) -> (r: String)
    ensures
        r@ == normalize_action_spec(action@),
{
    let t = trimmed(action);
    let a = lower_chars(&t);
    if chars_eq_str(&a, "disable_user") || chars_eq_str(&a, "user") || chars_eq_str(&a, "disable") {
        String::from_str("disable_user")
    } else if chars_eq_str(&a, "block_user") || chars_eq_str(&a, "user_block") {
        String::from_str("block_user")
    } else if chars_eq_str(&a, "mixed") || chars_eq_str(&a, "both") || chars_eq_str(&a, "all")
        || chars_eq_str(&a, "disable_user_and_block_ip") {
        String::from_str("mixed")
    } else {
        String::from_str("block_ip")
    }
}

pub open spec fn action_requires_user_spec(action: Seq<char>) -> bool {
    action == "disable_user"@ || action == "block_user"@
}

pub open spec fn action_disables_user_spec(action: Seq<char>) -> bool {
    action == "disable_user"@ || action == "mixed"@
}

pub open spec fn action_blocks_ip_spec(action: Seq<char>) -> bool {
    action == "block_ip"@ || action == "mixed"@
}

pub open spec fn action_uses_user_key_spec(action: Seq<char>) -> bool {
    action == "disable_user"@ || action == "block_user"@
}

/// The action only makes sense when the request names a user.
pub fn action_requires_user(action: &str) -> (r: bool)
    ensures
        r == action_requires_user_spec(action@),
{
    let a = chars_of(action);
    chars_eq_str(&a, "disable_user") || chars_eq_str(&a, "block_user")
}

/// The action disables the Emby user.
pub fn action_disables_user(action: &str) -> (r: bool)
    ensures
        r == action_disables_user_spec(action@),
{
    let a = chars_of(action);
    chars_eq_str(&a, "disable_user") || chars_eq_str(&a, "mixed")
}

/// The action blocks the client IP.
pub fn action_blocks_ip(action: &str) -> (r: bool)
    ensures
        r == action_blocks_ip_spec(action@),
{
    let a = chars_of(action);
    chars_eq_str(&a, "block_ip") || chars_eq_str(&a, "mixed")
}

/// Blocks of this action are keyed by user rather than by IP.
pub fn action_uses_user_key(action: &str) -> (r: bool)
    ensures
        r == action_uses_user_key_spec(action@),
{
    let a = chars_of(action);
    chars_eq_str(&a, "disable_user") || chars_eq_str(&a, "block_user")
}

pub open spec fn action_label_spec(action: Seq<char>) -> Seq<char> {
    if action == "disable_user"@ {
        "禁用用户"@
    } else if action == "block_user"@ {
        "封禁用户"@
    } else if action == "mixed"@ {
        "混合模式"@
    } else {
        "屏蔽 IP"@
    }
}

/// The label that logs and notifications show for an action.
pub fn rate_limit_action_label(action: &str) -> (r: &'static str)
    ensures
        r@ == action_label_spec(action@),
{
    let a = chars_of(action);
    if chars_eq_str(&a, "disable_user") {
        "禁用用户"
    } else if chars_eq_str(&a, "block_user") {
        "封禁用户"
    } else if chars_eq_str(&a, "mixed") {
        "混合模式"
    } else {
        "屏蔽 IP"
    }
}

// ---------------------------------------------------------------------------------------
// User-agent rules
// ---------------------------------------------------------------------------------------

/// A value shown in place of an empty one.
pub open spec fn normalize_value_spec(value: Seq<char>) -> Seq<char> {
    if trim(value).len() == 0 {
        "--"@
    } else {
        trim(value)
    }
}

/// The trimmed value, or `--` when nothing is left.
pub fn normalize_value(value: &str) -> (r: String)
    ensures
        r@ == normalize_value_spec(value@),
{
    let t = trimmed(value);
    if t.len() == 0 {
        String::from_str("--")
    } else {
        string_of(&t)
    }
}

/// A manual rule is kept as typed, without surrounding white space.
pub fn normalize_manual_user_agent_rule(user_agent: &str) -> (r: String)
    ensures
        r@ == trim(user_agent@),
{
    let t = trimmed(user_agent);
    string_of(&t)
}

/// The family part of an automatically recorded user agent: the text before the first
/// `/`, when that is not blank.
pub open spec fn auto_rule_spec(user_agent: Seq<char>) -> Seq<char> {
    let v = trim(user_agent);
    if v.len() == 0 {
        Seq::empty()
    } else {
        match split_once(v, "/"@) {
            Some((name, rest)) => if trim(name).len() > 0 {
                trim(name)
            } else {
                v
            },
            None => v,
        }
    }
}

/// `Infuse-Direct/8.4.5` becomes `Infuse-Direct`: recorded clients are grouped by name.
pub fn normalize_auto_user_agent_rule(user_agent: &str) -> (r: String)
    ensures
        r@ == auto_rule_spec(user_agent@),
{
    let v = trimmed(user_agent);
    if v.len() == 0 {
        return String::new();
    }
    let slash = chars_of("/");
    match split_once_chars(&v, &slash) {
        Some((name, _rest)) => {
            let n = trim_chars(&name);
            if n.len() > 0 {
                string_of(&n)
            } else {
                string_of(&v)
            }
        },
        None => string_of(&v),
    }
}

/// A rule matches a user agent that contains it, ignoring ASCII case; an empty rule
/// matches nothing.
pub open spec fn rule_matches_spec(rule_user_agent: Seq<char>, user_agent: Seq<char>) -> bool {
    let rule = lower(trim(rule_user_agent));
    let request = lower(trim(user_agent));
    rule.len() > 0 && request.len() > 0 && contains(request, rule)
}

pub fn rule_matches(record: &ClientRuleRecord, user_agent: &str) -> (r: bool)
    ensures
        r == rule_matches_spec(record.user_agent@, user_agent@),
{
    let rule_t = trimmed(record.user_agent.as_str());
    let rule = lower_chars(&rule_t);
    if rule.len() == 0 {
        return false;
    }
    let req_t = trimmed(user_agent);
    let request = lower_chars(&req_t);
    request.len() > 0 && contains_chars(&request, &rule)
}

/// A rough device family guessed from a user agent.
pub open spec fn client_name_spec(user_agent: Seq<char>) -> Seq<char> {
    let ua = lower(user_agent);
    if contains(ua, "android tv"@) || contains(ua, "shield"@) || contains(ua, "kodi"@) {
        "Android TV"@
    } else if contains(ua, "iphone"@) || contains(ua, "ipad"@) || contains(ua, "ios"@) {
        "iOS"@
    } else if contains(ua, "apple tv"@) || contains(ua, "tvos"@) {
        "Apple TV"@
    } else if contains(ua, "mac"@) || contains(ua, "windows"@) || contains(ua, "linux"@) {
        "桌面端"@
    } else {
        "其它"@
    }
}

fn lower_contains(ua: &Vec<char>, lit: &str) -> (r: bool)
    ensures
        r == contains(ua@, lit@),
{
    let p = chars_of(lit);
    contains_chars(ua, &p)
}

pub fn normalize_client_name(user_agent: &str) -> (r: String)
    ensures
        r@ == client_name_spec(user_agent@),
{
    let raw = chars_of(user_agent);
    let ua = lower_chars(&raw);
    if lower_contains(&ua, "android tv") || lower_contains(&ua, "shield") || lower_contains(
        &ua,
        "kodi",
    ) {
        String::from_str("Android TV")
    } else if lower_contains(&ua, "iphone") || lower_contains(&ua, "ipad") || lower_contains(
        &ua,
        "ios",
    ) {
        String::from_str("iOS")
    } else if lower_contains(&ua, "apple tv") || lower_contains(&ua, "tvos") {
        String::from_str("Apple TV")
    } else if lower_contains(&ua, "mac") || lower_contains(&ua, "windows") || lower_contains(
        &ua,
        "linux",
    ) {
        String::from_str("桌面端")
    } else {
        String::from_str("其它")
    }
}

/// Lexicographic order of character sequences, as `String`'s `<`.
pub open spec fn lex_less(a: Seq<char>, b: Seq<char>) -> bool
    decreases a.len(),
{
    if b.len() == 0 {
        false
    } else if a.len() == 0 {
        true
    } else if a[0] != b[0] {
        (a[0] as u32) < (b[0] as u32)
    } else {
        lex_less(a.drop_first(), b.drop_first())
    }
}

pub proof fn lemma_lex_irreflexive(a: Seq<char>)
    ensures
        !lex_less(a, a),
    decreases a.len(),
{
    if a.len() > 0 {
        lemma_lex_irreflexive(a.drop_first());
    }
}

pub proof fn lemma_lex_transitive(a: Seq<char>, b: Seq<char>, c: Seq<char>)
    requires
        lex_less(a, b),
        lex_less(b, c),
    ensures
        lex_less(a, c),
    decreases a.len(),
{
    if a.len() > 0 && a[0] == b[0] && b[0] == c[0] {
        lemma_lex_transitive(a.drop_first(), b.drop_first(), c.drop_first());
    }
}

pub proof fn lemma_lex_total(a: Seq<char>, b: Seq<char>)
    ensures
        a == b || lex_less(a, b) || lex_less(b, a),
    decreases a.len(),
{
    if a.len() > 0 && b.len() > 0 {
        if a[0] == b[0] {
            lemma_lex_total(a.drop_first(), b.drop_first());
            if a.drop_first() == b.drop_first() {
                assert(a =~= seq![a[0]] + a.drop_first());
                assert(b =~= seq![b[0]] + b.drop_first());
            }
        } else {
            lemma_char_code_injective(a[0], b[0]);
        }
    } else if a.len() == 0 && b.len() == 0 {
        assert(a =~= b);
    }
}

proof fn lemma_char_code_injective(x: char, y: char)
    requires
        x != y,
    ensures
        (x as u32) != (y as u32),
{
    assert(0 <= x as int <= 0x10FFFF);
    assert(0 <= y as int <= 0x10FFFF);
    assert((x as int) != (y as int));
}

/// `a` comes no later than `b` in `String` order.
pub open spec fn lex_le(a: Seq<char>, b: Seq<char>) -> bool {
    !lex_less(b, a)
}

pub proof fn lemma_lex_less_then_le(a: Seq<char>, b: Seq<char>, c: Seq<char>)
    requires
        lex_less(a, b),
        lex_le(b, c),
    ensures
        lex_less(a, c),
{
    lemma_lex_total(b, c);
    if b != c {
        lemma_lex_transitive(a, b, c);
    }
}

pub proof fn lemma_lex_asymmetric(a: Seq<char>, b: Seq<char>)
    requires
        lex_less(a, b),
    ensures
        !lex_less(b, a),
{
    if lex_less(b, a) {
        lemma_lex_transitive(a, b, a);
        lemma_lex_irreflexive(a);
    }
}

/// `a < b` for strings.
pub fn str_less(a: &str, b: &str) -> (r: bool)
    ensures
        r == lex_less(a@, b@),
{
    let va = chars_of(a);
    let vb = chars_of(b);
    let mut i: usize = 0;
    assert(va@.skip(0) =~= va@);
    assert(vb@.skip(0) =~= vb@);
    while i < va.len() && i < vb.len() && va[i] == vb[i]
        invariant
            i <= va@.len(),
            i <= vb@.len(),
            lex_less(va@, vb@) == lex_less(va@.skip(i as int), vb@.skip(i as int)),
        decreases va@.len() - i,
    {
        assert(va@.skip(i as int).drop_first() =~= va@.skip(i + 1));
        assert(vb@.skip(i as int).drop_first() =~= vb@.skip(i + 1));
        i = i + 1;
    }
    if i == vb.len() {
        assert(vb@.skip(i as int).len() == 0);
        false
    } else if i == va.len() {
        assert(va@.skip(i as int).len() == 0);
        true
    } else {
        assert(va@.skip(i as int)[0] == va@[i as int]);
        assert(vb@.skip(i as int)[0] == vb@[i as int]);
        (va[i] as u32) < (vb[i] as u32)
    }
}

pub open spec fn auto_note_spec() -> Seq<char> {
    "自动记录播放设备"@
}

/// What merging an incoming record into an existing one with the same rule gives:
/// enabled if either is, the newer record's client, device and user, the incoming note
/// when the existing one is blank or the automatic default, and manual if either is.
pub open spec fn merge_rule_spec(existing: RuleView, incoming: RuleView) -> RuleView {
    let newer = lex_less(existing.updated_at, incoming.updated_at);
    RuleView {
        id: existing.id,
        client_name: if newer { incoming.client_name } else { existing.client_name },
        device_name: if newer { incoming.device_name } else { existing.device_name },
        user_name: if newer { incoming.user_name } else { existing.user_name },
        user_agent: existing.user_agent,
        source: if existing.source == ClientRuleSource::Auto && incoming.source
            == ClientRuleSource::Manual {
            ClientRuleSource::Manual
        } else {
            existing.source
        },
        enabled: existing.enabled || incoming.enabled,
        created_at: existing.created_at,
        updated_at: if newer { incoming.updated_at } else { existing.updated_at },
        note: if trim(existing.note).len() == 0 || existing.note == auto_note_spec() {
            incoming.note
        } else {
            existing.note
        },
    }
}

pub fn merge_client_rule_record(existing: &mut ClientRuleRecord, incoming: ClientRuleRecord)
    ensures
        final(existing)@ == merge_rule_spec(old(existing)@, incoming@),
{
    existing.enabled = existing.enabled || incoming.enabled;
    let newer = str_less(existing.updated_at.as_str(), incoming.updated_at.as_str());
    let blank = trimmed(existing.note.as_str()).len() == 0;
    let auto_note = str_eq_lit(&existing.note, "自动记录播放设备");
    if existing.source == ClientRuleSource::Auto && incoming.source == ClientRuleSource::Manual {
        existing.source = ClientRuleSource::Manual;
    }
    if blank || auto_note {
        existing.note = incoming.note;
    }
    if newer {
        existing.client_name = incoming.client_name;
        existing.device_name = incoming.device_name;
        existing.user_name = incoming.user_name;
        existing.updated_at = incoming.updated_at;
    }
}

/// `s@ == lit@`.
pub fn str_eq_lit(s: &String, lit: &str) -> (r: bool)
    ensures
        r == (s@ == lit@),
{
    let v = chars_of(s.as_str());
    chars_eq_str(&v, lit)
}

/// The rule text a record is normalized to, by its source.
pub open spec fn normalized_rule_ua(r: RuleView) -> Seq<char> {
    match r.source {
        ClientRuleSource::Auto => auto_rule_spec(r.user_agent),
        ClientRuleSource::Manual => trim(r.user_agent),
    }
}

/// The first record whose rule equals `ua` up to ASCII case.
pub open spec fn first_rule_index(rs: Seq<RuleView>, ua: Seq<char>, i: int) -> Option<int>
    decreases rs.len() - i,
{
    if i < 0 || i >= rs.len() {
        None
    } else if eq_ignore_case(rs[i].user_agent, ua) {
        Some(i)
    } else {
        first_rule_index(rs, ua, i + 1)
    }
}

pub open spec fn with_user_agent(r: RuleView, ua: Seq<char>) -> RuleView {
    RuleView { user_agent: ua, ..r }
}

/// The records after normalization: each rule text normalized by its source, records whose
/// rule becomes empty dropped, and records with the same rule (ignoring ASCII case) merged
/// into the first of them.
pub open spec fn normalize_rules_spec(rs: Seq<RuleView>) -> Seq<RuleView>
    decreases rs.len(),
{
    if rs.len() == 0 {
        Seq::empty()
    } else {
        let acc = normalize_rules_spec(rs.drop_last());
        let r = rs.last();
        let ua = normalized_rule_ua(r);
        if ua.len() == 0 {
            acc
        } else {
            match first_rule_index(acc, ua, 0) {
                Some(j) => acc.update(j, merge_rule_spec(acc[j], with_user_agent(r, ua))),
                None => acc.push(with_user_agent(r, ua)),
            }
        }
    }
}

/// Whether normalization dropped, rewrote or merged any record.
pub open spec fn normalize_rules_changed(rs: Seq<RuleView>) -> bool
    decreases rs.len(),
{
    if rs.len() == 0 {
        false
    } else {
        let acc = normalize_rules_spec(rs.drop_last());
        let ua = normalized_rule_ua(rs.last());
        normalize_rules_changed(rs.drop_last()) || ua.len() == 0 || ua != rs.last().user_agent
            || first_rule_index(acc, ua, 0) is Some
    }
}

pub open spec fn rule_views(rs: Seq<ClientRuleRecord>) -> Seq<RuleView> {
    rs.map_values(|r: ClientRuleRecord| r@)
}

pub(crate) proof fn lemma_first_rule_index(rs: Seq<RuleView>, ua: Seq<char>, i: int)
    requires
        0 <= i,
    ensures
        first_rule_index(rs, ua, i) matches Some(j) ==> i <= j < rs.len() && eq_ignore_case(
            rs[j].user_agent,
            ua,
        ),
    decreases rs.len() - i,
{
    if i < rs.len() && !eq_ignore_case(rs[i].user_agent, ua) {
        lemma_first_rule_index(rs, ua, i + 1);
    }
}

pub(crate) fn find_rule_ignore_case(rs: &Vec<ClientRuleRecord>, ua: &Vec<char>) -> (r: Option<usize>)
    ensures
        match r {
            Some(j) => j < rs@.len() && first_rule_index(rule_views(rs@), ua@, 0) == Some(j as int),
            None => first_rule_index(rule_views(rs@), ua@, 0) is None,
        },
{
    let mut j: usize = 0;
    while j < rs.len()
        invariant
            j <= rs@.len(),
            first_rule_index(rule_views(rs@), ua@, 0) == first_rule_index(
                rule_views(rs@),
                ua@,
                j as int,
            ),
        decreases rs@.len() - j,
    {
        let v = chars_of(rs[j].user_agent.as_str());
        if chars_eq_ignore_case(&v, ua) {
            return Some(j);
        }
        j = j + 1;
    }
    None
}

/// Normalizes every rule, drops empty ones and merges duplicates; tells whether anything
/// changed.
pub fn normalize_client_rule_records(config: &mut ClientControlConfig) -> (changed: bool)
    ensures
        rule_views(final(config).records@) == normalize_rules_spec(rule_views(old(config).records@)),
        changed == normalize_rules_changed(rule_views(old(config).records@)),
        final(config).rate_limit_blocks == old(config).rate_limit_blocks,
        final(config).webhooks == old(config).webhooks,
        final(config).webhook == old(config).webhook,
        final(config).enabled == old(config).enabled,
        final(config).notify_enabled == old(config).notify_enabled,
        final(config).playback_rate_limit_enabled == old(config).playback_rate_limit_enabled,
        final(config).playback_rate_limit_window_seconds
            == old(config).playback_rate_limit_window_seconds,
        final(config).playback_rate_limit_max_requests
            == old(config).playback_rate_limit_max_requests,
        final(config).playback_rate_limit_block_seconds
            == old(config).playback_rate_limit_block_seconds,
        final(config).playback_rate_limit_action == old(config).playback_rate_limit_action,
        final(config).concurrent_playback_limit_enabled
            == old(config).concurrent_playback_limit_enabled,
        final(config).concurrent_playback_limit_max == old(config).concurrent_playback_limit_max,
{
    let mut records: Vec<ClientRuleRecord> = Vec::new();
    std::mem::swap(&mut records, &mut config.records);
    let ghost input = rule_views(records@);
    let mut normalized: Vec<ClientRuleRecord> = Vec::new();
    let mut changed = false;
    let mut i: usize = 0;
    let n = records.len();
    assert(input.take(0) =~= Seq::<RuleView>::empty());
    while records.len() > 0
        invariant
            n == input.len(),
            i + records@.len() == n,
            rule_views(records@) == input.skip(i as int),
            rule_views(normalized@) == normalize_rules_spec(input.take(i as int)),
            changed == normalize_rules_changed(input.take(i as int)),
        decreases records@.len(),
    {
        let ghost old_recs = records@;
        let mut record = records.remove(0);
        assert(records@ =~= old_recs.subrange(1, old_recs.len() as int));
        assert forall|k: int| 0 <= k < records@.len() implies #[trigger] rule_views(records@)[k]
            == input.skip(i + 1)[k] by {
            assert(rule_views(old_recs)[k + 1] == input.skip(i as int)[k + 1]);
        }
        assert(rule_views(records@) =~= input.skip(i + 1));
        assert(record == old_recs[0]);
        assert(rule_views(old_recs)[0] == input.skip(i as int)[0]);
        assert(record@ == input[i as int]);
        let ghost prefix = input.take(i + 1);
        assert(prefix.drop_last() =~= input.take(i as int));
        assert(prefix.last() == input[i as int]);
        let normalized_ua = match record.source {
            ClientRuleSource::Auto => normalize_auto_user_agent_rule(record.user_agent.as_str()),
            ClientRuleSource::Manual => normalize_manual_user_agent_rule(
                record.user_agent.as_str(),
            ),
        };
        let ua_chars = chars_of(normalized_ua.as_str());
        if ua_chars.len() == 0 {
            changed = true;
        } else {
            if !str_eq_string(&record.user_agent, &normalized_ua) {
                changed = true;
            }
            record.user_agent = normalized_ua;
            assert(record@ == with_user_agent(input[i as int], normalized_rule_ua(input[i as int])));
            match find_rule_ignore_case(&normalized, &ua_chars) {
                Some(j) => {
                    let ghost acc = rule_views(normalized@);
                    let mut existing = normalized.remove(j);
                    merge_client_rule_record(&mut existing, record);
                    normalized.insert(j, existing);
                    assert(rule_views(normalized@) =~= acc.update(
                        j as int,
                        merge_rule_spec(acc[j as int], with_user_agent(input[i as int], normalized_rule_ua(input[i as int]))),
                    ));
                    changed = true;
                },
                None => {
                    let ghost acc = rule_views(normalized@);
                    normalized.push(record);
                    assert(rule_views(normalized@) =~= acc.push(with_user_agent(input[i as int], normalized_rule_ua(input[i as int]))));
                },
            }
        }
        i = i + 1;
    }
    assert(input.take(n as int) =~= input);
    config.records = normalized;
    changed
}

/// String equality.
pub fn str_eq_string(a: &String, b: &String) -> (r: bool)
    ensures
        r == (a@ == b@),
{
    crate::strmap::str_eq(a.as_str(), b.as_str())
}

/// The value as an audit line shows it: `--` when it is blank.
pub fn empty_audit_value(value: &str) -> (r: &str)
    ensures
        r@ == (if trim(value@).len() == 0 {
            "--"@
        } else {
            value@
        }),
{
    let t = trimmed(value);
    if t.len() == 0 {
        "--"
    } else {
        value
    }
}

} // verus!
