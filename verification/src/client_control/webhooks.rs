//! Webhook settings: how they are normalized, migrated from the single legacy webhook,
//! redacted for display, and what a rate-limit notification says.

use vstd::prelude::*;
use vstd::string::StringExecFns;
use crate::client_control::blocks::{is_client_id, new_id};
use crate::client_control::{
    action_label_spec, default_webhook_name, default_webhook_name_spec, normalize_value,
    normalize_value_spec, rate_limit_action_label, ClientControlConfig, WebhookNotifyConfig,
    WebhookView,
};
use crate::error::AppError;
use crate::text::{decimal, decimal_string, string_of, trim, trimmed};
use crate::urls::{url_error_of, url_parse_error, url_scheme, url_scheme_of};

verus! {

impl WebhookNotifyConfig {
    /// A field-by-field copy.
    pub fn duplicate(&self) -> (r: Self)
        ensures
            r == *self,
    {
        WebhookNotifyConfig {
            id: self.id.clone(),
            enabled: self.enabled,
            name: self.name.clone(),
            url: self.url.clone(),
            secret: self.secret.clone(),
        }
    }
}

pub open spec fn webhook_views(s: Seq<WebhookNotifyConfig>) -> Seq<WebhookView> {
    s.map_values(|w: WebhookNotifyConfig| w@)
}

/// The name a webhook is shown under: its trimmed name, or the default one when blank.
pub open spec fn webhook_name_spec(name: Seq<char>) -> Seq<char> {
    if trim(name).len() == 0 {
        default_webhook_name_spec()
    } else {
        trim(name)
    }
}

/// `n` is what normalizing `w` gives: every text trimmed, a blank name replaced by the
/// default, and a blank identifier replaced by a fresh one.
pub open spec fn webhook_normalized(w: WebhookView, n: WebhookView) -> bool {
    &&& n.enabled == w.enabled
    &&& n.name == webhook_name_spec(w.name)
    &&& n.url == trim(w.url)
    &&& n.secret == trim(w.secret)
    &&& if trim(w.id).len() > 0 {
        n.id == trim(w.id)
    } else {
        is_client_id(n.id)
    }
}

pub open spec fn all_normalized(input: Seq<WebhookView>, ns: Seq<WebhookView>) -> bool {
    &&& ns.len() == input.len()
    &&& forall|i: int| 0 <= i < input.len() ==> webhook_normalized(input[i], #[trigger] ns[i])
}

/// A webhook worth keeping: enabled, with an address, or renamed.
pub open spec fn keeps_webhook(n: WebhookView) -> bool {
    n.enabled || n.url.len() > 0 || n.name != default_webhook_name_spec()
}

pub open spec fn kept_webhooks(s: Seq<WebhookView>) -> Seq<WebhookView>
    decreases s.len(),
{
    if s.len() == 0 {
        Seq::empty()
    } else {
        let a = kept_webhooks(s.drop_last());
        if keeps_webhook(s.last()) {
            a.push(s.last())
        } else {
            a
        }
    }
}

/// A webhook that notifications go to: enabled and with an address.
pub open spec fn webhook_active(n: WebhookView) -> bool {
    n.enabled && n.url.len() > 0
}

pub open spec fn active_webhook_views(s: Seq<WebhookView>) -> Seq<WebhookView>
    decreases s.len(),
{
    if s.len() == 0 {
        Seq::empty()
    } else {
        let a = active_webhook_views(s.drop_last());
        if webhook_active(s.last()) {
            a.push(s.last())
        } else {
            a
        }
    }
}

pub open spec fn default_webhook_view() -> WebhookView {
    WebhookView {
        id: Seq::empty(),
        enabled: false,
        name: default_webhook_name_spec(),
        url: Seq::empty(),
        secret: Seq::empty(),
    }
}

/// The webhook list from the normalized list `ns` and the normalized legacy webhook `ln`:
/// the kept webhooks; else the legacy one when it was enabled or had an address; else one
/// default webhook.
pub open spec fn webhook_list_spec(ns: Seq<WebhookView>, legacy: WebhookView, ln: WebhookView) -> Seq<
    WebhookView,
> {
    let kept = kept_webhooks(ns);
    if kept.len() > 0 {
        kept
    } else if legacy.enabled || trim(legacy.url).len() > 0 {
        seq![ln]
    } else {
        seq![default_webhook_view()]
    }
}

fn trimmed_string(s: &String) -> (r: String)
    ensures
        r@ == trim(s@),
{
    let t = trimmed(s.as_str());
    string_of(&t)
}

/// Trims every text, names a nameless webhook by the default name and gives one without an
/// identifier a fresh identifier.
pub fn normalize_webhook_config(webhook: WebhookNotifyConfig) -> (r: WebhookNotifyConfig)
    ensures
        webhook_normalized(webhook@, r@),
{
    let mut webhook = webhook;
    let id = trimmed(webhook.id.as_str());
    if id.len() == 0 {
        webhook.id = new_id();
    } else {
        webhook.id = string_of(&id);
    }
    let name = trimmed(webhook.name.as_str());
    if name.len() == 0 {
        webhook.name = default_webhook_name();
    } else {
        webhook.name = string_of(&name);
    }
    webhook.url = trimmed_string(&webhook.url);
    webhook.secret = trimmed_string(&webhook.secret);
    webhook
}

/// Normalizes the webhook list, drops untouched defaults, falls back to the legacy webhook
/// when nothing is left and it was in use, and to one default webhook otherwise.
pub fn normalize_webhook_configs(
    webhooks: Vec<WebhookNotifyConfig>,
    legacy_webhook: WebhookNotifyConfig,
) -> (r: Vec<WebhookNotifyConfig>)
    ensures
        exists|ns: Seq<WebhookView>, ln: WebhookView|
            all_normalized(webhook_views(webhooks@), ns) && webhook_normalized(legacy_webhook@, ln)
                && webhook_views(r@) == #[trigger] webhook_list_spec(ns, legacy_webhook@, ln),
        r@.len() >= 1,
{
    let ghost input = webhook_views(webhooks@);
    let ghost legacy = legacy_webhook@;
    let mut rest = webhooks;
    let mut kept: Vec<WebhookNotifyConfig> = Vec::new();
    let ghost mut ns: Seq<WebhookView> = Seq::empty();
    let n = rest.len();
    let mut i: usize = 0;
    while rest.len() > 0
        invariant
            n == input.len(),
            i + rest@.len() == n,
            webhook_views(rest@) == input.skip(i as int),
            all_normalized(input.take(i as int), ns),
            webhook_views(kept@) == kept_webhooks(ns),
        decreases rest@.len(),
    {
        let ghost before = rest@;
        let w = rest.remove(0);
        assert(webhook_views(rest@) =~= input.skip(i + 1)) by {
            assert forall|k: int| 0 <= k < rest@.len() implies #[trigger] webhook_views(rest@)[k]
                == input.skip(i + 1)[k] by {
                assert(webhook_views(before)[k + 1] == input.skip(i as int)[k + 1]);
            }
        }
        assert(webhook_views(before)[0] == input.skip(i as int)[0]);
        assert(w@ == input[i as int]);
        let nw = normalize_webhook_config(w);
        let ghost old_ns = ns;
        proof {
            ns = ns.push(nw@);
            assert(ns.drop_last() =~= old_ns);
            assert(input.take(i + 1).drop_last() =~= input.take(i as int));
            assert forall|k: int| 0 <= k < input.take(i + 1).len() implies webhook_normalized(
                input.take(i + 1)[k],
                #[trigger] ns[k],
            ) by {
                if k < i {
                    assert(input.take(i + 1)[k] == input.take(i as int)[k]);
                }
            }
        }
        let keep = nw.enabled || !nw.url.as_str().is_empty() || !crate::client_control::str_eq_lit(
            &nw.name,
            "新建 Webhook",
        );
        let ghost k0 = webhook_views(kept@);
        if keep {
            kept.push(nw);
            assert(webhook_views(kept@) =~= k0.push(ns.last()));
        } else {
            assert(webhook_views(kept@) =~= kept_webhooks(ns));
        }
        i = i + 1;
    }
    assert(input.take(n as int) =~= input);
    let legacy_used = legacy_webhook.enabled || trimmed(legacy_webhook.url.as_str()).len() > 0;
    let ln = normalize_webhook_config(legacy_webhook);
    if kept.len() == 0 {
        if legacy_used {
            kept.push(ln);
            assert(webhook_views(kept@) =~= seq![ln@]);
        } else {
            let d = WebhookNotifyConfig::default_webhook();
            assert(d@.id =~= Seq::<char>::empty());
            assert(d@.url =~= Seq::<char>::empty());
            assert(d@.secret =~= Seq::<char>::empty());
            kept.push(d);
            assert(webhook_views(kept@) =~= seq![default_webhook_view()]);
        }
    }
    assert(webhook_views(kept@) == webhook_list_spec(ns, legacy, ln@));
    kept
}

/// Two settings that differ at most in their webhooks.
pub open spec fn same_but_webhooks(a: ClientControlConfig, b: ClientControlConfig) -> bool {
    &&& a.enabled == b.enabled
    &&& a.notify_enabled == b.notify_enabled
    &&& a.playback_rate_limit_enabled == b.playback_rate_limit_enabled
    &&& a.playback_rate_limit_window_seconds == b.playback_rate_limit_window_seconds
    &&& a.playback_rate_limit_max_requests == b.playback_rate_limit_max_requests
    &&& a.playback_rate_limit_block_seconds == b.playback_rate_limit_block_seconds
    &&& a.playback_rate_limit_action == b.playback_rate_limit_action
    &&& a.concurrent_playback_limit_enabled == b.concurrent_playback_limit_enabled
    &&& a.concurrent_playback_limit_max == b.concurrent_playback_limit_max
    &&& a.rate_limit_blocks == b.rate_limit_blocks
    &&& a.records == b.records
}

/// Replaces the webhook list by its normalized form (see [`normalize_webhook_configs`]) and
/// the legacy single webhook by the first of the list.
pub fn migrate_webhook_config(config: &mut ClientControlConfig)
    ensures
        exists|ns: Seq<WebhookView>, ln: WebhookView|
            all_normalized(webhook_views(old(config).webhooks@), ns) && webhook_normalized(
                old(config).webhook@,
                ln,
            ) && webhook_views(final(config).webhooks@) == #[trigger] webhook_list_spec(
                ns,
                old(config).webhook@,
                ln,
            ),
        final(config).webhooks@.len() >= 1,
        final(config).webhook == final(config).webhooks@[0],
        same_but_webhooks(*final(config), *old(config)),
{
    let mut hooks: Vec<WebhookNotifyConfig> = Vec::new();
    std::mem::swap(&mut hooks, &mut config.webhooks);
    let legacy = config.webhook.duplicate();
    let list = normalize_webhook_configs(hooks, legacy);
    config.webhook = list[0].duplicate();
    config.webhooks = list;
}

/// The first webhook with identifier `id`.
pub open spec fn first_with_id(s: Seq<WebhookView>, id: Seq<char>, i: int) -> Option<int>
    decreases s.len() - i,
{
    if i < 0 || i >= s.len() {
        None
    } else if s[i].id == id {
        Some(i)
    } else {
        first_with_id(s, id, i + 1)
    }
}

/// A webhook sent back without a secret keeps the secret stored for its identifier.
pub open spec fn keep_secret(w: WebhookView, existing: Seq<WebhookView>) -> WebhookView {
    if trim(w.secret).len() == 0 {
        match first_with_id(existing, w.id, 0) {
            Some(j) => WebhookView { secret: existing[j].secret, ..w },
            None => w,
        }
    } else {
        w
    }
}

proof fn lemma_first_with_id(s: Seq<WebhookView>, id: Seq<char>, i: int)
    requires
        0 <= i,
    ensures
        first_with_id(s, id, i) matches Some(j) ==> i <= j < s.len(),
    decreases s.len() - i,
{
    if i < s.len() && s[i].id != id {
        lemma_first_with_id(s, id, i + 1);
    }
}

fn find_with_id(existing: &[WebhookNotifyConfig], id: &String) -> (r: Option<usize>)
    ensures
        match r {
            Some(j) => first_with_id(webhook_views(existing@), id@, 0) == Some(j as int)
                && j < existing@.len(),
            None => first_with_id(webhook_views(existing@), id@, 0) is None,
        },
{
    let ghost s = webhook_views(existing@);
    let mut j: usize = 0;
    while j < existing.len()
        invariant
            j <= existing@.len(),
            s == webhook_views(existing@),
            first_with_id(s, id@, 0) == first_with_id(s, id@, j as int),
        decreases existing@.len() - j,
    {
        assert(s[j as int] == existing@[j as int]@);
        if crate::client_control::str_eq_string(&existing[j].id, id) {
            return Some(j);
        }
        j = j + 1;
    }
    None
}

/// Webhooks that come back from the settings page without a secret keep the secret stored
/// under the same identifier.
pub fn merge_existing_webhook_secrets(
    webhooks: Vec<WebhookNotifyConfig>,
    existing: &[WebhookNotifyConfig],
) -> (r: Vec<WebhookNotifyConfig>)
    ensures
        r@.len() == webhooks@.len(),
        forall|i: int|
            0 <= i < webhooks@.len() ==> #[trigger] r@[i]@ == keep_secret(
                webhooks@[i]@,
                webhook_views(existing@),
            ),
{
    let ghost ex = webhook_views(existing@);
    let ghost input = webhooks@;
    let mut rest = webhooks;
    let mut out: Vec<WebhookNotifyConfig> = Vec::new();
    let n = rest.len();
    let mut i: usize = 0;
    while rest.len() > 0
        invariant
            n == input.len(),
            i + rest@.len() == n,
            rest@ == input.skip(i as int),
            out@.len() == i,
            ex == webhook_views(existing@),
            forall|k: int| 0 <= k < i ==> #[trigger] out@[k]@ == keep_secret(input[k]@, ex),
        decreases rest@.len(),
    {
        let mut w = rest.remove(0);
        assert(rest@ =~= input.skip(i + 1));
        assert(w == input[i as int]);
        if trimmed(w.secret.as_str()).len() == 0 {
            match find_with_id(existing, &w.id) {
                Some(j) => {
                    proof {
                        lemma_first_with_id(ex, w.id@, 0);
                        assert(ex[j as int] == existing@[j as int]@);
                    }
                    w.secret = existing[j].secret.clone();
                },
                None => {},
            }
        }
        out.push(w);
        i = i + 1;
    }
    out
}

/// The webhook with its secret cleared.
pub open spec fn without_secret(w: WebhookView) -> WebhookView {
    WebhookView { secret: Seq::empty(), ..w }
}

/// The settings with every webhook secret cleared.
pub fn redact_webhook_secrets(config: ClientControlConfig) -> (r: ClientControlConfig)
    ensures
        r.webhooks@.len() == config.webhooks@.len(),
        forall|i: int|
            0 <= i < config.webhooks@.len() ==> #[trigger] r.webhooks@[i]@ == without_secret(
                config.webhooks@[i]@,
            ),
        r.webhook@ == without_secret(config.webhook@),
        same_but_webhooks(r, config),
{
    let mut config = config;
    let mut rest: Vec<WebhookNotifyConfig> = Vec::new();
    std::mem::swap(&mut rest, &mut config.webhooks);
    let ghost input = rest@;
    let mut out: Vec<WebhookNotifyConfig> = Vec::new();
    let n = rest.len();
    let mut i: usize = 0;
    while rest.len() > 0
        invariant
            n == input.len(),
            i + rest@.len() == n,
            rest@ == input.skip(i as int),
            out@.len() == i,
            forall|k: int| 0 <= k < i ==> #[trigger] out@[k]@ == without_secret(input[k]@),
        decreases rest@.len(),
    {
        let mut w = rest.remove(0);
        assert(rest@ =~= input.skip(i + 1));
        assert(w == input[i as int]);
        w.secret = String::new();
        out.push(w);
        i = i + 1;
    }
    config.webhooks = out;
    config.webhook.secret = String::new();
    config
}

/// The webhooks that notifications go to, normalized (see [`normalize_webhook_config`]).
pub fn active_webhooks(webhooks: Vec<WebhookNotifyConfig>) -> (r: Vec<WebhookNotifyConfig>)
    ensures
        exists|ns: Seq<WebhookView>|
            all_normalized(webhook_views(webhooks@), ns) && webhook_views(r@)
                == #[trigger] active_webhook_views(ns),
{
    let ghost input = webhook_views(webhooks@);
    let mut rest = webhooks;
    let mut kept: Vec<WebhookNotifyConfig> = Vec::new();
    let ghost mut ns: Seq<WebhookView> = Seq::empty();
    let n = rest.len();
    let mut i: usize = 0;
    while rest.len() > 0
        invariant
            n == input.len(),
            i + rest@.len() == n,
            webhook_views(rest@) == input.skip(i as int),
            all_normalized(input.take(i as int), ns),
            webhook_views(kept@) == active_webhook_views(ns),
        decreases rest@.len(),
    {
        let ghost before = rest@;
        let w = rest.remove(0);
        assert(webhook_views(rest@) =~= input.skip(i + 1)) by {
            assert forall|k: int| 0 <= k < rest@.len() implies #[trigger] webhook_views(rest@)[k]
                == input.skip(i + 1)[k] by {
                assert(webhook_views(before)[k + 1] == input.skip(i as int)[k + 1]);
            }
        }
        assert(webhook_views(before)[0] == input.skip(i as int)[0]);
        let nw = normalize_webhook_config(w);
        let ghost old_ns = ns;
        proof {
            ns = ns.push(nw@);
            assert(ns.drop_last() =~= old_ns);
            assert forall|k: int| 0 <= k < input.take(i + 1).len() implies webhook_normalized(
                input.take(i + 1)[k],
                #[trigger] ns[k],
            ) by {
                if k < i {
                    assert(input.take(i + 1)[k] == input.take(i as int)[k]);
                }
            }
        }
        let ghost k0 = webhook_views(kept@);
        if nw.enabled && !nw.url.as_str().is_empty() {
            kept.push(nw);
            assert(webhook_views(kept@) =~= k0.push(ns.last()));
        }
        i = i + 1;
    }
    assert(input.take(n as int) =~= input);
    kept
}

/// The trimmed text, or the fallback when nothing is left.
pub fn normalize_webhook_test_text(value: &str, fallback: &str) -> (r: String)
    ensures
        r@ == (if trim(value@).len() == 0 {
            fallback@
        } else {
            trim(value@)
        }),
{
    let v = trimmed(value);
    if v.len() == 0 {
        String::from_str(fallback)
    } else {
        string_of(&v)
    }
}

/// The title of a rate-limit notification.
pub open spec fn rate_title_spec(action: Seq<char>) -> Seq<char> {
    "播放频率限制 - "@ + action_label_spec(action)
}

/// The body of a rate-limit notification.
pub open spec fn rate_text_spec(
    server_name: Seq<char>,
    action: Seq<char>,
    playback_user: Seq<char>,
    playback_ip: Seq<char>,
    ip_location_text: Seq<char>,
    window: u64,
    max_requests: u64,
    block_seconds: u64,
) -> Seq<char> {
    let location_line = if trim(ip_location_text).len() == 0 {
        Seq::empty()
    } else {
        "\n归属地："@ + trim(ip_location_text)
    };
    "服务器："@ + server_name + "\n用户："@ + normalize_value_spec(playback_user) + "\nIP："@
        + normalize_value_spec(playback_ip) + location_line + "\n策略："@ + action_label_spec(action)
        + "\n窗口："@ + decimal(window as nat) + "s\n阈值："@ + decimal(max_requests as nat)
        + " 次\n处理时长："@ + decimal(block_seconds as nat) + "s"@
}

/// The title and body of the notification sent when the rate limit blocks someone.
pub fn rate_limit_webhook_payload(
    server_name: &str,
    action: &str,
    playback_user: &str,
    playback_ip: &str,
    ip_location_text: &str,
    window: u64,
    max_requests: u64,
    block_seconds: u64,
) -> (r: (String, String))
    ensures
        r.0@ == rate_title_spec(action@),
        r.1@ == rate_text_spec(
            server_name@,
            action@,
            playback_user@,
            playback_ip@,
            ip_location_text@,
            window,
            max_requests,
            block_seconds,
        ),
{
    let label = rate_limit_action_label(action);
    let mut title = String::from_str("播放频率限制 - ");
    title.append(label);
    let mut text = String::from_str("服务器：");
    text.append(server_name);
    text.append("\n用户：");
    let user = normalize_value(playback_user);
    text.append(user.as_str());
    text.append("\nIP：");
    let ip = normalize_value(playback_ip);
    text.append(ip.as_str());
    let location = trimmed(ip_location_text);
    if location.len() > 0 {
        text.append("\n归属地：");
        let l = string_of(&location);
        text.append(l.as_str());
    }
    text.append("\n策略：");
    text.append(label);
    text.append("\n窗口：");
    let w = decimal_string(window);
    text.append(w.as_str());
    text.append("s\n阈值：");
    let m = decimal_string(max_requests);
    text.append(m.as_str());
    text.append(" 次\n处理时长：");
    let b = decimal_string(block_seconds);
    text.append(b.as_str());
    text.append("s");
    (title, text)
}


/// Where a webhook is sent and the secret it carries: the address trimmed, which must not be
/// empty, must parse as a URL and must use `http` or `https`; the secret trimmed, sent only
/// when not empty. Each refusal is a validation error.
pub fn webhook_target(url: &str, secret: Option<&str>) -> (r: Result<(String, Option<String>), AppError>)
    ensures
        ({
            let u = trim(url@);
            if u.len() == 0 {
                (r matches Err(AppError::Validation(m)) && m@ == "webhook url cannot be empty"@)
            } else {
                match url_error_of(u) {
                    Some(e) => (r matches Err(AppError::Validation(m)) && m@ == "invalid webhook url: "@ + e),
                    None => if url_scheme_of(u) == Some("http"@) || url_scheme_of(u) == Some("https"@) {
                        r matches Ok((target, sent)) && target@ == u && crate::text::opt_string_view(sent)
                            == match secret {
                            Some(v) => if trim(v@).len() > 0 {
                                Some(trim(v@))
                            } else {
                                None
                            },
                            None => None,
                        }
                    } else {
                        (r matches Err(AppError::Validation(m)) && m@ == "webhook url must use http or https"@)
                    },
                }
            }
        }),
{
    let t = trimmed(url);
    if t.len() == 0 {
        return Err(AppError::Validation(String::from_str("webhook url cannot be empty")));
    }
    let target = string_of(&t);
    match url_parse_error(target.as_str()) {
        Some(e) => {
            let mut m = String::from_str("invalid webhook url: ");
            m.append(e.as_str());
            return Err(AppError::Validation(m));
        },
        None => {},
    }
    let web = match url_scheme(target.as_str()) {
        Some(scheme) => crate::strmap::str_eq(scheme.as_str(), "http") || crate::strmap::str_eq(
            scheme.as_str(),
            "https",
        ),
        None => false,
    };
    if !web {
        return Err(AppError::Validation(String::from_str("webhook url must use http or https")));
    }
    let sent = match secret {
        Some(v) => {
            let st = trimmed(v);
            if st.len() > 0 {
                Some(string_of(&st))
            } else {
                None
            }
        },
        None => None,
    };
    Ok((target, sent))
}

} // verus!
