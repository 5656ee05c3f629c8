//! Changes an administrator or a playback makes to the user-agent rules and settings.

use vstd::prelude::*;
use vstd::string::StringExecFns;
use crate::client_control::blocks::{chrono_like_now, client_id_spec, is_client_id, new_id};
use crate::client_control::webhooks::{
    all_normalized, keep_secret, merge_existing_webhook_secrets, normalize_webhook_configs,
    webhook_list_spec, webhook_normalized, webhook_views,
};
use crate::client_control::{
    auto_rule_spec, client_name_spec, find_rule_ignore_case, first_rule_index,
    lemma_first_rule_index, normalize_action_spec, normalize_auto_user_agent_rule,
    normalize_client_name, normalize_playback_rate_limit_action, normalize_value,
    normalize_value_spec, rule_matches, rule_matches_spec, rule_views, AddUserAgentRuleRequest,
    ClientControlConfig, ClientRuleRecord, ClientRuleSource, RuleView, UpdateClientControlRequest,
    WebhookView, CONCURRENT_PLAYBACK_MAX, PLAYBACK_RATE_MAX_BLOCK_SECONDS,
    PLAYBACK_RATE_MAX_REQUESTS, PLAYBACK_RATE_MAX_WINDOW_SECONDS,
};
use crate::strmap::str_eq;
use crate::text::{chars_of, decimal, opt_string_view, string_of, trim, trimmed};

verus! {

impl ClientRuleRecord {
    /// A field-by-field copy.
    pub fn duplicate(&self) -> (r: Self)
        ensures
            r == *self,
    {
        ClientRuleRecord {
            id: self.id.clone(),
            client_name: self.client_name.clone(),
            device_name: self.device_name.clone(),
            user_name: self.user_name.clone(),
            user_agent: self.user_agent.clone(),
            source: self.source,
            enabled: self.enabled,
            created_at: self.created_at.clone(),
            updated_at: self.updated_at.clone(),
            note: self.note.clone(),
        }
    }
}

/// A positive setting from the page replaces the stored one, capped at `max`; 0 keeps it.
pub open spec fn updated_limit(stored: u64, sent: u64, max: u64) -> u64 {
    if sent > 0 {
        if sent < max {
            sent
        } else {
            max
        }
    } else {
        stored
    }
}

/// A setting sent from the page: 0 keeps what is stored; a positive value is taken, but never
/// above `max` (so a value up to `max` is taken as sent); the stored value plays no part then.
pub proof fn lemma_sent_limit_replaces_stored(stored: u64, sent: u64, max: u64)
    ensures
        sent == 0 ==> updated_limit(stored, sent, max) == stored,
        sent > 0 ==> updated_limit(stored, sent, max) <= sent && updated_limit(stored, sent, max) <= max,
        sent > 0 ==> (updated_limit(stored, sent, max) == sent || updated_limit(stored, sent, max) == max),
        0 < sent <= max ==> updated_limit(stored, sent, max) == sent,
        sent > 0 ==> forall|other: u64| updated_limit(other, sent, max) == updated_limit(stored, sent, max),
{
}

fn updated_limit_exec(stored: u64, sent: u64, max: u64) -> (r: u64)
    ensures
        r == updated_limit(stored, sent, max),
{
    if sent > 0 {
        if sent < max {
            sent
        } else {
            max
        }
    } else {
        stored
    }
}

/// Applies the settings sent from the page: the switches as sent, positive limits capped at
/// their maximum, the action normalized, and the webhooks normalized with the secrets the page
/// left blank taken from the stored webhooks of the same identifier.
pub fn apply_client_control_update(config: &mut ClientControlConfig, payload: UpdateClientControlRequest)
    ensures
        final(config).enabled == payload.enabled,
        final(config).notify_enabled == payload.notify_enabled,
        final(config).playback_rate_limit_enabled == payload.playback_rate_limit_enabled,
        final(config).playback_rate_limit_window_seconds == updated_limit(
            old(config).playback_rate_limit_window_seconds,
            payload.playback_rate_limit_window_seconds,
            PLAYBACK_RATE_MAX_WINDOW_SECONDS,
        ),
        final(config).playback_rate_limit_max_requests == updated_limit(
            old(config).playback_rate_limit_max_requests,
            payload.playback_rate_limit_max_requests,
            PLAYBACK_RATE_MAX_REQUESTS,
        ),
        final(config).playback_rate_limit_block_seconds == updated_limit(
            old(config).playback_rate_limit_block_seconds,
            payload.playback_rate_limit_block_seconds,
            PLAYBACK_RATE_MAX_BLOCK_SECONDS,
        ),
        final(config).playback_rate_limit_action@ == normalize_action_spec(
            payload.playback_rate_limit_action@,
        ),
        final(config).concurrent_playback_limit_enabled == payload.concurrent_playback_limit_enabled,
        final(config).concurrent_playback_limit_max == updated_limit(
            old(config).concurrent_playback_limit_max,
            payload.concurrent_playback_limit_max,
            CONCURRENT_PLAYBACK_MAX,
        ),
        final(config).rate_limit_blocks == old(config).rate_limit_blocks,
        final(config).records == old(config).records,
        exists|ns: Seq<WebhookView>, ln: WebhookView|
            all_normalized(webhook_views(payload.webhooks@), ns) && webhook_normalized(
                payload.webhook@,
                ln,
            ) && final(config).webhooks@.len() == #[trigger] webhook_list_spec(
                ns,
                payload.webhook@,
                ln,
            ).len() && forall|i: int|
                0 <= i < final(config).webhooks@.len() ==> #[trigger] final(config).webhooks@[i]@
                    == keep_secret(
                    webhook_list_spec(ns, payload.webhook@, ln)[i],
                    webhook_views(old(config).webhooks@),
                ),
        final(config).webhooks@.len() >= 1,
        final(config).webhook == final(config).webhooks@[0],
{
    let payload = payload;
    config.enabled = payload.enabled;
    config.notify_enabled = payload.notify_enabled;
    config.playback_rate_limit_enabled = payload.playback_rate_limit_enabled;
    config.playback_rate_limit_window_seconds = updated_limit_exec(
        config.playback_rate_limit_window_seconds,
        payload.playback_rate_limit_window_seconds,
        PLAYBACK_RATE_MAX_WINDOW_SECONDS,
    );
    config.playback_rate_limit_max_requests = updated_limit_exec(
        config.playback_rate_limit_max_requests,
        payload.playback_rate_limit_max_requests,
        PLAYBACK_RATE_MAX_REQUESTS,
    );
    config.playback_rate_limit_block_seconds = updated_limit_exec(
        config.playback_rate_limit_block_seconds,
        payload.playback_rate_limit_block_seconds,
        PLAYBACK_RATE_MAX_BLOCK_SECONDS,
    );
    config.playback_rate_limit_action = normalize_playback_rate_limit_action(
        payload.playback_rate_limit_action.as_str(),
    );
    config.concurrent_playback_limit_enabled = payload.concurrent_playback_limit_enabled;
    config.concurrent_playback_limit_max = updated_limit_exec(
        config.concurrent_playback_limit_max,
        payload.concurrent_playback_limit_max,
        CONCURRENT_PLAYBACK_MAX,
    );
    let ghost legacy = payload.webhook@;
    let ghost sent = webhook_views(payload.webhooks@);
    let list = normalize_webhook_configs(payload.webhooks, payload.webhook);
    let ghost stored = webhook_views(config.webhooks@);
    let ghost lv = list@;
    let merged = merge_existing_webhook_secrets(list, config.webhooks.as_slice());
    proof {
        let (ns, ln) = choose|ns: Seq<WebhookView>, ln: WebhookView|
            all_normalized(sent, ns) && webhook_normalized(legacy, ln) && webhook_views(lv)
                == #[trigger] webhook_list_spec(ns, legacy, ln);
        assert forall|i: int| 0 <= i < merged@.len() implies #[trigger] merged@[i]@ == keep_secret(
            webhook_list_spec(ns, legacy, ln)[i],
            stored,
        ) by {
            assert(webhook_views(lv)[i] == lv[i]@);
        }
        assert(merged@.len() == webhook_list_spec(ns, legacy, ln).len());
    }
    config.webhook = merged[0].duplicate();
    config.webhooks = merged;
}

pub open spec fn manual_note_spec() -> Seq<char> {
    "手动添加 UA 拦截"@
}

/// The note of an existing rule that a manual rule re-adds: the sent note, trimmed, when it
/// is not blank.
pub open spec fn note_after_add(existing: Seq<char>, note: Option<Seq<char>>) -> Seq<char> {
    match note {
        Some(n) => if trim(n).len() > 0 {
            trim(n)
        } else {
            existing
        },
        None => existing,
    }
}

/// The rules after a manual rule `ua` is added at `now`: an existing rule with the same text
/// (ignoring ASCII case) is enabled and touched, otherwise a new enabled manual rule with
/// identifier `id` is appended.
pub open spec fn added_rules(
    rs: Seq<RuleView>,
    ua: Seq<char>,
    note: Option<Seq<char>>,
    now: Seq<char>,
    id: Seq<char>,
) -> Seq<RuleView> {
    match first_rule_index(rs, ua, 0) {
        Some(j) => rs.update(
            j,
            RuleView { enabled: true, updated_at: now, note: note_after_add(rs[j].note, note), ..rs[j] },
        ),
        None => rs.push(
            RuleView {
                id: id,
                client_name: client_name_spec(ua),
                device_name: "--"@,
                user_name: "--"@,
                user_agent: ua,
                source: ClientRuleSource::Manual,
                enabled: true,
                created_at: now,
                updated_at: now,
                note: match note {
                    Some(n) => n,
                    None => manual_note_spec(),
                },
            },
        ),
    }
}

/// Two settings that differ at most in their rules.
pub open spec fn same_but_rules(a: ClientControlConfig, b: ClientControlConfig) -> bool {
    &&& a.enabled == b.enabled
    &&& a.notify_enabled == b.notify_enabled
    &&& a.playback_rate_limit_enabled == b.playback_rate_limit_enabled
    &&& a.playback_rate_limit_window_seconds == b.playback_rate_limit_window_seconds
    &&& a.playback_rate_limit_max_requests == b.playback_rate_limit_max_requests
    &&& a.playback_rate_limit_block_seconds == b.playback_rate_limit_block_seconds
    &&& a.playback_rate_limit_action == b.playback_rate_limit_action
    &&& a.concurrent_playback_limit_enabled == b.concurrent_playback_limit_enabled
    &&& a.concurrent_playback_limit_max == b.concurrent_playback_limit_max
    &&& a.rate_limit_blocks == b.rate_limit_blocks
    &&& a.webhook == b.webhook
    &&& a.webhooks == b.webhooks
}

/// Adds a manual user-agent rule (see [`added_rules`]); a rule that is blank once trimmed is
/// refused.
pub fn add_user_agent_rule_to(config: &mut ClientControlConfig, payload: AddUserAgentRuleRequest) -> (r:
    Result<(), String>)
    ensures
        trim(payload.user_agent@).len() == 0 ==> r is Err && r->Err_0@ == "user_agent cannot be empty"@
            && *final(config) == *old(config),
        trim(payload.user_agent@).len() > 0 ==> r is Ok && same_but_rules(*final(config), *old(config))
            && exists|t: u64, id: Seq<char>|
            is_client_id(id) && rule_views(final(config).records@) == #[trigger] added_rules(
                rule_views(old(config).records@),
                trim(payload.user_agent@),
                opt_string_view(payload.note),
                decimal(t as nat),
                id,
            ),
{
    let ua = trimmed(payload.user_agent.as_str());
    if ua.len() == 0 {
        proof {
            reveal_strlit("user_agent cannot be empty");
        }
        return Err(String::from_str("user_agent cannot be empty"));
    }
    let now = chrono_like_now();
    let ghost rs = rule_views(config.records@);
    let ghost nv = opt_string_view(payload.note);
    match find_rule_ignore_case(&config.records, &ua) {
        Some(j) => {
            proof {
                lemma_first_rule_index(rs, ua@, 0);
            }
            let mut records: Vec<ClientRuleRecord> = Vec::new();
            std::mem::swap(&mut records, &mut config.records);
            let mut record = records.remove(j);
            assert(record@ == rs[j as int]);
            record.enabled = true;
            record.updated_at = now;
            match payload.note {
                Some(note) => {
                    let t = trimmed(note.as_str());
                    if t.len() > 0 {
                        record.note = string_of(&t);
                    }
                },
                None => {},
            }
            records.insert(j, record);
            config.records = records;
            proof {
                let t = choose|t: u64| now@ == decimal(t as nat);
                let some_id = client_id_spec(0, [0u8, 0u8, 0u8, 0u8]);
                assert(is_client_id(some_id));
                assert(rule_views(config.records@) =~= added_rules(rs, ua@, nv, decimal(t as nat), some_id));
            }
        },
        None => {
            let ua_s = string_of(&ua);
            let id = new_id();
            let ghost idv = id@;
            let record = ClientRuleRecord {
                id,
                client_name: normalize_client_name(ua_s.as_str()),
                device_name: String::from_str("--"),
                user_name: String::from_str("--"),
                user_agent: ua_s,
                source: ClientRuleSource::Manual,
                enabled: true,
                created_at: now.clone(),
                updated_at: now,
                note: match payload.note {
                    Some(n) => n,
                    None => String::from_str("手动添加 UA 拦截"),
                },
            };
            config.records.push(record);
            proof {
                let t = choose|t: u64| record.created_at@ == decimal(t as nat);
                assert(rule_views(config.records@) =~= added_rules(rs, ua@, nv, decimal(t as nat), idv));
            }
        },
    }
    Ok(())
}

/// The first rule with identifier `id`.
pub open spec fn first_rule_with_id(rs: Seq<RuleView>, id: Seq<char>, i: int) -> Option<int>
    decreases rs.len() - i,
{
    if i < 0 || i >= rs.len() {
        None
    } else if rs[i].id == id {
        Some(i)
    } else {
        first_rule_with_id(rs, id, i + 1)
    }
}

proof fn lemma_first_rule_with_id(rs: Seq<RuleView>, id: Seq<char>, i: int)
    requires
        0 <= i,
    ensures
        first_rule_with_id(rs, id, i) matches Some(j) ==> i <= j < rs.len() && rs[j].id == id,
    decreases rs.len() - i,
{
    if i < rs.len() && rs[i].id != id {
        lemma_first_rule_with_id(rs, id, i + 1);
    }
}

fn find_rule_with_id(rs: &Vec<ClientRuleRecord>, id: &str) -> (r: Option<usize>)
    ensures
        match r {
            Some(j) => first_rule_with_id(rule_views(rs@), id@, 0) == Some(j as int),
            None => first_rule_with_id(rule_views(rs@), id@, 0) is None,
        },
{
    let ghost s = rule_views(rs@);
    let mut j: usize = 0;
    while j < rs.len()
        invariant
            j <= rs@.len(),
            s == rule_views(rs@),
            first_rule_with_id(s, id@, 0) == first_rule_with_id(s, id@, j as int),
        decreases rs@.len() - j,
    {
        assert(s[j as int] == rs@[j as int]@);
        if str_eq(rs[j].id.as_str(), id) {
            return Some(j);
        }
        j = j + 1;
    }
    None
}

/// The rule switched on or off at `now`.
pub open spec fn toggled(r: RuleView, enabled: bool, now: Seq<char>) -> RuleView {
    RuleView { enabled: enabled, updated_at: now, ..r }
}

/// Switches the first rule with identifier `id` on or off and touches it; a missing rule is
/// refused.
pub fn toggle_client_rule_record(config: &mut ClientControlConfig, id: &str, enabled: bool) -> (r: Result<
    (),
    String,
>)
    ensures
        match first_rule_with_id(rule_views(old(config).records@), id@, 0) {
            None => r is Err && r->Err_0@ == "client rule not found"@ && *final(config) == *old(config),
            Some(j) => r is Ok && same_but_rules(*final(config), *old(config)) && exists|t: u64|
                rule_views(final(config).records@) == rule_views(old(config).records@).update(
                    j,
                    #[trigger] toggled(rule_views(old(config).records@)[j], enabled, decimal(t as nat)),
                ),
        },
{
    let ghost rs = rule_views(config.records@);
    match find_rule_with_id(&config.records, id) {
        None => {
            proof {
                reveal_strlit("client rule not found");
            }
            Err(String::from_str("client rule not found"))
        },
        Some(j) => {
            proof {
                lemma_first_rule_with_id(rs, id@, 0);
            }
            let now = chrono_like_now();
            let mut records: Vec<ClientRuleRecord> = Vec::new();
            std::mem::swap(&mut records, &mut config.records);
            let mut record = records.remove(j);
            assert(record@ == rs[j as int]);
            record.enabled = enabled;
            record.updated_at = now;
            records.insert(j, record);
            config.records = records;
            proof {
                let t = choose|t: u64| now@ == decimal(t as nat);
                assert(rule_views(config.records@) =~= rs.update(
                    j as int,
                    toggled(rs[j as int], enabled, decimal(t as nat)),
                ));
            }
            Ok(())
        },
    }
}

/// Every rule except those with identifier `id`, in their order.
pub open spec fn rules_without_id(rs: Seq<RuleView>, id: Seq<char>) -> Seq<RuleView>
    decreases rs.len(),
{
    if rs.len() == 0 {
        Seq::empty()
    } else {
        let a = rules_without_id(rs.drop_last(), id);
        if rs.last().id != id {
            a.push(rs.last())
        } else {
            a
        }
    }
}

/// Deletes the rules with identifier `id`; a missing rule is refused.
pub fn delete_client_rule_record(config: &mut ClientControlConfig, id: &str) -> (r: Result<(), String>)
    ensures
        first_rule_with_id(rule_views(old(config).records@), id@, 0) is None ==> r is Err
            && r->Err_0@ == "client rule not found"@ && *final(config) == *old(config),
        first_rule_with_id(rule_views(old(config).records@), id@, 0) is Some ==> r is Ok
            && same_but_rules(*final(config), *old(config)) && rule_views(final(config).records@)
            == rules_without_id(rule_views(old(config).records@), id@),
{
    if find_rule_with_id(&config.records, id).is_none() {
        proof {
            reveal_strlit("client rule not found");
        }
        return Err(String::from_str("client rule not found"));
    }
    let mut rest: Vec<ClientRuleRecord> = Vec::new();
    std::mem::swap(&mut rest, &mut config.records);
    let ghost input = rule_views(rest@);
    let mut kept: Vec<ClientRuleRecord> = Vec::new();
    let n = rest.len();
    let mut i: usize = 0;
    assert(input.take(0) =~= Seq::<RuleView>::empty());
    while rest.len() > 0
        invariant
            n == input.len(),
            i + rest@.len() == n,
            rule_views(rest@) == input.skip(i as int),
            rule_views(kept@) == rules_without_id(input.take(i as int), id@),
        decreases rest@.len(),
    {
        let ghost before = rest@;
        let record = rest.remove(0);
        assert(rule_views(rest@) =~= input.skip(i + 1)) by {
            assert forall|k: int| 0 <= k < rest@.len() implies #[trigger] rule_views(rest@)[k]
                == input.skip(i + 1)[k] by {
                assert(rule_views(before)[k + 1] == input.skip(i as int)[k + 1]);
            }
        }
        assert(rule_views(before)[0] == input.skip(i as int)[0]);
        assert(record@ == input[i as int]);
        assert(input.take(i + 1).drop_last() =~= input.take(i as int));
        let ghost k0 = rule_views(kept@);
        if !str_eq(record.id.as_str(), id) {
            kept.push(record);
            assert(rule_views(kept@) =~= k0.push(input[i as int]));
        }
        i = i + 1;
    }
    assert(input.take(n as int) =~= input);
    config.records = kept;
    Ok(())
}

pub open spec fn auto_note_text() -> Seq<char> {
    "自动记录播放设备"@
}

/// What recording a playback's client does to the rules: an existing rule with the same
/// family (ignoring ASCII case) takes the new client, device and user and is touched when one
/// of them changed; otherwise a disabled automatic rule is appended. Also tells whether the
/// rules changed.
pub open spec fn recorded_rules(
    rs: Seq<RuleView>,
    ua: Seq<char>,
    client: Seq<char>,
    device: Seq<char>,
    user: Seq<char>,
    now: Seq<char>,
    id: Seq<char>,
) -> (Seq<RuleView>, bool) {
    match first_rule_index(rs, ua, 0) {
        Some(j) => {
            let r = rs[j];
            let changed = r.client_name != client || r.device_name != device || r.user_name != user;
            (
                rs.update(
                    j,
                    RuleView {
                        client_name: client,
                        device_name: device,
                        user_name: user,
                        updated_at: if changed {
                            now
                        } else {
                            r.updated_at
                        },
                        ..r
                    },
                ),
                changed,
            )
        },
        None => (
            rs.push(
                RuleView {
                    id: id,
                    client_name: client,
                    device_name: device,
                    user_name: user,
                    user_agent: ua,
                    source: ClientRuleSource::Auto,
                    enabled: false,
                    created_at: now,
                    updated_at: now,
                    note: auto_note_text(),
                },
            ),
            true,
        ),
    }
}

/// Records the client of a playback among the rules (see [`recorded_rules`]); a user agent
/// whose family is blank leaves them as they are. Tells whether they changed.
pub fn record_client_event_in(
    config: &mut ClientControlConfig,
    client_name: &str,
    device_name: &str,
    user_name: &str,
    user_agent: &str,
) -> (changed: bool)
    ensures
        same_but_rules(*final(config), *old(config)),
        auto_rule_spec(user_agent@).len() == 0 ==> !changed && *final(config) == *old(config),
        auto_rule_spec(user_agent@).len() > 0 ==> exists|t: u64, id: Seq<char>|
            is_client_id(id) && (rule_views(final(config).records@), changed) == #[trigger] recorded_rules(
                rule_views(old(config).records@),
                auto_rule_spec(user_agent@),
                normalize_value_spec(client_name@),
                normalize_value_spec(device_name@),
                normalize_value_spec(user_name@),
                decimal(t as nat),
                id,
            ),
{
    let ua_s = normalize_auto_user_agent_rule(user_agent);
    let ua = chars_of(ua_s.as_str());
    if ua.len() == 0 {
        return false;
    }
    let client = normalize_value(client_name);
    let device = normalize_value(device_name);
    let user = normalize_value(user_name);
    let ghost rs = rule_views(config.records@);
    match find_rule_ignore_case(&config.records, &ua) {
        Some(j) => {
            proof {
                lemma_first_rule_index(rs, ua@, 0);
            }
            let mut records: Vec<ClientRuleRecord> = Vec::new();
            std::mem::swap(&mut records, &mut config.records);
            let mut record = records.remove(j);
            assert(record@ == rs[j as int]);
            let changed = !str_eq(record.client_name.as_str(), client.as_str()) || !str_eq(
                record.device_name.as_str(),
                device.as_str(),
            ) || !str_eq(record.user_name.as_str(), user.as_str());
            record.client_name = client;
            record.device_name = device;
            record.user_name = user;
            let ghost stamp: Seq<char>;
            if changed {
                let now = chrono_like_now();
                proof {
                    stamp = now@;
                }
                record.updated_at = now;
            } else {
                proof {
                    stamp = decimal(0);
                }
            }
            records.insert(j, record);
            config.records = records;
            proof {
                let t: u64 = if changed {
                    choose|t: u64| stamp == decimal(t as nat)
                } else {
                    0
                };
                let some_id = client_id_spec(0, [0u8, 0u8, 0u8, 0u8]);
                assert(is_client_id(some_id));
                assert(rule_views(config.records@) =~= recorded_rules(rs, ua@, client@, device@, user@, decimal(t as nat), some_id).0);
            }
            changed
        },
        None => {
            let now = chrono_like_now();
            let id = new_id();
            let ghost idv = id@;
            let ghost nowv = now@;
            let record = ClientRuleRecord {
                id,
                client_name: client,
                device_name: device,
                user_name: user,
                user_agent: ua_s,
                source: ClientRuleSource::Auto,
                enabled: false,
                created_at: now.clone(),
                updated_at: now,
                note: String::from_str("自动记录播放设备"),
            };
            config.records.push(record);
            proof {
                let t = choose|t: u64| nowv == decimal(t as nat);
                assert(rule_views(config.records@) =~= recorded_rules(rs, ua@, record.client_name@, record.device_name@, record.user_name@, decimal(t as nat), idv).0);
            }
            true
        },
    }
}

/// The first enabled rule that matches the user agent, when client control is on and the
/// user agent is not empty.
pub open spec fn first_matching_rule(rs: Seq<RuleView>, user_agent: Seq<char>, i: int) -> Option<int>
    decreases rs.len() - i,
{
    if i < 0 || i >= rs.len() {
        None
    } else if rs[i].enabled && rule_matches_spec(rs[i].user_agent, user_agent) {
        Some(i)
    } else {
        first_matching_rule(rs, user_agent, i + 1)
    }
}

/// The rule found from position `i` on is the first enabled rule there whose user agent
/// matches: disabled rules never block, and when none is found no enabled rule from `i` on
/// matches.
pub proof fn lemma_blocking_rule_is_first_enabled_match(rs: Seq<RuleView>, user_agent: Seq<char>, i: int)
    requires
        0 <= i,
    ensures
        first_matching_rule(rs, user_agent, i) matches Some(j) ==> {
            &&& i <= j < rs.len()
            &&& rs[j].enabled
            &&& rule_matches_spec(rs[j].user_agent, user_agent)
            &&& forall|k: int| i <= k < j ==> !((#[trigger] rs[k]).enabled && rule_matches_spec(rs[k].user_agent, user_agent))
        },
        first_matching_rule(rs, user_agent, i) is None ==> forall|k: int|
            i <= k < rs.len() ==> !((#[trigger] rs[k]).enabled && rule_matches_spec(rs[k].user_agent, user_agent)),
    decreases rs.len() - i,
{
    if i < rs.len() {
        lemma_blocking_rule_is_first_enabled_match(rs, user_agent, i + 1);
    }
}

/// A configuration whose rules are all disabled blocks no user agent.
pub proof fn lemma_disabled_rules_never_block(rs: Seq<RuleView>, user_agent: Seq<char>)
    requires
        forall|k: int| 0 <= k < rs.len() ==> !(#[trigger] rs[k]).enabled,
    ensures
        first_matching_rule(rs, user_agent, 0) is None,
{
    lemma_blocking_rule_is_first_enabled_match(rs, user_agent, 0);
}

/// The enabled rule that blocks a client with this user agent: the first match, when client
/// control is on and the user agent is not empty.
pub fn matched_block_rule_in(config: &ClientControlConfig, user_agent: &str) -> (r: Option<ClientRuleRecord>)
    ensures
        !config.enabled || user_agent@.len() == 0 ==> r is None,
        config.enabled && user_agent@.len() > 0 ==> match first_matching_rule(
            rule_views(config.records@),
            user_agent@,
            0,
        ) {
            Some(j) => r == Some(config.records@[j]),
            None => r is None,
        },
        r matches Some(rec) ==> rec.enabled && rule_matches_spec(rec.user_agent@, user_agent@),
{
    proof {
        lemma_blocking_rule_is_first_enabled_match(rule_views(config.records@), user_agent@, 0);
    }
    if !config.enabled || user_agent.is_empty() {
        return None;
    }
    let ghost s = rule_views(config.records@);
    let mut j: usize = 0;
    while j < config.records.len()
        invariant
            j <= config.records@.len(),
            s == rule_views(config.records@),
            first_matching_rule(s, user_agent@, 0) == first_matching_rule(s, user_agent@, j as int),
            config.enabled,
            user_agent@.len() > 0,
        decreases config.records@.len() - j,
    {
        assert(s[j as int] == config.records@[j as int]@);
        if config.records[j].enabled && rule_matches(&config.records[j], user_agent) {
            return Some(config.records[j].duplicate());
        }
        j = j + 1;
    }
    None
}

/// The title of the notification of a blocked client.
pub open spec fn rule_hit_title_spec(server_name: Seq<char>) -> Seq<char> {
    server_name + " 客户端命中拦截"@
}

/// The body of the notification of a blocked client.
pub open spec fn rule_hit_text_spec(
    record: RuleView,
    server_name: Seq<char>,
    playback_ip: Seq<char>,
    method: Seq<char>,
    path: Seq<char>,
) -> Seq<char> {
    "服务器："@ + server_name + "\n用户："@ + normalize_value_spec(record.user_name) + "\nIP："@
        + normalize_value_spec(playback_ip) + "\n客户端："@ + normalize_value_spec(record.client_name)
        + "\n设备："@ + normalize_value_spec(record.device_name) + "\n规则："@ + normalize_value_spec(
        record.user_agent,
    ) + "\n请求："@ + method + " "@ + path
}

/// The title and body of the notification sent when a rule blocks a client.
pub fn client_rule_hit_payload(
    record: &ClientRuleRecord,
    server_name: &str,
    playback_ip: &str,
    method: &str,
    path: &str,
) -> (r: (String, String))
    ensures
        r.0@ == rule_hit_title_spec(server_name@),
        r.1@ == rule_hit_text_spec(record@, server_name@, playback_ip@, method@, path@),
{
    let mut title = String::from_str(server_name);
    title.append(" 客户端命中拦截");
    let mut text = String::from_str("服务器：");
    text.append(server_name);
    text.append("\n用户：");
    let v = normalize_value(record.user_name.as_str());
    text.append(v.as_str());
    text.append("\nIP：");
    let v = normalize_value(playback_ip);
    text.append(v.as_str());
    text.append("\n客户端：");
    let v = normalize_value(record.client_name.as_str());
    text.append(v.as_str());
    text.append("\n设备：");
    let v = normalize_value(record.device_name.as_str());
    text.append(v.as_str());
    text.append("\n规则：");
    let v = normalize_value(record.user_agent.as_str());
    text.append(v.as_str());
    text.append("\n请求：");
    text.append(method);
    text.append(" ");
    text.append(path);
    (title, text)
}

} // verus!
