//! Client control settings as they go into a backup and come back from one.

use vstd::prelude::*;
use vstd::string::StringExecFns;
use crate::client_control::blocks::{
    block_views, now_seconds, prune_inactive_rate_limit_blocks, pruned_blocks,
};
use crate::client_control::webhooks::{
    all_normalized, migrate_webhook_config, webhook_list_spec, webhook_normalized, webhook_views,
};
use crate::client_control::{
    clamp, default_config, is_default_config, normalize_action_spec, normalize_client_control_limits,
    normalize_client_rule_records, normalize_playback_rate_limit_action, normalize_rules_changed,
    normalize_rules_spec,
    rule_views, ClientControlConfig, ClientRuleRecord, ClientRuleSource, RuleView,
    CONCURRENT_PLAYBACK_MAX, PLAYBACK_RATE_MAX_BLOCK_SECONDS, PLAYBACK_RATE_MAX_REQUESTS,
    PLAYBACK_RATE_MAX_WINDOW_SECONDS,
};

verus! {

/// A rule worth backing up: enabled, or added by hand.
pub open spec fn backed_up_rule(r: RuleView) -> bool {
    r.enabled || r.source == ClientRuleSource::Manual
}

pub open spec fn backup_rules(s: Seq<RuleView>) -> Seq<RuleView>
    decreases s.len(),
{
    if s.len() == 0 {
        Seq::empty()
    } else {
        let a = backup_rules(s.drop_last());
        if backed_up_rule(s.last()) {
            a.push(s.last())
        } else {
            a
        }
    }
}

/// Two settings that differ at most in their rules and blocks.
pub open spec fn same_but_rules_and_blocks(a: ClientControlConfig, b: ClientControlConfig) -> bool {
    &&& a.enabled == b.enabled
    &&& a.notify_enabled == b.notify_enabled
    &&& a.playback_rate_limit_enabled == b.playback_rate_limit_enabled
    &&& a.playback_rate_limit_window_seconds == b.playback_rate_limit_window_seconds
    &&& a.playback_rate_limit_max_requests == b.playback_rate_limit_max_requests
    &&& a.playback_rate_limit_block_seconds == b.playback_rate_limit_block_seconds
    &&& a.playback_rate_limit_action == b.playback_rate_limit_action
    &&& a.concurrent_playback_limit_enabled == b.concurrent_playback_limit_enabled
    &&& a.concurrent_playback_limit_max == b.concurrent_playback_limit_max
    &&& a.webhook == b.webhook
    &&& a.webhooks == b.webhooks
}

/// The settings as a backup stores them: only enabled or manual rules, and the blocks still
/// in force at `now` (see [`pruned_blocks`]).
pub fn prepare_backup_config(config: ClientControlConfig, now: u64) -> (r: ClientControlConfig)
    ensures
        rule_views(r.records@) == backup_rules(rule_views(config.records@)),
        block_views(r.rate_limit_blocks@) == pruned_blocks(block_views(config.rate_limit_blocks@), now),
        same_but_rules_and_blocks(r, config),
{
    let mut config = config;
    let mut rest: Vec<ClientRuleRecord> = Vec::new();
    std::mem::swap(&mut rest, &mut config.records);
    let ghost input = rule_views(rest@);
    let mut kept: Vec<ClientRuleRecord> = Vec::new();
    let n = rest.len();
    let mut i: usize = 0;
    assert(input.take(0) =~= Seq::<RuleView>::empty());
    while rest.len() > 0
        invariant
            n == input.len(),
            i + rest@.len() == n,
            rule_views(rest@) == input.skip(i as int),
            rule_views(kept@) == backup_rules(input.take(i as int)),
        decreases rest@.len(),
    {
        let ghost before = rest@;
        let record = rest.remove(0);
        assert(rule_views(rest@) =~= input.skip(i + 1)) by {
            assert forall|k: int| 0 <= k < rest@.len() implies #[trigger] rule_views(rest@)[k]
                == input.skip(i + 1)[k] by {
                assert(rule_views(before)[k + 1] == input.skip(i as int)[k + 1]);
            }
        }
        assert(rule_views(before)[0] == input.skip(i as int)[0]);
        assert(record@ == input[i as int]);
        assert(input.take(i + 1).drop_last() =~= input.take(i as int));
        let ghost k0 = rule_views(kept@);
        if record.enabled || record.source == ClientRuleSource::Manual {
            kept.push(record);
            assert(rule_views(kept@) =~= k0.push(input[i as int]));
        }
        i = i + 1;
    }
    assert(input.take(n as int) =~= input);
    config.records = kept;
    let _ = prune_inactive_rate_limit_blocks(&mut config, now);
    config
}

/// `r` is what restoring `base` gives: webhooks migrated, rules normalized, limits clamped,
/// the action normalized and the blocks pruned at some moment.
pub open spec fn restored_from(r: ClientControlConfig, base: ClientControlConfig) -> bool {
    &&& r.enabled == base.enabled
    &&& r.notify_enabled == base.notify_enabled
    &&& r.playback_rate_limit_enabled == base.playback_rate_limit_enabled
    &&& r.concurrent_playback_limit_enabled == base.concurrent_playback_limit_enabled
    &&& r.playback_rate_limit_window_seconds == clamp(
        base.playback_rate_limit_window_seconds,
        1,
        PLAYBACK_RATE_MAX_WINDOW_SECONDS,
    )
    &&& r.playback_rate_limit_max_requests == clamp(
        base.playback_rate_limit_max_requests,
        1,
        PLAYBACK_RATE_MAX_REQUESTS,
    )
    &&& r.playback_rate_limit_block_seconds == clamp(
        base.playback_rate_limit_block_seconds,
        1,
        PLAYBACK_RATE_MAX_BLOCK_SECONDS,
    )
    &&& r.concurrent_playback_limit_max == clamp(
        base.concurrent_playback_limit_max,
        1,
        CONCURRENT_PLAYBACK_MAX,
    )
    &&& r.playback_rate_limit_action@ == normalize_action_spec(base.playback_rate_limit_action@)
    &&& rule_views(r.records@) == normalize_rules_spec(rule_views(base.records@))
    &&& exists|now: u64|
        block_views(r.rate_limit_blocks@) == #[trigger] pruned_blocks(
            block_views(base.rate_limit_blocks@),
            now,
        )
    &&& exists|ns: Seq<crate::client_control::WebhookView>, ln: crate::client_control::WebhookView|
        all_normalized(webhook_views(base.webhooks@), ns) && webhook_normalized(base.webhook@, ln)
            && webhook_views(r.webhooks@) == #[trigger] webhook_list_spec(ns, base.webhook@, ln)
    &&& r.webhooks@.len() >= 1
    &&& r.webhook == r.webhooks@[0]
}

/// The settings restored from a backup (the defaults when it holds none), normalized as when
/// they are loaded.
pub fn normalize_restored_config(config: Option<ClientControlConfig>) -> (r: ClientControlConfig)
    ensures
        exists|base: ClientControlConfig|
            (config matches Some(c) ==> base == c) && (config is None ==> is_default_config(base))
                && #[trigger] restored_from(r, base),
{
    let mut c = match config {
        Some(c) => c,
        None => default_config(),
    };
    let ghost base = c;
    migrate_webhook_config(&mut c);
    let ghost c1 = c;
    let _ = normalize_client_rule_records(&mut c);
    let _ = normalize_client_control_limits(&mut c);
    let ghost c3 = c;
    c.playback_rate_limit_action = normalize_playback_rate_limit_action(
        c.playback_rate_limit_action.as_str(),
    );
    let now = now_seconds();
    let ghost c4 = c;
    let _ = prune_inactive_rate_limit_blocks(&mut c, now);
    assert(block_views(c.rate_limit_blocks@) == pruned_blocks(block_views(base.rate_limit_blocks@), now));
    assert(webhook_views(c.webhooks@) == webhook_views(c1.webhooks@));
    assert(restored_from(c, base));
    c
}

/// Normalizes settings as they are loaded at `now`: webhooks migrated, rules normalized,
/// limits clamped and blocks pruned. Tells whether the rules, limits or blocks changed, so
/// that the settings are saved again.
pub fn normalize_loaded_config(config: &mut ClientControlConfig, now: u64) -> (changed: bool)
    ensures
        exists|ns: Seq<crate::client_control::WebhookView>, ln: crate::client_control::WebhookView|
            all_normalized(webhook_views(old(config).webhooks@), ns) && webhook_normalized(
                old(config).webhook@,
                ln,
            ) && webhook_views(final(config).webhooks@) == #[trigger] webhook_list_spec(
                ns,
                old(config).webhook@,
                ln,
            ),
        final(config).webhook == final(config).webhooks@[0],
        rule_views(final(config).records@) == normalize_rules_spec(rule_views(old(config).records@)),
        final(config).playback_rate_limit_window_seconds == clamp(
            old(config).playback_rate_limit_window_seconds,
            1,
            PLAYBACK_RATE_MAX_WINDOW_SECONDS,
        ),
        final(config).playback_rate_limit_max_requests == clamp(
            old(config).playback_rate_limit_max_requests,
            1,
            PLAYBACK_RATE_MAX_REQUESTS,
        ),
        final(config).playback_rate_limit_block_seconds == clamp(
            old(config).playback_rate_limit_block_seconds,
            1,
            PLAYBACK_RATE_MAX_BLOCK_SECONDS,
        ),
        final(config).concurrent_playback_limit_max == clamp(
            old(config).concurrent_playback_limit_max,
            1,
            CONCURRENT_PLAYBACK_MAX,
        ),
        block_views(final(config).rate_limit_blocks@) == pruned_blocks(
            block_views(old(config).rate_limit_blocks@),
            now,
        ),
        final(config).enabled == old(config).enabled,
        final(config).notify_enabled == old(config).notify_enabled,
        final(config).playback_rate_limit_enabled == old(config).playback_rate_limit_enabled,
        final(config).playback_rate_limit_action == old(config).playback_rate_limit_action,
        final(config).concurrent_playback_limit_enabled
            == old(config).concurrent_playback_limit_enabled,
        changed == (normalize_rules_changed(rule_views(old(config).records@))
            || final(config).playback_rate_limit_window_seconds
            != old(config).playback_rate_limit_window_seconds
            || final(config).playback_rate_limit_max_requests
            != old(config).playback_rate_limit_max_requests
            || final(config).playback_rate_limit_block_seconds
            != old(config).playback_rate_limit_block_seconds
            || final(config).concurrent_playback_limit_max
            != old(config).concurrent_playback_limit_max || final(config).rate_limit_blocks@.len()
            != old(config).rate_limit_blocks@.len()),
{
    migrate_webhook_config(config);
    let rules = normalize_client_rule_records(config);
    let limits = normalize_client_control_limits(config);
    let pruned = prune_inactive_rate_limit_blocks(config, now);
    rules || limits || pruned
}

} // verus!
