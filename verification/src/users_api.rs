//! Per-user playback policies kept by the panel, and the plain requests of the user pages.

use vstd::prelude::*;
use vstd::string::StringExecFns;
use crate::text::{
    chars_eq_ignore_case, chars_eq_str, chars_of, eq_ignore_case, slice_chars, string_of, trim,
    trimmed,
};
use crate::config::{Config, is_for_server, same_config, usable_servers};

verus! {

/// The panel's own limits for one Emby user.
#[derive(Debug, Clone)]
pub struct UserPolicyRecord {
    pub server_id: String,
    pub user_id: String,
    pub user_name: String,
    pub rate_limit_enabled: bool,
    pub rate_limit_window_seconds: u64,
    pub rate_limit_max_requests: u64,
    pub rate_limit_block_seconds: u64,
    pub rate_limit_action: String,
    pub concurrent_playback_limit_enabled: bool,
    pub concurrent_playback_limit_max: u64,
}

/// The stored list of user policies.
#[derive(Debug, Clone)]
pub struct UserPoliciesDocument {
    pub policies: Vec<UserPolicyRecord>,
}

/// A folder or device a user may be given access to.
#[derive(Debug, Clone)]
pub struct UserAccessOption {
    pub id: String,
    pub name: String,
}

/// Filters of the user list.
#[derive(Debug)]
pub struct UserListQuery {
    pub search: Option<String>,
    pub server_id: Option<String>,
    pub status: Option<String>,
}

/// A new password for a user.
#[derive(Debug)]
pub struct UserPasswordReset {
    pub new_password: String,
}

/// The confirmation of a user deletion: the user's name typed again.
#[derive(Debug)]
pub struct UserDeleteRequest {
    pub confirm_name: String,
}

/// The confirmation of a template deletion.
#[derive(Debug)]
pub struct UserTemplateDeleteRequest {
    pub confirm: bool,
}

/// The server whose templates are listed.
#[derive(Debug)]
pub struct UserTemplateListQuery {
    pub server_id: Option<String>,
}

/// The settings key of the user policies.
pub const USER_POLICIES_SETTING_KEY: &'static str = "user_policies";

/// The settings key of the user templates.
pub const USER_TEMPLATES_SETTING_KEY: &'static str = "user_templates";

/// How many servers are asked for their users at once.
pub const USER_QUERY_CONCURRENCY_LIMIT: usize = 4;

/// How many items a policy list keeps.
pub const MAX_POLICY_LIST_ITEMS: usize = 256;

/// The largest concurrent playback limit of a user.
pub const MAX_USER_POLICY_LIMIT: u64 = 64;

/// How many templates are kept.
pub const MAX_USER_TEMPLATES: usize = 512;

/// The longest template name, in characters.
pub const MAX_TEMPLATE_NAME: usize = 128;

/// How many access schedules a policy keeps.
pub const MAX_ACCESS_SCHEDULES: usize = 64;

/// The largest parental rating.
pub const MAX_PARENTAL_RATING: i64 = 10000;

/// The largest automatic remote quality.
pub const MAX_REMOTE_QUALITY: i64 = 1000000000;

/// The largest remote bitrate limit.
pub const MAX_REMOTE_BITRATE: u64 = 4294967295;

/// How many user policies are kept.
pub const MAX_USER_POLICIES: usize = 4096;

pub fn default_rate_window() -> (r: u64)
    ensures
        r == 60,
{
    60
}

pub fn default_rate_max() -> (r: u64)
    ensures
        r == 20,
{
    20
}

pub fn default_rate_block() -> (r: u64)
    ensures
        r == 1800,
{
    1800
}

pub fn default_rate_action() -> (r: String)
    ensures
        r@ == "block_ip"@,
{
    String::from_str("block_ip")
}

pub fn default_concurrent_max() -> (r: u64)
    ensures
        r == 3,
{
    3
}

/// A user policy with default limits for no user in particular.
pub open spec fn is_default_policy(p: UserPolicyRecord) -> bool {
    &&& p.server_id@.len() == 0
    &&& p.user_id@.len() == 0
    &&& p.user_name@.len() == 0
    &&& !p.rate_limit_enabled
    &&& p.rate_limit_window_seconds == 60
    &&& p.rate_limit_max_requests == 20
    &&& p.rate_limit_block_seconds == 1800
    &&& p.rate_limit_action@ == "block_ip"@
    &&& !p.concurrent_playback_limit_enabled
    &&& p.concurrent_playback_limit_max == 3
}

impl Default for UserPolicyRecord {
    fn default() -> (r: Self)
        ensures
            is_default_policy(r),
    {
        UserPolicyRecord {
            server_id: String::new(),
            user_id: String::new(),
            user_name: String::new(),
            rate_limit_enabled: false,
            rate_limit_window_seconds: default_rate_window(),
            rate_limit_max_requests: default_rate_max(),
            rate_limit_block_seconds: default_rate_block(),
            rate_limit_action: default_rate_action(),
            concurrent_playback_limit_enabled: false,
            concurrent_playback_limit_max: default_concurrent_max(),
        }
    }
}

impl UserPolicyRecord {
    /// A field-by-field copy.
    pub fn duplicate(&self) -> (r: Self)
        ensures
            r == *self,
    {
        UserPolicyRecord {
            server_id: self.server_id.clone(),
            user_id: self.user_id.clone(),
            user_name: self.user_name.clone(),
            rate_limit_enabled: self.rate_limit_enabled,
            rate_limit_window_seconds: self.rate_limit_window_seconds,
            rate_limit_max_requests: self.rate_limit_max_requests,
            rate_limit_block_seconds: self.rate_limit_block_seconds,
            rate_limit_action: self.rate_limit_action.clone(),
            concurrent_playback_limit_enabled: self.concurrent_playback_limit_enabled,
            concurrent_playback_limit_max: self.concurrent_playback_limit_max,
        }
    }
}

/// The action taken against a user over the rate limit: `block_user`, `disable_user` and
/// `mixed` are kept (trimmed); anything else is `block_ip`.
pub open spec fn rate_action_spec(value: Seq<char>) -> Seq<char> {
    let t = trim(value);
    if t == "block_user"@ || t == "disable_user"@ || t == "mixed"@ {
        t
    } else {
        "block_ip"@
    }
}

pub fn normalize_rate_action(value: &str) -> (r: String)
    ensures
        r@ == rate_action_spec(value@),
{
    let t = trimmed(value);
    if chars_eq_str(&t, "block_user") || chars_eq_str(&t, "disable_user") || chars_eq_str(&t, "mixed") {
        string_of(&t)
    } else {
        String::from_str("block_ip")
    }
}

/// The kinds of unrated items a user can be kept from.
pub open spec fn unrated_item_spec(value: Seq<char>) -> bool {
    let t = trim(value);
    t == "Movie"@ || t == "Trailer"@ || t == "Series"@ || t == "Music"@ || t == "Game"@ || t
        == "Book"@ || t == "LiveTvChannel"@ || t == "LiveTvProgram"@ || t == "ChannelContent"@ || t
        == "Other"@
}

pub fn is_valid_unrated_item(value: &str) -> (r: bool)
    ensures
        r == unrated_item_spec(value@),
{
    let t = trimmed(value);
    chars_eq_str(&t, "Movie") || chars_eq_str(&t, "Trailer") || chars_eq_str(&t, "Series")
        || chars_eq_str(&t, "Music") || chars_eq_str(&t, "Game") || chars_eq_str(&t, "Book")
        || chars_eq_str(&t, "LiveTvChannel") || chars_eq_str(&t, "LiveTvProgram") || chars_eq_str(
        &t,
        "ChannelContent",
    ) || chars_eq_str(&t, "Other")
}

/// The trimmed, non-blank values, in order.
pub open spec fn trimmed_nonblank(values: Seq<Seq<char>>) -> Seq<Seq<char>>
    decreases values.len(),
{
    if values.len() == 0 {
        Seq::empty()
    } else {
        let rest = trimmed_nonblank(values.drop_last());
        if trim(values.last()).len() > 0 {
            rest.push(trim(values.last()))
        } else {
            rest
        }
    }
}

/// A policy list: its values trimmed, blanks dropped, at most 256 kept.
pub open spec fn policy_list_spec(values: Seq<Seq<char>>) -> Seq<Seq<char>> {
    let t = trimmed_nonblank(values);
    if t.len() > MAX_POLICY_LIST_ITEMS {
        t.take(MAX_POLICY_LIST_ITEMS as int)
    } else {
        t
    }
}

/// The trimmed, non-blank values, in order.
pub fn normalized_policy_items(values: &Vec<String>) -> (r: Vec<String>)
    ensures
        crate::text::string_views(r@) == trimmed_nonblank(crate::text::string_views(values@)),
{
    let ghost vs = crate::text::string_views(values@);
    let mut out: Vec<String> = Vec::new();
    let mut i: usize = 0;
    assert(vs.take(0) =~= Seq::<Seq<char>>::empty());
    while i < values.len()
        invariant
            i <= values@.len(),
            vs == crate::text::string_views(values@),
            crate::text::string_views(out@) == trimmed_nonblank(vs.take(i as int)),
        decreases values@.len() - i,
    {
        assert(vs.take(i + 1).drop_last() =~= vs.take(i as int));
        assert(vs.take(i + 1).last() == values@[i as int]@);
        let t = trimmed(values[i].as_str());
        if t.len() > 0 {
            let ghost o = crate::text::string_views(out@);
            out.push(string_of(&t));
            assert(crate::text::string_views(out@) =~= o.push(trim(values@[i as int]@)));
        }
        i = i + 1;
    }
    assert(vs.take(vs.len() as int) =~= vs);
    out
}

pub fn normalized_policy_list(values: &Vec<String>) -> (r: Vec<String>)
    ensures
        crate::text::string_views(r@) == policy_list_spec(crate::text::string_views(values@)),
{
    let mut out = normalized_policy_items(values);
    let ghost all = crate::text::string_views(out@);
    out.truncate(MAX_POLICY_LIST_ITEMS);
    proof {
        if all.len() > MAX_POLICY_LIST_ITEMS {
            assert(crate::text::string_views(out@) =~= all.take(MAX_POLICY_LIST_ITEMS as int));
        } else {
            assert(crate::text::string_views(out@) =~= all);
        }
    }
    out
}

/// The default policy of a user (see [`is_default_policy`]), naming the user.
pub fn default_user_policy(server_id: &str, user_id: &str, user_name: &str) -> (r: UserPolicyRecord)
    ensures
        r.server_id@ == server_id@,
        r.user_id@ == user_id@,
        r.user_name@ == user_name@,
        !r.rate_limit_enabled,
        r.rate_limit_window_seconds == 60,
        r.rate_limit_max_requests == 20,
        r.rate_limit_block_seconds == 1800,
        r.rate_limit_action@ == "block_ip"@,
        !r.concurrent_playback_limit_enabled,
        r.concurrent_playback_limit_max == 3,
{
    let mut p = UserPolicyRecord::default();
    p.server_id = String::from_str(server_id);
    p.user_id = String::from_str(user_id);
    p.user_name = String::from_str(user_name);
    p.rate_limit_action = default_rate_action();
    p
}

pub open spec fn clamp_u64(v: u64, lo: u64, hi: u64) -> u64 {
    if v < lo {
        lo
    } else if v > hi {
        hi
    } else {
        v
    }
}

fn clamp(v: u64, lo: u64, hi: u64) -> (r: u64)
    ensures
        r == clamp_u64(v, lo, hi),
{
    if v < lo {
        lo
    } else if v > hi {
        hi
    } else {
        v
    }
}

/// The number of bytes of a character in UTF-8.
pub open spec fn utf8_width(c: char) -> nat {
    if (c as u32) < 0x80 {
        1
    } else if (c as u32) < 0x800 {
        2
    } else if (c as u32) < 0x10000 {
        3
    } else {
        4
    }
}

/// The number of bytes of a text in UTF-8, as `str::len`.
pub open spec fn byte_len(s: Seq<char>) -> nat
    decreases s.len(),
{
    if s.len() == 0 {
        0
    } else {
        byte_len(s.drop_last()) + utf8_width(s.last())
    }
}

proof fn lemma_byte_len_prefix(s: Seq<char>, k: int)
    requires
        0 <= k <= s.len(),
    ensures
        byte_len(s.take(k)) <= byte_len(s),
    decreases s.len() - k,
{
    if k < s.len() {
        lemma_byte_len_prefix(s, k + 1);
        assert(s.take(k + 1).drop_last() =~= s.take(k));
    } else {
        assert(s.take(k) =~= s);
    }
}

/// Whether a text takes at most `limit` bytes in UTF-8.
pub fn fits_bytes(s: &str, limit: usize) -> (r: bool)
    requires
        limit <= 0xffff_0000,
    ensures
        r == (byte_len(s@) <= limit),
{
    let v = chars_of(s);
    let mut total: usize = 0;
    let mut i: usize = 0;
    while i < v.len()
        invariant
            i <= v@.len(),
            v@ == s@,
            limit <= 0xffff_0000,
            total == byte_len(v@.take(i as int)),
            total <= limit,
        decreases v@.len() - i,
    {
        let c = v[i] as u32;
        let w: usize = if c < 0x80 {
            1
        } else if c < 0x800 {
            2
        } else if c < 0x10000 {
            3
        } else {
            4
        };
        assert(v@.take(i + 1).drop_last() =~= v@.take(i as int));
        total = total + w;
        i = i + 1;
        if total > limit {
            proof {
                lemma_byte_len_prefix(v@, i as int);
            }
            return false;
        }
    }
    assert(v@.take(v@.len() as int) =~= v@);
    true
}

/// A policy as it is stored: ids trimmed, the name trimmed and cut to 256 characters, the
/// limits clamped (window and block 1 to 86400 seconds, requests 1 to 10000, concurrent
/// playbacks 1 to 64) and the action normalized.
pub open spec fn policy_normalized(p: UserPolicyRecord, q: UserPolicyRecord) -> bool {
    &&& q.server_id@ == trim(p.server_id@)
    &&& q.user_id@ == trim(p.user_id@)
    &&& q.user_name@ == (if trim(p.user_name@).len() > 256 {
        trim(p.user_name@).take(256)
    } else {
        trim(p.user_name@)
    })
    &&& q.rate_limit_enabled == p.rate_limit_enabled
    &&& q.rate_limit_window_seconds == clamp_u64(p.rate_limit_window_seconds, 1, 86400)
    &&& q.rate_limit_max_requests == clamp_u64(p.rate_limit_max_requests, 1, 10000)
    &&& q.rate_limit_block_seconds == clamp_u64(p.rate_limit_block_seconds, 1, 86400)
    &&& q.rate_limit_action@ == rate_action_spec(p.rate_limit_action@)
    &&& q.concurrent_playback_limit_enabled == p.concurrent_playback_limit_enabled
    &&& q.concurrent_playback_limit_max == clamp_u64(p.concurrent_playback_limit_max, 1, 64)
}

/// A stored policy names a server and a user, each in at most 128 bytes.
pub open spec fn policy_kept(q: UserPolicyRecord) -> bool {
    q.server_id@.len() > 0 && q.user_id@.len() > 0 && byte_len(q.server_id@) <= 128 && byte_len(
        q.user_id@,
    ) <= 128
}

/// The server and user a policy is for.
pub open spec fn policy_key(q: UserPolicyRecord) -> (Seq<char>, Seq<char>) {
    (q.server_id@, q.user_id@)
}

fn normalize_policy(p: UserPolicyRecord) -> (q: UserPolicyRecord)
    ensures
        policy_normalized(p, q),
{
    let name_t = trimmed(p.user_name.as_str());
    let name = if name_t.len() > 256 {
        slice_chars(&name_t, 0, 256)
    } else {
        name_t
    };
    assert(name_t@.len() > 256 ==> name@ =~= name_t@.take(256));
    UserPolicyRecord {
        server_id: string_of(&trimmed(p.server_id.as_str())),
        user_id: string_of(&trimmed(p.user_id.as_str())),
        user_name: string_of(&name),
        rate_limit_enabled: p.rate_limit_enabled,
        rate_limit_window_seconds: clamp(p.rate_limit_window_seconds, 1, 86400),
        rate_limit_max_requests: clamp(p.rate_limit_max_requests, 1, 10000),
        rate_limit_block_seconds: clamp(p.rate_limit_block_seconds, 1, 86400),
        rate_limit_action: normalize_rate_action(p.rate_limit_action.as_str()),
        concurrent_playback_limit_enabled: p.concurrent_playback_limit_enabled,
        concurrent_playback_limit_max: clamp(p.concurrent_playback_limit_max, 1, 64),
    }
}

/// The policies a document keeps, before duplicates go: each normalized, those that name a
/// server and a user.
pub open spec fn kept_policies(s: Seq<UserPolicyRecord>, out: Seq<UserPolicyRecord>) -> bool
    decreases s.len(),
{
    if s.len() == 0 {
        out.len() == 0
    } else {
        exists|q: UserPolicyRecord|
            #![trigger policy_normalized(s.last(), q)]
            policy_normalized(s.last(), q) && if policy_kept(q) {
                out.len() > 0 && out.last() == q && kept_policies(s.drop_last(), out.drop_last())
            } else {
                kept_policies(s.drop_last(), out)
            }
    }
}

/// The first policy of each server and user, in order.
pub open spec fn first_of_each(s: Seq<UserPolicyRecord>) -> Seq<UserPolicyRecord>
    decreases s.len(),
{
    if s.len() == 0 {
        Seq::empty()
    } else {
        let rest = first_of_each(s.drop_last());
        if exists|j: int| 0 <= j < s.len() - 1 && policy_key(#[trigger] s[j]) == policy_key(s.last()) {
            rest
        } else {
            rest.push(s.last())
        }
    }
}

proof fn lemma_first_of_each_keys(s: Seq<UserPolicyRecord>, k: (Seq<char>, Seq<char>))
    ensures
        (exists|j: int| 0 <= j < s.len() && policy_key(#[trigger] s[j]) == k) <==> (exists|m: int|
            0 <= m < first_of_each(s).len() && policy_key(#[trigger] first_of_each(s)[m]) == k),
    decreases s.len(),
{
    if s.len() > 0 {
        let init = s.drop_last();
        lemma_first_of_each_keys(init, k);
        let rest = first_of_each(init);
        if exists|j: int| 0 <= j < s.len() && policy_key(#[trigger] s[j]) == k {
            let j = choose|j: int| 0 <= j < s.len() && policy_key(#[trigger] s[j]) == k;
            if j < s.len() - 1 {
                assert(policy_key(init[j]) == k);
                let m = choose|m: int| 0 <= m < rest.len() && policy_key(#[trigger] rest[m]) == k;
                assert(policy_key(first_of_each(s)[m]) == k);
            } else {
                if exists|i: int| 0 <= i < s.len() - 1 && policy_key(#[trigger] s[i]) == policy_key(s.last()) {
                    let i = choose|i: int| 0 <= i < s.len() - 1 && policy_key(#[trigger] s[i]) == policy_key(s.last());
                    assert(policy_key(init[i]) == k);
                    let m = choose|m: int| 0 <= m < rest.len() && policy_key(#[trigger] rest[m]) == k;
                    assert(policy_key(first_of_each(s)[m]) == k);
                } else {
                    assert(policy_key(first_of_each(s)[rest.len() as int]) == k);
                }
            }
        }
        if exists|m: int| 0 <= m < first_of_each(s).len() && policy_key(#[trigger] first_of_each(s)[m]) == k {
            let m = choose|m: int| 0 <= m < first_of_each(s).len() && policy_key(#[trigger] first_of_each(s)[m]) == k;
            if m < rest.len() {
                assert(policy_key(rest[m]) == k);
                let j = choose|j: int| 0 <= j < init.len() && policy_key(#[trigger] init[j]) == k;
                assert(policy_key(s[j]) == k);
            } else {
                assert(policy_key(s[s.len() - 1]) == k);
            }
        }
    }
}

fn has_key(v: &Vec<UserPolicyRecord>, q: &UserPolicyRecord) -> (r: bool)
    ensures
        r == exists|m: int| 0 <= m < v@.len() && policy_key(#[trigger] v@[m]) == policy_key(*q),
{
    let mut i: usize = 0;
    while i < v.len()
        invariant
            i <= v@.len(),
            forall|m: int| 0 <= m < i ==> policy_key(#[trigger] v@[m]) != policy_key(*q),
        decreases v@.len() - i,
    {
        if crate::strmap::str_eq(v[i].server_id.as_str(), q.server_id.as_str()) && crate::strmap::str_eq(
            v[i].user_id.as_str(),
            q.user_id.as_str(),
        ) {
            return true;
        }
        i = i + 1;
    }
    false
}

/// Normalizes the stored user policies: each normalized (see [`policy_normalized`]), those
/// without a server or user (or with ids over 128 bytes) dropped, only the first of each
/// server and user kept, at most 4096 of them.
pub fn normalize_user_policies(document: &mut UserPoliciesDocument)
    ensures
        exists|kept: Seq<UserPolicyRecord>|
            #![trigger kept_policies(old(document).policies@, kept)]
            kept_policies(old(document).policies@, kept) && final(document).policies@ == (if first_of_each(
                kept,
            ).len() > MAX_USER_POLICIES {
                first_of_each(kept).take(MAX_USER_POLICIES as int)
            } else {
                first_of_each(kept)
            }),
{
    let ghost input = document.policies@;
    let mut rest: Vec<UserPolicyRecord> = Vec::new();
    std::mem::swap(&mut rest, &mut document.policies);
    let mut kept: Vec<UserPolicyRecord> = Vec::new();
    let mut unique: Vec<UserPolicyRecord> = Vec::new();
    let n = rest.len();
    let mut i: usize = 0;
    assert(input.take(0) =~= Seq::<UserPolicyRecord>::empty());
    while rest.len() > 0
        invariant
            n == input.len(),
            i + rest@.len() == n,
            rest@ == input.skip(i as int),
            kept_policies(input.take(i as int), kept@),
            unique@ == first_of_each(kept@),
        decreases rest@.len(),
    {
        let ghost before = rest@;
        let p = rest.remove(0);
        assert(rest@ =~= input.skip(i + 1));
        assert(p == input[i as int]);
        assert(input.take(i + 1).drop_last() =~= input.take(i as int));
        assert(input.take(i + 1).last() == p);
        let q = normalize_policy(p);
        let keep = !q.server_id.as_str().is_empty() && !q.user_id.as_str().is_empty() && fits_bytes(
            q.server_id.as_str(),
            128,
        ) && fits_bytes(q.user_id.as_str(), 128);
        assert(policy_normalized(input.take(i + 1).last(), q));
        assert(keep == policy_kept(q));
        if keep {
            let ghost k0 = kept@;
            let dup = has_key(&unique, &q);
            proof {
                lemma_first_of_each_keys(k0, policy_key(q));
            }
            kept.push(q.duplicate());
            assert(kept@.drop_last() =~= k0);
            assert(kept_policies(input.take(i + 1), kept@));
            if !dup {
                unique.push(q);
            }
            assert(unique@ =~= first_of_each(kept@)) by {
                assert(kept@.drop_last() =~= k0);
                if dup {
                    let m = choose|m: int| 0 <= m < k0.len() && policy_key(#[trigger] k0[m]) == policy_key(q);
                    assert(kept@[m] == k0[m]);
                } else {
                    assert forall|j: int| 0 <= j < kept@.len() - 1 implies policy_key(#[trigger] kept@[j])
                        != policy_key(kept@.last()) by {
                        assert(kept@[j] == k0[j]);
                    }
                }
            }
        } else {
            assert(kept_policies(input.take(i + 1), kept@));
        }
        i = i + 1;
    }
    assert(input.take(n as int) =~= input);
    let ghost all = unique@;
    unique.truncate(MAX_USER_POLICIES);
    proof {
        if all.len() > MAX_USER_POLICIES {
            assert(unique@ =~= all.take(MAX_USER_POLICIES as int));
        } else {
            assert(unique@ =~= all);
        }
    }
    document.policies = unique;
}

/// The first policy of the server for a user name, ignoring ASCII case.
pub open spec fn policy_for_at(s: Seq<UserPolicyRecord>, server_id: Seq<char>, user_name: Seq<char>, i: int) -> bool {
    &&& 0 <= i < s.len()
    &&& s[i].server_id@ == server_id && eq_ignore_case(s[i].user_name@, user_name)
    &&& forall|j: int|
        0 <= j < i ==> !((#[trigger] s[j]).server_id@ == server_id && eq_ignore_case(s[j].user_name@, user_name))
}

/// The policy of a user of a server, looked up by name ignoring ASCII case.
pub fn user_policy_for(policies: &UserPoliciesDocument, server_id: &str, user_name: &str) -> (r: Option<UserPolicyRecord>)
    ensures
        match r {
            Some(p) => exists|i: int| policy_for_at(policies.policies@, server_id@, user_name@, i) && p
                == policies.policies@[i],
            None => forall|j: int|
                0 <= j < policies.policies@.len() ==> !((#[trigger] policies.policies@[j]).server_id@
                    == server_id@ && eq_ignore_case(policies.policies@[j].user_name@, user_name@)),
        },
{
    let s = &policies.policies;
    let name = chars_of(user_name);
    let mut i: usize = 0;
    while i < s.len()
        invariant
            i <= s@.len(),
            s@ == policies.policies@,
            name@ == user_name@,
            forall|j: int|
                0 <= j < i ==> !((#[trigger] s@[j]).server_id@ == server_id@ && eq_ignore_case(s@[j].user_name@, user_name@)),
        decreases s@.len() - i,
    {
        let pn = chars_of(s[i].user_name.as_str());
        if crate::strmap::str_eq(s[i].server_id.as_str(), server_id) && chars_eq_ignore_case(&pn, &name) {
            let p = s[i].duplicate();
            assert(p == policies.policies@[i as int]);
            assert(s@[i as int].server_id@ == server_id@);
            assert(eq_ignore_case(s@[i as int].user_name@, user_name@));
            assert(policy_for_at(policies.policies@, server_id@, user_name@, i as int));
            return Some(p);
        }
        i = i + 1;
    }
    None
}

/// A control character, as `char::is_control` (Unicode category Cc).
pub open spec fn is_control(c: char) -> bool {
    (c as u32) <= 0x1f || (0x7f <= (c as u32) && (c as u32) <= 0x9f)
}

pub open spec fn has_control(s: Seq<char>) -> bool {
    exists|i: int| 0 <= i < s.len() && is_control(#[trigger] s[i])
}

fn any_control(v: &Vec<char>) -> (r: bool)
    ensures
        r == has_control(v@),
{
    let mut i: usize = 0;
    while i < v.len()
        invariant
            i <= v@.len(),
            forall|j: int| 0 <= j < i ==> !is_control(#[trigger] v@[j]),
        decreases v@.len() - i,
    {
        let c = v[i] as u32;
        if c <= 0x1f || (0x7f <= c && c <= 0x9f) {
            assert(is_control(v@[i as int]));
            return true;
        }
        i = i + 1;
    }
    false
}

/// A template name: 1 to 128 characters after trimming, none of them a control character.
pub fn validate_template_name(name: &str) -> (r: Result<(), String>)
    ensures
        r is Ok <==> (trim(name@).len() >= 1 && trim(name@).len() <= 128 && !has_control(trim(name@))),
        r matches Err(e) ==> e@ == "template name must be between 1 and 128 characters"@,
{
    let t = trimmed(name);
    if t.len() == 0 || t.len() > 128 || any_control(&t) {
        return Err(String::from_str("template name must be between 1 and 128 characters"));
    }
    Ok(())
}

/// A user name: 1 to 128 characters after trimming, none of them a control character.
pub fn validate_user_name(name: &str) -> (r: Result<(), String>)
    ensures
        r is Ok <==> (trim(name@).len() >= 1 && trim(name@).len() <= 128 && !has_control(trim(name@))),
        r matches Err(e) ==> e@ == "user name must be between 1 and 128 characters"@,
{
    let t = trimmed(name);
    if t.len() == 0 || t.len() > 128 || any_control(&t) {
        return Err(String::from_str("user name must be between 1 and 128 characters"));
    }
    Ok(())
}

/// A password: 4 to 256 characters, none of them a control character.
pub fn validate_password(password: &str) -> (r: Result<(), String>)
    ensures
        r is Ok <==> (password@.len() >= 4 && password@.len() <= 256 && !has_control(password@)),
        r matches Err(e) ==> e@ == "password must be between 4 and 256 characters"@,
{
    let v = chars_of(password);
    if v.len() < 4 || v.len() > 256 || any_control(&v) {
        return Err(String::from_str("password must be between 4 and 256 characters"));
    }
    Ok(())
}

/// A character of a template id: an ASCII letter or digit, `-` or `_`.
pub open spec fn is_id_char(c: char) -> bool {
    ('a' <= c <= 'z') || ('A' <= c <= 'Z') || ('0' <= c <= '9') || c == '-' || c == '_'
}

/// A template id: 1 to 128 bytes, each an ASCII letter or digit, `-` or `_`.
pub fn validate_template_id(id: &str) -> (r: Result<(), String>)
    ensures
        r is Ok <==> (id@.len() >= 1 && byte_len(id@) <= 128 && forall|i: int|
            0 <= i < id@.len() ==> is_id_char(#[trigger] id@[i])),
        r matches Err(e) ==> e@ == "invalid user template id"@,
{
    let v = chars_of(id);
    if v.len() == 0 || !fits_bytes(id, 128) {
        return Err(String::from_str("invalid user template id"));
    }
    let mut i: usize = 0;
    while i < v.len()
        invariant
            i <= v@.len(),
            v@ == id@,
            forall|j: int| 0 <= j < i ==> is_id_char(#[trigger] v@[j]),
        decreases v@.len() - i,
    {
        let c = v[i];
        if !(('a' <= c && c <= 'z') || ('A' <= c && c <= 'Z') || ('0' <= c && c <= '9') || c == '-'
            || c == '_') {
            return Err(String::from_str("invalid user template id"));
        }
        i = i + 1;
    }
    Ok(())
}

/// The configurations whose users are managed: one per usable server, or the configuration
/// itself when it has no servers at all.
pub fn managed_server_configs(config: &Config) -> (r: Vec<Config>)
    ensures
        config.servers@.len() == 0 ==> r@.len() == 1 && same_config(r@[0], *config),
        config.servers@.len() > 0 ==> r@.len() == usable_servers(config.servers@).len() && forall|i: int|
            0 <= i < r@.len() ==> is_for_server(#[trigger] r@[i], *config, usable_servers(config.servers@)[i]),
{
    let configs = config.proxy_configs();
    if configs.len() == 0 && config.servers.len() == 0 {
        let mut one: Vec<Config> = Vec::new();
        one.push(config.duplicate());
        one
    } else {
        configs
    }
}


/// The position of the first template of the server with the id, if any.
pub open spec fn template_at(templates: Seq<(String, String)>, server_id: Seq<char>, id: Seq<char>, i: int) -> Option<int>
    decreases templates.len() - i,
{
    if i < 0 || i >= templates.len() {
        None
    } else if templates[i].0@ == server_id && templates[i].1@ == id {
        Some(i)
    } else {
        template_at(templates, server_id, id, i + 1)
    }
}

/// The template a new user's policy starts from, given each template's server id and id:
/// none when no template id is named (or it is blank); else the first template of the
/// server with the trimmed id; a named template that is not there is refused.
pub fn chosen_template(templates: &Vec<(String, String)>, server_id: &str, template_id: Option<&str>) -> (r: Result<
    Option<usize>,
    crate::error::AppError,
>)
    ensures
        match template_id {
            None => r == Ok::<Option<usize>, crate::error::AppError>(None),
            Some(t) => if trim(t@).len() == 0 {
                r == Ok::<Option<usize>, crate::error::AppError>(None)
            } else {
                match template_at(templates@, server_id@, trim(t@), 0) {
                    Some(k) => r == Ok::<Option<usize>, crate::error::AppError>(Some(k as usize)),
                    None => (r matches Err(crate::error::AppError::Validation(m)) && m@ == "user template not found"@),
                }
            },
        },
{
    let t = match template_id {
        None => {
            return Ok(None);
        },
        Some(t) => trimmed(t),
    };
    if t.len() == 0 {
        return Ok(None);
    }
    let id = string_of(&t);
    let mut i: usize = 0;
    while i < templates.len()
        invariant
            i <= templates@.len(),
            id@ == trim(template_id->0@),
            template_id is Some,
            id@.len() > 0,
            template_at(templates@, server_id@, id@, 0) == template_at(templates@, server_id@, id@, i as int),
        decreases templates@.len() - i,
    {
        if crate::strmap::str_eq(templates[i].0.as_str(), server_id) && crate::strmap::str_eq(
            templates[i].1.as_str(),
            id.as_str(),
        ) {
            return Ok(Some(i));
        }
        i = i + 1;
    }
    Err(crate::error::AppError::Validation(String::from_str("user template not found")))
}

/// One time window of an Emby user's access schedule. The hours are kept as the bit
/// patterns of IEEE 754 binary64 numbers (`f64::to_bits`), so that the library can check their
/// range exactly.
#[derive(Debug, Clone)]
pub struct UserAccessSchedule {
    pub day_of_week: String,
    pub start_hour_bits: u64,
    pub end_hour_bits: u64,
}

/// A change to an Emby user's policy and to the panel's own limits: each field that is
/// present replaces the stored one.
#[derive(Debug, Clone)]
pub struct UserPolicyUpdate {
    pub is_administrator: Option<bool>,
    pub is_hidden: Option<bool>,
    pub is_hidden_remotely: Option<bool>,
    pub is_hidden_from_unused_devices: Option<bool>,
    pub is_disabled: Option<bool>,
    pub max_parental_rating_enabled: Option<bool>,
    pub max_parental_rating: Option<i64>,
    pub allow_tag_or_rating: Option<bool>,
    pub blocked_tags: Option<Vec<String>>,
    pub is_tag_blocking_mode_inclusive: Option<bool>,
    pub include_tags: Option<Vec<String>>,
    pub enable_user_preference_access: Option<bool>,
    pub access_schedules: Option<Vec<UserAccessSchedule>>,
    pub block_unrated_items: Option<Vec<String>>,
    pub enable_remote_control_of_other_users: Option<bool>,
    pub enable_shared_device_control: Option<bool>,
    pub enable_remote_access: Option<bool>,
    pub enable_live_tv_management: Option<bool>,
    pub enable_live_tv_access: Option<bool>,
    pub enable_media_playback: Option<bool>,
    pub enable_audio_playback_transcoding: Option<bool>,
    pub enable_video_playback_transcoding: Option<bool>,
    pub auto_remote_quality: Option<i64>,
    pub enable_playback_remuxing: Option<bool>,
    pub enable_content_deletion: Option<bool>,
    pub restricted_features: Option<Vec<String>>,
    pub enable_content_deletion_from_folders: Option<Vec<String>>,
    pub enable_content_downloading: Option<bool>,
    pub enable_subtitle_downloading: Option<bool>,
    pub enable_subtitle_management: Option<bool>,
    pub enable_sync_transcoding: Option<bool>,
    pub enable_media_conversion: Option<bool>,
    pub enabled_channels: Option<Vec<String>>,
    pub enable_all_channels: Option<bool>,
    pub enable_all_folders: Option<bool>,
    pub enabled_folders: Option<Vec<String>>,
    pub enable_public_sharing: Option<bool>,
    pub remote_client_bitrate_limit: Option<u64>,
    pub excluded_sub_folders: Option<Vec<String>>,
    pub enable_all_devices: Option<bool>,
    pub enabled_devices: Option<Vec<String>>,
    pub simultaneous_stream_limit: Option<u64>,
    pub allow_camera_upload: Option<bool>,
    pub allow_sharing_personal_items: Option<bool>,
    pub rate_limit_enabled: Option<bool>,
    pub rate_limit_window_seconds: Option<u64>,
    pub rate_limit_max_requests: Option<u64>,
    pub rate_limit_block_seconds: Option<u64>,
    pub rate_limit_action: Option<String>,
    pub concurrent_playback_limit_enabled: Option<bool>,
    pub concurrent_playback_limit_max: Option<u64>,
}

impl Default for UserPolicyUpdate {
    /// A change that changes nothing.
    fn default() -> (r: Self)
        ensures
            r.is_administrator is None,
            r.is_hidden is None,
            r.is_hidden_remotely is None,
            r.is_hidden_from_unused_devices is None,
            r.is_disabled is None,
            r.max_parental_rating_enabled is None,
            r.max_parental_rating is None,
            r.allow_tag_or_rating is None,
            r.blocked_tags is None,
            r.is_tag_blocking_mode_inclusive is None,
            r.include_tags is None,
            r.enable_user_preference_access is None,
            r.access_schedules is None,
            r.block_unrated_items is None,
            r.enable_remote_control_of_other_users is None,
            r.enable_shared_device_control is None,
            r.enable_remote_access is None,
            r.enable_live_tv_management is None,
            r.enable_live_tv_access is None,
            r.enable_media_playback is None,
            r.enable_audio_playback_transcoding is None,
            r.enable_video_playback_transcoding is None,
            r.auto_remote_quality is None,
            r.enable_playback_remuxing is None,
            r.enable_content_deletion is None,
            r.restricted_features is None,
            r.enable_content_deletion_from_folders is None,
            r.enable_content_downloading is None,
            r.enable_subtitle_downloading is None,
            r.enable_subtitle_management is None,
            r.enable_sync_transcoding is None,
            r.enable_media_conversion is None,
            r.enabled_channels is None,
            r.enable_all_channels is None,
            r.enable_all_folders is None,
            r.enabled_folders is None,
            r.enable_public_sharing is None,
            r.remote_client_bitrate_limit is None,
            r.excluded_sub_folders is None,
            r.enable_all_devices is None,
            r.enabled_devices is None,
            r.simultaneous_stream_limit is None,
            r.allow_camera_upload is None,
            r.allow_sharing_personal_items is None,
            r.rate_limit_enabled is None,
            r.rate_limit_window_seconds is None,
            r.rate_limit_max_requests is None,
            r.rate_limit_block_seconds is None,
            r.rate_limit_action is None,
            r.concurrent_playback_limit_enabled is None,
            r.concurrent_playback_limit_max is None,
    {
        UserPolicyUpdate {
            is_administrator: None,
            is_hidden: None,
            is_hidden_remotely: None,
            is_hidden_from_unused_devices: None,
            is_disabled: None,
            max_parental_rating_enabled: None,
            max_parental_rating: None,
            allow_tag_or_rating: None,
            blocked_tags: None,
            is_tag_blocking_mode_inclusive: None,
            include_tags: None,
            enable_user_preference_access: None,
            access_schedules: None,
            block_unrated_items: None,
            enable_remote_control_of_other_users: None,
            enable_shared_device_control: None,
            enable_remote_access: None,
            enable_live_tv_management: None,
            enable_live_tv_access: None,
            enable_media_playback: None,
            enable_audio_playback_transcoding: None,
            enable_video_playback_transcoding: None,
            auto_remote_quality: None,
            enable_playback_remuxing: None,
            enable_content_deletion: None,
            restricted_features: None,
            enable_content_deletion_from_folders: None,
            enable_content_downloading: None,
            enable_subtitle_downloading: None,
            enable_subtitle_management: None,
            enable_sync_transcoding: None,
            enable_media_conversion: None,
            enabled_channels: None,
            enable_all_channels: None,
            enable_all_folders: None,
            enabled_folders: None,
            enable_public_sharing: None,
            remote_client_bitrate_limit: None,
            excluded_sub_folders: None,
            enable_all_devices: None,
            enabled_devices: None,
            simultaneous_stream_limit: None,
            allow_camera_upload: None,
            allow_sharing_personal_items: None,
            rate_limit_enabled: None,
            rate_limit_window_seconds: None,
            rate_limit_max_requests: None,
            rate_limit_block_seconds: None,
            rate_limit_action: None,
            concurrent_playback_limit_enabled: None,
            concurrent_playback_limit_max: None,
        }
    }
}

/// The bit pattern of the binary64 number 24.0.
pub const HOUR_24_BITS: u64 = 0x4038000000000000;

/// The bit pattern of the binary64 number -0.0, which compares equal to 0.0.
pub const NEGATIVE_ZERO_BITS: u64 = 0x8000000000000000;

/// An entry of a policy list: not blank, at most 128 bytes.
pub open spec fn policy_entry_ok(v: Seq<char>) -> bool {
    trim(v).len() > 0 && byte_len(v) <= 128
}

/// A policy list that is absent, or holds at most 256 entries, each acceptable.
pub open spec fn policy_list_ok(l: Option<Vec<String>>) -> bool {
    match l {
        None => true,
        Some(v) => v@.len() <= MAX_POLICY_LIST_ITEMS && forall|i: int|
            0 <= i < v@.len() ==> policy_entry_ok(#[trigger] v@[i]@),
    }
}

/// A start hour in `[0, 24)`: among binary64 bit patterns, the non-negative numbers below 24
/// are exactly the patterns below that of 24.0 (NaN and infinity lie above it); -0.0 counts
/// as 0.
pub open spec fn start_hour_ok(bits: u64) -> bool {
    bits < HOUR_24_BITS || bits == NEGATIVE_ZERO_BITS
}

/// An end hour in `[0, 24]`, read as [`start_hour_ok`] reads a start hour.
pub open spec fn end_hour_ok(bits: u64) -> bool {
    bits <= HOUR_24_BITS || bits == NEGATIVE_ZERO_BITS
}

/// A day that Emby's schedules name.
pub open spec fn schedule_day_ok(day: Seq<char>) -> bool {
    let t = trim(day);
    t == "Sunday"@ || t == "Monday"@ || t == "Tuesday"@ || t == "Wednesday"@ || t == "Thursday"@
        || t == "Friday"@ || t == "Saturday"@ || t == "Everyday"@ || t == "Weekday"@ || t
        == "Weekend"@
}

/// The order key of an hour in range: its bit pattern, -0.0 taken as 0.0. Among the
/// non-negative binary64 numbers the bit patterns order as the values do.
pub open spec fn hour_key(bits: u64) -> u64 {
    if bits == NEGATIVE_ZERO_BITS {
        0
    } else {
        bits
    }
}

/// An access window on a named day that starts in `[0, 24)`, ends in `[0, 24]` and ends
/// after it starts.
pub open spec fn schedule_ok(s: UserAccessSchedule) -> bool {
    &&& schedule_day_ok(s.day_of_week@)
    &&& start_hour_ok(s.start_hour_bits)
    &&& end_hour_ok(s.end_hour_bits)
    &&& hour_key(s.start_hour_bits) < hour_key(s.end_hour_bits)
}

pub open spec fn in_range_u64(v: Option<u64>, lo: u64, hi: u64) -> bool {
    match v {
        None => true,
        Some(x) => lo <= x <= hi,
    }
}

pub open spec fn in_range_i64(v: Option<i64>, lo: i64, hi: i64) -> bool {
    match v {
        None => true,
        Some(x) => lo <= x <= hi,
    }
}

/// The first problem of a policy change, in the order the checks run: the lists, the
/// unrated item types, the access schedule, the parental rating, the remote quality and
/// bitrate, the stream limits, the rate limit numbers and the rate limit action.
pub open spec fn policy_update_error(p: UserPolicyUpdate) -> Option<Seq<char>> {
    if !(policy_list_ok(p.blocked_tags) && policy_list_ok(p.include_tags) && policy_list_ok(
        p.block_unrated_items,
    ) && policy_list_ok(p.restricted_features) && policy_list_ok(p.enable_content_deletion_from_folders)
        && policy_list_ok(p.enabled_channels) && policy_list_ok(p.enabled_folders) && policy_list_ok(
        p.excluded_sub_folders,
    ) && policy_list_ok(p.enabled_devices)) {
        Some("policy list contains an invalid entry"@)
    } else if unrated_bad(p.block_unrated_items) {
        Some("block_unrated_items contains an unsupported item type"@)
    } else if p.access_schedules matches Some(v) && (v@.len() > MAX_ACCESS_SCHEDULES || exists|i: int|
        0 <= i < v@.len() && !schedule_ok(#[trigger] v@[i])) {
        Some("access schedule must use a supported day and a time range between 0 and 24"@)
    } else if !in_range_i64(p.max_parental_rating, 0, MAX_PARENTAL_RATING) {
        Some("max parental rating is out of range"@)
    } else if !in_range_i64(p.auto_remote_quality, 0, MAX_REMOTE_QUALITY) || !in_range_u64(
        p.remote_client_bitrate_limit,
        0,
        MAX_REMOTE_BITRATE,
    ) {
        Some("remote playback quality limit is out of range"@)
    } else if !in_range_u64(p.simultaneous_stream_limit, 0, MAX_USER_POLICY_LIMIT) || !in_range_u64(
        p.concurrent_playback_limit_max,
        0,
        MAX_USER_POLICY_LIMIT,
    ) {
        Some("simultaneous stream limit must be between 0 and 64"@)
    } else if !in_range_u64(p.rate_limit_window_seconds, 1, 86400) || !in_range_u64(
        p.rate_limit_max_requests,
        1,
        10000,
    ) || !in_range_u64(p.rate_limit_block_seconds, 1, 86400) {
        Some("user rate limit values are out of range"@)
    } else if p.rate_limit_action matches Some(a) && !rate_action_ok(a@) {
        Some("invalid user rate limit action"@)
    } else {
        None
    }
}

/// A list of unrated item types that names one the panel does not know.
pub open spec fn unrated_bad(l: Option<Vec<String>>) -> bool {
    !unrated_list_ok(l)
}

/// A list of unrated item types that is absent or names only types the panel knows.
pub open spec fn unrated_list_ok(l: Option<Vec<String>>) -> bool {
    match l {
        None => true,
        Some(v) => (forall|i: int| 0 <= i < v@.len() ==> #[trigger] unrated_at(v@, i)),
    }
}

pub open spec fn unrated_at(v: Seq<String>, i: int) -> bool {
    unrated_item_spec(v[i]@)
}

/// A rate limit action the panel knows.
pub open spec fn rate_action_ok(a: Seq<char>) -> bool {
    let t = trim(a);
    t == "block_ip"@ || t == "block_user"@ || t == "disable_user"@ || t == "mixed"@
}

fn list_ok(l: &Option<Vec<String>>) -> (r: bool)
    ensures
        r == policy_list_ok(*l),
{
    match l {
        None => true,
        Some(v) => {
            if v.len() > MAX_POLICY_LIST_ITEMS {
                return false;
            }
            let mut i: usize = 0;
            while i < v.len()
                invariant
                    i <= v@.len(),
                    *l == Some::<Vec<String>>(*v),
                    forall|j: int| 0 <= j < i ==> policy_entry_ok(#[trigger] v@[j]@),
                decreases v@.len() - i,
            {
                let t = trimmed(v[i].as_str());
                if t.len() == 0 || !fits_bytes(v[i].as_str(), 128) {
                    assert(!policy_entry_ok(v@[i as int]@));
                    return false;
                }
                i = i + 1;
            }
            true
        },
    }
}

fn unrated_all_ok(v: &Vec<String>) -> (r: bool)
    ensures
        r == (forall|i: int| 0 <= i < v@.len() ==> #[trigger] unrated_at(v@, i)),
{
    let mut i: usize = 0;
    while i < v.len()
        invariant
            i <= v@.len(),
            forall|j: int| 0 <= j < i ==> #[trigger] unrated_at(v@, j),
        decreases v@.len() - i,
    {
        if !is_valid_unrated_item(v[i].as_str()) {
            assert(!unrated_at(v@, i as int));
            return false;
        }
        i = i + 1;
    }
    true
}

fn unrated_ok(l: &Option<Vec<String>>) -> (r: bool)
    ensures
        r == unrated_list_ok(*l),
{
    match l {
        None => true,
        Some(v) => unrated_all_ok(v),
    }
}

/// Whether one access window is acceptable (see [`schedule_ok`]).
pub fn is_valid_access_schedule(s: &UserAccessSchedule) -> (r: bool)
    ensures
        r == schedule_ok(*s),
{
    let t = trimmed(s.day_of_week.as_str());
    let day = chars_eq_str(&t, "Sunday") || chars_eq_str(&t, "Monday") || chars_eq_str(&t, "Tuesday")
        || chars_eq_str(&t, "Wednesday") || chars_eq_str(&t, "Thursday") || chars_eq_str(&t, "Friday")
        || chars_eq_str(&t, "Saturday") || chars_eq_str(&t, "Everyday") || chars_eq_str(&t, "Weekday")
        || chars_eq_str(&t, "Weekend");
    let start = s.start_hour_bits < HOUR_24_BITS || s.start_hour_bits == NEGATIVE_ZERO_BITS;
    let end = s.end_hour_bits <= HOUR_24_BITS || s.end_hour_bits == NEGATIVE_ZERO_BITS;
    let start_key = if s.start_hour_bits == NEGATIVE_ZERO_BITS {
        0
    } else {
        s.start_hour_bits
    };
    let end_key = if s.end_hour_bits == NEGATIVE_ZERO_BITS {
        0
    } else {
        s.end_hour_bits
    };
    day && start && end && start_key < end_key
}

fn schedules_ok(l: &Option<Vec<UserAccessSchedule>>) -> (r: bool)
    ensures
        r == !(*l matches Some(v) && (v@.len() > MAX_ACCESS_SCHEDULES || exists|i: int|
            0 <= i < v@.len() && !schedule_ok(#[trigger] v@[i]))),
{
    match l {
        None => true,
        Some(v) => {
            if v.len() > MAX_ACCESS_SCHEDULES {
                return false;
            }
            let mut i: usize = 0;
            while i < v.len()
                invariant
                    i <= v@.len(),
                    *l == Some::<Vec<UserAccessSchedule>>(*v),
                    forall|j: int| 0 <= j < i ==> schedule_ok(#[trigger] v@[j]),
                decreases v@.len() - i,
            {
                if !is_valid_access_schedule(&v[i]) {
                    assert(!schedule_ok(v@[i as int]));
                    return false;
                }
                i = i + 1;
            }
            true
        },
    }
}

fn u64_in(v: Option<u64>, lo: u64, hi: u64) -> (r: bool)
    ensures
        r == in_range_u64(v, lo, hi),
{
    match v {
        None => true,
        Some(x) => lo <= x && x <= hi,
    }
}

fn i64_in(v: Option<i64>, lo: i64, hi: i64) -> (r: bool)
    ensures
        r == in_range_i64(v, lo, hi),
{
    match v {
        None => true,
        Some(x) => lo <= x && x <= hi,
    }
}

/// Checks a policy change (see [`policy_update_error`]).
pub fn validate_policy_update(p: &UserPolicyUpdate) -> (r: Result<(), crate::error::AppError>)
    ensures
        match policy_update_error(*p) {
            None => r is Ok,
            Some(m) => r matches Err(crate::error::AppError::Validation(e)) && e@ == m,
        },
{
    proof {
        reveal_strlit("Sunday");
    }
    if !(list_ok(&p.blocked_tags) && list_ok(&p.include_tags) && list_ok(&p.block_unrated_items)
        && list_ok(&p.restricted_features) && list_ok(&p.enable_content_deletion_from_folders)
        && list_ok(&p.enabled_channels) && list_ok(&p.enabled_folders) && list_ok(
        &p.excluded_sub_folders,
    ) && list_ok(&p.enabled_devices)) {
        return Err(crate::error::AppError::Validation(String::from_str("policy list contains an invalid entry")));
    }
    if !unrated_ok(&p.block_unrated_items) {
        return Err(
            crate::error::AppError::Validation(
                String::from_str("block_unrated_items contains an unsupported item type"),
            ),
        );
    }
    if !schedules_ok(&p.access_schedules) {
        return Err(
            crate::error::AppError::Validation(
                String::from_str(
                    "access schedule must use a supported day and a time range between 0 and 24",
                ),
            ),
        );
    }
    if !i64_in(p.max_parental_rating, 0, MAX_PARENTAL_RATING) {
        return Err(crate::error::AppError::Validation(String::from_str("max parental rating is out of range")));
    }
    if !i64_in(p.auto_remote_quality, 0, MAX_REMOTE_QUALITY) || !u64_in(
        p.remote_client_bitrate_limit,
        0,
        MAX_REMOTE_BITRATE,
    ) {
        return Err(
            crate::error::AppError::Validation(
                String::from_str("remote playback quality limit is out of range"),
            ),
        );
    }
    if !u64_in(p.simultaneous_stream_limit, 0, MAX_USER_POLICY_LIMIT) || !u64_in(
        p.concurrent_playback_limit_max,
        0,
        MAX_USER_POLICY_LIMIT,
    ) {
        return Err(
            crate::error::AppError::Validation(
                String::from_str("simultaneous stream limit must be between 0 and 64"),
            ),
        );
    }
    if !u64_in(p.rate_limit_window_seconds, 1, 86400) || !u64_in(p.rate_limit_max_requests, 1, 10000)
        || !u64_in(p.rate_limit_block_seconds, 1, 86400) {
        return Err(
            crate::error::AppError::Validation(String::from_str("user rate limit values are out of range")),
        );
    }
    match &p.rate_limit_action {
        Some(a) => {
            let t = trimmed(a.as_str());
            if !(chars_eq_str(&t, "block_ip") || chars_eq_str(&t, "block_user") || chars_eq_str(
                &t,
                "disable_user",
            ) || chars_eq_str(&t, "mixed")) {
                return Err(
                    crate::error::AppError::Validation(String::from_str("invalid user rate limit action")),
                );
            }
        },
        None => {},
    }
    Ok(())
}

/// One item of a JSON array in an Emby policy: a string, an access window, or the JSON text
/// of anything else.
#[derive(Debug, Clone)]
pub enum PolicyItem {
    Text(String),
    Schedule(UserAccessSchedule),
    Other(String),
}

/// A value of an Emby policy field, as the panel reads and writes it. Whole JSON numbers are
/// `Unsigned` when not negative and `Int` when negative, as JSON parsers keep them; `Other`
/// keeps the JSON text of a value of any other shape.
#[derive(Debug, Clone)]
pub enum PolicyValue {
    Null,
    Bool(bool),
    Int(i64),
    Unsigned(u64),
    Array(Vec<PolicyItem>),
    Other(String),
}

/// What an array item holds.
pub enum PolicyItemView {
    Text(Seq<char>),
    Schedule(Seq<char>, u64, u64),
    Other(Seq<char>),
}

/// What a policy value holds.
pub enum PolicyValueView {
    Null,
    Bool(bool),
    Int(i64),
    Unsigned(u64),
    Array(Seq<PolicyItemView>),
    Other(Seq<char>),
}

pub open spec fn item_view(i: PolicyItem) -> PolicyItemView {
    match i {
        PolicyItem::Text(t) => PolicyItemView::Text(t@),
        PolicyItem::Schedule(s) => PolicyItemView::Schedule(s.day_of_week@, s.start_hour_bits, s.end_hour_bits),
        PolicyItem::Other(o) => PolicyItemView::Other(o@),
    }
}

pub open spec fn item_views(s: Seq<PolicyItem>) -> Seq<PolicyItemView> {
    s.map_values(|i: PolicyItem| item_view(i))
}

pub open spec fn schedule_views(s: Seq<UserAccessSchedule>) -> Seq<(Seq<char>, u64, u64)> {
    s.map_values(|x: UserAccessSchedule| (x.day_of_week@, x.start_hour_bits, x.end_hour_bits))
}

pub open spec fn value_view(v: PolicyValue) -> PolicyValueView {
    match v {
        PolicyValue::Null => PolicyValueView::Null,
        PolicyValue::Bool(b) => PolicyValueView::Bool(b),
        PolicyValue::Int(i) => PolicyValueView::Int(i),
        PolicyValue::Unsigned(u) => PolicyValueView::Unsigned(u),
        PolicyValue::Array(a) => PolicyValueView::Array(item_views(a@)),
        PolicyValue::Other(o) => PolicyValueView::Other(o@),
    }
}

pub open spec fn opt_value_view(v: Option<PolicyValue>) -> Option<PolicyValueView> {
    match v {
        Some(x) => Some(value_view(x)),
        None => None,
    }
}

/// The fields of an Emby policy, by name, as values.
pub open spec fn policy_views(m: Map<Seq<char>, PolicyValue>) -> Map<Seq<char>, PolicyValueView> {
    m.map_values(|v: PolicyValue| value_view(v))
}

/// A field set where a value is given, kept otherwise.
#[verifier::opaque]
pub open spec fn set_opt(
    m: Map<Seq<char>, PolicyValueView>,
    k: Seq<char>,
    v: Option<PolicyValueView>,
) -> Map<Seq<char>, PolicyValueView> {
    match v {
        Some(x) => m.insert(k, x),
        None => m,
    }
}

pub open spec fn bool_value(v: Option<bool>) -> Option<PolicyValueView> {
    match v {
        Some(b) => Some(PolicyValueView::Bool(b)),
        None => None,
    }
}

/// A whole number as JSON keeps it.
pub open spec fn number_view(i: i64) -> PolicyValueView {
    if i >= 0 {
        PolicyValueView::Unsigned(i as u64)
    } else {
        PolicyValueView::Int(i)
    }
}

pub open spec fn int_value(v: Option<i64>) -> Option<PolicyValueView> {
    match v {
        Some(i) => Some(number_view(i)),
        None => None,
    }
}

pub open spec fn unsigned_value(v: Option<u64>) -> Option<PolicyValueView> {
    match v {
        Some(u) => Some(PolicyValueView::Unsigned(u)),
        None => None,
    }
}

pub open spec fn text_items(s: Seq<Seq<char>>) -> Seq<PolicyItemView> {
    s.map_values(|t: Seq<char>| PolicyItemView::Text(t))
}

pub open spec fn schedule_items(s: Seq<UserAccessSchedule>) -> Seq<PolicyItemView> {
    s.map_values(|x: UserAccessSchedule| PolicyItemView::Schedule(x.day_of_week@, x.start_hour_bits, x.end_hour_bits))
}

/// A list is written normalized (see [`policy_list_spec`]).
pub open spec fn list_value(v: Option<Vec<String>>) -> Option<PolicyValueView> {
    match v {
        Some(l) => Some(PolicyValueView::Array(text_items(policy_list_spec(crate::text::string_views(l@))))),
        None => None,
    }
}

pub open spec fn schedules_value(v: Option<Vec<UserAccessSchedule>>) -> Option<PolicyValueView> {
    match v {
        Some(l) => Some(PolicyValueView::Array(schedule_items(l@))),
        None => None,
    }
}

/// The parental rating: cleared (`null`) when the limit is switched off, else the given
/// rating.
pub open spec fn rating_value(p: UserPolicyUpdate) -> Option<PolicyValueView> {
    if p.max_parental_rating_enabled == Some(false) {
        Some(PolicyValueView::Null)
    } else {
        int_value(p.max_parental_rating)
    }
}

/// An Emby policy after a change: each field that the change gives is written under Emby's
/// name for it, every other field, known or not, is kept.
pub open spec fn policy_updated(m0: Map<Seq<char>, PolicyValueView>, p: UserPolicyUpdate) -> Map<
    Seq<char>,
    PolicyValueView,
> {
    let m = m0;
    let m = set_opt(m, "IsAdministrator"@, bool_value(p.is_administrator));
    let m = set_opt(m, "IsHidden"@, bool_value(p.is_hidden));
    let m = set_opt(m, "IsHiddenRemotely"@, bool_value(p.is_hidden_remotely));
    let m = set_opt(m, "IsHiddenFromUnusedDevices"@, bool_value(p.is_hidden_from_unused_devices));
    let m = set_opt(m, "IsDisabled"@, bool_value(p.is_disabled));
    let m = set_opt(m, "MaxParentalRating"@, rating_value(p));
    let m = set_opt(m, "AllowTagOrRating"@, bool_value(p.allow_tag_or_rating));
    let m = set_opt(m, "BlockedTags"@, list_value(p.blocked_tags));
    let m = set_opt(m, "IsTagBlockingModeInclusive"@, bool_value(p.is_tag_blocking_mode_inclusive));
    let m = set_opt(m, "IncludeTags"@, list_value(p.include_tags));
    let m = set_opt(m, "EnableUserPreferenceAccess"@, bool_value(p.enable_user_preference_access));
    let m = set_opt(m, "AccessSchedules"@, schedules_value(p.access_schedules));
    let m = set_opt(m, "BlockUnratedItems"@, list_value(p.block_unrated_items));
    let m = set_opt(m, "EnableRemoteControlOfOtherUsers"@, bool_value(p.enable_remote_control_of_other_users));
    let m = set_opt(m, "EnableSharedDeviceControl"@, bool_value(p.enable_shared_device_control));
    let m = set_opt(m, "EnableRemoteAccess"@, bool_value(p.enable_remote_access));
    let m = set_opt(m, "EnableLiveTvManagement"@, bool_value(p.enable_live_tv_management));
    let m = set_opt(m, "EnableLiveTvAccess"@, bool_value(p.enable_live_tv_access));
    let m = set_opt(m, "EnableMediaPlayback"@, bool_value(p.enable_media_playback));
    let m = set_opt(m, "EnableAudioPlaybackTranscoding"@, bool_value(p.enable_audio_playback_transcoding));
    let m = set_opt(m, "EnableVideoPlaybackTranscoding"@, bool_value(p.enable_video_playback_transcoding));
    let m = set_opt(m, "AutoRemoteQuality"@, int_value(p.auto_remote_quality));
    let m = set_opt(m, "EnablePlaybackRemuxing"@, bool_value(p.enable_playback_remuxing));
    let m = set_opt(m, "EnableContentDeletion"@, bool_value(p.enable_content_deletion));
    let m = set_opt(m, "RestrictedFeatures"@, list_value(p.restricted_features));
    let m = set_opt(m, "EnableContentDeletionFromFolders"@, list_value(p.enable_content_deletion_from_folders));
    let m = set_opt(m, "EnableContentDownloading"@, bool_value(p.enable_content_downloading));
    let m = set_opt(m, "EnableSubtitleDownloading"@, bool_value(p.enable_subtitle_downloading));
    let m = set_opt(m, "EnableSubtitleManagement"@, bool_value(p.enable_subtitle_management));
    let m = set_opt(m, "EnableSyncTranscoding"@, bool_value(p.enable_sync_transcoding));
    let m = set_opt(m, "EnableMediaConversion"@, bool_value(p.enable_media_conversion));
    let m = set_opt(m, "EnabledChannels"@, list_value(p.enabled_channels));
    let m = set_opt(m, "EnableAllChannels"@, bool_value(p.enable_all_channels));
    let m = set_opt(m, "EnabledFolders"@, list_value(p.enabled_folders));
    let m = set_opt(m, "EnableAllFolders"@, bool_value(p.enable_all_folders));
    let m = set_opt(m, "EnablePublicSharing"@, bool_value(p.enable_public_sharing));
    let m = set_opt(m, "RemoteClientBitrateLimit"@, unsigned_value(p.remote_client_bitrate_limit));
    let m = set_opt(m, "ExcludedSubFolders"@, list_value(p.excluded_sub_folders));
    let m = set_opt(m, "EnabledDevices"@, list_value(p.enabled_devices));
    let m = set_opt(m, "EnableAllDevices"@, bool_value(p.enable_all_devices));
    let m = set_opt(m, "SimultaneousStreamLimit"@, unsigned_value(p.simultaneous_stream_limit));
    let m = set_opt(m, "AllowCameraUpload"@, bool_value(p.allow_camera_upload));
    let m = set_opt(m, "AllowSharingPersonalItems"@, bool_value(p.allow_sharing_personal_items));
    m
}

proof fn lemma_policy_views_insert(m: Map<Seq<char>, PolicyValue>, k: Seq<char>, v: PolicyValue)
    ensures
        policy_views(m.insert(k, v)) == policy_views(m).insert(k, value_view(v)),
{
    assert(policy_views(m.insert(k, v)) =~= policy_views(m).insert(k, value_view(v)));
}

fn put_opt(policy: &mut crate::strmap::StrMap<PolicyValue>, key: &str, v: Option<PolicyValue>)
    requires
        old(policy).wf(),
    ensures
        final(policy).wf(),
        policy_views(final(policy)@) == set_opt(policy_views(old(policy)@), key@, opt_value_view(v)),
{
    proof {
        reveal(set_opt);
    }
    match v {
        Some(x) => {
            proof {
                lemma_policy_views_insert(policy@, key@, x);
            }
            policy.insert(String::from_str(key), x);
        },
        None => {},
    }
}

fn bool_entry(v: Option<bool>) -> (r: Option<PolicyValue>)
    ensures
        opt_value_view(r) == bool_value(v),
{
    match v {
        Some(b) => Some(PolicyValue::Bool(b)),
        None => None,
    }
}

fn int_entry(v: Option<i64>) -> (r: Option<PolicyValue>)
    ensures
        opt_value_view(r) == int_value(v),
{
    match v {
        Some(i) => if i >= 0 {
            Some(PolicyValue::Unsigned(i as u64))
        } else {
            Some(PolicyValue::Int(i))
        },
        None => None,
    }
}

fn unsigned_entry(v: Option<u64>) -> (r: Option<PolicyValue>)
    ensures
        opt_value_view(r) == unsigned_value(v),
{
    match v {
        Some(u) => Some(PolicyValue::Unsigned(u)),
        None => None,
    }
}

fn text_array(l: Vec<String>) -> (r: Vec<PolicyItem>)
    ensures
        item_views(r@) == text_items(crate::text::string_views(l@)),
{
    let mut out: Vec<PolicyItem> = Vec::new();
    let mut i: usize = 0;
    while i < l.len()
        invariant
            i <= l@.len(),
            out@.len() == i,
            item_views(out@) == text_items(crate::text::string_views(l@)).take(i as int),
        decreases l@.len() - i,
    {
        out.push(PolicyItem::Text(l[i].clone()));
        assert(item_views(out@) =~= text_items(crate::text::string_views(l@)).take(i + 1));
        i = i + 1;
    }
    assert(text_items(crate::text::string_views(l@)).take(l@.len() as int) =~= text_items(
        crate::text::string_views(l@),
    ));
    out
}

fn list_entry(v: &Option<Vec<String>>) -> (r: Option<PolicyValue>)
    ensures
        opt_value_view(r) == list_value(*v),
{
    match v {
        Some(l) => Some(PolicyValue::Array(text_array(normalized_policy_list(l)))),
        None => None,
    }
}

fn schedule_array(l: &Vec<UserAccessSchedule>) -> (r: Vec<PolicyItem>)
    ensures
        item_views(r@) == schedule_items(l@),
{
    let mut out: Vec<PolicyItem> = Vec::new();
    let mut i: usize = 0;
    while i < l.len()
        invariant
            i <= l@.len(),
            out@.len() == i,
            item_views(out@) == schedule_items(l@).take(i as int),
        decreases l@.len() - i,
    {
        let s = UserAccessSchedule {
            day_of_week: l[i].day_of_week.clone(),
            start_hour_bits: l[i].start_hour_bits,
            end_hour_bits: l[i].end_hour_bits,
        };
        out.push(PolicyItem::Schedule(s));
        assert(item_views(out@) =~= schedule_items(l@).take(i + 1));
        i = i + 1;
    }
    assert(schedule_items(l@).take(l@.len() as int) =~= schedule_items(l@));
    out
}

fn schedules_entry(v: &Option<Vec<UserAccessSchedule>>) -> (r: Option<PolicyValue>)
    ensures
        opt_value_view(r) == schedules_value(*v),
{
    match v {
        Some(l) => Some(PolicyValue::Array(schedule_array(l))),
        None => None,
    }
}

fn rating_entry(p: &UserPolicyUpdate) -> (r: Option<PolicyValue>)
    ensures
        opt_value_view(r) == rating_value(*p),
{
    match p.max_parental_rating_enabled {
        Some(false) => Some(PolicyValue::Null),
        _ => int_entry(p.max_parental_rating),
    }
}

/// Writes a policy change into an Emby policy (see [`policy_updated`]).
pub fn apply_policy_update(policy: &mut crate::strmap::StrMap<PolicyValue>, payload: &UserPolicyUpdate)
    requires
        old(policy).wf(),
    ensures
        final(policy).wf(),
        policy_views(final(policy)@) == policy_updated(policy_views(old(policy)@), *payload),
{
    put_opt(policy, "IsAdministrator", bool_entry(payload.is_administrator));
    put_opt(policy, "IsHidden", bool_entry(payload.is_hidden));
    put_opt(policy, "IsHiddenRemotely", bool_entry(payload.is_hidden_remotely));
    put_opt(policy, "IsHiddenFromUnusedDevices", bool_entry(payload.is_hidden_from_unused_devices));
    put_opt(policy, "IsDisabled", bool_entry(payload.is_disabled));
    put_opt(policy, "MaxParentalRating", rating_entry(payload));
    put_opt(policy, "AllowTagOrRating", bool_entry(payload.allow_tag_or_rating));
    put_opt(policy, "BlockedTags", list_entry(&payload.blocked_tags));
    put_opt(policy, "IsTagBlockingModeInclusive", bool_entry(payload.is_tag_blocking_mode_inclusive));
    put_opt(policy, "IncludeTags", list_entry(&payload.include_tags));
    put_opt(policy, "EnableUserPreferenceAccess", bool_entry(payload.enable_user_preference_access));
    put_opt(policy, "AccessSchedules", schedules_entry(&payload.access_schedules));
    put_opt(policy, "BlockUnratedItems", list_entry(&payload.block_unrated_items));
    put_opt(policy, "EnableRemoteControlOfOtherUsers", bool_entry(payload.enable_remote_control_of_other_users));
    put_opt(policy, "EnableSharedDeviceControl", bool_entry(payload.enable_shared_device_control));
    put_opt(policy, "EnableRemoteAccess", bool_entry(payload.enable_remote_access));
    put_opt(policy, "EnableLiveTvManagement", bool_entry(payload.enable_live_tv_management));
    put_opt(policy, "EnableLiveTvAccess", bool_entry(payload.enable_live_tv_access));
    put_opt(policy, "EnableMediaPlayback", bool_entry(payload.enable_media_playback));
    put_opt(policy, "EnableAudioPlaybackTranscoding", bool_entry(payload.enable_audio_playback_transcoding));
    put_opt(policy, "EnableVideoPlaybackTranscoding", bool_entry(payload.enable_video_playback_transcoding));
    put_opt(policy, "AutoRemoteQuality", int_entry(payload.auto_remote_quality));
    put_opt(policy, "EnablePlaybackRemuxing", bool_entry(payload.enable_playback_remuxing));
    put_opt(policy, "EnableContentDeletion", bool_entry(payload.enable_content_deletion));
    put_opt(policy, "RestrictedFeatures", list_entry(&payload.restricted_features));
    put_opt(policy, "EnableContentDeletionFromFolders", list_entry(&payload.enable_content_deletion_from_folders));
    put_opt(policy, "EnableContentDownloading", bool_entry(payload.enable_content_downloading));
    put_opt(policy, "EnableSubtitleDownloading", bool_entry(payload.enable_subtitle_downloading));
    put_opt(policy, "EnableSubtitleManagement", bool_entry(payload.enable_subtitle_management));
    put_opt(policy, "EnableSyncTranscoding", bool_entry(payload.enable_sync_transcoding));
    put_opt(policy, "EnableMediaConversion", bool_entry(payload.enable_media_conversion));
    put_opt(policy, "EnabledChannels", list_entry(&payload.enabled_channels));
    put_opt(policy, "EnableAllChannels", bool_entry(payload.enable_all_channels));
    put_opt(policy, "EnabledFolders", list_entry(&payload.enabled_folders));
    put_opt(policy, "EnableAllFolders", bool_entry(payload.enable_all_folders));
    put_opt(policy, "EnablePublicSharing", bool_entry(payload.enable_public_sharing));
    put_opt(policy, "RemoteClientBitrateLimit", unsigned_entry(payload.remote_client_bitrate_limit));
    put_opt(policy, "ExcludedSubFolders", list_entry(&payload.excluded_sub_folders));
    put_opt(policy, "EnabledDevices", list_entry(&payload.enabled_devices));
    put_opt(policy, "EnableAllDevices", bool_entry(payload.enable_all_devices));
    put_opt(policy, "SimultaneousStreamLimit", unsigned_entry(payload.simultaneous_stream_limit));
    put_opt(policy, "AllowCameraUpload", bool_entry(payload.allow_camera_upload));
    put_opt(policy, "AllowSharingPersonalItems", bool_entry(payload.allow_sharing_personal_items));
}

/// The strings of an array, in order; other items are skipped.
pub open spec fn texts_of(items: Seq<PolicyItemView>) -> Seq<Seq<char>>
    decreases items.len(),
{
    if items.len() == 0 {
        Seq::empty()
    } else {
        texts_of(items.drop_last()) + match items.last() {
            PolicyItemView::Text(t) => seq![t],
            _ => Seq::empty(),
        }
    }
}

/// The access windows of an array whose items all are windows.
pub open spec fn schedules_of(items: Seq<PolicyItemView>) -> Option<Seq<(Seq<char>, u64, u64)>>
    decreases items.len(),
{
    if items.len() == 0 {
        Some(Seq::empty())
    } else {
        match schedules_of(items.drop_last()) {
            None => None,
            Some(s) => match items.last() {
                PolicyItemView::Schedule(d, a, b) => Some(s.push((d, a, b))),
                _ => None,
            },
        }
    }
}

pub open spec fn as_bool(v: PolicyValueView) -> Option<bool> {
    match v {
        PolicyValueView::Bool(b) => Some(b),
        _ => None,
    }
}

pub open spec fn as_present(v: PolicyValueView) -> Option<bool> {
    Some(!(v is Null))
}

/// A number read as an unsigned one: whole and not negative.
pub open spec fn as_u64(v: PolicyValueView) -> Option<u64> {
    match v {
        PolicyValueView::Unsigned(u) => Some(u),
        _ => None,
    }
}

/// A number read as a signed one: whole and within `i64`.
pub open spec fn as_i64(v: PolicyValueView) -> Option<i64> {
    match v {
        PolicyValueView::Unsigned(u) => if u <= 0x7fff_ffff_ffff_ffff {
            Some(u as i64)
        } else {
            None
        },
        PolicyValueView::Int(i) => Some(i),
        _ => None,
    }
}

pub open spec fn as_texts(v: PolicyValueView) -> Option<Seq<Seq<char>>> {
    match v {
        PolicyValueView::Array(items) => Some(texts_of(items)),
        _ => None,
    }
}

pub open spec fn as_schedules(v: PolicyValueView) -> Option<Seq<(Seq<char>, u64, u64)>> {
    match v {
        PolicyValueView::Array(items) => schedules_of(items),
        _ => None,
    }
}

pub open spec fn opt_string_views(o: Option<Vec<String>>) -> Option<Seq<Seq<char>>> {
    match o {
        Some(v) => Some(crate::text::string_views(v@)),
        None => None,
    }
}

pub open spec fn opt_schedule_views(o: Option<Vec<UserAccessSchedule>>) -> Option<Seq<(Seq<char>, u64, u64)>> {
    match o {
        Some(v) => Some(schedule_views(v@)),
        None => None,
    }
}

/// A field read under Emby's name `a`, or failing that under the name `b`.
pub open spec fn bool_field(m: Map<Seq<char>, PolicyValueView>, a: Seq<char>, b: Seq<char>) -> Option<bool> {
    let x = if m.dom().contains(a) {
        as_bool(m[a])
    } else {
        None
    };
    if x is Some {
        x
    } else if m.dom().contains(b) {
        as_bool(m[b])
    } else {
        None
    }
}

/// A field read under Emby's name `a`, or failing that under the name `b`.
pub open spec fn present_field(m: Map<Seq<char>, PolicyValueView>, a: Seq<char>, b: Seq<char>) -> Option<bool> {
    let x = if m.dom().contains(a) {
        as_present(m[a])
    } else {
        None
    };
    if x is Some {
        x
    } else if m.dom().contains(b) {
        as_present(m[b])
    } else {
        None
    }
}

/// A field read under Emby's name `a`, or failing that under the name `b`.
pub open spec fn i64_field(m: Map<Seq<char>, PolicyValueView>, a: Seq<char>, b: Seq<char>) -> Option<i64> {
    let x = if m.dom().contains(a) {
        as_i64(m[a])
    } else {
        None
    };
    if x is Some {
        x
    } else if m.dom().contains(b) {
        as_i64(m[b])
    } else {
        None
    }
}

/// A field read under Emby's name `a`, or failing that under the name `b`.
pub open spec fn u64_field(m: Map<Seq<char>, PolicyValueView>, a: Seq<char>, b: Seq<char>) -> Option<u64> {
    let x = if m.dom().contains(a) {
        as_u64(m[a])
    } else {
        None
    };
    if x is Some {
        x
    } else if m.dom().contains(b) {
        as_u64(m[b])
    } else {
        None
    }
}

/// A field read under Emby's name `a`, or failing that under the name `b`.
pub open spec fn texts_field(m: Map<Seq<char>, PolicyValueView>, a: Seq<char>, b: Seq<char>) -> Option<Seq<Seq<char>>> {
    let x = if m.dom().contains(a) {
        as_texts(m[a])
    } else {
        None
    };
    if x is Some {
        x
    } else if m.dom().contains(b) {
        as_texts(m[b])
    } else {
        None
    }
}

/// A field read under Emby's name `a`, or failing that under the name `b`.
pub open spec fn schedules_field(m: Map<Seq<char>, PolicyValueView>, a: Seq<char>, b: Seq<char>) -> Option<Seq<(Seq<char>, u64, u64)>> {
    let x = if m.dom().contains(a) {
        as_schedules(m[a])
    } else {
        None
    };
    if x is Some {
        x
    } else if m.dom().contains(b) {
        as_schedules(m[b])
    } else {
        None
    }
}

fn bool_of(v: &PolicyValue) -> (r: Option<bool>)
    ensures
        r == as_bool(value_view(*v)),
{
    match v {
        PolicyValue::Bool(b) => Some(*b),
        _ => None,
    }
}

fn present_of(v: &PolicyValue) -> (r: Option<bool>)
    ensures
        r == as_present(value_view(*v)),
{
    match v {
        PolicyValue::Null => Some(false),
        _ => Some(true),
    }
}

fn u64_of(v: &PolicyValue) -> (r: Option<u64>)
    ensures
        r == as_u64(value_view(*v)),
{
    match v {
        PolicyValue::Unsigned(u) => Some(*u),
        _ => None,
    }
}

fn i64_of(v: &PolicyValue) -> (r: Option<i64>)
    ensures
        r == as_i64(value_view(*v)),
{
    match v {
        PolicyValue::Unsigned(u) => if *u <= 0x7fff_ffff_ffff_ffff {
            Some(*u as i64)
        } else {
            None
        },
        PolicyValue::Int(i) => Some(*i),
        _ => None,
    }
}

fn texts_in(items: &Vec<PolicyItem>) -> (r: Vec<String>)
    ensures
        crate::text::string_views(r@) == texts_of(item_views(items@)),
{
    let mut out: Vec<String> = Vec::new();
    let mut i: usize = 0;
    assert(item_views(items@).take(0) =~= Seq::<PolicyItemView>::empty());
    assert(crate::text::string_views(out@) =~= Seq::<Seq<char>>::empty());
    while i < items.len()
        invariant
            i <= items@.len(),
            crate::text::string_views(out@) == texts_of(item_views(items@).take(i as int)),
        decreases items@.len() - i,
    {
        let ghost before = crate::text::string_views(out@);
        assert(item_views(items@).take(i + 1).drop_last() =~= item_views(items@).take(i as int));
        assert(item_views(items@).take(i + 1).last() == item_view(items@[i as int]));
        match &items[i] {
            PolicyItem::Text(t) => {
                out.push(t.clone());
                assert(crate::text::string_views(out@) =~= before + seq![t@]);
            },
            _ => {
                assert(before + Seq::<Seq<char>>::empty() =~= before);
            },
        }
        i = i + 1;
    }
    assert(item_views(items@).take(items@.len() as int) =~= item_views(items@));
    out
}

fn schedules_in(items: &Vec<PolicyItem>) -> (r: Option<Vec<UserAccessSchedule>>)
    ensures
        opt_schedule_views(r) == schedules_of(item_views(items@)),
{
    let mut out: Vec<UserAccessSchedule> = Vec::new();
    let mut i: usize = 0;
    assert(item_views(items@).take(0) =~= Seq::<PolicyItemView>::empty());
    assert(schedule_views(out@) =~= Seq::<(Seq<char>, u64, u64)>::empty());
    while i < items.len()
        invariant
            i <= items@.len(),
            schedules_of(item_views(items@).take(i as int)) == Some(schedule_views(out@)),
        decreases items@.len() - i,
    {
        let ghost before = schedule_views(out@);
        assert(item_views(items@).take(i + 1).drop_last() =~= item_views(items@).take(i as int));
        assert(item_views(items@).take(i + 1).last() == item_view(items@[i as int]));
        match &items[i] {
            PolicyItem::Schedule(s) => {
                out.push(UserAccessSchedule {
                    day_of_week: s.day_of_week.clone(),
                    start_hour_bits: s.start_hour_bits,
                    end_hour_bits: s.end_hour_bits,
                });
                assert(schedule_views(out@) =~= before.push((s.day_of_week@, s.start_hour_bits, s.end_hour_bits)));
            },
            _ => {
                proof {
                    lemma_schedules_none_stays(item_views(items@), i + 1);
                }
                return None;
            },
        }
        i = i + 1;
    }
    assert(item_views(items@).take(items@.len() as int) =~= item_views(items@));
    Some(out)
}

proof fn lemma_schedules_none_stays(items: Seq<PolicyItemView>, k: int)
    requires
        0 <= k <= items.len(),
        schedules_of(items.take(k)) is None,
    ensures
        schedules_of(items) is None,
    decreases items.len() - k,
{
    if k < items.len() {
        assert(items.take(k + 1).drop_last() =~= items.take(k));
        lemma_schedules_none_stays(items, k + 1);
    } else {
        assert(items.take(k) =~= items);
    }
}

fn texts_of_value(v: &PolicyValue) -> (r: Option<Vec<String>>)
    ensures
        opt_string_views(r) == as_texts(value_view(*v)),
{
    match v {
        PolicyValue::Array(items) => Some(texts_in(items)),
        _ => None,
    }
}

fn schedules_of_value(v: &PolicyValue) -> (r: Option<Vec<UserAccessSchedule>>)
    ensures
        opt_schedule_views(r) == as_schedules(value_view(*v)),
{
    match v {
        PolicyValue::Array(items) => schedules_in(items),
        _ => None,
    }
}

fn read_bool(policy: &crate::strmap::StrMap<PolicyValue>, a: &str, b: &str) -> (r: Option<bool>)
    requires
        policy.wf(),
    ensures
        r == bool_field(policy_views(policy@), a@, b@),
{
    let x = match policy.get(a) {
        Some(v) => bool_of(v),
        None => None,
    };
    if x.is_some() {
        return x;
    }
    match policy.get(b) {
        Some(v) => bool_of(v),
        None => None,
    }
}

fn read_present(policy: &crate::strmap::StrMap<PolicyValue>, a: &str, b: &str) -> (r: Option<bool>)
    requires
        policy.wf(),
    ensures
        r == present_field(policy_views(policy@), a@, b@),
{
    let x = match policy.get(a) {
        Some(v) => present_of(v),
        None => None,
    };
    if x.is_some() {
        return x;
    }
    match policy.get(b) {
        Some(v) => present_of(v),
        None => None,
    }
}

fn read_i64(policy: &crate::strmap::StrMap<PolicyValue>, a: &str, b: &str) -> (r: Option<i64>)
    requires
        policy.wf(),
    ensures
        r == i64_field(policy_views(policy@), a@, b@),
{
    let x = match policy.get(a) {
        Some(v) => i64_of(v),
        None => None,
    };
    if x.is_some() {
        return x;
    }
    match policy.get(b) {
        Some(v) => i64_of(v),
        None => None,
    }
}

fn read_u64(policy: &crate::strmap::StrMap<PolicyValue>, a: &str, b: &str) -> (r: Option<u64>)
    requires
        policy.wf(),
    ensures
        r == u64_field(policy_views(policy@), a@, b@),
{
    let x = match policy.get(a) {
        Some(v) => u64_of(v),
        None => None,
    };
    if x.is_some() {
        return x;
    }
    match policy.get(b) {
        Some(v) => u64_of(v),
        None => None,
    }
}

fn read_texts(policy: &crate::strmap::StrMap<PolicyValue>, a: &str, b: &str) -> (r: Option<Vec<String>>)
    requires
        policy.wf(),
    ensures
        opt_string_views(r) == texts_field(policy_views(policy@), a@, b@),
{
    let x = match policy.get(a) {
        Some(v) => texts_of_value(v),
        None => None,
    };
    if x.is_some() {
        return x;
    }
    match policy.get(b) {
        Some(v) => texts_of_value(v),
        None => None,
    }
}

fn read_schedules(policy: &crate::strmap::StrMap<PolicyValue>, a: &str, b: &str) -> (r: Option<Vec<UserAccessSchedule>>)
    requires
        policy.wf(),
    ensures
        opt_schedule_views(r) == schedules_field(policy_views(policy@), a@, b@),
{
    let x = match policy.get(a) {
        Some(v) => schedules_of_value(v),
        None => None,
    };
    if x.is_some() {
        return x;
    }
    match policy.get(b) {
        Some(v) => schedules_of_value(v),
        None => None,
    }
}

/// The policy change that an Emby policy stands for: each field read under Emby's name, or
/// the field's own name (see [`bool_field`] and the others); the panel's own limits are left
/// out.
pub fn policy_update_from_value(policy: &crate::strmap::StrMap<PolicyValue>) -> (r: UserPolicyUpdate)
    requires
        policy.wf(),
    ensures
        ({
            let pv = policy_views(policy@);
            &&& r.is_administrator == bool_field(pv, "IsAdministrator"@, "is_administrator"@)
            &&& r.is_hidden == bool_field(pv, "IsHidden"@, "is_hidden"@)
            &&& r.is_hidden_remotely == bool_field(pv, "IsHiddenRemotely"@, "is_hidden_remotely"@)
            &&& r.is_hidden_from_unused_devices == bool_field(pv, "IsHiddenFromUnusedDevices"@, "is_hidden_from_unused_devices"@)
            &&& r.is_disabled == bool_field(pv, "IsDisabled"@, "is_disabled"@)
            &&& r.max_parental_rating_enabled == present_field(pv, "MaxParentalRating"@, "max_parental_rating"@)
            &&& r.max_parental_rating == i64_field(pv, "MaxParentalRating"@, "max_parental_rating"@)
            &&& r.allow_tag_or_rating == bool_field(pv, "AllowTagOrRating"@, "allow_tag_or_rating"@)
            &&& opt_string_views(r.blocked_tags) == texts_field(pv, "BlockedTags"@, "blocked_tags"@)
            &&& r.is_tag_blocking_mode_inclusive == bool_field(pv, "IsTagBlockingModeInclusive"@, "is_tag_blocking_mode_inclusive"@)
            &&& opt_string_views(r.include_tags) == texts_field(pv, "IncludeTags"@, "include_tags"@)
            &&& r.enable_user_preference_access == bool_field(pv, "EnableUserPreferenceAccess"@, "enable_user_preference_access"@)
            &&& opt_schedule_views(r.access_schedules) == schedules_field(pv, "AccessSchedules"@, "access_schedules"@)
            &&& opt_string_views(r.block_unrated_items) == texts_field(pv, "BlockUnratedItems"@, "block_unrated_items"@)
            &&& r.enable_remote_control_of_other_users == bool_field(pv, "EnableRemoteControlOfOtherUsers"@, "enable_remote_control_of_other_users"@)
            &&& r.enable_shared_device_control == bool_field(pv, "EnableSharedDeviceControl"@, "enable_shared_device_control"@)
            &&& r.enable_remote_access == bool_field(pv, "EnableRemoteAccess"@, "enable_remote_access"@)
            &&& r.enable_live_tv_management == bool_field(pv, "EnableLiveTvManagement"@, "enable_live_tv_management"@)
            &&& r.enable_live_tv_access == bool_field(pv, "EnableLiveTvAccess"@, "enable_live_tv_access"@)
            &&& r.enable_media_playback == bool_field(pv, "EnableMediaPlayback"@, "enable_media_playback"@)
            &&& r.enable_audio_playback_transcoding == bool_field(pv, "EnableAudioPlaybackTranscoding"@, "enable_audio_playback_transcoding"@)
            &&& r.enable_video_playback_transcoding == bool_field(pv, "EnableVideoPlaybackTranscoding"@, "enable_video_playback_transcoding"@)
            &&& r.auto_remote_quality == i64_field(pv, "AutoRemoteQuality"@, "auto_remote_quality"@)
            &&& r.enable_playback_remuxing == bool_field(pv, "EnablePlaybackRemuxing"@, "enable_playback_remuxing"@)
            &&& r.enable_content_deletion == bool_field(pv, "EnableContentDeletion"@, "enable_content_deletion"@)
            &&& opt_string_views(r.restricted_features) == texts_field(pv, "RestrictedFeatures"@, "restricted_features"@)
            &&& opt_string_views(r.enable_content_deletion_from_folders) == texts_field(pv, "EnableContentDeletionFromFolders"@, "enable_content_deletion_from_folders"@)
            &&& r.enable_content_downloading == bool_field(pv, "EnableContentDownloading"@, "enable_content_downloading"@)
            &&& r.enable_subtitle_downloading == bool_field(pv, "EnableSubtitleDownloading"@, "enable_subtitle_downloading"@)
            &&& r.enable_subtitle_management == bool_field(pv, "EnableSubtitleManagement"@, "enable_subtitle_management"@)
            &&& r.enable_sync_transcoding == bool_field(pv, "EnableSyncTranscoding"@, "enable_sync_transcoding"@)
            &&& r.enable_media_conversion == bool_field(pv, "EnableMediaConversion"@, "enable_media_conversion"@)
            &&& opt_string_views(r.enabled_channels) == texts_field(pv, "EnabledChannels"@, "enabled_channels"@)
            &&& r.enable_all_channels == bool_field(pv, "EnableAllChannels"@, "enable_all_channels"@)
            &&& r.enable_all_folders == bool_field(pv, "EnableAllFolders"@, "enable_all_folders"@)
            &&& opt_string_views(r.enabled_folders) == texts_field(pv, "EnabledFolders"@, "enabled_folders"@)
            &&& r.enable_public_sharing == bool_field(pv, "EnablePublicSharing"@, "enable_public_sharing"@)
            &&& r.remote_client_bitrate_limit == u64_field(pv, "RemoteClientBitrateLimit"@, "remote_client_bitrate_limit"@)
            &&& opt_string_views(r.excluded_sub_folders) == texts_field(pv, "ExcludedSubFolders"@, "excluded_sub_folders"@)
            &&& r.enable_all_devices == bool_field(pv, "EnableAllDevices"@, "enable_all_devices"@)
            &&& opt_string_views(r.enabled_devices) == texts_field(pv, "EnabledDevices"@, "enabled_devices"@)
            &&& r.simultaneous_stream_limit == u64_field(pv, "SimultaneousStreamLimit"@, "simultaneous_stream_limit"@)
            &&& r.allow_camera_upload == bool_field(pv, "AllowCameraUpload"@, "allow_camera_upload"@)
            &&& r.allow_sharing_personal_items == bool_field(pv, "AllowSharingPersonalItems"@, "allow_sharing_personal_items"@)
            &&& r.rate_limit_enabled is None
            &&& r.rate_limit_window_seconds is None
            &&& r.rate_limit_max_requests is None
            &&& r.rate_limit_block_seconds is None
            &&& r.rate_limit_action is None
            &&& r.concurrent_playback_limit_enabled is None
            &&& r.concurrent_playback_limit_max is None
        }),
{
    UserPolicyUpdate {
        is_administrator: read_bool(policy, "IsAdministrator", "is_administrator"),
        is_hidden: read_bool(policy, "IsHidden", "is_hidden"),
        is_hidden_remotely: read_bool(policy, "IsHiddenRemotely", "is_hidden_remotely"),
        is_hidden_from_unused_devices: read_bool(policy, "IsHiddenFromUnusedDevices", "is_hidden_from_unused_devices"),
        is_disabled: read_bool(policy, "IsDisabled", "is_disabled"),
        max_parental_rating_enabled: read_present(policy, "MaxParentalRating", "max_parental_rating"),
        max_parental_rating: read_i64(policy, "MaxParentalRating", "max_parental_rating"),
        allow_tag_or_rating: read_bool(policy, "AllowTagOrRating", "allow_tag_or_rating"),
        blocked_tags: read_texts(policy, "BlockedTags", "blocked_tags"),
        is_tag_blocking_mode_inclusive: read_bool(policy, "IsTagBlockingModeInclusive", "is_tag_blocking_mode_inclusive"),
        include_tags: read_texts(policy, "IncludeTags", "include_tags"),
        enable_user_preference_access: read_bool(policy, "EnableUserPreferenceAccess", "enable_user_preference_access"),
        access_schedules: read_schedules(policy, "AccessSchedules", "access_schedules"),
        block_unrated_items: read_texts(policy, "BlockUnratedItems", "block_unrated_items"),
        enable_remote_control_of_other_users: read_bool(policy, "EnableRemoteControlOfOtherUsers", "enable_remote_control_of_other_users"),
        enable_shared_device_control: read_bool(policy, "EnableSharedDeviceControl", "enable_shared_device_control"),
        enable_remote_access: read_bool(policy, "EnableRemoteAccess", "enable_remote_access"),
        enable_live_tv_management: read_bool(policy, "EnableLiveTvManagement", "enable_live_tv_management"),
        enable_live_tv_access: read_bool(policy, "EnableLiveTvAccess", "enable_live_tv_access"),
        enable_media_playback: read_bool(policy, "EnableMediaPlayback", "enable_media_playback"),
        enable_audio_playback_transcoding: read_bool(policy, "EnableAudioPlaybackTranscoding", "enable_audio_playback_transcoding"),
        enable_video_playback_transcoding: read_bool(policy, "EnableVideoPlaybackTranscoding", "enable_video_playback_transcoding"),
        auto_remote_quality: read_i64(policy, "AutoRemoteQuality", "auto_remote_quality"),
        enable_playback_remuxing: read_bool(policy, "EnablePlaybackRemuxing", "enable_playback_remuxing"),
        enable_content_deletion: read_bool(policy, "EnableContentDeletion", "enable_content_deletion"),
        restricted_features: read_texts(policy, "RestrictedFeatures", "restricted_features"),
        enable_content_deletion_from_folders: read_texts(policy, "EnableContentDeletionFromFolders", "enable_content_deletion_from_folders"),
        enable_content_downloading: read_bool(policy, "EnableContentDownloading", "enable_content_downloading"),
        enable_subtitle_downloading: read_bool(policy, "EnableSubtitleDownloading", "enable_subtitle_downloading"),
        enable_subtitle_management: read_bool(policy, "EnableSubtitleManagement", "enable_subtitle_management"),
        enable_sync_transcoding: read_bool(policy, "EnableSyncTranscoding", "enable_sync_transcoding"),
        enable_media_conversion: read_bool(policy, "EnableMediaConversion", "enable_media_conversion"),
        enabled_channels: read_texts(policy, "EnabledChannels", "enabled_channels"),
        enable_all_channels: read_bool(policy, "EnableAllChannels", "enable_all_channels"),
        enable_all_folders: read_bool(policy, "EnableAllFolders", "enable_all_folders"),
        enabled_folders: read_texts(policy, "EnabledFolders", "enabled_folders"),
        enable_public_sharing: read_bool(policy, "EnablePublicSharing", "enable_public_sharing"),
        remote_client_bitrate_limit: read_u64(policy, "RemoteClientBitrateLimit", "remote_client_bitrate_limit"),
        excluded_sub_folders: read_texts(policy, "ExcludedSubFolders", "excluded_sub_folders"),
        enable_all_devices: read_bool(policy, "EnableAllDevices", "enable_all_devices"),
        enabled_devices: read_texts(policy, "EnabledDevices", "enabled_devices"),
        simultaneous_stream_limit: read_u64(policy, "SimultaneousStreamLimit", "simultaneous_stream_limit"),
        allow_camera_upload: read_bool(policy, "AllowCameraUpload", "allow_camera_upload"),
        allow_sharing_personal_items: read_bool(policy, "AllowSharingPersonalItems", "allow_sharing_personal_items"),
        rate_limit_enabled: None,
        rate_limit_window_seconds: None,
        rate_limit_max_requests: None,
        rate_limit_block_seconds: None,
        rate_limit_action: None,
        concurrent_playback_limit_enabled: None,
        concurrent_playback_limit_max: None,
    }
}

/// A change that touches the panel's own limits.
pub open spec fn has_panel_update(p: UserPolicyUpdate) -> bool {
    p.rate_limit_enabled is Some || p.rate_limit_window_seconds is Some || p.rate_limit_max_requests is Some
        || p.rate_limit_block_seconds is Some || p.rate_limit_action is Some
        || p.concurrent_playback_limit_enabled is Some || p.concurrent_playback_limit_max is Some
}

/// `i` is the first stored policy of a user of a server, by id.
pub open spec fn saved_policy_at(s: Seq<UserPolicyRecord>, server_id: Seq<char>, user_id: Seq<char>, i: int) -> bool {
    &&& 0 <= i < s.len()
    &&& s[i].server_id@ == server_id && s[i].user_id@ == user_id
    &&& forall|j: int| 0 <= j < i ==> !((#[trigger] s[j]).server_id@ == server_id && s[j].user_id@ == user_id)
}

pub open spec fn has_saved_policy(s: Seq<UserPolicyRecord>, server_id: Seq<char>, user_id: Seq<char>) -> bool {
    exists|i: int| 0 <= i < s.len() && (#[trigger] s[i]).server_id@ == server_id && s[i].user_id@ == user_id
}

/// A stored policy after a change: the user's current name, and each of the panel's limits
/// that the change gives (the action normalized), the rest as before.
pub open spec fn record_updated(before: UserPolicyRecord, after: UserPolicyRecord, name: Seq<char>, p: UserPolicyUpdate) -> bool {
    &&& after.server_id@ == before.server_id@
    &&& after.user_id@ == before.user_id@
    &&& after.user_name@ == name
    &&& after.rate_limit_enabled == match p.rate_limit_enabled {
        Some(v) => v,
        None => before.rate_limit_enabled,
    }
    &&& after.rate_limit_window_seconds == match p.rate_limit_window_seconds {
        Some(v) => v,
        None => before.rate_limit_window_seconds,
    }
    &&& after.rate_limit_max_requests == match p.rate_limit_max_requests {
        Some(v) => v,
        None => before.rate_limit_max_requests,
    }
    &&& after.rate_limit_block_seconds == match p.rate_limit_block_seconds {
        Some(v) => v,
        None => before.rate_limit_block_seconds,
    }
    &&& after.rate_limit_action@ == match p.rate_limit_action {
        Some(a) => rate_action_spec(a@),
        None => before.rate_limit_action@,
    }
    &&& after.concurrent_playback_limit_enabled == match p.concurrent_playback_limit_enabled {
        Some(v) => v,
        None => before.concurrent_playback_limit_enabled,
    }
    &&& after.concurrent_playback_limit_max == match p.concurrent_playback_limit_max {
        Some(v) => v,
        None => before.concurrent_playback_limit_max,
    }
}

/// The default policy of a user (see [`default_user_policy`]).
pub open spec fn default_record(r: UserPolicyRecord, server_id: Seq<char>, user_id: Seq<char>, name: Seq<char>) -> bool {
    &&& r.server_id@ == server_id
    &&& r.user_id@ == user_id
    &&& r.user_name@ == name
    &&& !r.rate_limit_enabled
    &&& r.rate_limit_window_seconds == 60
    &&& r.rate_limit_max_requests == 20
    &&& r.rate_limit_block_seconds == 1800
    &&& r.rate_limit_action@ == "block_ip"@
    &&& !r.concurrent_playback_limit_enabled
    &&& r.concurrent_playback_limit_max == 3
}

fn updated_record(before: &UserPolicyRecord, name: &str, p: &UserPolicyUpdate) -> (r: UserPolicyRecord)
    ensures
        record_updated(*before, r, name@, *p),
{
    UserPolicyRecord {
        server_id: before.server_id.clone(),
        user_id: before.user_id.clone(),
        user_name: String::from_str(name),
        rate_limit_enabled: match p.rate_limit_enabled {
            Some(v) => v,
            None => before.rate_limit_enabled,
        },
        rate_limit_window_seconds: match p.rate_limit_window_seconds {
            Some(v) => v,
            None => before.rate_limit_window_seconds,
        },
        rate_limit_max_requests: match p.rate_limit_max_requests {
            Some(v) => v,
            None => before.rate_limit_max_requests,
        },
        rate_limit_block_seconds: match p.rate_limit_block_seconds {
            Some(v) => v,
            None => before.rate_limit_block_seconds,
        },
        rate_limit_action: match &p.rate_limit_action {
            Some(a) => normalize_rate_action(a.as_str()),
            None => before.rate_limit_action.clone(),
        },
        concurrent_playback_limit_enabled: match p.concurrent_playback_limit_enabled {
            Some(v) => v,
            None => before.concurrent_playback_limit_enabled,
        },
        concurrent_playback_limit_max: match p.concurrent_playback_limit_max {
            Some(v) => v,
            None => before.concurrent_playback_limit_max,
        },
    }
}

/// Keeps the panel's stored limits of a user in step with a policy change. A user without a
/// stored policy gets one (the default, see [`default_user_policy`]) only when the change
/// touches the panel's limits; the user's first stored policy is then updated (see
/// [`record_updated`]) and every other is kept.
pub fn update_saved_user_policy(
    policies: &mut UserPoliciesDocument,
    server_id: &str,
    user_id: &str,
    name: &str,
    payload: &UserPolicyUpdate,
)
    ensures
        !has_panel_update(*payload) && !has_saved_policy(old(policies).policies@, server_id@, user_id@)
            ==> final(policies).policies@ == old(policies).policies@,
        forall|i: int| saved_policy_at(old(policies).policies@, server_id@, user_id@, i) ==> {
            &&& final(policies).policies@.len() == old(policies).policies@.len()
            &&& record_updated(old(policies).policies@[i], final(policies).policies@[i], name@, *payload)
            &&& forall|j: int| 0 <= j < old(policies).policies@.len() && j != i ==> final(policies).policies@[j]
                == old(policies).policies@[j]
        },
        has_panel_update(*payload) && !has_saved_policy(old(policies).policies@, server_id@, user_id@) ==> {
            let n = old(policies).policies@.len();
            &&& final(policies).policies@.len() == n + 1
            &&& final(policies).policies@.take(n as int) == old(policies).policies@
            &&& exists|d: UserPolicyRecord| default_record(d, server_id@, user_id@, name@) && record_updated(
                d,
                final(policies).policies@[n as int],
                name@,
                *payload,
            )
        },
{
    let n = policies.policies.len();
    let mut found: Option<usize> = None;
    let mut i: usize = 0;
    while i < n
        invariant
            n == policies.policies@.len(),
            *policies == *old(policies),
            i <= n,
            found is None ==> forall|j: int| 0 <= j < i ==> !((#[trigger] policies.policies@[j]).server_id@
                == server_id@ && policies.policies@[j].user_id@ == user_id@),
            found matches Some(k) ==> saved_policy_at(policies.policies@, server_id@, user_id@, k as int),
        decreases n - i,
    {
        if found.is_none() && crate::strmap::str_eq(policies.policies[i].server_id.as_str(), server_id) && crate::strmap::str_eq(
            policies.policies[i].user_id.as_str(),
            user_id,
        ) {
            found = Some(i);
        }
        i = i + 1;
    }
    let ghost before = policies.policies@;
    match found {
        Some(k) => {
            let r = updated_record(&policies.policies[k], name, payload);
            proof {
                assert(before[k as int].server_id@ == server_id@ && before[k as int].user_id@ == user_id@);
                assert(has_saved_policy(before, server_id@, user_id@));
                assert forall|i: int| saved_policy_at(before, server_id@, user_id@, i) implies i == k by {
                    if i < k {
                        assert(!(before[i].server_id@ == server_id@ && before[i].user_id@ == user_id@));
                    } else if i > k {
                        assert(!(before[k as int].server_id@ == server_id@ && before[k as int].user_id@ == user_id@));
                    }
                }
            }
            policies.policies.set(k, r);
        },
        None => {
            let touches = payload.rate_limit_enabled.is_some() || payload.rate_limit_window_seconds.is_some()
                || payload.rate_limit_max_requests.is_some() || payload.rate_limit_block_seconds.is_some()
                || payload.rate_limit_action.is_some() || payload.concurrent_playback_limit_enabled.is_some()
                || payload.concurrent_playback_limit_max.is_some();
            if !touches {
                return;
            }
            let d = default_user_policy(server_id, user_id, name);
            let r = updated_record(&d, name, payload);
            proof {
                reveal_strlit("block_ip");
            }
            assert(default_record(d, server_id@, user_id@, name@));
            policies.policies.push(r);
            assert(policies.policies@.take(n as int) =~= before);
            assert(record_updated(d, policies.policies@[n as int], name@, *payload));
        },
    }
}

/// The names under which a policy change writes.
pub open spec fn policy_update_keys() -> Set<Seq<char>> {
    set![
        "IsAdministrator"@,
        "IsHidden"@,
        "IsHiddenRemotely"@,
        "IsHiddenFromUnusedDevices"@,
        "IsDisabled"@,
        "MaxParentalRating"@,
        "AllowTagOrRating"@,
        "BlockedTags"@,
        "IsTagBlockingModeInclusive"@,
        "IncludeTags"@,
        "EnableUserPreferenceAccess"@,
        "AccessSchedules"@,
        "BlockUnratedItems"@,
        "EnableRemoteControlOfOtherUsers"@,
        "EnableSharedDeviceControl"@,
        "EnableRemoteAccess"@,
        "EnableLiveTvManagement"@,
        "EnableLiveTvAccess"@,
        "EnableMediaPlayback"@,
        "EnableAudioPlaybackTranscoding"@,
        "EnableVideoPlaybackTranscoding"@,
        "AutoRemoteQuality"@,
        "EnablePlaybackRemuxing"@,
        "EnableContentDeletion"@,
        "RestrictedFeatures"@,
        "EnableContentDeletionFromFolders"@,
        "EnableContentDownloading"@,
        "EnableSubtitleDownloading"@,
        "EnableSubtitleManagement"@,
        "EnableSyncTranscoding"@,
        "EnableMediaConversion"@,
        "EnabledChannels"@,
        "EnableAllChannels"@,
        "EnabledFolders"@,
        "EnableAllFolders"@,
        "EnablePublicSharing"@,
        "RemoteClientBitrateLimit"@,
        "ExcludedSubFolders"@,
        "EnabledDevices"@,
        "EnableAllDevices"@,
        "SimultaneousStreamLimit"@,
        "AllowCameraUpload"@,
        "AllowSharingPersonalItems"@,
    ]
}

proof fn lemma_set_opt_keeps(m: Map<Seq<char>, PolicyValueView>, a: Seq<char>, v: Option<PolicyValueView>, k: Seq<char>)
    requires
        k != a,
    ensures
        set_opt(m, a, v).dom().contains(k) == m.dom().contains(k),
        m.dom().contains(k) ==> set_opt(m, a, v)[k] == m[k],
{
    reveal(set_opt);
}

proof fn lemma_set_opt_writes(m: Map<Seq<char>, PolicyValueView>, a: Seq<char>, v: Option<PolicyValueView>)
    ensures
        v matches Some(x) ==> set_opt(m, a, v).dom().contains(a) && set_opt(m, a, v)[a] == x,
{
    reveal(set_opt);
}

/// A policy change keeps every field it does not write, unknown ones included.
pub proof fn lemma_policy_update_keeps_other_fields(
    m: Map<Seq<char>, PolicyValueView>,
    p: UserPolicyUpdate,
    k: Seq<char>,
)
    requires
        !policy_update_keys().contains(k),
    ensures
        policy_updated(m, p).dom().contains(k) == m.dom().contains(k),
        m.dom().contains(k) ==> policy_updated(m, p)[k] == m[k],
{
    let m1 = set_opt(m, "IsAdministrator"@, bool_value(p.is_administrator));
    lemma_set_opt_keeps(m, "IsAdministrator"@, bool_value(p.is_administrator), k);
    let m2 = set_opt(m1, "IsHidden"@, bool_value(p.is_hidden));
    lemma_set_opt_keeps(m1, "IsHidden"@, bool_value(p.is_hidden), k);
    let m3 = set_opt(m2, "IsHiddenRemotely"@, bool_value(p.is_hidden_remotely));
    lemma_set_opt_keeps(m2, "IsHiddenRemotely"@, bool_value(p.is_hidden_remotely), k);
    let m4 = set_opt(m3, "IsHiddenFromUnusedDevices"@, bool_value(p.is_hidden_from_unused_devices));
    lemma_set_opt_keeps(m3, "IsHiddenFromUnusedDevices"@, bool_value(p.is_hidden_from_unused_devices), k);
    let m5 = set_opt(m4, "IsDisabled"@, bool_value(p.is_disabled));
    lemma_set_opt_keeps(m4, "IsDisabled"@, bool_value(p.is_disabled), k);
    let m6 = set_opt(m5, "MaxParentalRating"@, rating_value(p));
    lemma_set_opt_keeps(m5, "MaxParentalRating"@, rating_value(p), k);
    let m7 = set_opt(m6, "AllowTagOrRating"@, bool_value(p.allow_tag_or_rating));
    lemma_set_opt_keeps(m6, "AllowTagOrRating"@, bool_value(p.allow_tag_or_rating), k);
    let m8 = set_opt(m7, "BlockedTags"@, list_value(p.blocked_tags));
    lemma_set_opt_keeps(m7, "BlockedTags"@, list_value(p.blocked_tags), k);
    let m9 = set_opt(m8, "IsTagBlockingModeInclusive"@, bool_value(p.is_tag_blocking_mode_inclusive));
    lemma_set_opt_keeps(m8, "IsTagBlockingModeInclusive"@, bool_value(p.is_tag_blocking_mode_inclusive), k);
    let m10 = set_opt(m9, "IncludeTags"@, list_value(p.include_tags));
    lemma_set_opt_keeps(m9, "IncludeTags"@, list_value(p.include_tags), k);
    let m11 = set_opt(m10, "EnableUserPreferenceAccess"@, bool_value(p.enable_user_preference_access));
    lemma_set_opt_keeps(m10, "EnableUserPreferenceAccess"@, bool_value(p.enable_user_preference_access), k);
    let m12 = set_opt(m11, "AccessSchedules"@, schedules_value(p.access_schedules));
    lemma_set_opt_keeps(m11, "AccessSchedules"@, schedules_value(p.access_schedules), k);
    let m13 = set_opt(m12, "BlockUnratedItems"@, list_value(p.block_unrated_items));
    lemma_set_opt_keeps(m12, "BlockUnratedItems"@, list_value(p.block_unrated_items), k);
    let m14 = set_opt(m13, "EnableRemoteControlOfOtherUsers"@, bool_value(p.enable_remote_control_of_other_users));
    lemma_set_opt_keeps(m13, "EnableRemoteControlOfOtherUsers"@, bool_value(p.enable_remote_control_of_other_users), k);
    let m15 = set_opt(m14, "EnableSharedDeviceControl"@, bool_value(p.enable_shared_device_control));
    lemma_set_opt_keeps(m14, "EnableSharedDeviceControl"@, bool_value(p.enable_shared_device_control), k);
    let m16 = set_opt(m15, "EnableRemoteAccess"@, bool_value(p.enable_remote_access));
    lemma_set_opt_keeps(m15, "EnableRemoteAccess"@, bool_value(p.enable_remote_access), k);
    let m17 = set_opt(m16, "EnableLiveTvManagement"@, bool_value(p.enable_live_tv_management));
    lemma_set_opt_keeps(m16, "EnableLiveTvManagement"@, bool_value(p.enable_live_tv_management), k);
    let m18 = set_opt(m17, "EnableLiveTvAccess"@, bool_value(p.enable_live_tv_access));
    lemma_set_opt_keeps(m17, "EnableLiveTvAccess"@, bool_value(p.enable_live_tv_access), k);
    let m19 = set_opt(m18, "EnableMediaPlayback"@, bool_value(p.enable_media_playback));
    lemma_set_opt_keeps(m18, "EnableMediaPlayback"@, bool_value(p.enable_media_playback), k);
    let m20 = set_opt(m19, "EnableAudioPlaybackTranscoding"@, bool_value(p.enable_audio_playback_transcoding));
    lemma_set_opt_keeps(m19, "EnableAudioPlaybackTranscoding"@, bool_value(p.enable_audio_playback_transcoding), k);
    let m21 = set_opt(m20, "EnableVideoPlaybackTranscoding"@, bool_value(p.enable_video_playback_transcoding));
    lemma_set_opt_keeps(m20, "EnableVideoPlaybackTranscoding"@, bool_value(p.enable_video_playback_transcoding), k);
    let m22 = set_opt(m21, "AutoRemoteQuality"@, int_value(p.auto_remote_quality));
    lemma_set_opt_keeps(m21, "AutoRemoteQuality"@, int_value(p.auto_remote_quality), k);
    let m23 = set_opt(m22, "EnablePlaybackRemuxing"@, bool_value(p.enable_playback_remuxing));
    lemma_set_opt_keeps(m22, "EnablePlaybackRemuxing"@, bool_value(p.enable_playback_remuxing), k);
    let m24 = set_opt(m23, "EnableContentDeletion"@, bool_value(p.enable_content_deletion));
    lemma_set_opt_keeps(m23, "EnableContentDeletion"@, bool_value(p.enable_content_deletion), k);
    let m25 = set_opt(m24, "RestrictedFeatures"@, list_value(p.restricted_features));
    lemma_set_opt_keeps(m24, "RestrictedFeatures"@, list_value(p.restricted_features), k);
    let m26 = set_opt(m25, "EnableContentDeletionFromFolders"@, list_value(p.enable_content_deletion_from_folders));
    lemma_set_opt_keeps(m25, "EnableContentDeletionFromFolders"@, list_value(p.enable_content_deletion_from_folders), k);
    let m27 = set_opt(m26, "EnableContentDownloading"@, bool_value(p.enable_content_downloading));
    lemma_set_opt_keeps(m26, "EnableContentDownloading"@, bool_value(p.enable_content_downloading), k);
    let m28 = set_opt(m27, "EnableSubtitleDownloading"@, bool_value(p.enable_subtitle_downloading));
    lemma_set_opt_keeps(m27, "EnableSubtitleDownloading"@, bool_value(p.enable_subtitle_downloading), k);
    let m29 = set_opt(m28, "EnableSubtitleManagement"@, bool_value(p.enable_subtitle_management));
    lemma_set_opt_keeps(m28, "EnableSubtitleManagement"@, bool_value(p.enable_subtitle_management), k);
    let m30 = set_opt(m29, "EnableSyncTranscoding"@, bool_value(p.enable_sync_transcoding));
    lemma_set_opt_keeps(m29, "EnableSyncTranscoding"@, bool_value(p.enable_sync_transcoding), k);
    let m31 = set_opt(m30, "EnableMediaConversion"@, bool_value(p.enable_media_conversion));
    lemma_set_opt_keeps(m30, "EnableMediaConversion"@, bool_value(p.enable_media_conversion), k);
    let m32 = set_opt(m31, "EnabledChannels"@, list_value(p.enabled_channels));
    lemma_set_opt_keeps(m31, "EnabledChannels"@, list_value(p.enabled_channels), k);
    let m33 = set_opt(m32, "EnableAllChannels"@, bool_value(p.enable_all_channels));
    lemma_set_opt_keeps(m32, "EnableAllChannels"@, bool_value(p.enable_all_channels), k);
    let m34 = set_opt(m33, "EnabledFolders"@, list_value(p.enabled_folders));
    lemma_set_opt_keeps(m33, "EnabledFolders"@, list_value(p.enabled_folders), k);
    let m35 = set_opt(m34, "EnableAllFolders"@, bool_value(p.enable_all_folders));
    lemma_set_opt_keeps(m34, "EnableAllFolders"@, bool_value(p.enable_all_folders), k);
    let m36 = set_opt(m35, "EnablePublicSharing"@, bool_value(p.enable_public_sharing));
    lemma_set_opt_keeps(m35, "EnablePublicSharing"@, bool_value(p.enable_public_sharing), k);
    let m37 = set_opt(m36, "RemoteClientBitrateLimit"@, unsigned_value(p.remote_client_bitrate_limit));
    lemma_set_opt_keeps(m36, "RemoteClientBitrateLimit"@, unsigned_value(p.remote_client_bitrate_limit), k);
    let m38 = set_opt(m37, "ExcludedSubFolders"@, list_value(p.excluded_sub_folders));
    lemma_set_opt_keeps(m37, "ExcludedSubFolders"@, list_value(p.excluded_sub_folders), k);
    let m39 = set_opt(m38, "EnabledDevices"@, list_value(p.enabled_devices));
    lemma_set_opt_keeps(m38, "EnabledDevices"@, list_value(p.enabled_devices), k);
    let m40 = set_opt(m39, "EnableAllDevices"@, bool_value(p.enable_all_devices));
    lemma_set_opt_keeps(m39, "EnableAllDevices"@, bool_value(p.enable_all_devices), k);
    let m41 = set_opt(m40, "SimultaneousStreamLimit"@, unsigned_value(p.simultaneous_stream_limit));
    lemma_set_opt_keeps(m40, "SimultaneousStreamLimit"@, unsigned_value(p.simultaneous_stream_limit), k);
    let m42 = set_opt(m41, "AllowCameraUpload"@, bool_value(p.allow_camera_upload));
    lemma_set_opt_keeps(m41, "AllowCameraUpload"@, bool_value(p.allow_camera_upload), k);
    let m43 = set_opt(m42, "AllowSharingPersonalItems"@, bool_value(p.allow_sharing_personal_items));
    lemma_set_opt_keeps(m42, "AllowSharingPersonalItems"@, bool_value(p.allow_sharing_personal_items), k);
    assert(policy_updated(m, p) == m43);
}

/// Disabling or enabling a user through a policy change is what the policy then reads.
pub proof fn lemma_disabled_reads_back(m: Map<Seq<char>, PolicyValueView>, p: UserPolicyUpdate)
    requires
        p.is_disabled is Some,
    ensures
        bool_field(policy_updated(m, p), "IsDisabled"@, "is_disabled"@) == p.is_disabled,
{
    reveal_strlit("IsDisabled");
    reveal_strlit("MaxParentalRating");
    reveal_strlit("AllowTagOrRating");
    reveal_strlit("BlockedTags");
    reveal_strlit("IsTagBlockingModeInclusive");
    reveal_strlit("IncludeTags");
    reveal_strlit("EnableUserPreferenceAccess");
    reveal_strlit("AccessSchedules");
    reveal_strlit("BlockUnratedItems");
    reveal_strlit("EnableRemoteControlOfOtherUsers");
    reveal_strlit("EnableSharedDeviceControl");
    reveal_strlit("EnableRemoteAccess");
    reveal_strlit("EnableLiveTvManagement");
    reveal_strlit("EnableLiveTvAccess");
    reveal_strlit("EnableMediaPlayback");
    reveal_strlit("EnableAudioPlaybackTranscoding");
    reveal_strlit("EnableVideoPlaybackTranscoding");
    reveal_strlit("AutoRemoteQuality");
    reveal_strlit("EnablePlaybackRemuxing");
    reveal_strlit("EnableContentDeletion");
    reveal_strlit("RestrictedFeatures");
    reveal_strlit("EnableContentDeletionFromFolders");
    reveal_strlit("EnableContentDownloading");
    reveal_strlit("EnableSubtitleDownloading");
    reveal_strlit("EnableSubtitleManagement");
    reveal_strlit("EnableSyncTranscoding");
    reveal_strlit("EnableMediaConversion");
    reveal_strlit("EnabledChannels");
    reveal_strlit("EnableAllChannels");
    reveal_strlit("EnabledFolders");
    reveal_strlit("EnableAllFolders");
    reveal_strlit("EnablePublicSharing");
    reveal_strlit("RemoteClientBitrateLimit");
    reveal_strlit("ExcludedSubFolders");
    reveal_strlit("EnabledDevices");
    reveal_strlit("EnableAllDevices");
    reveal_strlit("SimultaneousStreamLimit");
    reveal_strlit("AllowCameraUpload");
    reveal_strlit("AllowSharingPersonalItems");
    let m1 = set_opt(m, "IsAdministrator"@, bool_value(p.is_administrator));
    let m2 = set_opt(m1, "IsHidden"@, bool_value(p.is_hidden));
    let m3 = set_opt(m2, "IsHiddenRemotely"@, bool_value(p.is_hidden_remotely));
    let m4 = set_opt(m3, "IsHiddenFromUnusedDevices"@, bool_value(p.is_hidden_from_unused_devices));
    let m5 = set_opt(m4, "IsDisabled"@, bool_value(p.is_disabled));
    lemma_set_opt_writes(m4, "IsDisabled"@, bool_value(p.is_disabled));
    let m6 = set_opt(m5, "MaxParentalRating"@, rating_value(p));
    assert("IsDisabled"@.len() == 10 && "MaxParentalRating"@.len() == 17);
    lemma_set_opt_keeps(m5, "MaxParentalRating"@, rating_value(p), "IsDisabled"@);
    let m7 = set_opt(m6, "AllowTagOrRating"@, bool_value(p.allow_tag_or_rating));
    assert("IsDisabled"@.len() == 10 && "AllowTagOrRating"@.len() == 16);
    lemma_set_opt_keeps(m6, "AllowTagOrRating"@, bool_value(p.allow_tag_or_rating), "IsDisabled"@);
    let m8 = set_opt(m7, "BlockedTags"@, list_value(p.blocked_tags));
    assert("IsDisabled"@.len() == 10 && "BlockedTags"@.len() == 11);
    lemma_set_opt_keeps(m7, "BlockedTags"@, list_value(p.blocked_tags), "IsDisabled"@);
    let m9 = set_opt(m8, "IsTagBlockingModeInclusive"@, bool_value(p.is_tag_blocking_mode_inclusive));
    assert("IsDisabled"@.len() == 10 && "IsTagBlockingModeInclusive"@.len() == 26);
    lemma_set_opt_keeps(m8, "IsTagBlockingModeInclusive"@, bool_value(p.is_tag_blocking_mode_inclusive), "IsDisabled"@);
    let m10 = set_opt(m9, "IncludeTags"@, list_value(p.include_tags));
    assert("IsDisabled"@.len() == 10 && "IncludeTags"@.len() == 11);
    lemma_set_opt_keeps(m9, "IncludeTags"@, list_value(p.include_tags), "IsDisabled"@);
    let m11 = set_opt(m10, "EnableUserPreferenceAccess"@, bool_value(p.enable_user_preference_access));
    assert("IsDisabled"@.len() == 10 && "EnableUserPreferenceAccess"@.len() == 26);
    lemma_set_opt_keeps(m10, "EnableUserPreferenceAccess"@, bool_value(p.enable_user_preference_access), "IsDisabled"@);
    let m12 = set_opt(m11, "AccessSchedules"@, schedules_value(p.access_schedules));
    assert("IsDisabled"@.len() == 10 && "AccessSchedules"@.len() == 15);
    lemma_set_opt_keeps(m11, "AccessSchedules"@, schedules_value(p.access_schedules), "IsDisabled"@);
    let m13 = set_opt(m12, "BlockUnratedItems"@, list_value(p.block_unrated_items));
    assert("IsDisabled"@.len() == 10 && "BlockUnratedItems"@.len() == 17);
    lemma_set_opt_keeps(m12, "BlockUnratedItems"@, list_value(p.block_unrated_items), "IsDisabled"@);
    let m14 = set_opt(m13, "EnableRemoteControlOfOtherUsers"@, bool_value(p.enable_remote_control_of_other_users));
    assert("IsDisabled"@.len() == 10 && "EnableRemoteControlOfOtherUsers"@.len() == 31);
    lemma_set_opt_keeps(m13, "EnableRemoteControlOfOtherUsers"@, bool_value(p.enable_remote_control_of_other_users), "IsDisabled"@);
    let m15 = set_opt(m14, "EnableSharedDeviceControl"@, bool_value(p.enable_shared_device_control));
    assert("IsDisabled"@.len() == 10 && "EnableSharedDeviceControl"@.len() == 25);
    lemma_set_opt_keeps(m14, "EnableSharedDeviceControl"@, bool_value(p.enable_shared_device_control), "IsDisabled"@);
    let m16 = set_opt(m15, "EnableRemoteAccess"@, bool_value(p.enable_remote_access));
    assert("IsDisabled"@.len() == 10 && "EnableRemoteAccess"@.len() == 18);
    lemma_set_opt_keeps(m15, "EnableRemoteAccess"@, bool_value(p.enable_remote_access), "IsDisabled"@);
    let m17 = set_opt(m16, "EnableLiveTvManagement"@, bool_value(p.enable_live_tv_management));
    assert("IsDisabled"@.len() == 10 && "EnableLiveTvManagement"@.len() == 22);
    lemma_set_opt_keeps(m16, "EnableLiveTvManagement"@, bool_value(p.enable_live_tv_management), "IsDisabled"@);
    let m18 = set_opt(m17, "EnableLiveTvAccess"@, bool_value(p.enable_live_tv_access));
    assert("IsDisabled"@.len() == 10 && "EnableLiveTvAccess"@.len() == 18);
    lemma_set_opt_keeps(m17, "EnableLiveTvAccess"@, bool_value(p.enable_live_tv_access), "IsDisabled"@);
    let m19 = set_opt(m18, "EnableMediaPlayback"@, bool_value(p.enable_media_playback));
    assert("IsDisabled"@.len() == 10 && "EnableMediaPlayback"@.len() == 19);
    lemma_set_opt_keeps(m18, "EnableMediaPlayback"@, bool_value(p.enable_media_playback), "IsDisabled"@);
    let m20 = set_opt(m19, "EnableAudioPlaybackTranscoding"@, bool_value(p.enable_audio_playback_transcoding));
    assert("IsDisabled"@.len() == 10 && "EnableAudioPlaybackTranscoding"@.len() == 30);
    lemma_set_opt_keeps(m19, "EnableAudioPlaybackTranscoding"@, bool_value(p.enable_audio_playback_transcoding), "IsDisabled"@);
    let m21 = set_opt(m20, "EnableVideoPlaybackTranscoding"@, bool_value(p.enable_video_playback_transcoding));
    assert("IsDisabled"@.len() == 10 && "EnableVideoPlaybackTranscoding"@.len() == 30);
    lemma_set_opt_keeps(m20, "EnableVideoPlaybackTranscoding"@, bool_value(p.enable_video_playback_transcoding), "IsDisabled"@);
    let m22 = set_opt(m21, "AutoRemoteQuality"@, int_value(p.auto_remote_quality));
    assert("IsDisabled"@.len() == 10 && "AutoRemoteQuality"@.len() == 17);
    lemma_set_opt_keeps(m21, "AutoRemoteQuality"@, int_value(p.auto_remote_quality), "IsDisabled"@);
    let m23 = set_opt(m22, "EnablePlaybackRemuxing"@, bool_value(p.enable_playback_remuxing));
    assert("IsDisabled"@.len() == 10 && "EnablePlaybackRemuxing"@.len() == 22);
    lemma_set_opt_keeps(m22, "EnablePlaybackRemuxing"@, bool_value(p.enable_playback_remuxing), "IsDisabled"@);
    let m24 = set_opt(m23, "EnableContentDeletion"@, bool_value(p.enable_content_deletion));
    assert("IsDisabled"@.len() == 10 && "EnableContentDeletion"@.len() == 21);
    lemma_set_opt_keeps(m23, "EnableContentDeletion"@, bool_value(p.enable_content_deletion), "IsDisabled"@);
    let m25 = set_opt(m24, "RestrictedFeatures"@, list_value(p.restricted_features));
    assert("IsDisabled"@.len() == 10 && "RestrictedFeatures"@.len() == 18);
    lemma_set_opt_keeps(m24, "RestrictedFeatures"@, list_value(p.restricted_features), "IsDisabled"@);
    let m26 = set_opt(m25, "EnableContentDeletionFromFolders"@, list_value(p.enable_content_deletion_from_folders));
    assert("IsDisabled"@.len() == 10 && "EnableContentDeletionFromFolders"@.len() == 32);
    lemma_set_opt_keeps(m25, "EnableContentDeletionFromFolders"@, list_value(p.enable_content_deletion_from_folders), "IsDisabled"@);
    let m27 = set_opt(m26, "EnableContentDownloading"@, bool_value(p.enable_content_downloading));
    assert("IsDisabled"@.len() == 10 && "EnableContentDownloading"@.len() == 24);
    lemma_set_opt_keeps(m26, "EnableContentDownloading"@, bool_value(p.enable_content_downloading), "IsDisabled"@);
    let m28 = set_opt(m27, "EnableSubtitleDownloading"@, bool_value(p.enable_subtitle_downloading));
    assert("IsDisabled"@.len() == 10 && "EnableSubtitleDownloading"@.len() == 25);
    lemma_set_opt_keeps(m27, "EnableSubtitleDownloading"@, bool_value(p.enable_subtitle_downloading), "IsDisabled"@);
    let m29 = set_opt(m28, "EnableSubtitleManagement"@, bool_value(p.enable_subtitle_management));
    assert("IsDisabled"@.len() == 10 && "EnableSubtitleManagement"@.len() == 24);
    lemma_set_opt_keeps(m28, "EnableSubtitleManagement"@, bool_value(p.enable_subtitle_management), "IsDisabled"@);
    let m30 = set_opt(m29, "EnableSyncTranscoding"@, bool_value(p.enable_sync_transcoding));
    assert("IsDisabled"@.len() == 10 && "EnableSyncTranscoding"@.len() == 21);
    lemma_set_opt_keeps(m29, "EnableSyncTranscoding"@, bool_value(p.enable_sync_transcoding), "IsDisabled"@);
    let m31 = set_opt(m30, "EnableMediaConversion"@, bool_value(p.enable_media_conversion));
    assert("IsDisabled"@.len() == 10 && "EnableMediaConversion"@.len() == 21);
    lemma_set_opt_keeps(m30, "EnableMediaConversion"@, bool_value(p.enable_media_conversion), "IsDisabled"@);
    let m32 = set_opt(m31, "EnabledChannels"@, list_value(p.enabled_channels));
    assert("IsDisabled"@.len() == 10 && "EnabledChannels"@.len() == 15);
    lemma_set_opt_keeps(m31, "EnabledChannels"@, list_value(p.enabled_channels), "IsDisabled"@);
    let m33 = set_opt(m32, "EnableAllChannels"@, bool_value(p.enable_all_channels));
    assert("IsDisabled"@.len() == 10 && "EnableAllChannels"@.len() == 17);
    lemma_set_opt_keeps(m32, "EnableAllChannels"@, bool_value(p.enable_all_channels), "IsDisabled"@);
    let m34 = set_opt(m33, "EnabledFolders"@, list_value(p.enabled_folders));
    assert("IsDisabled"@.len() == 10 && "EnabledFolders"@.len() == 14);
    lemma_set_opt_keeps(m33, "EnabledFolders"@, list_value(p.enabled_folders), "IsDisabled"@);
    let m35 = set_opt(m34, "EnableAllFolders"@, bool_value(p.enable_all_folders));
    assert("IsDisabled"@.len() == 10 && "EnableAllFolders"@.len() == 16);
    lemma_set_opt_keeps(m34, "EnableAllFolders"@, bool_value(p.enable_all_folders), "IsDisabled"@);
    let m36 = set_opt(m35, "EnablePublicSharing"@, bool_value(p.enable_public_sharing));
    assert("IsDisabled"@.len() == 10 && "EnablePublicSharing"@.len() == 19);
    lemma_set_opt_keeps(m35, "EnablePublicSharing"@, bool_value(p.enable_public_sharing), "IsDisabled"@);
    let m37 = set_opt(m36, "RemoteClientBitrateLimit"@, unsigned_value(p.remote_client_bitrate_limit));
    assert("IsDisabled"@.len() == 10 && "RemoteClientBitrateLimit"@.len() == 24);
    lemma_set_opt_keeps(m36, "RemoteClientBitrateLimit"@, unsigned_value(p.remote_client_bitrate_limit), "IsDisabled"@);
    let m38 = set_opt(m37, "ExcludedSubFolders"@, list_value(p.excluded_sub_folders));
    assert("IsDisabled"@.len() == 10 && "ExcludedSubFolders"@.len() == 18);
    lemma_set_opt_keeps(m37, "ExcludedSubFolders"@, list_value(p.excluded_sub_folders), "IsDisabled"@);
    let m39 = set_opt(m38, "EnabledDevices"@, list_value(p.enabled_devices));
    assert("IsDisabled"@.len() == 10 && "EnabledDevices"@.len() == 14);
    lemma_set_opt_keeps(m38, "EnabledDevices"@, list_value(p.enabled_devices), "IsDisabled"@);
    let m40 = set_opt(m39, "EnableAllDevices"@, bool_value(p.enable_all_devices));
    assert("IsDisabled"@.len() == 10 && "EnableAllDevices"@.len() == 16);
    lemma_set_opt_keeps(m39, "EnableAllDevices"@, bool_value(p.enable_all_devices), "IsDisabled"@);
    let m41 = set_opt(m40, "SimultaneousStreamLimit"@, unsigned_value(p.simultaneous_stream_limit));
    assert("IsDisabled"@.len() == 10 && "SimultaneousStreamLimit"@.len() == 23);
    lemma_set_opt_keeps(m40, "SimultaneousStreamLimit"@, unsigned_value(p.simultaneous_stream_limit), "IsDisabled"@);
    let m42 = set_opt(m41, "AllowCameraUpload"@, bool_value(p.allow_camera_upload));
    assert("IsDisabled"@.len() == 10 && "AllowCameraUpload"@.len() == 17);
    lemma_set_opt_keeps(m41, "AllowCameraUpload"@, bool_value(p.allow_camera_upload), "IsDisabled"@);
    let m43 = set_opt(m42, "AllowSharingPersonalItems"@, bool_value(p.allow_sharing_personal_items));
    assert("IsDisabled"@.len() == 10 && "AllowSharingPersonalItems"@.len() == 25);
    lemma_set_opt_keeps(m42, "AllowSharingPersonalItems"@, bool_value(p.allow_sharing_personal_items), "IsDisabled"@);
    assert(policy_updated(m, p) == m43);
}

fn copy_opt_strings(v: &Option<Vec<String>>) -> (r: Option<Vec<String>>)
    ensures
        opt_string_views(r) == opt_string_views(*v),
{
    match v {
        Some(l) => {
            let mut out: Vec<String> = Vec::new();
            let mut i: usize = 0;
            while i < l.len()
                invariant
                    i <= l@.len(),
                    out@.len() == i,
                    forall|j: int| 0 <= j < i ==> #[trigger] out@[j]@ == l@[j]@,
                decreases l@.len() - i,
            {
                out.push(l[i].clone());
                i = i + 1;
            }
            assert(crate::text::string_views(out@) =~= crate::text::string_views(l@));
            Some(out)
        },
        None => None,
    }
}

fn copy_opt_schedules(v: &Option<Vec<UserAccessSchedule>>) -> (r: Option<Vec<UserAccessSchedule>>)
    ensures
        opt_schedule_views(r) == opt_schedule_views(*v),
{
    match v {
        Some(l) => {
            let mut out: Vec<UserAccessSchedule> = Vec::new();
            let mut i: usize = 0;
            while i < l.len()
                invariant
                    i <= l@.len(),
                    out@.len() == i,
                    forall|j: int| 0 <= j < i ==> #[trigger] out@[j].day_of_week@ == l@[j].day_of_week@
                        && out@[j].start_hour_bits == l@[j].start_hour_bits && out@[j].end_hour_bits
                        == l@[j].end_hour_bits,
                decreases l@.len() - i,
            {
                out.push(UserAccessSchedule {
                    day_of_week: l[i].day_of_week.clone(),
                    start_hour_bits: l[i].start_hour_bits,
                    end_hour_bits: l[i].end_hour_bits,
                });
                i = i + 1;
            }
            assert(schedule_views(out@) =~= schedule_views(l@));
            Some(out)
        },
        None => None,
    }
}

fn pick_copy<T: Copy>(a: Option<T>, b: Option<T>) -> (r: Option<T>)
    ensures
        r == if a is None { b } else { a },
{
    match a {
        Some(x) => Some(x),
        None => b,
    }
}

fn pick_strings(a: &Option<Vec<String>>, b: &Option<Vec<String>>) -> (r: Option<Vec<String>>)
    ensures
        opt_string_views(r) == if *a is None { opt_string_views(*b) } else { opt_string_views(*a) },
{
    match a {
        Some(_) => copy_opt_strings(a),
        None => copy_opt_strings(b),
    }
}

fn pick_schedules(a: &Option<Vec<UserAccessSchedule>>, b: &Option<Vec<UserAccessSchedule>>) -> (r: Option<Vec<UserAccessSchedule>>)
    ensures
        opt_schedule_views(r) == if *a is None { opt_schedule_views(*b) } else { opt_schedule_views(*a) },
{
    match a {
        Some(_) => copy_opt_schedules(a),
        None => copy_opt_schedules(b),
    }
}

fn pick_text(a: &Option<String>, b: &Option<String>) -> (r: Option<String>)
    ensures
        crate::text::opt_string_view(r) == if *a is None { crate::text::opt_string_view(*b) } else {
            crate::text::opt_string_view(*a)
        },
{
    match a {
        Some(x) => Some(x.clone()),
        None => match b {
            Some(y) => Some(y.clone()),
            None => None,
        },
    }
}

/// Fills the fields a policy change leaves out from a template's change.
pub fn merge_policy_defaults(target: &mut UserPolicyUpdate, defaults: &UserPolicyUpdate)
    ensures
        final(target).is_administrator == if old(target).is_administrator is None { defaults.is_administrator } else { old(target).is_administrator },
        final(target).is_hidden == if old(target).is_hidden is None { defaults.is_hidden } else { old(target).is_hidden },
        final(target).is_hidden_remotely == if old(target).is_hidden_remotely is None { defaults.is_hidden_remotely } else { old(target).is_hidden_remotely },
        final(target).is_hidden_from_unused_devices == if old(target).is_hidden_from_unused_devices is None { defaults.is_hidden_from_unused_devices } else { old(target).is_hidden_from_unused_devices },
        final(target).is_disabled == if old(target).is_disabled is None { defaults.is_disabled } else { old(target).is_disabled },
        final(target).max_parental_rating_enabled == if old(target).max_parental_rating_enabled is None { defaults.max_parental_rating_enabled } else { old(target).max_parental_rating_enabled },
        final(target).max_parental_rating == if old(target).max_parental_rating is None { defaults.max_parental_rating } else { old(target).max_parental_rating },
        final(target).allow_tag_or_rating == if old(target).allow_tag_or_rating is None { defaults.allow_tag_or_rating } else { old(target).allow_tag_or_rating },
        opt_string_views(final(target).blocked_tags) == if old(target).blocked_tags is None { opt_string_views(defaults.blocked_tags) } else { opt_string_views(old(target).blocked_tags) },
        final(target).is_tag_blocking_mode_inclusive == if old(target).is_tag_blocking_mode_inclusive is None { defaults.is_tag_blocking_mode_inclusive } else { old(target).is_tag_blocking_mode_inclusive },
        opt_string_views(final(target).include_tags) == if old(target).include_tags is None { opt_string_views(defaults.include_tags) } else { opt_string_views(old(target).include_tags) },
        final(target).enable_user_preference_access == if old(target).enable_user_preference_access is None { defaults.enable_user_preference_access } else { old(target).enable_user_preference_access },
        opt_schedule_views(final(target).access_schedules) == if old(target).access_schedules is None { opt_schedule_views(defaults.access_schedules) } else { opt_schedule_views(old(target).access_schedules) },
        opt_string_views(final(target).block_unrated_items) == if old(target).block_unrated_items is None { opt_string_views(defaults.block_unrated_items) } else { opt_string_views(old(target).block_unrated_items) },
        final(target).enable_remote_control_of_other_users == if old(target).enable_remote_control_of_other_users is None { defaults.enable_remote_control_of_other_users } else { old(target).enable_remote_control_of_other_users },
        final(target).enable_shared_device_control == if old(target).enable_shared_device_control is None { defaults.enable_shared_device_control } else { old(target).enable_shared_device_control },
        final(target).enable_remote_access == if old(target).enable_remote_access is None { defaults.enable_remote_access } else { old(target).enable_remote_access },
        final(target).enable_live_tv_management == if old(target).enable_live_tv_management is None { defaults.enable_live_tv_management } else { old(target).enable_live_tv_management },
        final(target).enable_live_tv_access == if old(target).enable_live_tv_access is None { defaults.enable_live_tv_access } else { old(target).enable_live_tv_access },
        final(target).enable_media_playback == if old(target).enable_media_playback is None { defaults.enable_media_playback } else { old(target).enable_media_playback },
        final(target).enable_audio_playback_transcoding == if old(target).enable_audio_playback_transcoding is None { defaults.enable_audio_playback_transcoding } else { old(target).enable_audio_playback_transcoding },
        final(target).enable_video_playback_transcoding == if old(target).enable_video_playback_transcoding is None { defaults.enable_video_playback_transcoding } else { old(target).enable_video_playback_transcoding },
        final(target).auto_remote_quality == if old(target).auto_remote_quality is None { defaults.auto_remote_quality } else { old(target).auto_remote_quality },
        final(target).enable_playback_remuxing == if old(target).enable_playback_remuxing is None { defaults.enable_playback_remuxing } else { old(target).enable_playback_remuxing },
        final(target).enable_content_deletion == if old(target).enable_content_deletion is None { defaults.enable_content_deletion } else { old(target).enable_content_deletion },
        opt_string_views(final(target).restricted_features) == if old(target).restricted_features is None { opt_string_views(defaults.restricted_features) } else { opt_string_views(old(target).restricted_features) },
        opt_string_views(final(target).enable_content_deletion_from_folders) == if old(target).enable_content_deletion_from_folders is None { opt_string_views(defaults.enable_content_deletion_from_folders) } else { opt_string_views(old(target).enable_content_deletion_from_folders) },
        final(target).enable_content_downloading == if old(target).enable_content_downloading is None { defaults.enable_content_downloading } else { old(target).enable_content_downloading },
        final(target).enable_subtitle_downloading == if old(target).enable_subtitle_downloading is None { defaults.enable_subtitle_downloading } else { old(target).enable_subtitle_downloading },
        final(target).enable_subtitle_management == if old(target).enable_subtitle_management is None { defaults.enable_subtitle_management } else { old(target).enable_subtitle_management },
        final(target).enable_sync_transcoding == if old(target).enable_sync_transcoding is None { defaults.enable_sync_transcoding } else { old(target).enable_sync_transcoding },
        final(target).enable_media_conversion == if old(target).enable_media_conversion is None { defaults.enable_media_conversion } else { old(target).enable_media_conversion },
        opt_string_views(final(target).enabled_channels) == if old(target).enabled_channels is None { opt_string_views(defaults.enabled_channels) } else { opt_string_views(old(target).enabled_channels) },
        final(target).enable_all_channels == if old(target).enable_all_channels is None { defaults.enable_all_channels } else { old(target).enable_all_channels },
        final(target).enable_all_folders == if old(target).enable_all_folders is None { defaults.enable_all_folders } else { old(target).enable_all_folders },
        opt_string_views(final(target).enabled_folders) == if old(target).enabled_folders is None { opt_string_views(defaults.enabled_folders) } else { opt_string_views(old(target).enabled_folders) },
        final(target).enable_public_sharing == if old(target).enable_public_sharing is None { defaults.enable_public_sharing } else { old(target).enable_public_sharing },
        final(target).remote_client_bitrate_limit == if old(target).remote_client_bitrate_limit is None { defaults.remote_client_bitrate_limit } else { old(target).remote_client_bitrate_limit },
        opt_string_views(final(target).excluded_sub_folders) == if old(target).excluded_sub_folders is None { opt_string_views(defaults.excluded_sub_folders) } else { opt_string_views(old(target).excluded_sub_folders) },
        final(target).enable_all_devices == if old(target).enable_all_devices is None { defaults.enable_all_devices } else { old(target).enable_all_devices },
        opt_string_views(final(target).enabled_devices) == if old(target).enabled_devices is None { opt_string_views(defaults.enabled_devices) } else { opt_string_views(old(target).enabled_devices) },
        final(target).simultaneous_stream_limit == if old(target).simultaneous_stream_limit is None { defaults.simultaneous_stream_limit } else { old(target).simultaneous_stream_limit },
        final(target).allow_camera_upload == if old(target).allow_camera_upload is None { defaults.allow_camera_upload } else { old(target).allow_camera_upload },
        final(target).allow_sharing_personal_items == if old(target).allow_sharing_personal_items is None { defaults.allow_sharing_personal_items } else { old(target).allow_sharing_personal_items },
        final(target).rate_limit_enabled == if old(target).rate_limit_enabled is None { defaults.rate_limit_enabled } else { old(target).rate_limit_enabled },
        final(target).rate_limit_window_seconds == if old(target).rate_limit_window_seconds is None { defaults.rate_limit_window_seconds } else { old(target).rate_limit_window_seconds },
        final(target).rate_limit_max_requests == if old(target).rate_limit_max_requests is None { defaults.rate_limit_max_requests } else { old(target).rate_limit_max_requests },
        final(target).rate_limit_block_seconds == if old(target).rate_limit_block_seconds is None { defaults.rate_limit_block_seconds } else { old(target).rate_limit_block_seconds },
        crate::text::opt_string_view(final(target).rate_limit_action) == if old(target).rate_limit_action is None { crate::text::opt_string_view(defaults.rate_limit_action) } else { crate::text::opt_string_view(old(target).rate_limit_action) },
        final(target).concurrent_playback_limit_enabled == if old(target).concurrent_playback_limit_enabled is None { defaults.concurrent_playback_limit_enabled } else { old(target).concurrent_playback_limit_enabled },
        final(target).concurrent_playback_limit_max == if old(target).concurrent_playback_limit_max is None { defaults.concurrent_playback_limit_max } else { old(target).concurrent_playback_limit_max },
{
    let merged = UserPolicyUpdate {
        is_administrator: pick_copy(target.is_administrator, defaults.is_administrator),
        is_hidden: pick_copy(target.is_hidden, defaults.is_hidden),
        is_hidden_remotely: pick_copy(target.is_hidden_remotely, defaults.is_hidden_remotely),
        is_hidden_from_unused_devices: pick_copy(target.is_hidden_from_unused_devices, defaults.is_hidden_from_unused_devices),
        is_disabled: pick_copy(target.is_disabled, defaults.is_disabled),
        max_parental_rating_enabled: pick_copy(target.max_parental_rating_enabled, defaults.max_parental_rating_enabled),
        max_parental_rating: pick_copy(target.max_parental_rating, defaults.max_parental_rating),
        allow_tag_or_rating: pick_copy(target.allow_tag_or_rating, defaults.allow_tag_or_rating),
        blocked_tags: pick_strings(&target.blocked_tags, &defaults.blocked_tags),
        is_tag_blocking_mode_inclusive: pick_copy(target.is_tag_blocking_mode_inclusive, defaults.is_tag_blocking_mode_inclusive),
        include_tags: pick_strings(&target.include_tags, &defaults.include_tags),
        enable_user_preference_access: pick_copy(target.enable_user_preference_access, defaults.enable_user_preference_access),
        access_schedules: pick_schedules(&target.access_schedules, &defaults.access_schedules),
        block_unrated_items: pick_strings(&target.block_unrated_items, &defaults.block_unrated_items),
        enable_remote_control_of_other_users: pick_copy(target.enable_remote_control_of_other_users, defaults.enable_remote_control_of_other_users),
        enable_shared_device_control: pick_copy(target.enable_shared_device_control, defaults.enable_shared_device_control),
        enable_remote_access: pick_copy(target.enable_remote_access, defaults.enable_remote_access),
        enable_live_tv_management: pick_copy(target.enable_live_tv_management, defaults.enable_live_tv_management),
        enable_live_tv_access: pick_copy(target.enable_live_tv_access, defaults.enable_live_tv_access),
        enable_media_playback: pick_copy(target.enable_media_playback, defaults.enable_media_playback),
        enable_audio_playback_transcoding: pick_copy(target.enable_audio_playback_transcoding, defaults.enable_audio_playback_transcoding),
        enable_video_playback_transcoding: pick_copy(target.enable_video_playback_transcoding, defaults.enable_video_playback_transcoding),
        auto_remote_quality: pick_copy(target.auto_remote_quality, defaults.auto_remote_quality),
        enable_playback_remuxing: pick_copy(target.enable_playback_remuxing, defaults.enable_playback_remuxing),
        enable_content_deletion: pick_copy(target.enable_content_deletion, defaults.enable_content_deletion),
        restricted_features: pick_strings(&target.restricted_features, &defaults.restricted_features),
        enable_content_deletion_from_folders: pick_strings(&target.enable_content_deletion_from_folders, &defaults.enable_content_deletion_from_folders),
        enable_content_downloading: pick_copy(target.enable_content_downloading, defaults.enable_content_downloading),
        enable_subtitle_downloading: pick_copy(target.enable_subtitle_downloading, defaults.enable_subtitle_downloading),
        enable_subtitle_management: pick_copy(target.enable_subtitle_management, defaults.enable_subtitle_management),
        enable_sync_transcoding: pick_copy(target.enable_sync_transcoding, defaults.enable_sync_transcoding),
        enable_media_conversion: pick_copy(target.enable_media_conversion, defaults.enable_media_conversion),
        enabled_channels: pick_strings(&target.enabled_channels, &defaults.enabled_channels),
        enable_all_channels: pick_copy(target.enable_all_channels, defaults.enable_all_channels),
        enable_all_folders: pick_copy(target.enable_all_folders, defaults.enable_all_folders),
        enabled_folders: pick_strings(&target.enabled_folders, &defaults.enabled_folders),
        enable_public_sharing: pick_copy(target.enable_public_sharing, defaults.enable_public_sharing),
        remote_client_bitrate_limit: pick_copy(target.remote_client_bitrate_limit, defaults.remote_client_bitrate_limit),
        excluded_sub_folders: pick_strings(&target.excluded_sub_folders, &defaults.excluded_sub_folders),
        enable_all_devices: pick_copy(target.enable_all_devices, defaults.enable_all_devices),
        enabled_devices: pick_strings(&target.enabled_devices, &defaults.enabled_devices),
        simultaneous_stream_limit: pick_copy(target.simultaneous_stream_limit, defaults.simultaneous_stream_limit),
        allow_camera_upload: pick_copy(target.allow_camera_upload, defaults.allow_camera_upload),
        allow_sharing_personal_items: pick_copy(target.allow_sharing_personal_items, defaults.allow_sharing_personal_items),
        rate_limit_enabled: pick_copy(target.rate_limit_enabled, defaults.rate_limit_enabled),
        rate_limit_window_seconds: pick_copy(target.rate_limit_window_seconds, defaults.rate_limit_window_seconds),
        rate_limit_max_requests: pick_copy(target.rate_limit_max_requests, defaults.rate_limit_max_requests),
        rate_limit_block_seconds: pick_copy(target.rate_limit_block_seconds, defaults.rate_limit_block_seconds),
        rate_limit_action: pick_text(&target.rate_limit_action, &defaults.rate_limit_action),
        concurrent_playback_limit_enabled: pick_copy(target.concurrent_playback_limit_enabled, defaults.concurrent_playback_limit_enabled),
        concurrent_playback_limit_max: pick_copy(target.concurrent_playback_limit_max, defaults.concurrent_playback_limit_max),
    };
    *target = merged;
}

/// A change that touches the Emby policy.
pub open spec fn has_emby_update(p: UserPolicyUpdate) -> bool {
    p.is_administrator is Some || p.is_hidden is Some || p.is_hidden_remotely is Some || p.is_hidden_from_unused_devices is Some || p.is_disabled is Some || p.max_parental_rating_enabled is Some || p.max_parental_rating is Some || p.allow_tag_or_rating is Some || p.blocked_tags is Some || p.is_tag_blocking_mode_inclusive is Some || p.include_tags is Some || p.enable_user_preference_access is Some || p.access_schedules is Some || p.block_unrated_items is Some || p.enable_remote_control_of_other_users is Some || p.enable_shared_device_control is Some || p.enable_remote_access is Some || p.enable_live_tv_management is Some || p.enable_live_tv_access is Some || p.enable_media_playback is Some || p.enable_audio_playback_transcoding is Some || p.enable_video_playback_transcoding is Some || p.auto_remote_quality is Some || p.enable_playback_remuxing is Some || p.enable_content_deletion is Some || p.restricted_features is Some || p.enable_content_deletion_from_folders is Some || p.enable_content_downloading is Some || p.enable_subtitle_downloading is Some || p.enable_subtitle_management is Some || p.enable_sync_transcoding is Some || p.enable_media_conversion is Some || p.enabled_channels is Some || p.enable_all_channels is Some || p.enable_all_folders is Some || p.enabled_folders is Some || p.enable_public_sharing is Some || p.remote_client_bitrate_limit is Some || p.excluded_sub_folders is Some || p.enable_all_devices is Some || p.enabled_devices is Some || p.simultaneous_stream_limit is Some || p.allow_camera_upload is Some || p.allow_sharing_personal_items is Some
}

/// Whether a change touches the Emby policy.
pub fn policy_has_emby_fields(payload: &UserPolicyUpdate) -> (r: bool)
    ensures
        r == has_emby_update(*payload),
{
    payload.is_administrator.is_some() || payload.is_hidden.is_some() || payload.is_hidden_remotely.is_some() || payload.is_hidden_from_unused_devices.is_some() || payload.is_disabled.is_some() || payload.max_parental_rating_enabled.is_some() || payload.max_parental_rating.is_some() || payload.allow_tag_or_rating.is_some() || payload.blocked_tags.is_some() || payload.is_tag_blocking_mode_inclusive.is_some() || payload.include_tags.is_some() || payload.enable_user_preference_access.is_some() || payload.access_schedules.is_some() || payload.block_unrated_items.is_some() || payload.enable_remote_control_of_other_users.is_some() || payload.enable_shared_device_control.is_some() || payload.enable_remote_access.is_some() || payload.enable_live_tv_management.is_some() || payload.enable_live_tv_access.is_some() || payload.enable_media_playback.is_some() || payload.enable_audio_playback_transcoding.is_some() || payload.enable_video_playback_transcoding.is_some() || payload.auto_remote_quality.is_some() || payload.enable_playback_remuxing.is_some() || payload.enable_content_deletion.is_some() || payload.restricted_features.is_some() || payload.enable_content_deletion_from_folders.is_some() || payload.enable_content_downloading.is_some() || payload.enable_subtitle_downloading.is_some() || payload.enable_subtitle_management.is_some() || payload.enable_sync_transcoding.is_some() || payload.enable_media_conversion.is_some() || payload.enabled_channels.is_some() || payload.enable_all_channels.is_some() || payload.enable_all_folders.is_some() || payload.enabled_folders.is_some() || payload.enable_public_sharing.is_some() || payload.remote_client_bitrate_limit.is_some() || payload.excluded_sub_folders.is_some() || payload.enable_all_devices.is_some() || payload.enabled_devices.is_some() || payload.simultaneous_stream_limit.is_some() || payload.allow_camera_upload.is_some() || payload.allow_sharing_personal_items.is_some()
}

/// Whether a change touches the panel's own limits.
pub fn policy_has_panel_fields(payload: &UserPolicyUpdate) -> (r: bool)
    ensures
        r == has_panel_update(*payload),
{
    payload.rate_limit_enabled.is_some() || payload.rate_limit_window_seconds.is_some() || payload.rate_limit_max_requests.is_some() || payload.rate_limit_block_seconds.is_some() || payload.rate_limit_action.is_some() || payload.concurrent_playback_limit_enabled.is_some() || payload.concurrent_playback_limit_max.is_some()
}

/// The unrated item types of a list that the panel knows, in order.
pub open spec fn known_unrated(s: Seq<Seq<char>>) -> Seq<Seq<char>>
    decreases s.len(),
{
    if s.len() == 0 {
        Seq::empty()
    } else {
        known_unrated(s.drop_last()) + if unrated_item_spec(s.last()) {
            seq![s.last()]
        } else {
            Seq::empty()
        }
    }
}

/// The acceptable access windows of a list, their days trimmed, in order.
pub open spec fn valid_windows(s: Seq<(Seq<char>, u64, u64)>) -> Seq<(Seq<char>, u64, u64)>
    decreases s.len(),
{
    if s.len() == 0 {
        Seq::empty()
    } else {
        let w = (trim(s.last().0), s.last().1, s.last().2);
        valid_windows(s.drop_last()) + if schedule_day_ok(w.0) && start_hour_ok(w.1) && end_hour_ok(w.2)
            && hour_key(w.1) < hour_key(w.2) {
            seq![w]
        } else {
            Seq::empty()
        }
    }
}

/// At most `n` items of a sequence, from its start.
pub open spec fn at_most<T>(s: Seq<T>, n: nat) -> Seq<T> {
    if s.len() > n {
        s.take(n as int)
    } else {
        s
    }
}

pub open spec fn clamp_opt_u64(v: Option<u64>, lo: u64, hi: u64) -> Option<u64> {
    match v {
        Some(x) => Some(if x < lo { lo } else if x > hi { hi } else { x }),
        None => None,
    }
}

pub open spec fn clamp_opt_i64(v: Option<i64>, lo: i64, hi: i64) -> Option<i64> {
    match v {
        Some(x) => Some(if x < lo { lo } else if x > hi { hi } else { x }),
        None => None,
    }
}

fn clamped_u64(v: Option<u64>, lo: u64, hi: u64) -> (r: Option<u64>)
    ensures
        r == clamp_opt_u64(v, lo, hi),
{
    match v {
        Some(x) => Some(if x < lo { lo } else if x > hi { hi } else { x }),
        None => None,
    }
}

fn clamped_i64(v: Option<i64>, lo: i64, hi: i64) -> (r: Option<i64>)
    ensures
        r == clamp_opt_i64(v, lo, hi),
{
    match v {
        Some(x) => Some(if x < lo { lo } else if x > hi { hi } else { x }),
        None => None,
    }
}

fn normalized_list(v: &Option<Vec<String>>) -> (r: Option<Vec<String>>)
    ensures
        opt_string_views(r) == match *v {
            Some(l) => Some(policy_list_spec(crate::text::string_views(l@))),
            None => None,
        },
{
    match v {
        Some(l) => Some(normalized_policy_list(l)),
        None => None,
    }
}

fn known_unrated_items(l: &Vec<String>) -> (r: Vec<String>)
    ensures
        crate::text::string_views(r@) == known_unrated(crate::text::string_views(l@)),
{
    let ghost lv = crate::text::string_views(l@);
    let mut out: Vec<String> = Vec::new();
    let mut i: usize = 0;
    assert(lv.take(0) =~= Seq::<Seq<char>>::empty());
    assert(crate::text::string_views(out@) =~= Seq::<Seq<char>>::empty());
    while i < l.len()
        invariant
            i <= l@.len(),
            lv == crate::text::string_views(l@),
            crate::text::string_views(out@) == known_unrated(lv.take(i as int)),
        decreases l@.len() - i,
    {
        let ghost before = crate::text::string_views(out@);
        assert(lv.take(i + 1).drop_last() =~= lv.take(i as int));
        assert(lv.take(i + 1).last() == l@[i as int]@);
        if is_valid_unrated_item(l[i].as_str()) {
            out.push(l[i].clone());
            assert(crate::text::string_views(out@) =~= before + seq![l@[i as int]@]);
        } else {
            assert(before + Seq::<Seq<char>>::empty() =~= before);
        }
        i = i + 1;
    }
    assert(lv.take(l@.len() as int) =~= lv);
    out
}

fn normalized_unrated(v: &Option<Vec<String>>) -> (r: Option<Vec<String>>)
    ensures
        opt_string_views(r) == match *v {
            Some(l) => Some(known_unrated(policy_list_spec(crate::text::string_views(l@)))),
            None => None,
        },
{
    match v {
        Some(l) => {
            let n = normalized_policy_list(l);
            Some(known_unrated_items(&n))
        },
        None => None,
    }
}

fn valid_schedule_items(l: &Vec<UserAccessSchedule>) -> (r: Vec<UserAccessSchedule>)
    ensures
        schedule_views(r@) == at_most(valid_windows(schedule_views(l@)), MAX_ACCESS_SCHEDULES as nat),
{
    let ghost lv = schedule_views(l@);
    let mut out: Vec<UserAccessSchedule> = Vec::new();
    let mut i: usize = 0;
    assert(lv.take(0) =~= Seq::<(Seq<char>, u64, u64)>::empty());
    assert(schedule_views(out@) =~= Seq::<(Seq<char>, u64, u64)>::empty());
    while i < l.len()
        invariant
            i <= l@.len(),
            lv == schedule_views(l@),
            schedule_views(out@) == valid_windows(lv.take(i as int)),
        decreases l@.len() - i,
    {
        let ghost before = schedule_views(out@);
        assert(lv.take(i + 1).drop_last() =~= lv.take(i as int));
        assert(lv.take(i + 1).last() == lv[i as int]);
        let day = crate::text::string_of(&trimmed(l[i].day_of_week.as_str()));
        let w = UserAccessSchedule {
            day_of_week: day,
            start_hour_bits: l[i].start_hour_bits,
            end_hour_bits: l[i].end_hour_bits,
        };
        if is_valid_access_schedule(&w) {
            out.push(w);
            assert(schedule_views(out@) =~= before + seq![(trim(lv[i as int].0), lv[i as int].1, lv[i as int].2)]);
        } else {
            assert(before + Seq::<(Seq<char>, u64, u64)>::empty() =~= before);
        }
        i = i + 1;
    }
    assert(lv.take(l@.len() as int) =~= lv);
    let ghost all = schedule_views(out@);
    out.truncate(MAX_ACCESS_SCHEDULES);
    assert(schedule_views(out@) =~= at_most(all, MAX_ACCESS_SCHEDULES as nat));
    out
}

fn normalized_schedules(v: &Option<Vec<UserAccessSchedule>>) -> (r: Option<Vec<UserAccessSchedule>>)
    ensures
        opt_schedule_views(r) == match *v {
            Some(l) => Some(at_most(valid_windows(schedule_views(l@)), MAX_ACCESS_SCHEDULES as nat)),
            None => None,
        },
{
    match v {
        Some(l) => Some(valid_schedule_items(l)),
        None => None,
    }
}

fn normalized_action(v: &Option<String>) -> (r: Option<String>)
    ensures
        crate::text::opt_string_view(r) == match *v {
            Some(a) => Some(rate_action_spec(a@)),
            None => None,
        },
{
    match v {
        Some(a) => Some(normalize_rate_action(a.as_str())),
        None => None,
    }
}

pub open spec fn list_norm(v: Option<Vec<String>>) -> Option<Seq<Seq<char>>> {
    match v {
        Some(l) => Some(policy_list_spec(crate::text::string_views(l@))),
        None => None,
    }
}

/// A policy change brought into range (see [`normalize_policy_update`]).
pub open spec fn policy_update_normalized(before: UserPolicyUpdate, after: UserPolicyUpdate) -> bool {
    &&& opt_string_views(after.blocked_tags) == list_norm(before.blocked_tags)
    &&& opt_string_views(after.include_tags) == list_norm(before.include_tags)
    &&& opt_string_views(after.block_unrated_items) == match before.block_unrated_items {
        Some(l) => Some(known_unrated(policy_list_spec(crate::text::string_views(l@)))),
        None => None,
    }
    &&& opt_string_views(after.restricted_features) == list_norm(before.restricted_features)
    &&& opt_string_views(after.enable_content_deletion_from_folders) == list_norm(
        before.enable_content_deletion_from_folders,
    )
    &&& opt_string_views(after.enabled_channels) == list_norm(before.enabled_channels)
    &&& opt_string_views(after.enabled_folders) == list_norm(before.enabled_folders)
    &&& opt_string_views(after.excluded_sub_folders) == list_norm(before.excluded_sub_folders)
    &&& opt_string_views(after.enabled_devices) == list_norm(before.enabled_devices)
    &&& opt_schedule_views(after.access_schedules) == match before.access_schedules {
        Some(l) => Some(at_most(valid_windows(schedule_views(l@)), MAX_ACCESS_SCHEDULES as nat)),
        None => None,
    }
    &&& after.max_parental_rating == clamp_opt_i64(before.max_parental_rating, 0, MAX_PARENTAL_RATING)
    &&& after.auto_remote_quality == clamp_opt_i64(before.auto_remote_quality, 0, MAX_REMOTE_QUALITY)
    &&& after.remote_client_bitrate_limit == clamp_opt_u64(before.remote_client_bitrate_limit, 0, MAX_REMOTE_BITRATE)
    &&& after.simultaneous_stream_limit == clamp_opt_u64(before.simultaneous_stream_limit, 0, MAX_USER_POLICY_LIMIT)
    &&& after.concurrent_playback_limit_max == clamp_opt_u64(
        before.concurrent_playback_limit_max,
        1,
        MAX_USER_POLICY_LIMIT,
    )
    &&& after.rate_limit_window_seconds == clamp_opt_u64(before.rate_limit_window_seconds, 1, 86400)
    &&& after.rate_limit_max_requests == clamp_opt_u64(before.rate_limit_max_requests, 1, 10000)
    &&& after.rate_limit_block_seconds == clamp_opt_u64(before.rate_limit_block_seconds, 1, 86400)
    &&& crate::text::opt_string_view(after.rate_limit_action) == match before.rate_limit_action {
        Some(a) => Some(rate_action_spec(a@)),
        None => None,
    }
    &&& after.is_administrator == before.is_administrator
    &&& after.is_hidden == before.is_hidden
    &&& after.is_hidden_remotely == before.is_hidden_remotely
    &&& after.is_hidden_from_unused_devices == before.is_hidden_from_unused_devices
    &&& after.is_disabled == before.is_disabled
    &&& after.max_parental_rating_enabled == before.max_parental_rating_enabled
    &&& after.allow_tag_or_rating == before.allow_tag_or_rating
    &&& after.is_tag_blocking_mode_inclusive == before.is_tag_blocking_mode_inclusive
    &&& after.enable_user_preference_access == before.enable_user_preference_access
    &&& after.enable_remote_control_of_other_users == before.enable_remote_control_of_other_users
    &&& after.enable_shared_device_control == before.enable_shared_device_control
    &&& after.enable_remote_access == before.enable_remote_access
    &&& after.enable_live_tv_management == before.enable_live_tv_management
    &&& after.enable_live_tv_access == before.enable_live_tv_access
    &&& after.enable_media_playback == before.enable_media_playback
    &&& after.enable_audio_playback_transcoding == before.enable_audio_playback_transcoding
    &&& after.enable_video_playback_transcoding == before.enable_video_playback_transcoding
    &&& after.enable_playback_remuxing == before.enable_playback_remuxing
    &&& after.enable_content_deletion == before.enable_content_deletion
    &&& after.enable_content_downloading == before.enable_content_downloading
    &&& after.enable_subtitle_downloading == before.enable_subtitle_downloading
    &&& after.enable_subtitle_management == before.enable_subtitle_management
    &&& after.enable_sync_transcoding == before.enable_sync_transcoding
    &&& after.enable_media_conversion == before.enable_media_conversion
    &&& after.enable_all_channels == before.enable_all_channels
    &&& after.enable_all_folders == before.enable_all_folders
    &&& after.enable_public_sharing == before.enable_public_sharing
    &&& after.enable_all_devices == before.enable_all_devices
    &&& after.allow_camera_upload == before.allow_camera_upload
    &&& after.allow_sharing_personal_items == before.allow_sharing_personal_items
    &&& after.rate_limit_enabled == before.rate_limit_enabled
    &&& after.concurrent_playback_limit_enabled == before.concurrent_playback_limit_enabled
}

/// Brings a stored policy change into range: lists trimmed, without blanks and at most 256
/// long; unknown unrated item types and unacceptable access windows dropped (days trimmed,
/// at most 64 windows); numbers clamped to their ranges; the rate limit action normalized.
pub fn normalize_policy_update(payload: &mut UserPolicyUpdate)
    ensures
        policy_update_normalized(*old(payload), *final(payload)),
{
    payload.blocked_tags = normalized_list(&payload.blocked_tags);
    payload.include_tags = normalized_list(&payload.include_tags);
    payload.block_unrated_items = normalized_unrated(&payload.block_unrated_items);
    payload.restricted_features = normalized_list(&payload.restricted_features);
    payload.enable_content_deletion_from_folders = normalized_list(&payload.enable_content_deletion_from_folders);
    payload.enabled_channels = normalized_list(&payload.enabled_channels);
    payload.enabled_folders = normalized_list(&payload.enabled_folders);
    payload.excluded_sub_folders = normalized_list(&payload.excluded_sub_folders);
    payload.enabled_devices = normalized_list(&payload.enabled_devices);
    payload.access_schedules = normalized_schedules(&payload.access_schedules);
    payload.max_parental_rating = clamped_i64(payload.max_parental_rating, 0, MAX_PARENTAL_RATING);
    payload.auto_remote_quality = clamped_i64(payload.auto_remote_quality, 0, MAX_REMOTE_QUALITY);
    payload.remote_client_bitrate_limit = clamped_u64(payload.remote_client_bitrate_limit, 0, MAX_REMOTE_BITRATE);
    payload.simultaneous_stream_limit = clamped_u64(payload.simultaneous_stream_limit, 0, MAX_USER_POLICY_LIMIT);
    payload.concurrent_playback_limit_max = clamped_u64(payload.concurrent_playback_limit_max, 1, MAX_USER_POLICY_LIMIT);
    payload.rate_limit_window_seconds = clamped_u64(payload.rate_limit_window_seconds, 1, 86400);
    payload.rate_limit_max_requests = clamped_u64(payload.rate_limit_max_requests, 1, 10000);
    payload.rate_limit_block_seconds = clamped_u64(payload.rate_limit_block_seconds, 1, 86400);
    payload.rate_limit_action = normalized_action(&payload.rate_limit_action);
}

/// A saved set of policy settings for new users of a server.
#[derive(Debug, Clone)]
pub struct UserTemplate {
    pub id: String,
    pub server_id: String,
    pub name: String,
    pub policy: UserPolicyUpdate,
}

/// The stored list of user templates.
#[derive(Debug, Clone)]
pub struct UserTemplatesDocument {
    pub templates: Vec<UserTemplate>,
}

pub open spec fn template_key(t: UserTemplate) -> (Seq<char>, Seq<char>) {
    (t.server_id@, t.id@)
}

/// A template tidied: id and server trimmed, the name trimmed and cut to 128 characters, the
/// policy brought into range.
pub open spec fn template_normalized(before: UserTemplate, after: UserTemplate) -> bool {
    &&& after.id@ == trim(before.id@)
    &&& after.server_id@ == trim(before.server_id@)
    &&& after.name@ == at_most(trim(before.name@), MAX_TEMPLATE_NAME as nat)
    &&& policy_update_normalized(before.policy, after.policy)
}

/// A template worth keeping: a valid id, a server id of 1 to 128 bytes, and a name.
pub open spec fn template_kept(t: UserTemplate) -> bool {
    &&& t.id@.len() >= 1 && byte_len(t.id@) <= 128 && forall|i: int| 0 <= i < t.id@.len() ==> is_id_char(#[trigger] t.id@[i])
    &&& t.server_id@.len() > 0 && byte_len(t.server_id@) <= 128
    &&& t.name@.len() > 0
}

/// The templates a document keeps, before duplicates go: each tidied, those worth keeping.
pub open spec fn kept_templates(s: Seq<UserTemplate>, out: Seq<UserTemplate>) -> bool
    decreases s.len(),
{
    if s.len() == 0 {
        out.len() == 0
    } else {
        exists|q: UserTemplate|
            #![trigger template_normalized(s.last(), q)]
            template_normalized(s.last(), q) && if template_kept(q) {
                out.len() > 0 && out.last() == q && kept_templates(s.drop_last(), out.drop_last())
            } else {
                kept_templates(s.drop_last(), out)
            }
    }
}

/// The first template of each server and id, in order.
pub open spec fn first_templates(s: Seq<UserTemplate>) -> Seq<UserTemplate>
    decreases s.len(),
{
    if s.len() == 0 {
        Seq::empty()
    } else {
        let rest = first_templates(s.drop_last());
        if exists|j: int| 0 <= j < s.len() - 1 && template_key(#[trigger] s[j]) == template_key(s.last()) {
            rest
        } else {
            rest.push(s.last())
        }
    }
}

proof fn lemma_first_templates_keys(s: Seq<UserTemplate>, k: (Seq<char>, Seq<char>))
    ensures
        (exists|j: int| 0 <= j < s.len() && template_key(#[trigger] s[j]) == k) <==> (exists|m: int|
            0 <= m < first_templates(s).len() && template_key(#[trigger] first_templates(s)[m]) == k),
    decreases s.len(),
{
    if s.len() > 0 {
        let init = s.drop_last();
        lemma_first_templates_keys(init, k);
        let rest = first_templates(init);
        if exists|j: int| 0 <= j < s.len() && template_key(#[trigger] s[j]) == k {
            let j = choose|j: int| 0 <= j < s.len() && template_key(#[trigger] s[j]) == k;
            if j < s.len() - 1 {
                assert(template_key(init[j]) == k);
                let m = choose|m: int| 0 <= m < rest.len() && template_key(#[trigger] rest[m]) == k;
                assert(template_key(first_templates(s)[m]) == k);
            } else {
                if exists|i: int| 0 <= i < s.len() - 1 && template_key(#[trigger] s[i]) == template_key(s.last()) {
                    let i = choose|i: int| 0 <= i < s.len() - 1 && template_key(#[trigger] s[i]) == template_key(s.last());
                    assert(template_key(init[i]) == k);
                    let m = choose|m: int| 0 <= m < rest.len() && template_key(#[trigger] rest[m]) == k;
                    assert(template_key(first_templates(s)[m]) == k);
                } else {
                    assert(template_key(first_templates(s)[rest.len() as int]) == k);
                }
            }
        }
        if exists|m: int| 0 <= m < first_templates(s).len() && template_key(#[trigger] first_templates(s)[m]) == k {
            let m = choose|m: int| 0 <= m < first_templates(s).len() && template_key(#[trigger] first_templates(s)[m]) == k;
            if m < rest.len() {
                assert(template_key(rest[m]) == k);
                let j = choose|j: int| 0 <= j < init.len() && template_key(#[trigger] init[j]) == k;
                assert(template_key(s[j]) == k);
            } else {
                assert(template_key(s[s.len() - 1]) == k);
            }
        }
    }
}

fn has_template_key(v: &Vec<UserTemplate>, q: &UserTemplate) -> (r: bool)
    ensures
        r == exists|m: int| 0 <= m < v@.len() && template_key(#[trigger] v@[m]) == template_key(*q),
{
    let mut i: usize = 0;
    while i < v.len()
        invariant
            i <= v@.len(),
            forall|m: int| 0 <= m < i ==> template_key(#[trigger] v@[m]) != template_key(*q),
        decreases v@.len() - i,
    {
        if crate::strmap::str_eq(v[i].server_id.as_str(), q.server_id.as_str()) && crate::strmap::str_eq(
            v[i].id.as_str(),
            q.id.as_str(),
        ) {
            return true;
        }
        i = i + 1;
    }
    false
}

fn normalize_template(t: UserTemplate) -> (r: UserTemplate)
    ensures
        template_normalized(t, r),
{
    let UserTemplate { id, server_id, name, policy } = t;
    let mut policy = policy;
    normalize_policy_update(&mut policy);
    let n = trimmed(name.as_str());
    let cut = if n.len() > MAX_TEMPLATE_NAME {
        slice_chars(&n, 0, MAX_TEMPLATE_NAME)
    } else {
        n
    };
    proof {
        if trim(name@).len() > MAX_TEMPLATE_NAME {
            assert(cut@ =~= trim(name@).take(MAX_TEMPLATE_NAME as int));
        }
    }
    UserTemplate {
        id: string_of(&trimmed(id.as_str())),
        server_id: string_of(&trimmed(server_id.as_str())),
        name: string_of(&cut),
        policy,
    }
}

/// Normalizes the stored templates: each tidied (see [`template_normalized`]), those not
/// worth keeping dropped (see [`template_kept`]), only the first of each server and id kept,
/// at most 512 of them.
pub fn normalize_user_templates(document: &mut UserTemplatesDocument)
    ensures
        exists|kept: Seq<UserTemplate>|
            #![trigger kept_templates(old(document).templates@, kept)]
            kept_templates(old(document).templates@, kept) && final(document).templates@ == at_most(
                first_templates(kept),
                MAX_USER_TEMPLATES as nat,
            ),
{
    let ghost input = document.templates@;
    let mut rest: Vec<UserTemplate> = Vec::new();
    std::mem::swap(&mut rest, &mut document.templates);
    let ghost mut kept: Seq<UserTemplate> = Seq::empty();
    let mut unique: Vec<UserTemplate> = Vec::new();
    let n = rest.len();
    let mut i: usize = 0;
    assert(input.take(0) =~= Seq::<UserTemplate>::empty());
    while rest.len() > 0
        invariant
            n == input.len(),
            i + rest@.len() == n,
            rest@ == input.skip(i as int),
            kept_templates(input.take(i as int), kept),
            unique@ == first_templates(kept),
        decreases rest@.len(),
    {
        let t = rest.remove(0);
        assert(rest@ =~= input.skip(i + 1));
        assert(t == input[i as int]);
        assert(input.take(i + 1).drop_last() =~= input.take(i as int));
        assert(input.take(i + 1).last() == t);
        let q = normalize_template(t);
        let id_ok = validate_template_id(q.id.as_str()).is_ok();
        let keep = id_ok && !q.server_id.as_str().is_empty() && fits_bytes(q.server_id.as_str(), 128)
            && !q.name.as_str().is_empty();
        assert(template_normalized(input.take(i + 1).last(), q));
        assert(keep == template_kept(q));
        if keep {
            let ghost k0 = kept;
            let dup = has_template_key(&unique, &q);
            proof {
                lemma_first_templates_keys(k0, template_key(q));
                kept = kept.push(q);
                assert(kept.drop_last() =~= k0);
                assert(kept_templates(input.take(i + 1), kept));
            }
            if !dup {
                unique.push(q);
            }
            assert(unique@ =~= first_templates(kept)) by {
                assert(kept.drop_last() =~= k0);
                if dup {
                    let m = choose|m: int| 0 <= m < k0.len() && template_key(#[trigger] k0[m]) == template_key(q);
                    assert(kept[m] == k0[m]);
                } else {
                    assert forall|j: int| 0 <= j < kept.len() - 1 implies template_key(#[trigger] kept[j])
                        != template_key(kept.last()) by {
                        assert(kept[j] == k0[j]);
                    }
                }
            }
        } else {
            assert(kept_templates(input.take(i + 1), kept));
        }
        i = i + 1;
    }
    assert(input.take(n as int) =~= input);
    let ghost all = unique@;
    unique.truncate(MAX_USER_TEMPLATES);
    proof {
        if all.len() > MAX_USER_TEMPLATES {
            assert(unique@ =~= all.take(MAX_USER_TEMPLATES as int));
        } else {
            assert(unique@ =~= all);
        }
    }
    document.templates = unique;
}

} // verus!
