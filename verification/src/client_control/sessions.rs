//! Counting a user's other active playbacks for the concurrent playback limit.

use vstd::prelude::*;
use crate::emby::{opt_view, PlaybackSession};
use crate::text::{chars_eq, chars_eq_ignore_case, chars_of, eq_ignore_case, lower, trim, trimmed};

verus! {

pub open spec fn opt_chars(o: &Option<Vec<char>>) -> Option<Seq<char>> {
    match o {
        Some(v) => Some(v@),
        None => None,
    }
}

/// An optional text, trimmed.
pub open spec fn opt_trim(o: Option<String>) -> Option<Seq<char>> {
    match o {
        Some(s) => Some(trim(s@)),
        None => None,
    }
}

/// The device the request names: its trimmed identifier, when that is not blank.
pub open spec fn requested_device(device_id: Option<Seq<char>>) -> Option<Seq<char>> {
    match device_id {
        Some(d) => if trim(d).len() > 0 {
            Some(trim(d))
        } else {
            None
        },
        None => None,
    }
}

/// A session of the user on the server (the user name compared trimmed, ignoring ASCII case).
pub open spec fn same_user_session(s: PlaybackSession, server_id: Seq<char>, user: Seq<char>) -> bool {
    s.server_id@ == server_id && eq_ignore_case(trim(s.user_name@), user)
}

/// Some session of the user on the server plays on device `d`.
pub open spec fn device_seen(
    sessions: Seq<PlaybackSession>,
    server_id: Seq<char>,
    user: Seq<char>,
    d: Seq<char>,
) -> bool {
    exists|i: int|
        0 <= i < sessions.len() && same_user_session(#[trigger] sessions[i], server_id, user)
            && opt_trim(sessions[i].device_id) == Some(d)
}

/// The device whose sessions are left out of the count: the requested one, when a session of
/// the user plays on it.
pub open spec fn counted_device(
    sessions: Seq<PlaybackSession>,
    server_id: Seq<char>,
    user: Seq<char>,
    device_id: Option<Seq<char>>,
) -> Option<Seq<char>> {
    match requested_device(device_id) {
        Some(d) => if device_seen(sessions, server_id, user, d) {
            Some(d)
        } else {
            None
        },
        None => None,
    }
}

/// The count over `s` and whether a session of the same item was already left out: the
/// user's sessions on the server, without those on the excluded device, or, when no device
/// is excluded, without one session of the requested item.
pub open spec fn count_sessions(
    s: Seq<PlaybackSession>,
    server_id: Seq<char>,
    user: Seq<char>,
    item: Seq<char>,
    device: Option<Seq<char>>,
) -> (nat, bool)
    decreases s.len(),
{
    if s.len() == 0 {
        (0, false)
    } else {
        let (c, skipped) = count_sessions(s.drop_last(), server_id, user, item, device);
        let x = s.last();
        if !same_user_session(x, server_id, user) {
            (c, skipped)
        } else {
            match device {
                Some(d) => if opt_trim(x.device_id) == Some(d) {
                    (c, skipped)
                } else {
                    (c + 1, skipped)
                },
                None => if trim(item).len() > 0 && trim(x.item_id@) == trim(item) && !skipped {
                    (c, true)
                } else {
                    (c + 1, skipped)
                },
            }
        }
    }
}

/// The number of other playbacks of the user that count against the concurrent limit.
pub open spec fn active_session_count(
    sessions: Seq<PlaybackSession>,
    server_id: Seq<char>,
    user: Seq<char>,
    item: Seq<char>,
    device_id: Option<Seq<char>>,
) -> nat {
    count_sessions(
        sessions,
        server_id,
        user,
        item,
        counted_device(sessions, server_id, user, device_id),
    ).0
}

proof fn lemma_count_bound(
    s: Seq<PlaybackSession>,
    server_id: Seq<char>,
    user: Seq<char>,
    item: Seq<char>,
    device: Option<Seq<char>>,
)
    ensures
        count_sessions(s, server_id, user, item, device).0 <= s.len(),
    decreases s.len(),
{
    if s.len() > 0 {
        lemma_count_bound(s.drop_last(), server_id, user, item, device);
    }
}

/// A session of someone else: on another server, or of a user whose trimmed name differs
/// from the requesting user's ignoring ASCII case.
pub open spec fn other_users_session(x: PlaybackSession, server_id: Seq<char>, user: Seq<char>) -> bool {
    x.server_id@ != server_id || lower(trim(x.user_name@)) != lower(user)
}

/// Sessions of other users (or on other servers) never count against a user's concurrent
/// limit: adding one changes neither the count nor the device left out.
pub proof fn lemma_other_users_sessions_do_not_count(
    sessions: Seq<PlaybackSession>,
    x: PlaybackSession,
    server_id: Seq<char>,
    user: Seq<char>,
    item: Seq<char>,
    device_id: Option<Seq<char>>,
)
    requires
        other_users_session(x, server_id, user),
    ensures
        active_session_count(sessions.push(x), server_id, user, item, device_id) == active_session_count(
            sessions,
            server_id,
            user,
            item,
            device_id,
        ),
{
    let t = sessions.push(x);
    assert(t.drop_last() =~= sessions);
    assert(!same_user_session(x, server_id, user));
    assert forall|d: Seq<char>| device_seen(t, server_id, user, d) == device_seen(sessions, server_id, user, d) by {
        if device_seen(t, server_id, user, d) {
            let i = choose|i: int|
                0 <= i < t.len() && same_user_session(#[trigger] t[i], server_id, user) && opt_trim(t[i].device_id)
                    == Some(d);
            assert(i < sessions.len());
            assert(t[i] == sessions[i]);
        }
        if device_seen(sessions, server_id, user, d) {
            let i = choose|i: int|
                0 <= i < sessions.len() && same_user_session(#[trigger] sessions[i], server_id, user) && opt_trim(
                    sessions[i].device_id,
                ) == Some(d);
            assert(t[i] == sessions[i]);
        }
    }
    assert(counted_device(t, server_id, user, device_id) == counted_device(sessions, server_id, user, device_id));
}

/// Only the user's own sessions on the server count: when every session belongs to someone
/// else, the count is 0.
pub proof fn lemma_only_own_sessions_count(
    sessions: Seq<PlaybackSession>,
    server_id: Seq<char>,
    user: Seq<char>,
    item: Seq<char>,
    device_id: Option<Seq<char>>,
)
    requires
        forall|i: int| 0 <= i < sessions.len() ==> other_users_session(#[trigger] sessions[i], server_id, user),
    ensures
        active_session_count(sessions, server_id, user, item, device_id) == 0,
    decreases sessions.len(),
{
    if sessions.len() > 0 {
        let init = sessions.drop_last();
        assert forall|i: int| 0 <= i < init.len() implies other_users_session(#[trigger] init[i], server_id, user) by {
            assert(init[i] == sessions[i]);
        }
        lemma_only_own_sessions_count(init, server_id, user, item, device_id);
        assert(other_users_session(sessions[sessions.len() - 1], server_id, user));
        lemma_other_users_sessions_do_not_count(init, sessions.last(), server_id, user, item, device_id);
        assert(init.push(sessions.last()) =~= sessions);
    }
}

fn session_matches(s: &PlaybackSession, server_id: &Vec<char>, user: &Vec<char>) -> (r: bool)
    ensures
        r == same_user_session(*s, server_id@, user@),
{
    let sid = chars_of(s.server_id.as_str());
    let name = trimmed(s.user_name.as_str());
    chars_eq(&sid, server_id) && chars_eq_ignore_case(&name, user)
}

fn trimmed_device(s: &PlaybackSession) -> (r: Option<Vec<char>>)
    ensures
        match r {
            Some(v) => opt_trim(s.device_id) == Some(v@),
            None => opt_trim(s.device_id) is None,
        },
{
    match &s.device_id {
        Some(d) => Some(trimmed(d.as_str())),
        None => None,
    }
}

/// Counts the user's playbacks on the server other than the current one: sessions on the
/// requested device are left out when some session of the user plays on it; otherwise one
/// session of the requested item is left out.
pub fn count_active_playback_sessions(
    sessions: &[PlaybackSession],
    server_id: &str,
    playback_user: &str,
    item_id: &str,
    device_id: Option<&str>,
) -> (r: u64)
    ensures
        r as nat == active_session_count(
            sessions@,
            server_id@,
            playback_user@,
            item_id@,
            opt_view(device_id),
        ),
{
    let sid = chars_of(server_id);
    let user = chars_of(playback_user);
    let requested: Option<Vec<char>> = match device_id {
        Some(d) => {
            let t = trimmed(d);
            if t.len() > 0 {
                Some(t)
            } else {
                None
            }
        },
        None => None,
    };
    let mut device: Option<Vec<char>> = None;
    if let Some(d) = requested {
        let mut i: usize = 0;
        let mut seen = false;
        while i < sessions.len()
            invariant
                i <= sessions@.len(),
                seen ==> device_seen(sessions@, server_id@, playback_user@, d@),
                !seen ==> forall|k: int|
                    0 <= k < i ==> !(same_user_session(#[trigger] sessions@[k], server_id@, playback_user@)
                        && opt_trim(sessions@[k].device_id) == Some(d@)),
                sid@ == server_id@,
                user@ == playback_user@,
            decreases sessions@.len() - i,
        {
            if session_matches(&sessions[i], &sid, &user) {
                if let Some(sd) = trimmed_device(&sessions[i]) {
                    if chars_eq(&sd, &d) {
                        seen = true;
                    }
                }
            }
            i = i + 1;
        }
        if seen {
            device = Some(d);
        }
    }
    let ghost dev = opt_chars(&device);
    assert(dev == counted_device(sessions@, server_id@, playback_user@, opt_view(device_id)));
    let item = trimmed(item_id);
    let mut skipped = false;
    let mut count: u64 = 0;
    let mut i: usize = 0;
    assert(sessions@.take(0) =~= Seq::<PlaybackSession>::empty());
    while i < sessions.len()
        invariant
            i <= sessions@.len(),
            sid@ == server_id@,
            user@ == playback_user@,
            item@ == trim(item_id@),
            dev == opt_chars(&device),
            (count as nat, skipped) == count_sessions(
                sessions@.take(i as int),
                server_id@,
                playback_user@,
                item_id@,
                dev,
            ),
        decreases sessions@.len() - i,
    {
        let s = &sessions[i];
        assert(sessions@.take(i + 1).drop_last() =~= sessions@.take(i as int));
        assert(sessions@.take(i + 1).last() == *s);
        proof {
            lemma_count_bound(sessions@.take(i as int), server_id@, playback_user@, item_id@, dev);
        }
        if session_matches(s, &sid, &user) {
            match &device {
                Some(d) => {
                    let same = match trimmed_device(s) {
                        Some(sd) => chars_eq(&sd, d),
                        None => false,
                    };
                    if !same {
                        count = count + 1;
                    }
                },
                None => {
                    let sitem = trimmed(s.item_id.as_str());
                    if item.len() > 0 && chars_eq(&sitem, &item) && !skipped {
                        skipped = true;
                    } else {
                        count = count + 1;
                    }
                },
            }
        }
        i = i + 1;
    }
    assert(sessions@.take(sessions@.len() as int) =~= sessions@);
    count
}

pub open spec fn at_least_one(v: u64) -> u64 {
    if v < 1 {
        1
    } else {
        v
    }
}

/// The limit that applies: the lower of the global and the user's limit when both are on,
/// the one that is on otherwise, never below 1; `None` when neither is on.
pub open spec fn effective_limit_spec(global_limit: Option<u64>, user_limit: Option<u64>) -> Option<u64> {
    match (global_limit, user_limit) {
        (Some(g), Some(u)) => Some(at_least_one(if g < u { g } else { u })),
        (Some(g), None) => Some(at_least_one(g)),
        (None, Some(u)) => Some(at_least_one(u)),
        (None, None) => None,
    }
}

pub fn effective_concurrent_playback_limit(global_limit: Option<u64>, user_limit: Option<u64>) -> (r:
    Option<u64>)
    ensures
        r == effective_limit_spec(global_limit, user_limit),
{
    let limit = match (global_limit, user_limit) {
        (Some(g), Some(u)) => Some(if g < u { g } else { u }),
        (Some(g), None) => Some(g),
        (None, Some(u)) => Some(u),
        (None, None) => None,
    };
    match limit {
        Some(l) => Some(if l < 1 { 1 } else { l }),
        None => None,
    }
}

} // verus!
