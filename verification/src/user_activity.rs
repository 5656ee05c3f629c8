//! What the user list shows of each Emby user's sessions: whether a session is the user's,
//! the user's latest activity, playing sessions and devices, and the device and folder
//! options offered for access control.

use vstd::prelude::*;
use vstd::string::StringExecFns;
use crate::client_control::{
    lemma_lex_asymmetric, lemma_lex_irreflexive, lemma_lex_less_then_le, lex_le, lex_less, str_less,
};
use crate::text::{eq_ignore_case, chars_eq_ignore_case, chars_of, to_lowercase, unicode_lowercase};
use crate::users_api::UserAccessOption;

verus! {

/// An Emby session as the user list reads it. Each text is the first of the named fields that
/// is a string, trimmed, and absent when that is empty.
#[derive(Debug)]
pub struct SessionActivity {
    /// `UserId` or `user_id`.
    pub user_id: Option<String>,
    /// `UserName` or `user_name`.
    pub user_name: Option<String>,
    /// `NowPlayingItem` or `now_playing_item` is an object.
    pub playing: bool,
    /// `LastActivityDate`, `LastPlaybackCheckIn` or `LastPlaybackCheckInDate`.
    pub last_activity: Option<String>,
    /// `DeviceName`, `DeviceId` or `Client`.
    pub device: Option<String>,
    /// `DeviceId`, `device_id`, `DeviceName`, `device_name` or `Client`: the id of the
    /// device option.
    pub option_id: Option<String>,
    /// `DeviceName`, `Client` or `device_name`: the name of the device option.
    pub option_name: Option<String>,
}

/// A session is the user's when its user id is the (non-empty) user id; a session without a
/// user id is the user's when its user name equals the user's but for ASCII case.
pub open spec fn matches_user_spec(s: SessionActivity, user_id: Seq<char>, user_name: Seq<char>) -> bool {
    match s.user_id {
        Some(id) => user_id.len() > 0 && id@ == user_id,
        None => match s.user_name {
            Some(n) => eq_ignore_case(n@, user_name),
            None => false,
        },
    }
}

/// Whether a session is the user's (see [`matches_user_spec`]).
pub fn session_matches_user(session: &SessionActivity, user_id: &str, user_name: &str) -> (r: bool)
    ensures
        r == matches_user_spec(*session, user_id@, user_name@),
{
    match &session.user_id {
        Some(id) => user_id.unicode_len() > 0 && crate::strmap::str_eq(id.as_str(), user_id),
        None => match &session.user_name {
            Some(n) => chars_eq_ignore_case(&chars_of(n.as_str()), &chars_of(user_name)),
            None => false,
        },
    }
}

/// The greatest last activity (in `String` order) of the user's sessions.
pub open spec fn latest_spec(s: Seq<SessionActivity>, user_id: Seq<char>, user_name: Seq<char>) -> Option<Seq<char>>
    decreases s.len(),
{
    if s.len() == 0 {
        None
    } else {
        let p = latest_spec(s.drop_last(), user_id, user_name);
        let last = s.last();
        if matches_user_spec(last, user_id, user_name) && last.last_activity is Some && (p is None
            || lex_less(p->0, last.last_activity->0@)) {
            Some(last.last_activity->0@)
        } else {
            p
        }
    }
}

/// How many of the user's sessions play something.
pub open spec fn playing_count(s: Seq<SessionActivity>, user_id: Seq<char>, user_name: Seq<char>) -> int
    decreases s.len(),
{
    if s.len() == 0 {
        0
    } else {
        playing_count(s.drop_last(), user_id, user_name) + if matches_user_spec(
            s.last(),
            user_id,
            user_name,
        ) && s.last().playing {
            1int
        } else {
            0int
        }
    }
}

/// The user's devices, each once, in the order of their first session.
pub open spec fn devices_spec(s: Seq<SessionActivity>, user_id: Seq<char>, user_name: Seq<char>) -> Seq<Seq<char>>
    decreases s.len(),
{
    if s.len() == 0 {
        Seq::empty()
    } else {
        let p = devices_spec(s.drop_last(), user_id, user_name);
        let last = s.last();
        if matches_user_spec(last, user_id, user_name) && last.device is Some && last.device->0@.len()
            > 0 && !p.contains(last.device->0@) {
            p.push(last.device->0@)
        } else {
            p
        }
    }
}

proof fn lemma_playing_count_bounded(s: Seq<SessionActivity>, user_id: Seq<char>, user_name: Seq<char>)
    ensures
        0 <= playing_count(s, user_id, user_name) <= s.len(),
    decreases s.len(),
{
    if s.len() > 0 {
        lemma_playing_count_bounded(s.drop_last(), user_id, user_name);
    }
}

/// A user's activity: the latest last-activity time of their sessions, how many of them play
/// something, and their devices.
pub fn activity_for_user(sessions: &Vec<SessionActivity>, user_id: &str, user_name: &str) -> (r: (
    Option<String>,
    u64,
    Vec<String>,
))
    ensures
        crate::text::opt_string_view(r.0) == latest_spec(sessions@, user_id@, user_name@),
        r.1 == playing_count(sessions@, user_id@, user_name@),
        crate::text::string_views(r.2@) == devices_spec(sessions@, user_id@, user_name@),
{
    let mut latest: Option<String> = None;
    let mut active: u64 = 0;
    let mut devices: Vec<String> = Vec::new();
    let mut i: usize = 0;
    while i < sessions.len()
        invariant
            i <= sessions@.len(),
            crate::text::opt_string_view(latest) == latest_spec(
                sessions@.take(i as int),
                user_id@,
                user_name@,
            ),
            active == playing_count(sessions@.take(i as int), user_id@, user_name@),
            crate::text::string_views(devices@) == devices_spec(
                sessions@.take(i as int),
                user_id@,
                user_name@,
            ),
        decreases sessions@.len() - i,
    {
        let ghost pre = sessions@.take(i as int);
        let ghost post = sessions@.take(i + 1);
        proof {
            assert(post.drop_last() =~= pre);
            assert(post.last() == sessions@[i as int]);
            lemma_playing_count_bounded(pre, user_id@, user_name@);
        }
        let s = &sessions[i];
        if session_matches_user(s, user_id, user_name) {
            if s.playing {
                active = active + 1;
            }
            match &s.last_activity {
                Some(v) => {
                    let newer = match &latest {
                        None => true,
                        Some(cur) => str_less(cur.as_str(), v.as_str()),
                    };
                    if newer {
                        latest = Some(v.clone());
                    }
                },
                None => {},
            }
            match &s.device {
                Some(d) => {
                    if d.unicode_len() > 0 {
                        let mut seen = false;
                        let mut j: usize = 0;
                        while j < devices.len()
                            invariant
                                j <= devices@.len(),
                                seen == (exists|k: int| 0 <= k < j && #[trigger] devices@[k]@ == d@),
                            decreases devices@.len() - j,
                        {
                            let same = crate::strmap::str_eq(devices[j].as_str(), d.as_str());
                            seen = seen || same;
                            j = j + 1;
                        }
                        proof {
                            let sv = crate::text::string_views(devices@);
                            if sv.contains(d@) {
                                let k = choose|k: int| 0 <= k < sv.len() && sv[k] == d@;
                                assert(devices@[k]@ == d@);
                            }
                            if seen {
                                let k = choose|k: int| 0 <= k < devices@.len() && #[trigger] devices@[k]@ == d@;
                                assert(sv[k] == d@);
                            }
                        }
                        if !seen {
                            let ghost before = crate::text::string_views(devices@);
                            devices.push(d.clone());
                            proof {
                                assert(crate::text::string_views(devices@) =~= before.push(d@));
                            }
                        }
                    }
                },
                None => {},
            }
        }
        i = i + 1;
    }
    proof {
        assert(sessions@.take(sessions@.len() as int) =~= sessions@);
    }
    (latest, active, devices)
}


/// A folder or device as the options are read from it: the first of the id fields and the
/// first of the name fields that is a non-blank string, trimmed.
#[derive(Debug)]
pub struct OptionSource {
    pub id: Option<String>,
    pub name: Option<String>,
}

/// The ids of options.
pub open spec fn option_ids(s: Seq<(Seq<char>, Seq<char>)>) -> Seq<Seq<char>> {
    s.map_values(|o: (Seq<char>, Seq<char>)| o.0)
}

/// The options of the sources that have an id, each id once (its first source), named by the
/// source's name or else by the id.
pub open spec fn deduped_options(s: Seq<OptionSource>) -> Seq<(Seq<char>, Seq<char>)>
    decreases s.len(),
{
    if s.len() == 0 {
        Seq::empty()
    } else {
        let p = deduped_options(s.drop_last());
        let last = s.last();
        match last.id {
            Some(id) => if option_ids(p).contains(id@) {
                p
            } else {
                p.push(
                    (
                        id@,
                        match last.name {
                            Some(n) => n@,
                            None => id@,
                        },
                    ),
                )
            },
            None => p,
        }
    }
}

/// The id and name of an option.
pub open spec fn option_view(o: UserAccessOption) -> (Seq<char>, Seq<char>) {
    (o.id@, o.name@)
}

/// The sort key of an option: its name lower-cased by `str::to_lowercase`.
pub open spec fn option_key(o: UserAccessOption) -> Seq<char> {
    unicode_lowercase(o.name@)
}

fn dedupe_options(values: &Vec<OptionSource>) -> (r: Vec<UserAccessOption>)
    ensures
        r@.map_values(|o: UserAccessOption| option_view(o)) == deduped_options(values@),
{
    let mut out: Vec<UserAccessOption> = Vec::new();
    let mut i: usize = 0;
    while i < values.len()
        invariant
            i <= values@.len(),
            out@.map_values(|o: UserAccessOption| option_view(o)) == deduped_options(
                values@.take(i as int),
            ),
        decreases values@.len() - i,
    {
        let ghost pre = values@.take(i as int);
        let ghost post = values@.take(i + 1);
        let ghost ov = out@.map_values(|o: UserAccessOption| option_view(o));
        proof {
            assert(post.drop_last() =~= pre);
            assert(post.last() == values@[i as int]);
        }
        match &values[i].id {
            Some(id) => {
                let mut seen = false;
                let mut j: usize = 0;
                while j < out.len()
                    invariant
                        j <= out@.len(),
                        seen == (exists|k: int| 0 <= k < j && #[trigger] out@[k].id@ == id@),
                    decreases out@.len() - j,
                {
                    let same = crate::strmap::str_eq(out[j].id.as_str(), id.as_str());
                    seen = seen || same;
                    j = j + 1;
                }
                proof {
                    let ids = option_ids(ov);
                    if ids.contains(id@) {
                        let k = choose|k: int| 0 <= k < ids.len() && ids[k] == id@;
                        assert(out@[k].id@ == id@);
                    }
                    if seen {
                        let k = choose|k: int| 0 <= k < out@.len() && #[trigger] out@[k].id@ == id@;
                        assert(ids[k] == id@);
                    }
                }
                if !seen {
                    let name = match &values[i].name {
                        Some(n) => n.clone(),
                        None => id.clone(),
                    };
                    out.push(UserAccessOption { id: id.clone(), name });
                    proof {
                        assert(out@.map_values(|o: UserAccessOption| option_view(o)) =~= ov.push(
                            option_view(out@[out@.len() - 1]),
                        ));
                    }
                }
            },
            None => {},
        }
        i = i + 1;
    }
    proof {
        assert(values@.take(values@.len() as int) =~= values@);
    }
    out
}

/// `o` is one of the options `dv`.
pub open spec fn option_among(o: UserAccessOption, dv: Seq<(Seq<char>, Seq<char>)>) -> bool {
    exists|j: int| 0 <= j < dv.len() && dv[j] == option_view(o)
}

/// The option `d` is listed in `r`.
pub open spec fn listed_in(r: Seq<UserAccessOption>, d: (Seq<char>, Seq<char>)) -> bool {
    exists|k: int| 0 <= k < r.len() && option_view(r[k]) == d
}

/// `r` lists the options `dv`, each once, in the order of their keys, options of equal keys
/// in their order in `dv`.
pub open spec fn options_of(r: Seq<UserAccessOption>, dv: Seq<(Seq<char>, Seq<char>)>) -> bool {
    &&& r.len() == dv.len()
    &&& forall|k: int| 0 <= k < r.len() ==> option_among(#[trigger] r[k], dv)
    &&& forall|j: int| 0 <= j < dv.len() ==> listed_in(r, #[trigger] dv[j])
    &&& forall|a: int, b: int|
        0 <= a < b < r.len() ==> lex_le(option_key(#[trigger] r[a]), option_key(#[trigger] r[b]))
    &&& forall|a: int, b: int|
        0 <= a < b < r.len() && option_key(r[a]) == option_key(r[b]) ==> exists|x: int, y: int|
            0 <= x < y < dv.len() && #[trigger] dv[x] == option_view(#[trigger] r[a]) && #[trigger] dv[y]
                == option_view(#[trigger] r[b])
}

/// What the sorting of options keeps: the first `i` options are placed, each is the option
/// of its distinct source position, all positions below `i` are placed, keys are the options'
/// keys, keys are in order, and equal keys keep the order of their positions.
pub open spec fn placed(
    out: Seq<UserAccessOption>,
    keys: Seq<Seq<char>>,
    idx: Seq<int>,
    dv: Seq<(Seq<char>, Seq<char>)>,
    i: int,
) -> bool {
    &&& out.len() == i
    &&& keys.len() == i
    &&& idx.len() == i
    &&& forall|k: int|
        0 <= k < i ==> 0 <= #[trigger] idx[k] < i && idx[k] < dv.len() && option_view(out[k])
            == dv[idx[k]] && keys[k] == option_key(out[k])
    &&& forall|a: int, b: int| 0 <= a < b < i ==> #[trigger] idx[a] != #[trigger] idx[b]
    &&& forall|j: int| 0 <= j < i ==> #[trigger] idx.contains(j)
    &&& forall|a: int, b: int|
        0 <= a < b < i ==> lex_le(option_key(#[trigger] out[a]), option_key(#[trigger] out[b]))
    &&& forall|a: int, b: int|
        0 <= a < b < i && option_key(out[a]) == option_key(out[b]) ==> #[trigger] idx[a]
            < #[trigger] idx[b]
}

proof fn lemma_place_next(
    out: Seq<UserAccessOption>,
    keys: Seq<Seq<char>>,
    idx: Seq<int>,
    dv: Seq<(Seq<char>, Seq<char>)>,
    i: int,
    p: int,
    item: UserAccessOption,
)
    requires
        placed(out, keys, idx, dv, i),
        0 <= i < dv.len(),
        0 <= p <= i,
        option_view(item) == dv[i],
        forall|k: int| 0 <= k < p ==> lex_le(#[trigger] keys[k], option_key(item)),
        p < i ==> lex_less(option_key(item), keys[p]),
    ensures
        placed(out.insert(p, item), keys.insert(p, option_key(item)), idx.insert(p, i), dv, i + 1),
{
    let key = option_key(item);
    let nout = out.insert(p, item);
    let nkeys = keys.insert(p, key);
    let nidx = idx.insert(p, i);
    assert forall|k: int| 0 <= k < i + 1 implies 0 <= #[trigger] nidx[k] < i + 1 && nidx[k] < dv.len()
        && option_view(nout[k]) == dv[nidx[k]] && nkeys[k] == option_key(nout[k]) by {
        if k < p {
            assert(0 <= idx[k] < i);
        } else if k > p {
            assert(0 <= idx[k - 1] < i);
        }
    }
    assert forall|a: int, b: int| 0 <= a < b < i + 1 implies #[trigger] nidx[a] != #[trigger] nidx[b] by {
        let oa = if a < p { a } else { a - 1 };
        let ob = if b < p { b } else { b - 1 };
        if a != p && b != p {
            assert(nidx[a] == idx[oa] && nidx[b] == idx[ob]);
        } else if a == p {
            assert(0 <= idx[ob] < i);
        } else {
            assert(0 <= idx[oa] < i);
        }
    }
    assert forall|j: int| 0 <= j < i + 1 implies #[trigger] nidx.contains(j) by {
        if j == i {
            assert(nidx[p] == j);
        } else {
            assert(idx.contains(j));
            let k = choose|k: int| 0 <= k < idx.len() && idx[k] == j;
            if k < p {
                assert(nidx[k] == j);
            } else {
                assert(nidx[k + 1] == j);
            }
        }
    }
    assert forall|a: int, b: int| 0 <= a < b < i + 1 implies lex_le(
        option_key(#[trigger] nout[a]),
        option_key(#[trigger] nout[b]),
    ) && (option_key(nout[a]) == option_key(nout[b]) ==> nidx[a] < nidx[b]) by {
        let oa = if a < p { a } else { a - 1 };
        let ob = if b < p { b } else { b - 1 };
        if a != p && b != p {
            assert(nout[a] == out[oa] && nout[b] == out[ob]);
            assert(nidx[a] == idx[oa] && nidx[b] == idx[ob]);
        } else if b == p {
            assert(nout[a] == out[a]);
            assert(0 <= idx[a] < i);
            assert(lex_le(keys[a], key));
        } else {
            assert(nout[b] == out[ob]);
            assert(0 <= idx[p] < i);
            assert(0 <= idx[ob] < i);
            if ob > p {
                assert(lex_le(option_key(out[p]), option_key(out[ob])));
            } else {
                lemma_lex_irreflexive(keys[p]);
            }
            lemma_lex_less_then_le(key, keys[p], keys[ob]);
            lemma_lex_asymmetric(key, keys[ob]);
            lemma_lex_irreflexive(key);
        }
    }
}

/// The access options of folders or devices: one per id, in the order of their names
/// lower-cased (by `str::to_lowercase`, compared as `String`s), options of equal such names
/// in the order of their first source.
pub fn access_options(values: &Vec<OptionSource>) -> (r: Vec<UserAccessOption>)
    ensures
        options_of(r@, deduped_options(values@)),
{
    let ded = dedupe_options(values);
    let ghost dv = deduped_options(values@);
    proof {
        assert forall|j: int| 0 <= j < ded@.len() implies #[trigger] option_view(ded@[j]) == dv[j] by {
            assert(ded@.map_values(|o: UserAccessOption| option_view(o))[j] == option_view(ded@[j]));
        }
    }
    let mut out: Vec<UserAccessOption> = Vec::new();
    let mut keys: Vec<String> = Vec::new();
    let ghost mut idx: Seq<int> = Seq::empty();
    let mut i: usize = 0;
    proof {
        assert(crate::text::string_views(keys@) =~= Seq::<Seq<char>>::empty());
    }
    while i < ded.len()
        invariant
            i <= ded@.len(),
            dv.len() == ded@.len(),
            dv == deduped_options(values@),
            forall|j: int| 0 <= j < ded@.len() ==> #[trigger] option_view(ded@[j]) == dv[j],
            placed(out@, crate::text::string_views(keys@), idx, dv, i as int),
        decreases ded@.len() - i,
    {
        let item = UserAccessOption { id: ded[i].id.clone(), name: ded[i].name.clone() };
        let key = to_lowercase(item.name.as_str());
        let mut p: usize = 0;
        while p < out.len() && !str_less(key.as_str(), keys[p].as_str())
            invariant
                p <= out@.len(),
                out@.len() == keys@.len(),
                forall|k: int| 0 <= k < p ==> lex_le(#[trigger] keys@[k]@, key@),
            decreases out@.len() - p,
        {
            p = p + 1;
        }
        let ghost old_out = out@;
        let ghost old_keys = crate::text::string_views(keys@);
        proof {
            assert(option_view(item) == dv[i as int]);
            assert forall|k: int| 0 <= k < p implies lex_le(#[trigger] old_keys[k], option_key(item)) by {
                assert(old_keys[k] == keys@[k]@);
            }
            if p < out@.len() {
                assert(old_keys[p as int] == keys@[p as int]@);
            }
            lemma_place_next(old_out, old_keys, idx, dv, i as int, p as int, item);
        }
        out.insert(p, item);
        keys.insert(p, key);
        proof {
            idx = idx.insert(p as int, i as int);
            assert(crate::text::string_views(keys@) =~= old_keys.insert(p as int, key@));
        }
        i = i + 1;
    }
    proof {
        assert forall|k: int| 0 <= k < out@.len() implies option_among(#[trigger] out@[k], dv) by {
            assert(0 <= idx[k] < dv.len());
            assert(dv[idx[k]] == option_view(out@[k]));
        }
        assert forall|j: int| 0 <= j < dv.len() implies listed_in(out@, #[trigger] dv[j]) by {
            assert(idx.contains(j));
            let k = choose|k: int| 0 <= k < idx.len() && idx[k] == j;
            assert(0 <= idx[k] < dv.len());
            assert(option_view(out@[k]) == dv[j]);
        }
        assert forall|a: int, b: int|
            0 <= a < b < out@.len() && option_key(out@[a]) == option_key(out@[b]) implies exists|x: int, y: int|
            0 <= x < y < dv.len() && #[trigger] dv[x] == option_view(#[trigger] out@[a]) && #[trigger] dv[y]
                == option_view(#[trigger] out@[b]) by {
            assert(0 <= idx[a] < dv.len());
            assert(0 <= idx[b] < dv.len());
            assert(idx[a] < idx[b]);
        }
    }
    out
}


/// The option sources of the user's sessions, in order.
pub open spec fn user_device_sources(s: Seq<SessionActivity>, user_id: Seq<char>, user_name: Seq<char>) -> Seq<
    OptionSource,
>
    decreases s.len(),
{
    if s.len() == 0 {
        Seq::empty()
    } else {
        let p = user_device_sources(s.drop_last(), user_id, user_name);
        if matches_user_spec(s.last(), user_id, user_name) {
            p.push(OptionSource { id: s.last().option_id, name: s.last().option_name })
        } else {
            p
        }
    }
}

fn clone_text(o: &Option<String>) -> (r: Option<String>)
    ensures
        r == *o,
{
    match o {
        Some(s) => Some(s.clone()),
        None => None,
    }
}

/// The device options of a user: the access options of the user's sessions.
pub fn device_options_for_user(sessions: &Vec<SessionActivity>, user_id: &str, user_name: &str) -> (r: Vec<
    UserAccessOption,
>)
    ensures
        options_of(r@, deduped_options(user_device_sources(sessions@, user_id@, user_name@))),
{
    let mut sources: Vec<OptionSource> = Vec::new();
    let mut i: usize = 0;
    while i < sessions.len()
        invariant
            i <= sessions@.len(),
            sources@ == user_device_sources(sessions@.take(i as int), user_id@, user_name@),
        decreases sessions@.len() - i,
    {
        proof {
            assert(sessions@.take(i + 1).drop_last() =~= sessions@.take(i as int));
            assert(sessions@.take(i + 1).last() == sessions@[i as int]);
        }
        if session_matches_user(&sessions[i], user_id, user_name) {
            sources.push(
                OptionSource {
                    id: clone_text(&sessions[i].option_id),
                    name: clone_text(&sessions[i].option_name),
                },
            );
        }
        i = i + 1;
    }
    proof {
        assert(sessions@.take(sessions@.len() as int) =~= sessions@);
    }
    access_options(&sources)
}

} // verus!
