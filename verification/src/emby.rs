//! Emby session records and how their playback state is described.

use vstd::prelude::*;
use vstd::string::StringExecFns;
use crate::error::AppError;
use crate::ip_location::IpLocation;
use crate::urls::{url_append_pair, url_with_pair_of};
use crate::text::{chars_eq_ignore_case, chars_of, eq_ignore_case, string_of, trim, trimmed};

verus! {

/// One active playback that Emby reports for a server.
#[derive(Debug, Clone)]
pub struct PlaybackSession {
    pub server_id: String,
    pub server_name: String,
    pub id: String,
    pub item_id: String,
    pub series_id: Option<String>,
    pub season_number: Option<i32>,
    pub episode_number: Option<i32>,
    pub item_type: Option<String>,
    pub media_source_id: Option<String>,
    pub device_id: Option<String>,
    pub user_name: String,
    pub client: String,
    pub device_name: String,
    pub user_agent: String,
    pub playback_ip: Option<String>,
    pub ip_location: Option<IpLocation>,
    pub item_name: String,
    pub series_name: Option<String>,
    pub position_ticks: Option<i64>,
    pub runtime_ticks: Option<i64>,
    pub percent: Option<u8>,
    pub play_method: Option<String>,
    pub playback_mode: String,
    pub transcoding: bool,
}

/// Library and server totals of one Emby server.
#[derive(Debug)]
pub struct MediaOverview {
    pub server_id: String,
    pub movie_count: i64,
    pub series_count: i64,
    pub episode_count: i64,
    pub user_count: i64,
    pub server_name: String,
    pub version: String,
    pub operating_system: String,
    pub library_count: i64,
}

/// An Emby user found by name.
#[derive(Debug, Clone)]
pub struct UserLookup {
    pub id: String,
}

/// The playback mode that Emby's play method and transcoding flag describe.
pub open spec fn playback_mode_spec(play_method: Option<Seq<char>>, transcoding: bool) -> Seq<char> {
    if transcoding || (play_method is Some && eq_ignore_case(play_method->0, "Transcode"@)) {
        "transcode"@
    } else {
        match play_method {
            Some(m) => if eq_ignore_case(trim(m), "DirectPlay"@) {
                "emby_direct_play"@
            } else if eq_ignore_case(trim(m), "DirectStream"@) {
                "emby_direct_stream"@
            } else {
                "unknown"@
            },
            None => "unknown"@,
        }
    }
}

pub open spec fn opt_view(s: Option<&str>) -> Option<Seq<char>> {
    match s {
        Some(v) => Some(v@),
        None => None,
    }
}

/// `transcode`, `emby_direct_play`, `emby_direct_stream` or `unknown`.
pub fn emby_playback_mode(play_method: Option<&str>, transcoding: bool) -> (r: &'static str)
    ensures
        r@ == playback_mode_spec(opt_view(play_method), transcoding),
{
    let transcode = chars_of("Transcode");
    if transcoding {
        return "transcode";
    }
    match play_method {
        Some(method) => {
            let m = chars_of(method);
            if chars_eq_ignore_case(&m, &transcode) {
                return "transcode";
            }
            let t = trimmed(method);
            if chars_eq_ignore_case(&t, &chars_of("DirectPlay")) {
                "emby_direct_play"
            } else if chars_eq_ignore_case(&t, &chars_of("DirectStream")) {
                "emby_direct_stream"
            } else {
                "unknown"
            }
        },
        None => "unknown",
    }
}

/// The user agent shown for a session: `client/version`, or `client (device)` without a
/// version, or the client alone.
pub open spec fn session_user_agent_spec(
    client: Option<Seq<char>>,
    version: Option<Seq<char>>,
    device_id: Option<Seq<char>>,
) -> Seq<char> {
    let c = trim(
        match client {
            Some(v) => v,
            None => "Unknown"@,
        },
    );
    let v = trim(
        match version {
            Some(v) => v,
            None => Seq::empty(),
        },
    );
    let d = trim(
        match device_id {
            Some(v) => v,
            None => Seq::empty(),
        },
    );
    if v.len() > 0 {
        c + "/"@ + v
    } else if d.len() > 0 {
        c + " ("@ + d + ")"@
    } else {
        c
    }
}

fn trimmed_or(value: Option<&str>, fallback: &str) -> (r: Vec<char>)
    ensures
        r@ == trim(
            match opt_view(value) {
                Some(v) => v,
                None => fallback@,
            },
        ),
{
    match value {
        Some(v) => trimmed(v),
        None => trimmed(fallback),
    }
}

fn append_chars(out: &mut Vec<char>, tail: &Vec<char>)
    ensures
        final(out)@ == old(out)@ + tail@,
{
    let ghost start = out@;
    let mut i: usize = 0;
    while i < tail.len()
        invariant
            i <= tail@.len(),
            out@ == start + tail@.take(i as int),
        decreases tail@.len() - i,
    {
        out.push(tail[i]);
        i = i + 1;
        assert(out@ =~= start + tail@.take(i as int));
    }
    assert(tail@.take(tail@.len() as int) =~= tail@);
}

pub fn session_user_agent(
    client: Option<&str>,
    application_version: Option<&str>,
    device_id: Option<&str>,
) -> (r: String)
    ensures
        r@ == session_user_agent_spec(
            opt_view(client),
            opt_view(application_version),
            opt_view(device_id),
        ),
{
    let mut c = trimmed_or(client, "Unknown");
    let v = match application_version {
        Some(x) => trimmed(x),
        None => Vec::new(),
    };
    let d = match device_id {
        Some(x) => trimmed(x),
        None => Vec::new(),
    };
    proof {
        assert(trim(Seq::<char>::empty()) =~= Seq::<char>::empty());
    }
    if v.len() > 0 {
        append_chars(&mut c, &chars_of("/"));
        append_chars(&mut c, &v);
    } else if d.len() > 0 {
        append_chars(&mut c, &chars_of(" ("));
        append_chars(&mut c, &d);
        append_chars(&mut c, &chars_of(")"));
    }
    string_of(&c)
}


/// An Emby API address: the path and query joined to the Emby host, with the API key
/// appended as the `api_key` query pair. Either step's failure is a URL error.
pub fn emby_api_url(config: &crate::config::Config, path: &str) -> (r: Result<String, AppError>)
    ensures
        match crate::config::joined_url_spec(config.emby_host@, path@) {
            Err(e) => (r matches Err(AppError::Url(m)) && m@ == e),
            Ok(u) => match url_with_pair_of(u, "api_key"@, config.emby_api_key@) {
                Ok(v) => (r matches Ok(s) && s@ == v),
                Err(e) => (r matches Err(AppError::Url(m)) && m@ == e),
            },
        },
{
    match config.emby_url(path) {
        Err(e) => Err(AppError::Url(e)),
        Ok(u) => match url_append_pair(u.as_str(), "api_key", config.emby_api_key.as_str()) {
            Ok(v) => Ok(v),
            Err(e) => Err(AppError::Url(e)),
        },
    }
}

/// The Emby user whose `Name` (trimmed) equals `user_name` but for ASCII case, with its
/// trimmed `Id`, which must not be empty. `name` and `id` are the user record's `Name` and
/// `Id` where they are strings.
pub fn user_lookup_from_value(name: Option<&str>, id: Option<&str>, user_name: &str) -> (r: Option<
    UserLookup,
>)
    ensures
        r is Some <==> (name is Some && eq_ignore_case(trim(name->0@), user_name@) && id is Some
            && trim(id->0@).len() > 0),
        r matches Some(u) ==> u.id@ == trim(id->0@),
{
    match name {
        None => None,
        Some(n) => {
            let t = trimmed(n);
            if !chars_eq_ignore_case(&t, &chars_of(user_name)) {
                return None;
            }
            match id {
                None => None,
                Some(i) => {
                    let ti = trimmed(i);
                    if ti.len() == 0 {
                        None
                    } else {
                        Some(UserLookup { id: string_of(&ti) })
                    }
                },
            }
        },
    }
}

/// What Emby reports of one session, as the library reads it. `playback_ip` is the address
/// read from the session's remote endpoint and `percent` the share of the item played; both
/// are worked out where the report is read.
#[derive(Debug)]
pub struct SessionReport {
    pub id: Option<String>,
    pub user_name: Option<String>,
    pub client: Option<String>,
    pub device_name: Option<String>,
    pub device_id: Option<String>,
    pub application_version: Option<String>,
    pub playback_ip: Option<String>,
    pub now_playing: Option<NowPlaying>,
    pub position_ticks: Option<i64>,
    pub play_method: Option<String>,
    pub media_source_id: Option<String>,
    pub has_transcoding_info: bool,
    pub percent: Option<u8>,
}

/// The item a session plays.
#[derive(Debug)]
pub struct NowPlaying {
    pub id: Option<String>,
    pub series_id: Option<String>,
    pub name: Option<String>,
    pub series_name: Option<String>,
    pub season_number: Option<i32>,
    pub episode_number: Option<i32>,
    pub item_type: Option<String>,
    pub runtime_ticks: Option<i64>,
}

/// The text, or `fallback` without one.
pub open spec fn text_or(o: Option<String>, fallback: Seq<char>) -> Seq<char> {
    match o {
        Some(s) => s@,
        None => fallback,
    }
}

/// A session is transcoding when Emby reports transcoding details or the play method is
/// `Transcode` (ASCII case ignored).
pub open spec fn transcoding_spec(report: SessionReport) -> bool {
    report.has_transcoding_info || (report.play_method is Some && eq_ignore_case(
        report.play_method->0@,
        "Transcode"@,
    ))
}

/// `s` is the playback session that `report` describes on the server `server_id`,
/// `server_name`, with `item` the item it plays.
pub open spec fn session_from_spec(
    s: PlaybackSession,
    report: SessionReport,
    item: NowPlaying,
    server_id: Seq<char>,
    server_name: Seq<char>,
) -> bool {
    &&& s.server_id@ == server_id
    &&& s.server_name@ == server_name
    &&& s.id@ == text_or(report.id, Seq::empty())
    &&& s.item_id@ == text_or(item.id, Seq::empty())
    &&& s.series_id == item.series_id
    &&& s.season_number == item.season_number
    &&& s.episode_number == item.episode_number
    &&& s.item_type == item.item_type
    &&& s.media_source_id == report.media_source_id
    &&& s.device_id == report.device_id
    &&& s.user_name@ == text_or(report.user_name, "Unknown"@)
    &&& s.client@ == text_or(report.client, "Unknown"@)
    &&& s.device_name@ == text_or(report.device_name, "Unknown"@)
    &&& s.user_agent@ == session_user_agent_spec(
        crate::text::opt_string_view(report.client),
        crate::text::opt_string_view(report.application_version),
        crate::text::opt_string_view(report.device_id),
    )
    &&& s.playback_ip == report.playback_ip
    &&& s.ip_location is None
    &&& s.item_name@ == text_or(item.name, "Unknown"@)
    &&& s.series_name == item.series_name
    &&& s.position_ticks == report.position_ticks
    &&& s.runtime_ticks == item.runtime_ticks
    &&& s.percent == report.percent
    &&& s.play_method == report.play_method
    &&& s.transcoding == transcoding_spec(report)
    &&& s.playback_mode@ == playback_mode_spec(
        crate::text::opt_string_view(report.play_method),
        transcoding_spec(report),
    )
}

fn text_or_exec(o: &Option<String>, fallback: &str) -> (r: String)
    ensures
        r@ == text_or(*o, fallback@),
{
    match o {
        Some(s) => s.clone(),
        None => String::from_str(fallback),
    }
}

fn opt_as_str(o: &Option<String>) -> (r: Option<&str>)
    ensures
        opt_view(r) == crate::text::opt_string_view(*o),
{
    match o {
        Some(s) => Some(s.as_str()),
        None => None,
    }
}

fn clone_opt<T: Copy>(o: &Option<T>) -> (r: Option<T>)
    ensures
        r == *o,
{
    match o {
        Some(v) => Some(*v),
        None => None,
    }
}

fn clone_text(o: &Option<String>) -> (r: Option<String>)
    ensures
        r == *o,
{
    match o {
        Some(s) => Some(s.clone()),
        None => None,
    }
}

/// The playback session of one report, none when the session plays nothing.
pub fn playback_session_from(report: &SessionReport, server_id: &String, server_name: &String) -> (r:
    Option<PlaybackSession>)
    ensures
        r is Some <==> report.now_playing is Some,
        r matches Some(s) ==> session_from_spec(
            s,
            *report,
            report.now_playing->0,
            server_id@,
            server_name@,
        ),
{
    proof {
        reveal_strlit("");
        assert(""@ =~= Seq::<char>::empty());
    }
    match &report.now_playing {
        None => None,
        Some(item) => {
            let method = opt_as_str(&report.play_method);
            let by_method = match method {
                Some(m) => chars_eq_ignore_case(&chars_of(m), &chars_of("Transcode")),
                None => false,
            };
            let transcoding = report.has_transcoding_info || by_method;
            let mode = emby_playback_mode(method, transcoding);
            Some(
                PlaybackSession {
                    server_id: server_id.clone(),
                    server_name: server_name.clone(),
                    id: text_or_exec(&report.id, ""),
                    item_id: text_or_exec(&item.id, ""),
                    series_id: clone_text(&item.series_id),
                    season_number: clone_opt(&item.season_number),
                    episode_number: clone_opt(&item.episode_number),
                    item_type: clone_text(&item.item_type),
                    media_source_id: clone_text(&report.media_source_id),
                    device_id: clone_text(&report.device_id),
                    user_name: text_or_exec(&report.user_name, "Unknown"),
                    client: text_or_exec(&report.client, "Unknown"),
                    device_name: text_or_exec(&report.device_name, "Unknown"),
                    user_agent: session_user_agent(
                        opt_as_str(&report.client),
                        opt_as_str(&report.application_version),
                        opt_as_str(&report.device_id),
                    ),
                    playback_ip: clone_text(&report.playback_ip),
                    ip_location: None,
                    item_name: text_or_exec(&item.name, "Unknown"),
                    series_name: clone_text(&item.series_name),
                    position_ticks: clone_opt(&report.position_ticks),
                    runtime_ticks: clone_opt(&item.runtime_ticks),
                    percent: clone_opt(&report.percent),
                    play_method: clone_text(&report.play_method),
                    playback_mode: String::from_str(mode),
                    transcoding,
                },
            )
        },
    }
}

/// The positions of the reports whose session plays something, in order.
pub open spec fn playing_indices(reports: Seq<SessionReport>) -> Seq<int>
    decreases reports.len(),
{
    if reports.len() == 0 {
        Seq::empty()
    } else {
        let p = playing_indices(reports.drop_last());
        if reports.last().now_playing is Some {
            p.push(reports.len() - 1)
        } else {
            p
        }
    }
}

proof fn lemma_playing_indices(reports: Seq<SessionReport>)
    ensures
        forall|k: int|
            0 <= k < playing_indices(reports).len() ==> 0 <= #[trigger] playing_indices(reports)[k]
                < reports.len() && reports[playing_indices(reports)[k]].now_playing is Some,
    decreases reports.len(),
{
    if reports.len() > 0 {
        lemma_playing_indices(reports.drop_last());
    }
}

/// The sessions that play something, in the order Emby reported them, labelled with the
/// configuration's first server (see [`crate::gateway::config_server_label`]).
pub fn playback_sessions(config: &crate::config::Config, reports: &Vec<SessionReport>) -> (r: Vec<
    PlaybackSession,
>)
    ensures
        r@.len() == playing_indices(reports@).len(),
        forall|k: int|
            0 <= k < r@.len() ==> 0 <= #[trigger] playing_indices(reports@)[k] < reports@.len()
                && session_from_spec(
                r@[k],
                reports@[playing_indices(reports@)[k]],
                reports@[playing_indices(reports@)[k]].now_playing->0,
                crate::gateway::first_server_id(*config),
                label_name(*config),
            ),
{
    let (server_id, server_name) = crate::gateway::config_server_label(config);
    let mut out: Vec<PlaybackSession> = Vec::new();
    let mut i: usize = 0;
    while i < reports.len()
        invariant
            i <= reports@.len(),
            server_id@ == crate::gateway::first_server_id(*config),
            server_name@ == label_name(*config),
            out@.len() == playing_indices(reports@.take(i as int)).len(),
            forall|k: int|
                0 <= k < out@.len() ==> 0 <= #[trigger] playing_indices(reports@.take(i as int))[k]
                    < i && session_from_spec(
                    out@[k],
                    reports@[playing_indices(reports@.take(i as int))[k]],
                    reports@[playing_indices(reports@.take(i as int))[k]].now_playing->0,
                    crate::gateway::first_server_id(*config),
                    label_name(*config),
                ),
        decreases reports@.len() - i,
    {
        let ghost pre = reports@.take(i as int);
        let ghost post = reports@.take(i + 1);
        proof {
            assert(post.drop_last() =~= pre);
            assert(post.last() == reports@[i as int]);
        }
        match playback_session_from(&reports[i], &server_id, &server_name) {
            Some(s) => {
                out.push(s);
                proof {
                    assert(playing_indices(post) == playing_indices(pre).push(i as int));
                    assert forall|k: int| 0 <= k < out@.len() implies 0 <= #[trigger] playing_indices(
                        post,
                    )[k] < i + 1 && session_from_spec(
                        out@[k],
                        reports@[playing_indices(post)[k]],
                        reports@[playing_indices(post)[k]].now_playing->0,
                        crate::gateway::first_server_id(*config),
                        label_name(*config),
                    ) by {
                        if k < out@.len() - 1 {
                            assert(playing_indices(post)[k] == playing_indices(pre)[k]);
                        }
                    }
                }
            },
            None => {
                proof {
                    assert(playing_indices(post) == playing_indices(pre));
                }
            },
        }
        i = i + 1;
    }
    proof {
        assert(reports@.take(reports@.len() as int) =~= reports@);
    }
    out
}

/// The server name the sessions are labelled with: the first server's, else the default.
pub open spec fn label_name(config: crate::config::Config) -> Seq<char> {
    if config.servers@.len() > 0 {
        config.servers@[0].name@
    } else {
        "默认服务器"@
    }
}


/// A user name as Emby returns it: trimmed, none when empty.
pub open spec fn clean_name_spec(name: Option<Seq<char>>) -> Option<Seq<char>> {
    match name {
        Some(n) => if trim(n).len() > 0 {
            Some(trim(n))
        } else {
            None
        },
        None => None,
    }
}

/// A user name as Emby returns it: trimmed, none when empty.
pub fn clean_user_name(name: Option<&str>) -> (r: Option<String>)
    ensures
        crate::text::opt_string_view(r) == clean_name_spec(opt_view(name)),
{
    match name {
        Some(n) => {
            let t = trimmed(n);
            if t.len() > 0 {
                Some(string_of(&t))
            } else {
                None
            }
        },
        None => None,
    }
}

/// The position of the first report of the device `device_id`, if any.
pub open spec fn first_of_device(reports: Seq<SessionReport>, device_id: Seq<char>, i: int) -> Option<int>
    decreases reports.len() - i,
{
    if i < 0 || i >= reports.len() {
        None
    } else if reports[i].device_id is Some && reports[i].device_id->0@ == device_id {
        Some(i)
    } else {
        first_of_device(reports, device_id, i + 1)
    }
}

/// The user of a device, from Emby's sessions: the user name (cleaned) of the first session
/// of the trimmed device id; none for a blank device id.
pub fn user_name_of_device(reports: &Vec<SessionReport>, device_id: &str) -> (r: Option<String>)
    ensures
        trim(device_id@).len() == 0 ==> r is None,
        trim(device_id@).len() > 0 ==> crate::text::opt_string_view(r) == match first_of_device(
            reports@,
            trim(device_id@),
            0,
        ) {
            Some(k) => clean_name_spec(crate::text::opt_string_view(reports@[k].user_name)),
            None => None,
        },
{
    let t = trimmed(device_id);
    if t.len() == 0 {
        return None;
    }
    let id = string_of(&t);
    let mut i: usize = 0;
    while i < reports.len()
        invariant
            i <= reports@.len(),
            id@ == trim(device_id@),
            trim(device_id@).len() > 0,
            first_of_device(reports@, id@, 0) == first_of_device(reports@, id@, i as int),
        decreases reports@.len() - i,
    {
        let found = match &reports[i].device_id {
            Some(d) => crate::strmap::str_eq(d.as_str(), id.as_str()),
            None => false,
        };
        if found {
            return clean_user_name(opt_as_str(&reports[i].user_name));
        }
        i = i + 1;
    }
    None
}

/// The first user found by name among Emby's user records, each given as its `Name` and
/// `Id` where they are strings (see [`user_lookup_from_value`]); none for a blank name.
pub open spec fn find_user_spec(users: Seq<(Option<String>, Option<String>)>, user_name: Seq<char>, i: int) -> Option<
    Seq<char>,
>
    decreases users.len() - i,
{
    if i < 0 || i >= users.len() {
        None
    } else {
        let (name, id) = users[i];
        if name is Some && eq_ignore_case(trim(name->0@), user_name) && id is Some && trim(
            id->0@,
        ).len() > 0 {
            Some(trim(id->0@))
        } else {
            find_user_spec(users, user_name, i + 1)
        }
    }
}

/// The Emby user of a name (trimmed, ASCII case ignored) among the user records.
pub fn find_user_by_name(users: &Vec<(Option<String>, Option<String>)>, user_name: &str) -> (r: Option<
    UserLookup,
>)
    ensures
        trim(user_name@).len() == 0 ==> r is None,
        trim(user_name@).len() > 0 ==> match find_user_spec(users@, trim(user_name@), 0) {
            Some(id) => (r matches Some(u) && u.id@ == id),
            None => r is None,
        },
{
    let t = trimmed(user_name);
    if t.len() == 0 {
        return None;
    }
    let name = string_of(&t);
    let mut i: usize = 0;
    while i < users.len()
        invariant
            i <= users@.len(),
            name@ == trim(user_name@),
            trim(user_name@).len() > 0,
            find_user_spec(users@, name@, 0) == find_user_spec(users@, name@, i as int),
        decreases users@.len() - i,
    {
        let found = user_lookup_from_value(
            opt_as_str(&users[i].0),
            opt_as_str(&users[i].1),
            name.as_str(),
        );
        if found.is_some() {
            return found;
        }
        i = i + 1;
    }
    None
}

} // verus!
