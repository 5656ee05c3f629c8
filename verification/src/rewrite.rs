//! Which proxied requests are rewritten, and the item a path names.

use vstd::prelude::*;
use vstd::string::StringExecFns;
use crate::text::{
    chars_eq_str, chars_of, contains, contains_chars, ends_with, ends_with_chars, eq_ignore_case,
    lower, lower_chars, split_char, split_chars, string_of, views,
};

use crate::text::opt_str_view;
use crate::url_mapping::{regex_error, regex_error_of, regex_replace_all, regex_replaced};
use crate::urls::{form_encode, form_encoded_of, form_pairs, form_pairs_of, pair_views};

verus! {

/// The web player script, whose cross-origin setting is rewritten.
pub fn is_base_html_player(path: &str) -> (r: bool)
    ensures
        r == ends_with(path@, "/basehtmlplayer.js"@),
{
    let p = chars_of(path);
    let s = chars_of("/basehtmlplayer.js");
    ends_with_chars(&p, &s)
}

/// The server information endpoint, ignoring ASCII case.
pub fn is_system_info(path: &str) -> (r: bool)
    ensures
        r == ends_with(lower(path@), "/system/info"@),
{
    let p = chars_of(path);
    let l = lower_chars(&p);
    let s = chars_of("/system/info");
    ends_with_chars(&l, &s)
}

/// An item's playback information, ignoring ASCII case.
pub fn is_playback_info(path: &str) -> (r: bool)
    ensures
        r == (ends_with(lower(path@), "/playbackinfo"@) && contains(lower(path@), "/items/"@)),
{
    let p = chars_of(path);
    let l = lower_chars(&p);
    let s = chars_of("/playbackinfo");
    let i = chars_of("/items/");
    ends_with_chars(&l, &s) && contains_chars(&l, &i)
}

/// A video stream, ignoring ASCII case.
pub fn is_video_stream(path: &str) -> (r: bool)
    ensures
        r == (contains(lower(path@), "/videos/"@) && (contains(lower(path@), "/stream"@) || contains(
            lower(path@),
            "/original"@,
        ))),
{
    let p = chars_of(path);
    let l = lower_chars(&p);
    let v = chars_of("/videos/");
    let s = chars_of("/stream");
    let o = chars_of("/original");
    contains_chars(&l, &v) && (contains_chars(&l, &s) || contains_chars(&l, &o))
}

/// The non-empty pieces, in order.
pub open spec fn nonempty_segments(s: Seq<Seq<char>>) -> Seq<Seq<char>>
    decreases s.len(),
{
    if s.len() == 0 {
        Seq::empty()
    } else {
        let a = nonempty_segments(s.drop_last());
        if s.last().len() > 0 {
            a.push(s.last())
        } else {
            a
        }
    }
}

/// A segment that announces an item: `videos` or `items`, ignoring ASCII case.
pub open spec fn item_marker(seg: Seq<char>) -> bool {
    eq_ignore_case(seg, "videos"@) || eq_ignore_case(seg, "items"@)
}

/// The segment after the first item marker, from position `i` on.
pub open spec fn segment_after_marker(segs: Seq<Seq<char>>, i: int) -> Option<Seq<char>>
    decreases segs.len() - i,
{
    if i < 0 || i >= segs.len() {
        None
    } else if item_marker(segs[i]) {
        if i + 1 < segs.len() {
            Some(segs[i + 1])
        } else {
            None
        }
    } else {
        segment_after_marker(segs, i + 1)
    }
}

/// The item a path names: the non-empty segment after the first `videos` or `items` segment.
pub open spec fn item_id_spec(path: Seq<char>) -> Option<Seq<char>> {
    segment_after_marker(nonempty_segments(split_char(path, '/')), 0)
}

fn nonempty_pieces(pieces: Vec<Vec<char>>) -> (r: Vec<Vec<char>>)
    ensures
        views(r@) == nonempty_segments(views(pieces@)),
{
    let ghost input = views(pieces@);
    let mut rest = pieces;
    let mut kept: Vec<Vec<char>> = Vec::new();
    let n = rest.len();
    let mut i: usize = 0;
    assert(input.take(0) =~= Seq::<Seq<char>>::empty());
    while rest.len() > 0
        invariant
            n == input.len(),
            i + rest@.len() == n,
            views(rest@) == input.skip(i as int),
            views(kept@) == nonempty_segments(input.take(i as int)),
        decreases rest@.len(),
    {
        let ghost before = rest@;
        let piece = rest.remove(0);
        assert(views(rest@) =~= input.skip(i + 1)) by {
            assert forall|k: int| 0 <= k < rest@.len() implies #[trigger] views(rest@)[k]
                == input.skip(i + 1)[k] by {
                assert(views(before)[k + 1] == input.skip(i as int)[k + 1]);
            }
        }
        assert(views(before)[0] == input.skip(i as int)[0]);
        assert(input.take(i + 1).drop_last() =~= input.take(i as int));
        let ghost k0 = views(kept@);
        if piece.len() > 0 {
            kept.push(piece);
            assert(views(kept@) =~= k0.push(input[i as int]));
        }
        i = i + 1;
    }
    assert(input.take(n as int) =~= input);
    kept
}

/// The item a path names (see [`item_id_spec`]): `/videos/abc/stream` names `abc`.
pub fn parse_item_id(path: &str) -> (r: Option<String>)
    ensures
        match r {
            Some(s) => item_id_spec(path@) == Some(s@),
            None => item_id_spec(path@) is None,
        },
{
    let p = chars_of(path);
    let pieces = split_chars(&p, '/');
    let segs = nonempty_pieces(pieces);
    let ghost sv = views(segs@);
    let videos = chars_of("videos");
    let items = chars_of("items");
    let mut i: usize = 0;
    while i < segs.len()
        invariant
            i <= segs@.len(),
            sv == views(segs@),
            sv == nonempty_segments(split_char(path@, '/')),
            videos@ == "videos"@,
            items@ == "items"@,
            segment_after_marker(sv, 0) == segment_after_marker(sv, i as int),
        decreases segs@.len() - i,
    {
        assert(sv[i as int] == segs@[i as int]@);
        if crate::text::chars_eq_ignore_case(&segs[i], &videos) || crate::text::chars_eq_ignore_case(
            &segs[i],
            &items,
        ) {
            if i + 1 < segs.len() {
                assert(sv[i + 1] == segs@[i + 1]@);
                return Some(string_of(&segs[i + 1]));
            } else {
                return None;
            }
        }
        i = i + 1;
    }
    None
}

/// The label of a media source: its identifier, or `default`.
pub fn source_label(media_source_id: Option<&str>) -> (r: &str)
    ensures
        r@ == match media_source_id {
            Some(s) => s@,
            None => "default"@,
        },
{
    match media_source_id {
        Some(s) => s,
        None => "default",
    }
}


/// The pattern of the web player's cross-origin setting for remote sources.
pub const BASE_HTML_PLAYER_PATTERN: &'static str = "mediaSource\\.IsRemote\\s*&&\\s*\"DirectPlay\"\\s*===\\s*playMethod\\s*\\?\\s*null\\s*:\\s*\"anonymous\"";

/// The web player script with every cross-origin setting for remote sources replaced by
/// `null`, so that players load redirected media without CORS. (The pattern is fixed and
/// compiles; should it not, the script is left as it is.)
pub fn patch_base_html_player(body: &str) -> (r: String)
    ensures
        regex_error_of(BASE_HTML_PLAYER_PATTERN@) is None ==> r@ == regex_replaced(
            BASE_HTML_PLAYER_PATTERN@,
            body@,
            "null"@,
        ),
        regex_error_of(BASE_HTML_PLAYER_PATTERN@) is Some ==> r@ == body@,
{
    match regex_error(BASE_HTML_PLAYER_PATTERN) {
        None => regex_replace_all(BASE_HTML_PLAYER_PATTERN, body, "null"),
        Some(_) => String::from_str(body),
    }
}

/// A `.strm` media source: remote and not an infinite stream, a missing flag read as false.
pub open spec fn strm_source_spec(is_remote: Option<bool>, is_infinite_stream: Option<bool>) -> bool {
    is_remote == Some(true) && is_infinite_stream != Some(true)
}

/// Whether a media source is a `.strm` source, from its `IsRemote` and `IsInfiniteStream`
/// flags where they are booleans.
pub fn is_strm_media_source(is_remote: Option<bool>, is_infinite_stream: Option<bool>) -> (r: bool)
    ensures
        r == strm_source_spec(is_remote, is_infinite_stream),
{
    let remote = match is_remote {
        Some(b) => b,
        None => false,
    };
    let infinite = match is_infinite_stream {
        Some(b) => b,
        None => false,
    };
    remote && !infinite
}

/// The query pairs a direct stream URL keeps: all but `MediaSourceId` and `Static` (names
/// compared ignoring ASCII case), in order.
pub open spec fn kept_stream_pairs(ps: Seq<(Seq<char>, Seq<char>)>) -> Seq<(Seq<char>, Seq<char>)>
    decreases ps.len(),
{
    if ps.len() == 0 {
        Seq::empty()
    } else {
        let k = kept_stream_pairs(ps.drop_last());
        let p = ps.last();
        if !eq_ignore_case(p.0, "MediaSourceId"@) && !eq_ignore_case(p.0, "Static"@) {
            k.push(p)
        } else {
            k
        }
    }
}

/// Some pair is named `name`, ignoring ASCII case.
pub open spec fn has_pair_named(ps: Seq<(Seq<char>, Seq<char>)>, name: Seq<char>) -> bool {
    exists|i: int| 0 <= i < ps.len() && eq_ignore_case(#[trigger] ps[i].0, name)
}

/// The query pairs of a direct stream URL: the kept pairs of the request's query, the
/// source, `Static=true`, and an empty `api_key` when the query has neither `api_key` nor
/// `X-Emby-Token`.
pub open spec fn direct_stream_pairs(ps: Seq<(Seq<char>, Seq<char>)>, source_id: Seq<char>) -> Seq<
    (Seq<char>, Seq<char>),
> {
    let base = kept_stream_pairs(ps) + seq![("MediaSourceId"@, source_id), ("Static"@, "true"@)];
    if !has_pair_named(ps, "api_key"@) && !has_pair_named(ps, "X-Emby-Token"@) {
        base.push(("api_key"@, Seq::empty()))
    } else {
        base
    }
}

/// The direct stream URL of a source: `/videos/{item}/stream?` and the form-encoded pairs.
pub open spec fn direct_stream_url_spec(item_id: Seq<char>, source_id: Seq<char>, query: Option<Seq<char>>) -> Seq<
    char,
> {
    let ps = match query {
        Some(q) => form_pairs_of(q),
        None => Seq::empty(),
    };
    "/videos/"@ + item_id + "/stream?"@ + form_encoded_of(direct_stream_pairs(ps, source_id))
}

fn owned_pair(a: &str, b: &str) -> (r: (String, String))
    ensures
        r.0@ == a@,
        r.1@ == b@,
{
    (String::from_str(a), String::from_str(b))
}

/// The direct stream URL of a source (see [`direct_stream_url_spec`]).
pub fn build_direct_stream_url(item_id: &str, source_id: &str, query: Option<&str>) -> (r: String)
    ensures
        r@ == direct_stream_url_spec(item_id@, source_id@, opt_str_view(query)),
{
    proof {
        reveal_strlit("");
    }
    let pairs: Vec<(String, String)> = match query {
        Some(q) => form_pairs(q),
        None => Vec::new(),
    };
    let ghost ps = match opt_str_view(query) {
        Some(q) => form_pairs_of(q),
        None => Seq::<(Seq<char>, Seq<char>)>::empty(),
    };
    assert(pair_views(pairs@) == ps);
    let mut kept: Vec<(String, String)> = Vec::new();
    let mut has_api_key = false;
    let mut has_token = false;
    let api_key = chars_of("api_key");
    let token = chars_of("X-Emby-Token");
    let source_key = chars_of("MediaSourceId");
    let static_key = chars_of("Static");
    let mut i: usize = 0;
    while i < pairs.len()
        invariant
            i <= pairs@.len(),
            pair_views(pairs@) == ps,
            api_key@ == "api_key"@,
            token@ == "X-Emby-Token"@,
            source_key@ == "MediaSourceId"@,
            static_key@ == "Static"@,
            pair_views(kept@) == kept_stream_pairs(ps.take(i as int)),
            has_api_key == has_pair_named(ps.take(i as int), "api_key"@),
            has_token == has_pair_named(ps.take(i as int), "X-Emby-Token"@),
        decreases pairs@.len() - i,
    {
        let ghost pre = ps.take(i as int);
        let ghost post = ps.take(i + 1);
        proof {
            assert(post.drop_last() =~= pre);
            assert(post.last() == ps[i as int]);
            assert(ps[i as int] == (pairs@[i as int].0@, pairs@[i as int].1@));
        }
        let key = chars_of(pairs[i].0.as_str());
        let is_api_key = crate::text::chars_eq_ignore_case(&key, &api_key);
        let is_token = crate::text::chars_eq_ignore_case(&key, &token);
        proof {
            if has_pair_named(post, "api_key"@) && !has_pair_named(pre, "api_key"@) {
                let j = choose|j: int| 0 <= j < post.len() && eq_ignore_case(#[trigger] post[j].0, "api_key"@);
                if j < i {
                    assert(pre[j] == post[j]);
                }
            }
            if has_pair_named(pre, "api_key"@) {
                let j = choose|j: int| 0 <= j < pre.len() && eq_ignore_case(#[trigger] pre[j].0, "api_key"@);
                assert(post[j] == pre[j]);
            }
            if is_api_key {
                assert(eq_ignore_case(post[i as int].0, "api_key"@));
            }
            if has_pair_named(post, "X-Emby-Token"@) && !has_pair_named(pre, "X-Emby-Token"@) {
                let j = choose|j: int| 0 <= j < post.len() && eq_ignore_case(#[trigger] post[j].0, "X-Emby-Token"@);
                if j < i {
                    assert(pre[j] == post[j]);
                }
            }
            if has_pair_named(pre, "X-Emby-Token"@) {
                let j = choose|j: int| 0 <= j < pre.len() && eq_ignore_case(#[trigger] pre[j].0, "X-Emby-Token"@);
                assert(post[j] == pre[j]);
            }
            if is_token {
                assert(eq_ignore_case(post[i as int].0, "X-Emby-Token"@));
            }
        }
        if is_api_key {
            has_api_key = true;
        }
        if is_token {
            has_token = true;
        }
        if !crate::text::chars_eq_ignore_case(&key, &source_key)
            && !crate::text::chars_eq_ignore_case(&key, &static_key) {
            let ghost before = kept@;
            kept.push((pairs[i].0.clone(), pairs[i].1.clone()));
            proof {
                assert(pair_views(kept@) =~= pair_views(before).push(ps[i as int]));
            }
        }
        i = i + 1;
    }
    proof {
        assert(ps.take(pairs@.len() as int) =~= ps);
    }
    let ghost kept_view = pair_views(kept@);
    kept.push(owned_pair("MediaSourceId", source_id));
    kept.push(owned_pair("Static", "true"));
    if !has_api_key && !has_token {
        kept.push(owned_pair("api_key", ""));
    }
    proof {
        assert(""@ =~= Seq::<char>::empty());
        assert(pair_views(kept@) =~= direct_stream_pairs(ps, source_id@));
    }
    let encoded = form_encode(&kept);
    let mut url = String::from_str("/videos/");
    url.append(item_id);
    url.append("/stream?");
    url.append(encoded.as_str());
    url
}

/// What a `.strm` media source of playback information is rewritten to: direct play and
/// direct stream supported, transcoding not, the transcoding fields removed, and, when the
/// source has an id, a direct stream URL through the proxy.
#[derive(Debug)]
pub struct SourcePatch {
    pub supports_direct_play: bool,
    pub supports_direct_stream: bool,
    pub supports_transcoding: bool,
    pub direct_stream_url: Option<String>,
}

/// A media source of playback information as the rewrite reads it: its `Id` where it is a
/// string and its `IsRemote` and `IsInfiniteStream` flags where they are booleans.
#[derive(Debug)]
pub struct MediaSourceFields {
    pub id: Option<String>,
    pub is_remote: Option<bool>,
    pub is_infinite_stream: Option<bool>,
}

/// The patch of each media source of a playback information answer for the request path
/// and query, in order: none when the path names no item or the source is not a `.strm`
/// source.
pub fn patch_playback_info(sources: &Vec<MediaSourceFields>, path: &str, query: Option<&str>) -> (r:
    Vec<Option<SourcePatch>>)
    ensures
        r@.len() == sources@.len(),
        forall|k: int|
            0 <= k < r@.len() ==> {
                let src = #[trigger] sources@[k];
                if item_id_spec(path@) is None || !strm_source_spec(src.is_remote, src.is_infinite_stream) {
                    r@[k] is None
                } else {
                    &&& r@[k] is Some
                    &&& r@[k]->0.supports_direct_play
                    &&& r@[k]->0.supports_direct_stream
                    &&& !r@[k]->0.supports_transcoding
                    &&& match src.id {
                        Some(id) => (r@[k]->0.direct_stream_url matches Some(u) && u@ == direct_stream_url_spec(
                            item_id_spec(path@)->0,
                            id@,
                            opt_str_view(query),
                        )),
                        None => r@[k]->0.direct_stream_url is None,
                    }
                }
            },
{
    let item = parse_item_id(path);
    let mut out: Vec<Option<SourcePatch>> = Vec::new();
    let mut i: usize = 0;
    while i < sources.len()
        invariant
            i <= sources@.len(),
            out@.len() == i,
            match item {
                Some(s) => item_id_spec(path@) == Some(s@),
                None => item_id_spec(path@) is None,
            },
            forall|k: int|
                0 <= k < i ==> {
                    let src = #[trigger] sources@[k];
                    if item_id_spec(path@) is None || !strm_source_spec(src.is_remote, src.is_infinite_stream) {
                        out@[k] is None
                    } else {
                        &&& out@[k] is Some
                        &&& out@[k]->0.supports_direct_play
                        &&& out@[k]->0.supports_direct_stream
                        &&& !out@[k]->0.supports_transcoding
                        &&& match src.id {
                            Some(id) => (out@[k]->0.direct_stream_url matches Some(u) && u@
                                == direct_stream_url_spec(item_id_spec(path@)->0, id@, opt_str_view(query))),
                            None => out@[k]->0.direct_stream_url is None,
                        }
                    }
                },
        decreases sources@.len() - i,
    {
        let src = &sources[i];
        let patch = match &item {
            None => None,
            Some(item_id) => if is_strm_media_source(src.is_remote, src.is_infinite_stream) {
                let url = match &src.id {
                    Some(id) => Some(build_direct_stream_url(item_id.as_str(), id.as_str(), query)),
                    None => None,
                };
                Some(
                    SourcePatch {
                        supports_direct_play: true,
                        supports_direct_stream: true,
                        supports_transcoding: false,
                        direct_stream_url: url,
                    },
                )
            } else {
                None
            },
        };
        out.push(patch);
        i = i + 1;
    }
    out
}

/// A value of a field of Emby's system information, as the rewrite reads and writes it; `Other`
/// keeps the JSON text of a value of any other shape.
#[derive(Debug, Clone)]
pub enum SystemInfoValue {
    Number(u64),
    Text(String),
    Texts(Vec<String>),
    Other(String),
}

/// What a system information value holds.
pub enum SystemInfoView {
    Number(u64),
    Text(Seq<char>),
    Texts(Seq<Seq<char>>),
    Other(Seq<char>),
}

pub open spec fn info_view(v: SystemInfoValue) -> SystemInfoView {
    match v {
        SystemInfoValue::Number(n) => SystemInfoView::Number(n),
        SystemInfoValue::Text(t) => SystemInfoView::Text(t@),
        SystemInfoValue::Texts(t) => SystemInfoView::Texts(crate::text::string_views(t@)),
        SystemInfoValue::Other(o) => SystemInfoView::Other(o@),
    }
}

/// The fields of a system information object, by name, as values.
pub open spec fn info_views(m: Map<Seq<char>, SystemInfoValue>) -> Map<Seq<char>, SystemInfoView> {
    m.map_values(|v: SystemInfoValue| info_view(v))
}

/// Emby's system information as the panel's clients must see it: the ports are the gateway's
/// port, and every address (local, remote, WAN, and the address lists) is the gateway's URL;
/// the other fields stay.
pub open spec fn system_info_patched(
    m: Map<Seq<char>, SystemInfoView>,
    port: u16,
    url: Seq<char>,
) -> Map<Seq<char>, SystemInfoView> {
    m.insert("WebSocketPortNumber"@, SystemInfoView::Number(port as u64))
        .insert("HttpServerPortNumber"@, SystemInfoView::Number(port as u64))
        .insert("LocalAddress"@, SystemInfoView::Text(url))
        .insert("LocalAddresses"@, SystemInfoView::Texts(seq![url]))
        .insert("RemoteAddress"@, SystemInfoView::Text(url))
        .insert("RemoteAddresses"@, SystemInfoView::Texts(seq![url]))
        .insert("WanAddress"@, SystemInfoView::Text(url))
}

proof fn lemma_info_views_insert(m: Map<Seq<char>, SystemInfoValue>, k: Seq<char>, v: SystemInfoValue)
    ensures
        info_views(m.insert(k, v)) == info_views(m).insert(k, info_view(v)),
{
    assert(info_views(m.insert(k, v)) =~= info_views(m).insert(k, info_view(v)));
}

fn put_info(info: &mut crate::strmap::StrMap<SystemInfoValue>, key: &str, v: SystemInfoValue)
    requires
        old(info).wf(),
    ensures
        final(info).wf(),
        info_views(final(info)@) == info_views(old(info)@).insert(key@, info_view(v)),
{
    proof {
        lemma_info_views_insert(info@, key@, v);
    }
    info.insert(String::from_str(key), v);
}

fn url_list(url: &str) -> (r: SystemInfoValue)
    ensures
        info_view(r) == SystemInfoView::Texts(seq![url@]),
{
    let mut v: Vec<String> = Vec::new();
    v.push(String::from_str(url));
    assert(crate::text::string_views(v@) =~= seq![url@]);
    SystemInfoValue::Texts(v)
}

/// Points Emby's system information (a JSON object) at the gateway (see
/// [`system_info_patched`]).
pub fn patch_system_info(info: &mut crate::strmap::StrMap<SystemInfoValue>, gateway_port: u16, gateway_url: &str)
    requires
        old(info).wf(),
    ensures
        final(info).wf(),
        info_views(final(info)@) == system_info_patched(info_views(old(info)@), gateway_port, gateway_url@),
{
    put_info(info, "WebSocketPortNumber", SystemInfoValue::Number(gateway_port as u64));
    put_info(info, "HttpServerPortNumber", SystemInfoValue::Number(gateway_port as u64));
    put_info(info, "LocalAddress", SystemInfoValue::Text(String::from_str(gateway_url)));
    put_info(info, "LocalAddresses", url_list(gateway_url));
    put_info(info, "RemoteAddress", SystemInfoValue::Text(String::from_str(gateway_url)));
    put_info(info, "RemoteAddresses", url_list(gateway_url));
    put_info(info, "WanAddress", SystemInfoValue::Text(String::from_str(gateway_url)));
}

} // verus!
