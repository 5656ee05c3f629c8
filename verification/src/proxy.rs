//! Rules of the reverse proxy: which headers pass in each direction, the cookie the panel
//! keeps to itself, how client addresses are read from forwarding headers, and the
//! `X-Forwarded-For` chain sent upstream.

use vstd::prelude::*;
use vstd::string::StringExecFns;
use crate::config::Config;
use crate::ip_location::IpAddress;
use crate::text::{
    all_digits, chars_eq_ignore_case, chars_of, contains, eq_ignore_case, find, find_chars, join,
    join_chars, lines, lines_chars, lower, lower_chars, slice_chars, split_char, split_chars,
    split_once, split_once_chars, starts_with, string_of, string_views, trim, trim_char,
    trim_char_chars, trim_chars, trimmed, views,
};

verus! {

/// The longest `X-Forwarded-For` chain sent upstream.
pub const MAX_X_FORWARDED_FOR_ENTRIES: usize = 16;

/// Headers that only concern one connection.
pub open spec fn hop_by_hop_spec(name: Seq<char>) -> bool {
    name == "connection"@ || name == "keep-alive"@ || name == "proxy-authenticate"@ || name
        == "proxy-authorization"@ || name == "proxy-connection"@ || name == "te"@ || name
        == "trailer"@ || name == "transfer-encoding"@ || name == "upgrade"@
}

pub fn is_hop_by_hop_header(name: &str) -> (r: bool)
    ensures
        r == hop_by_hop_spec(name@),
{
    let n = chars_of(name);
    crate::text::chars_eq_str(&n, "connection") || crate::text::chars_eq_str(&n, "keep-alive")
        || crate::text::chars_eq_str(&n, "proxy-authenticate") || crate::text::chars_eq_str(
        &n,
        "proxy-authorization",
    ) || crate::text::chars_eq_str(&n, "proxy-connection") || crate::text::chars_eq_str(&n, "te")
        || crate::text::chars_eq_str(&n, "trailer") || crate::text::chars_eq_str(
        &n,
        "transfer-encoding",
    ) || crate::text::chars_eq_str(&n, "upgrade")
}

/// The headers a client's address may be forwarded in.
pub open spec fn forwarded_ip_headers_spec() -> Seq<Seq<char>> {
    seq![
        "x-forwarded-for"@,
        "x-real-ip"@,
        "x-forwarded"@,
        "forwarded-for"@,
        "forwarded"@,
        "true-client-ip"@,
        "client-ip"@,
        "ali-cdn-real-ip"@,
        "cdn-src-ip"@,
        "cdn-real-ip"@,
        "cf-connecting-ip"@,
        "x-cluster-client-ip"@,
        "wl-proxy-client-ip"@,
        "proxy-client-ip"@,
    ]
}

/// The headers a client's address may be forwarded in, in the order they are read.
pub fn forwarded_ip_headers() -> (r: Vec<String>)
    ensures
        string_views(r@) == forwarded_ip_headers_spec(),
{
    let mut r: Vec<String> = Vec::new();
    r.push(String::from_str("x-forwarded-for"));
    r.push(String::from_str("x-real-ip"));
    r.push(String::from_str("x-forwarded"));
    r.push(String::from_str("forwarded-for"));
    r.push(String::from_str("forwarded"));
    r.push(String::from_str("true-client-ip"));
    r.push(String::from_str("client-ip"));
    r.push(String::from_str("ali-cdn-real-ip"));
    r.push(String::from_str("cdn-src-ip"));
    r.push(String::from_str("cdn-real-ip"));
    r.push(String::from_str("cf-connecting-ip"));
    r.push(String::from_str("x-cluster-client-ip"));
    r.push(String::from_str("wl-proxy-client-ip"));
    r.push(String::from_str("proxy-client-ip"));
    assert(string_views(r@) =~= forwarded_ip_headers_spec());
    r
}

/// Some text of the list equals the name, ignoring ASCII case.
pub open spec fn named_in(list: Seq<Seq<char>>, name: Seq<char>) -> bool {
    exists|i: int| 0 <= i < list.len() && eq_ignore_case(name, #[trigger] list[i])
}

fn any_named(list: &Vec<String>, name: &Vec<char>, trim_each: bool) -> (r: bool)
    ensures
        r == exists|i: int|
            0 <= i < list@.len() && eq_ignore_case(
                name@,
                if trim_each {
                    trim(#[trigger] list@[i]@)
                } else {
                    list@[i]@
                },
            ),
{
    let mut i: usize = 0;
    while i < list.len()
        invariant
            i <= list@.len(),
            forall|j: int|
                0 <= j < i ==> !eq_ignore_case(
                    name@,
                    if trim_each {
                        trim(#[trigger] list@[j]@)
                    } else {
                        list@[j]@
                    },
                ),
        decreases list@.len() - i,
    {
        let v = if trim_each {
            trimmed(list[i].as_str())
        } else {
            chars_of(list[i].as_str())
        };
        if chars_eq_ignore_case(name, &v) {
            return true;
        }
        i = i + 1;
    }
    false
}

/// A header that carries a client's address: one of the usual forwarding headers, or a
/// line of the first server's configured real-IP headers (trimmed), ignoring ASCII case.
pub open spec fn forwarded_ip_header_spec(config: Config, name: Seq<char>) -> bool {
    named_in(forwarded_ip_headers_spec(), name) || (config.servers@.len() > 0 && exists|i: int|
        0 <= i < lines(config.servers@[0].real_ip_header@).len() && eq_ignore_case(
            name,
            trim(#[trigger] lines(config.servers@[0].real_ip_header@)[i]),
        ))
}

pub fn is_forwarded_ip_header(config: &Config, name: &str) -> (r: bool)
    ensures
        r == forwarded_ip_header_spec(*config, name@),
{
    let n = chars_of(name);
    let defaults = forwarded_ip_headers();
    if any_named(&defaults, &n, false) {
        assert(named_in(forwarded_ip_headers_spec(), name@)) by {
            let i = choose|i: int| 0 <= i < defaults@.len() && eq_ignore_case(n@, defaults@[i]@);
            assert(string_views(defaults@)[i] == defaults@[i]@);
        }
        return true;
    }
    assert(!named_in(forwarded_ip_headers_spec(), name@)) by {
        if named_in(forwarded_ip_headers_spec(), name@) {
            let i = choose|i: int| 0 <= i < forwarded_ip_headers_spec().len() && eq_ignore_case(
                name@,
                #[trigger] forwarded_ip_headers_spec()[i],
            );
            assert(string_views(defaults@)[i] == defaults@[i]@);
        }
    }
    if config.servers.len() == 0 {
        return false;
    }
    let h = chars_of(config.servers[0].real_ip_header.as_str());
    let ls = lines_chars(&h);
    let ghost lv = views(ls@);
    let mut i: usize = 0;
    while i < ls.len()
        invariant
            i <= ls@.len(),
            lv == views(ls@),
            config.servers@.len() > 0,
            lv == lines(config.servers@[0].real_ip_header@),
            n@ == name@,
            forall|j: int| 0 <= j < i ==> !eq_ignore_case(name@, trim(#[trigger] lv[j])),
        decreases ls@.len() - i,
    {
        assert(lv[i as int] == ls@[i as int]@);
        let t = trim_chars(&ls[i]);
        if chars_eq_ignore_case(&n, &t) {
            assert(eq_ignore_case(name@, trim(lv[i as int])));
            return true;
        }
        i = i + 1;
    }
    false
}

fn in_list(list: &Vec<String>, name: &Vec<char>) -> (r: bool)
    ensures
        r == exists|i: int| 0 <= i < list@.len() && (#[trigger] list@[i])@ == name@,
{
    let mut i: usize = 0;
    while i < list.len()
        invariant
            i <= list@.len(),
            forall|j: int| 0 <= j < i ==> (#[trigger] list@[j])@ != name@,
        decreases list@.len() - i,
    {
        let v = chars_of(list[i].as_str());
        if crate::text::chars_eq(&v, name) {
            return true;
        }
        i = i + 1;
    }
    false
}

/// A request header passed upstream: not hop-by-hop, not named by `Connection`, not one
/// carrying a client's address or the forwarded host, protocol or port, and not `host`,
/// `content-length` or `accept-encoding` (names compared in ASCII lower case).
pub open spec fn forwards_request_header(name: Seq<char>, connection_headers: Seq<Seq<char>>, config: Config) -> bool {
    let n = lower(name);
    !(hop_by_hop_spec(n) || connection_headers.contains(n) || forwarded_ip_header_spec(config, n)
        || n == "x-forwarded-host"@ || n == "x-forwarded-proto"@ || n == "x-forwarded-port"@) && !(n
        == "host"@ || n == "content-length"@ || n == "accept-encoding"@)
}

pub fn should_forward_request_header(name: &str, connection_headers: &Vec<String>, config: &Config) -> (r:
    bool)
    ensures
        r == forwards_request_header(name@, string_views(connection_headers@), *config),
{
    let n = lower_chars(&chars_of(name));
    let ns = string_of(&n);
    let in_connection = in_list(connection_headers, &n);
    assert(in_connection == string_views(connection_headers@).contains(n@)) by {
        if in_connection {
            let i = choose|i: int| 0 <= i < connection_headers@.len() && (#[trigger] connection_headers@[i])@ == n@;
            assert(string_views(connection_headers@)[i] == n@);
        }
        if string_views(connection_headers@).contains(n@) {
            let i = choose|i: int| 0 <= i < string_views(connection_headers@).len() && string_views(connection_headers@)[i] == n@;
            assert(connection_headers@[i]@ == n@);
        }
    }
    if is_hop_by_hop_header(ns.as_str()) || in_connection || is_forwarded_ip_header(config, ns.as_str())
        || crate::text::chars_eq_str(&n, "x-forwarded-host") || crate::text::chars_eq_str(
        &n,
        "x-forwarded-proto",
    ) || crate::text::chars_eq_str(&n, "x-forwarded-port") {
        return false;
    }
    !(crate::text::chars_eq_str(&n, "host") || crate::text::chars_eq_str(&n, "content-length")
        || crate::text::chars_eq_str(&n, "accept-encoding"))
}

/// A response header passed to the client: not hop-by-hop, not named by `Connection`, and,
/// unless the body is passed as it came, not `content-length` or `content-encoding`.
pub open spec fn copies_response_header(name: Seq<char>, connection_headers: Seq<Seq<char>>, preserve: bool) -> bool {
    let n = lower(name);
    !hop_by_hop_spec(n) && !connection_headers.contains(n) && (preserve || !(n == "content-length"@
        || n == "content-encoding"@))
}

pub fn should_copy_response_header(name: &str, connection_headers: &Vec<String>, preserve_representation_headers: bool) -> (r:
    bool)
    ensures
        r == copies_response_header(name@, string_views(connection_headers@), preserve_representation_headers),
{
    let n = lower_chars(&chars_of(name));
    let ns = string_of(&n);
    let in_connection = in_list(connection_headers, &n);
    assert(in_connection == string_views(connection_headers@).contains(n@)) by {
        if in_connection {
            let i = choose|i: int| 0 <= i < connection_headers@.len() && (#[trigger] connection_headers@[i])@ == n@;
            assert(string_views(connection_headers@)[i] == n@);
        }
        if string_views(connection_headers@).contains(n@) {
            let i = choose|i: int| 0 <= i < string_views(connection_headers@).len() && string_views(connection_headers@)[i] == n@;
            assert(connection_headers@[i]@ == n@);
        }
    }
    !is_hop_by_hop_header(ns.as_str()) && !in_connection && (preserve_representation_headers || !(
    crate::text::chars_eq_str(&n, "content-length") || crate::text::chars_eq_str(
        &n,
        "content-encoding",
    )))
}

/// The names a `Connection` header value lists: split at `,`, trimmed, non-empty, in ASCII
/// lower case.
pub open spec fn connection_names_of(pieces: Seq<Seq<char>>) -> Seq<Seq<char>>
    decreases pieces.len(),
{
    if pieces.len() == 0 {
        Seq::empty()
    } else {
        let rest = connection_names_of(pieces.drop_last());
        let t = trim(pieces.last());
        if t.len() > 0 {
            rest.push(lower(t))
        } else {
            rest
        }
    }
}

/// The names all `Connection` header values list, value after value.
pub open spec fn connection_names_spec(values: Seq<Seq<char>>) -> Seq<Seq<char>>
    decreases values.len(),
{
    if values.len() == 0 {
        Seq::empty()
    } else {
        connection_names_spec(values.drop_last()) + connection_names_of(split_char(values.last(), ','))
    }
}

fn names_of_value(value: &str, out: &mut Vec<String>)
    ensures
        string_views(final(out)@) == string_views(old(out)@) + connection_names_of(split_char(value@, ',')),
{
    let v = chars_of(value);
    let pieces = split_chars(&v, ',');
    let ghost pv = views(pieces@);
    let ghost o = string_views(out@);
    let mut i: usize = 0;
    assert(pv.take(0) =~= Seq::<Seq<char>>::empty());
    assert(o + Seq::<Seq<char>>::empty() =~= o);
    while i < pieces.len()
        invariant
            i <= pieces@.len(),
            pv == views(pieces@),
            pv == split_char(value@, ','),
            string_views(out@) == o + connection_names_of(pv.take(i as int)),
        decreases pieces@.len() - i,
    {
        assert(pv.take(i + 1).drop_last() =~= pv.take(i as int));
        assert(pv.take(i + 1).last() == pieces@[i as int]@);
        let t = trim_chars(&pieces[i]);
        if t.len() > 0 {
            let ghost before = string_views(out@);
            out.push(string_of(&lower_chars(&t)));
            assert(string_views(out@) =~= before.push(lower(t@)));
        }
        i = i + 1;
    }
    assert(pv.take(pv.len() as int) =~= pv);
}

/// The header names that the `Connection` header values list.
pub fn connection_header_names(values: &Vec<String>) -> (r: Vec<String>)
    ensures
        string_views(r@) == connection_names_spec(string_views(values@)),
{
    let ghost vs = string_views(values@);
    let mut out: Vec<String> = Vec::new();
    let mut i: usize = 0;
    assert(vs.take(0) =~= Seq::<Seq<char>>::empty());
    assert(string_views(out@) =~= Seq::<Seq<char>>::empty());
    while i < values.len()
        invariant
            i <= values@.len(),
            vs == string_views(values@),
            string_views(out@) == connection_names_spec(vs.take(i as int)),
        decreases values@.len() - i,
    {
        assert(vs.take(i + 1).drop_last() =~= vs.take(i as int));
        assert(vs.take(i + 1).last() == values@[i as int]@);
        names_of_value(values[i].as_str(), &mut out);
        i = i + 1;
    }
    assert(vs.take(vs.len() as int) =~= vs);
    out
}

/// The parts of a `Cookie` value kept upstream: trimmed parts with a `=` whose name is not
/// the panel's session cookie (ignoring ASCII case), in order.
pub open spec fn kept_cookie_parts(parts: Seq<Seq<char>>) -> Seq<Seq<char>>
    decreases parts.len(),
{
    if parts.len() == 0 {
        Seq::empty()
    } else {
        let rest = kept_cookie_parts(parts.drop_last());
        let p = trim(parts.last());
        match split_once(p, "="@) {
            Some((name, _)) => if eq_ignore_case(trim(name), crate::auth::TOKEN_COOKIE_NAME@) {
                rest
            } else {
                rest.push(p)
            },
            None => rest,
        }
    }
}

/// The `Cookie` header sent upstream: the kept parts joined by `; `, `None` when nothing is
/// left or the value is not text.
pub open spec fn filtered_cookie_spec(value: Option<Seq<char>>) -> Option<Seq<char>> {
    match value {
        Some(v) => {
            let j = join(kept_cookie_parts(split_char(v, ';')), "; "@);
            if j.len() > 0 {
                Some(j)
            } else {
                None
            }
        },
        None => None,
    }
}

pub fn filtered_proxy_cookie(value: Option<&str>) -> (r: Option<String>)
    ensures
        crate::text::opt_string_view(r) == filtered_cookie_spec(crate::text::opt_str_view(value)),
{
    let value = match value {
        Some(v) => v,
        None => {
            return None;
        },
    };
    let v = chars_of(value);
    let parts = split_chars(&v, ';');
    let ghost pv = views(parts@);
    let eq = chars_of("=");
    let token = chars_of(crate::auth::TOKEN_COOKIE_NAME);
    let mut kept: Vec<Vec<char>> = Vec::new();
    let mut i: usize = 0;
    assert(pv.take(0) =~= Seq::<Seq<char>>::empty());
    assert(views(kept@) =~= Seq::<Seq<char>>::empty());
    while i < parts.len()
        invariant
            i <= parts@.len(),
            pv == views(parts@),
            pv == split_char(value@, ';'),
            eq@ == "="@,
            token@ == crate::auth::TOKEN_COOKIE_NAME@,
            views(kept@) == kept_cookie_parts(pv.take(i as int)),
        decreases parts@.len() - i,
    {
        assert(pv.take(i + 1).drop_last() =~= pv.take(i as int));
        assert(pv.take(i + 1).last() == parts@[i as int]@);
        let p = trim_chars(&parts[i]);
        match split_once_chars(&p, &eq) {
            Some((name, _)) => {
                let tn = trim_chars(&name);
                if !chars_eq_ignore_case(&tn, &token) {
                    let ghost before = views(kept@);
                    kept.push(p);
                    assert(views(kept@) =~= before.push(trim(pv[i as int])));
                }
            },
            None => {},
        }
        i = i + 1;
    }
    assert(pv.take(pv.len() as int) =~= pv);
    let sep = chars_of("; ");
    let joined = join_chars(&kept, &sep);
    if joined.len() > 0 {
        Some(string_of(&joined))
    } else {
        None
    }
}

/// An address without its IPv4-mapped IPv6 form: `::ffff:a.b.c.d` becomes `a.b.c.d`.
pub open spec fn canonical_ip_spec(ip: IpAddress) -> IpAddress {
    match ip {
        IpAddress::V6(g) => if g[0] == 0 && g[1] == 0 && g[2] == 0 && g[3] == 0 && g[4] == 0 && g[5]
            == 0xffff {
            IpAddress::V4([(g[6] / 256) as u8, (g[6] % 256) as u8, (g[7] / 256) as u8, (g[7] % 256) as u8])
        } else {
            ip
        },
        IpAddress::V4(_) => ip,
    }
}

pub fn canonical_ip(ip: IpAddress) -> (r: IpAddress)
    ensures
        r == canonical_ip_spec(ip),
{
    match ip {
        IpAddress::V6(g) => if g[0] == 0 && g[1] == 0 && g[2] == 0 && g[3] == 0 && g[4] == 0 && g[5]
            == 0xffff {
            IpAddress::V4([(g[6] / 256) as u8, (g[6] % 256) as u8, (g[7] / 256) as u8, (g[7] % 256) as u8])
        } else {
            ip
        },
        IpAddress::V4(_) => ip,
    }
}

/// Two addresses are the same.
pub fn same_ip(a: &IpAddress, b: &IpAddress) -> (r: bool)
    ensures
        r == (*a == *b),
{
    match (a, b) {
        (IpAddress::V4(x), IpAddress::V4(y)) => {
            let e = x[0] == y[0] && x[1] == y[1] && x[2] == y[2] && x[3] == y[3];
            if e {
                assert(*x =~= *y);
            }
            e
        },
        (IpAddress::V6(x), IpAddress::V6(y)) => {
            let e = x[0] == y[0] && x[1] == y[1] && x[2] == y[2] && x[3] == y[3] && x[4] == y[4]
                && x[5] == y[5] && x[6] == y[6] && x[7] == y[7];
            if e {
                assert(*x =~= *y);
            }
            e
        },
        _ => false,
    }
}

/// The `X-Forwarded-For` entry `reverse_index` places from the end (1 is the last).
pub fn x_forwarded_for_at(ips: &Vec<IpAddress>, reverse_index: usize) -> (r: Option<IpAddress>)
    ensures
        r == if 0 < reverse_index <= ips@.len() {
            Some(ips@[ips@.len() - reverse_index])
        } else if reverse_index == 0 {
            None::<IpAddress>
        } else {
            None::<IpAddress>
        },
{
    if reverse_index == 0 || reverse_index > ips.len() {
        return None;
    }
    Some(ips[ips.len() - reverse_index])
}

/// Whether a peer address is a trusted proxy of the configuration's first server, whose
/// settings decide how the client's real address is read.
pub fn first_server_trusts(config: &crate::config::Config, peer_ip: &str) -> (r: bool)
    ensures
        r == (config.servers@.len() > 0 && crate::config::trusted_peer_spec(
            config.servers@[0].trusted_proxy_cidrs@,
            peer_ip@,
        )),
{
    if config.servers.len() == 0 {
        return false;
    }
    config.servers[0].is_trusted_proxy(peer_ip)
}

/// The `X-Forwarded-For` chain sent upstream. From an untrusted peer it is the client's
/// address alone. From a trusted proxy it is the received chain with the client's address
/// put first when missing and the proxy's address added last when it is not last, then
/// trimmed from its second entry on to 16 entries.
pub open spec fn forwarded_chain_spec(
    trusted_peer: bool,
    chain: Seq<IpAddress>,
    real_ip: IpAddress,
    peer_ip: IpAddress,
) -> Seq<IpAddress> {
    if !trusted_peer {
        seq![real_ip]
    } else {
        let c1 = if chain.contains(real_ip) {
            chain
        } else {
            seq![real_ip] + chain
        };
        let c2 = if c1.len() > 0 && c1.last() == peer_ip {
            c1
        } else {
            c1.push(peer_ip)
        };
        if c2.len() > MAX_X_FORWARDED_FOR_ENTRIES {
            seq![c2[0]] + c2.skip(c2.len() - (MAX_X_FORWARDED_FOR_ENTRIES - 1))
        } else {
            c2
        }
    }
}

pub fn forwarded_chain(trusted_peer: bool, chain: Vec<IpAddress>, real_ip: IpAddress, peer_ip: IpAddress) -> (r:
    Vec<IpAddress>)
    ensures
        r@ == forwarded_chain_spec(trusted_peer, chain@, real_ip, peer_ip),
        r@.len() <= MAX_X_FORWARDED_FOR_ENTRIES,
{
    if !trusted_peer {
        let mut one: Vec<IpAddress> = Vec::new();
        one.push(real_ip);
        assert(one@ =~= seq![real_ip]);
        return one;
    }
    let mut c = chain;
    let ghost c0 = c@;
    let mut found = false;
    let mut i: usize = 0;
    while i < c.len()
        invariant
            c@ == c0,
            i <= c@.len(),
            found == exists|j: int| 0 <= j < i && c@[j] == real_ip,
        decreases c@.len() - i,
    {
        if same_ip(&c[i], &real_ip) {
            found = true;
        }
        i = i + 1;
    }
    assert(found == c0.contains(real_ip));
    if !found {
        c.insert(0, real_ip);
        assert(c@ =~= seq![real_ip] + c0);
    }
    let ghost c1 = c@;
    let last_is_peer = c.len() > 0 && same_ip(&c[c.len() - 1], &peer_ip);
    if !last_is_peer {
        c.push(peer_ip);
    }
    let ghost c2 = c@;
    assert(c2.len() > 0);
    let ghost first = c2[0];
    if c.len() > MAX_X_FORWARDED_FOR_ENTRIES {
        assert(c@ =~= seq![first] + c2.skip(c2.len() - (c@.len() - 1)));
        while c.len() > MAX_X_FORWARDED_FOR_ENTRIES
            invariant
                c@.len() >= MAX_X_FORWARDED_FOR_ENTRIES,
                c@.len() <= c2.len(),
                c2.len() > 0,
                first == c2[0],
                c@ == seq![first] + c2.skip(c2.len() - (c@.len() - 1)),
            decreases c@.len(),
        {
            let ghost before = c@;
            c.remove(1);
            assert(c@ =~= seq![first] + c2.skip(c2.len() - (c@.len() - 1)));
        }
    }
    c
}

/// Where the configured real-IP mode reads the client's address.
#[derive(Debug, PartialEq, Eq)]
pub enum RealIpSource {
    /// The first address of one named header.
    Header(String),
    /// The first address of the first of these headers that has one.
    HeaderList(Vec<String>),
    /// The entry of `X-Forwarded-For` this many places from its end.
    ForwardedFromEnd(usize),
    /// The peer's own address.
    Peer,
}

/// The headers a `header_list` mode reads: the configured lines (trimmed, non-blank), else
/// the usual forwarding headers.
pub open spec fn header_list_spec(configured: Seq<char>) -> Seq<Seq<char>> {
    let c = crate::users_api::trimmed_nonblank(lines(configured));
    if c.len() > 0 {
        c
    } else {
        forwarded_ip_headers_spec()
    }
}

pub fn header_list_names(configured: &str) -> (r: Vec<String>)
    ensures
        string_views(r@) == header_list_spec(configured@),
{
    let v = chars_of(configured);
    let ls = lines_chars(&v);
    let ghost lv = views(ls@);
    let mut out: Vec<String> = Vec::new();
    let mut i: usize = 0;
    assert(lv.take(0) =~= Seq::<Seq<char>>::empty());
    assert(string_views(out@) =~= Seq::<Seq<char>>::empty());
    while i < ls.len()
        invariant
            i <= ls@.len(),
            lv == views(ls@),
            lv == lines(configured@),
            string_views(out@) == crate::users_api::trimmed_nonblank(lv.take(i as int)),
        decreases ls@.len() - i,
    {
        assert(lv.take(i + 1).drop_last() =~= lv.take(i as int));
        assert(lv.take(i + 1).last() == ls@[i as int]@);
        let t = trim_chars(&ls[i]);
        if t.len() > 0 {
            let ghost before = string_views(out@);
            out.push(string_of(&t));
            assert(string_views(out@) =~= before.push(t@));
        }
        i = i + 1;
    }
    assert(lv.take(lv.len() as int) =~= lv);
    if out.len() > 0 {
        out
    } else {
        forwarded_ip_headers()
    }
}

/// The source of the client's address for a server's real-IP mode.
pub fn real_ip_source(mode: &str, real_ip_header: &str) -> (r: RealIpSource)
    ensures
        mode@ == "header"@ ==> (r matches RealIpSource::Header(h) && h@ == real_ip_header@),
        mode@ == "header_list"@ ==> (r matches RealIpSource::HeaderList(names) && string_views(names@)
            == header_list_spec(real_ip_header@)),
        mode@ == "xff_last"@ ==> r == RealIpSource::ForwardedFromEnd(1),
        mode@ == "xff_second_last"@ ==> r == RealIpSource::ForwardedFromEnd(2),
        mode@ == "xff_third_last"@ ==> r == RealIpSource::ForwardedFromEnd(3),
        !(mode@ == "header"@ || mode@ == "header_list"@ || mode@ == "xff_last"@ || mode@
            == "xff_second_last"@ || mode@ == "xff_third_last"@) ==> r == RealIpSource::Peer,
{
    proof {
        reveal_strlit("header");
        reveal_strlit("header_list");
        reveal_strlit("xff_last");
        reveal_strlit("xff_second_last");
        reveal_strlit("xff_third_last");
        assert("header"@.len() != "header_list"@.len());
        assert("header"@.len() != "xff_last"@.len());
        assert("header"@.len() != "xff_second_last"@.len());
        assert("header_list"@.len() != "xff_last"@.len());
        assert("header_list"@.len() != "xff_second_last"@.len());
        assert("xff_last"@.len() != "xff_second_last"@.len());
        assert("xff_second_last"@[4] != "xff_third_last"@[4]);
    }
    if crate::strmap::str_eq(mode, "header") {
        RealIpSource::Header(String::from_str(real_ip_header))
    } else if crate::strmap::str_eq(mode, "header_list") {
        RealIpSource::HeaderList(header_list_names(real_ip_header))
    } else if crate::strmap::str_eq(mode, "xff_last") {
        RealIpSource::ForwardedFromEnd(1)
    } else if crate::strmap::str_eq(mode, "xff_second_last") {
        RealIpSource::ForwardedFromEnd(2)
    } else if crate::strmap::str_eq(mode, "xff_third_last") {
        RealIpSource::ForwardedFromEnd(3)
    } else {
        RealIpSource::Peer
    }
}

proof fn lemma_first_occurrence(s: Seq<char>, p: Seq<char>, i: int)
    requires
        0 <= i,
    ensures
        crate::text::first_occurrence_from(s, p, i) <= s.len() ==> i <= crate::text::first_occurrence_from(s, p, i)
            && crate::text::occurs_at(s, p, crate::text::first_occurrence_from(s, p, i)),
    decreases s.len() + 1 - i,
{
    if i <= s.len() && !crate::text::occurs_at(s, p, i) {
        lemma_first_occurrence(s, p, i + 1);
    }
}

/// The last index of `c` in `s`.
pub open spec fn last_index_of(s: Seq<char>, c: char) -> Option<int>
    decreases s.len(),
{
    if s.len() == 0 {
        None
    } else if s.last() == c {
        Some(s.len() - 1)
    } else {
        last_index_of(s.drop_last(), c)
    }
}

proof fn lemma_last_index_bounds(s: Seq<char>, c: char)
    ensures
        last_index_of(s, c) matches Some(i) ==> 0 <= i < s.len() && s[i] == c,
    decreases s.len(),
{
    if s.len() > 0 && s.last() != c {
        lemma_last_index_bounds(s.drop_last(), c);
    }
}

fn last_index_exec(v: &Vec<char>, c: char) -> (r: Option<usize>)
    ensures
        match r {
            Some(i) => last_index_of(v@, c) == Some(i as int),
            None => last_index_of(v@, c) is None,
        },
{
    let mut k: usize = v.len();
    assert(v@.take(v@.len() as int) =~= v@);
    while k > 0
        invariant
            k <= v@.len(),
            last_index_of(v@, c) == last_index_of(v@.take(k as int), c),
        decreases k,
    {
        assert(v@.take(k as int).drop_last() =~= v@.take(k - 1));
        assert(v@.take(k as int).last() == v@[k - 1]);
        if v[k - 1] == c {
            return Some(k - 1);
        }
        k = k - 1;
    }
    assert(v@.take(0) =~= Seq::<char>::empty());
    None
}

/// The address text in a forwarded value: after `for=` (any ASCII case) when present,
/// without quotes, inside brackets for bracketed IPv6, or without a trailing `:port` on a
/// host without colons; `None` for an unclosed bracket.
pub open spec fn ip_candidate_spec(value: Seq<char>) -> Option<Seq<char>> {
    let v0 = trim(value);
    let v1 = match split_once(v0, "="@) {
        Some((name, rest)) => if eq_ignore_case(trim(name), "for"@) {
            rest
        } else {
            v0
        },
        None => v0,
    };
    let v = trim(trim_char(v1, '"'));
    if v.len() > 0 && v[0] == '[' {
        match find(v, "]"@) {
            Some(end) => Some(v.subrange(1, end)),
            None => None,
        }
    } else {
        match last_index_of(v, ':') {
            Some(i) => if !v.subrange(0, i).contains(':') && all_digits(v.subrange(i + 1, v.len() as int)) {
                Some(v.subrange(0, i))
            } else {
                Some(v)
            },
            None => Some(v),
        }
    }
}

/// The text of a forwarded address to parse as an IP (see [`ip_candidate_spec`]).
pub fn header_ip_candidate(value: &str) -> (r: Option<String>)
    ensures
        crate::text::opt_string_view(r) == ip_candidate_spec(value@),
{
    proof {
        reveal_strlit("]");
    }
    let v0 = trimmed(value);
    let eq = chars_of("=");
    let v1 = match split_once_chars(&v0, &eq) {
        Some((name, rest)) => {
            let tn = trim_chars(&name);
            let f = chars_of("for");
            if chars_eq_ignore_case(&tn, &f) {
                rest
            } else {
                v0
            }
        },
        None => v0,
    };
    let unq = trim_char_chars(&v1, '"');
    let v = trim_chars(&unq);
    if v.len() > 0 && v[0] == '[' {
        let close = chars_of("]");
        match find_chars(&v, &close) {
            Some(end) => {
                proof {
                    lemma_first_occurrence(v@, "]"@, 0);
                }
                if end < 1 {
                    proof {
                        assert(v@.subrange(0, 1) == "]"@);
                        assert(v@.subrange(0, 1)[0] == v@[0]);
                        assert("]"@[0] == ']');
                    }
                    return None;
                }
                return Some(string_of(&slice_chars(&v, 1, end)));
            },
            None => {
                return None;
            },
        }
    }
    match last_index_exec(&v, ':') {
        Some(i) => {
            proof {
                lemma_last_index_bounds(v@, ':');
            }
            let host = slice_chars(&v, 0, i);
            let port = slice_chars(&v, i + 1, v.len());
            let mut has_colon = false;
            let mut k: usize = 0;
            while k < host.len()
                invariant
                    k <= host@.len(),
                    has_colon == exists|j: int| 0 <= j < k && host@[j] == ':',
                decreases host@.len() - k,
            {
                if host[k] == ':' {
                    has_colon = true;
                }
                k = k + 1;
            }
            let mut digits = true;
            let mut m: usize = 0;
            while m < port.len()
                invariant
                    m <= port@.len(),
                    digits == forall|j: int| 0 <= j < m ==> '0' <= #[trigger] port@[j] <= '9',
                decreases port@.len() - m,
            {
                if !('0' <= port[m] && port[m] <= '9') {
                    digits = false;
                }
                m = m + 1;
            }
            if !has_colon && digits {
                Some(string_of(&host))
            } else {
                Some(string_of(&v))
            }
        },
        None => Some(string_of(&v)),
    }
}

/// The address pieces of a forwarding header value: split at `,`, each trimmed, unquoted
/// and non-empty, cut at its first `;` and trimmed again, kept when non-empty.
pub open spec fn ip_pieces_of(parts: Seq<Seq<char>>) -> Seq<Seq<char>>
    decreases parts.len(),
{
    if parts.len() == 0 {
        Seq::empty()
    } else {
        let rest = ip_pieces_of(parts.drop_last());
        let item = trim_char(trim(parts.last()), '"');
        let piece = trim(split_char(item, ';')[0]);
        if item.len() > 0 && piece.len() > 0 {
            rest.push(piece)
        } else {
            rest
        }
    }
}

/// The candidate address texts of a forwarding header value, in order: its pieces (see
/// [`ip_pieces_of`]) as [`header_ip_candidate`] reads them. Each is then parsed as an IP
/// address, and the texts that do not parse are skipped.
pub fn header_ip_candidates(value: &str) -> (r: Vec<String>)
    ensures
        string_views(r@) == candidates_of(ip_pieces_of(split_char(value@, ','))),
{
    let v = chars_of(value);
    let parts = split_chars(&v, ',');
    let ghost pv = views(parts@);
    let mut pieces: Vec<Vec<char>> = Vec::new();
    let mut i: usize = 0;
    assert(pv.take(0) =~= Seq::<Seq<char>>::empty());
    assert(views(pieces@) =~= Seq::<Seq<char>>::empty());
    while i < parts.len()
        invariant
            i <= parts@.len(),
            pv == views(parts@),
            pv == split_char(value@, ','),
            views(pieces@) == ip_pieces_of(pv.take(i as int)),
        decreases parts@.len() - i,
    {
        assert(pv.take(i + 1).drop_last() =~= pv.take(i as int));
        assert(pv.take(i + 1).last() == parts@[i as int]@);
        let t = trim_chars(&parts[i]);
        let item = trim_char_chars(&t, '"');
        let sub = split_chars(&item, ';');
        assert(views(sub@)[0] == sub@[0]@);
        let piece = trim_chars(&sub[0]);
        if item.len() > 0 && piece.len() > 0 {
            let ghost before = views(pieces@);
            pieces.push(piece);
            assert(views(pieces@) =~= before.push(piece@));
        }
        i = i + 1;
    }
    assert(pv.take(pv.len() as int) =~= pv);
    let ghost ps = views(pieces@);
    let mut out: Vec<String> = Vec::new();
    let mut k: usize = 0;
    assert(ps.take(0) =~= Seq::<Seq<char>>::empty());
    assert(string_views(out@) =~= Seq::<Seq<char>>::empty());
    while k < pieces.len()
        invariant
            k <= pieces@.len(),
            ps == views(pieces@),
            string_views(out@) == candidates_of(ps.take(k as int)),
        decreases pieces@.len() - k,
    {
        assert(ps.take(k + 1).drop_last() =~= ps.take(k as int));
        assert(ps.take(k + 1).last() == pieces@[k as int]@);
        let s = string_of(&pieces[k]);
        match header_ip_candidate(s.as_str()) {
            Some(c) => {
                let ghost before = string_views(out@);
                out.push(c);
                assert(string_views(out@) =~= before.push(c@));
            },
            None => {},
        }
        k = k + 1;
    }
    assert(ps.take(ps.len() as int) =~= ps);
    out
}

/// The candidate texts of the pieces that have one, in order.
pub open spec fn candidates_of(pieces: Seq<Seq<char>>) -> Seq<Seq<char>>
    decreases pieces.len(),
{
    if pieces.len() == 0 {
        Seq::empty()
    } else {
        let rest = candidates_of(pieces.drop_last());
        match ip_candidate_spec(pieces.last()) {
            Some(c) => rest.push(c),
            None => rest,
        }
    }
}

} // verus!
