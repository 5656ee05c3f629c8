//! Which proxy listeners run: the plan that brings the running listeners in line with the
//! enabled servers, and the errors of starting one.

use vstd::prelude::*;
use vstd::string::StringExecFns;
use crate::error::AppError;
use crate::text::{decimal, decimal_string, string_views};

verus! {

/// The ids of (id, port) pairs.
pub open spec fn pair_ids(s: Seq<(String, u16)>) -> Seq<Seq<char>> {
    s.map_values(|p: (String, u16)| p.0@)
}

/// The listeners to stop: the running ones whose server is no longer wanted, in order.
pub open spec fn stale_ids(running: Seq<(String, u16)>, desired: Seq<(String, u16)>) -> Seq<Seq<char>>
    decreases running.len(),
{
    if running.len() == 0 {
        Seq::empty()
    } else {
        let p = stale_ids(running.drop_last(), desired);
        if pair_ids(desired).contains(running.last().0@) {
            p
        } else {
            p.push(running.last().0@)
        }
    }
}

/// The port a server's listener runs on after the wanted listeners `desired` were walked in
/// order: each one not running on its port is (re)started on it.
pub open spec fn port_after(running: Map<Seq<char>, u16>, desired: Seq<(String, u16)>) -> Map<Seq<char>, u16>
    decreases desired.len(),
{
    if desired.len() == 0 {
        running
    } else {
        port_after(running, desired.drop_last()).insert(desired.last().0@, desired.last().1)
    }
}

/// The listeners to start, in order: each wanted server whose listener is not running on its
/// port at that point of the walk.
pub open spec fn starts(running: Map<Seq<char>, u16>, desired: Seq<(String, u16)>) -> Seq<(Seq<char>, u16)>
    decreases desired.len(),
{
    if desired.len() == 0 {
        Seq::empty()
    } else {
        let before = port_after(running, desired.drop_last());
        let (id, port) = (desired.last().0@, desired.last().1);
        let p = starts(running, desired.drop_last());
        if before.contains_key(id) && before[id] == port {
            p
        } else {
            p.push((id, port))
        }
    }
}

/// The running listeners as a map from server id to port (the last entry of an id wins).
pub open spec fn running_map(running: Seq<(String, u16)>) -> Map<Seq<char>, u16>
    decreases running.len(),
{
    if running.len() == 0 {
        Map::empty()
    } else {
        running_map(running.drop_last()).insert(running.last().0@, running.last().1)
    }
}

/// The views of (id, port) pairs.
pub open spec fn pair_views(s: Seq<(String, u16)>) -> Seq<(Seq<char>, u16)> {
    s.map_values(|p: (String, u16)| (p.0@, p.1))
}

fn port_of(running: &Vec<(String, u16)>, id: &str) -> (r: Option<u16>)
    ensures
        match r {
            Some(p) => running_map(running@).contains_key(id@) && running_map(running@)[id@] == p,
            None => !running_map(running@).contains_key(id@),
        },
{
    let mut found: Option<u16> = None;
    let mut i: usize = 0;
    while i < running.len()
        invariant
            i <= running@.len(),
            match found {
                Some(p) => running_map(running@.take(i as int)).contains_key(id@) && running_map(
                    running@.take(i as int),
                )[id@] == p,
                None => !running_map(running@.take(i as int)).contains_key(id@),
            },
        decreases running@.len() - i,
    {
        proof {
            assert(running@.take(i + 1).drop_last() =~= running@.take(i as int));
            assert(running@.take(i + 1).last() == running@[i as int]);
        }
        if crate::strmap::str_eq(running[i].0.as_str(), id) {
            found = Some(running[i].1);
        }
        i = i + 1;
    }
    proof {
        assert(running@.take(running@.len() as int) =~= running@);
    }
    found
}

fn contains_id(pairs: &Vec<(String, u16)>, id: &str) -> (r: bool)
    ensures
        r == pair_ids(pairs@).contains(id@),
{
    let mut i: usize = 0;
    while i < pairs.len()
        invariant
            i <= pairs@.len(),
            forall|k: int| 0 <= k < i ==> pairs@[k].0@ != id@,
        decreases pairs@.len() - i,
    {
        if crate::strmap::str_eq(pairs[i].0.as_str(), id) {
            proof {
                assert(pair_ids(pairs@)[i as int] == id@);
            }
            return true;
        }
        i = i + 1;
    }
    proof {
        if pair_ids(pairs@).contains(id@) {
            let k = choose|k: int| 0 <= k < pair_ids(pairs@).len() && pair_ids(pairs@)[k] == id@;
            assert(pairs@[k].0@ == id@);
        }
    }
    false
}

/// What bringing the running listeners (server id and port) in line with the wanted ones
/// does: the stale listeners to stop, and the listeners to (re)start, each on its port.
pub fn reconcile_proxies(running: &Vec<(String, u16)>, desired: &Vec<(String, u16)>) -> (r: (
    Vec<String>,
    Vec<(String, u16)>,
))
    ensures
        string_views(r.0@) == stale_ids(running@, desired@),
        pair_views(r.1@) == starts(running_map(running@), desired@),
{
    let mut stop: Vec<String> = Vec::new();
    let mut i: usize = 0;
    while i < running.len()
        invariant
            i <= running@.len(),
            string_views(stop@) == stale_ids(running@.take(i as int), desired@),
        decreases running@.len() - i,
    {
        proof {
            assert(running@.take(i + 1).drop_last() =~= running@.take(i as int));
            assert(running@.take(i + 1).last() == running@[i as int]);
        }
        if !contains_id(desired, running[i].0.as_str()) {
            let ghost before = string_views(stop@);
            stop.push(running[i].0.clone());
            proof {
                assert(string_views(stop@) =~= before.push(running@[i as int].0@));
            }
        }
        i = i + 1;
    }
    proof {
        assert(running@.take(running@.len() as int) =~= running@);
    }
    let mut current: Vec<(String, u16)> = Vec::new();
    let mut k: usize = 0;
    while k < running.len()
        invariant
            k <= running@.len(),
            running_map(current@) == running_map(running@.take(k as int)),
        decreases running@.len() - k,
    {
        let ghost before = current@;
        current.push((running[k].0.clone(), running[k].1));
        proof {
            assert(current@.drop_last() =~= before);
            assert(running@.take(k + 1).drop_last() =~= running@.take(k as int));
        }
        k = k + 1;
    }
    proof {
        assert(running@.take(running@.len() as int) =~= running@);
    }
    let mut start: Vec<(String, u16)> = Vec::new();
    let mut j: usize = 0;
    while j < desired.len()
        invariant
            j <= desired@.len(),
            running_map(current@) == port_after(running_map(running@), desired@.take(j as int)),
            pair_views(start@) == starts(running_map(running@), desired@.take(j as int)),
        decreases desired@.len() - j,
    {
        let ghost pre = desired@.take(j as int);
        proof {
            assert(desired@.take(j + 1).drop_last() =~= pre);
            assert(desired@.take(j + 1).last() == desired@[j as int]);
        }
        let id = &desired[j].0;
        let port = desired[j].1;
        let on = port_of(&current, id.as_str());
        let running_there = match on {
            Some(p) => p == port,
            None => false,
        };
        if !running_there {
            let ghost sv = pair_views(start@);
            start.push((id.clone(), port));
            proof {
                assert(pair_views(start@) =~= sv.push((id@, port)));
            }
        }
        let ghost cur = current@;
        current.push((id.clone(), port));
        proof {
            assert(current@.drop_last() =~= cur);
        }
        j = j + 1;
    }
    proof {
        assert(desired@.take(desired@.len() as int) =~= desired@);
    }
    (stop, start)
}

/// The error of a proxy port that could not be bound.
pub fn bind_error(port: u16, reason: &str) -> (r: AppError)
    ensures
        r matches AppError::Config(m) && m@ == "failed to bind Emby proxy port "@ + decimal(port as nat)
            + ": "@ + reason@,
{
    let mut m = String::from_str("failed to bind Emby proxy port ");
    let p = decimal_string(port as u64);
    m.append(p.as_str());
    m.append(": ");
    m.append(reason);
    AppError::Config(m)
}

/// The error of restarting a server that is not among the enabled ones.
pub fn unknown_server_error(server_id: &str) -> (r: AppError)
    ensures
        r matches AppError::Config(m) && m@ == "server "@ + server_id@ + " is not enabled or does not exist"@,
{
    let mut m = String::from_str("server ");
    m.append(server_id);
    m.append(" is not enabled or does not exist");
    AppError::Config(m)
}


/// After the plan, every wanted server listens on the port of its last entry, and a running
/// listener is stopped exactly when its server is not wanted.
pub proof fn lemma_plan_serves_wanted(running: Seq<(String, u16)>, desired: Seq<(String, u16)>)
    ensures
        forall|k: int|
            0 <= k < desired.len() && (forall|j: int| k < j < desired.len() ==> desired[j].0@ != desired[k].0@)
                ==> port_after(running_map(running), desired).contains_key(#[trigger] desired[k].0@)
                && port_after(running_map(running), desired)[desired[k].0@] == desired[k].1,
        forall|id: Seq<char>|
            pair_ids(running).contains(id) ==> (stale_ids(running, desired).contains(id) <==> !pair_ids(
                desired,
            ).contains(id)),
    decreases desired.len() + running.len(),
{
    if desired.len() > 0 {
        lemma_plan_serves_wanted(running, desired.drop_last());
        let d = desired.drop_last();
        assert forall|k: int|
            0 <= k < desired.len() && (forall|j: int| k < j < desired.len() ==> desired[j].0@ != desired[k].0@)
                implies port_after(running_map(running), desired).contains_key(#[trigger] desired[k].0@)
                && port_after(running_map(running), desired)[desired[k].0@] == desired[k].1 by {
            if k < desired.len() - 1 {
                assert(desired.last().0@ != desired[k].0@);
                assert(d[k] == desired[k]);
                assert forall|j: int| k < j < d.len() implies d[j].0@ != d[k].0@ by {
                    assert(d[j] == desired[j]);
                }
            }
        }
    }
    lemma_stale(running, desired);
}

proof fn lemma_stale(running: Seq<(String, u16)>, desired: Seq<(String, u16)>)
    ensures
        forall|id: Seq<char>|
            pair_ids(running).contains(id) ==> (stale_ids(running, desired).contains(id) <==> !pair_ids(
                desired,
            ).contains(id)),
    decreases running.len(),
{
    if running.len() > 0 {
        let r = running.drop_last();
        lemma_stale(r, desired);
        lemma_stale_within(r, desired);
        assert forall|id: Seq<char>| pair_ids(running).contains(id) implies (stale_ids(running, desired).contains(
            id,
        ) <==> !pair_ids(desired).contains(id)) by {
            let k = choose|k: int| 0 <= k < pair_ids(running).len() && pair_ids(running)[k] == id;
            let p = stale_ids(r, desired);
            if k < running.len() - 1 {
                assert(pair_ids(r)[k] == id);
                if !pair_ids(desired).contains(running.last().0@) {
                    assert(stale_ids(running, desired) == p.push(running.last().0@));
                    if p.contains(id) {
                        let t = choose|t: int| 0 <= t < p.len() && p[t] == id;
                        assert(stale_ids(running, desired)[t] == id);
                    }
                    if stale_ids(running, desired).contains(id) && !p.contains(id) {
                        assert(id == running.last().0@);
                    }
                }
            } else {
                assert(id == running.last().0@);
                if !pair_ids(desired).contains(id) {
                    assert(stale_ids(running, desired) == p.push(id));
                    assert(stale_ids(running, desired)[p.len() as int] == id);
                } else {
                    assert(stale_ids(running, desired) == p);
                }
            }
        }
    }
}

proof fn lemma_stale_within(running: Seq<(String, u16)>, desired: Seq<(String, u16)>)
    ensures
        forall|id: Seq<char>| stale_ids(running, desired).contains(id) ==> !pair_ids(desired).contains(id),
    decreases running.len(),
{
    if running.len() > 0 {
        lemma_stale_within(running.drop_last(), desired);
        let p = stale_ids(running.drop_last(), desired);
        assert forall|id: Seq<char>| stale_ids(running, desired).contains(id) implies !pair_ids(desired).contains(id) by {
            let t = choose|t: int| 0 <= t < stale_ids(running, desired).len() && stale_ids(running, desired)[t] == id;
            if t < p.len() {
                assert(p[t] == id);
            }
        }
    }
}

} // verus!
