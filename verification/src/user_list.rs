//! The user list page: which users a search and a status filter keep, and the order they are
//! shown in.

use vstd::prelude::*;
use vstd::string::StringExecFns;
use crate::client_control::{
    lemma_lex_asymmetric, lemma_lex_irreflexive, lemma_lex_total, lemma_lex_transitive, lex_less,
    str_less,
};
use crate::error::AppError;
use crate::text::{chars_of, contains, contains_chars, string_of, to_lowercase, trim, trimmed, unicode_lowercase};

verus! {

/// What the list reads of a user: the name, the server's name, and whether the user is
/// disabled.
#[derive(Debug)]
pub struct UserListKey {
    pub name: String,
    pub server_name: String,
    pub is_disabled: bool,
}

/// The users a status filter keeps.
#[derive(Debug, Clone, Copy, PartialEq, Eq, Structural)]
pub enum UserStatusFilter {
    All,
    Enabled,
    Disabled,
}

/// The status filter of the list: the parameter trimmed (missing means `all`); `all` or empty
/// keeps everyone, `enabled` and `disabled` keep those; anything else is refused.
pub fn user_status_filter(status: Option<&str>) -> (r: Result<UserStatusFilter, AppError>)
    ensures
        ({
            let s = match status {
                Some(v) => trim(v@),
                None => "all"@,
            };
            if s.len() == 0 || s == "all"@ {
                r == Ok::<UserStatusFilter, AppError>(UserStatusFilter::All)
            } else if s == "enabled"@ {
                r == Ok::<UserStatusFilter, AppError>(UserStatusFilter::Enabled)
            } else if s == "disabled"@ {
                r == Ok::<UserStatusFilter, AppError>(UserStatusFilter::Disabled)
            } else {
                (r matches Err(AppError::Validation(m)) && m@ == "status must be all, enabled, or disabled"@)
            }
        }),
{
    let s = match status {
        Some(v) => string_of(&trimmed(v)),
        None => String::from_str("all"),
    };
    if s.unicode_len() == 0 || crate::strmap::str_eq(s.as_str(), "all") {
        Ok(UserStatusFilter::All)
    } else if crate::strmap::str_eq(s.as_str(), "enabled") {
        Ok(UserStatusFilter::Enabled)
    } else if crate::strmap::str_eq(s.as_str(), "disabled") {
        Ok(UserStatusFilter::Disabled)
    } else {
        Err(AppError::Validation(String::from_str("status must be all, enabled, or disabled")))
    }
}

/// A user is kept when the search (lower-cased by `str::to_lowercase`) is empty or occurs in
/// the lower-cased user or server name, and the status filter keeps the user.
pub open spec fn user_kept(u: UserListKey, search: Seq<char>, status: UserStatusFilter) -> bool {
    &&& (search.len() == 0 || contains(unicode_lowercase(u.name@), search) || contains(
        unicode_lowercase(u.server_name@),
        search,
    ))
    &&& match status {
        UserStatusFilter::Disabled => u.is_disabled,
        UserStatusFilter::Enabled => !u.is_disabled,
        UserStatusFilter::All => true,
    }
}

/// The order key of a user: the server's name, then the user's name lower-cased.
pub open spec fn user_key(u: UserListKey) -> (Seq<char>, Seq<char>) {
    (u.server_name@, unicode_lowercase(u.name@))
}

/// `a` comes before `b`: by the first text, then by the second (`String` order).
pub open spec fn pair_less(a: (Seq<char>, Seq<char>), b: (Seq<char>, Seq<char>)) -> bool {
    lex_less(a.0, b.0) || (a.0 == b.0 && lex_less(a.1, b.1))
}

proof fn lemma_pair_irreflexive(a: (Seq<char>, Seq<char>))
    ensures
        !pair_less(a, a),
{
    lemma_lex_irreflexive(a.0);
    lemma_lex_irreflexive(a.1);
}

proof fn lemma_pair_transitive(a: (Seq<char>, Seq<char>), b: (Seq<char>, Seq<char>), c: (Seq<char>, Seq<char>))
    requires
        pair_less(a, b),
        pair_less(b, c),
    ensures
        pair_less(a, c),
{
    if lex_less(a.0, b.0) && lex_less(b.0, c.0) {
        lemma_lex_transitive(a.0, b.0, c.0);
    } else if a.0 == b.0 && b.0 == c.0 {
        lemma_lex_transitive(a.1, b.1, c.1);
    }
}

proof fn lemma_pair_total(a: (Seq<char>, Seq<char>), b: (Seq<char>, Seq<char>))
    ensures
        a == b || pair_less(a, b) || pair_less(b, a),
{
    lemma_lex_total(a.0, b.0);
    lemma_lex_total(a.1, b.1);
}

/// What the ordering keeps after `i` users were considered: the kept ones among them, each
/// once, in order of their keys, equal keys in the users' order.
pub open spec fn ordered_upto(out: Seq<int>, users: Seq<UserListKey>, search: Seq<char>, status: UserStatusFilter, i: int) -> bool {
    &&& forall|k: int| 0 <= k < out.len() ==> 0 <= #[trigger] out[k] < i && user_kept(users[out[k]], search, status)
    &&& forall|j: int| 0 <= j < i && user_kept(#[trigger] users[j], search, status) ==> out.contains(j)
    &&& forall|a: int, b: int| 0 <= a < b < out.len() ==> #[trigger] out[a] != #[trigger] out[b]
    &&& forall|a: int, b: int|
        0 <= a < b < out.len() ==> !pair_less(user_key(users[#[trigger] out[b]]), user_key(users[#[trigger] out[a]]))
    &&& forall|a: int, b: int|
        0 <= a < b < out.len() && user_key(users[out[a]]) == user_key(users[out[b]]) ==> #[trigger] out[a]
            < #[trigger] out[b]
}

proof fn lemma_insert_user(out: Seq<int>, users: Seq<UserListKey>, search: Seq<char>, status: UserStatusFilter, i: int, p: int)
    requires
        ordered_upto(out, users, search, status, i),
        0 <= i < users.len(),
        user_kept(users[i], search, status),
        0 <= p <= out.len(),
        forall|k: int| 0 <= k < p ==> !pair_less(user_key(users[i]), user_key(users[#[trigger] out[k]])),
        p < out.len() ==> pair_less(user_key(users[i]), user_key(users[out[p]])),
    ensures
        ordered_upto(out.insert(p, i), users, search, status, i + 1),
{
    let n = out.insert(p, i);
    let key = user_key(users[i]);
    assert forall|k: int| 0 <= k < n.len() implies 0 <= #[trigger] n[k] < i + 1 && user_kept(users[n[k]], search, status) by {
        if k < p {
            assert(n[k] == out[k]);
        } else if k > p {
            assert(n[k] == out[k - 1]);
        }
    }
    assert forall|j: int| 0 <= j < i + 1 && user_kept(#[trigger] users[j], search, status) implies n.contains(j) by {
        if j == i {
            assert(n[p] == i);
        } else {
            assert(out.contains(j));
            let k = choose|k: int| 0 <= k < out.len() && out[k] == j;
            if k < p {
                assert(n[k] == j);
            } else {
                assert(n[k + 1] == j);
            }
        }
    }
    assert forall|a: int, b: int| 0 <= a < b < n.len() implies #[trigger] n[a] != #[trigger] n[b]
        && !pair_less(user_key(users[n[b]]), user_key(users[n[a]]))
        && (user_key(users[n[a]]) == user_key(users[n[b]]) ==> n[a] < n[b]) by {
        let oa = if a < p { a } else { a - 1 };
        let ob = if b < p { b } else { b - 1 };
        if a != p && b != p {
            assert(n[a] == out[oa] && n[b] == out[ob]);
        } else if b == p {
            assert(n[a] == out[a]);
            assert(0 <= out[a] < i);
        } else {
            assert(n[b] == out[ob]);
            assert(0 <= out[ob] < i);
            let kp = user_key(users[out[p]]);
            let kb = user_key(users[out[ob]]);
            if ob > p {
                assert(!pair_less(kb, kp));
                lemma_pair_total(kp, kb);
                if kp != kb {
                    lemma_pair_transitive(key, kp, kb);
                }
            }
            assert(pair_less(key, kb));
            if pair_less(kb, key) {
                lemma_pair_transitive(key, kb, key);
                lemma_pair_irreflexive(key);
            }
            lemma_pair_irreflexive(key);
        }
    }
}

/// The positions of the users the list shows, in the order shown: the kept users (see
/// [`user_kept`], the search trimmed and lower-cased) by server name and then lower-cased
/// user name, users of equal keys in their given order.
pub fn user_list_order(users: &Vec<UserListKey>, search: Option<&str>, status: UserStatusFilter) -> (r: Vec<usize>)
    ensures
        ({
            let s = unicode_lowercase(
                trim(
                    match search {
                        Some(v) => v@,
                        None => Seq::empty(),
                    },
                ),
            );
            ordered_upto(r@.map_values(|x: usize| x as int), users@, s, status, users@.len() as int)
        }),
{
    let raw = match search {
        Some(v) => string_of(&trimmed(v)),
        None => String::new(),
    };
    let s = to_lowercase(raw.as_str());
    let sv = chars_of(s.as_str());
    let ghost sl = s@;
    let mut out: Vec<usize> = Vec::new();
    let mut keys: Vec<(String, String)> = Vec::new();
    let mut i: usize = 0;
    while i < users.len()
        invariant
            i <= users@.len(),
            sv@ == sl,
            out@.len() == keys@.len(),
            forall|k: int|
                0 <= k < keys@.len() ==> (#[trigger] keys@[k]).0@ == user_key(users@[out@[k] as int]).0 && keys@[k].1@
                    == user_key(users@[out@[k] as int]).1,
            ordered_upto(out@.map_values(|x: usize| x as int), users@, sl, status, i as int),
        decreases users@.len() - i,
    {
        let ghost om = out@.map_values(|x: usize| x as int);
        let u = &users[i];
        let lname = to_lowercase(u.name.as_str());
        let lserver = to_lowercase(u.server_name.as_str());
        let matches_search = sv.len() == 0 || contains_chars(&chars_of(lname.as_str()), &sv)
            || contains_chars(&chars_of(lserver.as_str()), &sv);
        let matches_status = match status {
            UserStatusFilter::Disabled => u.is_disabled,
            UserStatusFilter::Enabled => !u.is_disabled,
            UserStatusFilter::All => true,
        };
        if matches_search && matches_status {
            let mut p: usize = 0;
            while p < out.len() && !(str_less(u.server_name.as_str(), keys[p].0.as_str()) || (
            crate::strmap::str_eq(u.server_name.as_str(), keys[p].0.as_str()) && str_less(
                lname.as_str(),
                keys[p].1.as_str(),
            )))
                invariant
                    p <= out@.len(),
                    out@.len() == keys@.len(),
                    lname@ == unicode_lowercase(u.name@),
                    forall|k: int|
                        0 <= k < p ==> !pair_less(
                            user_key(*u),
                            (#[trigger] keys@[k].0@, keys@[k].1@),
                        ),
                decreases out@.len() - p,
            {
                p = p + 1;
            }
            proof {
                assert forall|k: int| 0 <= k < p implies !pair_less(user_key(users@[i as int]), user_key(users@[#[trigger] om[k]])) by {
                    assert(keys@[k].0@ == user_key(users@[out@[k] as int]).0);
                }
                if p < out@.len() {
                    assert(keys@[p as int].0@ == user_key(users@[out@[p as int] as int]).0);
                }
                lemma_insert_user(om, users@, sl, status, i as int, p as int);
            }
            out.insert(p, i);
            keys.insert(p, (String::from_str(u.server_name.as_str()), lname));
            proof {
                assert(out@.map_values(|x: usize| x as int) =~= om.insert(p as int, i as int));
                assert forall|k: int|
                    0 <= k < keys@.len() implies (#[trigger] keys@[k]).0@ == user_key(users@[out@[k] as int]).0 && keys@[k].1@
                        == user_key(users@[out@[k] as int]).1 by {
                }
            }
        } else {
            proof {
                assert forall|j: int| 0 <= j < i + 1 && user_kept(#[trigger] users@[j], sl, status) implies om.contains(j) by {
                    if j == i {
                        assert(false);
                    }
                }
            }
        }
        i = i + 1;
    }
    out
}


/// All positions below `i`, each once, in order of their names, equal names in position
/// order.
pub open spec fn names_ordered_upto(out: Seq<int>, names: Seq<Seq<char>>, i: int) -> bool {
    &&& out.len() == i
    &&& forall|k: int| 0 <= k < out.len() ==> 0 <= #[trigger] out[k] < i
    &&& forall|j: int| 0 <= j < i ==> #[trigger] out.contains(j)
    &&& forall|a: int, b: int| 0 <= a < b < out.len() ==> #[trigger] out[a] != #[trigger] out[b]
    &&& forall|a: int, b: int| 0 <= a < b < out.len() ==> !lex_less(names[#[trigger] out[b]], names[#[trigger] out[a]])
    &&& forall|a: int, b: int| 0 <= a < b < out.len() && names[out[a]] == names[out[b]] ==> #[trigger] out[a] < #[trigger] out[b]
}

proof fn lemma_insert_name(out: Seq<int>, names: Seq<Seq<char>>, i: int, p: int)
    requires
        names_ordered_upto(out, names, i),
        0 <= i < names.len(),
        0 <= p <= out.len(),
        forall|k: int| 0 <= k < p ==> !lex_less(names[i], names[#[trigger] out[k]]),
        p < out.len() ==> lex_less(names[i], names[out[p]]),
    ensures
        names_ordered_upto(out.insert(p, i), names, i + 1),
{
    let n = out.insert(p, i);
    let key = names[i];
    assert forall|k: int| 0 <= k < n.len() implies 0 <= #[trigger] n[k] < i + 1 by {
        if k < p {
            assert(n[k] == out[k]);
        } else if k > p {
            assert(n[k] == out[k - 1]);
        }
    }
    assert forall|j: int| 0 <= j < i + 1 implies #[trigger] n.contains(j) by {
        if j == i {
            assert(n[p] == i);
        } else {
            assert(out.contains(j));
            let k = choose|k: int| 0 <= k < out.len() && out[k] == j;
            if k < p {
                assert(n[k] == j);
            } else {
                assert(n[k + 1] == j);
            }
        }
    }
    assert forall|a: int, b: int| 0 <= a < b < n.len() implies #[trigger] n[a] != #[trigger] n[b]
        && !lex_less(names[n[b]], names[n[a]]) && (names[n[a]] == names[n[b]] ==> n[a] < n[b]) by {
        let oa = if a < p { a } else { a - 1 };
        let ob = if b < p { b } else { b - 1 };
        if a != p && b != p {
            assert(n[a] == out[oa] && n[b] == out[ob]);
        } else if b == p {
            assert(n[a] == out[a]);
            assert(0 <= out[a] < i);
        } else {
            assert(n[b] == out[ob]);
            assert(0 <= out[ob] < i);
            let kp = names[out[p]];
            let kb = names[out[ob]];
            if ob > p {
                assert(!lex_less(kb, kp));
                lemma_lex_total(kp, kb);
                if kp != kb {
                    lemma_lex_transitive(key, kp, kb);
                }
            }
            assert(lex_less(key, kb));
            lemma_lex_asymmetric(key, kb);
            lemma_lex_irreflexive(key);
        }
    }
}

/// The positions of names in the order of the names (`String` order), equal names in their
/// given order: the order in which the servers are offered.
pub fn order_by_name(names: &Vec<String>) -> (r: Vec<usize>)
    ensures
        names_ordered_upto(
            r@.map_values(|x: usize| x as int),
            crate::text::string_views(names@),
            names@.len() as int,
        ),
{
    let ghost nv = crate::text::string_views(names@);
    let mut out: Vec<usize> = Vec::new();
    let mut i: usize = 0;
    while i < names.len()
        invariant
            i <= names@.len(),
            nv == crate::text::string_views(names@),
            forall|k: int| 0 <= k < out@.len() ==> (#[trigger] out@[k]) < names@.len(),
            names_ordered_upto(out@.map_values(|x: usize| x as int), nv, i as int),
        decreases names@.len() - i,
    {
        let ghost om = out@.map_values(|x: usize| x as int);
        let mut p: usize = 0;
        while p < out.len() && !str_less(names[i].as_str(), names[out[p]].as_str())
            invariant
                p <= out@.len(),
                i < names@.len(),
                nv == crate::text::string_views(names@),
                om == out@.map_values(|x: usize| x as int),
                forall|k: int| 0 <= k < out@.len() ==> (#[trigger] out@[k]) < names@.len(),
                forall|k: int| 0 <= k < p ==> !lex_less(nv[i as int], nv[#[trigger] om[k]]),
            decreases out@.len() - p,
        {
            proof {
                assert(nv[om[p as int]] == names@[out@[p as int] as int]@);
            }
            p = p + 1;
        }
        proof {
            if p < out@.len() {
                assert(nv[om[p as int]] == names@[out@[p as int] as int]@);
            }
            lemma_insert_name(om, nv, i as int, p as int);
        }
        out.insert(p, i);
        proof {
            assert(out@.map_values(|x: usize| x as int) =~= om.insert(p as int, i as int));
        }
        i = i + 1;
    }
    out
}

} // verus!
