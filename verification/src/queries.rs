//! How the request-detail and audit-log queries are made up from their filters.

use vstd::prelude::*;
use vstd::string::StringExecFns;
use crate::db::{AuditLogEntry, ProxyRequestDetailFilter};
use crate::text::{chars_of, contains, contains_chars, lower, lower_chars, string_of, trim, trimmed};

verus! {

/// A value bound to a query placeholder.
#[derive(Debug, Clone, PartialEq, Eq)]
pub enum SqlParam {
    Text(String),
    Int(i64),
}

/// The view of a bound value.
pub enum SqlParamView {
    Text(Seq<char>),
    Int(i64),
}

pub open spec fn param_view(p: SqlParam) -> SqlParamView {
    match p {
        SqlParam::Text(s) => SqlParamView::Text(s@),
        SqlParam::Int(n) => SqlParamView::Int(n),
    }
}

pub open spec fn param_views(ps: Seq<SqlParam>) -> Seq<SqlParamView> {
    ps.map_values(|p: SqlParam| param_view(p))
}

/// The condition that searches the text columns of request details for a keyword.
pub const KEYWORD_CONDITION: &'static str = "(lower(server_name) LIKE ? OR lower(method) LIKE ? OR lower(path) LIKE ? OR lower(path_type) LIKE ? OR lower(outcome) LIKE ? OR lower(playback_user) LIKE ? OR lower(playback_ip) LIKE ? OR lower(detail) LIKE ?)";

/// The search keyword of a filter: trimmed, absent when empty.
pub open spec fn keyword_of(keyword: Option<&str>) -> Option<Seq<char>> {
    match keyword {
        Some(k) => if trim(k@).len() > 0 {
            Some(trim(k@))
        } else {
            None
        },
        None => None,
    }
}

/// The conditions of a request-detail query, in order.
pub open spec fn detail_conditions(f: ProxyRequestDetailFilter) -> Seq<Seq<char>> {
    (if f.server_id is Some { seq!["server_id = ?"@] } else { seq![] })
        + (if f.path_type is Some { seq!["path_type = ?"@] } else { seq![] })
        + (if f.since_ms is Some { seq!["timestamp_ms >= ?"@] } else { seq![] })
        + (if f.until_ms is Some { seq!["timestamp_ms <= ?"@] } else { seq![] })
        + (if keyword_of(f.keyword) is Some { seq![KEYWORD_CONDITION@] } else { seq![] })
}

/// The values bound to the conditions of a request-detail query, in order: the keyword, as
/// `%keyword%` in ASCII lower case, once for each of the eight columns it searches.
pub open spec fn detail_params(f: ProxyRequestDetailFilter) -> Seq<SqlParamView> {
    (match f.server_id { Some(s) => seq![SqlParamView::Text(s@)], None => seq![] })
        + (match f.path_type { Some(s) => seq![SqlParamView::Text(s@)], None => seq![] })
        + (match f.since_ms { Some(t) => seq![SqlParamView::Int(t as i64)], None => seq![] })
        + (match f.until_ms { Some(t) => seq![SqlParamView::Int(t as i64)], None => seq![] })
        + (match keyword_of(f.keyword) {
            Some(k) => Seq::new(8, |_i: int| SqlParamView::Text("%"@ + lower(k) + "%"@)),
            None => seq![],
        })
}

/// The `WHERE` clause of conditions: empty without any, else `WHERE ` and the conditions
/// joined by ` AND `.
pub open spec fn where_clause_spec(conds: Seq<Seq<char>>) -> Seq<char> {
    if conds.len() == 0 {
        Seq::empty()
    } else {
        "WHERE "@ + crate::text::join(conds, " AND "@)
    }
}

/// The parts of a request-detail query that depend on its filter.
#[derive(Debug)]
pub struct DetailQuery {
    pub where_clause: String,
    pub params: Vec<SqlParam>,
    pub limit: i64,
}

fn push_text(params: &mut Vec<SqlParam>, s: &str)
    ensures
        param_views(final(params)@) == param_views(old(params)@).push(SqlParamView::Text(s@)),
{
    let ghost before = param_views(params@);
    params.push(SqlParam::Text(String::from_str(s)));
    assert(param_views(params@) =~= before.push(SqlParamView::Text(s@)));
}

fn push_int(params: &mut Vec<SqlParam>, n: i64)
    ensures
        param_views(final(params)@) == param_views(old(params)@).push(SqlParamView::Int(n)),
{
    let ghost before = param_views(params@);
    params.push(SqlParam::Int(n));
    assert(param_views(params@) =~= before.push(SqlParamView::Int(n)));
}

fn push_cond(conds: &mut Vec<Vec<char>>, s: &str)
    ensures
        crate::text::views(final(conds)@) == crate::text::views(old(conds)@).push(s@),
{
    let ghost before = crate::text::views(conds@);
    conds.push(chars_of(s));
    assert(crate::text::views(conds@) =~= before.push(s@));
}

fn add_text_filter(conds: &mut Vec<Vec<char>>, params: &mut Vec<SqlParam>, value: Option<&str>, cond: &str)
    ensures
        crate::text::views(final(conds)@) == crate::text::views(old(conds)@) + (if value is Some {
            seq![cond@]
        } else {
            seq![]
        }),
        param_views(final(params)@) == param_views(old(params)@) + match value {
            Some(s) => seq![SqlParamView::Text(s@)],
            None => seq![],
        },
{
    let ghost c0 = crate::text::views(conds@);
    let ghost p0 = param_views(params@);
    match value {
        Some(s) => {
            push_cond(conds, cond);
            push_text(params, s);
            assert(crate::text::views(conds@) =~= c0 + seq![cond@]);
            assert(param_views(params@) =~= p0 + seq![SqlParamView::Text(s@)]);
        },
        None => {
            assert(c0 + Seq::<Seq<char>>::empty() =~= c0);
            assert(p0 + Seq::<SqlParamView>::empty() =~= p0);
        },
    }
}

fn add_time_filter(conds: &mut Vec<Vec<char>>, params: &mut Vec<SqlParam>, value: Option<u128>, cond: &str)
    ensures
        crate::text::views(final(conds)@) == crate::text::views(old(conds)@) + (if value is Some {
            seq![cond@]
        } else {
            seq![]
        }),
        param_views(final(params)@) == param_views(old(params)@) + match value {
            Some(t) => seq![SqlParamView::Int(t as i64)],
            None => seq![],
        },
{
    let ghost c0 = crate::text::views(conds@);
    let ghost p0 = param_views(params@);
    match value {
        Some(t) => {
            push_cond(conds, cond);
            push_int(params, t as i64);
            assert(crate::text::views(conds@) =~= c0 + seq![cond@]);
            assert(param_views(params@) =~= p0 + seq![SqlParamView::Int(t as i64)]);
        },
        None => {
            assert(c0 + Seq::<Seq<char>>::empty() =~= c0);
            assert(p0 + Seq::<SqlParamView>::empty() =~= p0);
        },
    }
}

fn add_keyword_filter(conds: &mut Vec<Vec<char>>, params: &mut Vec<SqlParam>, keyword: Option<&str>)
    ensures
        crate::text::views(final(conds)@) == crate::text::views(old(conds)@) + (if keyword_of(keyword) is Some {
            seq![KEYWORD_CONDITION@]
        } else {
            seq![]
        }),
        param_views(final(params)@) == param_views(old(params)@) + match keyword_of(keyword) {
            Some(k) => Seq::new(8, |_i: int| SqlParamView::Text("%"@ + lower(k) + "%"@)),
            None => seq![],
        },
{
    let ghost c0 = crate::text::views(conds@);
    let ghost p0 = param_views(params@);
    let t = match keyword {
        Some(k) => trimmed(k),
        None => Vec::new(),
    };
    if t.len() == 0 {
        assert(c0 + Seq::<Seq<char>>::empty() =~= c0);
        assert(p0 + Seq::<SqlParamView>::empty() =~= p0);
        return;
    }
    push_cond(conds, KEYWORD_CONDITION);
    assert(crate::text::views(conds@) =~= c0 + seq![KEYWORD_CONDITION@]);
    let mut pattern = String::from_str("%");
    let l = lower_chars(&t);
    let ls = string_of(&l);
    pattern.append(ls.as_str());
    pattern.append("%");
    let mut n: usize = 0;
    while n < 8
        invariant
            n <= 8,
            pattern@ == "%"@ + lower(t@) + "%"@,
            param_views(params@) == p0 + Seq::new(n as nat, |_i: int| SqlParamView::Text(pattern@)),
        decreases 8 - n,
    {
        push_text(params, pattern.as_str());
        proof {
            assert(p0 + Seq::new((n + 1) as nat, |_i: int| SqlParamView::Text(pattern@)) =~= (p0 + Seq::new(
                n as nat,
                |_i: int| SqlParamView::Text(pattern@),
            )).push(SqlParamView::Text(pattern@)));
        }
        n = n + 1;
    }
}

/// The condition clause, bound values and row limit (between 1 and 500) of a request-detail
/// query.
pub fn detail_query(filter: &ProxyRequestDetailFilter) -> (r: DetailQuery)
    ensures
        r.where_clause@ == where_clause_spec(detail_conditions(*filter)),
        param_views(r.params@) == detail_params(*filter),
        r.limit == if filter.limit < 1 { 1 } else if filter.limit > 500 { 500 } else { filter.limit as int },
{
    let mut conds: Vec<Vec<char>> = Vec::new();
    let mut params: Vec<SqlParam> = Vec::new();
    proof {
        assert(crate::text::views(conds@) =~= Seq::<Seq<char>>::empty());
        assert(param_views(params@) =~= Seq::<SqlParamView>::empty());
    }
    add_text_filter(&mut conds, &mut params, filter.server_id, "server_id = ?");
    add_text_filter(&mut conds, &mut params, filter.path_type, "path_type = ?");
    add_time_filter(&mut conds, &mut params, filter.since_ms, "timestamp_ms >= ?");
    add_time_filter(&mut conds, &mut params, filter.until_ms, "timestamp_ms <= ?");
    add_keyword_filter(&mut conds, &mut params, filter.keyword);
    proof {
        assert(crate::text::views(conds@) =~= detail_conditions(*filter));
        assert(param_views(params@) =~= detail_params(*filter));
    }
    let where_clause = if conds.len() == 0 {
        String::new()
    } else {
        let sep = chars_of(" AND ");
        let joined = crate::text::join_chars(&conds, &sep);
        let mut w = String::from_str("WHERE ");
        let js = string_of(&joined);
        w.append(js.as_str());
        w
    };
    let limit: i64 = if filter.limit < 1 {
        1
    } else if filter.limit > 500 {
        500
    } else {
        filter.limit as i64
    };
    DetailQuery { where_clause, params, limit }
}

/// An audit entry passes the filters: the action when one other than `all` is given, and the
/// keyword (lower-cased, not trimmed) in the lower-cased `user action summary result`.
pub open spec fn audit_passes(e: AuditLogEntry, action: Option<&str>, keyword: Option<&str>) -> bool {
    &&& match action {
        Some(a) => a@ == "all"@ || a@ == e.action@,
        None => true,
    }
    &&& match keyword {
        Some(k) => contains(
            lower(e.admin_username@ + " "@ + e.action@ + " "@ + e.summary@ + " "@ + e.result@),
            lower(k@),
        ),
        None => true,
    }
}

/// The positions of the entries that pass, in order.
pub open spec fn passing_audit(s: Seq<AuditLogEntry>, action: Option<&str>, keyword: Option<&str>) -> Seq<int>
    decreases s.len(),
{
    if s.len() == 0 {
        Seq::empty()
    } else {
        let p = passing_audit(s.drop_last(), action, keyword);
        if audit_passes(s.last(), action, keyword) {
            p.push(s.len() - 1)
        } else {
            p
        }
    }
}

proof fn lemma_passing_audit_bounds(s: Seq<AuditLogEntry>, action: Option<&str>, keyword: Option<&str>)
    ensures
        forall|k: int|
            0 <= k < passing_audit(s, action, keyword).len() ==> 0 <= #[trigger] passing_audit(s, action, keyword)[k]
                < s.len(),
    decreases s.len(),
{
    if s.len() > 0 {
        lemma_passing_audit_bounds(s.drop_last(), action, keyword);
        let p = passing_audit(s.drop_last(), action, keyword);
        assert forall|k: int| 0 <= k < passing_audit(s, action, keyword).len() implies 0
            <= #[trigger] passing_audit(s, action, keyword)[k] < s.len() by {
            if k < p.len() {
                assert(passing_audit(s, action, keyword)[k] == p[k]);
            }
        }
    }
}

fn audit_passes_exec(e: &AuditLogEntry, action: Option<&str>, keyword: Option<&str>) -> (r: bool)
    ensures
        r == audit_passes(*e, action, keyword),
{
    let action_ok = match action {
        Some(a) => crate::strmap::str_eq(a, "all") || crate::strmap::str_eq(a, e.action.as_str()),
        None => true,
    };
    if !action_ok {
        return false;
    }
    match keyword {
        Some(k) => {
            let mut h = e.admin_username.clone();
            h.append(" ");
            h.append(e.action.as_str());
            h.append(" ");
            h.append(e.summary.as_str());
            h.append(" ");
            h.append(e.result.as_str());
            let hl = lower_chars(&chars_of(h.as_str()));
            let kl = lower_chars(&chars_of(k));
            contains_chars(&hl, &kl)
        },
        None => true,
    }
}

/// The audit entries shown: the first `limit` (held between 1 and 500) of those that pass the
/// filters, in their order.
pub fn filter_audit_logs(entries: Vec<AuditLogEntry>, action: Option<&str>, keyword: Option<&str>, limit: usize) -> (r: Vec<
    AuditLogEntry,
>)
    ensures
        ({
            let n = if limit < 1 { 1 } else if limit > 500 { 500 } else { limit as int };
            let picked = passing_audit(entries@, action, keyword);
            let m = if picked.len() < n { picked.len() as int } else { n };
            &&& r@.len() == m
            &&& forall|k: int| 0 <= k < m ==> #[trigger] r@[k] == entries@[picked[k]]
        }),
{
    let n: usize = if limit < 1 {
        1
    } else if limit > 500 {
        500
    } else {
        limit
    };
    let ghost all = entries@;
    proof {
        lemma_passing_audit_bounds(all, action, keyword);
    }
    let mut rest = entries;
    let mut out: Vec<AuditLogEntry> = Vec::new();
    let mut i: usize = 0;
    let total = rest.len();
    while i < total && out.len() < n
        invariant
            total == all.len(),
            i <= total,
            rest@ == all.skip(i as int),
            1 <= n <= 500,
            out@.len() <= n,
            out@.len() == passing_audit(all.take(i as int), action, keyword).len(),
            forall|k: int|
                0 <= k < out@.len() ==> #[trigger] out@[k] == all[passing_audit(all.take(i as int), action, keyword)[k]],
        decreases total - i,
    {
        let ghost pre = all.take(i as int);
        let ghost post = all.take(i + 1);
        proof {
            assert(post.drop_last() =~= pre);
            assert(post.last() == all[i as int]);
            lemma_passing_audit_bounds(pre, action, keyword);
        }
        let e = rest.remove(0);
        proof {
            assert(e == all[i as int]);
            assert(rest@ =~= all.skip(i + 1));
        }
        if audit_passes_exec(&e, action, keyword) {
            out.push(e);
        }
        i = i + 1;
    }
    proof {
        let picked = passing_audit(all, action, keyword);
        let pi = passing_audit(all.take(i as int), action, keyword);
        lemma_passing_prefix(all, i as int, action, keyword);
        if out@.len() < n {
            assert(i == total);
            assert(all.take(i as int) =~= all);
        }
    }
    out
}

proof fn lemma_passing_prefix(s: Seq<AuditLogEntry>, i: int, action: Option<&str>, keyword: Option<&str>)
    requires
        0 <= i <= s.len(),
    ensures
        passing_audit(s.take(i), action, keyword).len() <= passing_audit(s, action, keyword).len(),
        forall|k: int|
            0 <= k < passing_audit(s.take(i), action, keyword).len() ==> #[trigger] passing_audit(s.take(i), action, keyword)[k]
                == passing_audit(s, action, keyword)[k],
    decreases s.len() - i,
{
    if i < s.len() {
        lemma_passing_prefix(s, i + 1, action, keyword);
        assert(s.take(i + 1).drop_last() =~= s.take(i));
        let a = passing_audit(s.take(i), action, keyword);
        let b = passing_audit(s.take(i + 1), action, keyword);
        assert(a.len() <= b.len());
        assert forall|k: int| 0 <= k < a.len() implies #[trigger] a[k] == passing_audit(s, action, keyword)[k] by {
            assert(a[k] == b[k]);
        }
    } else {
        assert(s.take(i) =~= s);
    }
}

} // verus!
