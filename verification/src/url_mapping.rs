//! Rewrite rules for the links in `.strm` files: one `from => to` rule per line, `from` a
//! literal address or, after `regex:`, a regular expression.

use vstd::prelude::*;
use vstd::string::StringExecFns;
use crate::text::{
    chars_of, decimal, decimal_string, lines, lines_chars, replace_all, replace_chars, slice_chars,
    split_once, split_once_chars, starts_with, starts_with_chars, string_of, trim, trim_chars, views,
};

verus! {

/// The text `regex::Regex::new` reports for a pattern it refuses; `None` for a pattern it
/// compiles.
pub uninterp spec fn regex_error_of(pattern: Seq<char>) -> Option<Seq<char>>;

/// `regex::Regex::new(pattern)` and the error's text when it fails. The result is named by
/// `regex_error_of` of the pattern.
#[verifier::external_body]
pub(crate) fn regex_error(pattern: &str) -> (r: Option<String>)
    ensures
        crate::text::opt_string_view(r) == regex_error_of(pattern@),
{
    regex::Regex::new(pattern).err().map(|e| e.to_string())
}

/// What `Regex::replace_all` makes of `haystack` with the regex of `pattern` and the
/// replacement `rep` (in which `$name` refers to a capture group).
pub uninterp spec fn regex_replaced(pattern: Seq<char>, haystack: Seq<char>, rep: Seq<char>) -> Seq<char>;

/// `regex::Regex::new(pattern)` then `Regex::replace_all(haystack, rep)`, for a pattern that
/// compiles. The result is named by `regex_replaced` of the three texts.
#[verifier::external_body]
pub(crate) fn regex_replace_all(pattern: &str, haystack: &str, rep: &str) -> (r: String)
    requires
        regex_error_of(pattern@) is None,
    ensures
        r@ == regex_replaced(pattern@, haystack@, rep@),
{
    match regex::Regex::new(pattern) {
        Ok(re) => re.replace_all(haystack, rep).into_owned(),
        Err(_) => haystack.to_string(),
    }
}

/// One rewrite rule: the regular expression it looks for and what replaces a match.
#[derive(Debug)]
pub struct UrlMappingRule {
    from: String,
    to: String,
}

/// The text of a rule.
pub struct RuleText {
    pub from: Seq<char>,
    pub to: Seq<char>,
}

impl View for UrlMappingRule {
    type V = RuleText;

    closed spec fn view(&self) -> RuleText {
        RuleText { from: self.from@, to: self.to@ }
    }
}

impl UrlMappingRule {
    /// The rule's pattern compiles.
    #[verifier::type_invariant]
    pub closed spec fn wf(&self) -> bool {
        regex_error_of(self.from@) is None
    }

    /// A field-by-field copy.
    pub fn duplicate(&self) -> (r: Self)
        ensures
            r == *self,
    {
        proof {
            use_type_invariant(self);
        }
        UrlMappingRule { from: self.from.clone(), to: self.to.clone() }
    }
}

impl Clone for UrlMappingRule {
    fn clone(&self) -> (r: Self)
        ensures
            r == *self,
    {
        self.duplicate()
    }
}

/// The characters with a meaning in a regular expression, as `regex::escape` knows them.
pub open spec fn is_meta(c: char) -> bool {
    c == '\\' || c == '.' || c == '+' || c == '*' || c == '?' || c == '(' || c == ')' || c == '|'
        || c == '[' || c == ']' || c == '{' || c == '}' || c == '^' || c == '$' || c == '#' || c
        == '&' || c == '-' || c == '~'
}

/// `regex::escape`: every meta character preceded by a backslash.
pub open spec fn escaped(s: Seq<char>) -> Seq<char>
    decreases s.len(),
{
    if s.len() == 0 {
        Seq::empty()
    } else {
        let e = escaped(s.drop_last());
        if is_meta(s.last()) {
            e.push('\\').push(s.last())
        } else {
            e.push(s.last())
        }
    }
}

fn escape_chars(v: &Vec<char>) -> (r: Vec<char>)
    ensures
        r@ == escaped(v@),
{
    let mut r: Vec<char> = Vec::new();
    let mut i: usize = 0;
    assert(v@.take(0) =~= Seq::<char>::empty());
    while i < v.len()
        invariant
            i <= v@.len(),
            r@ == escaped(v@.take(i as int)),
        decreases v@.len() - i,
    {
        let c = v[i];
        assert(v@.take(i + 1).drop_last() =~= v@.take(i as int));
        assert(v@.take(i + 1).last() == c);
        if c == '\\' || c == '.' || c == '+' || c == '*' || c == '?' || c == '(' || c == ')' || c
            == '|' || c == '[' || c == ']' || c == '{' || c == '}' || c == '^' || c == '$' || c
            == '#' || c == '&' || c == '-' || c == '~' {
            r.push('\\');
        }
        r.push(c);
        i = i + 1;
    }
    assert(v@.take(v@.len() as int) =~= v@);
    r
}

/// The pattern of a literal rule: `\.` read as `.`, then everything escaped.
pub open spec fn literal_pattern(from: Seq<char>) -> Seq<char> {
    escaped(replace_all(from, "\\."@, "."@))
}

/// What one line of the rules gives: nothing for a blank or `#` line, a rule, or the error
/// for line number `n`.
pub open spec fn rule_line(line: Seq<char>, n: nat) -> Result<Option<RuleText>, Seq<char>> {
    let t = trim(line);
    if t.len() == 0 || starts_with(t, "#"@) {
        Ok(None)
    } else {
        match split_once(t, "=>"@) {
            None => Err(
                "invalid strm_url_mappings line "@ + decimal(n) + ": expected `from => to`"@,
            ),
            Some((f, to)) => {
                let from = trim(f);
                let to = trim(to);
                if from.len() == 0 || to.len() == 0 {
                    Err(
                        "invalid strm_url_mappings line "@ + decimal(n)
                            + ": from and to cannot be empty"@,
                    )
                } else {
                    let pattern = if starts_with(from, "regex:"@) {
                        trim(from.subrange(6, from.len() as int))
                    } else {
                        literal_pattern(from)
                    };
                    match regex_error_of(pattern) {
                        Some(e) => Err(
                            "invalid strm_url_mappings regex at line "@ + decimal(n) + ": "@ + e,
                        ),
                        None => Ok(Some(RuleText { from: pattern, to: to })),
                    }
                }
            },
        }
    }
}

/// The rules of the first `k` lines, or the error of the first bad one.
pub open spec fn rules_of(ls: Seq<Seq<char>>, k: int) -> Result<Seq<RuleText>, Seq<char>>
    decreases k,
{
    if k <= 0 {
        Ok(Seq::empty())
    } else {
        match rules_of(ls, k - 1) {
            Err(e) => Err(e),
            Ok(rs) => match rule_line(ls[k - 1], k as nat) {
                Err(e) => Err(e),
                Ok(None) => Ok(rs),
                Ok(Some(r)) => Ok(rs.push(r)),
            },
        }
    }
}

proof fn lemma_rules_error_stays(ls: Seq<Seq<char>>, k: int, j: int)
    requires
        0 < k <= j,
        rules_of(ls, k) is Err,
    ensures
        rules_of(ls, j) == rules_of(ls, k),
    decreases j - k,
{
    if j > k {
        lemma_rules_error_stays(ls, k, j - 1);
    }
}

pub open spec fn rule_texts(rs: Seq<UrlMappingRule>) -> Seq<RuleText> {
    rs.map_values(|r: UrlMappingRule| r@)
}

fn parse_line(line: &Vec<char>, n: usize) -> (r: Result<Option<UrlMappingRule>, String>)
    ensures
        match r {
            Ok(Some(rule)) => rule_line(line@, n as nat) == Ok::<Option<RuleText>, Seq<char>>(
                Some(rule@),
            ) && rule.wf(),
            Ok(None) => rule_line(line@, n as nat) == Ok::<Option<RuleText>, Seq<char>>(None),
            Err(e) => rule_line(line@, n as nat) == Err::<Option<RuleText>, Seq<char>>(e@),
        },
{
    proof {
        reveal_strlit("#");
        reveal_strlit("=>");
        reveal_strlit("regex:");
        reveal_strlit("\\.");
        reveal_strlit(".");
    }
    let t = trim_chars(line);
    let hash = chars_of("#");
    if t.len() == 0 || starts_with_chars(&t, &hash) {
        return Ok(None);
    }
    let arrow = chars_of("=>");
    let (f, to) = match split_once_chars(&t, &arrow) {
        Some(parts) => parts,
        None => {
            let mut e = String::from_str("invalid strm_url_mappings line ");
            let d = decimal_string(n as u64);
            e.append(d.as_str());
            e.append(": expected `from => to`");
            return Err(e);
        },
    };
    let from = trim_chars(&f);
    let to = trim_chars(&to);
    if from.len() == 0 || to.len() == 0 {
        let mut e = String::from_str("invalid strm_url_mappings line ");
        let d = decimal_string(n as u64);
        e.append(d.as_str());
        e.append(": from and to cannot be empty");
        return Err(e);
    }
    let prefix = chars_of("regex:");
    let pattern = if starts_with_chars(&from, &prefix) {
        let rest = slice_chars(&from, 6, from.len());
        trim_chars(&rest)
    } else {
        let dotted = chars_of("\\.");
        let dot = chars_of(".");
        let plain = replace_chars(&from, &dotted, &dot);
        escape_chars(&plain)
    };
    let ps = string_of(&pattern);
    match regex_error(ps.as_str()) {
        Some(err) => {
            let mut e = String::from_str("invalid strm_url_mappings regex at line ");
            let d = decimal_string(n as u64);
            e.append(d.as_str());
            e.append(": ");
            e.append(err.as_str());
            Err(e)
        },
        None => Ok(Some(UrlMappingRule { from: ps, to: string_of(&to) })),
    }
}

/// The rules of a text, one per line (see [`rule_line`]); the first bad line's error.
pub fn parse_rules(text: &str) -> (r: Result<Vec<UrlMappingRule>, String>)
    ensures
        match r {
            Ok(rs) => rules_of(lines(text@), lines(text@).len() as int) == Ok::<
                Seq<RuleText>,
                Seq<char>,
            >(rule_texts(rs@)) && forall|i: int| 0 <= i < rs@.len() ==> (#[trigger] rs@[i]).wf(),
            Err(e) => rules_of(lines(text@), lines(text@).len() as int) == Err::<
                Seq<RuleText>,
                Seq<char>,
            >(e@),
        },
{
    let v = chars_of(text);
    let ls = lines_chars(&v);
    let ghost lv = views(ls@);
    let mut rules: Vec<UrlMappingRule> = Vec::new();
    let mut k: usize = 0;
    assert(rule_texts(rules@) =~= Seq::<RuleText>::empty());
    while k < ls.len()
        invariant
            k <= ls@.len(),
            lv == views(ls@),
            lv == lines(text@),
            rules_of(lv, k as int) == Ok::<Seq<RuleText>, Seq<char>>(rule_texts(rules@)),
            forall|i: int| 0 <= i < rules@.len() ==> (#[trigger] rules@[i]).wf(),
        decreases ls@.len() - k,
    {
        assert(lv[k as int] == ls@[k as int]@);
        match parse_line(&ls[k], k + 1) {
            Err(e) => {
                proof {
                    lemma_rules_error_stays(lv, k + 1, lv.len() as int);
                }
                return Err(e);
            },
            Ok(None) => {},
            Ok(Some(rule)) => {
                let ghost r0 = rule_texts(rules@);
                rules.push(rule);
                assert(rule_texts(rules@) =~= r0.push(rule@));
            },
        }
        k = k + 1;
    }
    Ok(rules)
}

/// The value with every rule applied in turn.
pub open spec fn applied(value: Seq<char>, rs: Seq<RuleText>) -> Seq<char>
    decreases rs.len(),
{
    if rs.len() == 0 {
        value
    } else {
        regex_replaced(rs.last().from, applied(value, rs.drop_last()), rs.last().to)
    }
}

/// One rule applied to a value: each match of its pattern replaced.
pub open spec fn rule_step(value: Seq<char>, rule: RuleText) -> Seq<char> {
    regex_replaced(rule.from, value, rule.to)
}

/// Every rule is applied, in order, each to what the rules before it gave: the result is the
/// left fold of the rules over the value, and one more rule at the end is applied to the
/// result of the others.
pub proof fn lemma_rules_apply_in_turn(value: Seq<char>, rs: Seq<RuleText>, r: RuleText)
    ensures
        applied(value, rs) == rs.fold_left(value, |acc: Seq<char>, x: RuleText| rule_step(acc, x)),
        applied(value, rs.push(r)) == regex_replaced(r.from, applied(value, rs), r.to),
        applied(value, Seq::<RuleText>::empty()) == value,
    decreases rs.len(),
{
    if rs.len() > 0 {
        lemma_rules_apply_in_turn(value, rs.drop_last(), rs.last());
    }
    assert(rs.push(r).drop_last() =~= rs);
}

/// Applies every rule in turn to the value.
pub fn apply_rules(value: &str, rules: &[UrlMappingRule]) -> (r: String)
    ensures
        r@ == applied(value@, rule_texts(rules@)),
{
    let mut current = String::from_str(value);
    let mut i: usize = 0;
    assert(rule_texts(rules@).take(0) =~= Seq::<RuleText>::empty());
    while i < rules.len()
        invariant
            i <= rules@.len(),
            current@ == applied(value@, rule_texts(rules@).take(i as int)),
        decreases rules@.len() - i,
    {
        let rule = &rules[i];
        assert(rule_texts(rules@).take(i + 1).drop_last() =~= rule_texts(rules@).take(i as int));
        assert(rule_texts(rules@).take(i + 1).last() == rule@);
        proof {
            use_type_invariant(rule);
        }
        current = regex_replace_all(rule.from.as_str(), current.as_str(), rule.to.as_str());
        i = i + 1;
    }
    assert(rule_texts(rules@).take(rules@.len() as int) =~= rule_texts(rules@));
    current
}

} // verus!
