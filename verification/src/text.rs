//! Character-level text helpers and their mathematical meaning.

use vstd::prelude::*;
use vstd::string::StringExecFns;

verus! {

/// Unicode `White_Space` code points, the set that `char::is_whitespace` and `str::trim` use.
pub open spec fn is_space(c: char) -> bool {
    let u = c as u32;
    ||| 0x09 <= u <= 0x0d
    ||| u == 0x20
    ||| u == 0x85
    ||| u == 0xa0
    ||| u == 0x1680
    ||| 0x2000 <= u <= 0x200a
    ||| u == 0x2028
    ||| u == 0x2029
    ||| u == 0x202f
    ||| u == 0x205f
    ||| u == 0x3000
}

/// Index of the first character at or after `i` that is not a space.
pub open spec fn lead_end(s: Seq<char>, i: int) -> int
    decreases s.len() - i,
{
    if 0 <= i < s.len() && is_space(s[i]) {
        lead_end(s, i + 1)
    } else {
        i
    }
}

/// Index just past the last character before `j` that is not a space.
pub open spec fn trail_start(s: Seq<char>, j: int) -> int
    decreases j,
{
    if 0 < j <= s.len() && is_space(s[j - 1]) {
        trail_start(s, j - 1)
    } else {
        j
    }
}

/// `s` without leading and trailing white space, as `str::trim` gives it.
pub open spec fn trim(s: Seq<char>) -> Seq<char> {
    let a = lead_end(s, 0);
    let b = trail_start(s, s.len() as int);
    if a < b {
        s.subrange(a, b)
    } else {
        Seq::empty()
    }
}

pub fn is_space_char(c: char) -> (b: bool)
    ensures
        b == is_space(c),
{
    let u = c as u32;
    (0x09 <= u && u <= 0x0d) || u == 0x20 || u == 0x85 || u == 0xa0 || u == 0x1680 || (0x2000
        <= u && u <= 0x200a) || u == 0x2028 || u == 0x2029 || u == 0x202f || u == 0x205f || u
        == 0x3000
}

#[verifier::external_body]
fn push_char(s: &mut String, c: char)
    ensures
        final(s)@ == old(s)@.push(c),
{
    s.push(c);
}

/// The characters of `s`, in order.
pub fn chars_of(s: &str) -> (v: Vec<char>)
    ensures
        v@ == s@,
{
    let mut v: Vec<char> = Vec::new();
    for c in it: s.chars()
        invariant
            v@ == it.seq().take(it.index() as int),
    {
        v.push(c);
    }
    v
}


/// ASCII lower-casing of one character, as `char::to_ascii_lowercase`.
pub open spec fn lower_char(c: char) -> char {
    if 'A' <= c <= 'Z' {
        ((c as u32) + 32) as char
    } else {
        c
    }
}

/// ASCII lower-casing of a sequence, as `str::to_ascii_lowercase`.
pub open spec fn lower(s: Seq<char>) -> Seq<char> {
    s.map_values(|c: char| lower_char(c))
}

/// Equality that ignores ASCII case, as `str::eq_ignore_ascii_case`.
pub open spec fn eq_ignore_case(a: Seq<char>, b: Seq<char>) -> bool {
    lower(a) == lower(b)
}

/// `p` occurs in `s` at index `i`.
pub open spec fn occurs_at(s: Seq<char>, p: Seq<char>, i: int) -> bool {
    0 <= i && i + p.len() <= s.len() && s.subrange(i, i + p.len()) == p
}

/// `p` occurs somewhere in `s`, as `str::contains`.
pub open spec fn contains(s: Seq<char>, p: Seq<char>) -> bool {
    exists|i: int| occurs_at(s, p, i)
}

pub open spec fn starts_with(s: Seq<char>, p: Seq<char>) -> bool {
    occurs_at(s, p, 0)
}

pub open spec fn ends_with(s: Seq<char>, p: Seq<char>) -> bool {
    occurs_at(s, p, s.len() - p.len())
}

/// The first index at or after `i` where `p` occurs in `s`, or `s.len() + 1` if none.
pub open spec fn first_occurrence_from(s: Seq<char>, p: Seq<char>, i: int) -> int
    decreases s.len() + 1 - i,
{
    if i < 0 || i > s.len() {
        s.len() + 1int
    } else if occurs_at(s, p, i) {
        i
    } else {
        first_occurrence_from(s, p, i + 1)
    }
}

/// The first index where `p` occurs in `s`, as `str::find`.
pub open spec fn find(s: Seq<char>, p: Seq<char>) -> Option<int> {
    let i = first_occurrence_from(s, p, 0);
    if i <= s.len() {
        Some(i)
    } else {
        None
    }
}

/// `str::split_once` with a separator sequence.
pub open spec fn split_once(s: Seq<char>, sep: Seq<char>) -> Option<(Seq<char>, Seq<char>)> {
    match find(s, sep) {
        Some(i) => Some((s.subrange(0, i), s.subrange(i + sep.len(), s.len() as int))),
        None => None,
    }
}

pub fn is_space_at(v: &Vec<char>, i: usize) -> (b: bool)
    requires
        i < v@.len(),
    ensures
        b == is_space(v@[i as int]),
{
    is_space_char(v[i])
}

/// The characters of `v` as a `String`.
pub fn string_of(v: &Vec<char>) -> (s: String)
    ensures
        s@ == v@,
{
    let mut s = String::new();
    let mut i: usize = 0;
    while i < v.len()
        invariant
            i <= v@.len(),
            s@ == v@.subrange(0, i as int),
        decreases v@.len() - i,
    {
        push_char(&mut s, v[i]);
        i = i + 1;
        assert(s@ =~= v@.subrange(0, i as int));
    }
    assert(s@ =~= v@);
    s
}

/// A copy of `v@.subrange(a, b)`.
pub fn slice_chars(v: &Vec<char>, a: usize, b: usize) -> (r: Vec<char>)
    requires
        a <= b <= v@.len(),
    ensures
        r@ == v@.subrange(a as int, b as int),
{
    let mut r: Vec<char> = Vec::new();
    let mut i = a;
    while i < b
        invariant
            a <= i <= b <= v@.len(),
            r@ == v@.subrange(a as int, i as int),
        decreases b - i,
    {
        r.push(v[i]);
        i = i + 1;
        assert(r@ =~= v@.subrange(a as int, i as int));
    }
    r
}

proof fn lemma_lead_end_bounds(s: Seq<char>, i: int)
    requires
        0 <= i <= s.len(),
    ensures
        i <= lead_end(s, i) <= s.len(),
        lead_end(s, i) < s.len() ==> !is_space(s[lead_end(s, i)]),
    decreases s.len() - i,
{
    if i < s.len() && is_space(s[i]) {
        lemma_lead_end_bounds(s, i + 1);
    }
}

proof fn lemma_trail_start_bounds(s: Seq<char>, j: int)
    requires
        0 <= j <= s.len(),
    ensures
        0 <= trail_start(s, j) <= j,
        trail_start(s, j) > 0 ==> !is_space(s[trail_start(s, j) - 1]),
    decreases j,
{
    if j > 0 && is_space(s[j - 1]) {
        lemma_trail_start_bounds(s, j - 1);
    }
}

/// `trim` of the characters in `v`.
pub fn trim_chars(v: &Vec<char>) -> (r: Vec<char>)
    ensures
        r@ == trim(v@),
{
    let n = v.len();
    let mut a: usize = 0;
    while a < n && is_space_at(v, a)
        invariant
            a <= n == v@.len(),
            lead_end(v@, 0) == lead_end(v@, a as int),
        decreases n - a,
    {
        a = a + 1;
    }
    let mut b: usize = n;
    while b > 0 && is_space_at(v, b - 1)
        invariant
            b <= n == v@.len(),
            trail_start(v@, n as int) == trail_start(v@, b as int),
        decreases b,
    {
        b = b - 1;
    }
    if a < b {
        slice_chars(v, a, b)
    } else {
        Vec::new()
    }
}

/// The characters of `s` without leading and trailing white space.
pub fn trimmed(s: &str) -> (r: Vec<char>)
    ensures
        r@ == trim(s@),
{
    let v = chars_of(s);
    trim_chars(&v)
}

/// `str::trim` into an owned `String`.
pub fn trim_string(s: &str) -> (r: String)
    ensures
        r@ == trim(s@),
{
    let v = trimmed(s);
    string_of(&v)
}

pub fn lower_char_exec(c: char) -> (r: char)
    ensures
        r == lower_char(c),
{
    if 'A' <= c && c <= 'Z' {
        let u = (c as u32) + 32;
        let r = (u as u8) as char;
        assert(r == ((c as u32) + 32) as char);
        r
    } else {
        c
    }
}

/// ASCII lower-case copy of `v`.
pub fn lower_chars(v: &Vec<char>) -> (r: Vec<char>)
    ensures
        r@ == lower(v@),
{
    let mut r: Vec<char> = Vec::new();
    let mut i: usize = 0;
    while i < v.len()
        invariant
            i <= v@.len(),
            r@ == lower(v@.subrange(0, i as int)),
        decreases v@.len() - i,
    {
        r.push(lower_char_exec(v[i]));
        i = i + 1;
        assert(r@ =~= lower(v@.subrange(0, i as int)));
    }
    assert(v@.subrange(0, v@.len() as int) =~= v@);
    r
}

/// Sequence equality of two character vectors.
pub fn chars_eq(a: &Vec<char>, b: &Vec<char>) -> (r: bool)
    ensures
        r == (a@ == b@),
{
    if a.len() != b.len() {
        return false;
    }
    let mut i: usize = 0;
    while i < a.len()
        invariant
            a@.len() == b@.len(),
            i <= a@.len(),
            forall|k: int| 0 <= k < i ==> a@[k] == b@[k],
        decreases a@.len() - i,
    {
        if a[i] != b[i] {
            return false;
        }
        i = i + 1;
    }
    assert(a@ =~= b@);
    true
}

/// `v@ == lit@`.
pub fn chars_eq_str(v: &Vec<char>, lit: &str) -> (r: bool)
    ensures
        r == (v@ == lit@),
{
    let w = chars_of(lit);
    chars_eq(v, &w)
}

/// Equality up to ASCII case.
pub fn chars_eq_ignore_case(a: &Vec<char>, b: &Vec<char>) -> (r: bool)
    ensures
        r == eq_ignore_case(a@, b@),
{
    let la = lower_chars(a);
    let lb = lower_chars(b);
    chars_eq(&la, &lb)
}

/// Whether `p` occurs in `s` at index `i`.
pub fn occurs_at_exec(s: &Vec<char>, p: &Vec<char>, i: usize) -> (r: bool)
    ensures
        r == occurs_at(s@, p@, i as int),
{
    let n = s.len();
    if i > n || p.len() > n - i {
        return false;
    }
    let mut k: usize = 0;
    while k < p.len()
        invariant
            n == s@.len(),
            i + p@.len() <= n,
            k <= p@.len(),
            forall|m: int| 0 <= m < k ==> s@[i + m] == p@[m],
        decreases p@.len() - k,
    {
        if s[i + k] != p[k] {
            assert(s@.subrange(i as int, i + p@.len())[k as int] != p@[k as int]);
            return false;
        }
        k = k + 1;
    }
    assert(s@.subrange(i as int, i + p@.len()) =~= p@);
    true
}

/// First occurrence of `p` in `s`, as `str::find`.
pub fn find_chars(s: &Vec<char>, p: &Vec<char>) -> (r: Option<usize>)
    ensures
        match r {
            Some(i) => find(s@, p@) == Some(i as int),
            None => find(s@, p@) is None,
        },
{
    let n = s.len();
    let mut i: usize = 0;
    loop
        invariant
            n == s@.len(),
            i <= n,
            first_occurrence_from(s@, p@, 0) == first_occurrence_from(s@, p@, i as int),
        decreases n - i,
    {
        if occurs_at_exec(s, p, i) {
            return Some(i);
        }
        if i == n {
            assert(first_occurrence_from(s@, p@, n + 1) == n + 1);
            return None;
        }
        i = i + 1;
    }
}

pub proof fn lemma_first_occurrence(s: Seq<char>, p: Seq<char>, i: int)
    requires
        0 <= i <= s.len() + 1,
    ensures
        i <= first_occurrence_from(s, p, i) <= s.len() + 1,
        first_occurrence_from(s, p, i) <= s.len() ==> occurs_at(s, p, first_occurrence_from(s, p, i)),
        forall|k: int| i <= k < first_occurrence_from(s, p, i) ==> !occurs_at(s, p, k),
    decreases s.len() + 1 - i,
{
    if i <= s.len() && !occurs_at(s, p, i) {
        lemma_first_occurrence(s, p, i + 1);
    }
}

/// `find` agrees with `contains`.
pub proof fn lemma_find_contains(s: Seq<char>, p: Seq<char>)
    ensures
        find(s, p) is Some <==> contains(s, p),
{
    lemma_first_occurrence(s, p, 0);
    if contains(s, p) {
        let k = choose|k: int| occurs_at(s, p, k);
        assert(k <= s.len());
    }
}

/// Whether `p` occurs in `s`.
pub fn contains_chars(s: &Vec<char>, p: &Vec<char>) -> (r: bool)
    ensures
        r == contains(s@, p@),
{
    proof {
        lemma_find_contains(s@, p@);
    }
    find_chars(s, p).is_some()
}

pub fn starts_with_chars(s: &Vec<char>, p: &Vec<char>) -> (r: bool)
    ensures
        r == starts_with(s@, p@),
{
    occurs_at_exec(s, p, 0)
}

pub fn ends_with_chars(s: &Vec<char>, p: &Vec<char>) -> (r: bool)
    ensures
        r == ends_with(s@, p@),
{
    if p.len() > s.len() {
        return false;
    }
    occurs_at_exec(s, p, s.len() - p.len())
}

/// `str::split_once`.
pub fn split_once_chars(s: &Vec<char>, sep: &Vec<char>) -> (r: Option<(Vec<char>, Vec<char>)>)
    ensures
        match r {
            Some((a, b)) => split_once(s@, sep@) == Some((a@, b@)),
            None => split_once(s@, sep@) is None,
        },
{
    let n = s.len();
    match find_chars(s, sep) {
        Some(i) => {
            proof {
                lemma_first_occurrence(s@, sep@, 0);
                assert(occurs_at(s@, sep@, i as int));
            }
            let a = slice_chars(s, 0, i);
            let b = slice_chars(s, i + sep.len(), n);
            Some((a, b))
        },
        None => None,
    }
}


/// The character sequences that a sequence of character vectors holds.
pub open spec fn views(v: Seq<Vec<char>>) -> Seq<Seq<char>> {
    v.map_values(|x: Vec<char>| x@)
}

/// The pieces of `s` between occurrences of `c`, as `str::split(c)`.
pub open spec fn split_char(s: Seq<char>, c: char) -> Seq<Seq<char>>
    decreases s.len(),
{
    if s.len() == 0 {
        seq![Seq::empty()]
    } else {
        let init = split_char(s.drop_last(), c);
        if s.last() == c {
            init.push(Seq::empty())
        } else {
            init.update(init.len() - 1, init.last().push(s.last()))
        }
    }
}

pub proof fn lemma_split_char_nonempty(s: Seq<char>, c: char)
    ensures
        split_char(s, c).len() >= 1,
    decreases s.len(),
{
    if s.len() > 0 {
        lemma_split_char_nonempty(s.drop_last(), c);
    }
}

/// A text without `c` is one piece.
pub proof fn lemma_split_char_single(t: Seq<char>, c: char)
    requires
        !t.contains(c),
    ensures
        split_char(t, c) == seq![t],
    decreases t.len(),
{
    if t.len() > 0 {
        lemma_split_char_single(t.drop_last(), c);
        assert(t.drop_last().push(t.last()) =~= t);
    } else {
        assert(t =~= Seq::<char>::empty());
    }
}

/// Appending `c` and a text without `c` adds that text as one more piece.
pub proof fn lemma_split_char_append(a: Seq<char>, c: char, t: Seq<char>)
    requires
        !t.contains(c),
    ensures
        split_char(a + seq![c] + t, c) == split_char(a, c).push(t),
    decreases t.len(),
{
    let s = a + seq![c] + t;
    if t.len() == 0 {
        assert(s.drop_last() =~= a);
        assert(t =~= Seq::<char>::empty());
    } else {
        lemma_split_char_append(a, c, t.drop_last());
        assert(s.drop_last() =~= a + seq![c] + t.drop_last());
        assert(s.last() == t.last());
        let init = split_char(s.drop_last(), c);
        assert(init == split_char(a, c).push(t.drop_last()));
        assert(init.update(init.len() - 1, init.last().push(s.last())) =~= split_char(a, c).push(
            t,
        )) by {
            assert(t.drop_last().push(t.last()) =~= t);
        }
    }
}

/// Splitting pieces joined by `c` gives them back when none contains `c`.
pub proof fn lemma_split_join(pieces: Seq<Seq<char>>, c: char)
    requires
        pieces.len() >= 1,
        forall|i: int| 0 <= i < pieces.len() ==> !(#[trigger] pieces[i]).contains(c),
    ensures
        split_char(join(pieces, seq![c]), c) == pieces,
    decreases pieces.len(),
{
    if pieces.len() == 1 {
        lemma_split_char_single(pieces[0], c);
        assert(seq![pieces[0]] =~= pieces);
    } else {
        let init = pieces.drop_last();
        assert forall|i: int| 0 <= i < init.len() implies !(#[trigger] init[i]).contains(c) by {
            assert(init[i] == pieces[i]);
        }
        lemma_split_join(init, c);
        assert(!pieces.last().contains(c)) by {
            assert(pieces.last() == pieces[pieces.len() - 1]);
        }
        lemma_split_char_append(join(init, seq![c]), c, pieces.last());
        assert(init.push(pieces.last()) =~= pieces);
    }
}

/// A line without its trailing carriage return, when a line feed followed it.
pub open spec fn strip_cr(line: Seq<char>) -> Seq<char> {
    if line.len() > 0 && line.last() == '\r' {
        line.drop_last()
    } else {
        line
    }
}

/// `strip_cr` of every piece.
pub open spec fn strip_cr_all(pieces: Seq<Seq<char>>) -> Seq<Seq<char>> {
    pieces.map_values(|l: Seq<char>| strip_cr(l))
}

/// The lines of `s`, as `str::lines`.
pub open spec fn lines(s: Seq<char>) -> Seq<Seq<char>> {
    let p = split_char(s, '\n');
    let body = strip_cr_all(p.drop_last());
    if p.last().len() == 0 {
        body
    } else {
        body.push(p.last())
    }
}

/// Joins `pieces` with `sep` between them, as `[..].join(sep)`.
pub open spec fn join(pieces: Seq<Seq<char>>, sep: Seq<char>) -> Seq<char>
    decreases pieces.len(),
{
    if pieces.len() == 0 {
        Seq::empty()
    } else if pieces.len() == 1 {
        pieces[0]
    } else {
        join(pieces.drop_last(), sep) + sep + pieces.last()
    }
}

/// The pieces of `v` between occurrences of `c`.
pub fn split_chars(v: &Vec<char>, c: char) -> (r: Vec<Vec<char>>)
    ensures
        views(r@) == split_char(v@, c),
        r@.len() >= 1,
{
    let mut done: Vec<Vec<char>> = Vec::new();
    let mut cur: Vec<char> = Vec::new();
    let mut i: usize = 0;
    let n = v.len();
    assert(v@.take(0) =~= Seq::<char>::empty());
    while i < n
        invariant
            n == v@.len(),
            i <= n,
            views(done@).push(cur@) == split_char(v@.take(i as int), c),
        decreases n - i,
    {
        let ghost prev = views(done@).push(cur@);
        assert(v@.take(i + 1).drop_last() =~= v@.take(i as int));
        assert(v@.take(i + 1).last() == v@[i as int]);
        if v[i] == c {
            done.push(cur);
            cur = Vec::new();
            assert(views(done@).push(cur@) =~= prev.push(Seq::empty()));
        } else {
            cur.push(v[i]);
            assert(views(done@).push(cur@) =~= prev.update(prev.len() - 1, prev.last().push(v@[i as int])));
        }
        i = i + 1;
    }
    assert(v@.take(n as int) =~= v@);
    done.push(cur);
    proof {
        lemma_split_char_nonempty(v@, c);
    }
    done
}

/// `strip_cr` of `line`.
pub fn strip_cr_chars(line: Vec<char>) -> (r: Vec<char>)
    ensures
        r@ == strip_cr(line@),
{
    let mut line = line;
    if line.len() > 0 && line[line.len() - 1] == '\r' {
        line.pop();
    }
    line
}

/// The lines of `v`.
pub fn lines_chars(v: &Vec<char>) -> (r: Vec<Vec<char>>)
    ensures
        views(r@) == lines(v@),
{
    let pieces = split_chars(v, '\n');
    let ghost p = views(pieces@);
    let last_index = pieces.len() - 1;
    let mut out: Vec<Vec<char>> = Vec::new();
    let mut i: usize = 0;
    while i < last_index
        invariant
            last_index == pieces@.len() - 1,
            views(pieces@) == p,
            i <= last_index,
            views(out@) == strip_cr_all(p.drop_last().take(i as int)),
        decreases last_index - i,
    {
        let piece = slice_chars(&pieces[i], 0, pieces[i].len());
        assert(piece@ =~= p[i as int]);
        let stripped = strip_cr_chars(piece);
        let ghost prev = views(out@);
        out.push(stripped);
        assert(views(out@) =~= prev.push(strip_cr(p[i as int])));
        assert(p.drop_last().take(i + 1) =~= p.drop_last().take(i as int).push(p[i as int]));
        i = i + 1;
        assert(views(out@) =~= strip_cr_all(p.drop_last().take(i as int)));
    }
    assert(p.drop_last().take(last_index as int) =~= p.drop_last());
    if pieces[last_index].len() > 0 {
        let piece = slice_chars(&pieces[last_index], 0, pieces[last_index].len());
        assert(piece@ =~= p.last());
        out.push(piece);
    }
    assert(views(out@) =~= lines(v@));
    out
}

/// `pieces` joined with `sep`.
pub fn join_chars(pieces: &Vec<Vec<char>>, sep: &Vec<char>) -> (r: Vec<char>)
    ensures
        r@ == join(views(pieces@), sep@),
{
    let mut r: Vec<char> = Vec::new();
    let mut i: usize = 0;
    let n = pieces.len();
    while i < n
        invariant
            n == pieces@.len(),
            i <= n,
            r@ == join(views(pieces@).take(i as int), sep@),
        decreases n - i,
    {
        let ghost before = r@;
        if i > 0 {
            let mut k: usize = 0;
            while k < sep.len()
                invariant
                    k <= sep@.len(),
                    r@ == before + sep@.take(k as int),
                decreases sep@.len() - k,
            {
                r.push(sep[k]);
                k = k + 1;
                assert(r@ =~= before + sep@.take(k as int));
            }
        }
        let ghost mid = r@;
        let piece = &pieces[i];
        let mut k: usize = 0;
        while k < piece.len()
            invariant
                k <= piece@.len(),
                r@ == mid + piece@.take(k as int),
            decreases piece@.len() - k,
        {
            r.push(piece[k]);
            k = k + 1;
            assert(r@ =~= mid + piece@.take(k as int));
        }
        let ghost dv = views(pieces@);
        assert(dv.take(i + 1).drop_last() =~= dv.take(i as int));
        assert(dv.take(i + 1).last() == piece@);
        if i == 0 {
            assert(r@ =~= join(dv.take(1), sep@));
        } else {
            assert(sep@.take(sep@.len() as int) =~= sep@);
            assert(piece@.take(piece@.len() as int) =~= piece@);
            assert(r@ =~= join(dv.take(i as int), sep@) + sep@ + piece@);
        }
        i = i + 1;
    }
    assert(views(pieces@).take(n as int) =~= views(pieces@));
    r
}

/// Whether every character of `s` is an ASCII digit.
pub open spec fn all_digits(s: Seq<char>) -> bool {
    forall|i: int| 0 <= i < s.len() ==> '0' <= #[trigger] s[i] <= '9'
}

pub open spec fn digit_value(c: char) -> nat {
    ((c as u32) - ('0' as u32)) as nat
}

/// The number that the ASCII digits of `s` denote.
pub open spec fn digits_value(s: Seq<char>) -> nat
    decreases s.len(),
{
    if s.len() == 0 {
        0
    } else {
        digits_value(s.drop_last()) * 10 + digit_value(s.last())
    }
}

/// `s` without an optional leading `+`.
pub open spec fn unsigned_digits(s: Seq<char>) -> Seq<char> {
    if s.len() > 0 && s[0] == '+' {
        s.drop_first()
    } else {
        s
    }
}

/// What `<uN as FromStr>::from_str` gives for `s`, for a type whose largest value is `max`.
pub open spec fn parse_unsigned(s: Seq<char>, max: nat) -> Option<nat> {
    let d = unsigned_digits(s);
    if d.len() > 0 && all_digits(d) && digits_value(d) <= max {
        Some(digits_value(d))
    } else {
        None
    }
}

/// What `<i32 as FromStr>::from_str` gives for `s`.
pub open spec fn parse_i32(s: Seq<char>) -> Option<int> {
    if s.len() > 0 && s[0] == '-' {
        let d = s.drop_first();
        if d.len() > 0 && all_digits(d) && digits_value(d) <= 0x8000_0000 {
            Some(-(digits_value(d) as int))
        } else {
            None
        }
    } else {
        match parse_unsigned(s, 0x7fff_ffff) {
            Some(v) => Some(v as int),
            None => None,
        }
    }
}

/// Decimal digits of `n`, as `u128::to_string`.
pub open spec fn decimal(n: nat) -> Seq<char>
    decreases n,
{
    if n < 10 {
        seq![(('0' as u32) + n) as char]
    } else {
        decimal(n / 10).push((('0' as u32) + (n % 10)) as char)
    }
}

/// Parses ASCII digits of `v` (after an optional `+`) as a number no greater than `max`.
pub fn parse_unsigned_chars(v: &Vec<char>, max: u128) -> (r: Option<u128>)
    ensures
        r is Some <==> parse_unsigned(v@, max as nat) is Some,
        r matches Some(x) ==> parse_unsigned(v@, max as nat) == Some(x as nat),
{
    let n = v.len();
    let start: usize = if n > 0 && v[0] == '+' { 1 } else { 0 };
    let ghost d = unsigned_digits(v@);
    assert(d =~= v@.subrange(start as int, n as int));
    if start == n {
        return None;
    }
    let mut value: u128 = 0;
    let mut i = start;
    while i < n
        invariant
            n == v@.len(),
            start <= i <= n,
            d == unsigned_digits(v@),
            d == v@.subrange(start as int, n as int),
            all_digits(d.take(i - start)),
            value as nat == digits_value(d.take(i - start)),
            value <= max,
        decreases n - i,
    {
        let c = v[i];
        if !('0' <= c && c <= '9') {
            assert(d[i - start] == c);
            assert(!all_digits(d));
            return None;
        }
        let digit = ((c as u32) - ('0' as u32)) as u128;
        assert(digit == digit_value(c));
        assert(d.take(i + 1 - start).drop_last() =~= d.take(i - start));
        assert(d.take(i + 1 - start).last() == c);
        assert(digits_value(d.take(i + 1 - start)) == value * 10 + digit);
        if value > max / 10 {
            proof {
                assert(value * 10 + digit > max) by (nonlinear_arith)
                    requires value > max / 10, digit >= 0;
                lemma_digits_prefix_grows(d, (i + 1 - start) as int);
                assert(digits_value(d) > max);
            }
            return None;
        }
        proof {
            assert(value * 10 <= max) by (nonlinear_arith)
                requires value <= max / 10;
        }
        let t = value * 10;
        if digit > max - t {
            proof {
                lemma_digits_prefix_grows(d, (i + 1 - start) as int);
            }
            return None;
        }
        value = t + digit;
        i = i + 1;
    }
    assert(d.take(n - start) =~= d);
    assert(d.len() > 0);
    assert(parse_unsigned(v@, max as nat) == Some(value as nat));
    Some(value)
}

proof fn lemma_digits_prefix_grows(d: Seq<char>, k: int)
    requires
        0 <= k <= d.len(),
    ensures
        digits_value(d.take(k)) <= digits_value(d),
    decreases d.len() - k,
{
    if k < d.len() {
        lemma_digits_prefix_grows(d, k + 1);
        assert(d.take(k + 1).drop_last() =~= d.take(k));
    } else {
        assert(d.take(k) =~= d);
    }
}

fn digit_char(d: u128) -> (c: char)
    requires
        d < 10,
    ensures
        c == ((('0' as u32) + d) as char),
{
    let b: u8 = 48u8 + (d as u8);
    b as char
}

fn decimal_chars(n: u128) -> (r: Vec<char>)
    ensures
        r@ == decimal(n as nat),
    decreases n,
{
    if n < 10 {
        let mut v: Vec<char> = Vec::new();
        v.push(digit_char(n));
        v
    } else {
        let mut v = decimal_chars(n / 10);
        v.push(digit_char(n % 10));
        v
    }
}

/// The decimal text of `n`, as `u64::to_string` writes it.
pub fn decimal_string(n: u64) -> (r: String)
    ensures
        r@ == decimal(n as nat),
{
    let v = decimal_chars(n as u128);
    string_of(&v)
}

/// The decimal text of `n`, as `u128::to_string` writes it.
pub fn decimal_string_wide(n: u128) -> (r: String)
    ensures
        r@ == decimal(n as nat),
{
    let v = decimal_chars(n);
    string_of(&v)
}

/// Lower case by the full Unicode mapping of `str::to_lowercase`.
pub uninterp spec fn unicode_lowercase(s: Seq<char>) -> Seq<char>;

/// `str::to_lowercase`: its result is named by `unicode_lowercase` of the text.
#[verifier::external_body]
pub(crate) fn to_lowercase(s: &str) -> (r: String)
    ensures
        r@ == unicode_lowercase(s@),
{
    s.to_lowercase()
}

/// The decimal text of a number is all digits and denotes the number.
pub proof fn lemma_decimal_digits(n: nat)
    ensures
        decimal(n).len() > 0,
        all_digits(decimal(n)),
        digits_value(decimal(n)) == n,
    decreases n,
{
    if n >= 10 {
        lemma_decimal_digits(n / 10);
        let d = decimal(n / 10);
        let c = (('0' as u32) + (n % 10)) as char;
        assert(decimal(n) == d.push(c));
        assert(decimal(n).drop_last() =~= d);
        assert(c as u32 == 48 + n % 10);
        assert(digit_value(c) == n % 10);
        assert(digits_value(decimal(n)) == digits_value(d) * 10 + digit_value(c));
        assert(n == (n / 10) * 10 + n % 10);
        assert forall|i: int| 0 <= i < decimal(n).len() implies '0' <= #[trigger] decimal(n)[i] <= '9' by {
            if i < d.len() {
                assert(decimal(n)[i] == d[i]);
            }
        }
    } else {
        let c = (('0' as u32) + n) as char;
        assert(decimal(n) == seq![c]);
        assert(decimal(n).drop_last() =~= Seq::<char>::empty());
        assert(c as u32 == 48 + n);
        assert(digits_value(decimal(n)) == digits_value(Seq::<char>::empty()) * 10 + digit_value(c));
    }
}

/// Parsing the decimal text of a number that fits gives the number back.
pub proof fn lemma_decimal_parses(n: nat, max: nat)
    requires
        n <= max,
    ensures
        parse_unsigned(decimal(n), max) == Some(n),
{
    lemma_decimal_digits(n);
    let d = decimal(n);
    assert('0' <= d[0] <= '9');
    assert(unsigned_digits(d) == d);
}

/// The text of an optional string.
pub open spec fn opt_string_view(o: Option<String>) -> Option<Seq<char>> {
    match o {
        Some(s) => Some(s@),
        None => None,
    }
}

/// The text of an optional string slice.
pub open spec fn opt_str_view(o: Option<&str>) -> Option<Seq<char>> {
    match o {
        Some(s) => Some(s@),
        None => None,
    }
}

/// The texts of a sequence of strings.
pub open spec fn string_views(s: Seq<String>) -> Seq<Seq<char>> {
    s.map_values(|x: String| x@)
}

/// ASCII upper-casing of one character, as `char::to_ascii_uppercase`.
pub open spec fn upper_char(c: char) -> char {
    if 'a' <= c <= 'z' {
        ((c as u32) - 32) as char
    } else {
        c
    }
}

/// ASCII upper-casing of a sequence, as `str::to_ascii_uppercase`.
pub open spec fn upper(s: Seq<char>) -> Seq<char> {
    s.map_values(|c: char| upper_char(c))
}

pub fn upper_char_exec(c: char) -> (r: char)
    ensures
        r == upper_char(c),
{
    if 'a' <= c && c <= 'z' {
        let u = (c as u32) - 32;
        let r = (u as u8) as char;
        assert(r == ((c as u32) - 32) as char);
        r
    } else {
        c
    }
}

/// ASCII upper-case copy of `v`.
pub fn upper_chars(v: &Vec<char>) -> (r: Vec<char>)
    ensures
        r@ == upper(v@),
{
    let mut r: Vec<char> = Vec::new();
    let mut i: usize = 0;
    while i < v.len()
        invariant
            i <= v@.len(),
            r@ == upper(v@.subrange(0, i as int)),
        decreases v@.len() - i,
    {
        r.push(upper_char_exec(v[i]));
        i = i + 1;
        assert(r@ =~= upper(v@.subrange(0, i as int)));
    }
    assert(v@.subrange(0, v@.len() as int) =~= v@);
    r
}

/// `str::replace` with a non-empty pattern: every occurrence of `p`, from the left and not
/// overlapping, replaced by `r`.
pub open spec fn replace_all(s: Seq<char>, p: Seq<char>, r: Seq<char>) -> Seq<char>
    decreases s.len(),
{
    if p.len() == 0 {
        s
    } else {
        match find(s, p) {
            Some(i) => {
                proof {
                    lemma_first_occurrence(s, p, 0);
                }
                s.subrange(0, i) + r + replace_all(s.subrange(i + p.len(), s.len() as int), p, r)
            },
            None => s,
        }
    }
}

/// Every occurrence of the non-empty pattern `p` in `s` replaced by `r`.
pub fn replace_chars(s: &Vec<char>, p: &Vec<char>, r: &Vec<char>) -> (out: Vec<char>)
    requires
        p@.len() > 0,
    ensures
        out@ == replace_all(s@, p@, r@),
{
    let mut out: Vec<char> = Vec::new();
    let mut rest = slice_chars(s, 0, s.len());
    assert(rest@ =~= s@);
    loop
        invariant
            p@.len() > 0,
            out@ + replace_all(rest@, p@, r@) == replace_all(s@, p@, r@),
        decreases rest@.len(),
    {
        match find_chars(&rest, p) {
            Some(i) => {
                proof {
                    lemma_first_occurrence(rest@, p@, 0);
                }
                assert(occurs_at(rest@, p@, i as int));
                assert(i + p@.len() <= rest@.len());
                let head = slice_chars(&rest, 0, i);
                let plen = p.len();
                let rlen = rest.len();
                assert(i + plen <= rlen);
                let end = i + plen;
                let tail = slice_chars(&rest, end, rlen);
                let ghost o0 = out@;
                let ghost r0 = rest@;
                let mut k: usize = 0;
                while k < head.len()
                    invariant
                        k <= head@.len(),
                        out@ == o0 + head@.subrange(0, k as int),
                    decreases head@.len() - k,
                {
                    out.push(head[k]);
                    k = k + 1;
                    assert(out@ =~= o0 + head@.subrange(0, k as int));
                }
                let mut k: usize = 0;
                let ghost o1 = out@;
                while k < r.len()
                    invariant
                        k <= r@.len(),
                        out@ == o1 + r@.subrange(0, k as int),
                    decreases r@.len() - k,
                {
                    out.push(r[k]);
                    k = k + 1;
                    assert(out@ =~= o1 + r@.subrange(0, k as int));
                }
                assert(head@.subrange(0, head@.len() as int) =~= head@);
                assert(r@.subrange(0, r@.len() as int) =~= r@);
                assert(o0 + head@ + r@ + replace_all(tail@, p@, r@) =~= o0 + (head@ + r@ + replace_all(tail@, p@, r@)));
                rest = tail;
            },
            None => {
                assert(out@ + rest@ == replace_all(s@, p@, r@));
                let mut k: usize = 0;
                let ghost o0 = out@;
                while k < rest.len()
                    invariant
                        k <= rest@.len(),
                        out@ == o0 + rest@.subrange(0, k as int),
                    decreases rest@.len() - k,
                {
                    out.push(rest[k]);
                    k = k + 1;
                    assert(out@ =~= o0 + rest@.subrange(0, k as int));
                }
                assert(rest@.subrange(0, rest@.len() as int) =~= rest@);
                return out;
            },
        }
    }
}

/// The number that `<i32 as FromStr>::from_str` reads from `v`.
pub fn parse_i32_chars(v: &Vec<char>) -> (r: Option<i32>)
    ensures
        match r {
            Some(x) => parse_i32(v@) == Some(x as int),
            None => parse_i32(v@) is None,
        },
{
    if v.len() > 0 && v[0] == '-' {
        let d = slice_chars(v, 1, v.len());
        assert(d@ =~= v@.drop_first());
        if d.len() == 0 || d[0] == '+' {
            proof {
                if d@.len() > 0 {
                    assert(!all_digits(d@)) by {
                        assert(!('0' <= d@[0] <= '9'));
                    }
                }
            }
            return None;
        }
        match parse_unsigned_chars(&d, 0x8000_0000u128) {
            Some(x) => {
                assert(unsigned_digits(d@) == d@);
                if x == 0x8000_0000u128 {
                    Some(-2147483648i32)
                } else {
                    let y = x as i32;
                    Some(-y)
                }
            },
            None => {
                assert(unsigned_digits(d@) == d@);
                None
            },
        }
    } else {
        match parse_unsigned_chars(v, 0x7fff_ffffu128) {
            Some(x) => Some(x as i32),
            None => None,
        }
    }
}

/// `s` without leading and trailing `c`, as `str::trim_matches(c)`.
pub open spec fn trim_char(s: Seq<char>, c: char) -> Seq<char>
    decreases s.len(),
{
    if s.len() > 0 && s[0] == c {
        trim_char(s.drop_first(), c)
    } else if s.len() > 0 && s.last() == c {
        trim_char(s.drop_last(), c)
    } else {
        s
    }
}

/// A copy of `v` without leading and trailing `c`.
pub fn trim_char_chars(v: &Vec<char>, c: char) -> (r: Vec<char>)
    ensures
        r@ == trim_char(v@, c),
{
    let mut a: usize = 0;
    let mut b: usize = v.len();
    assert(v@.subrange(0, v@.len() as int) =~= v@);
    while a < b && v[a] == c
        invariant
            a <= b <= v@.len(),
            b == v@.len(),
            trim_char(v@.subrange(a as int, b as int), c) == trim_char(v@, c),
        decreases b - a,
    {
        assert(v@.subrange(a as int, b as int).drop_first() =~= v@.subrange(a + 1, b as int));
        a = a + 1;
    }
    while a < b && v[b - 1] == c
        invariant
            a <= b <= v@.len(),
            trim_char(v@.subrange(a as int, b as int), c) == trim_char(v@, c),
            a < b ==> v@[a as int] != c,
        decreases b - a,
    {
        let ghost t = v@.subrange(a as int, b as int);
        assert(t[0] == v@[a as int]);
        assert(t.drop_last() =~= v@.subrange(a as int, b - 1));
        b = b - 1;
    }
    let r = slice_chars(v, a, b);
    proof {
        let t = v@.subrange(a as int, b as int);
        if t.len() > 0 {
            assert(t[0] == v@[a as int]);
            assert(t.last() == v@[b - 1]);
        }
    }
    r
}

} // verus!
