//! Character-level string utilities: ASCII lowercasing, substring search,
//! prefix tests, splitting, lexicographic comparison and string building,
//! each with an exact specification over `Seq<char>` views.

use vstd::prelude::*;

verus! {

/// ASCII lowercase of one character; anything outside `A..=Z` is unchanged.
pub open spec fn spec_lower_char(c: char) -> char {
    if 'A' <= c && c <= 'Z' {
        ((c as u8) + 32) as char
    } else {
        c
    }
}

/// ASCII lowercase of a character sequence.
pub open spec fn spec_lower(s: Seq<char>) -> Seq<char> {
    s.map_values(|c: char| spec_lower_char(c))
}

fn lower_char(c: char) -> (r: char)
    ensures
        r == spec_lower_char(c),
{
    if 'A' <= c && c <= 'Z' {
        ((c as u8) + 32) as char
    } else {
        c
    }
}

/// The characters of `s`, as a vector.
pub fn str_chars(s: &str) -> (r: Vec<char>)
    ensures
        r@ == s@,
{
    let n = s.unicode_len();
    let mut r: Vec<char> = Vec::new();
    let mut i: usize = 0;
    while i < n
        invariant
            n == s@.len(),
            i <= n,
            r@ == s@.subrange(0, i as int),
        decreases n - i,
    {
        r.push(s.get_char(i));
        i = i + 1;
        proof {
            assert(r@ =~= s@.subrange(0, i as int));
        }
    }
    proof {
        assert(r@ =~= s@);
    }
    r
}

/// ASCII-lowercases a character vector.
pub fn lower_chars(v: &Vec<char>) -> (r: Vec<char>)
    ensures
        r@ == spec_lower(v@),
{
    let mut r: Vec<char> = Vec::new();
    let mut i: usize = 0;
    while i < v.len()
        invariant
            i <= v@.len(),
            r@ == spec_lower(v@.subrange(0, i as int)),
        decreases v@.len() - i,
    {
        r.push(lower_char(v[i]));
        i = i + 1;
        proof {
            assert(r@ =~= spec_lower(v@.subrange(0, i as int)));
        }
    }
    proof {
        assert(v@.subrange(0, v@.len() as int) =~= v@);
    }
    r
}

/// `sub` occurs in `s` at position `i`.
pub open spec fn spec_contains_at(s: Seq<char>, sub: Seq<char>, i: int) -> bool {
    0 <= i && i + sub.len() <= s.len() && s.subrange(i, i + sub.len() as int) == sub
}

/// `sub` occurs somewhere in `s`.
pub open spec fn spec_contains(s: Seq<char>, sub: Seq<char>) -> bool {
    exists|i: int| spec_contains_at(s, sub, i)
}

/// `p` is a prefix of `s`.
pub open spec fn spec_starts_with(s: Seq<char>, p: Seq<char>) -> bool {
    p.len() <= s.len() && s.subrange(0, p.len() as int) == p
}

/// The two vectors hold the same characters.
pub fn chars_eq(a: &Vec<char>, b: &Vec<char>) -> (r: bool)
    ensures
        r == (a@ == b@),
{
    if a.len() != b.len() {
        proof {
            assert(a@ != b@);
        }
        return false;
    }
    let mut i: usize = 0;
    while i < a.len()
        invariant
            a@.len() == b@.len(),
            i <= a@.len(),
            forall|j: int| 0 <= j < i ==> a@[j] == b@[j],
        decreases a@.len() - i,
    {
        if a[i] != b[i] {
            return false;
        }
        i = i + 1;
    }
    proof {
        assert(a@ =~= b@);
    }
    true
}

/// The two strings hold the same characters.
pub fn str_eq(a: &str, b: &str) -> (r: bool)
    ensures
        r == (a@ == b@),
{
    let ac = str_chars(a);
    let bc = str_chars(b);
    chars_eq(&ac, &bc)
}

/// Whether `sub` occurs in `s` starting exactly at `at`.
fn matches_at(s: &Vec<char>, sub: &Vec<char>, at: usize) -> (r: bool)
    requires
        at + sub@.len() <= s@.len(),
    ensures
        r == spec_contains_at(s@, sub@, at as int),
{
    let sn = s.len();
    let mut j: usize = 0;
    while j < sub.len()
        invariant
            at + sub@.len() <= s@.len(),
            sn == s@.len(),
            j <= sub@.len(),
            forall|k: int| 0 <= k < j ==> s@[at + k] == sub@[k],
        decreases sub@.len() - j,
    {
        if s[at + j] != sub[j] {
            proof {
                assert(s@.subrange(at as int, at + sub@.len() as int)[j as int] != sub@[j as int]);
            }
            return false;
        }
        j = j + 1;
    }
    proof {
        assert(s@.subrange(at as int, at + sub@.len() as int) =~= sub@);
    }
    true
}

/// Substring search over character vectors.
pub fn contains_chars(s: &Vec<char>, sub: &Vec<char>) -> (r: bool)
    ensures
        r == spec_contains(s@, sub@),
{
    if sub.len() > s.len() {
        proof {
            assert(forall|i: int| !spec_contains_at(s@, sub@, i));
        }
        return false;
    }
    if sub.len() == 0 {
        proof {
            assert(s@.subrange(0, 0) =~= sub@);
            assert(spec_contains_at(s@, sub@, 0));
        }
        return true;
    }
    let sn = s.len();
    let last = s.len() - sub.len();
    let mut i: usize = 0;
    while i <= last
        invariant
            1 <= sub@.len() <= s@.len(),
            sn == s@.len(),
            last == s@.len() - sub@.len(),
            i <= last + 1,
            forall|k: int| 0 <= k < i ==> !spec_contains_at(s@, sub@, k),
        decreases last + 1 - i,
    {
        if matches_at(s, sub, i) {
            return true;
        }
        i = i + 1;
    }
    proof {
        assert(forall|k: int| spec_contains_at(s@, sub@, k) ==> 0 <= k <= last);
    }
    false
}

/// Substring search with a string-literal pattern.
pub fn contains_str(s: &Vec<char>, sub: &str) -> (r: bool)
    ensures
        r == spec_contains(s@, sub@),
{
    let sub_chars = str_chars(sub);
    contains_chars(s, &sub_chars)
}

/// Prefix test over character vectors.
pub fn starts_with_chars(s: &Vec<char>, p: &Vec<char>) -> (r: bool)
    ensures
        r == spec_starts_with(s@, p@),
{
    if p.len() > s.len() {
        return false;
    }
    let mut i: usize = 0;
    while i < p.len()
        invariant
            p@.len() <= s@.len(),
            i <= p@.len(),
            forall|k: int| 0 <= k < i ==> s@[k] == p@[k],
        decreases p@.len() - i,
    {
        if s[i] != p[i] {
            proof {
                assert(s@.subrange(0, p@.len() as int)[i as int] != p@[i as int]);
            }
            return false;
        }
        i = i + 1;
    }
    proof {
        assert(s@.subrange(0, p@.len() as int) =~= p@);
    }
    true
}

/// Prefix test with a string-literal prefix.
pub fn starts_with_str(s: &Vec<char>, p: &str) -> (r: bool)
    ensures
        r == spec_starts_with(s@, p@),
{
    let p_chars = str_chars(p);
    starts_with_chars(s, &p_chars)
}

/// What is left of `s` after a prefix `p`, when `p` is indeed a prefix.
pub open spec fn spec_strip_prefix(s: Seq<char>, p: Seq<char>) -> Option<Seq<char>> {
    if spec_starts_with(s, p) {
        Some(s.skip(p.len() as int))
    } else {
        None
    }
}

/// Removes a leading prefix, returning the rest when the prefix is present.
pub fn strip_prefix_chars(s: &Vec<char>, p: &Vec<char>) -> (r: Option<Vec<char>>)
    ensures
        match r {
            Some(rest) => spec_strip_prefix(s@, p@) == Some(rest@),
            None => spec_strip_prefix(s@, p@) is None,
        },
{
    if !starts_with_chars(s, p) {
        return None;
    }
    let mut rest: Vec<char> = Vec::new();
    let mut i: usize = p.len();
    while i < s.len()
        invariant
            p@.len() <= i <= s@.len(),
            rest@ == s@.subrange(p@.len() as int, i as int),
        decreases s@.len() - i,
    {
        rest.push(s[i]);
        i = i + 1;
        proof {
            assert(rest@ =~= s@.subrange(p@.len() as int, i as int));
        }
    }
    proof {
        assert(rest@ =~= s@.skip(p@.len() as int));
    }
    Some(rest)
}

/// `s` split at every occurrence of `sep`; always at least one part.
pub open spec fn spec_split(s: Seq<char>, sep: char) -> Seq<Seq<char>>
    decreases s.len(),
{
    if s.len() == 0 {
        seq![Seq::<char>::empty()]
    } else if s[0] == sep {
        seq![Seq::<char>::empty()] + spec_split(s.drop_first(), sep)
    } else {
        let rest = spec_split(s.drop_first(), sep);
        seq![seq![s[0]] + rest[0]] + rest.drop_first()
    }
}

pub proof fn lemma_split_nonempty(s: Seq<char>, sep: char)
    ensures
        spec_split(s, sep).len() >= 1,
    decreases s.len(),
{
    if s.len() != 0 {
        lemma_split_nonempty(s.drop_first(), sep);
    }
}

/// Appending one character extends the final split part, or opens a new one.
proof fn lemma_split_push(s: Seq<char>, sep: char, c: char)
    ensures
        c == sep ==> spec_split(s.push(c), sep) == spec_split(s, sep).push(Seq::<char>::empty()),
        c != sep ==> spec_split(s.push(c), sep) == spec_split(s, sep).update(
            spec_split(s, sep).len() - 1,
            spec_split(s, sep).last().push(c),
        ),
    decreases s.len(),
{
    lemma_split_nonempty(s, sep);
    if s.len() == 0 {
        reveal_with_fuel(spec_split, 3);
        assert(s.push(c)[0] == c);
        assert(s.push(c).drop_first() =~= Seq::<char>::empty());
        if c == sep {
            assert(spec_split(s.push(c), sep) =~~= spec_split(s, sep).push(Seq::<char>::empty()));
        } else {
            assert(spec_split(s.push(c), sep) =~~= spec_split(s, sep).update(
                0,
                spec_split(s, sep).last().push(c),
            ));
        }
    } else {
        let t = s.drop_first();
        lemma_split_nonempty(t, sep);
        lemma_split_push(t, sep, c);
        assert(s.push(c)[0] == s[0]);
        assert(s.push(c).drop_first() =~= t.push(c));
        if c == sep {
            if s[0] == sep {
                assert(spec_split(s.push(c), sep) =~~= spec_split(s, sep).push(
                    Seq::<char>::empty(),
                ));
            } else {
                assert(spec_split(t.push(c), sep)[0] == spec_split(t, sep)[0]);
                assert(spec_split(s.push(c), sep) =~~= spec_split(s, sep).push(
                    Seq::<char>::empty(),
                ));
            }
        } else {
            let n = spec_split(s, sep).len();
            if s[0] == sep {
                assert(spec_split(s.push(c), sep) =~~= spec_split(s, sep).update(
                    n - 1,
                    spec_split(s, sep).last().push(c),
                ));
            } else {
                if spec_split(t, sep).len() == 1 {
                    assert(spec_split(s.push(c), sep) =~~= spec_split(s, sep).update(
                        n - 1,
                        spec_split(s, sep).last().push(c),
                    ));
                } else {
                    assert(spec_split(t.push(c), sep)[0] == spec_split(t, sep)[0]);
                    assert(spec_split(s.push(c), sep) =~~= spec_split(s, sep).update(
                        n - 1,
                        spec_split(s, sep).last().push(c),
                    ));
                }
            }
        }
    }
}

/// Splits a character vector at every occurrence of `sep`.
pub fn split_chars(s: &Vec<char>, sep: char) -> (r: Vec<Vec<char>>)
    ensures
        r.deep_view() == spec_split(s@, sep),
{
    let mut done: Vec<Vec<char>> = Vec::new();
    let mut cur: Vec<char> = Vec::new();
    let mut i: usize = 0;
    proof {
        assert(s@.subrange(0, 0) =~= Seq::<char>::empty());
        assert(done.deep_view().push(cur@) =~~= spec_split(s@.subrange(0, 0), sep));
    }
    while i < s.len()
        invariant
            i <= s@.len(),
            done.deep_view().push(cur@) == spec_split(s@.subrange(0, i as int), sep),
        decreases s@.len() - i,
    {
        let ghost pre = s@.subrange(0, i as int);
        let ghost old_done = done.deep_view();
        let ghost old_cur = cur@;
        let c = s[i];
        proof {
            lemma_split_push(pre, sep, c);
            lemma_split_nonempty(pre, sep);
            assert(pre.push(c) =~= s@.subrange(0, i + 1));
        }
        if c == sep {
            done.push(cur);
            cur = Vec::new();
            proof {
                assert(done.deep_view() =~~= old_done.push(old_cur));
                assert(done.deep_view().push(cur@) =~~= spec_split(s@.subrange(0, i + 1), sep));
            }
        } else {
            cur.push(c);
            proof {
                assert(done.deep_view() =~~= old_done);
                assert(done.deep_view().push(cur@) =~~= spec_split(s@.subrange(0, i + 1), sep));
            }
        }
        i = i + 1;
    }
    let ghost old_done = done.deep_view();
    let ghost old_cur = cur@;
    done.push(cur);
    proof {
        assert(s@.subrange(0, s@.len() as int) =~= s@);
        assert(done.deep_view() =~~= old_done.push(old_cur));
        assert(done.deep_view() =~~= spec_split(s@, sep));
    }
    done
}

/// `s` without its leading `.` characters.
pub open spec fn spec_trim_leading_dots(s: Seq<char>) -> Seq<char>
    decreases s.len(),
{
    if s.len() > 0 && s[0] == '.' {
        spec_trim_leading_dots(s.drop_first())
    } else {
        s
    }
}

/// Removes every leading `.` character.
pub fn trim_leading_dots(s: &Vec<char>) -> (r: Vec<char>)
    ensures
        r@ == spec_trim_leading_dots(s@),
{
    let mut i: usize = 0;
    proof {
        assert(s@.skip(0) =~= s@);
    }
    while i < s.len() && s[i] == '.'
        invariant
            i <= s@.len(),
            forall|j: int| 0 <= j < i ==> s@[j] == '.',
            spec_trim_leading_dots(s@) == spec_trim_leading_dots(s@.skip(i as int)),
        decreases s@.len() - i,
    {
        proof {
            assert(s@.skip(i as int).drop_first() =~= s@.skip(i + 1));
        }
        i = i + 1;
    }
    let mut r: Vec<char> = Vec::new();
    let mut j: usize = i;
    while j < s.len()
        invariant
            i <= j <= s@.len(),
            r@ == s@.subrange(i as int, j as int),
        decreases s@.len() - j,
    {
        r.push(s[j]);
        j = j + 1;
        proof {
            assert(r@ =~= s@.subrange(i as int, j as int));
        }
    }
    proof {
        assert(r@ =~= s@.skip(i as int));
        if i < s@.len() {
            assert(s@.skip(i as int)[0] != '.');
        }
    }
    r
}

/// Strict lexicographic order on character sequences, by code point.
pub open spec fn spec_lex_lt(a: Seq<char>, b: Seq<char>) -> bool
    decreases a.len(),
{
    if b.len() == 0 {
        false
    } else if a.len() == 0 {
        true
    } else if (a[0] as u32) < (b[0] as u32) {
        true
    } else if (b[0] as u32) < (a[0] as u32) {
        false
    } else {
        spec_lex_lt(a.drop_first(), b.drop_first())
    }
}

/// Lexicographic comparison of two strings, by code point.
pub fn str_lex_lt(a: &str, b: &str) -> (r: bool)
    ensures
        r == spec_lex_lt(a@, b@),
{
    let an = a.unicode_len();
    let bn = b.unicode_len();
    let mut i: usize = 0;
    proof {
        assert(a@.skip(0) =~= a@);
        assert(b@.skip(0) =~= b@);
    }
    while i < an && i < bn
        invariant
            an == a@.len(),
            bn == b@.len(),
            i <= an,
            i <= bn,
            spec_lex_lt(a@, b@) == spec_lex_lt(a@.skip(i as int), b@.skip(i as int)),
        decreases an - i,
    {
        let ca = a.get_char(i);
        let cb = b.get_char(i);
        if (ca as u32) < (cb as u32) {
            return true;
        }
        if (ca as u32) > (cb as u32) {
            return false;
        }
        proof {
            assert(a@.skip(i as int).drop_first() =~= a@.skip(i + 1));
            assert(b@.skip(i as int).drop_first() =~= b@.skip(i + 1));
        }
        i = i + 1;
    }
    proof {
        if i < bn {
            assert(a@.skip(i as int).len() == 0);
        }
    }
    i < bn
}

/// The first position where `sub` occurs in `s`, from `i` on.
pub open spec fn spec_first_match_from(s: Seq<char>, sub: Seq<char>, i: int) -> Option<int>
    decreases s.len() + 1 - i,
{
    if i < 0 || i + sub.len() > s.len() || i > s.len() {
        None
    } else if spec_contains_at(s, sub, i) {
        Some(i)
    } else {
        spec_first_match_from(s, sub, i + 1)
    }
}

/// The first position where `sub` occurs in `s`, if it occurs at all.
pub open spec fn spec_find(s: Seq<char>, sub: Seq<char>) -> Option<int> {
    spec_first_match_from(s, sub, 0)
}

/// The first occurrence of `sub` in `s`.
pub fn find_chars(s: &Vec<char>, sub: &Vec<char>) -> (r: Option<usize>)
    ensures
        r matches Some(i) ==> spec_find(s@, sub@) == Some(i as int),
        r is None ==> spec_find(s@, sub@) is None,
{
    if sub.len() > s.len() {
        return None;
    }
    if sub.len() == 0 {
        proof {
            assert(s@.subrange(0, 0) =~= sub@);
            assert(spec_contains_at(s@, sub@, 0));
        }
        return Some(0);
    }
    let sn = s.len();
    let last = s.len() - sub.len();
    let mut i: usize = 0;
    while i <= last
        invariant
            1 <= sub@.len() <= s@.len(),
            sn == s@.len(),
            last == s@.len() - sub@.len(),
            i <= last + 1,
            spec_find(s@, sub@) == spec_first_match_from(s@, sub@, i as int),
        decreases last + 1 - i,
    {
        if matches_at(s, sub, i) {
            return Some(i);
        }
        i = i + 1;
    }
    None
}

/// An ASCII whitespace character.
pub open spec fn spec_is_ws(c: char) -> bool {
    c == ' ' || c == '\t' || c == '\n' || c == '\r'
}

/// `s` without its leading whitespace.
pub open spec fn spec_trim_start(s: Seq<char>) -> Seq<char>
    decreases s.len(),
{
    if s.len() > 0 && spec_is_ws(s[0]) {
        spec_trim_start(s.drop_first())
    } else {
        s
    }
}

/// `s` without its trailing whitespace.
pub open spec fn spec_trim_end(s: Seq<char>) -> Seq<char>
    decreases s.len(),
{
    if s.len() > 0 && spec_is_ws(s.last()) {
        spec_trim_end(s.drop_last())
    } else {
        s
    }
}

/// `s` without leading or trailing whitespace.
pub open spec fn spec_trim(s: Seq<char>) -> Seq<char> {
    spec_trim_end(spec_trim_start(s))
}

fn is_ws(c: char) -> (r: bool)
    ensures
        r == spec_is_ws(c),
{
    c == ' ' || c == '\t' || c == '\n' || c == '\r'
}

/// Removes leading and trailing ASCII whitespace.
pub fn trim_chars(s: &Vec<char>) -> (r: Vec<char>)
    ensures
        r@ == spec_trim(s@),
{
    let mut lo: usize = 0;
    proof {
        assert(s@.skip(0) =~= s@);
    }
    while lo < s.len() && is_ws(s[lo])
        invariant
            lo <= s@.len(),
            spec_trim_start(s@) == spec_trim_start(s@.skip(lo as int)),
        decreases s@.len() - lo,
    {
        proof {
            assert(s@.skip(lo as int).drop_first() =~= s@.skip(lo + 1));
        }
        lo = lo + 1;
    }
    proof {
        if lo < s@.len() {
            assert(s@.skip(lo as int)[0] == s@[lo as int]);
        }
        assert(spec_trim_start(s@) == s@.skip(lo as int));
    }
    let mut hi: usize = s.len();
    proof {
        assert(s@.skip(lo as int).take((hi - lo) as int) =~= s@.skip(lo as int));
    }
    while hi > lo && is_ws(s[hi - 1])
        invariant
            lo <= hi <= s@.len(),
            spec_trim_end(s@.skip(lo as int)) == spec_trim_end(
                s@.skip(lo as int).take((hi - lo) as int),
            ),
        decreases hi,
    {
        proof {
            let cur = s@.skip(lo as int).take((hi - lo) as int);
            assert(cur.last() == s@[hi - 1]);
            assert(cur.drop_last() =~= s@.skip(lo as int).take((hi - lo - 1) as int));
        }
        hi = hi - 1;
    }
    proof {
        let cur = s@.skip(lo as int).take((hi - lo) as int);
        if hi > lo {
            assert(cur.last() == s@[hi - 1]);
        }
        assert(spec_trim_end(s@.skip(lo as int)) == cur);
    }
    let mut r: Vec<char> = Vec::new();
    let mut i: usize = lo;
    while i < hi
        invariant
            lo <= i <= hi <= s@.len(),
            r@ == s@.subrange(lo as int, i as int),
        decreases hi - i,
    {
        r.push(s[i]);
        i = i + 1;
        proof {
            assert(r@ =~= s@.subrange(lo as int, i as int));
        }
    }
    proof {
        assert(r@ =~= s@.skip(lo as int).take((hi - lo) as int));
    }
    r
}

/// `s` without leading or trailing copies of `c`.
pub open spec fn spec_trim_matches_start(s: Seq<char>, c: char) -> Seq<char>
    decreases s.len(),
{
    if s.len() > 0 && s[0] == c {
        spec_trim_matches_start(s.drop_first(), c)
    } else {
        s
    }
}

pub open spec fn spec_trim_matches_end(s: Seq<char>, c: char) -> Seq<char>
    decreases s.len(),
{
    if s.len() > 0 && s.last() == c {
        spec_trim_matches_end(s.drop_last(), c)
    } else {
        s
    }
}

pub open spec fn spec_trim_matches(s: Seq<char>, c: char) -> Seq<char> {
    spec_trim_matches_end(spec_trim_matches_start(s, c), c)
}

/// Removes leading and trailing copies of `c`.
pub fn trim_matches_chars(s: &Vec<char>, c: char) -> (r: Vec<char>)
    ensures
        r@ == spec_trim_matches(s@, c),
{
    let mut lo: usize = 0;
    proof {
        assert(s@.skip(0) =~= s@);
    }
    while lo < s.len() && s[lo] == c
        invariant
            lo <= s@.len(),
            spec_trim_matches_start(s@, c) == spec_trim_matches_start(s@.skip(lo as int), c),
        decreases s@.len() - lo,
    {
        proof {
            assert(s@.skip(lo as int).drop_first() =~= s@.skip(lo + 1));
        }
        lo = lo + 1;
    }
    proof {
        if lo < s@.len() {
            assert(s@.skip(lo as int)[0] == s@[lo as int]);
        }
        assert(spec_trim_matches_start(s@, c) == s@.skip(lo as int));
    }
    let mut hi: usize = s.len();
    proof {
        assert(s@.skip(lo as int).take((hi - lo) as int) =~= s@.skip(lo as int));
    }
    while hi > lo && s[hi - 1] == c
        invariant
            lo <= hi <= s@.len(),
            spec_trim_matches_end(s@.skip(lo as int), c) == spec_trim_matches_end(
                s@.skip(lo as int).take((hi - lo) as int),
                c,
            ),
        decreases hi,
    {
        proof {
            let cur = s@.skip(lo as int).take((hi - lo) as int);
            assert(cur.last() == s@[hi - 1]);
            assert(cur.drop_last() =~= s@.skip(lo as int).take((hi - lo - 1) as int));
        }
        hi = hi - 1;
    }
    proof {
        let cur = s@.skip(lo as int).take((hi - lo) as int);
        if hi > lo {
            assert(cur.last() == s@[hi - 1]);
        }
        assert(spec_trim_matches_end(s@.skip(lo as int), c) == cur);
    }
    let mut r: Vec<char> = Vec::new();
    let mut i: usize = lo;
    while i < hi
        invariant
            lo <= i <= hi <= s@.len(),
            r@ == s@.subrange(lo as int, i as int),
        decreases hi - i,
    {
        r.push(s[i]);
        i = i + 1;
        proof {
            assert(r@ =~= s@.subrange(lo as int, i as int));
        }
    }
    proof {
        assert(r@ =~= s@.skip(lo as int).take((hi - lo) as int));
    }
    r
}

/// `n` copies of `c`.
pub open spec fn spec_repeat(c: char, n: int) -> Seq<char>
    decreases n,
{
    if n <= 0 {
        Seq::empty()
    } else {
        spec_repeat(c, n - 1).push(c)
    }
}

/// Appends `n` copies of `c` to a string.
pub fn push_repeat(s: &mut String, c: char, n: usize)
    ensures
        final(s)@ == old(s)@ + spec_repeat(c, n as int),
{
    let mut i: usize = 0;
    proof {
        assert(old(s)@ + spec_repeat(c, 0) =~= old(s)@);
    }
    while i < n
        invariant
            i <= n,
            s@ == old(s)@ + spec_repeat(c, i as int),
        decreases n - i,
    {
        push_char(s, c);
        i = i + 1;
        proof {
            assert((old(s)@ + spec_repeat(c, i - 1)).push(c) =~= old(s)@ + spec_repeat(
                c,
                i as int,
            ));
        }
    }
}

pub proof fn lemma_lex_lt_irrefl(a: Seq<char>)
    ensures
        !spec_lex_lt(a, a),
    decreases a.len(),
{
    if a.len() > 0 {
        lemma_lex_lt_irrefl(a.drop_first());
    }
}

pub proof fn lemma_lex_lt_trans(a: Seq<char>, b: Seq<char>, c: Seq<char>)
    ensures
        spec_lex_lt(a, b) && spec_lex_lt(b, c) ==> spec_lex_lt(a, c),
    decreases a.len(),
{
    if a.len() > 0 && b.len() > 0 && c.len() > 0 {
        lemma_lex_lt_trans(a.drop_first(), b.drop_first(), c.drop_first());
    }
}

pub proof fn lemma_lex_lt_neg_trans(a: Seq<char>, b: Seq<char>, c: Seq<char>)
    ensures
        !spec_lex_lt(a, b) && !spec_lex_lt(b, c) ==> !spec_lex_lt(a, c),
    decreases a.len(),
{
    if !spec_lex_lt(a, b) && !spec_lex_lt(b, c) && spec_lex_lt(a, c) {
        assert(c.len() > 0);
        if a.len() == 0 {
            assert(b.len() == 0);
            assert(spec_lex_lt(b, c));
        } else if b.len() == 0 {
            assert(c.len() == 0);
        } else {
            assert(b[0] as u32 <= a[0] as u32);
            assert(c[0] as u32 <= b[0] as u32);
            if (a[0] as u32) < (c[0] as u32) {
                assert(false);
            } else {
                assert(a[0] as u32 == c[0] as u32);
                assert(a[0] as u32 == b[0] as u32);
                lemma_lex_lt_neg_trans(a.drop_first(), b.drop_first(), c.drop_first());
            }
        }
    }
}

/// Appends one character to a string.
///
/// Relies on `String::push`: appends exactly the given character.
#[verifier::external_body]
pub fn push_char(s: &mut String, c: char)
    ensures
        final(s)@ == old(s)@.push(c),
{
    s.push(c);
}

/// A `String` holding exactly the given characters.
pub fn chars_to_string(v: &Vec<char>) -> (r: String)
    ensures
        r@ == v@,
{
    let mut r = String::new();
    let mut i: usize = 0;
    while i < v.len()
        invariant
            i <= v@.len(),
            r@ == v@.subrange(0, i as int),
        decreases v@.len() - i,
    {
        push_char(&mut r, v[i]);
        i = i + 1;
        proof {
            assert(r@ =~= v@.subrange(0, i as int));
        }
    }
    proof {
        assert(r@ =~= v@);
    }
    r
}

/// The decimal digit character for `d`.
pub open spec fn spec_digit_char(d: nat) -> char {
    ((48 + d) as u8) as char
}

/// The decimal rendering of `n`, most significant digit first.
pub open spec fn spec_u64_digits(n: nat) -> Seq<char>
    decreases n,
{
    if n < 10 {
        seq![spec_digit_char(n)]
    } else {
        spec_u64_digits(n / 10).push(spec_digit_char(n % 10))
    }
}

fn push_u64_digits(s: &mut String, n: u64)
    ensures
        final(s)@ == old(s)@ + spec_u64_digits(n as nat),
    decreases n,
{
    if n >= 10 {
        push_u64_digits(s, n / 10);
    }
    let d = (n % 10) as u8;
    push_char(s, (48 + d) as char);
    proof {
        if n < 10 {
            assert(old(s)@.push(spec_digit_char(n as nat)) =~= old(s)@ + spec_u64_digits(
                n as nat,
            ));
        } else {
            assert((old(s)@ + spec_u64_digits((n / 10) as nat)).push(
                spec_digit_char((n % 10) as nat),
            ) =~= old(s)@ + spec_u64_digits(n as nat));
        }
    }
}

/// The decimal rendering of `n` as a `String`.
pub fn u64_to_string(n: u64) -> (r: String)
    ensures
        r@ == spec_u64_digits(n as nat),
{
    let mut r = String::new();
    push_u64_digits(&mut r, n);
    proof {
        assert(Seq::<char>::empty() + spec_u64_digits(n as nat) =~= spec_u64_digits(n as nat));
    }
    r
}

/// The view of a sequence of strings, as a sequence of character sequences.
pub open spec fn seq_views(v: Seq<String>) -> Seq<Seq<char>> {
    v.map_values(|x: String| x@)
}

/// Whether `name` occurs in the list of names.
pub fn contains_name(names: &Vec<String>, name: &str) -> (r: bool)
    ensures
        r == seq_views(names@).contains(name@),
{
    let mut i: usize = 0;
    while i < names.len()
        invariant
            i <= names@.len(),
            forall|j: int| 0 <= j < i ==> seq_views(names@)[j] != name@,
        decreases names@.len() - i,
    {
        proof {
            assert(seq_views(names@)[i as int] == names@[i as int]@);
        }
        if str_eq(names[i].as_str(), name) {
            proof {
                assert(seq_views(names@).contains(name@));
            }
            return true;
        }
        i = i + 1;
    }
    proof {
        assert(forall|j: int|
            0 <= j < seq_views(names@).len() ==> #[trigger] seq_views(names@)[j] != name@);
    }
    false
}

/// `a + b` capped at `u64::MAX`, as a value.
pub open spec fn spec_sat_add_u64(a: u64, b: u64) -> u64 {
    if a + b <= u64::MAX {
        (a + b) as u64
    } else {
        u64::MAX
    }
}

/// `a + b` capped at `usize::MAX`, as a value.
pub open spec fn spec_sat_add_usize(a: usize, b: usize) -> usize {
    if a + b <= usize::MAX {
        (a + b) as usize
    } else {
        usize::MAX
    }
}

/// `n + 1` capped at `usize::MAX`, as a value.
pub open spec fn spec_sat_inc_usize(n: usize) -> usize {
    if n < usize::MAX {
        (n + 1) as usize
    } else {
        n
    }
}

/// `a + b`, capped at `u64::MAX`.
pub fn sat_add_u64(a: u64, b: u64) -> (r: u64)
    ensures
        r == spec_sat_add_u64(a, b),
{
    if a <= u64::MAX - b {
        a + b
    } else {
        u64::MAX
    }
}

/// `a + b`, capped at `usize::MAX`.
pub fn sat_add_usize(a: usize, b: usize) -> (r: usize)
    ensures
        r == spec_sat_add_usize(a, b),
{
    if a <= usize::MAX - b {
        a + b
    } else {
        usize::MAX
    }
}

/// `n + 1`, capped at `usize::MAX`.
pub fn sat_inc_usize(n: usize) -> (r: usize)
    ensures
        r == spec_sat_inc_usize(n),
{
    if n < usize::MAX {
        n + 1
    } else {
        n
    }
}

} // verus!
