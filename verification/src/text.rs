//! Character-level string operations: whitespace trimming, substring search,
//! splitting and replacement, each stated over `Seq<char>`.
use vstd::prelude::*;
use vstd::string::*;

verus! {

/// `String::push` appends one character to the end of the string.
pub assume_specification[ String::push ](s: &mut String, ch: char)
    ensures
        final(s)@ == old(s)@.push(ch),
;

/// The Unicode `White_Space` property, which is what `char::is_whitespace` tests.
pub open spec fn is_ws(c: char) -> bool {
    ||| ('\u{9}' <= c && c <= '\u{d}')
    ||| c == ' '
    ||| c == '\u{85}'
    ||| c == '\u{a0}'
    ||| c == '\u{1680}'
    ||| ('\u{2000}' <= c && c <= '\u{200a}')
    ||| c == '\u{2028}'
    ||| c == '\u{2029}'
    ||| c == '\u{202f}'
    ||| c == '\u{205f}'
    ||| c == '\u{3000}'
}

/// Drops leading whitespace.
pub open spec fn trim_start(s: Seq<char>) -> Seq<char>
    decreases s.len(),
{
    if s.len() > 0 && is_ws(s[0]) {
        trim_start(s.drop_first())
    } else {
        s
    }
}

/// Drops trailing whitespace.
pub open spec fn trim_end(s: Seq<char>) -> Seq<char>
    decreases s.len(),
{
    if s.len() > 0 && is_ws(s.last()) {
        trim_end(s.drop_last())
    } else {
        s
    }
}

/// What `str::trim` gives back.
pub open spec fn trim(s: Seq<char>) -> Seq<char> {
    trim_end(trim_start(s))
}

/// `p` occurs in `s` starting at index `k`.
pub open spec fn matches_at(s: Seq<char>, p: Seq<char>, k: int) -> bool {
    0 <= k && k + p.len() <= s.len() && s.subrange(k, k + p.len()) == p
}

/// Index of the leftmost occurrence of a non-empty pattern `p` in `s`.
pub open spec fn find(s: Seq<char>, p: Seq<char>) -> Option<int>
    decreases s.len(),
{
    if p.len() == 0 || s.len() < p.len() {
        None
    } else if matches_at(s, p, 0) {
        Some(0)
    } else {
        match find(s.drop_first(), p) {
            Some(k) => Some(k + 1),
            None => None,
        }
    }
}

/// First piece of `str::split(p)`: everything before the first occurrence of `p`.
pub open spec fn split_first(s: Seq<char>, p: Seq<char>) -> Seq<char> {
    match find(s, p) {
        Some(i) => s.take(i),
        None => s,
    }
}

/// `str::split(p).nth(1)`: the piece between the first and the second occurrence
/// of `p` (or up to the end), present only when `p` occurs at all.
pub open spec fn split_second(s: Seq<char>, p: Seq<char>) -> Option<Seq<char>> {
    match find(s, p) {
        Some(i) => Some(split_first(s.skip(i + p.len()), p)),
        None => None,
    }
}

/// `str::replace(p, r)` for a non-empty pattern: every occurrence of `p`, taken
/// left to right without overlap, is replaced by `r`.
pub open spec fn replace_all(s: Seq<char>, p: Seq<char>, r: Seq<char>) -> Seq<char>
    decreases s.len(),
{
    if p.len() == 0 || s.len() < p.len() {
        s
    } else if matches_at(s, p, 0) {
        r + replace_all(s.skip(p.len() as int), p, r)
    } else {
        seq![s[0]] + replace_all(s.drop_first(), p, r)
    }
}

/// `find` returns the leftmost occurrence.
pub proof fn lemma_find_some(s: Seq<char>, p: Seq<char>, k: int)
    requires
        p.len() > 0,
        matches_at(s, p, k),
        forall|j: int| 0 <= j < k ==> !matches_at(s, p, j),
    ensures
        find(s, p) == Some(k),
    decreases k,
{
    if k > 0 {
        assert(!matches_at(s, p, 0));
        let t = s.drop_first();
        assert forall|j: int| 0 <= j < k - 1 implies !matches_at(t, p, j) by {
            assert(!matches_at(s, p, j + 1));
            assert(t.subrange(j, j + p.len()) =~= s.subrange(j + 1, j + 1 + p.len()));
        }
        assert(t.subrange(k - 1, k - 1 + p.len()) =~= s.subrange(k, k + p.len()));
        lemma_find_some(t, p, k - 1);
    }
}

/// `find` finds nothing when no position matches.
pub proof fn lemma_find_none(s: Seq<char>, p: Seq<char>)
    requires
        p.len() > 0,
        forall|j: int| 0 <= j <= s.len() - p.len() ==> !matches_at(s, p, j),
    ensures
        find(s, p) is None,
    decreases s.len(),
{
    if s.len() >= p.len() {
        assert(!matches_at(s, p, 0));
        let t = s.drop_first();
        assert forall|j: int| 0 <= j <= t.len() - p.len() implies !matches_at(t, p, j) by {
            assert(!matches_at(s, p, j + 1));
            assert(t.subrange(j, j + p.len()) =~= s.subrange(j + 1, j + 1 + p.len()));
        }
        lemma_find_none(t, p);
    }
}

/// A located occurrence lies inside `s`.
pub proof fn lemma_find_bounds(s: Seq<char>, p: Seq<char>)
    ensures
        find(s, p) matches Some(k) ==> matches_at(s, p, k),
    decreases s.len(),
{
    if p.len() > 0 && s.len() >= p.len() && !matches_at(s, p, 0) {
        let t = s.drop_first();
        lemma_find_bounds(t, p);
        if let Some(k) = find(t, p) {
            assert(t.subrange(k, k + p.len()) =~= s.subrange(k + 1, k + 1 + p.len()));
        }
    }
}

/// The characters of a string slice, one per element.
pub fn chars_of(s: &str) -> (v: Vec<char>)
    ensures
        v@ == s@,
{
    let n = s.unicode_len();
    let mut v: Vec<char> = Vec::new();
    let mut i: usize = 0;
    while i < n
        invariant
            n == s@.len(),
            i <= n,
            v@ == s@.take(i as int),
        decreases n - i,
    {
        v.push(s.get_char(i));
        i = i + 1;
        assert(v@ =~= s@.take(i as int));
    }
    assert(v@ =~= s@);
    v
}

/// The string made of the characters `cs[from..to]`.
pub fn string_of_range(cs: &Vec<char>, from: usize, to: usize) -> (r: String)
    requires
        from <= to <= cs@.len(),
    ensures
        r@ == cs@.subrange(from as int, to as int),
{
    let mut r = String::new();
    let mut i = from;
    while i < to
        invariant
            from <= i <= to <= cs@.len(),
            r@ == cs@.subrange(from as int, i as int),
        decreases to - i,
    {
        r.push(cs[i]);
        i = i + 1;
        assert(r@ =~= cs@.subrange(from as int, i as int));
    }
    r
}

/// `c.is_whitespace()`.
pub fn is_whitespace(c: char) -> (b: bool)
    ensures
        b == is_ws(c),
{
    ('\u{9}' <= c && c <= '\u{d}') || c == ' ' || c == '\u{85}' || c == '\u{a0}' || c == '\u{1680}'
        || ('\u{2000}' <= c && c <= '\u{200a}') || c == '\u{2028}' || c == '\u{2029}' || c
        == '\u{202f}' || c == '\u{205f}' || c == '\u{3000}'
}

/// Bounds `[a, b)` such that `cs[a..b]` is `trim(cs)`.
pub fn trim_bounds(cs: &Vec<char>, from: usize, to: usize) -> (r: (usize, usize))
    requires
        from <= to <= cs@.len(),
    ensures
        from <= r.0 <= r.1 <= to,
        cs@.subrange(r.0 as int, r.1 as int) == trim(cs@.subrange(from as int, to as int)),
{
    let ghost s = cs@.subrange(from as int, to as int);
    let mut a = from;
    while a < to && is_whitespace(cs[a])
        invariant
            from <= a <= to <= cs@.len(),
            s == cs@.subrange(from as int, to as int),
            trim_start(s) == trim_start(cs@.subrange(a as int, to as int)),
        decreases to - a,
    {
        assert(cs@.subrange(a as int, to as int).drop_first() =~= cs@.subrange(
            a + 1,
            to as int,
        ));
        a = a + 1;
    }
    assert(trim_start(cs@.subrange(a as int, to as int)) == cs@.subrange(a as int, to as int));
    let mut b = to;
    while b > a && is_whitespace(cs[b - 1])
        invariant
            from <= a <= b <= to <= cs@.len(),
            trim(s) == trim_end(cs@.subrange(a as int, b as int)),
        decreases b - a,
    {
        assert(cs@.subrange(a as int, b as int).drop_last() =~= cs@.subrange(
            a as int,
            b - 1,
        ));
        b = b - 1;
    }
    (a, b)
}

/// `s.trim().to_string()`.
pub fn trim_string(s: &str) -> (r: String)
    ensures
        r@ == trim(s@),
{
    let cs = chars_of(s);
    let (a, b) = trim_bounds(&cs, 0, cs.len());
    assert(cs@.subrange(0, cs@.len() as int) =~= cs@);
    string_of_range(&cs, a, b)
}

/// Whether `p` occurs in `s` at index `k`.
pub fn matches_here(s: &Vec<char>, p: &Vec<char>, k: usize) -> (b: bool)
    requires
        k <= s@.len(),
    ensures
        b == matches_at(s@, p@, k as int),
{
    if p.len() > s.len() - k {
        return false;
    }
    let mut j: usize = 0;
    while j < p.len()
        invariant
            k + p@.len() <= s@.len(),
            s@.len() <= usize::MAX,
            j <= p@.len(),
            forall|t: int| 0 <= t < j ==> s@[k + t] == p@[t],
        decreases p@.len() - j,
    {
        if s[k + j] != p[j] {
            assert(s@.subrange(k as int, k + p@.len())[j as int] != p@[j as int]);
            return false;
        }
        j = j + 1;
    }
    assert(s@.subrange(k as int, k + p@.len()) =~= p@);
    true
}

/// Index of the leftmost occurrence of `p` in `s[from..]`, counted from `from`.
pub fn find_from(s: &Vec<char>, p: &Vec<char>, from: usize) -> (r: Option<usize>)
    requires
        p@.len() > 0,
        from <= s@.len(),
    ensures
        match r {
            Some(i) => from <= i && find(s@.skip(from as int), p@) == Some(i - from),
            None => find(s@.skip(from as int), p@) is None,
        },
{
    let ghost t = s@.skip(from as int);
    let mut i = from;
    while i < s.len()
        invariant
            from <= i <= s@.len(),
            p@.len() > 0,
            t == s@.skip(from as int),
            forall|j: int| 0 <= j < i - from ==> !matches_at(t, p@, j),
        decreases s@.len() - i,
    {
        if matches_here(s, p, i) {
            assert(t.subrange(i - from, i - from + p@.len()) =~= s@.subrange(
                i as int,
                i + p@.len(),
            ));
            proof { lemma_find_some(t, p@, (i - from) as int); }
            return Some(i);
        }
        assert(!matches_at(t, p@, i - from)) by {
            if i - from + p@.len() <= t.len() {
                assert(t.subrange(i - from, i - from + p@.len()) =~= s@.subrange(
                    i as int,
                    i + p@.len(),
                ));
            }
        }
        i = i + 1;
    }
    proof { lemma_find_none(t, p@); }
    None
}

/// `s.split(p).next().unwrap()` over characters: the prefix of `s` before the
/// first occurrence of `p`.
pub fn split_first_string(s: &str, p: &str) -> (r: String)
    requires
        p@.len() > 0,
    ensures
        r@ == split_first(s@, p@),
{
    let cs = chars_of(s);
    let ps = chars_of(p);
    assert(cs@.skip(0) =~= cs@);
    match find_from(&cs, &ps, 0) {
        Some(i) => {
            proof { lemma_find_bounds(cs@, ps@); }
            string_of_range(&cs, 0, i)
        },
        None => {
            assert(cs@.subrange(0, cs@.len() as int) =~= cs@);
            string_of_range(&cs, 0, cs.len())
        },
    }
}

/// `s.split(p).nth(1).map(str::to_string)`.
pub fn split_second_string(s: &str, p: &str) -> (r: Option<String>)
    requires
        p@.len() > 0,
    ensures
        match r {
            Some(x) => split_second(s@, p@) == Some(x@),
            None => split_second(s@, p@) is None,
        },
{
    let cs = chars_of(s);
    let ps = chars_of(p);
    assert(cs@.skip(0) =~= cs@);
    match find_from(&cs, &ps, 0) {
        Some(i) => {
            proof { lemma_find_bounds(cs@, ps@); }
            let total = cs.len();
            assert(i + ps@.len() <= total);
            let start = i + ps.len();
            let ghost rest = cs@.skip(start as int);
            match find_from(&cs, &ps, start) {
                Some(j) => {
                    proof { lemma_find_bounds(rest, ps@); }
                    let r = string_of_range(&cs, start, j);
                    assert(r@ =~= rest.take(j - start));
                    Some(r)
                },
                None => {
                    let r = string_of_range(&cs, start, cs.len());
                    assert(r@ =~= rest);
                    Some(r)
                },
            }
        },
        None => None,
    }
}

/// `s.replace(p, r)` for a non-empty pattern.
pub fn replace_string(s: &str, p: &str, r: &str) -> (out: String)
    requires
        p@.len() > 0,
    ensures
        out@ == replace_all(s@, p@, r@),
{
    let cs = chars_of(s);
    let ps = chars_of(p);
    let rs = chars_of(r);
    let mut out = String::new();
    let mut i: usize = 0;
    assert(cs@.skip(0) =~= cs@);
    while i < cs.len()
        invariant
            i <= cs@.len(),
            ps@.len() > 0,
            ps@ == p@,
            rs@ == r@,
            out@ + replace_all(cs@.skip(i as int), p@, r@) == replace_all(s@, p@, r@),
            cs@ == s@,
        decreases cs@.len() - i,
    {
        let ghost rest = cs@.skip(i as int);
        if matches_here(&cs, &ps, i) {
            assert(rest.subrange(0, ps@.len() as int) =~= cs@.subrange(i as int, i + ps@.len()));
            assert(matches_at(rest, p@, 0));
            let mut k: usize = 0;
            let ghost out0 = out@;
            while k < rs.len()
                invariant
                    k <= rs@.len(),
                    out@ == out0 + rs@.take(k as int),
                decreases rs@.len() - k,
            {
                out.push(rs[k]);
                k = k + 1;
                assert(out@ =~= out0 + rs@.take(k as int));
            }
            assert(rs@.take(rs@.len() as int) =~= rs@);
            assert(rest.skip(ps@.len() as int) =~= cs@.skip(i + ps@.len()));
            assert((out0 + r@) + replace_all(rest.skip(p@.len() as int), p@, r@) =~= out0 + (r@
                + replace_all(rest.skip(p@.len() as int), p@, r@)));
            i = i + ps.len();
        } else {
            proof {
                if rest.len() >= p@.len() {
                    assert(rest.subrange(0, ps@.len() as int) =~= cs@.subrange(
                        i as int,
                        i + ps@.len(),
                    ));
                }
            }
            let ghost out0 = out@;
            out.push(cs[i]);
            assert(rest.drop_first() =~= cs@.skip(i + 1));
            assert(out@ + replace_all(rest.drop_first(), p@, r@) =~= out0 + (seq![rest[0]]
                + replace_all(rest.drop_first(), p@, r@)));
            i = i + 1;
        }
    }
    assert(cs@.skip(i as int) =~= Seq::<char>::empty());
    assert(out@ + Seq::<char>::empty() =~= out@);
    out
}

/// Every position before the one `find` reports is not an occurrence, and when
/// `find` reports none, no position is.
pub proof fn lemma_find_least(s: Seq<char>, p: Seq<char>)
    requires
        p.len() > 0,
    ensures
        find(s, p) matches Some(k) ==> forall|j: int| 0 <= j < k ==> !matches_at(s, p, j),
        find(s, p) is None ==> forall|j: int| 0 <= j <= s.len() - p.len() ==> !matches_at(s, p, j),
    decreases s.len(),
{
    if s.len() >= p.len() && !matches_at(s, p, 0) {
        let t = s.drop_first();
        lemma_find_least(t, p);
        assert forall|j: int| 1 <= j <= s.len() - p.len() && !matches_at(t, p, j - 1) implies !matches_at(s, p, j) by {
            assert(t.subrange(j - 1, j - 1 + p.len()) =~= s.subrange(j, j + p.len()));
        }
        if let Some(k) = find(t, p) {
            assert forall|j: int| 0 <= j < k + 1 implies !matches_at(s, p, j) by {
                if j > 0 {
                    assert(!matches_at(t, p, j - 1));
                }
            }
        } else {
            assert forall|j: int| 0 <= j <= s.len() - p.len() implies !matches_at(s, p, j) by {
                if j > 0 {
                    assert(!matches_at(t, p, j - 1));
                }
            }
        }
    }
}

/// A single character occurs at `j` exactly when it is the character there.
pub proof fn lemma_matches_char(s: Seq<char>, c: char, j: int)
    ensures
        matches_at(s, seq![c], j) <==> (0 <= j < s.len() && s[j] == c),
{
    if 0 <= j < s.len() {
        if s[j] == c {
            assert(s.subrange(j, j + 1) =~= seq![c]);
        } else {
            assert(s.subrange(j, j + 1)[0] == s[j]);
        }
    }
}

/// What comes before the first `c` holds no `c`, and is a prefix.
pub proof fn lemma_split_first_char(s: Seq<char>, c: char)
    ensures
        split_first(s, seq![c]).len() <= s.len(),
        split_first(s, seq![c]) == s.take(split_first(s, seq![c]).len() as int),
        forall|j: int| 0 <= j < split_first(s, seq![c]).len() ==> split_first(s, seq![c])[j] != c,
{
    let p = seq![c];
    lemma_find_least(s, p);
    lemma_find_bounds(s, p);
    match find(s, p) {
        Some(k) => {
            assert forall|j: int| 0 <= j < k implies s[j] != c by {
                lemma_matches_char(s, c, j);
            }
        },
        None => {
            assert forall|j: int| 0 <= j < s.len() implies s[j] != c by {
                lemma_matches_char(s, c, j);
            }
            assert(s.take(s.len() as int) =~= s);
        },
    }
}

/// A string without `c` is its own first piece.
pub proof fn lemma_split_first_absent(s: Seq<char>, c: char)
    requires
        forall|j: int| 0 <= j < s.len() ==> s[j] != c,
    ensures
        split_first(s, seq![c]) == s,
{
    assert forall|j: int| 0 <= j <= s.len() - 1 implies !matches_at(s, seq![c], j) by {
        lemma_matches_char(s, c, j);
    }
    lemma_find_none(s, seq![c]);
}

/// Leading whitespace removal keeps a suffix that starts with a non-space.
pub proof fn lemma_trim_start(s: Seq<char>) -> (a: int)
    ensures
        0 <= a <= s.len(),
        trim_start(s) == s.subrange(a, s.len() as int),
        a < s.len() ==> !is_ws(s[a]),
    decreases s.len(),
{
    if s.len() > 0 && is_ws(s[0]) {
        let b = lemma_trim_start(s.drop_first());
        assert(s.drop_first().subrange(b, s.drop_first().len() as int) =~= s.subrange(
            b + 1,
            s.len() as int,
        ));
        b + 1
    } else {
        assert(s.subrange(0, s.len() as int) =~= s);
        0
    }
}

/// Trailing whitespace removal keeps a prefix that ends with a non-space.
pub proof fn lemma_trim_end(s: Seq<char>) -> (b: int)
    ensures
        0 <= b <= s.len(),
        trim_end(s) == s.subrange(0, b),
        b > 0 ==> !is_ws(s[b - 1]),
    decreases s.len(),
{
    if s.len() > 0 && is_ws(s.last()) {
        let b = lemma_trim_end(s.drop_last());
        assert(s.drop_last().subrange(0, b) =~= s.subrange(0, b));
        b
    } else {
        assert(s.subrange(0, s.len() as int) =~= s);
        s.len() as int
    }
}

/// `trim` keeps a stretch of the string that neither starts nor ends with
/// whitespace.
pub proof fn lemma_trim_range(s: Seq<char>) -> (r: (int, int))
    ensures
        0 <= r.0 <= r.1 <= s.len(),
        trim(s) == s.subrange(r.0, r.1),
        r.0 < r.1 ==> !is_ws(s[r.0]) && !is_ws(s[r.1 - 1]),
{
    let a = lemma_trim_start(s);
    let t = s.subrange(a, s.len() as int);
    let b = lemma_trim_end(t);
    assert(t.subrange(0, b) =~= s.subrange(a, a + b));
    if b > 0 {
        assert(t[0] == s[a]);
        assert(t[b - 1] == s[a + b - 1]);
    }
    (a, a + b)
}

/// A string that neither starts nor ends with whitespace is its own trim.
pub proof fn lemma_trim_fixed(s: Seq<char>)
    requires
        s.len() > 0 ==> !is_ws(s[0]) && !is_ws(s.last()),
    ensures
        trim(s) == s,
{
    assert(trim_start(s) == s);
    assert(trim_end(s) == s);
}

/// Trimming twice trims once.
pub proof fn lemma_trim_idempotent(s: Seq<char>)
    ensures
        trim(trim(s)) == trim(s),
{
    let (a, b) = lemma_trim_range(s);
    let t = trim(s);
    if t.len() > 0 {
        assert(t[0] == s[a]);
        assert(t.last() == s[b - 1]);
    }
    lemma_trim_fixed(t);
}

} // verus!
