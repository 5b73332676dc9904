//! Character-level text operations shared by all provider transforms:
//! conversion between `str`/`String` and `Vec<char>`, exact-substring search
//! and replacement, and splitting on a separator character.

use vstd::prelude::*;
use vstd::string::*;

verus! {

/// Whether `p` occurs in `s` starting at position `i`.
pub open spec fn spec_matches_at(s: Seq<char>, i: int, p: Seq<char>) -> bool {
    0 <= i && i + p.len() <= s.len() && s.subrange(i, i + p.len() as int) == p
}

/// Position of the first occurrence of `p` in `s` at or after `from`.
pub open spec fn spec_find_from(s: Seq<char>, p: Seq<char>, from: int) -> Option<int>
    decreases s.len() - from,
{
    if from < 0 || from + p.len() > s.len() {
        None
    } else if p.len() == 0 {
        Some(from)
    } else if spec_matches_at(s, from, p) {
        Some(from)
    } else {
        spec_find_from(s, p, from + 1)
    }
}

/// Position of the first occurrence of `p` in `s`, if any.
pub open spec fn spec_find(s: Seq<char>, p: Seq<char>) -> Option<int> {
    spec_find_from(s, p, 0)
}

proof fn lemma_find_from_bounds(s: Seq<char>, p: Seq<char>, from: int)
    ensures
        match spec_find_from(s, p, from) {
            Some(j) => from <= j && j + p.len() <= s.len() && spec_matches_at(s, j, p),
            None => true,
        },
    decreases s.len() - from,
{
    if from < 0 || from + p.len() > s.len() {
    } else if p.len() == 0 {
        assert(s.subrange(from, from + p.len() as int) =~= p);
    } else if spec_matches_at(s, from, p) {
    } else {
        lemma_find_from_bounds(s, p, from + 1);
    }
}

/// A found occurrence lies inside the text and matches the pattern there.
pub proof fn lemma_find_bounds(s: Seq<char>, p: Seq<char>)
    ensures
        match spec_find(s, p) {
            Some(j) => 0 <= j && j + p.len() <= s.len() && spec_matches_at(s, j, p),
            None => true,
        },
{
    lemma_find_from_bounds(s, p, 0);
}

/// `s` with every non-overlapping occurrence of `p`, scanned left to right,
/// replaced by `t`. Replacements are not rescanned. An empty pattern
/// changes nothing.
pub open spec fn spec_replace(s: Seq<char>, p: Seq<char>, t: Seq<char>) -> Seq<char>
    decreases s.len(),
{
    if p.len() == 0 || s.len() < p.len() {
        s
    } else if s.take(p.len() as int) == p {
        t + spec_replace(s.skip(p.len() as int), p, t)
    } else {
        seq![s[0]] + spec_replace(s.skip(1), p, t)
    }
}

/// The characters of `s`, one vector element per `char`.
pub fn chars_of(s: &str) -> (r: Vec<char>)
    ensures
        r@ == s@,
{
    let n = s.unicode_len();
    let mut out: Vec<char> = Vec::new();
    let mut i: usize = 0;
    while i < n
        invariant
            i <= n,
            n == s@.len(),
            out@ == s@.take(i as int),
        decreases n - i,
    {
        let c = s.get_char(i);
        out.push(c);
        proof {
            assert(s@.take(i + 1) =~= s@.take(i as int).push(s@[i as int]));
        }
        i = i + 1;
    }
    proof {
        assert(s@.take(n as int) =~= s@);
    }
    out
}

/// Relies on std's `String::push`: appends one character at the end.
#[verifier::external_body]
fn push_char(s: &mut String, c: char)
    ensures
        final(s)@ == old(s)@.push(c),
{
    s.push(c);
}

/// A `String` holding exactly the characters of `v`.
pub fn string_of(v: &Vec<char>) -> (r: String)
    ensures
        r@ == v@,
{
    let mut out = String::new();
    let mut i: usize = 0;
    while i < v.len()
        invariant
            i <= v@.len(),
            out@ == v@.take(i as int),
        decreases v@.len() - i,
    {
        push_char(&mut out, v[i]);
        proof {
            assert(v@.take(i + 1) =~= v@.take(i as int).push(v@[i as int]));
        }
        i = i + 1;
    }
    proof {
        assert(v@.take(v@.len() as int) =~= v@);
    }
    out
}

/// Whether `p` occurs in `s` starting at position `i`.
pub fn matches_at(s: &Vec<char>, i: usize, p: &Vec<char>) -> (r: bool)
    ensures
        r == spec_matches_at(s@, i as int, p@),
{
    let n = s.len();
    let m = p.len();
    if i > n || n - i < m {
        assert(!spec_matches_at(s@, i as int, p@));
        return false;
    }
    let mut j: usize = 0;
    while j < m
        invariant
            j <= m,
            m == p@.len(),
            n == s@.len(),
            i + m <= n,
            forall|k: int| 0 <= k < j ==> s@[i + k] == p@[k],
        decreases m - j,
    {
        if s[i + j] != p[j] {
            assert(s@.subrange(i as int, i + p@.len() as int)[j as int] != p@[j as int]);
            return false;
        }
        j = j + 1;
    }
    proof {
        assert(s@.subrange(i as int, i + p@.len() as int) =~= p@);
    }
    true
}

/// Position of the first occurrence of `p` in `s`, if any.
pub fn find_first(s: &Vec<char>, p: &Vec<char>) -> (r: Option<usize>)
    ensures
        match r {
            Some(j) => spec_find(s@, p@) == Some(j as int),
            None => spec_find(s@, p@) is None,
        },
{
    let n = s.len();
    let m = p.len();
    if m > n {
        return None;
    }
    if m == 0 {
        return Some(0);
    }
    let bound = n - m;
    let mut i: usize = 0;
    while i <= bound
        invariant
            n == s@.len(),
            m == p@.len(),
            0 < m <= n,
            bound == n - m,
            i <= bound + 1,
            spec_find(s@, p@) == spec_find_from(s@, p@, i as int),
        decreases bound + 1 - i,
    {
        if matches_at(s, i, p) {
            return Some(i);
        }
        i = i + 1;
    }
    None
}

/// Appends the characters of `t` to `out`.
pub fn append_chars(out: &mut Vec<char>, t: &Vec<char>)
    ensures
        final(out)@ == old(out)@ + t@,
{
    let mut j: usize = 0;
    while j < t.len()
        invariant
            j <= t@.len(),
            out@ == old(out)@ + t@.take(j as int),
        decreases t@.len() - j,
    {
        out.push(t[j]);
        proof {
            assert(old(out)@ + t@.take(j + 1) =~= (old(out)@ + t@.take(j as int)).push(
                t@[j as int],
            ));
        }
        j = j + 1;
    }
    proof {
        assert(old(out)@ + t@.take(t@.len() as int) =~= old(out)@ + t@);
    }
}

/// `s` with every non-overlapping occurrence of `p` replaced by `t`.
pub fn replace_chars(s: &Vec<char>, p: &Vec<char>, t: &Vec<char>) -> (r: Vec<char>)
    ensures
        r@ == spec_replace(s@, p@, t@),
{
    let mut out: Vec<char> = Vec::new();
    if p.len() == 0 {
        append_chars(&mut out, s);
        return out;
    }
    let mut i: usize = 0;
    proof {
        assert(s@.skip(0) =~= s@);
        assert(Seq::<char>::empty() + spec_replace(s@, p@, t@) =~= spec_replace(s@, p@, t@));
    }
    while i < s.len()
        invariant
            i <= s@.len(),
            p@.len() > 0,
            spec_replace(s@, p@, t@) == out@ + spec_replace(s@.skip(i as int), p@, t@),
        decreases s@.len() - i,
    {
        let ghost out_pre = out@;
        let ghost rest = s@.skip(i as int);
        if matches_at(s, i, p) {
            append_chars(&mut out, t);
            proof {
                assert(rest.take(p@.len() as int) =~= s@.subrange(i as int, i + p@.len() as int));
                assert(rest.skip(p@.len() as int) =~= s@.skip(i + p@.len() as int));
                assert(spec_replace(rest, p@, t@) == t@ + spec_replace(
                    s@.skip(i + p@.len() as int),
                    p@,
                    t@,
                ));
                assert(out_pre + (t@ + spec_replace(s@.skip(i + p@.len() as int), p@, t@)) =~= (
                out_pre + t@) + spec_replace(s@.skip(i + p@.len() as int), p@, t@));
            }
            i = i + p.len();
        } else {
            out.push(s[i]);
            proof {
                if rest.len() >= p@.len() {
                    assert(rest.take(p@.len() as int) =~= s@.subrange(
                        i as int,
                        i + p@.len() as int,
                    ));
                    assert(rest.take(p@.len() as int) != p@);
                }
                assert(rest =~= seq![s@[i as int]] + s@.skip(i + 1));
                if rest.len() < p@.len() {
                    assert(spec_replace(s@.skip(i + 1), p@, t@) == s@.skip(i + 1));
                    assert(spec_replace(rest, p@, t@) == rest);
                    assert(rest =~= seq![s@[i as int]] + spec_replace(s@.skip(i + 1), p@, t@));
                } else {
                    assert(spec_replace(rest, p@, t@) == seq![rest[0]] + spec_replace(
                        rest.skip(1),
                        p@,
                        t@,
                    ));
                    assert(rest.skip(1) =~= s@.skip(i + 1));
                }
                assert(out_pre + (seq![s@[i as int]] + spec_replace(s@.skip(i + 1), p@, t@)) =~= (
                out_pre + seq![s@[i as int]]) + spec_replace(s@.skip(i + 1), p@, t@));
                assert(out_pre + seq![s@[i as int]] =~= out_pre.push(s@[i as int]));
            }
            i = i + 1;
        }
    }
    proof {
        assert(s@.skip(s@.len() as int) =~= Seq::<char>::empty());
        assert(spec_replace(Seq::<char>::empty(), p@, t@) == Seq::<char>::empty());
        assert(out@ + Seq::<char>::empty() =~= out@);
    }
    out
}

/// The segments of `s` between occurrences of the separator character `sep`:
/// splitting never yields zero segments, and a leading, trailing or doubled
/// separator yields empty segments, as `str::split` does.
pub open spec fn spec_split(s: Seq<char>, sep: char) -> Seq<Seq<char>>
    decreases s.len(),
{
    if s.len() == 0 {
        seq![Seq::<char>::empty()]
    } else if s[0] == sep {
        seq![Seq::<char>::empty()] + spec_split(s.skip(1), sep)
    } else {
        let rest = spec_split(s.skip(1), sep);
        seq![seq![s[0]] + rest[0]] + rest.skip(1)
    }
}

proof fn lemma_spec_split_nonempty(s: Seq<char>, sep: char)
    ensures
        spec_split(s, sep).len() > 0,
    decreases s.len(),
{
    if s.len() != 0 && s[0] != sep {
        lemma_spec_split_nonempty(s.skip(1), sep);
    }
}

/// `parts` with `pre` prepended to its first segment.
spec fn prepend_first(pre: Seq<char>, parts: Seq<Seq<char>>) -> Seq<Seq<char>>
    recommends
        parts.len() > 0,
{
    seq![pre + parts[0]] + parts.skip(1)
}

/// Splits `s` at every occurrence of `sep`.
pub fn split_chars(s: &Vec<char>, sep: char) -> (r: Vec<Vec<char>>)
    ensures
        r.deep_view() == spec_split(s@, sep),
{
    let ghost whole = s@;
    let mut out: Vec<Vec<char>> = Vec::new();
    let mut cur: Vec<char> = Vec::new();
    let mut i: usize = 0;
    proof {
        lemma_spec_split_nonempty(whole, sep);
        assert(whole.skip(0) =~= whole);
        assert(Seq::<char>::empty() + spec_split(whole, sep)[0] =~= spec_split(whole, sep)[0]);
        assert(seq![spec_split(whole, sep)[0]] + spec_split(whole, sep).skip(1) =~= spec_split(
            whole,
            sep,
        ));
        assert(out.deep_view() + prepend_first(cur@, spec_split(whole.skip(0), sep)) =~= spec_split(
            whole,
            sep,
        ));
    }
    while i < s.len()
        invariant
            i <= s@.len(),
            spec_split(s@, sep) == out.deep_view() + prepend_first(
                cur@,
                spec_split(s@.skip(i as int), sep),
            ),
        decreases s@.len() - i,
    {
        let ghost rest_split = spec_split(s@.skip(i + 1), sep);
        let ghost out_pre = out.deep_view();
        let ghost cur_pre = cur@;
        proof {
            lemma_spec_split_nonempty(s@.skip(i + 1), sep);
            assert(s@.skip(i as int).skip(1) =~= s@.skip(i + 1));
            assert(s@.skip(i as int)[0] == s@[i as int]);
        }
        if s[i] == sep {
            let done = cur;
            cur = Vec::new();
            out.push(done);
            proof {
                assert(spec_split(s@.skip(i as int), sep) == seq![Seq::<char>::empty()]
                    + rest_split);
                assert(prepend_first(cur_pre, seq![Seq::<char>::empty()] + rest_split) =~= seq![
                    cur_pre + Seq::<char>::empty(),
                ] + rest_split);
                assert(cur_pre + Seq::<char>::empty() =~= cur_pre);
                assert(out.deep_view() =~~= out_pre.push(cur_pre));
                assert(Seq::<char>::empty() + rest_split[0] =~= rest_split[0]);
                assert(prepend_first(cur@, rest_split) =~= seq![rest_split[0]] + rest_split.skip(
                    1,
                ));
                assert(seq![rest_split[0]] + rest_split.skip(1) =~= rest_split);
                assert(out_pre.push(cur_pre) + rest_split =~= out_pre + (seq![cur_pre]
                    + rest_split));
            }
        } else {
            cur.push(s[i]);
            proof {
                assert(spec_split(s@.skip(i as int), sep) == seq![seq![s@[i as int]]
                    + rest_split[0]] + rest_split.skip(1));
                assert(prepend_first(cur_pre, spec_split(s@.skip(i as int), sep)) =~= seq![cur_pre
                    + (seq![s@[i as int]] + rest_split[0])] + rest_split.skip(1));
                assert(cur_pre + (seq![s@[i as int]] + rest_split[0]) =~= cur_pre.push(
                    s@[i as int],
                ) + rest_split[0]);
                assert(prepend_first(cur@, rest_split) =~= seq![cur_pre.push(s@[i as int])
                    + rest_split[0]] + rest_split.skip(1));
            }
        }
        i = i + 1;
    }
    proof {
        assert(s@.skip(s@.len() as int) =~= Seq::<char>::empty());
        assert(spec_split(Seq::<char>::empty(), sep) == seq![Seq::<char>::empty()]);
        assert(cur@ + Seq::<char>::empty() =~= cur@);
        assert(prepend_first(cur@, seq![Seq::<char>::empty()]) =~= seq![cur@]);
    }
    let ghost out_pre = out.deep_view();
    let ghost cur_last = cur@;
    out.push(cur);
    proof {
        assert(out.deep_view() =~~= out_pre.push(cur_last));
        assert(out_pre + seq![cur_last] =~= out_pre.push(cur_last));
        assert(out.deep_view() =~= spec_split(whole, sep));
    }
    out
}

/// Whether two character vectors hold the same text.
pub fn chars_equal(a: &Vec<char>, b: &Vec<char>) -> (r: bool)
    ensures
        r == (a@ == b@),
{
    if a.len() != b.len() {
        return false;
    }
    let mut i: usize = 0;
    while i < a.len()
        invariant
            i <= a@.len(),
            a@.len() == b@.len(),
            forall|k: int| 0 <= k < i ==> a@[k] == b@[k],
        decreases a@.len() - i,
    {
        if a[i] != b[i] {
            return false;
        }
        i = i + 1;
    }
    proof {
        assert(a@ =~= b@);
    }
    true
}

/// Whether two string slices hold the same text.
pub fn str_eq(a: &str, b: &str) -> (r: bool)
    ensures
        r == (a@ == b@),
{
    let av = chars_of(a);
    let bv = chars_of(b);
    chars_equal(&av, &bv)
}

/// The decimal digit character for `d`.
pub open spec fn digit_char(d: int) -> char
    recommends
        0 <= d <= 9,
{
    if d == 0 {
        '0'
    } else if d == 1 {
        '1'
    } else if d == 2 {
        '2'
    } else if d == 3 {
        '3'
    } else if d == 4 {
        '4'
    } else if d == 5 {
        '5'
    } else if d == 6 {
        '6'
    } else if d == 7 {
        '7'
    } else if d == 8 {
        '8'
    } else {
        '9'
    }
}

/// The decimal digits of a nonnegative number, most significant first.
pub open spec fn spec_decimal_digits(n: int) -> Seq<char>
    recommends
        n >= 0,
    decreases n,
{
    if n < 10 {
        seq![digit_char(n)]
    } else {
        spec_decimal_digits(n / 10) + seq![digit_char(n % 10)]
    }
}

/// The decimal rendering of an integer, with a leading `-` when negative.
pub open spec fn spec_decimal(n: int) -> Seq<char> {
    if n < 0 {
        seq!['-'] + spec_decimal_digits(-n)
    } else {
        spec_decimal_digits(n)
    }
}

fn digit_of(d: u64) -> (c: char)
    requires
        d < 10,
    ensures
        c == digit_char(d as int),
{
    if d == 0 {
        '0'
    } else if d == 1 {
        '1'
    } else if d == 2 {
        '2'
    } else if d == 3 {
        '3'
    } else if d == 4 {
        '4'
    } else if d == 5 {
        '5'
    } else if d == 6 {
        '6'
    } else if d == 7 {
        '7'
    } else if d == 8 {
        '8'
    } else {
        '9'
    }
}

fn decimal_digits(n: u64) -> (r: Vec<char>)
    ensures
        r@ == spec_decimal_digits(n as int),
    decreases n,
{
    if n < 10 {
        let mut v: Vec<char> = Vec::new();
        v.push(digit_of(n));
        proof {
            assert(v@ =~= seq![digit_char(n as int)]);
        }
        v
    } else {
        proof {
            assert((n as int) / 10 == (n / 10) as int);
            assert((n as int) % 10 == (n % 10) as int);
        }
        let mut v = decimal_digits(n / 10);
        v.push(digit_of(n % 10));
        proof {
            assert(v@ =~= spec_decimal_digits((n as int) / 10) + seq![digit_char((n as int) % 10)]);
        }
        v
    }
}

/// The decimal rendering of `n`, as the standard formatter would print it.
pub fn decimal_string(n: i64) -> (r: String)
    ensures
        r@ == spec_decimal(n as int),
{
    if n >= 0 {
        string_of(&decimal_digits(n as u64))
    } else {
        let m: u64 = ((-(n + 1)) as u64) + 1;
        proof {
            assert(m as int == -(n as int));
        }
        let mut v: Vec<char> = Vec::new();
        v.push('-');
        let digits = decimal_digits(m);
        append_chars(&mut v, &digits);
        proof {
            assert(v@ =~= seq!['-'] + spec_decimal_digits(m as int));
        }
        string_of(&v)
    }
}

} // verus!
