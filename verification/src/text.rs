//! Verified building blocks for the character-level work of the prompt:
//! trimming, searching and slicing sequences of characters.
//!
//! Executable code works on `Vec<char>`, whose view is the same `Seq<char>`
//! that `String` and `&str` views use, so every contract here composes
//! directly with string-typed contracts elsewhere in the crate.

use vstd::prelude::*;
use vstd::string::StrSliceExecFns;

verus! {

/// The characters `str::trim` removes: Unicode `White_Space`.
pub open spec fn is_wspace_char(c: char) -> bool {
    c == ' ' || c == '\t' || c == '\n' || c == '\r' || c == '\u{b}' || c == '\u{c}'
        || c == '\u{85}' || c == '\u{a0}' || c == '\u{1680}'
        || ('\u{2000}' <= c && c <= '\u{200a}')
        || c == '\u{2028}' || c == '\u{2029}' || c == '\u{202f}' || c == '\u{205f}'
        || c == '\u{3000}'
}

pub fn is_wspace(c: char) -> (b: bool)
    ensures
        b == is_wspace_char(c),
{
    c == ' ' || c == '\t' || c == '\n' || c == '\r' || c == '\u{b}' || c == '\u{c}'
        || c == '\u{85}' || c == '\u{a0}' || c == '\u{1680}'
        || ('\u{2000}' <= c && c <= '\u{200a}')
        || c == '\u{2028}' || c == '\u{2029}' || c == '\u{202f}' || c == '\u{205f}'
        || c == '\u{3000}'
}

/// Relies on `String::push`: appends exactly one character at the end.
#[verifier::external_body]
pub(crate) fn push_char(s: &mut String, c: char)
    ensures
        final(s)@ == old(s)@.push(c),
{
    s.push(c);
}

/// The characters of a string slice, as a vector.
pub fn chars_of(s: &str) -> (v: Vec<char>)
    ensures
        v@ == s@,
{
    let n = s.unicode_len();
    let mut v: Vec<char> = Vec::new();
    let mut i: usize = 0;
    while i < n
        invariant
            i <= n,
            n == s@.len(),
            v@ =~= s@.take(i as int),
        decreases n - i,
    {
        v.push(s.get_char(i));
        i += 1;
    }
    proof {
        assert(v@ =~= s@);
    }
    v
}

/// A `String` holding exactly the given characters.
pub fn string_of(v: &Vec<char>) -> (s: String)
    ensures
        s@ == v@,
{
    let mut s = String::new();
    let mut i: usize = 0;
    while i < v.len()
        invariant
            i <= v.len(),
            s@ =~= v@.take(i as int),
        decreases v.len() - i,
    {
        push_char(&mut s, v[i]);
        i += 1;
    }
    proof {
        assert(s@ =~= v@);
    }
    s
}

/// What `str::trim_start` leaves: the sequence without its leading
/// whitespace.
pub open spec fn trim_start_spec(s: Seq<char>) -> Seq<char>
    decreases s.len(),
{
    if s.len() > 0 && is_wspace_char(s[0]) {
        trim_start_spec(s.subrange(1, s.len() as int))
    } else {
        s
    }
}

/// What `str::trim_end` leaves: the sequence without its trailing
/// whitespace.
pub open spec fn trim_end_spec(s: Seq<char>) -> Seq<char>
    decreases s.len(),
{
    if s.len() > 0 && is_wspace_char(s[s.len() - 1]) {
        trim_end_spec(s.take(s.len() - 1))
    } else {
        s
    }
}

/// What `str::trim` leaves: no leading and no trailing whitespace.
pub open spec fn trim_spec(s: Seq<char>) -> Seq<char> {
    trim_end_spec(trim_start_spec(s))
}

proof fn lemma_trim_start_at(s: Seq<char>, k: int)
    requires
        0 <= k <= s.len(),
        forall|j: int| 0 <= j < k ==> is_wspace_char(s[j]),
        k < s.len() ==> !is_wspace_char(s[k]),
    ensures
        trim_start_spec(s) == s.subrange(k, s.len() as int),
    decreases k,
{
    if k == 0 {
        assert(s.subrange(0, s.len() as int) =~= s);
    } else {
        let s1 = s.subrange(1, s.len() as int);
        assert(is_wspace_char(s[0]));
        assert(forall|j: int| 0 <= j < k - 1 ==> is_wspace_char(s1[j]));
        lemma_trim_start_at(s1, k - 1);
        assert(s1.subrange(k - 1, s1.len() as int) =~= s.subrange(k, s.len() as int));
    }
}

proof fn lemma_trim_end_at(s: Seq<char>, k: int)
    requires
        0 <= k <= s.len(),
        forall|j: int| k <= j < s.len() ==> is_wspace_char(s[j]),
        k > 0 ==> !is_wspace_char(s[k - 1]),
    ensures
        trim_end_spec(s) == s.take(k),
    decreases s.len(),
{
    if k == s.len() {
        if s.len() > 0 && is_wspace_char(s[s.len() - 1]) {
            assert(k > 0 && !is_wspace_char(s[k - 1]));
        }
        assert(s.take(k) =~= s);
    } else {
        assert(is_wspace_char(s[s.len() - 1]));
        let s1 = s.take(s.len() - 1);
        lemma_trim_end_at(s1, k);
        assert(s1.take(k) =~= s.take(k));
    }
}

/// Trim both ends, exactly as `str::trim` does.
pub fn trim_chars(v: &Vec<char>) -> (r: Vec<char>)
    ensures
        r@ == trim_spec(v@),
{
    let n = v.len();
    let mut a: usize = 0;
    while a < n && is_wspace(v[a])
        invariant
            a <= n,
            n == v@.len(),
            forall|j: int| 0 <= j < a ==> is_wspace_char(v@[j]),
        decreases n - a,
    {
        a += 1;
    }
    proof {
        lemma_trim_start_at(v@, a as int);
    }
    let mut b: usize = n;
    while b > a && is_wspace(v[b - 1])
        invariant
            a <= b <= n,
            n == v@.len(),
            forall|j: int| b <= j < n ==> is_wspace_char(v@[j]),
        decreases b,
    {
        b -= 1;
    }
    proof {
        let t = v@.subrange(a as int, n as int);
        assert(forall|j: int| b - a <= j < t.len() ==> is_wspace_char(t[j]));
        lemma_trim_end_at(t, b - a);
        assert(t.take(b - a) =~= v@.subrange(a as int, b as int));
    }
    let mut r: Vec<char> = Vec::new();
    let mut i: usize = a;
    while i < b
        invariant
            a <= i <= b <= n,
            n == v@.len(),
            r@ =~= v@.subrange(a as int, i as int),
        decreases b - i,
    {
        r.push(v[i]);
        i += 1;
    }
    proof {
        assert(r@ =~= v@.subrange(a as int, b as int));
    }
    r
}

/// `s` begins with `p`.
pub open spec fn starts_with_spec(s: Seq<char>, p: Seq<char>) -> bool {
    s.len() >= p.len() && s.take(p.len() as int) == p
}

pub fn starts_with_chars(v: &Vec<char>, p: &Vec<char>) -> (b: bool)
    ensures
        b == starts_with_spec(v@, p@),
{
    if p.len() > v.len() {
        return false;
    }
    let mut j: usize = 0;
    while j < p.len()
        invariant
            j <= p.len() <= v.len(),
            forall|m: int| 0 <= m < j ==> v@[m] == p@[m],
        decreases p.len() - j,
    {
        if v[j] != p[j] {
            proof {
                assert(v@.take(p@.len() as int)[j as int] != p@[j as int]);
            }
            return false;
        }
        j += 1;
    }
    proof {
        assert(v@.take(p@.len() as int) =~= p@);
    }
    true
}

/// `p` occurs in `s` at position `k`.
pub open spec fn match_at(s: Seq<char>, p: Seq<char>, k: int) -> bool {
    0 <= k && k + p.len() <= s.len() && s.subrange(k, k + p.len() as int) == p
}

/// `p` occurs somewhere in `s`.
pub open spec fn has_sub(s: Seq<char>, p: Seq<char>) -> bool {
    exists|k: int| match_at(s, p, k)
}

fn match_at_chars(v: &Vec<char>, p: &Vec<char>, k: usize) -> (b: bool)
    requires
        k + p@.len() <= v@.len(),
    ensures
        b == match_at(v@, p@, k as int),
{
    let n = v.len();
    let mut j: usize = 0;
    while j < p.len()
        invariant
            j <= p.len(),
            n == v@.len(),
            k + p@.len() <= v@.len(),
            forall|m: int| 0 <= m < j ==> v@[k + m] == p@[m],
        decreases p.len() - j,
    {
        if v[k + j] != p[j] {
            proof {
                assert(v@.subrange(k as int, k + p@.len() as int)[j as int] != p@[j as int]);
            }
            return false;
        }
        j += 1;
    }
    proof {
        assert(v@.subrange(k as int, k + p@.len() as int) =~= p@);
    }
    true
}

/// The position of the leftmost occurrence of `p` in `v`, if any.
pub fn find_first_match(v: &Vec<char>, p: &Vec<char>) -> (r: Option<usize>)
    ensures
        match r {
            Some(k) => match_at(v@, p@, k as int) && forall|j: int|
                0 <= j < k ==> !match_at(v@, p@, j),
            None => !has_sub(v@, p@),
        },
{
    if p.len() > v.len() {
        return None;
    }
    if p.len() == 0 {
        proof {
            assert(v@.subrange(0, 0) =~= p@);
        }
        return Some(0);
    }
    let n = v.len();
    let last = n - p.len();
    let mut k: usize = 0;
    while k <= last
        invariant
            k <= last + 1,
            n == v@.len(),
            last + p@.len() == v@.len(),
            p@.len() >= 1,
            forall|j: int| 0 <= j < k ==> !match_at(v@, p@, j),
        decreases last + 1 - k,
    {
        if match_at_chars(v, p, k) {
            return Some(k);
        }
        k += 1;
    }
    None
}

pub fn has_sub_chars(v: &Vec<char>, p: &Vec<char>) -> (b: bool)
    ensures
        b == has_sub(v@, p@),
{
    find_first_match(v, p).is_some()
}

/// The index of the first occurrence of `c` in `s` (meaningful only when
/// `c` occurs).
pub open spec fn first_index_of(s: Seq<char>, c: char) -> int
    decreases s.len(),
{
    if s.len() == 0 {
        0
    } else if s[0] == c {
        0
    } else {
        1 + first_index_of(s.skip(1), c)
    }
}

/// The index of the last occurrence of `c` in `s`, or `-1` when `c` does
/// not occur.
pub open spec fn last_index_of(s: Seq<char>, c: char) -> int
    decreases s.len(),
{
    if s.len() == 0 {
        -1
    } else if s[s.len() - 1] == c {
        s.len() - 1
    } else {
        last_index_of(s.take(s.len() - 1), c)
    }
}

proof fn lemma_first_index_of_at(s: Seq<char>, c: char, i: int)
    requires
        0 <= i < s.len(),
        s[i] == c,
        forall|j: int| 0 <= j < i ==> s[j] != c,
    ensures
        first_index_of(s, c) == i,
    decreases i,
{
    if i > 0 {
        let s1 = s.skip(1);
        assert(forall|j: int| 0 <= j < i - 1 ==> s1[j] != c);
        lemma_first_index_of_at(s1, c, i - 1);
    }
}

proof fn lemma_last_index_of_at(s: Seq<char>, c: char, i: int)
    requires
        0 <= i < s.len(),
        s[i] == c,
        forall|j: int| i < j < s.len() ==> s[j] != c,
    ensures
        last_index_of(s, c) == i,
    decreases s.len(),
{
    if i < s.len() - 1 {
        let s1 = s.take(s.len() - 1);
        lemma_last_index_of_at(s1, c, i);
    }
}

/// The position of the first `c` in `v`, if any.
pub fn find_char(v: &Vec<char>, c: char) -> (r: Option<usize>)
    ensures
        match r {
            Some(i) => i < v@.len() && v@[i as int] == c && i == first_index_of(v@, c),
            None => forall|j: int| 0 <= j < v@.len() ==> v@[j] != c,
        },
{
    let mut i: usize = 0;
    while i < v.len()
        invariant
            i <= v@.len(),
            forall|j: int| 0 <= j < i ==> v@[j] != c,
        decreases v.len() - i,
    {
        if v[i] == c {
            proof {
                lemma_first_index_of_at(v@, c, i as int);
            }
            return Some(i);
        }
        i += 1;
    }
    None
}

/// The position of the last `c` in `v`, if any.
pub fn rfind_char(v: &Vec<char>, c: char) -> (r: Option<usize>)
    ensures
        match r {
            Some(i) => i < v@.len() && v@[i as int] == c && i == last_index_of(v@, c),
            None => forall|j: int| 0 <= j < v@.len() ==> v@[j] != c,
        },
{
    let mut i: usize = v.len();
    while i > 0
        invariant
            i <= v@.len(),
            forall|j: int| i <= j < v@.len() ==> v@[j] != c,
        decreases i,
    {
        i -= 1;
        if v[i] == c {
            proof {
                lemma_last_index_of_at(v@, c, i as int);
            }
            return Some(i);
        }
    }
    None
}

/// When `c` does not occur in `s`, `last_index_of` reports `-1`.
pub proof fn lemma_last_index_of_none(s: Seq<char>, c: char)
    requires
        forall|j: int| 0 <= j < s.len() ==> s[j] != c,
    ensures
        last_index_of(s, c) == -1,
    decreases s.len(),
{
    if s.len() > 0 {
        lemma_last_index_of_none(s.take(s.len() - 1), c);
    }
}

/// The characters of `v` from `a` (inclusive) to `b` (exclusive).
pub fn slice_chars(v: &Vec<char>, a: usize, b: usize) -> (r: Vec<char>)
    requires
        a <= b <= v@.len(),
    ensures
        r@ == v@.subrange(a as int, b as int),
{
    let mut r: Vec<char> = Vec::new();
    let mut i: usize = a;
    while i < b
        invariant
            a <= i <= b <= v@.len(),
            r@ =~= v@.subrange(a as int, i as int),
        decreases b - i,
    {
        r.push(v[i]);
        i += 1;
    }
    r
}

/// Whether two string slices hold the same characters.
pub fn str_eq(a: &str, b: &str) -> (r: bool)
    ensures
        r == (a@ == b@),
{
    let n = a.unicode_len();
    let m = b.unicode_len();
    if n != m {
        return false;
    }
    let mut i: usize = 0;
    while i < n
        invariant
            i <= n,
            n == a@.len(),
            n == b@.len(),
            forall|j: int| 0 <= j < i ==> a@[j] == b@[j],
        decreases n - i,
    {
        if a.get_char(i) != b.get_char(i) {
            return false;
        }
        i += 1;
    }
    proof {
        assert(a@ =~= b@);
    }
    true
}

/// What `str::replacen(p, r, 1)` returns: `s` with its leftmost occurrence
/// of `p` (if any) replaced by `r`.
pub open spec fn replace_first_spec(s: Seq<char>, p: Seq<char>, r: Seq<char>) -> Seq<char>
    decreases s.len(),
{
    if p.len() <= s.len() && s.take(p.len() as int) == p {
        r + s.skip(p.len() as int)
    } else if s.len() == 0 {
        s
    } else {
        seq![s[0]] + replace_first_spec(s.skip(1), p, r)
    }
}

proof fn lemma_replace_first_at(s: Seq<char>, p: Seq<char>, r: Seq<char>, k: int)
    requires
        match_at(s, p, k),
        forall|j: int| 0 <= j < k ==> !match_at(s, p, j),
    ensures
        replace_first_spec(s, p, r) == s.take(k) + r + s.skip(k + p.len()),
    decreases k,
{
    if k == 0 {
        assert(s.take(p.len() as int) =~= s.subrange(0, p.len() as int));
        assert(s.take(0) + r + s.skip(p.len() as int) =~= r + s.skip(p.len() as int));
    } else {
        assert(!match_at(s, p, 0));
        assert(s.subrange(0, p.len() as int) =~= s.take(p.len() as int));
        let s1 = s.skip(1);
        assert(s1.subrange(k - 1, k - 1 + p.len()) =~= s.subrange(k, k + p.len()));
        assert(match_at(s1, p, k - 1));
        assert forall|j: int| 0 <= j < k - 1 implies !match_at(s1, p, j) by {
            assert(s1.subrange(j, j + p.len()) =~= s.subrange(j + 1, j + 1 + p.len()));
            assert(!match_at(s, p, j + 1));
        }
        lemma_replace_first_at(s1, p, r, k - 1);
        assert(seq![s[0]] + (s1.take(k - 1) + r + s1.skip(k - 1 + p.len())) =~= s.take(k) + r
            + s.skip(k + p.len()));
    }
}

proof fn lemma_replace_first_none(s: Seq<char>, p: Seq<char>, r: Seq<char>)
    requires
        !has_sub(s, p),
    ensures
        replace_first_spec(s, p, r) == s,
    decreases s.len(),
{
    assert(!match_at(s, p, 0));
    assert(s.subrange(0, p.len() as int) =~= s.take(p.len() as int));
    if s.len() > 0 {
        let s1 = s.skip(1);
        assert forall|j: int| true implies !match_at(s1, p, j) by {
            if 0 <= j && j + p.len() <= s1.len() {
                assert(s1.subrange(j, j + p.len()) =~= s.subrange(j + 1, j + 1 + p.len()));
                assert(!match_at(s, p, j + 1));
            }
        }
        lemma_replace_first_none(s1, p, r);
        assert(seq![s[0]] + s1 =~= s);
    }
}

/// Replace the leftmost occurrence of `p` in `v` by `r`, exactly as
/// `str::replacen(p, r, 1)` does.
pub fn replace_first_chars(v: &Vec<char>, p: &Vec<char>, r: &Vec<char>) -> (out: Vec<char>)
    ensures
        out@ == replace_first_spec(v@, p@, r@),
{
    match find_first_match(v, p) {
        None => {
            proof {
                lemma_replace_first_none(v@, p@, r@);
            }
            let mut out: Vec<char> = Vec::new();
            let mut i: usize = 0;
            while i < v.len()
                invariant
                    i <= v@.len(),
                    out@ =~= v@.take(i as int),
                decreases v.len() - i,
            {
                out.push(v[i]);
                i += 1;
            }
            proof {
                assert(out@ =~= v@);
            }
            out
        },
        Some(k) => {
            proof {
                lemma_replace_first_at(v@, p@, r@, k as int);
            }
            let mut out: Vec<char> = Vec::new();
            let mut i: usize = 0;
            while i < k
                invariant
                    i <= k <= v@.len(),
                    out@ =~= v@.take(i as int),
                decreases k - i,
            {
                out.push(v[i]);
                i += 1;
            }
            let mut j: usize = 0;
            while j < r.len()
                invariant
                    j <= r@.len(),
                    k <= v@.len(),
                    out@ =~= v@.take(k as int) + r@.take(j as int),
                decreases r.len() - j,
    {
                out.push(r[j]);
                j += 1;
            }
            let n = v.len();
            proof {
                assert(k + p@.len() <= n);
            }
            let mut m: usize = k + p.len();
            while m < v.len()
                invariant
                    k + p@.len() <= m <= v@.len(),
                    out@ =~= v@.take(k as int) + r@ + v@.subrange(k + p@.len() as int, m as int),
                decreases v.len() - m,
            {
                out.push(v[m]);
                m += 1;
            }
            proof {
                assert(out@ =~= v@.take(k as int) + r@ + v@.skip(k + p@.len() as int));
            }
            out
        },
    }
}

/// The lines of `s`, split at every `'\n'`; the result always holds at
/// least one (possibly empty) line.
pub open spec fn split_lines_spec(s: Seq<char>) -> Seq<Seq<char>>
    decreases s.len(),
{
    if s.len() == 0 {
        seq![Seq::<char>::empty()]
    } else if s[0] == '\n' {
        seq![Seq::<char>::empty()] + split_lines_spec(s.skip(1))
    } else {
        let rest = split_lines_spec(s.skip(1));
        seq![seq![s[0]] + rest[0]] + rest.skip(1)
    }
}

proof fn lemma_split_lines_nonempty(s: Seq<char>)
    ensures
        split_lines_spec(s).len() >= 1,
    decreases s.len(),
{
    if s.len() > 0 {
        lemma_split_lines_nonempty(s.skip(1));
    }
}

spec fn prepend_first(p: Seq<char>, l: Seq<Seq<char>>) -> Seq<Seq<char>> {
    seq![p + l[0]] + l.skip(1)
}

/// Split `v` at every `'\n'`.
pub fn split_lines_chars(v: &Vec<char>) -> (lines: Vec<Vec<char>>)
    ensures
        lines.deep_view() == split_lines_spec(v@),
{
    let n = v.len();
    let mut done: Vec<Vec<char>> = Vec::new();
    let mut cur: Vec<char> = Vec::new();
    let mut i: usize = 0;
    proof {
        assert(v@.skip(0) =~= v@);
        lemma_split_lines_nonempty(v@);
        assert(prepend_first(Seq::<char>::empty(), split_lines_spec(v@)) =~~= split_lines_spec(
            v@,
        ));
    }
    while i < n
        invariant
            i <= n,
            n == v@.len(),
            split_lines_spec(v@) =~~= done.deep_view() + prepend_first(
                cur@,
                split_lines_spec(v@.skip(i as int)),
            ),
        decreases n - i,
    {
        proof {
            assert(v@.skip(i as int).skip(1) =~= v@.skip(i + 1));
            lemma_split_lines_nonempty(v@.skip(i + 1));
        }
        if v[i] == '\n' {
            let ghost old_done = done.deep_view();
            let ghost old_cur = cur@;
            done.push(cur);
            cur = Vec::new();
            proof {
                assert(done.deep_view() =~~= old_done + seq![old_cur]);
                assert(split_lines_spec(v@.skip(i as int)) == seq![Seq::<char>::empty()]
                    + split_lines_spec(v@.skip(i + 1)));
                assert(old_done + prepend_first(
                    old_cur,
                    split_lines_spec(v@.skip(i as int)),
                ) =~~= done.deep_view() + prepend_first(cur@, split_lines_spec(v@.skip(i + 1))));
            }
        } else {
            let ghost old_cur = cur@;
            cur.push(v[i]);
            proof {
                let rest = split_lines_spec(v@.skip(i + 1));
                assert(split_lines_spec(v@.skip(i as int)) == seq![seq![v@[i as int]] + rest[0]]
                    + rest.skip(1));
                assert(prepend_first(old_cur, split_lines_spec(v@.skip(i as int)))
                    =~~= prepend_first(cur@, rest));
            }
        }
        i += 1;
    }
    proof {
        assert(v@.skip(n as int) =~= Seq::<char>::empty());
        assert(split_lines_spec(v@.skip(n as int)) == seq![Seq::<char>::empty()]);
    }
    let ghost old_done = done.deep_view();
    let ghost old_cur = cur@;
    done.push(cur);
    proof {
        assert(done.deep_view() =~~= old_done + seq![old_cur]);
        assert(old_done + prepend_first(old_cur, seq![Seq::<char>::empty()])
            =~~= old_done + seq![old_cur]);
    }
    done
}

/// What `str::replace("\r\n", "")` returns: `s` with every (non-overlapping,
/// left-to-right) `"\r\n"` pair removed.
pub open spec fn remove_crlf_spec(s: Seq<char>) -> Seq<char>
    decreases s.len(),
{
    if s.len() >= 2 && s[0] == '\r' && s[1] == '\n' {
        remove_crlf_spec(s.skip(2))
    } else if s.len() == 0 {
        s
    } else {
        seq![s[0]] + remove_crlf_spec(s.skip(1))
    }
}

/// What `str::replace("\n", "")` returns: `s` without its `'\n'`
/// characters.
pub open spec fn remove_lf_spec(s: Seq<char>) -> Seq<char>
    decreases s.len(),
{
    if s.len() == 0 {
        s
    } else if s[0] == '\n' {
        remove_lf_spec(s.skip(1))
    } else {
        seq![s[0]] + remove_lf_spec(s.skip(1))
    }
}

/// Remove every `"\r\n"` pair, as `str::replace("\r\n", "")` does.
pub fn remove_crlf_chars(v: &Vec<char>) -> (out: Vec<char>)
    ensures
        out@ == remove_crlf_spec(v@),
{
    let n = v.len();
    let mut out: Vec<char> = Vec::new();
    let mut i: usize = 0;
    proof {
        assert(v@.skip(0) =~= v@);
    }
    while i < n
        invariant
            i <= n,
            n == v@.len(),
            remove_crlf_spec(v@) =~= out@ + remove_crlf_spec(v@.skip(i as int)),
        decreases n - i,
    {
        if v[i] == '\r' && i + 1 < n && v[i + 1] == '\n' {
            proof {
                assert(v@.skip(i as int).skip(2) =~= v@.skip(i + 2));
            }
            i += 2;
        } else {
            proof {
                assert(v@.skip(i as int).skip(1) =~= v@.skip(i + 1));
            }
            out.push(v[i]);
            i += 1;
        }
    }
    proof {
        assert(v@.skip(n as int) =~= Seq::<char>::empty());
        assert(out@ =~= remove_crlf_spec(v@));
    }
    out
}

/// Remove every `'\n'`, as `str::replace("\n", "")` does.
pub fn remove_lf_chars(v: &Vec<char>) -> (out: Vec<char>)
    ensures
        out@ == remove_lf_spec(v@),
{
    let n = v.len();
    let mut out: Vec<char> = Vec::new();
    let mut i: usize = 0;
    proof {
        assert(v@.skip(0) =~= v@);
    }
    while i < n
        invariant
            i <= n,
            n == v@.len(),
            remove_lf_spec(v@) =~= out@ + remove_lf_spec(v@.skip(i as int)),
        decreases n - i,
    {
        proof {
            assert(v@.skip(i as int).skip(1) =~= v@.skip(i + 1));
        }
        if v[i] != '\n' {
            out.push(v[i]);
        }
        i += 1;
    }
    proof {
        assert(v@.skip(n as int) =~= Seq::<char>::empty());
        assert(out@ =~= remove_lf_spec(v@));
    }
    out
}

/// How often `c` occurs in `s`.
pub open spec fn count_char(s: Seq<char>, c: char) -> nat
    decreases s.len(),
{
    if s.len() == 0 {
        0
    } else {
        (if s[0] == c {
            1nat
        } else {
            0nat
        }) + count_char(s.skip(1), c)
    }
}

/// Occurrence counts add over concatenation.
pub proof fn lemma_count_char_concat(a: Seq<char>, b: Seq<char>, c: char)
    ensures
        count_char(a + b, c) == count_char(a, c) + count_char(b, c),
    decreases a.len(),
{
    if a.len() == 0 {
        assert(a + b =~= b);
    } else {
        assert((a + b).skip(1) =~= a.skip(1) + b);
        lemma_count_char_concat(a.skip(1), b, c);
    }
}

/// The parts joined by single spaces: `p0 p1 ... pn`.
pub open spec fn join_spaced(parts: Seq<Seq<char>>) -> Seq<char> {
    if parts.len() == 0 {
        Seq::empty()
    } else {
        parts[0] + join_tail(parts.skip(1))
    }
}

pub open spec fn join_tail(parts: Seq<Seq<char>>) -> Seq<char>
    decreases parts.len(),
{
    if parts.len() == 0 {
        Seq::empty()
    } else {
        seq![' '] + parts[0] + join_tail(parts.skip(1))
    }
}

/// Join the parts with single spaces, as `[String]::join(" ")` does.
pub fn join_spaced_chars(parts: &Vec<Vec<char>>) -> (out: Vec<char>)
    ensures
        out@ == join_spaced(parts.deep_view()),
{
    let n = parts.len();
    let mut out: Vec<char> = Vec::new();
    let mut i: usize = 0;
    proof {
        assert(parts.deep_view().skip(0) =~~= parts.deep_view());
    }
    while i < n
        invariant
            i <= n,
            n == parts.deep_view().len(),
            parts.deep_view().len() == parts@.len(),
            i == 0 ==> out@.len() == 0,
            join_spaced(parts.deep_view()) =~= out@ + (if i == 0 {
                join_spaced(parts.deep_view().skip(i as int))
            } else {
                join_tail(parts.deep_view().skip(i as int))
            }),
        decreases n - i,
    {
        proof {
            assert(parts.deep_view().skip(i as int).skip(1) =~~= parts.deep_view().skip(i + 1));
            assert(parts.deep_view()[i as int] == parts@[i as int]@);
        }
        if i > 0 {
            out.push(' ');
        }
        let mut j: usize = 0;
        let ghost out_before = out@;
        let part = &parts[i];
        while j < part.len()
            invariant
                j <= part@.len(),
                out@ =~= out_before + part@.take(j as int),
            decreases part.len() - j,
        {
            out.push(part[j]);
            j += 1;
        }
        proof {
            assert(out@ =~= out_before + parts.deep_view()[i as int]);
        }
        i += 1;
    }
    proof {
        assert(parts.deep_view().skip(n as int) =~~= Seq::<Seq<char>>::empty());
        assert(out@ =~= join_spaced(parts.deep_view()));
    }
    out
}

} // verus!
