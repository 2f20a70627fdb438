//! Character-level text operations over `Seq<char>`: trimming, case folding,
//! prefix stripping and comparison, each with its mathematical definition.

use vstd::prelude::*;

verus! {

/// Unicode `White_Space`, the set that `char::is_whitespace` and `str::trim` use.
pub open spec fn is_white(c: char) -> bool {
    ||| ('\u{9}' <= c && c <= '\u{d}')
    ||| c == ' '
    ||| c == '\u{85}'
    ||| c == '\u{a0}'
    ||| c == '\u{1680}'
    ||| ('\u{2000}' <= c && c <= '\u{200a}')
    ||| c == '\u{2028}'
    ||| c == '\u{2029}'
    ||| c == '\u{202f}'
    ||| c == '\u{205f}'
    ||| c == '\u{3000}'
}

pub open spec fn is_digit(c: char) -> bool {
    '0' <= c && c <= '9'
}

pub open spec fn all_digits(s: Seq<char>) -> bool {
    forall|i: int| 0 <= i < s.len() ==> is_digit(#[trigger] s[i])
}

pub open spec fn lower(c: char) -> char {
    if 'A' <= c && c <= 'Z' {
        ((c as u32) + 32) as char
    } else {
        c
    }
}

pub open spec fn lower_all(s: Seq<char>) -> Seq<char> {
    s.map_values(|c: char| lower(c))
}

/// `s` with its leading white space removed.
pub open spec fn trim_start(s: Seq<char>) -> Seq<char>
    decreases s.len(),
{
    if s.len() > 0 && is_white(s[0]) {
        trim_start(s.drop_first())
    } else {
        s
    }
}

/// `s` with its trailing white space removed.
pub open spec fn trim_end(s: Seq<char>) -> Seq<char>
    decreases s.len(),
{
    if s.len() > 0 && is_white(s.last()) {
        trim_end(s.drop_last())
    } else {
        s
    }
}

/// What `str::trim` leaves of `s`.
pub open spec fn trim(s: Seq<char>) -> Seq<char> {
    trim_end(trim_start(s))
}

/// `s` with every leading copy of `pat` removed, as `str::trim_start_matches` does.
pub open spec fn strip_all_prefix(s: Seq<char>, pat: Seq<char>) -> Seq<char>
    decreases s.len(),
{
    if pat.len() > 0 && pat.len() <= s.len() && s.subrange(0, pat.len() as int) == pat {
        strip_all_prefix(s.subrange(pat.len() as int, s.len() as int), pat)
    } else {
        s
    }
}

/// Whether `pat` occurs in `s` at index `i`.
pub open spec fn occurs_at(s: Seq<char>, pat: Seq<char>, i: int) -> bool {
    0 <= i && i + pat.len() <= s.len() && s.subrange(i, i + pat.len()) == pat
}

pub open spec fn contains_text(s: Seq<char>, pat: Seq<char>) -> bool {
    exists|i: int| occurs_at(s, pat, i)
}

/// Lexicographic order on character sequences, by code point.
pub open spec fn seq_lt(a: Seq<char>, b: Seq<char>) -> bool {
    exists|k: int|
        0 <= k <= a.len() && k <= b.len() && a.subrange(0, k) == b.subrange(0, k) && (
        (k == a.len() && k < b.len()) || (k < a.len() && k < b.len() && (a[k] as int) < (
        b[k] as int)))
}

pub fn is_whitespace_char(c: char) -> (r: bool)
    ensures
        r == is_white(c),
{
    ('\u{9}' <= c && c <= '\u{d}') || c == ' ' || c == '\u{85}' || c == '\u{a0}' || c
        == '\u{1680}' || ('\u{2000}' <= c && c <= '\u{200a}') || c == '\u{2028}' || c
        == '\u{2029}' || c == '\u{202f}' || c == '\u{205f}' || c == '\u{3000}'
}

pub fn is_ascii_digit(c: char) -> (r: bool)
    ensures
        r == is_digit(c),
{
    '0' <= c && c <= '9'
}

pub fn lower_char(c: char) -> (r: char)
    ensures
        r == lower(c),
{
    if 'A' <= c && c <= 'Z' {
        let b: u8 = c as u8;
        assert(b as u32 == c as u32);
        ((b + 32) as char)
    } else {
        c
    }
}

/// The characters of `s`.
pub fn chars_of(s: &str) -> (r: Vec<char>)
    ensures
        r@ == s@,
{
    let mut r: Vec<char> = Vec::new();
    for c in it: s.chars()
        invariant
            r@ == it.seq().subrange(0, it.index() as int),
            it.seq() == s@,
    {
        r.push(c);
    }
    r
}

/// `String::push`: appends the character `c` to `s`, as std documents it.
#[verifier::external_body]
pub(crate) fn push_char(s: &mut String, c: char)
    ensures
        final(s)@ == old(s)@.push(c),
{
    s.push(c);
}

/// The string made of the characters `v`.
pub fn string_of(v: &[char]) -> (r: String)
    ensures
        r@ == v@,
{
    let mut r = String::new();
    let n = v.len();
    for i in 0..n
        invariant
            n == v@.len(),
            r@ == v@.subrange(0, i as int),
    {
        push_char(&mut r, v[i]);
        assert(v@.subrange(0, i + 1) == v@.subrange(0, i as int).push(v@[i as int]));
    }
    assert(v@.subrange(0, n as int) == v@);
    r
}

/// The characters of `v` from `lo` up to `hi`.
pub fn slice_chars(v: &[char], lo: usize, hi: usize) -> (r: Vec<char>)
    requires
        lo <= hi <= v@.len(),
    ensures
        r@ == v@.subrange(lo as int, hi as int),
{
    let mut r: Vec<char> = Vec::new();
    let mut i = lo;
    while i < hi
        invariant
            lo <= i <= hi <= v@.len(),
            r@ == v@.subrange(lo as int, i as int),
        decreases hi - i,
    {
        r.push(v[i]);
        assert(v@.subrange(lo as int, i + 1) == v@.subrange(lo as int, i as int).push(
            v@[i as int],
        ));
        i = i + 1;
    }
    r
}

proof fn lemma_trim_start_skip(s: Seq<char>, i: int)
    requires
        0 <= i <= s.len(),
        forall|j: int| 0 <= j < i ==> is_white(#[trigger] s[j]),
    ensures
        trim_start(s) == trim_start(s.subrange(i, s.len() as int)),
    decreases i,
{
    if i > 0 {
        assert(is_white(s[0]));
        let t = s.drop_first();
        assert forall|j: int| 0 <= j < i - 1 implies is_white(#[trigger] t[j]) by {
            assert(t[j] == s[j + 1]);
        }
        lemma_trim_start_skip(t, i - 1);
        assert(t.subrange(i - 1, t.len() as int) == s.subrange(i, s.len() as int));
    } else {
        assert(s.subrange(0, s.len() as int) == s);
    }
}

proof fn lemma_trim_end_cut(s: Seq<char>, k: int)
    requires
        0 <= k <= s.len(),
        forall|j: int| k <= j < s.len() ==> is_white(#[trigger] s[j]),
    ensures
        trim_end(s) == trim_end(s.subrange(0, k)),
    decreases s.len() - k,
{
    if k < s.len() {
        assert(is_white(s.last()));
        let t = s.drop_last();
        lemma_trim_end_cut(t, k);
        assert(t.subrange(0, k) == s.subrange(0, k));
    } else {
        assert(s.subrange(0, k) == s);
    }
}

/// Removes leading and trailing white space (`str::trim`).
pub fn trim_chars(v: &[char]) -> (r: Vec<char>)
    ensures
        r@ == trim(v@),
{
    let n = v.len();
    let mut lo: usize = 0;
    while lo < n && is_whitespace_char(v[lo])
        invariant
            n == v@.len(),
            0 <= lo <= n,
            forall|j: int| 0 <= j < lo ==> is_white(#[trigger] v@[j]),
        decreases n - lo,
    {
        lo = lo + 1;
    }
    proof {
        lemma_trim_start_skip(v@, lo as int);
    }
    let ghost rest = v@.subrange(lo as int, n as int);
    assert(trim_start(rest) == rest);
    let mut hi: usize = n;
    while hi > lo && is_whitespace_char(v[hi - 1])
        invariant
            n == v@.len(),
            lo <= hi <= n,
            rest == v@.subrange(lo as int, n as int),
            forall|j: int| hi <= j < n ==> is_white(#[trigger] v@[j]),
        decreases hi - lo,
    {
        hi = hi - 1;
    }
    proof {
        assert forall|j: int| (hi - lo) <= j < rest.len() implies is_white(#[trigger] rest[j]) by {
            assert(rest[j] == v@[j + lo]);
        }
        lemma_trim_end_cut(rest, hi - lo);
        assert(rest.subrange(0, hi - lo) == v@.subrange(lo as int, hi as int));
        let cut = v@.subrange(lo as int, hi as int);
        if cut.len() > 0 {
            assert(cut.last() == v@[hi - 1]);
        }
    }
    slice_chars(v, lo, hi)
}

/// ASCII lower-casing of every character (`str::to_ascii_lowercase`).
pub fn lower_chars(v: &[char]) -> (r: Vec<char>)
    ensures
        r@ == lower_all(v@),
{
    let mut r: Vec<char> = Vec::new();
    let n = v.len();
    for i in 0..n
        invariant
            n == v@.len(),
            r@ == lower_all(v@.subrange(0, i as int)),
    {
        r.push(lower_char(v[i]));
        assert(lower_all(v@.subrange(0, i + 1)) == lower_all(v@.subrange(0, i as int)).push(
            lower(v@[i as int]),
        ));
    }
    assert(v@.subrange(0, n as int) == v@);
    r
}

/// Whether the two character sequences are equal.
pub fn chars_eq(a: &[char], b: &[char]) -> (r: bool)
    ensures
        r == (a@ == b@),
{
    if a.len() != b.len() {
        return false;
    }
    let n = a.len();
    for i in 0..n
        invariant
            n == a@.len() == b@.len(),
            forall|j: int| 0 <= j < i ==> a@[j] == b@[j],
    {
        if a[i] != b[i] {
            return false;
        }
    }
    assert(a@ =~= b@);
    true
}

/// Whether `v` starts with `pat` at index `at`.
pub fn occurs_at_exec(v: &[char], pat: &[char], at: usize) -> (r: bool)
    ensures
        r == occurs_at(v@, pat@, at as int),
{
    if at > v.len() || pat.len() > v.len() - at {
        return false;
    }
    let n = pat.len();
    let mut i: usize = 0;
    while i < n
        invariant
            n == pat@.len(),
            at + n <= v.len(),
            i <= n,
            forall|j: int| 0 <= j < i ==> v@[at + j] == pat@[j],
        decreases n - i,
    {
        if v[at + i] != pat[i] {
            assert(v@.subrange(at as int, at + n)[i as int] != pat@[i as int]);
            return false;
        }
        i = i + 1;
    }
    assert(v@.subrange(at as int, at + n) =~= pat@);
    true
}

/// Removes every leading copy of `pat` (`str::trim_start_matches`).
pub fn strip_all_prefix_chars(v: &[char], pat: &[char]) -> (r: Vec<char>)
    ensures
        r@ == strip_all_prefix(v@, pat@),
{
    let n = v.len();
    let m = pat.len();
    let mut at: usize = 0;
    if m == 0 {
        return slice_chars(v, 0, n);
    }
    assert(v@.subrange(0, n as int) == v@);
    while occurs_at_exec(v, pat, at)
        invariant
            n == v@.len(),
            m == pat@.len() > 0,
            at <= n,
            strip_all_prefix(v@, pat@) == strip_all_prefix(v@.subrange(at as int, n as int), pat@),
        decreases n - at,
    {
        let ghost s = v@.subrange(at as int, n as int);
        assert(s.subrange(0, m as int) == v@.subrange(at as int, at + m));
        assert(s.subrange(m as int, s.len() as int) == v@.subrange(at + m, n as int));
        at = at + m;
    }
    proof {
        let s = v@.subrange(at as int, n as int);
        if m <= s.len() && s.subrange(0, m as int) == pat@ {
            assert(s.subrange(0, m as int) == v@.subrange(at as int, at + m));
        }
    }
    slice_chars(v, at, n)
}

/// Whether `pat` occurs anywhere in `v` (`str::contains`).
pub fn contains_chars(v: &[char], pat: &[char]) -> (r: bool)
    ensures
        r == contains_text(v@, pat@),
{
    if pat.len() > v.len() {
        assert forall|i: int| !occurs_at(v@, pat@, i) by {}
        return false;
    }
    if pat.len() == 0 {
        assert(v@.subrange(0, 0) =~= pat@);
        assert(occurs_at(v@, pat@, 0));
        return true;
    }
    let last = v.len() - pat.len();
    let mut i: usize = 0;
    while i <= last
        invariant
            last + pat@.len() == v@.len(),
            last < v.len(),
            forall|j: int| 0 <= j < i ==> !occurs_at(v@, pat@, j),
        decreases last + 1 - i,
    {
        if occurs_at_exec(v, pat, i) {
            return true;
        }
        i = i + 1;
    }
    assert forall|j: int| !occurs_at(v@, pat@, j) by {
        if 0 <= j < i {
        } else if j >= i {
            assert(j + pat@.len() > v@.len());
        }
    }
    false
}

/// Whether `a` comes strictly before `b` in code-point order.
pub fn chars_lt(a: &[char], b: &[char]) -> (r: bool)
    ensures
        r == seq_lt(a@, b@),
{
    let n = if a.len() < b.len() {
        a.len()
    } else {
        b.len()
    };
    let mut k: usize = 0;
    while k < n
        invariant
            n <= a@.len(),
            n <= b@.len(),
            n == a@.len() || n == b@.len(),
            k <= n,
            a@.subrange(0, k as int) == b@.subrange(0, k as int),
        decreases n - k,
    {
        if a[k] != b[k] {
            let ca = a[k];
            let cb = b[k];
            let r = ca < cb;
            assert(r == ((a@[k as int] as int) < (b@[k as int] as int)));
            proof {
                if !r {
                    assert forall|j: int|
                        0 <= j <= a@.len() && j <= b@.len() && a@.subrange(0, j) == b@.subrange(
                            0,
                            j,
                        ) implies !((j == a@.len() && j < b@.len()) || (j < a@.len() && j
                        < b@.len() && (a@[j] as int) < (b@[j] as int))) by {
                        if j > k {
                            assert(a@.subrange(0, j)[k as int] == b@.subrange(0, j)[k as int]);
                        } else if j < k {
                            assert(a@.subrange(0, k as int)[j] == b@.subrange(0, k as int)[j]);
                        }
                    }
                }
            }
            return r;
        }
        assert(a@.subrange(0, k + 1) =~= b@.subrange(0, k + 1)) by {
            assert forall|j: int| 0 <= j < k + 1 implies #[trigger] a@.subrange(0, k + 1)[j]
                == b@.subrange(0, k + 1)[j] by {
                if j < k {
                    assert(a@.subrange(0, k as int)[j] == b@.subrange(0, k as int)[j]);
                }
            }
        }
        k = k + 1;
    }
    let r = n == a.len() && n < b.len();
    proof {
        if !r {
            assert forall|j: int|
                0 <= j <= a@.len() && j <= b@.len() && a@.subrange(0, j) == b@.subrange(0, j)
                    implies !((j == a@.len() && j < b@.len()) || (j < a@.len() && j < b@.len()
                && (a@[j] as int) < (b@[j] as int))) by {
                if j < n {
                    assert(a@.subrange(0, n as int)[j] == b@.subrange(0, n as int)[j]);
                }
            }
        }
    }
    r
}

/// Whether `s` is exactly `lit`.
pub fn text_is(s: &str, lit: &str) -> (r: bool)
    ensures
        r == (s@ == lit@),
{
    let a = chars_of(s);
    let b = chars_of(lit);
    chars_eq(&a, &b)
}

/// `a` followed by `b`.
pub fn concat(a: &str, b: &str) -> (r: String)
    ensures
        r@ == a@ + b@,
{
    let mut s = a.to_owned();
    s.append(b);
    s
}

/// An owned copy of `s`.
pub fn owned(s: &str) -> (r: String)
    ensures
        r@ == s@,
{
    s.to_owned()
}

/// Bytes that UTF-8 uses for `c`.
pub open spec fn utf8_width(c: char) -> nat {
    if '\u{80}' > c {
        1
    } else if '\u{800}' > c {
        2
    } else if '\u{10000}' > c {
        3
    } else {
        4
    }
}

/// Length of `s` in UTF-8 bytes, as `str::len` counts.
pub open spec fn utf8_len(s: Seq<char>) -> nat
    decreases s.len(),
{
    if s.len() == 0 {
        0
    } else {
        utf8_len(s.drop_last()) + utf8_width(s.last())
    }
}

fn utf8_width_exec(c: char) -> (w: usize)
    ensures
        w == utf8_width(c),
{
    if '\u{80}' > c {
        1
    } else if '\u{800}' > c {
        2
    } else if '\u{10000}' > c {
        3
    } else {
        4
    }
}

/// Whether the UTF-8 encoding of `v` is longer than `limit` bytes.
pub fn longer_than_bytes(v: &[char], limit: usize) -> (r: bool)
    ensures
        r == (utf8_len(v@) > limit),
{
    let n = v.len();
    let mut total: usize = 0;
    let mut i: usize = 0;
    while i < n
        invariant
            n == v@.len(),
            i <= n,
            total == utf8_len(v@.subrange(0, i as int)),
            total <= limit,
        decreases n - i,
    {
        let w = utf8_width_exec(v[i]);
        assert(v@.subrange(0, i + 1).drop_last() == v@.subrange(0, i as int));
        if w > limit - total {
            proof {
                lemma_utf8_len_prefix(v@, i + 1);
            }
            return true;
        }
        total = total + w;
        i = i + 1;
    }
    assert(v@.subrange(0, n as int) == v@);
    false
}

proof fn lemma_utf8_len_prefix(s: Seq<char>, k: int)
    requires
        0 <= k <= s.len(),
    ensures
        utf8_len(s.subrange(0, k)) <= utf8_len(s),
    decreases s.len(),
{
    if k < s.len() {
        lemma_utf8_len_prefix(s.drop_last(), k);
        assert(s.drop_last().subrange(0, k) == s.subrange(0, k));
    } else {
        assert(s.subrange(0, k) == s);
    }
}

} // verus!
