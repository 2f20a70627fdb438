//! Records kept in a vector sorted strictly by their text key, seen as a map
//! from key to record.

use vstd::prelude::*;

use crate::text::{chars_eq, chars_lt, seq_lt};

verus! {

/// A record identified by a text key.
pub trait Keyed {
    spec fn key(&self) -> Seq<char>;

    fn key_chars(&self) -> (r: Vec<char>)
        ensures
            r@ == self.key(),
    ;
}

/// Keys strictly increase along `s`.
pub open spec fn sorted_keys<T: Keyed>(s: Seq<T>) -> bool {
    forall|i: int, j: int| 0 <= i < j < s.len() ==> seq_lt(#[trigger] s[i].key(), #[trigger] s[j].key())
}

pub open spec fn has_key<T: Keyed>(s: Seq<T>, k: Seq<char>) -> bool {
    exists|i: int| 0 <= i < s.len() && (#[trigger] s[i].key()) == k
}

pub open spec fn key_index<T: Keyed>(s: Seq<T>, k: Seq<char>) -> int {
    choose|i: int| 0 <= i < s.len() && (#[trigger] s[i].key()) == k
}

/// The records of `s` by key.
pub open spec fn key_map<T: Keyed>(s: Seq<T>) -> Map<Seq<char>, T> {
    Map::new(|k: Seq<char>| has_key(s, k), |k: Seq<char>| s[key_index(s, k)])
}

// ---------------------------------------------------------------------------
// Lexicographic order
pub proof fn lemma_lt_irreflexive(a: Seq<char>)
    ensures
        !seq_lt(a, a),
{
}

pub proof fn lemma_lt_ne(a: Seq<char>, b: Seq<char>)
    requires
        seq_lt(a, b),
    ensures
        a != b,
{
    lemma_lt_irreflexive(a);
}

pub proof fn lemma_lt_transitive(a: Seq<char>, b: Seq<char>, c: Seq<char>)
    requires
        seq_lt(a, b),
        seq_lt(b, c),
    ensures
        seq_lt(a, c),
{
    let k1 = choose|k: int|
        0 <= k <= a.len() && k <= b.len() && a.subrange(0, k) == b.subrange(0, k) && ((k
            == a.len() && k < b.len()) || (k < a.len() && k < b.len() && (a[k] as int) < (
        b[k] as int)));
    let k2 = choose|k: int|
        0 <= k <= b.len() && k <= c.len() && b.subrange(0, k) == c.subrange(0, k) && ((k
            == b.len() && k < c.len()) || (k < b.len() && k < c.len() && (b[k] as int) < (
        c[k] as int)));
    let k = if k1 < k2 {
        k1
    } else {
        k2
    };
    assert(a.subrange(0, k) =~= c.subrange(0, k)) by {
        assert forall|j: int| 0 <= j < k implies a.subrange(0, k)[j] == c.subrange(0, k)[j] by {
            assert(a.subrange(0, k1)[j] == b.subrange(0, k1)[j]);
            assert(b.subrange(0, k2)[j] == c.subrange(0, k2)[j]);
        }
    }
    if k1 < k2 {
        if k1 < a.len() {
            assert(b.subrange(0, k2)[k1] == c.subrange(0, k2)[k1]);
        }
    } else if k2 < k1 {
        assert(a.subrange(0, k1)[k2] == b.subrange(0, k1)[k2]);
    } else {
    }
}

pub proof fn lemma_lt_total(a: Seq<char>, b: Seq<char>)
    requires
        a != b,
    ensures
        seq_lt(a, b) || seq_lt(b, a),
{
    let n = if a.len() < b.len() {
        a.len() as int
    } else {
        b.len() as int
    };
    if forall|j: int| 0 <= j < n ==> a[j] == b[j] {
        assert(a.subrange(0, n) =~= b.subrange(0, n));
        if a.len() == b.len() {
            assert(a =~= b);
        }
    } else {
        let j = choose|j: int| 0 <= j < n && a[j] != b[j];
        lemma_first_difference(a, b, j);
        let k = first_difference(a, b, j);
        assert(a.subrange(0, k) =~= b.subrange(0, k));
        assert(a[k] as int != b[k] as int);
    }
}

spec fn first_difference(a: Seq<char>, b: Seq<char>, j: int) -> int
    decreases j,
{
    if j <= 0 {
        0
    } else if exists|i: int| 0 <= i < j && a[i] != b[i] {
        first_difference(a, b, j - 1)
    } else {
        j
    }
}

proof fn lemma_first_difference(a: Seq<char>, b: Seq<char>, j: int)
    requires
        0 <= j < a.len(),
        j < b.len(),
        a[j] != b[j],
    ensures
        0 <= first_difference(a, b, j) <= j,
        a[first_difference(a, b, j)] != b[first_difference(a, b, j)],
        forall|i: int| 0 <= i < first_difference(a, b, j) ==> a[i] == b[i],
    decreases j,
{
    if j > 0 && exists|i: int| 0 <= i < j && a[i] != b[i] {
        let i = choose|i: int| 0 <= i < j && a[i] != b[i];
        lemma_first_difference_below(a, b, j - 1, i);
    }
}

proof fn lemma_first_difference_below(a: Seq<char>, b: Seq<char>, j: int, i: int)
    requires
        0 <= i <= j < a.len(),
        j < b.len(),
        a[i] != b[i],
    ensures
        0 <= first_difference(a, b, j) <= j,
        a[first_difference(a, b, j)] != b[first_difference(a, b, j)],
        forall|q: int| 0 <= q < first_difference(a, b, j) ==> a[q] == b[q],
    decreases j,
{
    if j > 0 && exists|q: int| 0 <= q < j && a[q] != b[q] {
        let q = choose|q: int| 0 <= q < j && a[q] != b[q];
        lemma_first_difference_below(a, b, j - 1, q);
    } else if j > 0 {
        assert(i == j);
    } else {
    }
}

// ---------------------------------------------------------------------------
// Sorted vectors as maps
pub proof fn lemma_sorted_index<T: Keyed>(s: Seq<T>, i: int)
    requires
        sorted_keys(s),
        0 <= i < s.len(),
    ensures
        has_key(s, s[i].key()),
        key_index(s, s[i].key()) == i,
        key_map(s).contains_key(s[i].key()),
        key_map(s)[s[i].key()] == s[i],
{
    assert(has_key(s, s[i].key()));
    let j = key_index(s, s[i].key());
    if j < i {
        lemma_lt_ne(s[j].key(), s[i].key());
    } else if i < j {
        lemma_lt_ne(s[i].key(), s[j].key());
    }
}

pub proof fn lemma_update_keyed<T: Keyed>(s: Seq<T>, i: int, x: T)
    requires
        sorted_keys(s),
        0 <= i < s.len(),
        x.key() == s[i].key(),
    ensures
        sorted_keys(s.update(i, x)),
        key_map(s.update(i, x)) == key_map(s).insert(x.key(), x),
{
    let t = s.update(i, x);
    assert forall|a: int, b: int| 0 <= a < b < t.len() implies seq_lt(
        #[trigger] t[a].key(),
        #[trigger] t[b].key(),
    ) by {
        assert(seq_lt(s[a].key(), s[b].key()));
    }
    assert forall|k: Seq<char>| has_key(t, k) == (k == x.key() || has_key(s, k)) by {
        if has_key(s, k) {
            let j = choose|j: int| 0 <= j < s.len() && (#[trigger] s[j].key()) == k;
            assert(t[j].key() == k);
        }
        if has_key(t, k) {
            let j = choose|j: int| 0 <= j < t.len() && (#[trigger] t[j].key()) == k;
            assert(s[j].key() == k);
        }
        if k == x.key() {
            assert(t[i].key() == k);
        }
    }
    assert forall|k: Seq<char>| #[trigger] key_map(t).contains_key(k) implies key_map(t)[k]
        == key_map(s).insert(x.key(), x)[k] by {
        let j = choose|j: int| 0 <= j < t.len() && (#[trigger] t[j].key()) == k;
        lemma_sorted_index(t, j);
        if j != i {
            assert(s[j] == t[j]);
            lemma_sorted_index(s, j);
        }
    }
    assert(key_map(t) =~= key_map(s).insert(x.key(), x));
}

pub proof fn lemma_insert_keyed<T: Keyed>(s: Seq<T>, p: int, x: T)
    requires
        sorted_keys(s),
        0 <= p <= s.len(),
        forall|j: int| 0 <= j < p ==> seq_lt(#[trigger] s[j].key(), x.key()),
        forall|j: int| p <= j < s.len() ==> seq_lt(x.key(), #[trigger] s[j].key()),
    ensures
        sorted_keys(s.insert(p, x)),
        key_map(s.insert(p, x)) == key_map(s).insert(x.key(), x),
{
    let t = s.insert(p, x);
    assert forall|a: int, b: int| 0 <= a < b < t.len() implies seq_lt(
        #[trigger] t[a].key(),
        #[trigger] t[b].key(),
    ) by {
        if b < p {
            assert(seq_lt(s[a].key(), s[b].key()));
        } else if b == p {
        } else if a < p {
            assert(seq_lt(s[a].key(), x.key()));
            assert(seq_lt(x.key(), s[b - 1].key()));
            lemma_lt_transitive(s[a].key(), x.key(), s[b - 1].key());
        } else if a == p {
        } else {
            assert(seq_lt(s[a - 1].key(), s[b - 1].key()));
        }
    }
    assert forall|k: Seq<char>| has_key(t, k) == (k == x.key() || has_key(s, k)) by {
        if has_key(s, k) {
            let j = choose|j: int| 0 <= j < s.len() && (#[trigger] s[j].key()) == k;
            if j < p {
                assert(t[j].key() == k);
            } else {
                assert(t[j + 1].key() == k);
            }
        }
        if has_key(t, k) {
            let j = choose|j: int| 0 <= j < t.len() && (#[trigger] t[j].key()) == k;
            if j < p {
                assert(s[j].key() == k);
            } else if j > p {
                assert(s[j - 1].key() == k);
            }
        }
        if k == x.key() {
            assert(t[p].key() == k);
        }
    }
    assert forall|k: Seq<char>| #[trigger] key_map(t).contains_key(k) implies key_map(t)[k]
        == key_map(s).insert(x.key(), x)[k] by {
        let j = choose|j: int| 0 <= j < t.len() && (#[trigger] t[j].key()) == k;
        lemma_sorted_index(t, j);
        if j < p {
            lemma_sorted_index(s, j);
            lemma_lt_ne(s[j].key(), x.key());
        } else if j > p {
            lemma_sorted_index(s, j - 1);
            lemma_lt_ne(x.key(), s[j - 1].key());
        }
    }
    assert(key_map(t) =~= key_map(s).insert(x.key(), x));
}

pub proof fn lemma_remove_keyed<T: Keyed>(s: Seq<T>, i: int)
    requires
        sorted_keys(s),
        0 <= i < s.len(),
    ensures
        sorted_keys(s.remove(i)),
        key_map(s.remove(i)) == key_map(s).remove(s[i].key()),
{
    let t = s.remove(i);
    let k0 = s[i].key();
    assert forall|a: int, b: int| 0 <= a < b < t.len() implies seq_lt(
        #[trigger] t[a].key(),
        #[trigger] t[b].key(),
    ) by {
        let a2 = if a < i {
            a
        } else {
            a + 1
        };
        let b2 = if b < i {
            b
        } else {
            b + 1
        };
        assert(seq_lt(s[a2].key(), s[b2].key()));
    }
    assert forall|k: Seq<char>| has_key(t, k) == (k != k0 && has_key(s, k)) by {
        if has_key(s, k) && k != k0 {
            let j = choose|j: int| 0 <= j < s.len() && (#[trigger] s[j].key()) == k;
            if j < i {
                assert(t[j].key() == k);
            } else {
                assert(t[j - 1].key() == k);
            }
        }
        if has_key(t, k) {
            let j = choose|j: int| 0 <= j < t.len() && (#[trigger] t[j].key()) == k;
            let j2 = if j < i {
                j
            } else {
                j + 1
            };
            assert(s[j2].key() == k);
            if j2 < i {
                lemma_lt_ne(s[j2].key(), k0);
            } else {
                lemma_lt_ne(k0, s[j2].key());
            }
        }
    }
    assert forall|k: Seq<char>| #[trigger] key_map(t).contains_key(k) implies key_map(t)[k]
        == key_map(s)[k] by {
        let j = choose|j: int| 0 <= j < t.len() && (#[trigger] t[j].key()) == k;
        lemma_sorted_index(t, j);
        if j < i {
            lemma_sorted_index(s, j);
        } else {
            lemma_sorted_index(s, j + 1);
        }
    }
    assert(key_map(t) =~= key_map(s).remove(k0));
}

// ---------------------------------------------------------------------------
// Executable operations
/// Index of the record with key `k`.
pub fn find_key<T: Keyed>(v: &Vec<T>, k: &[char]) -> (r: Option<usize>)
    requires
        sorted_keys(v@),
    ensures
        match r {
            Some(i) => i < v@.len() && v@[i as int].key() == k@ && key_map(v@).contains_key(k@)
                && key_map(v@)[k@] == v@[i as int],
            None => !key_map(v@).contains_key(k@),
        },
{
    let n = v.len();
    for i in 0..n
        invariant
            n == v@.len(),
            sorted_keys(v@),
            forall|j: int| 0 <= j < i ==> (#[trigger] v@[j].key()) != k@,
    {
        let kc = v[i].key_chars();
        if chars_eq(&kc, k) {
            proof {
                lemma_sorted_index(v@, i as int);
            }
            return Some(i);
        }
    }
    None
}

/// Stores `x` under its key, replacing the record with the same key.
pub fn insert_keyed<T: Keyed>(v: &mut Vec<T>, x: T)
    requires
        sorted_keys(old(v)@),
    ensures
        sorted_keys(final(v)@),
        key_map(final(v)@) == key_map(old(v)@).insert(x.key(), x),
{
    let xk = x.key_chars();
    let n = v.len();
    let mut p: usize = 0;
    while p < n
        invariant
            n == v@.len(),
            p <= n,
            xk@ == x.key(),
            sorted_keys(v@),
            v@ == old(v)@,
            forall|j: int| 0 <= j < p ==> seq_lt(#[trigger] v@[j].key(), x.key()),
        ensures
            p <= n,
            p < n ==> !seq_lt(v@[p as int].key(), x.key()),
        decreases n - p,
    {
        let kc = v[p].key_chars();
        if !chars_lt(&kc, &xk) {
            break;
        }
        p = p + 1;
    }
    if p < n {
        let kc = v[p].key_chars();
        if chars_eq(&kc, &xk) {
            proof {
                lemma_update_keyed(v@, p as int, x);
            }
            v.set(p, x);
            return;
        }
        proof {
            lemma_lt_total(v@[p as int].key(), x.key());
            assert forall|j: int| p <= j < v@.len() implies seq_lt(x.key(), #[trigger] v@[j].key()) by {
                if j > p {
                    lemma_lt_transitive(x.key(), v@[p as int].key(), v@[j].key());
                }
            }
        }
    }
    proof {
        lemma_insert_keyed(v@, p as int, x);
    }
    v.insert(p, x);
}

} // verus!
