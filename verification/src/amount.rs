//! Decimal amounts with at most eight fractional digits, held as integers in
//! units of 10^-8 (shannon for CKB), and the text forms they are read from
//! and written to.

use std::cmp::Ordering;

use vstd::prelude::*;

use crate::text::{
    all_digits, chars_of, is_ascii_digit, is_digit, is_white, lower_all, lower_chars, slice_chars,
    string_of, strip_all_prefix, strip_all_prefix_chars, trim, trim_chars,
};

verus! {

/// One CKB in shannon.
pub const SHANNONS_PER_CKB: u128 = 100_000_000;

pub open spec fn digit_val(c: char) -> nat {
    ((c as u32) - ('0' as u32)) as nat
}

pub open spec fn digit_char(d: nat) -> char {
    (d + 48) as char
}

/// The number that the decimal digits `s` spell (0 for no digits).
pub open spec fn digits_val(s: Seq<char>) -> nat
    decreases s.len(),
{
    if s.len() == 0 {
        0
    } else {
        digits_val(s.drop_last()) * 10 + digit_val(s.last())
    }
}

pub open spec fn pow10(n: nat) -> nat
    decreases n,
{
    if n == 0 {
        1
    } else {
        10 * pow10((n - 1) as nat)
    }
}

/// Index of the first '.' in `s`, or `s.len()` when there is none.
pub open spec fn dot_index(s: Seq<char>) -> int
    decreases s.len(),
{
    if s.len() == 0 {
        0
    } else if s[0] == '.' {
        0
    } else {
        1 + dot_index(s.drop_first())
    }
}

/// The text before the first '.'.
pub open spec fn whole_part(s: Seq<char>) -> Seq<char> {
    s.subrange(0, dot_index(s))
}

/// The text after the first '.', empty when there is no '.'.
pub open spec fn frac_part(s: Seq<char>) -> Seq<char> {
    if dot_index(s) < s.len() {
        s.subrange(dot_index(s) + 1, s.len() as int)
    } else {
        Seq::empty()
    }
}

/// `s` with its trailing '0' characters removed.
pub open spec fn strip_zeros_end(s: Seq<char>) -> Seq<char>
    decreases s.len(),
{
    if s.len() > 0 && s.last() == '0' {
        strip_zeros_end(s.drop_last())
    } else {
        s
    }
}

/// Whole digits without leading zeros, "0" when nothing is left.
pub open spec fn canonical_whole(w: Seq<char>) -> Seq<char> {
    let z = strip_all_prefix(w, seq!['0']);
    if z.len() == 0 {
        seq!['0']
    } else {
        z
    }
}

/// The canonical text of an amount whose parts are `w` and `f`.
pub open spec fn canonical_decimal(w: Seq<char>, f: Seq<char>) -> Seq<char> {
    let cw = canonical_whole(w);
    let cf = strip_zeros_end(f);
    if cf.len() == 0 {
        cw
    } else {
        cw + seq!['.'] + cf
    }
}

/// Why the trimmed text `t` is not an amount, if it is not one.
pub open spec fn decimal_error(t: Seq<char>) -> Option<Seq<char>> {
    if t.len() == 0 {
        Some("amount is required"@)
    } else if whole_part(t).len() == 0 || !all_digits(whole_part(t)) || !all_digits(
        frac_part(t),
    ) {
        Some("amount must be a positive number"@)
    } else if frac_part(t).len() > 8 {
        Some("amount supports at most 8 decimal places"@)
    } else {
        None
    }
}

/// What `normalize_decimal` gives for the text `raw`.
pub open spec fn normalized_decimal(raw: Seq<char>) -> Result<Seq<char>, Seq<char>> {
    let t = trim(raw);
    match decimal_error(t) {
        Some(e) => Err(e),
        None => Ok(canonical_decimal(whole_part(t), frac_part(t))),
    }
}

/// The amount in units of 10^-8 that the parts `w` and `f` spell.
pub open spec fn scaled_value(w: Seq<char>, f: Seq<char>) -> nat {
    digits_val(w) * pow10(8) + digits_val(f) * pow10((8 - f.len()) as nat)
}

/// What `parse_decimal_8` gives for the text `raw`.
pub open spec fn parsed_decimal(raw: Seq<char>) -> Result<u128, Seq<char>> {
    let t = trim(raw);
    match decimal_error(t) {
        Some(e) => Err(e),
        None => {
            let v = scaled_value(whole_part(t), frac_part(t));
            if v <= u128::MAX {
                Ok(v as u128)
            } else {
                Err("amount is too large"@)
            }
        },
    }
}

/// Decimal digits of `n`, without leading zeros.
pub open spec fn nat_digits(n: nat) -> Seq<char>
    decreases n,
{
    if n < 10 {
        seq![digit_char(n)]
    } else {
        nat_digits(n / 10).push(digit_char(n % 10))
    }
}

/// The last `width` decimal digits of `n`, zero padded.
pub open spec fn padded_digits(n: nat, width: nat) -> Seq<char>
    decreases width,
{
    if width == 0 {
        Seq::empty()
    } else {
        padded_digits(n / 10, (width - 1) as nat).push(digit_char(n % 10))
    }
}

/// The text `format_decimal_8` writes for `v` units of 10^-8.
pub open spec fn formatted_decimal(v: nat) -> Seq<char> {
    let w = v / 100_000_000;
    let f = v % 100_000_000;
    if f == 0 {
        nat_digits(w)
    } else {
        nat_digits(w) + seq!['.'] + strip_zeros_end(padded_digits(f, 8))
    }
}

pub open spec fn hex_char(d: nat) -> char {
    if d < 10 {
        (d + 48) as char
    } else {
        (d + 87) as char
    }
}

/// Lower-case hexadecimal digits of `n`, without leading zeros.
pub open spec fn hex_digits(n: nat) -> Seq<char>
    decreases n,
{
    if n < 16 {
        seq![hex_char(n)]
    } else {
        hex_digits(n / 16).push(hex_char(n % 16))
    }
}

/// `0x` followed by the lower-case hexadecimal digits of `n`.
pub open spec fn hex_text(n: nat) -> Seq<char> {
    seq!['0', 'x'] + hex_digits(n)
}

pub open spec fn ok_or_msg<T>(r: Result<T, String>) -> Result<T, Seq<char>> {
    match r {
        Ok(v) => Ok(v),
        Err(e) => Err(e@),
    }
}

// ---------------------------------------------------------------------------
// Lemmas
proof fn lemma_digits_step(s: Seq<char>, i: int)
    requires
        0 <= i < s.len(),
    ensures
        digits_val(s.subrange(0, i + 1)) == digits_val(s.subrange(0, i)) * 10 + digit_val(s[i]),
{
    assert(s.subrange(0, i + 1).drop_last() == s.subrange(0, i));
}

proof fn lemma_digits_prefix_le(s: Seq<char>, k: int)
    requires
        0 <= k <= s.len(),
    ensures
        digits_val(s.subrange(0, k)) <= digits_val(s),
    decreases s.len(),
{
    if k < s.len() {
        let t = s.drop_last();
        lemma_digits_prefix_le(t, k);
        assert(t.subrange(0, k) == s.subrange(0, k));
    } else {
        assert(s.subrange(0, k) == s);
    }
}

proof fn lemma_digits_bound(s: Seq<char>)
    requires
        all_digits(s),
    ensures
        digits_val(s) < pow10(s.len()),
    decreases s.len(),
{
    if s.len() > 0 {
        let t = s.drop_last();
        assert(all_digits(t)) by {
            assert forall|i: int| 0 <= i < t.len() implies is_digit(#[trigger] t[i]) by {
                assert(t[i] == s[i]);
            }
        }
        lemma_digits_bound(t);
        assert(is_digit(s[s.len() - 1]));
        assert(digit_val(s.last()) < 10);
    }
}

proof fn lemma_dot_index_at(s: Seq<char>, k: int)
    requires
        0 <= k <= s.len(),
        forall|j: int| 0 <= j < k ==> s[j] != '.',
        k == s.len() || s[k] == '.',
    ensures
        dot_index(s) == k,
    decreases k,
{
    if k > 0 {
        let t = s.drop_first();
        assert forall|j: int| 0 <= j < k - 1 implies t[j] != '.' by {
            assert(t[j] == s[j + 1]);
        }
        lemma_dot_index_at(t, k - 1);
    }
}

pub proof fn lemma_pow10_8()
    ensures
        pow10(8) == 100_000_000,
{
    reveal_with_fuel(pow10, 9);
}

proof fn lemma_pow10_pos(n: nat)
    ensures
        pow10(n) >= 1,
    decreases n,
{
    if n > 0 {
        lemma_pow10_pos((n - 1) as nat);
    }
}

proof fn lemma_digit_char(d: nat)
    requires
        d < 10,
    ensures
        is_digit(digit_char(d)),
        digit_val(digit_char(d)) == d,
{
}

proof fn lemma_digits_push(s: Seq<char>, c: char)
    ensures
        digits_val(s.push(c)) == digits_val(s) * 10 + digit_val(c),
{
    assert(s.push(c).drop_last() == s);
}

proof fn lemma_all_digits_push(s: Seq<char>, c: char)
    requires
        all_digits(s),
        is_digit(c),
    ensures
        all_digits(s.push(c)),
{
    assert forall|i: int| 0 <= i < s.push(c).len() implies is_digit(#[trigger] s.push(c)[i]) by {
        if i < s.len() {
            assert(s.push(c)[i] == s[i]);
        }
    }
}

/// `nat_digits(n)` is a non-empty run of digits that spells `n`.
pub proof fn lemma_nat_digits(n: nat)
    ensures
        nat_digits(n).len() >= 1,
        all_digits(nat_digits(n)),
        digits_val(nat_digits(n)) == n,
    decreases n,
{
    lemma_digit_char(n % 10);
    if n < 10 {
        lemma_digits_push(Seq::<char>::empty(), digit_char(n));
        assert(Seq::<char>::empty().push(digit_char(n)) =~= seq![digit_char(n)]);
    } else {
        lemma_nat_digits(n / 10);
        lemma_digits_push(nat_digits(n / 10), digit_char(n % 10));
        lemma_all_digits_push(nat_digits(n / 10), digit_char(n % 10));
    }
}

/// `padded_digits(n, width)` has `width` digits and spells `n mod 10^width`.
pub proof fn lemma_padded_digits(n: nat, width: nat)
    ensures
        padded_digits(n, width).len() == width,
        all_digits(padded_digits(n, width)),
        digits_val(padded_digits(n, width)) == n % pow10(width),
    decreases width,
{
    if width > 0 {
        let w1 = (width - 1) as nat;
        lemma_padded_digits(n / 10, w1);
        lemma_digit_char(n % 10);
        lemma_digits_push(padded_digits(n / 10, w1), digit_char(n % 10));
        lemma_all_digits_push(padded_digits(n / 10, w1), digit_char(n % 10));
        lemma_pow10_pos(w1);
        vstd::arithmetic::div_mod::lemma_mod_breakdown(n as int, 10, pow10(w1) as int);
    }
}

/// Dropping trailing zeros keeps a prefix whose value, scaled back by the
/// dropped places, is the value of the whole.
pub proof fn lemma_strip_zeros_end(s: Seq<char>)
    requires
        all_digits(s),
    ensures
        strip_zeros_end(s).len() <= s.len(),
        strip_zeros_end(s) == s.subrange(0, strip_zeros_end(s).len() as int),
        all_digits(strip_zeros_end(s)),
        digits_val(s) == digits_val(strip_zeros_end(s)) * pow10(
            (s.len() - strip_zeros_end(s).len()) as nat,
        ),
    decreases s.len(),
{
    if s.len() > 0 && s.last() == '0' {
        let t = s.drop_last();
        assert(all_digits(t)) by {
            assert forall|i: int| 0 <= i < t.len() implies is_digit(#[trigger] t[i]) by {
                assert(t[i] == s[i]);
            }
        }
        lemma_strip_zeros_end(t);
        let k = strip_zeros_end(t).len();
        let m = (t.len() - k) as nat;
        assert(t.subrange(0, k as int) == s.subrange(0, k as int));
        assert(pow10(m + 1) == 10 * pow10(m));
        assert((m + 1) as nat == (s.len() - k) as nat);
        let a = digits_val(strip_zeros_end(t));
        assert(strip_zeros_end(s) == strip_zeros_end(t));
        assert(digits_val(s) == digits_val(t) * 10 + digit_val(s.last()));
        assert(digit_val(s.last()) == 0);
        assert(a * pow10(m) * 10 == a * (10 * pow10(m))) by (nonlinear_arith);
        assert(digits_val(s) == a * pow10((m + 1) as nat));
    } else {
        assert(s.subrange(0, s.len() as int) == s);
        assert(pow10(0) == 1);
        assert(digits_val(s) * pow10(0) == digits_val(s));
    }
}

/// Reading back what `format_decimal_8` writes gives the same amount.
pub proof fn law_format_then_parse(v: u128)
    ensures
        parsed_decimal(formatted_decimal(v as nat)) == Ok::<u128, Seq<char>>(v),
{
    let w = (v as nat) / 100_000_000;
    let f = (v as nat) % 100_000_000;
    let nd = nat_digits(w);
    lemma_nat_digits(w);
    lemma_pow10_8();
    let s = formatted_decimal(v as nat);
    assert(!is_white(nd[0]));
    if f == 0 {
        assert(s == nd);
        assert(!is_white(s.last()));
        assert(trim(s) == s);
        lemma_dot_index_at(s, s.len() as int);
        assert(whole_part(s) == s);
        assert(frac_part(s) == Seq::<char>::empty());
        assert(all_digits(Seq::<char>::empty()));
        assert(digits_val(Seq::<char>::empty()) == 0);
        assert(digits_val(s) == w);
        assert(scaled_value(s, Seq::<char>::empty()) == w * pow10(8) + 0 * pow10(8));
        assert(scaled_value(whole_part(s), frac_part(s)) == w * 100_000_000);
        assert(v as nat == w * 100_000_000 + f);
    } else {
        let p = padded_digits(f, 8);
        lemma_padded_digits(f, 8);
        let t = strip_zeros_end(p);
        lemma_strip_zeros_end(p);
        assert(s == nd + seq!['.'] + t);
        assert forall|j: int| 0 <= j < nd.len() implies s[j] != '.' by {
            assert(s[j] == nd[j]);
            assert(is_digit(nd[j]));
        }
        assert(s[nd.len() as int] == '.');
        lemma_dot_index_at(s, nd.len() as int);
        assert(s[0] == nd[0]);
        if t.len() > 0 {
            assert(s.last() == t.last());
            assert(is_digit(t[t.len() - 1]));
        } else {
            assert(s.last() == '.');
        }
        assert(trim(s) == s);
        assert(whole_part(s) == nd);
        assert(frac_part(s) == t);
        assert(digits_val(p) == f);
        assert(digits_val(t) * pow10((8 - t.len()) as nat) == f);
        assert(scaled_value(whole_part(s), frac_part(s)) == w * 100_000_000 + f);
        assert(v as nat == w * 100_000_000 + f);
        assert(decimal_error(s) is None);
    }
}

proof fn lemma_digits_leading_zero(s: Seq<char>)
    requires
        s.len() > 0,
        s[0] == '0',
    ensures
        digits_val(s) == digits_val(s.drop_first()),
    decreases s.len(),
{
    if s.len() == 1 {
        assert(s.drop_first() =~= Seq::<char>::empty());
        assert(s.drop_last() =~= Seq::<char>::empty());
    } else {
        let t = s.drop_last();
        lemma_digits_leading_zero(t);
        assert(s.drop_first().drop_last() =~= t.drop_first());
        assert(s.drop_first().last() == s.last());
    }
}

/// Stripping leading zeros keeps the value and leaves a suffix that does not
/// start with '0'.
proof fn lemma_strip_leading_zeros(s: Seq<char>)
    requires
        all_digits(s),
    ensures
        digits_val(strip_all_prefix(s, seq!['0'])) == digits_val(s),
        all_digits(strip_all_prefix(s, seq!['0'])),
        strip_all_prefix(s, seq!['0']).len() > 0 ==> strip_all_prefix(s, seq!['0'])[0] != '0',
    decreases s.len(),
{
    let p = seq!['0'];
    if p.len() <= s.len() && s.subrange(0, 1) == p {
        assert(s[0] == s.subrange(0, 1)[0]);
        let rest = s.subrange(1, s.len() as int);
        assert(rest =~= s.drop_first());
        assert(all_digits(rest)) by {
            assert forall|i: int| 0 <= i < rest.len() implies is_digit(#[trigger] rest[i]) by {
                assert(rest[i] == s[i + 1]);
            }
        }
        lemma_digits_leading_zero(s);
        lemma_strip_leading_zeros(rest);
    } else if s.len() > 0 && s[0] == '0' {
        assert(s.subrange(0, 1) =~= p);
    }
}

proof fn lemma_strip_zeros_end_idempotent(s: Seq<char>)
    ensures
        strip_zeros_end(strip_zeros_end(s)) == strip_zeros_end(s),
    decreases s.len(),
{
    if s.len() > 0 && s.last() == '0' {
        lemma_strip_zeros_end_idempotent(s.drop_last());
    }
}

proof fn lemma_pow10_add(a: nat, b: nat)
    ensures
        pow10(a) * pow10(b) == pow10(a + b),
    decreases a,
{
    if a > 0 {
        let a1 = (a - 1) as nat;
        lemma_pow10_add(a1, b);
        assert(pow10(a + b) == 10 * pow10((a1 + b) as nat));
        let x = pow10(a1);
        let y = pow10(b);
        let pa = pow10(a);
        assert(pa == 10 * x);
        assert(pa * y == 10 * (x * y)) by (nonlinear_arith)
            requires
                pa == 10 * x,
        ;
    } else {
        let pa = pow10(a);
        let y = pow10(b);
        assert(pa == 1);
        assert(pa * y == y) by (nonlinear_arith)
            requires
                pa == 1,
        ;
    }
}

proof fn lemma_no_dot(s: Seq<char>)
    requires
        all_digits(s),
    ensures
        dot_index(s) == s.len(),
        whole_part(s) == s,
        frac_part(s) == Seq::<char>::empty(),
{
    assert forall|j: int| 0 <= j < s.len() implies s[j] != '.' by {
        assert(is_digit(s[j]));
    }
    lemma_dot_index_at(s, s.len() as int);
    assert(whole_part(s) =~= s);
}

/// The parts of the canonical text of the digit runs `w` (non-empty) and `f`.
proof fn lemma_canonical_parts(w: Seq<char>, f: Seq<char>)
    requires
        w.len() > 0,
        all_digits(w),
        all_digits(f),
    ensures
        canonical_whole(w).len() > 0,
        all_digits(canonical_whole(w)),
        digits_val(canonical_whole(w)) == digits_val(w),
        canonical_whole(canonical_whole(w)) == canonical_whole(w),
        all_digits(strip_zeros_end(f)),
        strip_zeros_end(f).len() <= f.len(),
        strip_zeros_end(strip_zeros_end(f)) == strip_zeros_end(f),
        trim(canonical_decimal(w, f)) == canonical_decimal(w, f),
        whole_part(canonical_decimal(w, f)) == canonical_whole(w),
        frac_part(canonical_decimal(w, f)) == strip_zeros_end(f),
{
    let z = strip_all_prefix(w, seq!['0']);
    lemma_strip_leading_zeros(w);
    let cw = canonical_whole(w);
    if z.len() == 0 {
        assert(cw == seq!['0']);
        assert(digits_val(seq!['0']) == 0) by {
            lemma_digits_push(Seq::<char>::empty(), '0');
            assert(Seq::<char>::empty().push('0') =~= seq!['0']);
        }
        let r = seq!['0'].subrange(1, 1);
        assert(r =~= Seq::<char>::empty());
        assert(seq!['0'].subrange(0, 1) =~= seq!['0']);
        assert(strip_all_prefix(seq!['0'], seq!['0']) == strip_all_prefix(r, seq!['0']));
        assert(strip_all_prefix(r, seq!['0']) == r);
    } else {
        assert(z.subrange(0, 1) != seq!['0']) by {
            assert(z.subrange(0, 1)[0] == z[0]);
        }
        assert(strip_all_prefix(z, seq!['0']) == z);
    }
    lemma_strip_zeros_end(f);
    lemma_strip_zeros_end_idempotent(f);
    let cf = strip_zeros_end(f);
    let t = canonical_decimal(w, f);
    assert(!is_white(cw[0])) by {
        assert(is_digit(cw[0]));
    }
    if cf.len() == 0 {
        assert(t == cw);
        assert(is_digit(cw[cw.len() - 1]));
        lemma_no_dot(cw);
    } else {
        assert(t == cw + seq!['.'] + cf);
        assert forall|j: int| 0 <= j < cw.len() implies t[j] != '.' by {
            assert(t[j] == cw[j]);
            assert(is_digit(cw[j]));
        }
        assert(t[cw.len() as int] == '.');
        lemma_dot_index_at(t, cw.len() as int);
        assert(t[0] == cw[0]);
        assert(t.last() == cf.last());
        assert(is_digit(cf[cf.len() - 1]));
        assert(whole_part(t) == cw);
        assert(frac_part(t) == cf);
    }
}

/// Normalizing an amount keeps its value.
pub proof fn law_normalize_keeps_amount(raw: Seq<char>)
    requires
        normalized_decimal(raw) is Ok,
    ensures
        parsed_decimal(normalized_decimal(raw)->Ok_0) == parsed_decimal(raw),
{
    let tx = trim(raw);
    let w = whole_part(tx);
    let f = frac_part(tx);
    lemma_canonical_parts(w, f);
    lemma_strip_zeros_end(f);
    let t = canonical_decimal(w, f);
    let cf = strip_zeros_end(f);
    assert(decimal_error(t) is None);
    let a = digits_val(cf);
    let p = pow10((f.len() - cf.len()) as nat);
    let q = pow10((8 - f.len()) as nat);
    lemma_pow10_add((f.len() - cf.len()) as nat, (8 - f.len()) as nat);
    assert(((f.len() - cf.len()) as nat + (8 - f.len()) as nat) as nat == (8 - cf.len()) as nat);
    assert(digits_val(f) == a * p);
    assert(a * p * q == a * (p * q)) by (nonlinear_arith);
    assert(scaled_value(whole_part(t), frac_part(t)) == scaled_value(w, f));
}

/// The text that normalizing gives is its own normal form.
pub proof fn law_normalize_idempotent(raw: Seq<char>)
    requires
        normalized_decimal(raw) is Ok,
    ensures
        normalized_decimal(normalized_decimal(raw)->Ok_0) == normalized_decimal(raw),
{
    let tx = trim(raw);
    let w = whole_part(tx);
    let f = frac_part(tx);
    lemma_canonical_parts(w, f);
    let t = canonical_decimal(w, f);
    assert(decimal_error(t) is None);
    assert(canonical_decimal(whole_part(t), frac_part(t)) == t);
}

/// Parsing an amount gives exactly the value that the digits of its canonical
/// text spell (whole part times 10^8 plus the fraction scaled to eight
/// places), or "amount is too large"; where normalizing refuses the text,
/// parsing refuses it with the same message.
pub proof fn law_parse_reads_canonical_text(raw: Seq<char>)
    ensures
        normalized_decimal(raw) is Err ==> parsed_decimal(raw) == Err::<u128, Seq<char>>(
            normalized_decimal(raw)->Err_0,
        ),
        normalized_decimal(raw) is Ok ==> ({
            let s = normalized_decimal(raw)->Ok_0;
            let v = scaled_value(whole_part(s), frac_part(s));
            parsed_decimal(raw) == if v <= u128::MAX {
                Ok::<u128, Seq<char>>(v as u128)
            } else {
                Err("amount is too large"@)
            }
        }),
{
    if normalized_decimal(raw) is Ok {
        law_normalize_keeps_amount(raw);
        let tx = trim(raw);
        lemma_canonical_parts(whole_part(tx), frac_part(tx));
        let s = normalized_decimal(raw)->Ok_0;
        assert(decimal_error(s) is None);
    }
}

/// Converting fiat to CKB and back never gives more fiat than there was.
pub proof fn law_fiat_round_trip_rounds_down(fiat: Seq<char>, rate: Seq<char>)
    requires
        ckb_for_fiat(fiat, rate) is Ok,
    ensures
        fiat_for_ckb(ckb_for_fiat(fiat, rate)->Ok_0, rate) is Ok,
        parsed_decimal(fiat_for_ckb(ckb_for_fiat(fiat, rate)->Ok_0, rate)->Ok_0) is Ok,
        parsed_decimal(fiat_for_ckb(ckb_for_fiat(fiat, rate)->Ok_0, rate)->Ok_0)->Ok_0
            <= parsed_decimal(fiat)->Ok_0,
{
    let f = parsed_decimal(fiat)->Ok_0;
    let r = parsed_decimal(rate)->Ok_0;
    let big = f * 100_000_000;
    let q = big / (r as int);
    assert(r > 0);
    assert(q * r <= big && q <= big) by (nonlinear_arith)
        requires
            r > 0,
            q == big / (r as int),
            big >= 0,
    ;
    law_format_then_parse(q as u128);
    let k = ckb_for_fiat(fiat, rate)->Ok_0;
    assert(k == formatted_decimal(q as nat));
    assert(parsed_decimal(k) == Ok::<u128, Seq<char>>(q as u128));
    let p = (q * r) / 100_000_000;
    assert(p <= f) by (nonlinear_arith)
        requires
            q * r <= f * 100_000_000,
            p == (q * r) / 100_000_000,
            q >= 0,
            r >= 0,
    ;
    law_format_then_parse(p as u128);
}

proof fn lemma_nat_digits_lead(n: nat)
    ensures
        n > 0 ==> nat_digits(n)[0] != '0',
    decreases n,
{
    lemma_nat_digits(n);
    if n >= 10 {
        lemma_nat_digits_lead(n / 10);
        lemma_nat_digits(n / 10);
        assert(nat_digits(n)[0] == nat_digits(n / 10)[0]);
    }
}

proof fn lemma_digit_round(c: char)
    requires
        is_digit(c),
    ensures
        digit_char(digit_val(c)) == c,
        digit_val(c) < 10,
{
}

proof fn lemma_digits_positive(s: Seq<char>)
    requires
        s.len() > 0,
        all_digits(s),
        s[0] != '0',
    ensures
        digits_val(s) >= 1,
    decreases s.len(),
{
    if s.len() > 1 {
        let t = s.drop_last();
        assert(all_digits(t)) by {
            assert forall|i: int| 0 <= i < t.len() implies is_digit(#[trigger] t[i]) by {
                assert(t[i] == s[i]);
            }
        }
        lemma_digits_positive(t);
    } else {
        assert(s.drop_last() =~= Seq::<char>::empty());
        assert(is_digit(s[0]));
    }
}

/// Digits without a leading zero are the decimal text of their value.
proof fn lemma_digits_text(s: Seq<char>)
    requires
        s.len() > 0,
        all_digits(s),
        s[0] != '0',
    ensures
        nat_digits(digits_val(s)) == s,
    decreases s.len(),
{
    let c = s.last();
    assert(is_digit(s[s.len() - 1]));
    lemma_digit_round(c);
    let t = s.drop_last();
    if s.len() == 1 {
        assert(t =~= Seq::<char>::empty());
        assert(digits_val(s) == digit_val(c));
        assert(s =~= seq![c]);
    } else {
        assert(all_digits(t)) by {
            assert forall|i: int| 0 <= i < t.len() implies is_digit(#[trigger] t[i]) by {
                assert(t[i] == s[i]);
            }
        }
        lemma_digits_text(t);
        lemma_digits_positive(t);
        let n = digits_val(s);
        assert(n == digits_val(t) * 10 + digit_val(c));
        assert(n / 10 == digits_val(t) && n % 10 == digit_val(c));
        assert(n >= 10);
        assert(nat_digits(n) == nat_digits(n / 10).push(digit_char(n % 10)));
        assert(s =~= t.push(c));
    }
}

/// The digits of `f`, padded back to their own width, are `f`.
proof fn lemma_padded_own(f: Seq<char>)
    requires
        all_digits(f),
    ensures
        padded_digits(digits_val(f), f.len()) == f,
    decreases f.len(),
{
    if f.len() > 0 {
        let c = f.last();
        assert(is_digit(f[f.len() - 1]));
        lemma_digit_round(c);
        let t = f.drop_last();
        assert(all_digits(t)) by {
            assert forall|i: int| 0 <= i < t.len() implies is_digit(#[trigger] t[i]) by {
                assert(t[i] == f[i]);
            }
        }
        lemma_padded_own(t);
        let n = digits_val(f);
        assert(n / 10 == digits_val(t) && n % 10 == digit_val(c));
        assert(f =~= t.push(c));
    } else {
        assert(f =~= Seq::<char>::empty());
    }
}

pub open spec fn zeros(k: nat) -> Seq<char> {
    Seq::new(k, |i: int| '0')
}

/// Scaling by `10^k` pads with `k` zeros.
proof fn lemma_padded_scaled(x: nat, w: nat, k: nat)
    ensures
        padded_digits(x * pow10(k), w + k) == padded_digits(x, w) + zeros(k),
    decreases k,
{
    if k == 0 {
        assert(pow10(0) == 1);
        assert(x * 1 == x);
        assert(padded_digits(x, w) + zeros(0) =~= padded_digits(x, w));
    } else {
        let k1 = (k - 1) as nat;
        lemma_padded_scaled(x, w, k1);
        let y = x * pow10(k1);
        assert(pow10(k) == 10 * pow10(k1));
        assert(x * pow10(k) == y * 10) by (nonlinear_arith)
            requires
                pow10(k) == 10 * pow10(k1),
                y == x * pow10(k1),
        ;
        assert((y * 10) / 10 == y && (y * 10) % 10 == 0) by (nonlinear_arith)
            requires
                y >= 0,
        ;
        assert(padded_digits(y * 10, w + k) == padded_digits(y, (w + k1) as nat).push(digit_char(0)));
        assert(padded_digits(x, w) + zeros(k) =~= (padded_digits(x, w) + zeros(k1)).push('0'));
    }
}

proof fn lemma_strip_zeros_pad(s: Seq<char>, k: nat)
    ensures
        strip_zeros_end(s + zeros(k)) == strip_zeros_end(s),
    decreases k,
{
    if k > 0 {
        let k1 = (k - 1) as nat;
        assert((s + zeros(k)).drop_last() =~= s + zeros(k1));
        assert((s + zeros(k)).last() == '0');
        lemma_strip_zeros_pad(s, k1);
    } else {
        assert(s + zeros(0) =~= s);
    }
}

proof fn lemma_strip_zeros_end_last(s: Seq<char>)
    ensures
        strip_zeros_end(s).len() > 0 ==> strip_zeros_end(s).last() != '0',
    decreases s.len(),
{
    if s.len() > 0 && s.last() == '0' {
        lemma_strip_zeros_end_last(s.drop_last());
    }
}

/// The fraction `f` scaled to eight places, padded and stripped again, is
/// `f` stripped; it is zero exactly when `f` strips to nothing.
proof fn lemma_fraction_text(f: Seq<char>)
    requires
        all_digits(f),
        f.len() <= 8,
    ensures
        digits_val(f) * pow10((8 - f.len()) as nat) < 100_000_000,
        (digits_val(f) * pow10((8 - f.len()) as nat) == 0) == (strip_zeros_end(f).len() == 0),
        strip_zeros_end(padded_digits(digits_val(f) * pow10((8 - f.len()) as nat), 8))
            == strip_zeros_end(f),
{
    let k = (8 - f.len()) as nat;
    let d = digits_val(f);
    lemma_padded_own(f);
    lemma_padded_scaled(d, f.len(), k);
    assert(f.len() + k == 8);
    lemma_strip_zeros_pad(f, k);
    lemma_digits_bound(f);
    lemma_pow10_add(f.len(), k);
    lemma_pow10_8();
    lemma_pow10_pos(k);
    let pf = pow10(f.len());
    let pk = pow10(k);
    assert(d * pk < 100_000_000) by (nonlinear_arith)
        requires
            d < pf,
            pf * pk == 100_000_000,
            pk >= 1,
    ;
    lemma_strip_zeros_end(f);
    lemma_strip_zeros_end_last(f);
    let cf = strip_zeros_end(f);
    let m = (f.len() - cf.len()) as nat;
    if cf.len() > 0 {
        lemma_digits_push(cf.drop_last(), cf.last());
        assert(cf.drop_last().push(cf.last()) =~= cf);
        assert(is_digit(cf[cf.len() - 1]));
        assert(digits_val(cf) >= 1);
        lemma_pow10_pos(m);
        assert(d * pk >= 1) by (nonlinear_arith)
            requires
                d == digits_val(cf) * pow10(m),
                digits_val(cf) >= 1,
                pow10(m) >= 1,
                pk >= 1,
        ;
    } else {
        assert(digits_val(cf) == 0);
        assert(d * pk == 0) by (nonlinear_arith)
            requires
                d == digits_val(cf) * pow10(m),
                digits_val(cf) == 0,
        ;
    }
}

/// The canonical text of an amount is the text `format_decimal_8` writes for
/// its value.
proof fn lemma_canonical_is_formatted(w: Seq<char>, f: Seq<char>)
    requires
        w.len() > 0,
        all_digits(w),
        all_digits(f),
        f.len() <= 8,
    ensures
        formatted_decimal(scaled_value(w, f)) == canonical_decimal(w, f),
{
    lemma_canonical_parts(w, f);
    lemma_strip_leading_zeros(w);
    let z = strip_all_prefix(w, seq!['0']);
    let cw = canonical_whole(w);
    if z.len() > 0 {
        lemma_digits_text(z);
    } else {
        assert(digits_val(w) == 0);
        assert(nat_digits(0) == seq![digit_char(0)]);
    }
    assert(nat_digits(digits_val(w)) == cw);
    lemma_fraction_text(f);
    lemma_pow10_8();
    let wv = digits_val(w);
    let fv = digits_val(f) * pow10((8 - f.len()) as nat);
    let v = scaled_value(w, f);
    assert(v == wv * 100_000_000 + fv);
    assert(v / 100_000_000 == wv && v % 100_000_000 == fv) by (nonlinear_arith)
        requires
            v == wv * 100_000_000 + fv,
            0 <= fv < 100_000_000,
            wv >= 0,
    ;
}

/// Formatted amounts are already canonical, and formatting a parsed amount
/// gives the canonical text of what was parsed.
pub proof fn law_format_is_canonical(n: u128, raw: Seq<char>)
    ensures
        normalized_decimal(formatted_decimal(n as nat)) == Ok::<Seq<char>, Seq<char>>(
            formatted_decimal(n as nat),
        ),
        parsed_decimal(raw) is Ok ==> normalized_decimal(raw) is Ok && formatted_decimal(
            parsed_decimal(raw)->Ok_0 as nat,
        ) == normalized_decimal(raw)->Ok_0,
{
    if parsed_decimal(raw) is Ok {
        let tx = trim(raw);
        lemma_canonical_is_formatted(whole_part(tx), frac_part(tx));
    }
    let s = formatted_decimal(n as nat);
    law_format_then_parse(n);
    assert(normalized_decimal(s) is Ok);
    law_normalize_keeps_amount(s);
    law_normalize_idempotent(s);
    let t = trim(s);
    lemma_canonical_is_formatted(whole_part(t), frac_part(t));
}

// ---------------------------------------------------------------------------
// Executable pieces
fn msg(text: &str) -> (r: String)
    ensures
        r@ == text@,
{
    text.to_owned()
}

fn find_dot(t: &[char]) -> (r: usize)
    ensures
        r as int == dot_index(t@),
        r <= t@.len(),
{
    let n = t.len();
    let mut i: usize = 0;
    while i < n && t[i] != '.'
        invariant
            n == t@.len(),
            i <= n,
            forall|j: int| 0 <= j < i ==> t@[j] != '.',
        decreases n - i,
    {
        i = i + 1;
    }
    proof {
        lemma_dot_index_at(t@, i as int);
    }
    i
}

fn all_digits_exec(v: &[char]) -> (r: bool)
    ensures
        r == all_digits(v@),
{
    let n = v.len();
    for i in 0..n
        invariant
            n == v@.len(),
            forall|j: int| 0 <= j < i ==> is_digit(#[trigger] v@[j]),
    {
        if !is_ascii_digit(v[i]) {
            return false;
        }
    }
    true
}

fn strip_zeros_end_exec(v: &[char]) -> (r: Vec<char>)
    ensures
        r@ == strip_zeros_end(v@),
{
    let mut hi = v.len();
    assert(v@.subrange(0, v@.len() as int) == v@);
    while hi > 0 && v[hi - 1] == '0'
        invariant
            hi <= v@.len(),
            strip_zeros_end(v@) == strip_zeros_end(v@.subrange(0, hi as int)),
        decreases hi,
    {
        proof {
            let s = v@.subrange(0, hi as int);
            assert(s.last() == v@[hi - 1]);
            assert(s.drop_last() == v@.subrange(0, hi - 1));
        }
        hi = hi - 1;
    }
    proof {
        assert(v@.subrange(0, v@.len() as int) == v@);
        let s = v@.subrange(0, hi as int);
        if hi > 0 {
            assert(s.last() == v@[hi - 1]);
        }
    }
    slice_chars(v, 0, hi)
}

/// The whole and fractional parts of the trimmed text, when it is an amount.
fn split_decimal(raw: &[char]) -> (r: Result<(Vec<char>, Vec<char>), String>)
    ensures
        match r {
            Ok((w, f)) => decimal_error(trim(raw@)) is None && w@ == whole_part(trim(raw@))
                && f@ == frac_part(trim(raw@)),
            Err(e) => decimal_error(trim(raw@)) == Some(e@),
        },
{
    let t = trim_chars(raw);
    if t.len() == 0 {
        return Err(msg("amount is required"));
    }
    let d = find_dot(&t);
    let whole = slice_chars(&t, 0, d);
    let frac = if d < t.len() {
        slice_chars(&t, d + 1, t.len())
    } else {
        Vec::new()
    };
    assert(frac@ == frac_part(t@));
    if whole.len() == 0 || !all_digits_exec(&whole) || !all_digits_exec(&frac) {
        return Err(msg("amount must be a positive number"));
    }
    if frac.len() > 8 {
        return Err(msg("amount supports at most 8 decimal places"));
    }
    Ok((whole, frac))
}

/// Canonical text of an amount (`normalize_decimal`) on characters.
pub fn normalize_chars(raw: &[char]) -> (r: Result<Vec<char>, String>)
    ensures
        match r {
            Ok(v) => normalized_decimal(raw@) == Ok::<Seq<char>, Seq<char>>(v@),
            Err(e) => normalized_decimal(raw@) == Err::<Seq<char>, Seq<char>>(e@),
        },
{
    let (whole, frac) = match split_decimal(raw) {
        Ok(parts) => parts,
        Err(e) => return Err(e),
    };
    let zero = vec!['0'];
    assert(zero@ == seq!['0']);
    let w = strip_all_prefix_chars(&whole, &zero);
    let w = if w.len() == 0 {
        zero
    } else {
        w
    };
    let f = strip_zeros_end_exec(&frac);
    if f.len() == 0 {
        Ok(w)
    } else {
        let mut out = w;
        let ghost w0 = out@;
        out.push('.');
        let n = f.len();
        for i in 0..n
            invariant
                n == f@.len(),
                out@ == w0 + seq!['.'] + f@.subrange(0, i as int),
        {
            out.push(f[i]);
            assert(f@.subrange(0, i + 1) == f@.subrange(0, i as int).push(f@[i as int]));
        }
        assert(f@.subrange(0, n as int) == f@);
        Ok(out)
    }
}

/// The amount, in units of 10^-8, that the text spells (`parse_decimal_8`) on characters.
pub fn parse_chars(raw: &[char]) -> (r: Result<u128, String>)
    ensures
        ok_or_msg(r) == parsed_decimal(raw@),
{
    let (whole, frac) = match split_decimal(raw) {
        Ok(parts) => parts,
        Err(e) => return Err(e),
    };
    let ghost t = trim(raw@);
    // Whole part.
    let mut wv: u128 = 0;
    let n = whole.len();
    let mut i: usize = 0;
    while i < n
        invariant
            n == whole@.len(),
            i <= n,
            all_digits(whole@),
            wv == digits_val(whole@.subrange(0, i as int)),
            decimal_error(trim(raw@)) is None,
            whole@ == whole_part(trim(raw@)),
            frac@ == frac_part(trim(raw@)),
        decreases n - i,
    {
        proof {
            lemma_digits_step(whole@, i as int);
            assert(is_digit(whole@[i as int]));
        }
        let d = (whole[i] as u32) - ('0' as u32);
        let next = match wv.checked_mul(10) {
            Some(x) => x.checked_add(d as u128),
            None => None,
        };
        match next {
            Some(x) => {
                wv = x;
            },
            None => {
                assert(wv * 10 + d > u128::MAX);
                assert(digits_val(whole@.subrange(0, i + 1)) > u128::MAX);
                proof {
                    lemma_digits_prefix_le(whole@, i + 1);
                    lemma_pow10_8();
                    assert(scaled_value(whole@, frac@) >= digits_val(whole@) * pow10(8));
                    assert(digits_val(whole@) * pow10(8) >= digits_val(whole@)) by (
                    nonlinear_arith)
                        requires
                            pow10(8) == 100_000_000,
                    ;
                    assert(scaled_value(whole@, frac@) > u128::MAX);
                }
                return Err(msg("amount is too large"));
            },
        }
        i = i + 1;
    }
    assert(whole@.subrange(0, n as int) == whole@);
    // Fractional part, scaled to eight digits.
    let m = frac.len();
    let mut fv: u128 = 0;
    let mut j: usize = 0;
    while j < m
        invariant
            m == frac@.len(),
            m <= 8,
            j <= m,
            all_digits(frac@),
            fv == digits_val(frac@.subrange(0, j as int)),
            fv < pow10(j as nat),
            pow10(j as nat) <= 100_000_000,
        decreases m - j,
    {
        proof {
            lemma_digits_step(frac@, j as int);
            assert(is_digit(frac@[j as int]));
            reveal_with_fuel(pow10, 9);
        }
        let d = (frac[j] as u32) - ('0' as u32);
        fv = fv * 10 + d as u128;
        j = j + 1;
    }
    assert(frac@.subrange(0, m as int) == frac@);
    let ghost fd = digits_val(frac@);
    assert(pow10(0) == 1);
    assert(fd * pow10(0) == fd);
    let mut k: usize = m;
    while k < 8
        invariant
            m <= k <= 8,
            fv == fd * pow10((k - m) as nat),
            fv < pow10(k as nat),
            pow10(k as nat) <= 100_000_000,
        decreases 8 - k,
    {
        proof {
            reveal_with_fuel(pow10, 9);
            assert(pow10((k + 1 - m) as nat) == 10 * pow10((k - m) as nat));
            assert(fd * (10 * pow10((k - m) as nat)) == (fd * pow10((k - m) as nat)) * 10) by (
            nonlinear_arith);
        }
        fv = fv * 10;
        k = k + 1;
    }
    proof {
        lemma_pow10_8();
    }
    assert(fv == digits_val(frac@) * pow10((8 - frac@.len()) as nat));
    let total = match wv.checked_mul(SHANNONS_PER_CKB) {
        Some(x) => x.checked_add(fv),
        None => None,
    };
    match total {
        Some(v) => Ok(v),
        None => Err(msg("amount is too large")),
    }
}

/// Decimal digits of `n`.
pub(crate) fn u128_digits(n: u128) -> (r: Vec<char>)
    ensures
        r@ == nat_digits(n as nat),
    decreases n,
{
    if n < 10 {
        let c = ((n as u8) + 48) as char;
        vec![c]
    } else {
        let mut r = u128_digits(n / 10);
        let d = (n % 10) as u8;
        r.push((d + 48) as char);
        r
    }
}

/// The last `width` decimal digits of `n`, zero padded.
pub(crate) fn padded_digits_exec(n: u128, width: usize) -> (r: Vec<char>)
    ensures
        r@ == padded_digits(n as nat, width as nat),
    decreases width,
{
    if width == 0 {
        Vec::new()
    } else {
        let mut r = padded_digits_exec(n / 10, width - 1);
        let d = (n % 10) as u8;
        r.push((d + 48) as char);
        r
    }
}

/// Lower-case hexadecimal digits of `n`.
fn u128_hex_digits(n: u128) -> (r: Vec<char>)
    ensures
        r@ == hex_digits(n as nat),
    decreases n,
{
    let d = (n % 16) as u8;
    let c = if d < 10 {
        (d + 48) as char
    } else {
        (d + 87) as char
    };
    if n < 16 {
        vec![c]
    } else {
        let mut r = u128_hex_digits(n / 16);
        r.push(c);
        r
    }
}

/// The canonical text of `scaled` units of 10^-8, on characters.
pub fn format_chars(scaled: u128) -> (r: Vec<char>)
    ensures
        r@ == formatted_decimal(scaled as nat),
{
    let whole = scaled / SHANNONS_PER_CKB;
    let frac = scaled % SHANNONS_PER_CKB;
    let mut out = u128_digits(whole);
    if frac == 0 {
        return out;
    }
    let padded = padded_digits_exec(frac, 8);
    let f = strip_zeros_end_exec(&padded);
    let ghost w0 = out@;
    out.push('.');
    let n = f.len();
    for i in 0..n
        invariant
            n == f@.len(),
            out@ == w0 + seq!['.'] + f@.subrange(0, i as int),
    {
        out.push(f[i]);
        assert(f@.subrange(0, i + 1) == f@.subrange(0, i as int).push(f@[i as int]));
    }
    assert(f@.subrange(0, n as int) == f@);
    out
}

// ---------------------------------------------------------------------------
// Public operations on text amounts
/// Canonical text of a non-negative decimal with at most eight fractional
/// digits: surrounding white space, leading zeros of the whole part and
/// trailing zeros of the fraction removed.
pub fn normalize_decimal(raw: &str) -> (r: Result<String, String>)
    ensures
        match r {
            Ok(s) => normalized_decimal(raw@) == Ok::<Seq<char>, Seq<char>>(s@),
            Err(e) => normalized_decimal(raw@) == Err::<Seq<char>, Seq<char>>(e@),
        },
{
    let chars = chars_of(raw);
    match normalize_chars(&chars) {
        Ok(v) => Ok(string_of(&v)),
        Err(e) => Err(e),
    }
}

/// The amount, in units of 10^-8, that `raw` spells.
pub fn parse_decimal_8(raw: &str) -> (r: Result<u128, String>)
    ensures
        ok_or_msg(r) == parsed_decimal(raw@),
{
    let chars = chars_of(raw);
    parse_chars(&chars)
}

/// Canonical text of `scaled` units of 10^-8.
pub fn format_decimal_8(scaled: u128) -> (r: String)
    ensures
        r@ == formatted_decimal(scaled as nat),
{
    let v = format_chars(scaled);
    string_of(&v)
}

/// `0x` and the lower-case hexadecimal digits of `value`.
pub fn hex_u128(value: u128) -> (r: String)
    ensures
        r@ == hex_text(value as nat),
{
    let mut v = vec!['0', 'x'];
    let d = u128_hex_digits(value);
    let ghost v0 = v@;
    let n = d.len();
    for i in 0..n
        invariant
            n == d@.len(),
            v@ == v0 + d@.subrange(0, i as int),
    {
        v.push(d[i]);
        assert(d@.subrange(0, i + 1) == d@.subrange(0, i as int).push(d@[i as int]));
    }
    assert(d@.subrange(0, n as int) == d@);
    assert(v0 == seq!['0', 'x']);
    string_of(&v)
}

/// `0x` and the lower-case hexadecimal digits of `value`.
pub fn hex_u64(value: u64) -> (r: String)
    ensures
        r@ == hex_text(value as nat),
{
    hex_u128(value as u128)
}


/// What `amount_to_shannon` gives: a parsed amount that must not be zero.
pub open spec fn shannon_amount(raw: Seq<char>) -> Result<u128, Seq<char>> {
    match parsed_decimal(raw) {
        Err(e) => Err(e),
        Ok(v) => if v == 0 {
            Err("amount must be greater than zero"@)
        } else {
            Ok(v)
        },
    }
}

/// What `ckb_from_fiat` gives: `fiat / rate` CKB, rounded down to whole shannon.
pub open spec fn ckb_for_fiat(fiat: Seq<char>, rate: Seq<char>) -> Result<Seq<char>, Seq<char>> {
    match parsed_decimal(fiat) {
        Err(e) => Err(e),
        Ok(f) => match parsed_decimal(rate) {
            Err(e) => Err(e),
            Ok(r) => if r == 0 {
                Err("rate must be greater than zero"@)
            } else if f * 100_000_000 > u128::MAX {
                Err("amount is too large"@)
            } else if (f * 100_000_000) / (r as int) == 0 {
                Err("fiat amount is too small for this rate"@)
            } else {
                Ok(formatted_decimal(((f * 100_000_000) / (r as int)) as nat))
            },
        },
    }
}

/// What `fiat_from_ckb` gives: `ckb * rate`, rounded down to 10^-8.
pub open spec fn fiat_for_ckb(ckb: Seq<char>, rate: Seq<char>) -> Result<Seq<char>, Seq<char>> {
    match parsed_decimal(ckb) {
        Err(e) => Err(e),
        Ok(c) => match parsed_decimal(rate) {
            Err(e) => Err(e),
            Ok(r) => if r == 0 {
                Err("rate must be greater than zero"@)
            } else if c * r > u128::MAX {
                Err("amount is too large"@)
            } else {
                Ok(formatted_decimal(((c * r) / 100_000_000) as nat))
            },
        },
    }
}

/// What `add_ckb` gives.
pub open spec fn sum_of(left: Seq<char>, right: Seq<char>) -> Result<Seq<char>, Seq<char>> {
    match parsed_decimal(left) {
        Err(e) => Err(e),
        Ok(l) => match parsed_decimal(right) {
            Err(e) => Err(e),
            Ok(r) => if l + r > u128::MAX {
                Err("amount is too large"@)
            } else {
                Ok(formatted_decimal((l + r) as nat))
            },
        },
    }
}

/// What subtracting `right` from `left` gives.
pub open spec fn difference_of(left: Seq<char>, right: Seq<char>) -> Result<Seq<char>, Seq<char>> {
    match parsed_decimal(left) {
        Err(e) => Err(e),
        Ok(l) => match parsed_decimal(right) {
            Err(e) => Err(e),
            Ok(r) => if r > l {
                Err("not enough CKB available"@)
            } else {
                Ok(formatted_decimal((l - r) as nat))
            },
        },
    }
}

/// What `normalize_amount` gives: the canonical text of a non-zero amount.
pub open spec fn normalized_amount(raw: Seq<char>) -> Result<Seq<char>, Seq<char>> {
    match normalized_decimal(raw) {
        Err(e) => Err(e),
        Ok(t) => match parsed_decimal(t) {
            Err(e) => Err(e),
            Ok(v) => if v == 0 {
                Err("amount must be greater than zero"@)
            } else {
                Ok(t)
            },
        },
    }
}

/// What `normalize_hex` gives.
pub open spec fn normalized_hex(raw: Seq<char>) -> Seq<char> {
    lower_all(
        strip_all_prefix(
            strip_all_prefix(strip_all_prefix(trim(raw), seq!['0', 'x']), seq!['0', 'X']),
            seq!['0'],
        ),
    )
}

pub open spec fn text_result(r: Result<String, String>) -> Result<Seq<char>, Seq<char>> {
    match r {
        Ok(s) => Ok(s@),
        Err(e) => Err(e@),
    }
}

/// The amount in shannon; zero is refused.
pub fn amount_to_shannon(amount: &str) -> (r: Result<u128, String>)
    ensures
        ok_or_msg(r) == shannon_amount(amount@),
{
    let v = parse_decimal_8(amount)?;
    if v == 0 {
        Err(msg("amount must be greater than zero"))
    } else {
        Ok(v)
    }
}

/// CKB bought by `fiat` at `rate` fiat per CKB, rounded down to whole shannon.
pub fn ckb_from_fiat(fiat: &str, rate: &str) -> (r: Result<String, String>)
    ensures
        text_result(r) == ckb_for_fiat(fiat@, rate@),
{
    let fiat = parse_decimal_8(fiat)?;
    let rate = parse_decimal_8(rate)?;
    if rate == 0 {
        return Err(msg("rate must be greater than zero"));
    }
    let ckb = match fiat.checked_mul(SHANNONS_PER_CKB) {
        Some(v) => v / rate,
        None => return Err(msg("amount is too large")),
    };
    if ckb == 0 {
        return Err(msg("fiat amount is too small for this rate"));
    }
    Ok(format_decimal_8(ckb))
}

/// Fiat paid for `ckb` at `rate` fiat per CKB, rounded down to 10^-8.
pub fn fiat_from_ckb(ckb: &str, rate: &str) -> (r: Result<String, String>)
    ensures
        text_result(r) == fiat_for_ckb(ckb@, rate@),
{
    let ckb = parse_decimal_8(ckb)?;
    let rate = parse_decimal_8(rate)?;
    if rate == 0 {
        return Err(msg("rate must be greater than zero"));
    }
    let fiat = match ckb.checked_mul(rate) {
        Some(v) => v / SHANNONS_PER_CKB,
        None => return Err(msg("amount is too large")),
    };
    Ok(format_decimal_8(fiat))
}

/// The sum of two amounts, in canonical text.
pub fn add_ckb(left: &str, right: &str) -> (r: Result<String, String>)
    ensures
        text_result(r) == sum_of(left@, right@),
{
    let l = parse_decimal_8(left)?;
    let r = parse_decimal_8(right)?;
    match l.checked_add(r) {
        Some(sum) => Ok(format_decimal_8(sum)),
        None => Err(msg("amount is too large")),
    }
}

/// `left - right` in canonical text; refused when `right` is larger.
pub fn subtract_ckb(left: &str, right: &str) -> (r: Result<String, String>)
    ensures
        text_result(r) == difference_of(left@, right@),
{
    let l = parse_decimal_8(left)?;
    let r = parse_decimal_8(right)?;
    if r > l {
        return Err(msg("not enough CKB available"));
    }
    Ok(format_decimal_8(l - r))
}

/// Canonical text of a non-zero amount.
pub fn normalize_amount(raw: &str) -> (r: Result<String, String>)
    ensures
        text_result(r) == normalized_amount(raw@),
{
    let text = normalize_decimal(raw)?;
    if parse_decimal_8(text.as_str())? == 0 {
        return Err(msg("amount must be greater than zero"));
    }
    Ok(text)
}

/// Hexadecimal text without `0x`/`0X` prefixes and leading zeros, lower-cased.
pub fn normalize_hex(raw: &str) -> (r: String)
    ensures
        r@ == normalized_hex(raw@),
{
    let chars = chars_of(raw);
    let t = trim_chars(&chars);
    let p1 = vec!['0', 'x'];
    let p2 = vec!['0', 'X'];
    let p3 = vec!['0'];
    assert(p1@ == seq!['0', 'x']);
    assert(p2@ == seq!['0', 'X']);
    assert(p3@ == seq!['0']);
    let a = strip_all_prefix_chars(&t, &p1);
    let b = strip_all_prefix_chars(&a, &p2);
    let c = strip_all_prefix_chars(&b, &p3);
    let d = lower_chars(&c);
    string_of(&d)
}

/// How two amounts compare.
pub fn cmp_ckb(left: &str, right: &str) -> (r: Result<Ordering, String>)
    ensures
        match r {
            Ok(o) => parsed_decimal(left@) is Ok && parsed_decimal(right@) is Ok && {
                let l = parsed_decimal(left@)->Ok_0;
                let rr = parsed_decimal(right@)->Ok_0;
                &&& (o == Ordering::Less <==> l < rr)
                &&& (o == Ordering::Equal <==> l == rr)
                &&& (o == Ordering::Greater <==> l > rr)
            },
            Err(e) => match parsed_decimal(left@) {
                Err(le) => e@ == le,
                Ok(_) => parsed_decimal(right@) == Err::<u128, Seq<char>>(e@),
            },
        },
{
    let l = parse_decimal_8(left)?;
    let r = parse_decimal_8(right)?;
    if l < r {
        Ok(Ordering::Less)
    } else if l == r {
        Ok(Ordering::Equal)
    } else {
        Ok(Ordering::Greater)
    }
}

} // verus!
