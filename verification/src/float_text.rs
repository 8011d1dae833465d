//! Which texts `f32::from_str` reads as a number that does not compare
//! `<= 0`. Page dimensions are decimal texts in MusicXML; a score whose page
//! width or height is unreadable, zero or negative gives no frame for its
//! credits.

use vstd::prelude::*;
use vstd::string::StrSliceExecFns;
use crate::text::{all_digits, digits_value, is_digit, lemma_digits_nonneg};

verus! {

/// `c` is the lower-case ASCII letter `l` or its capital.
pub open spec fn letter_is(c: char, l: char) -> bool {
    c == l || (c as u32) + 32 == (l as u32)
}

/// `b` spells the lower-case ASCII word `w`, each letter in either case.
pub open spec fn word_is(b: Seq<char>, w: Seq<char>) -> bool {
    &&& b.len() == w.len()
    &&& forall|k: int| 0 <= k < b.len() ==> letter_is(#[trigger] b[k], w[k])
}

/// Digits with at most one `.` among them, and at least one digit.
pub open spec fn is_mantissa(m: Seq<char>) -> bool {
    &&& forall|k: int| 0 <= k < m.len() ==> is_digit(#[trigger] m[k]) || m[k] == '.'
    &&& forall|j: int, k: int| 0 <= j < k < m.len() && #[trigger] m[j] == '.' ==> #[trigger] m[k] != '.'
    &&& exists|k: int| 0 <= k < m.len() && is_digit(#[trigger] m[k])
}

/// What follows the `e` of an exponent and its optional sign.
pub open spec fn exponent_digits(x: Seq<char>) -> Seq<char> {
    if x.len() > 1 && (x[1] == '+' || x[1] == '-') {
        x.subrange(2, x.len() as int)
    } else {
        x.subrange(1, x.len() as int)
    }
}

/// Empty, or `e` in either case, an optional sign and one or more digits.
pub open spec fn is_exponent(x: Seq<char>) -> bool {
    x.len() == 0 || (letter_is(x[0], 'e') && exponent_digits(x).len() > 0 && all_digits(exponent_digits(x)))
}

/// `c` is a digit other than `0`.
pub open spec fn is_nonzero_digit(c: char) -> bool {
    is_digit(c) && c != '0'
}

/// `m` has a digit other than `0`.
pub open spec fn has_nonzero_digit(m: Seq<char>) -> bool {
    exists|k: int| 0 <= k < m.len() && is_nonzero_digit(#[trigger] m[k])
}

/// Index of the `.` of the mantissa `m`, or its length when it has none.
pub open spec fn point(m: Seq<char>) -> int {
    if exists|q: int| 0 <= q < m.len() && #[trigger] m[q] == '.' {
        choose|q: int| 0 <= q < m.len() && #[trigger] m[q] == '.'
    } else {
        m.len() as int
    }
}

/// Index of the first digit of `m` other than `0`.
pub open spec fn lead(m: Seq<char>) -> int {
    choose|f: int|
        0 <= f < m.len() && is_nonzero_digit(m[f]) && forall|j: int| 0 <= j < f ==> !is_nonzero_digit(#[trigger] m[j])
}

/// `u` without its `.`.
pub open spec fn no_dots(u: Seq<char>) -> Seq<char>
    decreases u.len(),
{
    if u.len() == 0 {
        u
    } else if u.last() == '.' {
        no_dots(u.drop_last())
    } else {
        no_dots(u.drop_last()).push(u.last())
    }
}

/// The significant digits of `m`: from its first digit other than `0` on,
/// without the `.`.
pub open spec fn significant(m: Seq<char>) -> Seq<char> {
    no_dots(m.subrange(lead(m), m.len() as int))
}

/// The power of ten that puts the point before the significant digits:
/// `m` is the number `0.d₁d₂… × 10^scale(m)`, with `d` its significant digits.
pub open spec fn scale(m: Seq<char>) -> int {
    if lead(m) < point(m) { point(m) - lead(m) } else { point(m) - lead(m) + 1 }
}

/// The value of an exponent (0 when it is empty).
pub open spec fn exponent_value(x: Seq<char>) -> int {
    if x.len() == 0 {
        0
    } else if x.len() > 1 && x[1] == '-' {
        -digits_value(exponent_digits(x))
    } else {
        digits_value(exponent_digits(x))
    }
}

/// The digits of 5^150: 2^-150 is the number `0.700649… × 10^-45` they make.
pub open spec fn tiny_digits() -> Seq<char> {
    seq![
        '7', '0', '0', '6', '4', '9', '2', '3', '2', '1', '6', '2', '4', '0', '8',
        '5', '3', '5', '4', '6', '1', '8', '6', '4', '7', '9', '1', '6', '4', '4',
        '9', '5', '8', '0', '6', '5', '6', '4', '0', '1', '3', '0', '9', '7', '0',
        '9', '3', '8', '2', '5', '7', '8', '8', '5', '8', '7', '8', '5', '3', '4',
        '1', '4', '1', '9', '4', '4', '8', '9', '5', '5', '4', '1', '3', '4', '2',
        '9', '3', '0', '3', '0', '0', '7', '4', '3', '3', '1', '9', '0', '9', '4',
        '1', '8', '1', '0', '6', '0', '7', '9', '1', '0', '1', '5', '6', '2', '5',
    ]
}

/// Digit `i` of the decimal fraction `0.s`: `0` past the end of `s`.
pub open spec fn frac_digit(s: Seq<char>, i: int) -> char {
    if 0 <= i < s.len() { s[i] } else { '0' }
}

/// The decimal fraction `0.s` is greater than `0.u`: at the first digit
/// where they differ, that of `s` is the greater.
pub open spec fn fraction_gt(s: Seq<char>, u: Seq<char>) -> bool {
    exists|i: int|
        0 <= i && (forall|j: int| 0 <= j < i ==> #[trigger] frac_digit(s, j) == frac_digit(u, j))
            && (#[trigger] frac_digit(s, i) as u32) > (frac_digit(u, i) as u32)
}

/// The mantissa `m` (with a digit other than `0`) and the exponent value
/// `x` make a number above 2^-150, the greatest that `f32` rounds to zero
/// (half-way to its least subnormal, 2^-149, ties going to the even zero):
/// `0.d × 10^(scale + x)` against `0.tiny_digits × 10^-45`.
pub open spec fn above_tiny(m: Seq<char>, x: int) -> bool {
    let p = scale(m) + x;
    p > -45 || (p == -45 && fraction_gt(significant(m), tiny_digits()))
}

/// `b` is a mantissa up to `k` and an exponent from `k` on.
pub open spec fn decimal_at(b: Seq<char>, k: int) -> bool {
    &&& 0 <= k <= b.len()
    &&& is_mantissa(b.subrange(0, k))
    &&& is_exponent(b.subrange(k, b.len() as int))
}

/// `b` is an unsigned decimal literal whose value `f32` does not round to
/// zero.
pub open spec fn decimal_above_zero(b: Seq<char>) -> bool {
    exists|k: int|
        decimal_at(b, k) && has_nonzero_digit(#[trigger] b.subrange(0, k))
            && above_tiny(b.subrange(0, k), exponent_value(b.subrange(k, b.len() as int)))
}

/// Length of the sign that opens `t`: `+` or `-`.
pub open spec fn sign_len(t: Seq<char>) -> int {
    if t.len() > 0 && (t[0] == '+' || t[0] == '-') { 1 } else { 0 }
}

/// `f32::from_str` reads `t` as a value that does not compare `<= 0`: an
/// optional sign, then (ASCII case ignored) `nan` with either sign, `inf` or
/// `infinity` without `-`, or a decimal literal without `-` whose value is
/// not rounded to zero.
pub open spec fn reads_above_zero(t: Seq<char>) -> bool {
    let neg = t.len() > 0 && t[0] == '-';
    let b = t.subrange(sign_len(t), t.len() as int);
    ||| word_is(b, seq!['n', 'a', 'n'])
    ||| !neg && word_is(b, seq!['i', 'n', 'f'])
    ||| !neg && word_is(b, seq!['i', 'n', 'f', 'i', 'n', 'i', 't', 'y'])
    ||| !neg && decimal_above_zero(b)
}

fn letter_check(c: char, l: char) -> (r: bool)
    ensures
        r == letter_is(c, l),
{
    c == l || (c as u32) + 32 == (l as u32)
}

/// Whether `b` spells the word whose letters are `w`.
fn word_check(b: &str, w: &[char]) -> (r: bool)
    ensures
        r == word_is(b@, w@),
{
    let n = b.unicode_len();
    if n != w.len() {
        return false;
    }
    let mut i: usize = 0;
    while i < n
        invariant
            n == b@.len(),
            n == w@.len(),
            i <= n,
            forall|k: int| 0 <= k < i ==> letter_is(#[trigger] b@[k], w@[k]),
        decreases n - i,
    {
        if !letter_check(b.get_char(i), w[i]) {
            return false;
        }
        i = i + 1;
    }
    true
}

fn digit_check(c: char) -> (r: bool)
    ensures
        r == is_digit(c),
{
    (c as u32) >= 48 && (c as u32) <= 57
}

/// Whether `b[from..]` is an exponent.
fn exponent_check(b: &str, from: usize) -> (r: bool)
    requires
        from <= b@.len(),
    ensures
        r == is_exponent(b@.subrange(from as int, b@.len() as int)),
{
    let n = b.unicode_len();
    let ghost x = b@.subrange(from as int, n as int);
    if from == n {
        return true;
    }
    if !letter_check(b.get_char(from), 'e') {
        return false;
    }
    let mut i: usize = from + 1;
    if i < n {
        let c = b.get_char(i);
        if c == '+' || c == '-' {
            i = i + 1;
        }
    }
    let ghost d = b@.subrange(i as int, n as int);
    proof {
        assert(x[0] == b@[from as int]);
        if x.len() > 1 {
            assert(x[1] == b@[from + 1]);
        }
        if x.len() > 1 && (x[1] == '+' || x[1] == '-') {
            assert(d =~= x.subrange(2, x.len() as int));
        } else {
            assert(d =~= x.subrange(1, x.len() as int));
        }
    }
    if i == n {
        return false;
    }
    let start = i;
    while i < n
        invariant
            start <= i <= n,
            n == b@.len(),
            d == b@.subrange(start as int, n as int),
            x == b@.subrange(from as int, n as int),
            x.len() > 0,
            letter_is(x[0], 'e'),
            d == exponent_digits(x),
            forall|k: int| 0 <= k < i - start ==> is_digit(#[trigger] d[k]),
        decreases n - i,
    {
        if !digit_check(b.get_char(i)) {
            assert(!is_digit(d[i - start]));
            return false;
        }
        i = i + 1;
    }
    true
}

/// Bound on exponent values: past it, whatever the length of the text, the
/// value is far outside the range where `f32` rounds to zero or not.
pub const EXPONENT_CAP: i128 = 36893488147419103232;

/// `v` held within `EXPONENT_CAP` either way.
pub open spec fn capped(v: int) -> int {
    if v > EXPONENT_CAP { EXPONENT_CAP as int } else if v < -EXPONENT_CAP { -EXPONENT_CAP } else { v }
}

/// The value of the exponent `b[from..]`, held within `EXPONENT_CAP`.
fn exponent_capped(b: &str, from: usize) -> (r: i128)
    requires
        from <= b@.len(),
        is_exponent(b@.subrange(from as int, b@.len() as int)),
    ensures
        r == capped(exponent_value(b@.subrange(from as int, b@.len() as int))),
{
    let n = b.unicode_len();
    let ghost x = b@.subrange(from as int, n as int);
    if from == n {
        return 0;
    }
    let mut i: usize = from + 1;
    let mut neg = false;
    if i < n {
        let c = b.get_char(i);
        if c == '+' || c == '-' {
            neg = c == '-';
            i = i + 1;
        }
    }
    let ghost d = b@.subrange(i as int, n as int);
    proof {
        if x.len() > 1 {
            assert(x[1] == b@[from + 1]);
        }
        if x.len() > 1 && (x[1] == '+' || x[1] == '-') {
            assert(d =~= x.subrange(2, x.len() as int));
        } else {
            assert(d =~= x.subrange(1, x.len() as int));
        }
    }
    let start = i;
    let mut val: u128 = 0;
    while i < n
        invariant
            start <= i <= n,
            n == b@.len(),
            d == b@.subrange(start as int, n as int),
            all_digits(d),
            val as int == (if digits_value(d.take(i - start)) > EXPONENT_CAP {
                EXPONENT_CAP as int
            } else {
                digits_value(d.take(i - start))
            }),
        decreases n - i,
    {
        let c = b.get_char(i);
        let ghost j = i - start;
        proof {
            assert(d[j] == c);
            assert(d.take(j + 1).drop_last() =~= d.take(j));
            assert(is_digit(d[j]));
            lemma_digits_nonneg(d.take(j));
        }
        if val < EXPONENT_CAP as u128 {
            let v = val * 10 + (c as u32 - 48) as u128;
            val = if v > EXPONENT_CAP as u128 { EXPONENT_CAP as u128 } else { v };
        }
        i = i + 1;
    }
    proof {
        assert(d.take(n - start) =~= d);
        lemma_digits_nonneg(d);
    }
    if neg {
        -(val as i128)
    } else {
        val as i128
    }
}

/// The digits of `b[from..to]`, without its `.`.
fn digits_without_dot(b: &str, from: usize, to: usize) -> (r: Vec<char>)
    requires
        from <= to <= b@.len(),
    ensures
        r@ == no_dots(b@.subrange(from as int, to as int)),
{
    let mut r: Vec<char> = Vec::new();
    let mut i: usize = from;
    while i < to
        invariant
            from <= i <= to <= b@.len(),
            r@ == no_dots(b@.subrange(from as int, i as int)),
        decreases to - i,
    {
        let c = b.get_char(i);
        proof {
            let u = b@.subrange(from as int, i + 1);
            assert(u.drop_last() =~= b@.subrange(from as int, i as int));
            assert(u.last() == c);
        }
        if c != '.' {
            r.push(c);
        }
        i = i + 1;
    }
    r
}

/// Whether the decimal fraction `0.s` is greater than `0.tiny_digits`.
fn above_tiny_digits(s: &Vec<char>) -> (r: bool)
    ensures
        r == fraction_gt(s@, tiny_digits()),
{
    let t: [char; 105] = [
        '7', '0', '0', '6', '4', '9', '2', '3', '2', '1', '6', '2', '4', '0', '8',
        '5', '3', '5', '4', '6', '1', '8', '6', '4', '7', '9', '1', '6', '4', '4',
        '9', '5', '8', '0', '6', '5', '6', '4', '0', '1', '3', '0', '9', '7', '0',
        '9', '3', '8', '2', '5', '7', '8', '8', '5', '8', '7', '8', '5', '3', '4',
        '1', '4', '1', '9', '4', '4', '8', '9', '5', '5', '4', '1', '3', '4', '2',
        '9', '3', '0', '3', '0', '0', '7', '4', '3', '3', '1', '9', '0', '9', '4',
        '1', '8', '1', '0', '6', '0', '7', '9', '1', '0', '1', '5', '6', '2', '5',
    ];
    assert(t@ =~= tiny_digits());
    let len = if s.len() > 105 { s.len() } else { 105 };
    let mut j: usize = 0;
    while j < len
        invariant
            t@ == tiny_digits(),
            len >= s@.len(),
            len >= 105,
            j <= len,
            forall|q: int| 0 <= q < j ==> #[trigger] frac_digit(s@, q) == frac_digit(tiny_digits(), q),
        decreases len - j,
    {
        let a = if j < s.len() { s[j] } else { '0' };
        let z = if j < 105 { t[j] } else { '0' };
        assert(a == frac_digit(s@, j as int));
        assert(z == frac_digit(tiny_digits(), j as int));
        if a != z {
            proof {
                if (a as u32) < (z as u32) {
                    assert forall|i: int|
                        !(0 <= i && (forall|q: int| 0 <= q < i ==> #[trigger] frac_digit(s@, q) == frac_digit(tiny_digits(), q))
                            && (#[trigger] frac_digit(s@, i) as u32) > (frac_digit(tiny_digits(), i) as u32)) by {
                        if 0 <= i && (forall|q: int| 0 <= q < i ==> #[trigger] frac_digit(s@, q) == frac_digit(tiny_digits(), q)) {
                            if i > j {
                                assert(frac_digit(s@, j as int) == frac_digit(tiny_digits(), j as int));
                            }
                        }
                    }
                }
            }
            return (a as u32) > (z as u32);
        }
        j = j + 1;
    }
    proof {
        assert forall|i: int|
            !(0 <= i && (forall|q: int| 0 <= q < i ==> #[trigger] frac_digit(s@, q) == frac_digit(tiny_digits(), q))
                && (#[trigger] frac_digit(s@, i) as u32) > (frac_digit(tiny_digits(), i) as u32)) by {
            if i >= len as int {
                assert(frac_digit(s@, i) == '0');
                assert(frac_digit(tiny_digits(), i) == '0');
            } else if 0 <= i {
                assert(frac_digit(s@, i) == frac_digit(tiny_digits(), i));
            }
        }
    }
    false
}

/// Whether `b` is a decimal literal whose value `f32` does not round to zero.
fn decimal_check(b: &str) -> (r: bool)
    ensures
        r == decimal_above_zero(b@),
{
    let n = b.unicode_len();
    let ghost t = b@;
    let mut i: usize = 0;
    let mut dot = false;
    let mut q: usize = 0;
    let mut digit = false;
    let mut nonzero = false;
    let mut f: usize = 0;
    while i < n && (digit_check(b.get_char(i)) || b.get_char(i) == '.')
        invariant
            t == b@,
            n == t.len(),
            i <= n,
            forall|k: int| 0 <= k < i ==> is_digit(#[trigger] t[k]) || t[k] == '.',
            forall|j: int, k: int| 0 <= j < k < i && #[trigger] t[j] == '.' ==> #[trigger] t[k] != '.',
            dot ==> q < i && t[q as int] == '.',
            !dot ==> forall|k: int| 0 <= k < i ==> #[trigger] t[k] != '.',
            digit == exists|k: int| 0 <= k < i && is_digit(#[trigger] t[k]),
            nonzero ==> f < i && is_nonzero_digit(t[f as int]),
            nonzero ==> forall|k: int| 0 <= k < f ==> !is_nonzero_digit(#[trigger] t[k]),
            !nonzero ==> forall|k: int| 0 <= k < i ==> !is_nonzero_digit(#[trigger] t[k]),
        decreases n - i,
    {
        let c = b.get_char(i);
        if c == '.' {
            if dot {
                proof {
                    assert forall|k: int|
                        !(decimal_at(t, k) && has_nonzero_digit(#[trigger] t.subrange(0, k))) by {
                        if decimal_at(t, k) {
                            let m = t.subrange(0, k);
                            if k > i {
                                assert(m[q as int] == '.' && m[i as int] == '.');
                            } else {
                                let x = t.subrange(k, n as int);
                                assert(x[0] == t[k]);
                                assert(is_digit(t[k]) || t[k] == '.');
                            }
                        }
                    }
                }
                return false;
            }
            dot = true;
            q = i;
        } else if c != '0' {
            if !nonzero {
                f = i;
            }
            nonzero = true;
            digit = true;
        } else {
            digit = true;
        }
        i = i + 1;
    }
    let ok = exponent_check(b, i);
    let ghost m = t.subrange(0, i as int);
    proof {
        assert forall|k: int| 0 <= k < m.len() implies is_digit(#[trigger] m[k]) || m[k] == '.' by {
            assert(m[k] == t[k]);
        }
        assert forall|j: int, k: int| 0 <= j < k < m.len() && #[trigger] m[j] == '.' implies #[trigger] m[k] != '.' by {
            assert(m[j] == t[j] && m[k] == t[k]);
        }
        if digit {
            let w = choose|k: int| 0 <= k < i && is_digit(#[trigger] t[k]);
            assert(m[w] == t[w]);
        }
        if nonzero {
            assert(m[f as int] == t[f as int]);
        }
        assert forall|k: int| decimal_at(t, k) && has_nonzero_digit(#[trigger] t.subrange(0, k)) implies k == i by {
            let mk = t.subrange(0, k);
            if k > i {
                assert(mk[i as int] == t[i as int]);
            } else if k < i {
                let x = t.subrange(k, n as int);
                assert(x[0] == t[k]);
            }
        }
        if has_nonzero_digit(m) && !nonzero {
            let w = choose|p: int| 0 <= p < m.len() && is_nonzero_digit(#[trigger] m[p]);
            assert(m[w] == t[w]);
        }
    }
    if !(ok && nonzero) {
        return false;
    }
    proof {
        assert(decimal_at(t, i as int));
        assert(has_nonzero_digit(m));
        // The point of `m`.
        if dot {
            assert(m[q as int] == '.');
            let p = choose|p: int| 0 <= p < m.len() && #[trigger] m[p] == '.';
            assert(m[p] == t[p]);
            if p < q {
                assert(t[p] == '.');
            } else if p > q {
                assert(t[q as int] == '.');
            }
            assert(point(m) == q);
        } else {
            assert forall|p: int| !(0 <= p < m.len() && #[trigger] m[p] == '.') by {
                if 0 <= p < m.len() {
                    assert(m[p] == t[p]);
                }
            }
            assert(point(m) == m.len());
        }
        // The first nonzero digit of `m`.
        assert(is_nonzero_digit(m[f as int]));
        assert forall|j: int| 0 <= j < f implies !is_nonzero_digit(#[trigger] m[j]) by {
            assert(m[j] == t[j]);
        }
        let g = lead(m);
        assert(0 <= g < m.len() && is_nonzero_digit(m[g]) && forall|j: int| 0 <= j < g ==> !is_nonzero_digit(#[trigger] m[j]));
        if g < f {
            assert(m[g] == t[g]);
        } else if g > f {
            assert(!is_nonzero_digit(m[f as int]));
        }
        assert(lead(m) == f);
        assert(m.subrange(f as int, m.len() as int) =~= t.subrange(f as int, i as int));
    }
    let qq: usize = if dot { q } else { i };
    let x = exponent_capped(b, i);
    let sc: i128 = if f < qq { (qq - f) as i128 } else { qq as i128 - f as i128 + 1 };
    let p: i128 = sc + x;
    proof {
        let xv = exponent_value(t.subrange(i as int, n as int));
        assert(sc == scale(m));
        assert(-(n as int) <= sc <= n as int);
        if xv > EXPONENT_CAP {
            assert(sc + xv > -45);
        } else if xv < -EXPONENT_CAP {
            assert(sc + xv < -45);
        }
    }
    if p > -45 {
        return true;
    }
    if p < -45 {
        return false;
    }
    let s = digits_without_dot(b, f, i);
    above_tiny_digits(&s)
}

/// Whether `f32::from_str` reads `s` as a value that does not compare `<= 0`.
pub fn reads_above_zero_check(s: &str) -> (r: bool)
    ensures
        r == reads_above_zero(s@),
{
    let n = s.unicode_len();
    let mut start: usize = 0;
    let mut neg = false;
    if n > 0 {
        let c = s.get_char(0);
        if c == '+' || c == '-' {
            start = 1;
            neg = c == '-';
        }
    }
    let b = s.substring_char(start, n);
    if word_check(b, &['n', 'a', 'n']) {
        return true;
    }
    if neg {
        return false;
    }
    word_check(b, &['i', 'n', 'f']) || word_check(b, &['i', 'n', 'f', 'i', 'n', 'i', 't', 'y'])
        || decimal_check(b)
}

} // verus!
