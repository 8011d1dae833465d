//! Small string facilities the readers need: exact comparison, whitespace
//! trimming and decimal integer parsing, each stated as a spec function and
//! proved. Their behaviour is that of `str::eq`, `str::trim` and `FromStr`
//! on the integer types.

use vstd::prelude::*;
use vstd::string::{StrSliceExecFns, StringExecFns};

verus! {

/// `c` is a Unicode `White_Space` character (what `char::is_whitespace` and
/// `str::trim` use).
pub open spec fn is_ws(c: char) -> bool {
    let u = c as u32;
    ||| 9 <= u <= 13
    ||| u == 32
    ||| u == 0x85
    ||| u == 0xA0
    ||| u == 0x1680
    ||| 0x2000 <= u <= 0x200A
    ||| u == 0x2028
    ||| u == 0x2029
    ||| u == 0x202F
    ||| u == 0x205F
    ||| u == 0x3000
}

/// `s` without its leading whitespace.
pub open spec fn trim_start(s: Seq<char>) -> Seq<char>
    decreases s.len(),
{
    if s.len() > 0 && is_ws(s[0]) { trim_start(s.drop_first()) } else { s }
}

/// `s` without its trailing whitespace.
pub open spec fn trim_end(s: Seq<char>) -> Seq<char>
    decreases s.len(),
{
    if s.len() > 0 && is_ws(s.last()) { trim_end(s.drop_last()) } else { s }
}

/// `s` without leading and trailing whitespace.
pub open spec fn spec_trim(s: Seq<char>) -> Seq<char> {
    trim_end(trim_start(s))
}

pub fn is_whitespace(c: char) -> (b: bool)
    ensures
        b == is_ws(c),
{
    let u = c as u32;
    (9 <= u && u <= 13) || u == 32 || u == 0x85 || u == 0xA0 || u == 0x1680 || (0x2000 <= u && u
        <= 0x200A) || u == 0x2028 || u == 0x2029 || u == 0x202F || u == 0x205F || u == 0x3000
}

/// Exact equality of two strings.
pub fn str_eq(a: &str, b: &str) -> (r: bool)
    ensures
        r == (a@ == b@),
{
    let sa = String::from_str(a);
    let sb = String::from_str(b);
    sa == sb
}

proof fn lemma_trim_start_skip(s: Seq<char>, i: int)
    requires
        0 <= i <= s.len(),
        forall|k: int| 0 <= k < i ==> is_ws(#[trigger] s[k]),
    ensures
        trim_start(s) == trim_start(s.subrange(i, s.len() as int)),
    decreases i,
{
    if i > 0 {
        lemma_trim_start_skip(s.drop_first(), i - 1);
        assert(s.drop_first().subrange(i - 1, s.drop_first().len() as int) =~= s.subrange(i, s.len() as int));
    } else {
        assert(s.subrange(0, s.len() as int) =~= s);
    }
}

proof fn lemma_trim_end_cut(s: Seq<char>, j: int)
    requires
        0 <= j <= s.len(),
        forall|k: int| j <= k < s.len() ==> is_ws(#[trigger] s[k]),
    ensures
        trim_end(s) == trim_end(s.subrange(0, j)),
    decreases s.len() - j,
{
    if j < s.len() {
        assert(s.drop_last().subrange(0, j) =~= s.subrange(0, j));
        assert(is_ws(s[s.len() - 1]));
        lemma_trim_end_cut(s.drop_last(), j);
    } else {
        assert(s.subrange(0, s.len() as int) =~= s);
    }
}

proof fn lemma_trim_start_len(s: Seq<char>)
    ensures
        trim_start(s).len() <= s.len(),
    decreases s.len(),
{
    if s.len() > 0 && is_ws(s[0]) {
        lemma_trim_start_len(s.drop_first());
    }
}

proof fn lemma_trim_end_len(s: Seq<char>)
    ensures
        trim_end(s).len() <= s.len(),
    decreases s.len(),
{
    if s.len() > 0 && is_ws(s.last()) {
        lemma_trim_end_len(s.drop_last());
    }
}

/// Trimming never lengthens a string.
pub proof fn lemma_trim_len(s: Seq<char>)
    ensures
        spec_trim(s).len() <= s.len(),
{
    lemma_trim_start_len(s);
    lemma_trim_end_len(trim_start(s));
}

/// `s.trim()` as an owned string.
pub fn trim(s: &str) -> (r: String)
    ensures
        r@ == spec_trim(s@),
{
    let n = s.unicode_len();
    let mut i: usize = 0;
    while i < n && is_whitespace(s.get_char(i))
        invariant
            i <= n,
            n == s@.len(),
            forall|k: int| 0 <= k < i ==> is_ws(#[trigger] s@[k]),
        decreases n - i,
    {
        i = i + 1;
    }
    let mut j: usize = n;
    while j > i && is_whitespace(s.get_char(j - 1))
        invariant
            i <= j <= n,
            n == s@.len(),
            forall|k: int| j <= k < n ==> is_ws(#[trigger] s@[k]),
        decreases j,
    {
        j = j - 1;
    }
    let sub = s.substring_char(i, j);
    proof {
        let t = s@.subrange(i as int, n as int);
        lemma_trim_start_skip(s@, i as int);
        assert(i == n || !is_ws(t[0]));
        assert(trim_start(t) == t);
        assert forall|k: int| j - i <= k < t.len() implies is_ws(#[trigger] t[k]) by {
            assert(t[k] == s@[i + k]);
        }
        lemma_trim_end_cut(t, j - i);
        let u = t.subrange(0, j - i);
        assert(u =~= s@.subrange(i as int, j as int));
        assert(u.len() == 0 || !is_ws(u.last())) by {
            if u.len() > 0 {
                assert(u.last() == s@[j - 1]);
            }
        }
        assert(trim_end(u) == u);
    }
    String::from_str(sub)
}

/// `c` is an ASCII decimal digit.
pub open spec fn is_digit(c: char) -> bool {
    48 <= (c as u32) <= 57
}

pub open spec fn all_digits(s: Seq<char>) -> bool {
    forall|k: int| 0 <= k < s.len() ==> is_digit(#[trigger] s[k])
}

/// Decimal value of a string of digits.
pub open spec fn digits_value(s: Seq<char>) -> int
    decreases s.len(),
{
    if s.len() == 0 { 0 } else { digits_value(s.drop_last()) * 10 + ((s.last() as u32) - 48) }
}

/// What `FromStr` gives for an unsigned integer type before its range check:
/// an optional `+`, then one or more ASCII digits, nothing else.
pub open spec fn spec_parse_nat(s: Seq<char>) -> Option<int> {
    let d = if s.len() > 0 && s[0] == '+' { s.drop_first() } else { s };
    if d.len() > 0 && all_digits(d) { Some(digits_value(d)) } else { None }
}

/// What `FromStr` gives for a signed integer type before its range check:
/// an optional `+` or `-`, then one or more ASCII digits.
pub open spec fn spec_parse_int(s: Seq<char>) -> Option<int> {
    if s.len() > 0 && s[0] == '-' {
        let d = s.drop_first();
        if d.len() > 0 && all_digits(d) { Some(-digits_value(d)) } else { None }
    } else {
        spec_parse_nat(s)
    }
}

/// `s.parse::<u8>().ok()`.
pub open spec fn spec_parse_u8(s: Seq<char>) -> Option<u8> {
    match spec_parse_nat(s) {
        Some(v) => if v <= u8::MAX { Some(v as u8) } else { None },
        None => None,
    }
}

/// `s.parse::<u16>().ok()`.
pub open spec fn spec_parse_u16(s: Seq<char>) -> Option<u16> {
    match spec_parse_nat(s) {
        Some(v) => if v <= u16::MAX { Some(v as u16) } else { None },
        None => None,
    }
}

/// `s.parse::<u32>().ok()`.
pub open spec fn spec_parse_u32(s: Seq<char>) -> Option<u32> {
    match spec_parse_nat(s) {
        Some(v) => if v <= u32::MAX { Some(v as u32) } else { None },
        None => None,
    }
}

/// `s.parse::<i8>().ok()`.
pub open spec fn spec_parse_i8(s: Seq<char>) -> Option<i8> {
    match spec_parse_int(s) {
        Some(v) => if i8::MIN <= v <= i8::MAX { Some(v as i8) } else { None },
        None => None,
    }
}

/// `s.parse::<i32>().ok()`.
pub open spec fn spec_parse_i32(s: Seq<char>) -> Option<i32> {
    match spec_parse_int(s) {
        Some(v) => if i32::MIN <= v <= i32::MAX { Some(v as i32) } else { None },
        None => None,
    }
}

pub proof fn lemma_digits_nonneg(s: Seq<char>)
    requires
        all_digits(s),
    ensures
        digits_value(s) >= 0,
    decreases s.len(),
{
    if s.len() > 0 {
        lemma_digits_nonneg(s.drop_last());
    }
}

proof fn lemma_digits_grow(s: Seq<char>, k: int)
    requires
        all_digits(s),
        0 <= k <= s.len(),
    ensures
        digits_value(s.take(k)) <= digits_value(s),
    decreases s.len() - k,
{
    if k < s.len() {
        lemma_digits_grow(s, k + 1);
        let t = s.take(k + 1);
        assert(t.drop_last() =~= s.take(k));
        lemma_digits_nonneg(s.take(k));
        assert(all_digits(s.take(k + 1)));
    } else {
        assert(s.take(k) =~= s);
    }
}

/// Reads the digits `s[from..]` as a number no larger than `max`; `None`
/// when a character is not a digit, the digits are empty, or the value
/// exceeds `max`.
fn parse_digits(s: &str, from: usize, max: u64) -> (r: Option<u64>)
    requires
        from <= s@.len(),
        max <= u32::MAX,
    ensures
        ({
            let d = s@.subrange(from as int, s@.len() as int);
            r == (if d.len() > 0 && all_digits(d) && digits_value(d) <= max {
                Some(digits_value(d) as u64)
            } else {
                None::<u64>
            })
        }),
{
    let n = s.unicode_len();
    let ghost d = s@.subrange(from as int, n as int);
    if from >= n {
        return None;
    }
    let mut val: u64 = 0;
    let mut i: usize = from;
    while i < n
        invariant
            from <= i <= n,
            n == s@.len(),
            d == s@.subrange(from as int, n as int),
            max <= u32::MAX,
            all_digits(d.take(i - from)),
            val as int == digits_value(d.take(i - from)),
            val <= max,
        decreases n - i,
    {
        let c = s.get_char(i);
        proof {
            assert(d[i - from] == c);
            assert(d.take(i - from + 1).drop_last() =~= d.take(i - from));
        }
        if !((c as u32) >= 48 && (c as u32) <= 57) {
            return None;
        }
        let digit = (c as u32 - 48) as u64;
        val = val * 10 + digit;
        assert(all_digits(d.take(i - from + 1)));
        if val > max {
            proof {
                if all_digits(d) {
                    lemma_digits_grow(d, i + 1 - from);
                }
            }
            return None;
        }
        i = i + 1;
    }
    proof {
        assert(d.take(n - from) =~= d);
    }
    Some(val)
}

/// Unsigned parse: an optional `+` and digits, with value at most `max`.
fn parse_unsigned(s: &str, max: u64) -> (r: Option<u64>)
    requires
        max <= u32::MAX,
    ensures
        r == (match spec_parse_nat(s@) {
            Some(v) => if v <= max { Some(v as u64) } else { None::<u64> },
            None => None::<u64>,
        }),
        spec_parse_nat(s@) matches Some(v) ==> v >= 0,
        r matches Some(x) ==> x <= max,
{
    let n = s.unicode_len();
    if n > 0 && s.get_char(0) == '+' {
        let r = parse_digits(s, 1, max);
        proof {
            assert(s@.subrange(1, s@.len() as int) =~= s@.drop_first());
            let d = s@.drop_first();
            if d.len() > 0 && all_digits(d) {
                lemma_digits_nonneg(d);
            }
        }
        r
    } else {
        let r = parse_digits(s, 0, max);
        proof {
            assert(s@.subrange(0, s@.len() as int) =~= s@);
            if s@.len() > 0 && all_digits(s@) {
                lemma_digits_nonneg(s@);
            }
        }
        r
    }
}

/// `s.parse::<u8>().ok()`.
pub fn parse_u8(s: &str) -> (r: Option<u8>)
    ensures
        r == spec_parse_u8(s@),
{
    match parse_unsigned(s, 255) {
        Some(v) => Some(v as u8),
        None => None,
    }
}

/// `s.parse::<u16>().ok()`.
pub fn parse_u16(s: &str) -> (r: Option<u16>)
    ensures
        r == spec_parse_u16(s@),
{
    match parse_unsigned(s, 65535) {
        Some(v) => Some(v as u16),
        None => None,
    }
}

/// `s.parse::<u32>().ok()`.
pub fn parse_u32(s: &str) -> (r: Option<u32>)
    ensures
        r == spec_parse_u32(s@),
{
    match parse_unsigned(s, 4294967295) {
        Some(v) => Some(v as u32),
        None => None,
    }
}

/// Signed parse with value in `[-neg_max, pos_max]`.
fn parse_signed(s: &str, neg_max: u64, pos_max: u64) -> (r: Option<i64>)
    requires
        neg_max <= u32::MAX,
        pos_max <= u32::MAX,
    ensures
        r == (match spec_parse_int(s@) {
            Some(v) => if -neg_max <= v <= pos_max { Some(v as i64) } else { None::<i64> },
            None => None::<i64>,
        }),
{
    let n = s.unicode_len();
    if n > 0 && s.get_char(0) == '-' {
        let r = parse_digits(s, 1, neg_max);
        proof {
            assert(s@.subrange(1, s@.len() as int) =~= s@.drop_first());
        }
        proof {
            let d = s@.drop_first();
            if d.len() > 0 && all_digits(d) {
                lemma_digits_nonneg(d);
            }
        }
        match r {
            Some(v) => Some(-(v as i64)),
            None => None,
        }
    } else {
        let r = parse_unsigned(s, pos_max);
        match r {
            Some(v) => Some(v as i64),
            None => None,
        }
    }
}

/// `s.parse::<i8>().ok()`.
pub fn parse_i8(s: &str) -> (r: Option<i8>)
    ensures
        r == spec_parse_i8(s@),
{
    match parse_signed(s, 128, 127) {
        Some(v) => Some(v as i8),
        None => None,
    }
}

/// `s.parse::<i32>().ok()`.
pub fn parse_i32(s: &str) -> (r: Option<i32>)
    ensures
        r == spec_parse_i32(s@),
{
    match parse_signed(s, 2147483648, 2147483647) {
        Some(v) => Some(v as i32),
        None => None,
    }
}


// ── Decimal formatting ───────────────────────────────────────────

/// The ASCII digit for `d` in `0..10`.
pub open spec fn digit_char(d: int) -> char {
    (d + 48) as char
}

/// Decimal digits of `n`, most significant first, without leading zeros.
pub open spec fn nat_digits(n: nat) -> Seq<char>
    decreases n,
{
    if n < 10 {
        seq![digit_char(n as int)]
    } else {
        nat_digits(n / 10).push(digit_char((n % 10) as int))
    }
}

/// What `Display` writes for an integer: a `-` for a negative one, then
/// its decimal digits.
pub open spec fn int_decimal(n: int) -> Seq<char> {
    if n < 0 {
        seq!['-'] + nat_digits((-n) as nat)
    } else {
        nat_digits(n as nat)
    }
}

/// The one-character text of the digit `d`.
pub fn digit_str(d: u64) -> (s: &'static str)
    requires
        d < 10,
    ensures
        s@ == seq![digit_char(d as int)],
{
    proof {
        reveal_strlit("0");
        reveal_strlit("1");
        reveal_strlit("2");
        reveal_strlit("3");
        reveal_strlit("4");
        reveal_strlit("5");
        reveal_strlit("6");
        reveal_strlit("7");
        reveal_strlit("8");
        reveal_strlit("9");
    }
    if d == 0 {
        "0"
    } else if d == 1 {
        "1"
    } else if d == 2 {
        "2"
    } else if d == 3 {
        "3"
    } else if d == 4 {
        "4"
    } else if d == 5 {
        "5"
    } else if d == 6 {
        "6"
    } else if d == 7 {
        "7"
    } else if d == 8 {
        "8"
    } else {
        "9"
    }
}

fn append_digits(s: &mut String, n: u64)
    ensures
        final(s)@ == old(s)@ + nat_digits(n as nat),
    decreases n,
{
    if n >= 10 {
        append_digits(s, n / 10);
    }
    s.append(digit_str(n % 10));
    proof {
        if n < 10 {
            assert(n % 10 == n);
        }
    }
}

/// The decimal text of `n`, as `n.to_string()` writes it.
pub fn decimal(n: i64) -> (s: String)
    requires
        n > i64::MIN,
    ensures
        s@ == int_decimal(n as int),
{
    let mut s = String::new();
    if n < 0 {
        s.append("-");
        proof {
            reveal_strlit("-");
        }
        append_digits(&mut s, (-n) as u64);
    } else {
        append_digits(&mut s, n as u64);
    }
    proof {
        if n >= 0 {
            assert(s@ =~= nat_digits(n as nat));
        }
    }
    s
}

} // verus!
