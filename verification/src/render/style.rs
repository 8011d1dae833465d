//! Colours of the score stylesheets: the default colours and the reading of
//! "#RRGGBB" / "#RRGGBBAA" texts.

use vstd::prelude::*;
use vstd::string::{StrSliceExecFns, StringExecFns};
use crate::text::{spec_trim, trim};

verus! {

pub fn default_bg_light() -> (s: String)
    ensures
        s@ == "#FFFFFF"@,
{
    String::from_str("#FFFFFF")
}

pub fn default_bg_dark() -> (s: String)
    ensures
        s@ == "#262626"@,
{
    String::from_str("#262626")
}

pub fn default_border_light() -> (s: String)
    ensures
        s@ == "#B4B4B4"@,
{
    String::from_str("#B4B4B4")
}

pub fn default_border_dark() -> (s: String)
    ensures
        s@ == "#505050"@,
{
    String::from_str("#505050")
}

pub fn default_true() -> (b: bool)
    ensures
        b,
{
    true
}

pub fn default_shadow_alpha() -> (a: u8)
    ensures
        a == 60,
{
    60
}

pub fn default_title_light() -> (s: String)
    ensures
        s@ == "#000000"@,
{
    String::from_str("#000000")
}

pub fn default_title_dark() -> (s: String)
    ensures
        s@ == "#DCDCDC"@,
{
    String::from_str("#DCDCDC")
}

pub fn default_subtitle_light() -> (s: String)
    ensures
        s@ == "#7C7C7C"@,
{
    String::from_str("#7C7C7C")
}

pub fn default_subtitle_dark() -> (s: String)
    ensures
        s@ == "#B4B4B4"@,
{
    String::from_str("#B4B4B4")
}

pub fn default_staff_light() -> (s: String)
    ensures
        s@ == "#000000"@,
{
    String::from_str("#000000")
}

pub fn default_staff_dark() -> (s: String)
    ensures
        s@ == "#E0E0E0"@,
{
    String::from_str("#E0E0E0")
}

pub fn default_note_light() -> (s: String)
    ensures
        s@ == "#000000"@,
{
    String::from_str("#000000")
}

pub fn default_note_dark() -> (s: String)
    ensures
        s@ == "#E0E0E0"@,
{
    String::from_str("#E0E0E0")
}

pub fn default_clef_light() -> (s: String)
    ensures
        s@ == "#000000"@,
{
    String::from_str("#000000")
}

pub fn default_clef_dark() -> (s: String)
    ensures
        s@ == "#E0E0E0"@,
{
    String::from_str("#E0E0E0")
}

/// The colour text for the current mode.
pub fn resolve<'a>(hex_light: &'a str, hex_dark: &'a str, dark_mode: bool) -> (s: &'a str)
    ensures
        s@ == (if dark_mode { hex_dark@ } else { hex_light@ }),
{
    if dark_mode { hex_dark } else { hex_light }
}

// ── Reading colour texts ─────────────────────────────────────────

/// Bytes of `c` in UTF-8.
pub open spec fn utf8_len(c: char) -> nat {
    if (c as u32) < 0x80 {
        1
    } else if (c as u32) < 0x800 {
        2
    } else if (c as u32) < 0x10000 {
        3
    } else {
        4
    }
}

/// Bytes of `cs` in UTF-8.
pub open spec fn byte_len(cs: Seq<char>) -> nat
    decreases cs.len(),
{
    if cs.len() == 0 { 0 } else { utf8_len(cs[0]) + byte_len(cs.drop_first()) }
}

/// Index of the character that starts at byte `a`, when `a` is a character
/// boundary (the end counts as one).
pub open spec fn index_at_byte(cs: Seq<char>, a: int) -> Option<int>
    decreases cs.len(),
{
    if a == 0 {
        Some(0)
    } else if cs.len() == 0 || a < 0 {
        None
    } else {
        match index_at_byte(cs.drop_first(), a - utf8_len(cs[0])) {
            Some(j) => Some(j + 1),
            None => None,
        }
    }
}

/// The characters of bytes `a..b`, when both are boundaries (`&s[a..b]`).
pub open spec fn byte_slice(cs: Seq<char>, a: int, b: int) -> Option<Seq<char>> {
    match (index_at_byte(cs, a), index_at_byte(cs, b)) {
        (Some(i), Some(j)) => if i <= j { Some(cs.subrange(i, j)) } else { None },
        _ => None,
    }
}

pub open spec fn hex_digit_value(c: char) -> Option<int> {
    let u = c as u32;
    if 48 <= u <= 57 {
        Some(u - 48)
    } else if 65 <= u <= 70 {
        Some(u - 55)
    } else if 97 <= u <= 102 {
        Some(u - 87)
    } else {
        None
    }
}

/// `u8` value of one or more hexadecimal digits.
pub open spec fn digits_u8(d: Seq<char>) -> Option<u8> {
    if d.len() == 0 {
        None
    } else {
        match hex_digits_value(d) {
            Some(v) => if v <= 255 { Some(v as u8) } else { None },
            None => None,
        }
    }
}

/// Value of a string of hexadecimal digits.
pub open spec fn hex_digits_value(d: Seq<char>) -> Option<int>
    decreases d.len(),
{
    if d.len() == 0 {
        Some(0)
    } else {
        match (hex_digits_value(d.drop_last()), hex_digit_value(d.last())) {
            (Some(v), Some(x)) => Some(v * 16 + x),
            _ => None,
        }
    }
}

/// `u8::from_str_radix(s, 16).ok()`: an optional `+`, then one or more
/// hexadecimal digits, the value at most 255.
pub open spec fn spec_hex_u8(s: Seq<char>) -> Option<u8> {
    let d = if s.len() > 0 && s[0] == '+' { s.drop_first() } else { s };
    if d.len() == 0 {
        None
    } else {
        match hex_digits_value(d) {
            Some(v) => if v <= 255 { Some(v as u8) } else { None },
            None => None,
        }
    }
}

/// `t` is a colour text: `#` followed by six (RRGGBB) or eight (RRGGBBAA)
/// hexadecimal digits.
pub open spec fn is_hex_colour(t: Seq<char>) -> bool {
    &&& (t.len() == 7 || t.len() == 9)
    &&& t[0] == '#'
    &&& forall|k: int| 1 <= k < t.len() ==> (#[trigger] hex_digit_value(t[k])) is Some
}

/// The byte written by the two hexadecimal digits at `i` and `i + 1`.
pub open spec fn hex_pair(t: Seq<char>, i: int) -> u8 {
    (hex_digit_value(t[i])->Some_0 * 16 + hex_digit_value(t[i + 1])->Some_0) as u8
}

/// The colour (red, green, blue, alpha) of "#RRGGBB" or "#RRGGBBAA", once
/// trimmed (alpha 255 for the short form); opaque black for any other text.
pub open spec fn spec_parse_hex(s: Seq<char>) -> (u8, u8, u8, u8) {
    let t = spec_trim(s);
    if is_hex_colour(t) {
        (hex_pair(t, 1), hex_pair(t, 3), hex_pair(t, 5), if t.len() == 9 { hex_pair(t, 7) } else { 255 })
    } else {
        (0, 0, 0, 255)
    }
}

fn utf8_len_of(c: char) -> (n: u64)
    ensures
        n == utf8_len(c),
{
    let u = c as u32;
    if u < 0x80 {
        1
    } else if u < 0x800 {
        2
    } else if u < 0x10000 {
        3
    } else {
        4
    }
}

proof fn lemma_index_at_byte_walk(cs: Seq<char>, i: int, off: int, a: int)
    requires
        0 <= i <= cs.len(),
        off == byte_len(cs.take(i)),
        off <= a,
    ensures
        index_at_byte(cs, a) == match index_at_byte(cs.subrange(i, cs.len() as int), a - off) {
            Some(j) => Some(j + i),
            None => None::<int>,
        },
    decreases i,
{
    if i > 0 {
        assert(cs.take(i) =~= seq![cs[0]] + cs.drop_first().take(i - 1));
        lemma_byte_len_cons(cs[0], cs.drop_first().take(i - 1));
        lemma_index_at_byte_walk(cs.drop_first(), i - 1, off - utf8_len(cs[0]), a - utf8_len(cs[0]));
        assert(cs.drop_first().subrange(i - 1, cs.drop_first().len() as int) =~= cs.subrange(i, cs.len() as int));
        if a == 0 {
            assert(off == 0);
        }
    } else {
        assert(cs.subrange(0, cs.len() as int) =~= cs);
    }
}

proof fn lemma_byte_len_cons(c: char, s: Seq<char>)
    ensures
        byte_len(seq![c] + s) == utf8_len(c) + byte_len(s),
{
    assert((seq![c] + s).drop_first() =~= s);
}

proof fn lemma_byte_len_push(s: Seq<char>, c: char)
    ensures
        byte_len(s.push(c)) == byte_len(s) + utf8_len(c),
    decreases s.len(),
{
    if s.len() > 0 {
        lemma_byte_len_push(s.drop_first(), c);
        assert(s.push(c).drop_first() =~= s.drop_first().push(c));
        assert(s.push(c)[0] == s[0]);
        assert(byte_len(s.push(c)) == utf8_len(s[0]) + byte_len(s.drop_first().push(c)));
        assert(byte_len(s) == utf8_len(s[0]) + byte_len(s.drop_first()));
    } else {
        assert(s.push(c) =~= seq![c]);
        assert(seq![c].drop_first() =~= Seq::<char>::empty());
        assert(byte_len(Seq::<char>::empty()) == 0);
        assert(byte_len(seq![c]) == utf8_len(c) + byte_len(seq![c].drop_first()));
        assert(byte_len(s) == 0);
    }
}

/// Index of the character at byte `a` of `cs`, searching from the start.
fn find_byte_index(cs: &Vec<char>, a: u64) -> (r: Option<usize>)
    requires
        a <= 16,
    ensures
        match (r, index_at_byte(cs@, a as int)) {
            (Some(i), Some(j)) => i as int == j,
            (None, None) => true,
            _ => false,
        },
{
    let n = cs.len();
    let mut i: usize = 0;
    let mut off: u64 = 0;
    proof {
        assert(cs@.take(0) =~= Seq::<char>::empty());
        assert(cs@.subrange(0, n as int) =~= cs@);
    }
    while i < n && off < a
        invariant
            n == cs@.len(),
            i <= n,
            off == byte_len(cs@.take(i as int)),
            off <= a,
            a <= 16,
            index_at_byte(cs@, a as int) == match index_at_byte(cs@.subrange(i as int, n as int), a - off) {
                Some(j) => Some(j + i),
                None => None::<int>,
            },
        decreases n - i,
    {
        let ghost old_i = i;
        let w = utf8_len_of(cs[i]);
        proof {
            assert(cs@.take(i + 1) =~= cs@.take(i as int).push(cs@[i as int]));
            lemma_byte_len_push(cs@.take(i as int), cs@[i as int]);
            let rest = cs@.subrange(i as int, n as int);
            assert(rest[0] == cs@[i as int]);
            assert(rest.drop_first() =~= cs@.subrange(i + 1, n as int));
        }
        if off + w > a {
            proof {
                let rest = cs@.subrange(i as int, n as int);
                let rest2 = rest.drop_first();
                lemma_index_none(rest2, a - off - w);
            }
            return None;
        }
        off = off + w;
        i = i + 1;
    }
    proof {
        let rest = cs@.subrange(i as int, n as int);
        if off < a {
            assert(i == n);
            assert(rest.len() == 0);
        }
    }
    if off == a {
        Some(i)
    } else {
        None
    }
}

proof fn lemma_index_range(cs: Seq<char>, a: int)
    ensures
        index_at_byte(cs, a) matches Some(j) ==> 0 <= j <= cs.len(),
    decreases cs.len(),
{
    if a != 0 && cs.len() > 0 && a >= 0 {
        lemma_index_range(cs.drop_first(), a - utf8_len(cs[0]));
    }
}

proof fn lemma_index_none(cs: Seq<char>, a: int)
    requires
        a < 0,
    ensures
        index_at_byte(cs, a) is None,
{
}

fn hex_digit(c: char) -> (r: Option<u32>)
    ensures
        match r {
            Some(v) => hex_digit_value(c) == Some(v as int),
            None => hex_digit_value(c) is None,
        },
{
    let u = c as u32;
    if 48 <= u && u <= 57 {
        Some(u - 48)
    } else if 65 <= u && u <= 70 {
        Some(u - 55)
    } else if 97 <= u && u <= 102 {
        Some(u - 87)
    } else {
        None
    }
}

proof fn lemma_hex_value_bound(d: Seq<char>)
    ensures
        hex_digits_value(d) matches Some(v) ==> 0 <= v,
    decreases d.len(),
{
    if d.len() > 0 {
        lemma_hex_value_bound(d.drop_last());
    }
}

/// `u8::from_str_radix` in base 16 over the characters `cs[i..j]`.
fn hex_u8(cs: &Vec<char>, i: usize, j: usize) -> (r: Option<u8>)
    requires
        i <= j <= cs@.len(),
    ensures
        r == spec_hex_u8(cs@.subrange(i as int, j as int)),
{
    let ghost s = cs@.subrange(i as int, j as int);
    let mut k = i;
    if k < j && cs[k] == '+' {
        k = k + 1;
    }
    let ghost d = cs@.subrange(k as int, j as int);
    proof {
        if i < j && cs@[i as int] == '+' {
            assert(s.drop_first() =~= d);
        } else {
            assert(s =~= d);
        }
    }
    if k == j {
        return None;
    }
    let mut v: u32 = 0;
    let mut m = k;
    proof {
        assert(spec_hex_u8(s) == digits_u8(d));
        assert(cs@.subrange(k as int, k as int) =~= Seq::<char>::empty());
    }
    while m < j
        invariant
            i <= k < j,
            spec_hex_u8(cs@.subrange(i as int, j as int)) == digits_u8(d),
            k <= m <= j,
            j <= cs@.len(),
            d == cs@.subrange(k as int, j as int),
            hex_digits_value(cs@.subrange(k as int, m as int)) == Some(v as int),
            v <= 255,
        decreases j - m,
    {
        proof {
            assert(cs@.subrange(k as int, m + 1).drop_last() =~= cs@.subrange(k as int, m as int));
            assert(cs@.subrange(k as int, m + 1).last() == cs@[m as int]);
        }
        match hex_digit(cs[m]) {
            Some(x) => {
                let nv = v * 16 + x;
                if nv > 255 {
                    proof {
                        assert(cs@.subrange(k as int, j as int).take((m - k) as int + 1) =~= cs@.subrange(k as int, m + 1));
                        lemma_hex_prefix_bad(cs@.subrange(k as int, j as int), (m - k) as int + 1);
                    }
                    return None;
                }
                v = nv;
            },
            None => {
                proof {
                    assert(cs@.subrange(k as int, j as int).take((m - k) as int + 1) =~= cs@.subrange(k as int, m + 1));
                    lemma_hex_prefix_bad(cs@.subrange(k as int, j as int), (m - k) as int + 1);
                }
                return None;
            },
        }
        m = m + 1;
    }
    proof {
        assert(cs@.subrange(k as int, j as int) =~= d);
    }
    Some(v as u8)
}

/// The value of hexadecimal digits is unreadable or above 255 once a
/// prefix of them is.
proof fn lemma_hex_prefix_bad(d: Seq<char>, p: int)
    requires
        0 <= p <= d.len(),
        hex_digits_value(d.take(p)) is None || hex_digits_value(d.take(p))->Some_0 > 255,
    ensures
        hex_digits_value(d) is None || hex_digits_value(d)->Some_0 > 255,
    decreases d.len() - p,
{
    if p < d.len() {
        assert(d.take(p + 1).drop_last() =~= d.take(p));
        if let Some(x) = hex_digit_value(d.take(p + 1).last()) {
            assert(x >= 0);
        }
        lemma_hex_prefix_bad(d, p + 1);
    } else {
        assert(d.take(p) =~= d);
    }
}

/// Whether the characters `cs` take at least `n` bytes.
fn bytes_at_least(cs: &Vec<char>, n: u64) -> (b: bool)
    requires
        n <= 16,
    ensures
        b == (byte_len(cs@) >= n),
{
    let len = cs.len();
    let mut i: usize = 0;
    let mut off: u64 = 0;
    proof {
        assert(cs@.take(0) =~= Seq::<char>::empty());
    }
    while i < len && off < n
        invariant
            len == cs@.len(),
            i <= len,
            off == byte_len(cs@.take(i as int)),
            off <= n + 4,
            n <= 16,
        decreases len - i,
    {
        let w = utf8_len_of(cs[i]);
        proof {
            assert(cs@.take(i + 1) =~= cs@.take(i as int).push(cs@[i as int]));
            lemma_byte_len_push(cs@.take(i as int), cs@[i as int]);
        }
        off = off + w;
        i = i + 1;
    }
    proof {
        lemma_byte_len_split(cs@, i as int);
        if i == len {
            assert(cs@.take(len as int) =~= cs@);
        }
    }
    off >= n
}

proof fn lemma_byte_len_split(cs: Seq<char>, i: int)
    requires
        0 <= i <= cs.len(),
    ensures
        byte_len(cs) >= byte_len(cs.take(i)),
    decreases cs.len() - i,
{
    if i < cs.len() {
        lemma_byte_len_split(cs, i + 1);
        assert(cs.take(i + 1) =~= cs.take(i).push(cs[i]));
        lemma_byte_len_push(cs.take(i), cs[i]);
    } else {
        assert(cs.take(i) =~= cs);
    }
}

fn chars_vec(s: &str) -> (v: Vec<char>)
    ensures
        v@ == s@,
{
    let n = s.unicode_len();
    let mut v: Vec<char> = Vec::new();
    let mut i: usize = 0;
    while i < n
        invariant
            n == s@.len(),
            i <= n,
            v@ == s@.take(i as int),
        decreases n - i,
    {
        v.push(s.get_char(i));
        proof {
            assert(v@ =~= s@.take(i + 1));
        }
        i = i + 1;
    }
    proof {
        assert(s@.take(n as int) =~= s@);
    }
    v
}

/// The byte of the hexadecimal digits `cs[i]` and `cs[i + 1]`.
fn pair_of(cs: &Vec<char>, i: usize) -> (v: u8)
    requires
        i < 16,
        i + 1 < cs@.len(),
        hex_digit_value(cs@[i as int]) is Some,
        hex_digit_value(cs@[i + 1]) is Some,
    ensures
        v == hex_pair(cs@, i as int),
{
    let hi = match hex_digit(cs[i]) {
        Some(x) => x,
        None => 0,
    };
    let lo = match hex_digit(cs[i + 1]) {
        Some(x) => x,
        None => 0,
    };
    proof {
        assert(hi < 16 && lo < 16);
    }
    (hi * 16 + lo) as u8
}

/// Reads "#RRGGBB" or "#RRGGBBAA" into (red, green, blue, alpha); opaque
/// black for any other text.
pub fn parse_hex(s: &str) -> (c: (u8, u8, u8, u8))
    ensures
        c == spec_parse_hex(s@),
{
    let t = trim(s);
    let cs = chars_vec(t.as_str());
    let n = cs.len();
    if (n != 7 && n != 9) || cs[0] != '#' {
        return (0, 0, 0, 255);
    }
    let mut k: usize = 1;
    while k < n
        invariant
            n == cs@.len(),
            cs@ == spec_trim(s@),
            1 <= k <= n,
            forall|j: int| 1 <= j < k ==> (#[trigger] hex_digit_value(cs@[j])) is Some,
        decreases n - k,
    {
        if hex_digit(cs[k]).is_none() {
            proof {
                assert(hex_digit_value(cs@[k as int]) is None);
                assert(!is_hex_colour(cs@));
            }
            return (0, 0, 0, 255);
        }
        k = k + 1;
    }
    let r = pair_of(&cs, 1);
    let g = pair_of(&cs, 3);
    let b = pair_of(&cs, 5);
    let a = if n == 9 { pair_of(&cs, 7) } else { 255 };
    (r, g, b, a)
}

/// `s` without its leading `#` characters (`trim_start_matches('#')`).
pub open spec fn strip_hashes(s: Seq<char>) -> Seq<char>
    decreases s.len(),
{
    if s.len() > 0 && s[0] == '#' { strip_hashes(s.drop_first()) } else { s }
}

/// The hexadecimal byte at bytes `a..a+2` of `h`, if readable.
pub open spec fn hex_byte_at(h: Seq<char>, a: int) -> Option<u8> {
    match byte_slice(h, a, a + 2) {
        Some(x) => spec_hex_u8(x),
        None => None,
    }
}

/// The colour (red, green, blue) of "RRGGBB", any leading `#` dropped; none
/// unless exactly six bytes remain and all three channels read.
pub open spec fn spec_parse_hex_color(s: Seq<char>) -> Option<(u8, u8, u8)> {
    let h = strip_hashes(s);
    if byte_len(h) != 6 {
        None
    } else {
        match (hex_byte_at(h, 0), hex_byte_at(h, 2), hex_byte_at(h, 4)) {
            (Some(r), Some(g), Some(b)) => Some((r, g, b)),
            _ => None,
        }
    }
}

/// The byte offsets 2 and 4 of a six-byte colour text are character
/// boundaries, so that slicing it does not panic.
pub open spec fn hex_color_sliceable(s: Seq<char>) -> bool {
    let h = strip_hashes(s);
    byte_len(h) == 6 ==> index_at_byte(h, 2) is Some && index_at_byte(h, 4) is Some
}

proof fn lemma_strip_hashes_skip(s: Seq<char>, i: int)
    requires
        0 <= i <= s.len(),
        forall|k: int| 0 <= k < i ==> s[k] == '#',
    ensures
        strip_hashes(s) == strip_hashes(s.subrange(i, s.len() as int)),
    decreases i,
{
    if i > 0 {
        lemma_strip_hashes_skip(s.drop_first(), i - 1);
        assert(s.drop_first().subrange(i - 1, s.drop_first().len() as int) =~= s.subrange(i, s.len() as int));
    } else {
        assert(s.subrange(0, s.len() as int) =~= s);
    }
}

fn hex_byte_of(cs: &Vec<char>, a: u64) -> (r: Option<u8>)
    requires
        a + 2 <= 16,
    ensures
        r == hex_byte_at(cs@, a as int),
{
    let i = match find_byte_index(cs, a) {
        Some(i) => i,
        None => return None,
    };
    let j = match find_byte_index(cs, a + 2) {
        Some(j) => j,
        None => return None,
    };
    if i > j {
        return None;
    }
    proof {
        lemma_index_range(cs@, a as int + 2);
    }
    hex_u8(cs, i, j)
}

/// Reads "#RRGGBB" (any number of leading `#`, or none) into (red, green,
/// blue).
pub fn parse_hex_color(hex: &str) -> (r: Option<(u8, u8, u8)>)
    requires
        hex_color_sliceable(hex@),
    ensures
        r == spec_parse_hex_color(hex@),
{
    let all = chars_vec(hex);
    let n = all.len();
    let mut i: usize = 0;
    while i < n && all[i] == '#'
        invariant
            n == all@.len(),
            i <= n,
            forall|k: int| 0 <= k < i ==> all@[k] == '#',
        decreases n - i,
    {
        i = i + 1;
    }
    proof {
        lemma_strip_hashes_skip(all@, i as int);
        let t = all@.subrange(i as int, n as int);
        assert(t.len() == 0 || t[0] != '#');
    }
    let mut cs: Vec<char> = Vec::new();
    let mut k = i;
    while k < n
        invariant
            n == all@.len(),
            i <= k <= n,
            cs@ == all@.subrange(i as int, k as int),
        decreases n - k,
    {
        cs.push(all[k]);
        proof {
            assert(cs@ =~= all@.subrange(i as int, k + 1));
        }
        k = k + 1;
    }
    proof {
        assert(cs@ == strip_hashes(hex@));
    }
    if !bytes_at_least(&cs, 6) || bytes_at_least(&cs, 7) {
        return None;
    }
    let r = hex_byte_of(&cs, 0);
    let g = hex_byte_of(&cs, 2);
    let b = hex_byte_of(&cs, 4);
    match (r, g, b) {
        (Some(r), Some(g), Some(b)) => Some((r, g, b)),
        _ => None,
    }
}

} // verus!
