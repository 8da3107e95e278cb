//! Decoding the search response.
//!
//! The response is a JSON object whose `ads` member holds the advertisement
//! records. The decoder is strict and all-or-nothing: a body that does not
//! parse, a record missing a required member, a member of the wrong type, or a
//! published-date text that denotes no instant each make the whole decode fail.
//! Members other than the known ones are skipped, as the service sends more
//! than the six the records keep.
//!
//! The grammar is stated as recursive specification functions over character
//! sequences; each executable parsing function is proved to return exactly
//! what its specification function denotes.

use vstd::prelude::*;
use vstd::string::StrSliceExecFns;
use crate::adverts::{AdView, AmsData, AmsDataItem};
use crate::dates::{instant_of, parse_instant};
use crate::AmsError;

verus! {

/// Relies on `char::from_u32` of core: it returns the character of a code
/// point, and `None` exactly on the surrogate range and above `char::MAX`.
pub assume_specification[ char::from_u32 ](i: u32) -> (r: Option<char>)
    ensures
        r is Some <==> (i < 0xD800 || (0xE000 <= i && i <= 0x10FFFF)),
        r matches Some(c) ==> c as u32 == i,
;

/// Relies on `String`'s `FromIterator<char>`: collecting characters yields the
/// string of exactly those characters, which is what the view of a `String`
/// denotes.
#[verifier::external_body]
fn string_from_chars(v: Vec<char>) -> (r: String)
    ensures
        r@ == v@,
{
    v.into_iter().collect()
}

/// The characters of a string slice, as a vector.
pub(crate) fn chars_of(s: &str) -> (v: Vec<char>)
    ensures
        v@ == s@,
{
    let n = s.unicode_len();
    let mut v: Vec<char> = Vec::new();
    let mut i: usize = 0;
    while i < n
        invariant
            i <= n,
            n == s@.len(),
            v@ == s@.subrange(0, i as int),
        decreases n - i,
    {
        let c = s.get_char(i);
        v.push(c);
        proof {
            assert(v@ =~= s@.subrange(0, i + 1));
        }
        i = i + 1;
    }
    proof {
        assert(v@ =~= s@);
    }
    v
}

/// The characters JSON treats as blank between tokens.
pub open spec fn is_json_ws(c: char) -> bool {
    c == ' ' || c == '\t' || c == '\n' || c == '\r'
}

/// The first position at or after `i` that holds no blank.
pub open spec fn skip_ws(s: Seq<char>, i: int) -> int
    decreases s.len() - i,
{
    if 0 <= i < s.len() && is_json_ws(s[i]) {
        skip_ws(s, i + 1)
    } else {
        i
    }
}

fn skip_ws_x(v: &Vec<char>, i: usize) -> (j: usize)
    requires
        i <= v@.len(),
    ensures
        j == skip_ws(v@, i as int),
        i <= j <= v@.len(),
{
    let mut j: usize = i;
    while j < v.len() && is_json_ws_x(v[j])
        invariant
            i <= j <= v@.len(),
            skip_ws(v@, i as int) == skip_ws(v@, j as int),
        decreases v@.len() - j,
    {
        j = j + 1;
    }
    j
}

fn is_json_ws_x(c: char) -> (r: bool)
    ensures
        r == is_json_ws(c),
{
    c == ' ' || c == '\t' || c == '\n' || c == '\r'
}

/// The value of a hexadecimal digit, or -1 for any other character.
pub open spec fn hex_val(c: char) -> int {
    let u = c as u32;
    if 48 <= u <= 57 {
        u - 48
    } else if 65 <= u <= 70 {
        u - 55
    } else if 97 <= u <= 102 {
        u - 87
    } else {
        -1
    }
}

/// The value of the four hexadecimal digits at `i`, or -1 where they are
/// missing.
pub open spec fn hex4(s: Seq<char>, i: int) -> int {
    if 0 <= i && i + 4 <= s.len() && hex_val(s[i]) >= 0 && hex_val(s[i + 1]) >= 0 && hex_val(
        s[i + 2],
    ) >= 0 && hex_val(s[i + 3]) >= 0 {
        0x1000 * hex_val(s[i]) + 0x100 * hex_val(s[i + 1]) + 0x10 * hex_val(s[i + 2]) + hex_val(
            s[i + 3],
        )
    } else {
        -1
    }
}

fn hex_val_x(c: char) -> (r: Option<u32>)
    ensures
        r is Some <==> hex_val(c) >= 0,
        r matches Some(h) ==> h == hex_val(c) && h <= 15,
{
    let u = c as u32;
    if 48 <= u && u <= 57 {
        Some(u - 48)
    } else if 65 <= u && u <= 70 {
        Some(u - 55)
    } else if 97 <= u && u <= 102 {
        Some(u - 87)
    } else {
        None
    }
}

fn hex4_x(v: &Vec<char>, i: usize) -> (r: Option<u32>)
    requires
        i <= v@.len(),
    ensures
        r is Some <==> hex4(v@, i as int) >= 0,
        r matches Some(h) ==> h == hex4(v@, i as int) && h <= 0xFFFF,
{
    if v.len() >= 4 && i <= v.len() - 4 {
        let a = hex_val_x(v[i]);
        let b = hex_val_x(v[i + 1]);
        let c = hex_val_x(v[i + 2]);
        let d = hex_val_x(v[i + 3]);
        match (a, b, c, d) {
            (Some(a), Some(b), Some(c), Some(d)) => Some(
                0x1000 * a + 0x100 * b + 0x10 * c + d,
            ),
            _ => None,
        }
    } else {
        None
    }
}

/// The character a `\u` escape at `i` (the first hexadecimal digit) denotes,
/// and the position after it. A high surrogate must be followed by a second
/// escape holding a low surrogate; a lone surrogate denotes nothing.
pub open spec fn parse_unicode_escape(s: Seq<char>, i: int) -> Option<(char, int)> {
    let hi = hex4(s, i);
    if hi < 0 {
        None
    } else if 0xD800 <= hi <= 0xDBFF {
        if i + 10 <= s.len() && s[i + 4] == '\\' && s[i + 5] == 'u' {
            let lo = hex4(s, i + 6);
            if 0xDC00 <= lo <= 0xDFFF {
                Some((((0x10000 + (hi - 0xD800) * 0x400 + (lo - 0xDC00)) as u32) as char, i + 10))
            } else {
                None
            }
        } else {
            None
        }
    } else if 0xDC00 <= hi <= 0xDFFF {
        None
    } else {
        Some(((hi as u32) as char, i + 4))
    }
}

#[verifier::rlimit(50)]
fn parse_unicode_x(v: &Vec<char>, i: usize) -> (r: Option<(char, usize)>)
    requires
        i <= v@.len(),
    ensures
        r is Some <==> parse_unicode_escape(v@, i as int) is Some,
        r matches Some(p) ==> parse_unicode_escape(v@, i as int) matches Some(q) && p.0 == q.0
            && p.1 == q.1 && i < p.1 <= v@.len(),
{
    match hex4_x(v, i) {
        None => None,
        Some(hi) => {
            if 0xD800 <= hi && hi <= 0xDBFF {
                if v.len() >= 10 && i <= v.len() - 10 && v[i + 4] == '\\' && v[i + 5] == 'u' {
                    match hex4_x(v, i + 6) {
                        None => None,
                        Some(lo) => {
                            if 0xDC00 <= lo && lo <= 0xDFFF {
                                let code: u32 = 0x10000 + (hi - 0xD800) * 0x400 + (lo - 0xDC00);
                                proof {
                                    assert(code == (0x10000 + (hex4(v@, i as int) - 0xD800) * 0x400
                                        + (hex4(v@, i + 6) - 0xDC00)) as u32);
                                }
                                match char::from_u32(code) {
                                    Some(c) => {
                                        proof {
                                            vstd::utf8::char_u32_cast(c, code);
                                        }
                                        Some((c, i + 10))
                                    },
                                    None => {
                                        proof {
                                            assert(false);
                                        }
                                        None
                                    },
                                }
                            } else {
                                None
                            }
                        },
                    }
                } else {
                    None
                }
            } else if 0xDC00 <= hi && hi <= 0xDFFF {
                None
            } else {
                let n = v.len();
                proof {
                    assert(hex4(v@, i as int) >= 0);
                    assert(i + 4 <= n);
                }
                match char::from_u32(hi) {
                    Some(c) => {
                        proof {
                            vstd::utf8::char_u32_cast(c, hi);
                        }
                        Some((c, i + 4))
                    },
                    None => {
                        proof {
                            assert(false);
                        }
                        None
                    },
                }
            }
        },
    }
}

/// The character an escape at `i` (the character after the backslash) denotes,
/// and the position after it.
pub open spec fn parse_escape(s: Seq<char>, i: int) -> Option<(char, int)> {
    if !(0 <= i < s.len()) {
        None
    } else {
        let c = s[i];
        if c == '"' {
            Some(('"', i + 1))
        } else if c == '\\' {
            Some(('\\', i + 1))
        } else if c == '/' {
            Some(('/', i + 1))
        } else if c == 'b' {
            Some(('\u{8}', i + 1))
        } else if c == 'f' {
            Some(('\u{c}', i + 1))
        } else if c == 'n' {
            Some(('\n', i + 1))
        } else if c == 'r' {
            Some(('\r', i + 1))
        } else if c == 't' {
            Some(('\t', i + 1))
        } else if c == 'u' {
            parse_unicode_escape(s, i + 1)
        } else {
            None
        }
    }
}

fn parse_escape_x(v: &Vec<char>, i: usize) -> (r: Option<(char, usize)>)
    requires
        i <= v@.len(),
    ensures
        r is Some <==> parse_escape(v@, i as int) is Some,
        r matches Some(p) ==> parse_escape(v@, i as int) matches Some(q) && p.0 == q.0 && p.1
            == q.1 && i < p.1 <= v@.len(),
{
    if i >= v.len() {
        None
    } else {
        let c = v[i];
        if c == '"' {
            Some(('"', i + 1))
        } else if c == '\\' {
            Some(('\\', i + 1))
        } else if c == '/' {
            Some(('/', i + 1))
        } else if c == 'b' {
            Some(('\u{8}', i + 1))
        } else if c == 'f' {
            Some(('\u{c}', i + 1))
        } else if c == 'n' {
            Some(('\n', i + 1))
        } else if c == 'r' {
            Some(('\r', i + 1))
        } else if c == 't' {
            Some(('\t', i + 1))
        } else if c == 'u' {
            parse_unicode_x(v, i + 1)
        } else {
            None
        }
    }
}

/// The characters a string body starting at `i` (the character after the
/// opening quote) denotes, and the position after its closing quote.
pub open spec fn parse_string_body(s: Seq<char>, i: int) -> Option<(Seq<char>, int)>
    decreases s.len() - i,
{
    if !(0 <= i < s.len()) {
        None
    } else if s[i] == '"' {
        Some((Seq::empty(), i + 1))
    } else if s[i] == '\\' {
        match parse_escape(s, i + 1) {
            None => None,
            Some((c, j)) => if i < j <= s.len() {
                match parse_string_body(s, j) {
                    None => None,
                    Some((rest, k)) => Some((seq![c] + rest, k)),
                }
            } else {
                None
            },
        }
    } else if (s[i] as u32) < 0x20 {
        None
    } else {
        match parse_string_body(s, i + 1) {
            None => None,
            Some((rest, k)) => Some((seq![s[i]] + rest, k)),
        }
    }
}

/// The characters a string token starting at `i` (its opening quote) denotes,
/// and the position after its closing quote.
pub open spec fn parse_string(s: Seq<char>, i: int) -> Option<(Seq<char>, int)> {
    if 0 <= i < s.len() && s[i] == '"' {
        parse_string_body(s, i + 1)
    } else {
        None
    }
}

fn parse_string_body_x(v: &Vec<char>, i: usize) -> (r: Option<(Vec<char>, usize)>)
    requires
        i <= v@.len(),
    ensures
        r is Some <==> parse_string_body(v@, i as int) is Some,
        r matches Some(p) ==> parse_string_body(v@, i as int) matches Some(q) && p.0@ == q.0 && p.1
            == q.1 && i < p.1 <= v@.len(),
    decreases v@.len() - i,
{
    if i >= v.len() {
        None
    } else {
        let c = v[i];
        if c == '"' {
            Some((Vec::new(), i + 1))
        } else if c == '\\' {
            match parse_escape_x(v, i + 1) {
                None => None,
                Some((ec, j)) => {
                    if i < j && j <= v.len() {
                        match parse_string_body_x(v, j) {
                            None => None,
                            Some((mut rest, k)) => {
                                rest.insert(0, ec);
                                proof {
                                    let (sc, sj) = parse_escape(v@, i + 1 as int).unwrap();
                                    let (srest, sk) = parse_string_body(v@, sj).unwrap();
                                    assert(rest@ =~= seq![sc] + srest);
                                }
                                Some((rest, k))
                            },
                        }
                    } else {
                        None
                    }
                },
            }
        } else if (c as u32) < 0x20 {
            None
        } else {
            match parse_string_body_x(v, i + 1) {
                None => None,
                Some((mut rest, k)) => {
                    rest.insert(0, c);
                    proof {
                        let (srest, sk) = parse_string_body(v@, i + 1 as int).unwrap();
                        assert(rest@ =~= seq![v@[i as int]] + srest);
                    }
                    Some((rest, k))
                },
            }
        }
    }
}

/// A decimal digit.
pub open spec fn is_digit(c: char) -> bool {
    48 <= c as u32 <= 57
}

/// One or more decimal digits and nothing else.
pub open spec fn is_digit_seq(t: Seq<char>) -> bool {
    t.len() > 0 && forall|i: int| 0 <= i < t.len() ==> is_digit(#[trigger] t[i])
}

/// The first position at or after `i` that holds no decimal digit.
pub open spec fn digit_run_end(s: Seq<char>, i: int) -> int
    decreases s.len() - i,
{
    if 0 <= i < s.len() && is_digit(s[i]) {
        digit_run_end(s, i + 1)
    } else {
        i
    }
}

/// The value of the decimal digits from `i` up to `j`.
pub open spec fn digits_val(s: Seq<char>, i: int, j: int) -> int
    decreases j - i,
{
    if i >= j {
        0
    } else {
        digits_val(s, i, j - 1) * 10 + (s[j - 1] as u32 - 48)
    }
}

/// Powers of ten.
pub open spec fn pow10(n: nat) -> int
    decreases n,
{
    if n == 0 {
        1
    } else {
        10 * pow10((n - 1) as nat)
    }
}

proof fn lemma_digit_run_bounds(s: Seq<char>, i: int)
    requires
        0 <= i <= s.len(),
    ensures
        i <= digit_run_end(s, i) <= s.len(),
        forall|k: int| i <= k < digit_run_end(s, i) ==> is_digit(s[k]),
    decreases s.len() - i,
{
    if i < s.len() && is_digit(s[i]) {
        lemma_digit_run_bounds(s, i + 1);
    }
}

proof fn lemma_digits_val_bounds(s: Seq<char>, i: int, j: int)
    requires
        0 <= i <= j <= s.len(),
        forall|k: int| i <= k < j ==> is_digit(s[k]),
    ensures
        0 <= digits_val(s, i, j) < pow10((j - i) as nat),
        i < j && s[i] != '0' ==> digits_val(s, i, j) >= pow10((j - i - 1) as nat),
    decreases j - i,
{
    if i < j {
        lemma_digits_val_bounds(s, i, j - 1);
        assert(is_digit(s[j - 1]));
        assert(pow10((j - i) as nat) == 10 * pow10((j - i - 1) as nat));
        if i < j - 1 && s[i] != '0' {
            assert(digits_val(s, i, j - 1) >= pow10((j - i - 2) as nat));
        }
        if i == j - 1 && s[i] != '0' {
            assert(is_digit(s[i]));
            if s[i] as u32 == 48 {
                vstd::utf8::char_u32_cast(s[i], 48u32);
                vstd::utf8::char_u32_cast('0', 48u32);
                assert(false);
            }
            assert(digits_val(s, i, j) == s[i] as u32 - 48 >= 1);
        }
    }
}

proof fn lemma_pow10_20()
    ensures
        pow10(20) == 0x56BC75E2D63100000,
        pow10(21) == 0x3635C9ADC5DEA00000,
{
    reveal_with_fuel(pow10, 22);
}

/// The unsigned integer token at `i`: a digit run without a superfluous
/// leading zero, whose value fits a `usize`, and the position after it.
pub open spec fn parse_uint(s: Seq<char>, i: int) -> Option<(usize, int)> {
    let j = digit_run_end(s, i);
    if j == i {
        None
    } else if s[i] == '0' && j > i + 1 {
        None
    } else if digits_val(s, i, j) > usize::MAX {
        None
    } else {
        Some((digits_val(s, i, j) as usize, j))
    }
}

fn digit_run_end_x(v: &Vec<char>, i: usize) -> (j: usize)
    requires
        i <= v@.len(),
    ensures
        j == digit_run_end(v@, i as int),
        i <= j <= v@.len(),
{
    let mut j: usize = i;
    while j < v.len() && is_digit_x(v[j])
        invariant
            i <= j <= v@.len(),
            digit_run_end(v@, i as int) == digit_run_end(v@, j as int),
        decreases v@.len() - j,
    {
        j = j + 1;
    }
    j
}

fn is_digit_x(c: char) -> (r: bool)
    ensures
        r == is_digit(c),
{
    let u = c as u32;
    48 <= u && u <= 57
}

#[verifier::rlimit(50)]
fn parse_uint_x(v: &Vec<char>, i: usize) -> (r: Option<(usize, usize)>)
    requires
        i <= v@.len(),
    ensures
        r is Some <==> parse_uint(v@, i as int) is Some,
        r matches Some(p) ==> parse_uint(v@, i as int) matches Some(q) && p.0 == q.0 && p.1 == q.1
            && i < p.1 <= v@.len(),
{
    let j = digit_run_end_x(v, i);
    proof {
        lemma_digit_run_bounds(v@, i as int);
        lemma_digits_val_bounds(v@, i as int, j as int);
        lemma_pow10_20();
    }
    if j == i {
        return None;
    }
    if v[i] == '0' && j > i + 1 {
        return None;
    }
    if j - i > 20 {
        proof {
            lemma_pow10_monotone(20, (j - i - 1) as nat);
            assert(digits_val(v@, i as int, j as int) >= pow10((j - i - 1) as nat));
        }
        return None;
    }
    let mut acc: u128 = 0;
    let mut k: usize = i;
    while k < j
        invariant
            i <= k <= j <= v@.len(),
            j - i <= 20,
            acc == digits_val(v@, i as int, k as int),
            forall|m: int| i <= m < j ==> is_digit(v@[m]),
            0 <= digits_val(v@, i as int, k as int) < pow10((k - i) as nat),
        decreases j - k,
    {
        proof {
            lemma_digits_val_bounds(v@, i as int, k + 1);
            lemma_pow10_monotone((k + 1 - i) as nat, 20);
            lemma_pow10_20();
        }
        let d: u32 = v[k] as u32 - 48;
        acc = acc * 10 + d as u128;
        k = k + 1;
    }
    if acc > usize::MAX as u128 {
        None
    } else {
        Some((acc as usize, j))
    }
}

proof fn lemma_digits_val_all_zeros(s: Seq<char>, i: int, j: int)
    requires
        0 <= i <= j <= s.len(),
        forall|k: int| i <= k < j ==> s[k] == '0',
    ensures
        digits_val(s, i, j) == 0,
    decreases j - i,
{
    if i < j {
        lemma_digits_val_all_zeros(s, i, j - 1);
    }
}

proof fn lemma_digits_val_leading_zeros(s: Seq<char>, i: int, z: int, j: int)
    requires
        0 <= i <= z <= j <= s.len(),
        forall|k: int| i <= k < z ==> s[k] == '0',
    ensures
        digits_val(s, i, j) == digits_val(s, z, j),
    decreases j - z,
{
    if j > z {
        lemma_digits_val_leading_zeros(s, i, z, j - 1);
    } else {
        lemma_digits_val_all_zeros(s, i, j);
    }
}

/// The value of the digits from `i` up to `j`, where it fits a `usize`.
#[verifier::rlimit(50)]
pub(crate) fn digits_value_x(v: &Vec<char>, i: usize, j: usize) -> (r: Option<usize>)
    requires
        i <= j <= v@.len(),
        forall|k: int| i <= k < j ==> is_digit(#[trigger] v@[k]),
    ensures
        r is Some <==> digits_val(v@, i as int, j as int) <= usize::MAX,
        r matches Some(nv) ==> nv == digits_val(v@, i as int, j as int),
{
    let mut z: usize = i;
    while z < j && v[z] == '0'
        invariant
            i <= z <= j,
            j <= v@.len(),
            forall|k: int| i <= k < z ==> v@[k] == '0',
        decreases j - z,
    {
        z = z + 1;
    }
    proof {
        lemma_digits_val_leading_zeros(v@, i as int, z as int, j as int);
        lemma_digits_val_bounds(v@, z as int, j as int);
        lemma_pow10_20();
    }
    if j - z > 20 {
        proof {
            lemma_pow10_monotone(20, (j - z - 1) as nat);
        }
        return None;
    }
    let mut acc: u128 = 0;
    let mut k: usize = z;
    while k < j
        invariant
            i <= z <= k <= j <= v@.len(),
            j - z <= 20,
            acc == digits_val(v@, z as int, k as int),
            forall|m: int| i <= m < j ==> is_digit(#[trigger] v@[m]),
            0 <= digits_val(v@, z as int, k as int) < pow10((k - z) as nat),
        decreases j - k,
    {
        proof {
            lemma_digits_val_bounds(v@, z as int, k + 1);
            lemma_pow10_monotone((k + 1 - z) as nat, 20);
            lemma_pow10_20();
        }
        let d: u32 = v[k] as u32 - 48;
        acc = acc * 10 + d as u128;
        k = k + 1;
    }
    if acc > usize::MAX as u128 {
        None
    } else {
        Some((acc as usize))
    }
}

proof fn lemma_pow10_monotone(a: nat, b: nat)
    requires
        a <= b,
    ensures
        pow10(a) <= pow10(b),
        pow10(a) >= 1,
    decreases b,
{
    if a == b {
        if a > 0 {
            lemma_pow10_monotone((a - 1) as nat, (a - 1) as nat);
        }
    } else {
        lemma_pow10_monotone(a, (b - 1) as nat);
    }
}

fn parse_string_x(v: &Vec<char>, i: usize) -> (r: Option<(Vec<char>, usize)>)
    requires
        i <= v@.len(),
    ensures
        r is Some <==> parse_string(v@, i as int) is Some,
        r matches Some(p) ==> parse_string(v@, i as int) matches Some(q) && p.0@ == q.0 && p.1
            == q.1 && i < p.1 <= v@.len(),
{
    if i < v.len() && v[i] == '"' {
        parse_string_body_x(v, i + 1)
    } else {
        None
    }
}

/// The position after the number token at `i`, or `None` where no number
/// token stands there.
pub open spec fn skip_number(s: Seq<char>, i: int) -> Option<int> {
    let i1 = if 0 <= i < s.len() && s[i] == '-' {
        i + 1
    } else {
        i
    };
    let j = digit_run_end(s, i1);
    if !(0 <= i1 < s.len()) || j == i1 {
        None
    } else if s[i1] == '0' && j > i1 + 1 {
        None
    } else {
        let j2 = if j < s.len() && s[j] == '.' {
            let jf = digit_run_end(s, j + 1);
            if jf == j + 1 {
                -1
            } else {
                jf
            }
        } else {
            j
        };
        if j2 < 0 {
            None
        } else {
            let j3 = if j2 < s.len() && (s[j2] == 'e' || s[j2] == 'E') {
                let k0 = if j2 + 1 < s.len() && (s[j2 + 1] == '+' || s[j2 + 1] == '-') {
                    j2 + 2
                } else {
                    j2 + 1
                };
                let je = digit_run_end(s, k0);
                if je == k0 {
                    -1
                } else {
                    je
                }
            } else {
                j2
            };
            if j3 < 0 {
                None
            } else {
                Some(j3)
            }
        }
    }
}

#[verifier::rlimit(50)]
fn skip_number_x(v: &Vec<char>, i: usize) -> (r: Option<usize>)
    requires
        i <= v@.len(),
    ensures
        r is Some <==> skip_number(v@, i as int) is Some,
        r matches Some(j) ==> skip_number(v@, i as int) matches Some(sj) && j == sj && i < j
            <= v@.len(),
{
    let i1: usize = if i < v.len() && v[i] == '-' {
        i + 1
    } else {
        i
    };
    let j = digit_run_end_x(v, i1);
    if i1 >= v.len() || j == i1 {
        return None;
    }
    if v[i1] == '0' && j > i1 + 1 {
        return None;
    }
    let j2: usize = if j < v.len() && v[j] == '.' {
        let jf = digit_run_end_x(v, j + 1);
        if jf == j + 1 {
            return None;
        }
        jf
    } else {
        j
    };
    let j3: usize = if j2 < v.len() && (v[j2] == 'e' || v[j2] == 'E') {
        let k0: usize = if j2 + 1 < v.len() && (v[j2 + 1] == '+' || v[j2 + 1] == '-') {
            j2 + 2
        } else {
            j2 + 1
        };
        let je = digit_run_end_x(v, k0);
        if je == k0 {
            return None;
        }
        je
    } else {
        j2
    };
    Some(j3)
}

/// The position after the value at `i`, or `None` where no value stands there.
pub open spec fn skip_value(s: Seq<char>, i: int) -> Option<int>
    decreases s.len() - i, 0int,
{
    if !(0 <= i < s.len()) {
        None
    } else if s[i] == '"' {
        match parse_string(s, i) {
            None => None,
            Some((t, j)) => Some(j),
        }
    } else if s[i] == '-' || is_digit(s[i]) {
        skip_number(s, i)
    } else if s[i] == 't' {
        if i + 4 <= s.len() && s[i + 1] == 'r' && s[i + 2] == 'u' && s[i + 3] == 'e' {
            Some(i + 4)
        } else {
            None
        }
    } else if s[i] == 'f' {
        if i + 5 <= s.len() && s[i + 1] == 'a' && s[i + 2] == 'l' && s[i + 3] == 's' && s[i + 4]
            == 'e' {
            Some(i + 5)
        } else {
            None
        }
    } else if s[i] == 'n' {
        if i + 4 <= s.len() && s[i + 1] == 'u' && s[i + 2] == 'l' && s[i + 3] == 'l' {
            Some(i + 4)
        } else {
            None
        }
    } else if s[i] == '{' {
        let j = skip_ws(s, i + 1);
        if i < j <= s.len() {
            skip_object_rest(s, j)
        } else {
            None
        }
    } else if s[i] == '[' {
        let j = skip_ws(s, i + 1);
        if i < j <= s.len() {
            skip_array_rest(s, j)
        } else {
            None
        }
    } else {
        None
    }
}

/// The position after the remainder of an object whose opening brace and
/// following blanks end at `i`.
pub open spec fn skip_object_rest(s: Seq<char>, i: int) -> Option<int>
    decreases s.len() - i, 2int,
{
    if !(0 <= i < s.len()) {
        None
    } else if s[i] == '}' {
        Some(i + 1)
    } else {
        skip_members(s, i)
    }
}

/// The position after the members of an object, starting at the first member's
/// key and ending after the closing brace.
pub open spec fn skip_members(s: Seq<char>, i: int) -> Option<int>
    decreases s.len() - i, 1int,
{
    match parse_string(s, i) {
        None => None,
        Some((key, j)) => if i < j <= s.len() {
            let j1 = skip_ws(s, j);
            if 0 <= j1 < s.len() && s[j1] == ':' {
                let j2 = skip_ws(s, j1 + 1);
                if i < j2 <= s.len() {
                    match skip_value(s, j2) {
                        None => None,
                        Some(j3) => if i < j3 <= s.len() {
                            let j4 = skip_ws(s, j3);
                            if j4 < s.len() && s[j4] == ',' {
                                let j5 = skip_ws(s, j4 + 1);
                                if i < j5 <= s.len() {
                                    skip_members(s, j5)
                                } else {
                                    None
                                }
                            } else if j4 < s.len() && s[j4] == '}' {
                                Some(j4 + 1)
                            } else {
                                None
                            }
                        } else {
                            None
                        },
                    }
                } else {
                    None
                }
            } else {
                None
            }
        } else {
            None
        },
    }
}

/// The position after the remainder of an array whose opening bracket and
/// following blanks end at `i`.
pub open spec fn skip_array_rest(s: Seq<char>, i: int) -> Option<int>
    decreases s.len() - i, 2int,
{
    if !(0 <= i < s.len()) {
        None
    } else if s[i] == ']' {
        Some(i + 1)
    } else {
        skip_elements(s, i)
    }
}

/// The position after the elements of an array, starting at the first element
/// and ending after the closing bracket.
pub open spec fn skip_elements(s: Seq<char>, i: int) -> Option<int>
    decreases s.len() - i, 1int,
{
    match skip_value(s, i) {
        None => None,
        Some(j) => if i < j <= s.len() {
            let j1 = skip_ws(s, j);
            if j1 < s.len() && s[j1] == ',' {
                let j2 = skip_ws(s, j1 + 1);
                if i < j2 <= s.len() {
                    skip_elements(s, j2)
                } else {
                    None
                }
            } else if j1 < s.len() && s[j1] == ']' {
                Some(j1 + 1)
            } else {
                None
            }
        } else {
            None
        },
    }
}

fn skip_value_x(v: &Vec<char>, i: usize) -> (r: Option<usize>)
    requires
        i <= v@.len(),
    ensures
        r is Some <==> skip_value(v@, i as int) is Some,
        r matches Some(j) ==> skip_value(v@, i as int) matches Some(sj) && j == sj && i < j
            <= v@.len(),
    decreases v@.len() - i, 0int,
{
    let n = v.len();
    if i >= n {
        None
    } else {
        let c = v[i];
        if c == '"' {
            match parse_string_x(v, i) {
                None => None,
                Some((_t, j)) => Some(j),
            }
        } else if c == '-' || is_digit_x(c) {
            skip_number_x(v, i)
        } else if c == 't' {
            if n >= 4 && i <= n - 4 && v[i + 1] == 'r' && v[i + 2] == 'u' && v[i + 3] == 'e' {
                Some(i + 4)
            } else {
                None
            }
        } else if c == 'f' {
            if n >= 5 && i <= n - 5 && v[i + 1] == 'a' && v[i + 2] == 'l' && v[i + 3] == 's'
                && v[i + 4] == 'e' {
                Some(i + 5)
            } else {
                None
            }
        } else if c == 'n' {
            if n >= 4 && i <= n - 4 && v[i + 1] == 'u' && v[i + 2] == 'l' && v[i + 3] == 'l' {
                Some(i + 4)
            } else {
                None
            }
        } else if c == '{' {
            let j = skip_ws_x(v, i + 1);
            if i < j {
                skip_object_rest_x(v, j)
            } else {
                None
            }
        } else if c == '[' {
            let j = skip_ws_x(v, i + 1);
            if i < j {
                skip_array_rest_x(v, j)
            } else {
                None
            }
        } else {
            None
        }
    }
}

fn skip_object_rest_x(v: &Vec<char>, i: usize) -> (r: Option<usize>)
    requires
        i <= v@.len(),
    ensures
        r is Some <==> skip_object_rest(v@, i as int) is Some,
        r matches Some(j) ==> skip_object_rest(v@, i as int) matches Some(sj) && j == sj && i < j
            <= v@.len(),
    decreases v@.len() - i, 2int,
{
    if i >= v.len() {
        None
    } else if v[i] == '}' {
        Some(i + 1)
    } else {
        skip_members_x(v, i)
    }
}

fn skip_members_x(v: &Vec<char>, i: usize) -> (r: Option<usize>)
    requires
        i <= v@.len(),
    ensures
        r is Some <==> skip_members(v@, i as int) is Some,
        r matches Some(j) ==> skip_members(v@, i as int) matches Some(sj) && j == sj && i < j
            <= v@.len(),
    decreases v@.len() - i, 1int,
{
    match parse_string_x(v, i) {
        None => None,
        Some((_key, j)) => {
            let j1 = skip_ws_x(v, j);
            if j1 < v.len() && v[j1] == ':' {
                let j2 = skip_ws_x(v, j1 + 1);
                if i < j2 {
                    match skip_value_x(v, j2) {
                        None => None,
                        Some(j3) => {
                            let j4 = skip_ws_x(v, j3);
                            if j4 < v.len() && v[j4] == ',' {
                                let j5 = skip_ws_x(v, j4 + 1);
                                if i < j5 {
                                    skip_members_x(v, j5)
                                } else {
                                    None
                                }
                            } else if j4 < v.len() && v[j4] == '}' {
                                Some(j4 + 1)
                            } else {
                                None
                            }
                        },
                    }
                } else {
                    None
                }
            } else {
                None
            }
        },
    }
}

fn skip_array_rest_x(v: &Vec<char>, i: usize) -> (r: Option<usize>)
    requires
        i <= v@.len(),
    ensures
        r is Some <==> skip_array_rest(v@, i as int) is Some,
        r matches Some(j) ==> skip_array_rest(v@, i as int) matches Some(sj) && j == sj && i < j
            <= v@.len(),
    decreases v@.len() - i, 2int,
{
    if i >= v.len() {
        None
    } else if v[i] == ']' {
        Some(i + 1)
    } else {
        skip_elements_x(v, i)
    }
}

fn skip_elements_x(v: &Vec<char>, i: usize) -> (r: Option<usize>)
    requires
        i <= v@.len(),
    ensures
        r is Some <==> skip_elements(v@, i as int) is Some,
        r matches Some(j) ==> skip_elements(v@, i as int) matches Some(sj) && j == sj && i < j
            <= v@.len(),
    decreases v@.len() - i, 1int,
{
    match skip_value_x(v, i) {
        None => None,
        Some(j) => {
            let j1 = skip_ws_x(v, j);
            if j1 < v.len() && v[j1] == ',' {
                let j2 = skip_ws_x(v, j1 + 1);
                if i < j2 {
                    skip_elements_x(v, j2)
                } else {
                    None
                }
            } else if j1 < v.len() && v[j1] == ']' {
                Some(j1 + 1)
            } else {
                None
            }
        },
    }
}

/// The members of a record collected so far. The outer `Option` of
/// `internal_id` says whether the member has been seen; its inner value is the
/// member's value, `None` for a JSON `null`.
pub struct AdAcc {
    pub id: Option<Seq<char>>,
    pub internal_id: Option<Option<usize>>,
    pub published_date: Option<Seq<char>>,
    pub title: Option<Seq<char>>,
    pub workplace: Option<Seq<char>>,
    pub workplace_name: Option<Seq<char>>,
}

/// No member seen yet.
pub open spec fn empty_acc() -> AdAcc {
    AdAcc {
        id: None,
        internal_id: None,
        published_date: None,
        title: None,
        workplace: None,
        workplace_name: None,
    }
}

/// The record the collected members make, or `None` where a required member is
/// missing. A missing `internalId` stands for no internal identifier.
pub open spec fn finalize_acc(acc: AdAcc) -> Option<AdView> {
    if acc.id is Some && acc.published_date is Some && acc.title is Some && acc.workplace is Some
        && acc.workplace_name is Some {
        Some(
            AdView {
                id: acc.id.unwrap(),
                internal_id: match acc.internal_id {
                    Some(x) => x,
                    None => None,
                },
                published_date: acc.published_date.unwrap(),
                title: acc.title.unwrap(),
                workplace: acc.workplace.unwrap(),
                workplace_name: acc.workplace_name.unwrap(),
            },
        )
    } else {
        None
    }
}

/// The accumulator after the member named `key`, whose value starts at `i`.
/// A known key must carry a value of its type and may occur only once; an
/// unknown key's value is skipped.
pub open spec fn parse_member_value(s: Seq<char>, i: int, key: Seq<char>, acc: AdAcc) -> Option<
    (AdAcc, int),
> {
    if key == "id"@ {
        if acc.id is Some {
            None
        } else {
            match parse_string(s, i) {
                None => None,
                Some((t, j)) => Some((AdAcc { id: Some(t), ..acc }, j)),
            }
        }
    } else if key == "internalId"@ {
        if acc.internal_id is Some {
            None
        } else if 0 <= i < s.len() && s[i] == 'n' {
            if i + 4 <= s.len() && s[i + 1] == 'u' && s[i + 2] == 'l' && s[i + 3] == 'l' {
                Some((AdAcc { internal_id: Some(None), ..acc }, i + 4))
            } else {
                None
            }
        } else {
            match parse_uint(s, i) {
                None => None,
                Some((nv, j)) => Some((AdAcc { internal_id: Some(Some(nv)), ..acc }, j)),
            }
        }
    } else if key == "publishedDate"@ {
        if acc.published_date is Some {
            None
        } else {
            match parse_string(s, i) {
                None => None,
                Some((t, j)) => Some((AdAcc { published_date: Some(t), ..acc }, j)),
            }
        }
    } else if key == "title"@ {
        if acc.title is Some {
            None
        } else {
            match parse_string(s, i) {
                None => None,
                Some((t, j)) => Some((AdAcc { title: Some(t), ..acc }, j)),
            }
        }
    } else if key == "workplace"@ {
        if acc.workplace is Some {
            None
        } else {
            match parse_string(s, i) {
                None => None,
                Some((t, j)) => Some((AdAcc { workplace: Some(t), ..acc }, j)),
            }
        }
    } else if key == "workplaceName"@ {
        if acc.workplace_name is Some {
            None
        } else {
            match parse_string(s, i) {
                None => None,
                Some((t, j)) => Some((AdAcc { workplace_name: Some(t), ..acc }, j)),
            }
        }
    } else {
        match skip_value(s, i) {
            None => None,
            Some(j) => Some((acc, j)),
        }
    }
}

/// The accumulator after the members of a record object, starting at the first
/// member's key and ending after the closing brace.
pub open spec fn parse_ad_members(s: Seq<char>, i: int, acc: AdAcc) -> Option<(AdAcc, int)>
    decreases s.len() - i,
{
    match parse_string(s, i) {
        None => None,
        Some((key, j)) => if i < j <= s.len() {
            let j1 = skip_ws(s, j);
            if 0 <= j1 < s.len() && s[j1] == ':' {
                let j2 = skip_ws(s, j1 + 1);
                if i < j2 <= s.len() {
                    match parse_member_value(s, j2, key, acc) {
                        None => None,
                        Some((acc2, j3)) => if i < j3 <= s.len() {
                            let j4 = skip_ws(s, j3);
                            if j4 < s.len() && s[j4] == ',' {
                                let j5 = skip_ws(s, j4 + 1);
                                if i < j5 <= s.len() {
                                    parse_ad_members(s, j5, acc2)
                                } else {
                                    None
                                }
                            } else if j4 < s.len() && s[j4] == '}' {
                                Some((acc2, j4 + 1))
                            } else {
                                None
                            }
                        } else {
                            None
                        },
                    }
                } else {
                    None
                }
            } else {
                None
            }
        } else {
            None
        },
    }
}

/// The record whose object starts at `i`, and the position after it.
pub open spec fn parse_ad(s: Seq<char>, i: int) -> Option<(AdView, int)> {
    if 0 <= i < s.len() && s[i] == '{' {
        let j = skip_ws(s, i + 1);
        if i < j <= s.len() {
            if j < s.len() && s[j] == '}' {
                None
            } else {
                match parse_ad_members(s, j, empty_acc()) {
                    None => None,
                    Some((acc, k)) => match finalize_acc(acc) {
                        None => None,
                        Some(ad) => Some((ad, k)),
                    },
                }
            }
        } else {
            None
        }
    } else {
        None
    }
}

/// The records of a non-empty record list starting at `i`, and the position
/// after the closing bracket.
pub open spec fn parse_ad_list(s: Seq<char>, i: int) -> Option<(Seq<AdView>, int)>
    decreases s.len() - i,
{
    match parse_ad(s, i) {
        None => None,
        Some((ad, j)) => if i < j <= s.len() {
            let j1 = skip_ws(s, j);
            if j1 < s.len() && s[j1] == ',' {
                let j2 = skip_ws(s, j1 + 1);
                if i < j2 <= s.len() {
                    match parse_ad_list(s, j2) {
                        None => None,
                        Some((rest, k)) => Some((seq![ad] + rest, k)),
                    }
                } else {
                    None
                }
            } else if j1 < s.len() && s[j1] == ']' {
                Some((seq![ad], j1 + 1))
            } else {
                None
            }
        } else {
            None
        },
    }
}

/// The records of the array starting at `i`, and the position after it.
pub open spec fn parse_ads_array(s: Seq<char>, i: int) -> Option<(Seq<AdView>, int)> {
    if 0 <= i < s.len() && s[i] == '[' {
        let j = skip_ws(s, i + 1);
        if i < j <= s.len() {
            if j < s.len() && s[j] == ']' {
                Some((Seq::empty(), j + 1))
            } else {
                parse_ad_list(s, j)
            }
        } else {
            None
        }
    } else {
        None
    }
}

/// The records of the response object's members, starting at the first
/// member's key and ending after the closing brace. The `ads` member must
/// occur exactly once; other members are skipped.
pub open spec fn parse_top_members(s: Seq<char>, i: int, acc: Option<Seq<AdView>>) -> Option<
    (Seq<AdView>, int),
>
    decreases s.len() - i,
{
    match parse_string(s, i) {
        None => None,
        Some((key, j)) => if i < j <= s.len() {
            let j1 = skip_ws(s, j);
            if 0 <= j1 < s.len() && s[j1] == ':' {
                let j2 = skip_ws(s, j1 + 1);
                if i < j2 <= s.len() {
                    let step: Option<(Option<Seq<AdView>>, int)> = if key == "ads"@ {
                        if acc is Some {
                            None
                        } else {
                            match parse_ads_array(s, j2) {
                                None => None,
                                Some((ads, j3)) => Some((Some(ads), j3)),
                            }
                        }
                    } else {
                        match skip_value(s, j2) {
                            None => None,
                            Some(j3) => Some((acc, j3)),
                        }
                    };
                    match step {
                        None => None,
                        Some((acc2, j3)) => if i < j3 <= s.len() {
                            let j4 = skip_ws(s, j3);
                            if j4 < s.len() && s[j4] == ',' {
                                let j5 = skip_ws(s, j4 + 1);
                                if i < j5 <= s.len() {
                                    parse_top_members(s, j5, acc2)
                                } else {
                                    None
                                }
                            } else if j4 < s.len() && s[j4] == '}' {
                                match acc2 {
                                    None => None,
                                    Some(ads) => Some((ads, j4 + 1)),
                                }
                            } else {
                                None
                            }
                        } else {
                            None
                        },
                    }
                } else {
                    None
                }
            } else {
                None
            }
        } else {
            None
        },
    }
}

/// The records of a whole response body: one object holding an `ads` member,
/// with nothing but blanks after it.
pub open spec fn parse_top(s: Seq<char>) -> Option<Seq<AdView>> {
    let i = skip_ws(s, 0);
    if 0 <= i < s.len() && s[i] == '{' {
        let j = skip_ws(s, i + 1);
        if i < j <= s.len() {
            let res = if j < s.len() && s[j] == '}' {
                None
            } else {
                parse_top_members(s, j, None)
            };
            match res {
                None => None,
                Some((ads, k)) => {
                    let e = skip_ws(s, k);
                    if e == s.len() {
                        Some(ads)
                    } else {
                        None
                    }
                },
            }
        } else {
            None
        }
    } else {
        None
    }
}

/// What a response body decodes to: its records, provided every record's
/// published-date text denotes an instant; `None` where the body is malformed.
pub open spec fn spec_decode(s: Seq<char>) -> Option<Seq<AdView>> {
    match parse_top(s) {
        None => None,
        Some(ads) => if forall|k: int|
            0 <= k < ads.len() ==> (#[trigger] instant_of(ads[k].published_date)) is Some {
            Some(ads)
        } else {
            None
        },
    }
}

pub(crate) fn chars_eq_str(v: &Vec<char>, s: &str) -> (r: bool)
    ensures
        r == (v@ == s@),
{
    let n = s.unicode_len();
    if n != v.len() {
        return false;
    }
    let mut i: usize = 0;
    while i < n
        invariant
            i <= n,
            n == v@.len(),
            n == s@.len(),
            forall|k: int| 0 <= k < i ==> v@[k] == s@[k],
        decreases n - i,
    {
        if v[i] != s.get_char(i) {
            return false;
        }
        i = i + 1;
    }
    proof {
        assert(v@ =~= s@);
    }
    true
}

struct AdAccX {
    id: Option<Vec<char>>,
    internal_id: Option<Option<usize>>,
    published_date: Option<Vec<char>>,
    title: Option<Vec<char>>,
    workplace: Option<Vec<char>>,
    workplace_name: Option<Vec<char>>,
}

impl AdAccX {
    spec fn acc_view(&self) -> AdAcc {
        AdAcc {
            id: match self.id {
                Some(ref t) => Some(t@),
                None => None,
            },
            internal_id: self.internal_id,
            published_date: match self.published_date {
                Some(ref t) => Some(t@),
                None => None,
            },
            title: match self.title {
                Some(ref t) => Some(t@),
                None => None,
            },
            workplace: match self.workplace {
                Some(ref t) => Some(t@),
                None => None,
            },
            workplace_name: match self.workplace_name {
                Some(ref t) => Some(t@),
                None => None,
            },
        }
    }

    fn empty() -> (r: AdAccX)
        ensures
            r.acc_view() == empty_acc(),
    {
        AdAccX {
            id: None,
            internal_id: None,
            published_date: None,
            title: None,
            workplace: None,
            workplace_name: None,
        }
    }
}

fn finalize_x(acc: AdAccX) -> (r: Option<AmsDataItem>)
    ensures
        r is Some <==> finalize_acc(acc.acc_view()) is Some,
        r matches Some(ad) ==> ad@ == finalize_acc(acc.acc_view()).unwrap(),
{
    let internal_id: Option<usize> = match acc.internal_id {
        Some(x) => x,
        None => None,
    };
    match (acc.id, acc.published_date, acc.title, acc.workplace, acc.workplace_name) {
        (Some(id), Some(pd), Some(t), Some(w), Some(wn)) => Some(
            AmsDataItem {
                id: string_from_chars(id),
                internal_id,
                published_date: string_from_chars(pd),
                title: string_from_chars(t),
                workplace: string_from_chars(w),
                workplace_name: string_from_chars(wn),
            },
        ),
        _ => None,
    }
}

fn parse_member_value_x(v: &Vec<char>, i: usize, key: &Vec<char>, acc: AdAccX) -> (r: Option<
    (AdAccX, usize),
>)
    requires
        i <= v@.len(),
    ensures
        r is Some <==> parse_member_value(v@, i as int, key@, acc.acc_view()) is Some,
        r matches Some(p) ==> parse_member_value(v@, i as int, key@, acc.acc_view()) matches Some(
            q,
        ) && p.0.acc_view() == q.0 && p.1 == q.1 && i < p.1 <= v@.len(),
{
    let n = v.len();
    if chars_eq_str(key, "id") {
        if acc.id.is_some() {
            None
        } else {
            match parse_string_x(v, i) {
                None => None,
                Some((t, j)) => Some((AdAccX { id: Some(t), ..acc }, j)),
            }
        }
    } else if chars_eq_str(key, "internalId") {
        if acc.internal_id.is_some() {
            None
        } else if i < n && v[i] == 'n' {
            if n >= 4 && i <= n - 4 && v[i + 1] == 'u' && v[i + 2] == 'l' && v[i + 3] == 'l' {
                Some((AdAccX { internal_id: Some(None), ..acc }, i + 4))
            } else {
                None
            }
        } else {
            match parse_uint_x(v, i) {
                None => None,
                Some((nv, j)) => Some((AdAccX { internal_id: Some(Some(nv)), ..acc }, j)),
            }
        }
    } else if chars_eq_str(key, "publishedDate") {
        if acc.published_date.is_some() {
            None
        } else {
            match parse_string_x(v, i) {
                None => None,
                Some((t, j)) => Some((AdAccX { published_date: Some(t), ..acc }, j)),
            }
        }
    } else if chars_eq_str(key, "title") {
        if acc.title.is_some() {
            None
        } else {
            match parse_string_x(v, i) {
                None => None,
                Some((t, j)) => Some((AdAccX { title: Some(t), ..acc }, j)),
            }
        }
    } else if chars_eq_str(key, "workplace") {
        if acc.workplace.is_some() {
            None
        } else {
            match parse_string_x(v, i) {
                None => None,
                Some((t, j)) => Some((AdAccX { workplace: Some(t), ..acc }, j)),
            }
        }
    } else if chars_eq_str(key, "workplaceName") {
        if acc.workplace_name.is_some() {
            None
        } else {
            match parse_string_x(v, i) {
                None => None,
                Some((t, j)) => Some((AdAccX { workplace_name: Some(t), ..acc }, j)),
            }
        }
    } else {
        match skip_value_x(v, i) {
            None => None,
            Some(j) => Some((acc, j)),
        }
    }
}

fn parse_ad_members_x(v: &Vec<char>, i: usize, acc: AdAccX) -> (r: Option<(AdAccX, usize)>)
    requires
        i <= v@.len(),
    ensures
        r is Some <==> parse_ad_members(v@, i as int, acc.acc_view()) is Some,
        r matches Some(p) ==> parse_ad_members(v@, i as int, acc.acc_view()) matches Some(q)
            && p.0.acc_view() == q.0 && p.1 == q.1 && i < p.1 <= v@.len(),
    decreases v@.len() - i,
{
    match parse_string_x(v, i) {
        None => None,
        Some((key, j)) => {
            let j1 = skip_ws_x(v, j);
            if j1 < v.len() && v[j1] == ':' {
                let j2 = skip_ws_x(v, j1 + 1);
                if i < j2 {
                    match parse_member_value_x(v, j2, &key, acc) {
                        None => None,
                        Some((acc2, j3)) => {
                            let j4 = skip_ws_x(v, j3);
                            if j4 < v.len() && v[j4] == ',' {
                                let j5 = skip_ws_x(v, j4 + 1);
                                if i < j5 {
                                    parse_ad_members_x(v, j5, acc2)
                                } else {
                                    None
                                }
                            } else if j4 < v.len() && v[j4] == '}' {
                                Some((acc2, j4 + 1))
                            } else {
                                None
                            }
                        },
                    }
                } else {
                    None
                }
            } else {
                None
            }
        },
    }
}

fn parse_ad_x(v: &Vec<char>, i: usize) -> (r: Option<(AmsDataItem, usize)>)
    requires
        i <= v@.len(),
    ensures
        r is Some <==> parse_ad(v@, i as int) is Some,
        r matches Some(p) ==> parse_ad(v@, i as int) matches Some(q) && p.0@ == q.0 && p.1 == q.1
            && i < p.1 <= v@.len(),
{
    if i < v.len() && v[i] == '{' {
        let j = skip_ws_x(v, i + 1);
        if i < j {
            if j < v.len() && v[j] == '}' {
                None
            } else {
                match parse_ad_members_x(v, j, AdAccX::empty()) {
                    None => None,
                    Some((acc, k)) => match finalize_x(acc) {
                        None => None,
                        Some(ad) => Some((ad, k)),
                    },
                }
            }
        } else {
            None
        }
    } else {
        None
    }
}

fn parse_ad_list_x(v: &Vec<char>, i: usize) -> (r: Option<(Vec<AmsDataItem>, usize)>)
    requires
        i <= v@.len(),
    ensures
        r is Some <==> parse_ad_list(v@, i as int) is Some,
        r matches Some(p) ==> parse_ad_list(v@, i as int) matches Some(q) && crate::adverts::views_of(
            p.0@,
        ) == q.0 && p.1 == q.1 && i < p.1 <= v@.len(),
    decreases v@.len() - i,
{
    match parse_ad_x(v, i) {
        None => None,
        Some((ad, j)) => {
            let j1 = skip_ws_x(v, j);
            if j1 < v.len() && v[j1] == ',' {
                let j2 = skip_ws_x(v, j1 + 1);
                if i < j2 {
                    match parse_ad_list_x(v, j2) {
                        None => None,
                        Some((mut rest, k)) => {
                            rest.insert(0, ad);
                            proof {
                                let (sad, sj) = parse_ad(v@, i as int).unwrap();
                                let (srest, sk) = parse_ad_list(v@, j2 as int).unwrap();
                                assert(crate::adverts::views_of(rest@) =~= seq![sad] + srest);
                            }
                            Some((rest, k))
                        },
                    }
                } else {
                    None
                }
            } else if j1 < v.len() && v[j1] == ']' {
                let mut one: Vec<AmsDataItem> = Vec::new();
                one.push(ad);
                proof {
                    let (sad, sj) = parse_ad(v@, i as int).unwrap();
                    assert(crate::adverts::views_of(one@) =~= seq![sad]);
                }
                Some((one, j1 + 1))
            } else {
                None
            }
        },
    }
}

fn parse_ads_array_x(v: &Vec<char>, i: usize) -> (r: Option<(Vec<AmsDataItem>, usize)>)
    requires
        i <= v@.len(),
    ensures
        r is Some <==> parse_ads_array(v@, i as int) is Some,
        r matches Some(p) ==> parse_ads_array(v@, i as int) matches Some(q)
            && crate::adverts::views_of(p.0@) == q.0 && p.1 == q.1 && i < p.1 <= v@.len(),
{
    if i < v.len() && v[i] == '[' {
        let j = skip_ws_x(v, i + 1);
        if i < j {
            if j < v.len() && v[j] == ']' {
                let empty: Vec<AmsDataItem> = Vec::new();
                proof {
                    assert(crate::adverts::views_of(empty@) =~= Seq::<AdView>::empty());
                }
                Some((empty, j + 1))
            } else {
                parse_ad_list_x(v, j)
            }
        } else {
            None
        }
    } else {
        None
    }
}

spec fn acc_views_of(acc: Option<Vec<AmsDataItem>>) -> Option<Seq<AdView>> {
    match acc {
        Some(ref items) => Some(crate::adverts::views_of(items@)),
        None => None,
    }
}

fn parse_top_members_x(v: &Vec<char>, i: usize, acc: Option<Vec<AmsDataItem>>) -> (r: Option<
    (Vec<AmsDataItem>, usize),
>)
    requires
        i <= v@.len(),
    ensures
        r is Some <==> parse_top_members(v@, i as int, acc_views_of(acc)) is Some,
        r matches Some(p) ==> parse_top_members(v@, i as int, acc_views_of(acc)) matches Some(q)
            && crate::adverts::views_of(p.0@) == q.0 && p.1 == q.1 && i < p.1 <= v@.len(),
    decreases v@.len() - i,
{
    match parse_string_x(v, i) {
        None => None,
        Some((key, j)) => {
            let j1 = skip_ws_x(v, j);
            if j1 < v.len() && v[j1] == ':' {
                let j2 = skip_ws_x(v, j1 + 1);
                if i < j2 {
                    let step: Option<(Option<Vec<AmsDataItem>>, usize)> = if chars_eq_str(
                        &key,
                        "ads",
                    ) {
                        if acc.is_some() {
                            None
                        } else {
                            match parse_ads_array_x(v, j2) {
                                None => None,
                                Some((ads, j3)) => Some((Some(ads), j3)),
                            }
                        }
                    } else {
                        match skip_value_x(v, j2) {
                            None => None,
                            Some(j3) => Some((acc, j3)),
                        }
                    };
                    match step {
                        None => None,
                        Some((acc2, j3)) => {
                            let j4 = skip_ws_x(v, j3);
                            if j4 < v.len() && v[j4] == ',' {
                                let j5 = skip_ws_x(v, j4 + 1);
                                if i < j5 {
                                    parse_top_members_x(v, j5, acc2)
                                } else {
                                    None
                                }
                            } else if j4 < v.len() && v[j4] == '}' {
                                match acc2 {
                                    None => None,
                                    Some(ads) => Some((ads, j4 + 1)),
                                }
                            } else {
                                None
                            }
                        },
                    }
                } else {
                    None
                }
            } else {
                None
            }
        },
    }
}

fn parse_top_x(v: &Vec<char>) -> (r: Option<Vec<AmsDataItem>>)
    ensures
        r is Some <==> parse_top(v@) is Some,
        r matches Some(items) ==> parse_top(v@) matches Some(q) && crate::adverts::views_of(items@)
            == q,
{
    let i = skip_ws_x(v, 0);
    if i < v.len() && v[i] == '{' {
        let j = skip_ws_x(v, i + 1);
        if i < j {
            let res: Option<(Vec<AmsDataItem>, usize)> = if j < v.len() && v[j] == '}' {
                None
            } else {
                parse_top_members_x(v, j, None)
            };
            match res {
                None => None,
                Some((ads, k)) => {
                    let e = skip_ws_x(v, k);
                    if e == v.len() {
                        Some(ads)
                    } else {
                        None
                    }
                },
            }
        } else {
            None
        }
    } else {
        None
    }
}

/// Decodes a response body into its advertisement records.
///
/// The decode succeeds exactly on the bodies that [`spec_decode`] accepts, and
/// then returns exactly the records that [`spec_decode`] denotes; any other
/// body is reported as malformed.
pub fn decode(s: &str) -> (r: Result<AmsData, AmsError>)
    ensures
        r is Ok <==> spec_decode(s@) is Some,
        r matches Ok(data) ==> data@ == spec_decode(s@).unwrap(),
        r matches Err(e) ==> e is Malformed,
{
    let v = chars_of(s);
    match parse_top_x(&v) {
        None => Err(AmsError::Malformed),
        Some(items) => {
            let ghost sads = parse_top(s@).unwrap();
            let mut k: usize = 0;
            let m = items.len();
            while k < m
                invariant
                    k <= m,
                    m == items@.len(),
                    parse_top(s@) matches Some(sa) && sa == sads,
                    crate::adverts::views_of(items@) == sads,
                    forall|t: int|
                        0 <= t < k ==> (#[trigger] instant_of(sads[t].published_date)) is Some,
                decreases m - k,
            {
                proof {
                    assert(sads[k as int] == crate::adverts::views_of(items@)[k as int]);
                }
                if parse_instant(items[k].published_date.as_str()).is_none() {
                    proof {
                        assert(instant_of(sads[k as int].published_date) is None);
                    }
                    return Err(AmsError::Malformed);
                }
                k = k + 1;
            }
            Ok(AmsData { ads: items })
        },
    }
}

} // verus!
