//! Integer syntax as `str::parse` and `from_str_radix` accept it, with the
//! overflow checks of each target type.

use vstd::prelude::*;
use crate::text::{is_digit, is_hex_digit, is_ascii_digit, is_ascii_hex_digit};

verus! {

/// `c` is a digit of the given radix (10 or 16), as `char::to_digit` counts it.
pub open spec fn is_radix_digit(c: char, radix: nat) -> bool {
    if radix == 16 {
        is_hex_digit(c)
    } else {
        is_digit(c)
    }
}

/// The value of a digit character.
pub open spec fn digit_value(c: char) -> nat {
    if '0' <= c && c <= '9' {
        (c as nat - '0' as nat) as nat
    } else if 'a' <= c && c <= 'f' {
        (c as nat - 'a' as nat + 10) as nat
    } else {
        (c as nat - 'A' as nat + 10) as nat
    }
}

pub open spec fn all_radix_digits(s: Seq<char>, radix: nat) -> bool {
    forall|k: int| 0 <= k < s.len() ==> is_radix_digit(#[trigger] s[k], radix)
}

/// The number that a string of digits writes, most significant first.
pub open spec fn digits_value(s: Seq<char>, radix: nat) -> nat
    decreases s.len(),
{
    if s.len() == 0 {
        0
    } else {
        digits_value(s.drop_last(), radix) * radix + digit_value(s.last())
    }
}

/// The digits that an unsigned number's text holds once an optional leading `+` is dropped.
pub open spec fn unsigned_digits(s: Seq<char>) -> Seq<char> {
    if s.len() > 0 && s[0] == '+' {
        s.drop_first()
    } else {
        s
    }
}

/// The value of an unsigned integer's text as `from_str_radix` reads it, before any range
/// check: an optional `+`, then one or more digits.
pub open spec fn unsigned_value(s: Seq<char>, radix: nat) -> Option<nat> {
    let d = unsigned_digits(s);
    if d.len() > 0 && all_radix_digits(d, radix) {
        Some(digits_value(d, radix))
    } else {
        None
    }
}

/// The value of a signed integer's text as `from_str_radix` reads it, before any range
/// check: an optional `+` or `-`, then one or more decimal digits.
pub open spec fn signed_value(s: Seq<char>) -> Option<int> {
    let neg = s.len() > 0 && s[0] == '-';
    let d = if s.len() > 0 && (s[0] == '+' || s[0] == '-') {
        s.drop_first()
    } else {
        s
    };
    if d.len() > 0 && all_radix_digits(d, 10) {
        if neg {
            Some(-(digits_value(d, 10) as int))
        } else {
            Some(digits_value(d, 10) as int)
        }
    } else {
        None
    }
}

/// `s.parse::<u32>()`.
pub open spec fn parse_u32(s: Seq<char>) -> Option<u32> {
    match unsigned_value(s, 10) {
        Some(n) => if n <= u32::MAX {
            Some(n as u32)
        } else {
            None
        },
        None => None,
    }
}

/// `s.parse::<u16>()`.
pub open spec fn parse_u16(s: Seq<char>) -> Option<u16> {
    match unsigned_value(s, 10) {
        Some(n) => if n <= u16::MAX {
            Some(n as u16)
        } else {
            None
        },
        None => None,
    }
}

/// `u64::from_str_radix(s, 16)`.
pub open spec fn parse_u64_hex(s: Seq<char>) -> Option<u64> {
    match unsigned_value(s, 16) {
        Some(n) => if n <= u64::MAX {
            Some(n as u64)
        } else {
            None
        },
        None => None,
    }
}

/// `s.parse::<i32>()`.
pub open spec fn parse_i32(s: Seq<char>) -> Option<i32> {
    match signed_value(s) {
        Some(n) => if i32::MIN <= n <= i32::MAX {
            Some(n as i32)
        } else {
            None
        },
        None => None,
    }
}

/// `s.parse::<i64>()`.
pub open spec fn parse_i64(s: Seq<char>) -> Option<i64> {
    match signed_value(s) {
        Some(n) => if i64::MIN <= n <= i64::MAX {
            Some(n as i64)
        } else {
            None
        },
        None => None,
    }
}

pub proof fn lemma_digits_value_take(s: Seq<char>, radix: nat, i: int)
    requires
        0 <= i < s.len(),
    ensures
        digits_value(s.take(i + 1), radix) == digits_value(s.take(i), radix) * radix
            + digit_value(s[i]),
{
    assert(s.take(i + 1).drop_last() =~= s.take(i));
}

/// Appending digits never makes the value smaller.
pub proof fn lemma_digits_value_grows(s: Seq<char>, radix: nat, i: int)
    requires
        0 <= i <= s.len(),
        radix >= 1,
    ensures
        digits_value(s.take(i), radix) <= digits_value(s, radix),
    decreases s.len() - i,
{
    if i < s.len() {
        lemma_digits_value_take(s, radix, i);
        let a = digits_value(s.take(i), radix);
        assert(a <= a * radix) by (nonlinear_arith)
            requires
                radix >= 1,
        ;
        lemma_digits_value_grows(s, radix, i + 1);
    } else {
        assert(s.take(i) =~= s);
    }
}

fn char_digit_value(c: char) -> (d: u64)
    requires
        is_hex_digit(c),
    ensures
        d == digit_value(c),
        d < 16,
{
    let u: u32 = c as u32;
    if '0' <= c && c <= '9' {
        (u - 48) as u64
    } else if 'a' <= c && c <= 'f' {
        (u - 87) as u64
    } else {
        (u - 55) as u64
    }
}

/// The value of the digits `v[start..]` in the given radix, when every character there
/// is such a digit and the value does not exceed `max`.
fn digits_bounded(v: &Vec<char>, start: usize, radix: u64, max: u64) -> (r: Option<u64>)
    requires
        start <= v.len(),
        radix == 10 || radix == 16,
    ensures
        r == (if all_radix_digits(v@.skip(start as int), radix as nat) && digits_value(
            v@.skip(start as int),
            radix as nat,
        ) <= max {
            Some(digits_value(v@.skip(start as int), radix as nat) as u64)
        } else {
            None
        }),
{
    let ghost d = v@.skip(start as int);
    let mut acc: u64 = 0;
    let mut i: usize = start;
    assert(d.take(0) =~= Seq::<char>::empty());
    while i < v.len()
        invariant
            start <= i <= v.len(),
            radix == 10 || radix == 16,
            d == v@.skip(start as int),
            acc == digits_value(d.take(i - start), radix as nat),
            acc <= max,
            forall|k: int| 0 <= k < i - start ==> is_radix_digit(#[trigger] d[k], radix as nat),
        decreases v.len() - i,
    {
        let c = v[i];
        let ok = if radix == 16 {
            is_ascii_hex_digit(c)
        } else {
            is_ascii_digit(c)
        };
        assert(d[i - start] == c);
        if !ok {
            return None;
        }
        let dv = char_digit_value(c);
        proof {
            lemma_digits_value_take(d, radix as nat, i - start);
        }
        if dv > max || acc > (max - dv) / radix {
            proof {
                let a = acc as int;
                let r = radix as int;
                let m = max as int;
                let e = dv as int;
                assert(a * r + e > m) by (nonlinear_arith)
                    requires
                        a > (m - e) / r || e > m,
                        r > 0,
                        a >= 0,
                        e >= 0,
                        m >= 0,
                ;
                lemma_digits_value_grows(d, radix as nat, i + 1 - start);
            }
            return None;
        }
        proof {
            let a = acc as int;
            let r = radix as int;
            let m = max as int;
            let e = dv as int;
            assert(a * r + e <= m) by (nonlinear_arith)
                requires
                    a <= (m - e) / r,
                    e <= m,
                    r > 0,
                    a >= 0,
            ;
        }
        acc = acc * radix + dv;
        i = i + 1;
    }
    assert(d.take(i - start) =~= d);
    Some(acc)
}

/// `s` read as an unsigned number in the given radix, when it does not exceed `max`.
pub fn parse_unsigned_bounded(v: &Vec<char>, radix: u64, max: u64) -> (r: Option<u64>)
    requires
        radix == 10 || radix == 16,
    ensures
        r == (match unsigned_value(v@, radix as nat) {
            Some(n) => if n <= max {
                Some(n as u64)
            } else {
                None
            },
            None => None,
        }),
{
    let start: usize = if v.len() > 0 && v[0] == '+' {
        1
    } else {
        0
    };
    assert(unsigned_digits(v@) =~= v@.skip(start as int));
    if start >= v.len() {
        return None;
    }
    digits_bounded(v, start, radix, max)
}

pub fn parse_u32_chars(v: &Vec<char>) -> (r: Option<u32>)
    ensures
        r == parse_u32(v@),
{
    match parse_unsigned_bounded(v, 10, 0xffff_ffff) {
        Some(n) => Some(n as u32),
        None => None,
    }
}

pub fn parse_u16_chars(v: &Vec<char>) -> (r: Option<u16>)
    ensures
        r == parse_u16(v@),
{
    match parse_unsigned_bounded(v, 10, 0xffff) {
        Some(n) => Some(n as u16),
        None => None,
    }
}

pub fn parse_u64_hex_chars(v: &Vec<char>) -> (r: Option<u64>)
    ensures
        r == parse_u64_hex(v@),
{
    parse_unsigned_bounded(v, 16, 0xffff_ffff_ffff_ffff)
}

pub open spec fn abs(n: int) -> int {
    if n < 0 {
        -n
    } else {
        n
    }
}

/// The sign and magnitude of a signed decimal number's text, when the magnitude does not
/// exceed `max`.
fn signed_parts(v: &Vec<char>, max: u64) -> (r: Option<(bool, u64)>)
    ensures
        match r {
            Some((neg, m)) => signed_value(v@) == Some(if neg {
                -(m as int)
            } else {
                m as int
            }) && m <= max,
            None => match signed_value(v@) {
                Some(n) => abs(n) > max,
                None => true,
            },
        },
{
    let neg = v.len() > 0 && v[0] == '-';
    let start: usize = if v.len() > 0 && (v[0] == '+' || v[0] == '-') {
        1
    } else {
        0
    };
    proof {
        let d = if v@.len() > 0 && (v@[0] == '+' || v@[0] == '-') {
            v@.drop_first()
        } else {
            v@
        };
        assert(d =~= v@.skip(start as int));
    }
    if start >= v.len() {
        return None;
    }
    match digits_bounded(v, start, 10, max) {
        Some(m) => Some((neg, m)),
        None => None,
    }
}

pub fn parse_i32_chars(v: &Vec<char>) -> (r: Option<i32>)
    ensures
        r == parse_i32(v@),
{
    match signed_parts(v, 0x8000_0000) {
        Some((neg, m)) => {
            if neg {
                if m == 0x8000_0000 {
                    Some(i32::MIN)
                } else {
                    Some(-(m as i32))
                }
            } else if m <= 0x7fff_ffff {
                Some(m as i32)
            } else {
                None
            }
        },
        None => None,
    }
}

pub fn parse_i64_chars(v: &Vec<char>) -> (r: Option<i64>)
    ensures
        r == parse_i64(v@),
{
    match signed_parts(v, 0x8000_0000_0000_0000) {
        Some((neg, m)) => {
            if neg {
                if m == 0x8000_0000_0000_0000 {
                    Some(i64::MIN)
                } else {
                    Some(-(m as i64))
                }
            } else if m <= 0x7fff_ffff_ffff_ffff {
                Some(m as i64)
            } else {
                None
            }
        },
        None => None,
    }
}


/// Why a decimal text does not read as an integer: the kinds of `core::num::IntErrorKind`
/// that `str::parse` gives.
#[derive(Debug, Clone, Copy, PartialEq, Eq, Structural)]
pub enum NumberError {
    /// The text is empty.
    Empty,
    /// A character is not a digit (a lone or misplaced sign among them).
    InvalidDigit,
    /// The number is above the type's range.
    TooLarge,
    /// The number is below the type's range.
    TooSmall,
}

/// The text that `ParseIntError` displays for each kind.
pub open spec fn number_error_text(e: NumberError) -> Seq<char> {
    match e {
        NumberError::Empty => "cannot parse integer from empty string"@,
        NumberError::InvalidDigit => "invalid digit found in string"@,
        NumberError::TooLarge => "number too large to fit in target type"@,
        NumberError::TooSmall => "number too small to fit in target type"@,
    }
}

impl NumberError {
    pub fn message(&self) -> (s: String)
        ensures
            s@ == number_error_text(*self),
    {
        match self {
            NumberError::Empty => String::from_str("cannot parse integer from empty string"),
            NumberError::InvalidDigit => String::from_str("invalid digit found in string"),
            NumberError::TooLarge => String::from_str("number too large to fit in target type"),
            NumberError::TooSmall => String::from_str("number too small to fit in target type"),
        }
    }
}

/// Reading the digits `d` from index `k`, `v` being the value of those before (counted
/// downwards when `neg`): the first character that is not a digit, or the first digit that
/// takes the value out of `lo..=hi`, decides the error.
pub open spec fn scan_error(d: Seq<char>, k: int, v: int, neg: bool, lo: int, hi: int) -> NumberError
    decreases d.len() - k,
{
    if k < 0 || k >= d.len() {
        NumberError::InvalidDigit
    } else if !is_digit(d[k]) {
        NumberError::InvalidDigit
    } else {
        let w = if neg {
            v * 10 - digit_value(d[k])
        } else {
            v * 10 + digit_value(d[k])
        };
        if w < lo {
            NumberError::TooSmall
        } else if w > hi {
            NumberError::TooLarge
        } else {
            scan_error(d, k + 1, w, neg, lo, hi)
        }
    }
}

/// The error of `str::parse` on the decimal text `s` for an integer type of range
/// `lo..=hi` (signed when `lo < 0`), for a text that does not read: an empty text is
/// `Empty`, a lone sign an invalid digit; otherwise one leading `+` (or, for a signed type,
/// `-`) is dropped and the digits are read from the left as [`scan_error`] says.
pub open spec fn int_error(s: Seq<char>, lo: int, hi: int) -> NumberError {
    if s.len() == 0 {
        NumberError::Empty
    } else if s.len() == 1 && (s[0] == '+' || s[0] == '-') {
        NumberError::InvalidDigit
    } else {
        let neg = lo < 0 && s[0] == '-';
        let d = if s[0] == '+' || neg {
            s.drop_first()
        } else {
            s
        };
        scan_error(d, 0, 0, neg, lo, hi)
    }
}

/// The error of reading `v` as an integer of range `lo..=hi` (see [`int_error`]).
pub fn int_error_chars(v: &Vec<char>, lo: i128, hi: i128) -> (e: NumberError)
    requires
        -0x1_0000_0000_0000_0000 <= lo <= 0 <= hi <= 0x1_0000_0000_0000_0000,
    ensures
        e == int_error(v@, lo as int, hi as int),
{
    if v.len() == 0 {
        return NumberError::Empty;
    }
    if v.len() == 1 && (v[0] == '+' || v[0] == '-') {
        return NumberError::InvalidDigit;
    }
    let neg = lo < 0 && v[0] == '-';
    let start: usize = if v[0] == '+' || neg {
        1
    } else {
        0
    };
    let ghost d = if v@[0] == '+' || neg {
        v@.drop_first()
    } else {
        v@
    };
    assert(d =~= v@.skip(start as int));
    assert(int_error(v@, lo as int, hi as int) == scan_error(d, 0, 0, neg, lo as int, hi as int));
    let mut k: usize = start;
    let mut acc: i128 = 0;
    while k < v.len()
        invariant
            start <= k <= v.len(),
            start <= 1,
            d == v@.skip(start as int),
            -0x1_0000_0000_0000_0000 <= lo <= 0 <= hi <= 0x1_0000_0000_0000_0000,
            lo <= acc <= hi,
            int_error(v@, lo as int, hi as int) == scan_error(d, 0, 0, neg, lo as int, hi as int),
            scan_error(d, k - start, acc as int, neg, lo as int, hi as int) == scan_error(
                d,
                0,
                0,
                neg,
                lo as int,
                hi as int,
            ),
        decreases v.len() - k,
    {
        let c = v[k];
        assert(d[k - start] == c);
        if !is_ascii_digit(c) {
            return NumberError::InvalidDigit;
        }
        let dv: i128 = (c as u32 - '0' as u32) as i128;
        assert(dv == digit_value(c));
        let w: i128 = if neg {
            acc * 10 - dv
        } else {
            acc * 10 + dv
        };
        if w < lo {
            return NumberError::TooSmall;
        }
        if w > hi {
            return NumberError::TooLarge;
        }
        acc = w;
        k = k + 1;
    }
    NumberError::InvalidDigit
}

/// The error of `s.parse::<u32>()` (see [`int_error`]).
pub fn u32_error_chars(v: &Vec<char>) -> (e: NumberError)
    ensures
        e == int_error(v@, 0, u32::MAX as int),
{
    int_error_chars(v, 0, 0xffff_ffff)
}

/// The error of `s.parse::<u16>()` (see [`int_error`]).
pub fn u16_error_chars(v: &Vec<char>) -> (e: NumberError)
    ensures
        e == int_error(v@, 0, u16::MAX as int),
{
    int_error_chars(v, 0, 0xffff)
}

/// The error of `s.parse::<i64>()` (see [`int_error`]).
pub fn i64_error_chars(v: &Vec<char>) -> (e: NumberError)
    ensures
        e == int_error(v@, i64::MIN as int, i64::MAX as int),
{
    int_error_chars(v, -0x8000_0000_0000_0000, 0x7fff_ffff_ffff_ffff)
}

/// The character of a decimal digit.
pub open spec fn digit_char(d: nat) -> char {
    ((d + 48) as u8) as char
}

/// The decimal writing of `n`, as `format!("{}", n)` gives it.
pub open spec fn decimal(n: nat) -> Seq<char>
    decreases n,
{
    if n < 10 {
        seq![digit_char(n)]
    } else {
        decimal(n / 10).push(digit_char(n % 10))
    }
}

/// The decimal writing of `n` in at least two digits, as `format!("{:02}", n)` gives it.
pub open spec fn decimal2(n: nat) -> Seq<char> {
    if n < 10 {
        seq!['0', digit_char(n)]
    } else {
        decimal(n)
    }
}

pub fn decimal_chars(n: u64) -> (r: Vec<char>)
    ensures
        r@ == decimal(n as nat),
    decreases n,
{
    let d: u8 = (n % 10) as u8;
    let c = (d + 48) as char;
    if n < 10 {
        let mut v: Vec<char> = Vec::new();
        v.push(c);
        assert(v@ =~= seq![digit_char(n as nat)]);
        v
    } else {
        let mut v = decimal_chars(n / 10);
        v.push(c);
        v
    }
}

/// `format!("{}", n)`.
pub fn decimal_string(n: u64) -> (s: String)
    ensures
        s@ == decimal(n as nat),
{
    crate::text::string_of(&decimal_chars(n))
}

/// `format!("{:02}", n)`.
pub fn decimal2_string(n: u64) -> (s: String)
    ensures
        s@ == decimal2(n as nat),
{
    if n < 10 {
        let mut v: Vec<char> = Vec::new();
        v.push('0');
        v.push(((n as u8) + 48) as char);
        assert(v@ =~= seq!['0', digit_char(n as nat)]);
        crate::text::string_of(&v)
    } else {
        decimal_string(n)
    }
}


proof fn lemma_digit_char(d: nat)
    requires
        d < 10,
    ensures
        is_digit(digit_char(d)),
        is_radix_digit(digit_char(d), 10),
        digit_value(digit_char(d)) == d,
{
    assert(((d + 48) as u8) as char as nat == d + 48);
}

proof fn lemma_decimal_digits(n: nat)
    ensures
        decimal(n).len() > 0,
        all_radix_digits(decimal(n), 10),
        decimal(n)[0] != '+',
        digits_value(decimal(n), 10) == n,
    decreases n,
{
    if n < 10 {
        lemma_digit_char(n);
        assert(decimal(n).drop_last() =~= Seq::<char>::empty());
        assert(decimal(n).last() == digit_char(n));
        assert(digits_value(Seq::<char>::empty(), 10) == 0);
        assert(digits_value(decimal(n), 10) == digits_value(decimal(n).drop_last(), 10) * 10
            + digit_value(decimal(n).last()));
    } else {
        lemma_decimal_digits(n / 10);
        lemma_digit_char(n % 10);
        let s = decimal(n / 10);
        assert(decimal(n).drop_last() =~= s);
        assert(decimal(n).last() == digit_char(n % 10));
        assert(digits_value(decimal(n), 10) == digits_value(s, 10) * 10 + digit_value(
            digit_char(n % 10),
        ));
        assert((n / 10) * 10 + n % 10 == n);
        assert(decimal(n)[0] == s[0]);
        assert forall|k: int| 0 <= k < decimal(n).len() implies is_radix_digit(
            #[trigger] decimal(n)[k],
            10,
        ) by {
            if k < s.len() {
                assert(decimal(n)[k] == s[k]);
            }
        }
    }
}

/// Reading back the decimal writing of a `u32` gives the number: `n.to_string().parse()`
/// is `n`.
pub proof fn law_decimal_reads_back(n: u32)
    ensures
        parse_u32(decimal(n as nat)) == Some(n),
{
    lemma_decimal_digits(n as nat);
    assert(unsigned_digits(decimal(n as nat)) == decimal(n as nat));
}


/// Decimal text reads digit by digit: a single digit is its value; one more digit at the
/// end multiplies by ten and adds it; one leading `+` changes nothing; a leading `-` negates
/// (for signed types); a value beyond the type's range does not read.
pub proof fn law_decimal_digits(s: Seq<char>, c: char)
    requires
        s.len() > 0,
        all_radix_digits(s, 10),
        is_digit(c),
    ensures
        unsigned_value(seq![c], 10) == Some(digit_value(c)),
        digit_value(c) == c as int - '0' as int,
        unsigned_value(s.push(c), 10) == Some(unsigned_value(s, 10)->0 * 10 + digit_value(c)),
        unsigned_value(seq!['+'] + s, 10) == unsigned_value(s, 10),
        signed_value(seq!['-'] + s) == Some(-(unsigned_value(s, 10)->0 as int)),
        signed_value(s) == Some(unsigned_value(s, 10)->0 as int),
        unsigned_value(s, 10)->0 > u32::MAX ==> parse_u32(s) is None,
        unsigned_value(s, 10)->0 <= u32::MAX ==> parse_u32(s) == Some(unsigned_value(s, 10)->0 as u32),
{
    assert(is_digit(s[0]));
    assert(seq![c].drop_last() =~= Seq::<char>::empty());
    assert(seq![c][0] == c);
    assert(seq![c].last() == c);
    assert(digits_value(Seq::<char>::empty(), 10) == 0);
    assert(digits_value(seq![c], 10) == digit_value(c));
    assert(unsigned_digits(seq![c]) == seq![c]);
    assert(s.push(c).drop_last() =~= s);
    assert(all_radix_digits(s.push(c), 10)) by {
        assert forall|k: int| 0 <= k < s.push(c).len() implies is_radix_digit(#[trigger] s.push(c)[k], 10) by {
            if k < s.len() {
                assert(s.push(c)[k] == s[k]);
            }
        }
    }
    assert((seq!['+'] + s).drop_first() =~= s);
    assert((seq!['-'] + s).drop_first() =~= s);
    assert(s.push(c)[0] == s[0]);
    assert(all_radix_digits(seq![c], 10)) by {
        assert forall|k: int| 0 <= k < seq![c].len() implies is_radix_digit(#[trigger] seq![c][k], 10) by {
            assert(seq![c][k] == c);
        }
    }
}
} // verus!
