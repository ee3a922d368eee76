//! Sizes in bytes: parsing sizes written with unit suffixes, and writing
//! byte counts in human-readable units.
//!
//! Byte counts are shown the way a `f64` holding the count would print: the
//! count is first rounded to the nearest `f64` (53 significant bits, ties to
//! even), divided by a power of 1024 (exact in binary), and rounded to the
//! requested number of decimals (ties to even).
use vstd::prelude::*;
use crate::text::{
    all_digits, append_chars, chars_of, decimal, decimal_chars, digit_char, digits_value, is_digit,
    is_unicode_whitespace, number_body, parse_decimal, parse_unsigned, string_of, trim_chars, trimmed, NumberParse,
};

verus! {

/// 2 to the power `e`.
pub open spec fn pow2(e: nat) -> nat
    decreases e,
{
    if e == 0 { 1 } else { 2 * pow2((e - 1) as nat) }
}

/// 1024 to the power `k`.
pub open spec fn pow1024(k: nat) -> nat {
    pow2(10 * k)
}

/// Number of bits needed to write `b` in binary.
pub open spec fn bit_len(b: nat) -> nat
    decreases b,
{
    if b == 0 { 0 } else { 1 + bit_len(b / 2) }
}

/// How far a count must be shifted right to fit in 53 bits.
pub open spec fn f64_shift(b: nat) -> nat {
    if bit_len(b) > 53 { (bit_len(b) - 53) as nat } else { 0 }
}

/// `num / den` rounded to the nearest integer, ties to even.
pub open spec fn round_half_even(num: nat, den: nat) -> nat
    recommends
        den > 0,
{
    let q = num / den;
    let r = num % den;
    if 2 * r > den || (2 * r == den && q % 2 == 1) { q + 1 } else { q }
}

/// The value of the `f64` nearest to `b` (ties to even).
pub open spec fn f64_round(b: nat) -> nat {
    let e = f64_shift(b);
    if e == 0 { b } else { round_half_even(b, pow2(e)) * pow2(e) }
}

/// The digits of `n` hundredths (or tenths when `decimals` is 1) written
/// with a decimal point: `1234` with two decimals is `12.34`.
pub open spec fn fixed_point(n: nat, decimals: nat) -> Seq<char> {
    if decimals == 1 {
        decimal(n / 10).push('.').push(digit_char((n % 10) as int))
    } else {
        decimal(n / 100).push('.').push(digit_char(((n % 100) / 10) as int)).push(
            digit_char((n % 10) as int),
        )
    }
}

/// `b` as an `f64`, divided by `1024^k`, printed with `decimals` decimals.
pub open spec fn scaled_text(b: nat, k: nat, decimals: nat) -> Seq<char> {
    let ten_pow: nat = if decimals == 1 { 10 } else { 100 };
    fixed_point(round_half_even(f64_round(b) * ten_pow, pow1024(k)), decimals)
}

proof fn lemma_pow2_step(e: nat)
    ensures
        pow2(e + 1) == 2 * pow2(e),
        pow2(e) >= 1,
    decreases e,
{
    if e > 0 {
        lemma_pow2_step((e - 1) as nat);
    }
}

proof fn lemma_pow2_values()
    ensures
        pow2(0) == 1,
        pow2(10) == 1024,
        pow2(20) == 1048576,
        pow2(30) == 1073741824,
        pow2(40) == 1099511627776,
        pow2(53) == 9007199254740992,
{
    reveal_with_fuel(pow2, 54);
}

/// `2^e` for small `e`.
fn pow2_exec(e: u32) -> (p: u128)
    requires
        e <= 64,
    ensures
        p == pow2(e as nat),
{
    let mut p: u128 = 1;
    let mut i: u32 = 0;
    proof {
        lemma_pow2_mono(0, 64);
        reveal_with_fuel(pow2, 1);
    }
    while i < e
        invariant
            i <= e <= 64,
            p == pow2(i as nat),
            p <= pow2(64),
        decreases e - i,
    {
        proof {
            lemma_pow2_step(i as nat);
            lemma_pow2_mono(i as nat + 1, 64);
            lemma_pow2_64();
        }
        p = p * 2;
        i += 1;
    }
    p
}

proof fn lemma_pow2_64()
    ensures
        pow2(64) == 18446744073709551616,
{
    reveal_with_fuel(pow2, 65);
}

proof fn lemma_pow2_mono(a: nat, b: nat)
    requires
        a <= b,
    ensures
        pow2(a) <= pow2(b),
    decreases b,
{
    if a < b {
        lemma_pow2_mono(a, (b - 1) as nat);
        lemma_pow2_step((b - 1) as nat);
    }
}

proof fn lemma_bit_len_bound(b: nat)
    ensures
        b < pow2(bit_len(b)),
    decreases b,
{
    if b > 0 {
        lemma_bit_len_bound(b / 2);
        lemma_pow2_step(bit_len(b / 2));
    }
}

/// Number of bits needed to write `b`.
fn bit_len_exec(b: u64) -> (n: u32)
    ensures
        n == bit_len(b as nat),
        n <= 64,
{
    let mut cur = b;
    let mut n: u32 = 0;
    proof {
        lemma_bit_len_le(b as nat);
    }
    while cur > 0
        invariant
            bit_len(b as nat) == n + bit_len(cur as nat),
            n + bit_len(cur as nat) <= 64,
        decreases cur,
    {
        cur = cur / 2;
        n += 1;
    }
    proof {
        lemma_bit_len_le(b as nat);
    }
    n
}

proof fn lemma_bit_len_le(b: nat)
    requires
        b <= u64::MAX,
    ensures
        bit_len(b) <= 64,
{
    lemma_pow2_64();
    lemma_bit_len_upper(b, 64);
}

proof fn lemma_bit_len_upper(b: nat, m: nat)
    requires
        b < pow2(m),
    ensures
        bit_len(b) <= m,
    decreases m,
{
    if b > 0 {
        if m == 0 {
            assert(pow2(0) == 1);
        } else {
            lemma_pow2_step((m - 1) as nat);
            lemma_bit_len_upper(b / 2, (m - 1) as nat);
        }
    }
}

/// `num / den` rounded to the nearest integer, ties to even.
fn round_half_even_exec(num: u128, den: u128) -> (r: u128)
    requires
        den > 0,
        num < u128::MAX,
    ensures
        r == round_half_even(num as nat, den as nat),
{
    let q = num / den;
    let r = num % den;
    if r > den - r || (r == den - r && q % 2 == 1) { q + 1 } else { q }
}

/// The value of the `f64` nearest to `b`.
pub fn f64_round_exec(b: u64) -> (f: u128)
    ensures
        f == f64_round(b as nat),
        f <= pow2(64),
{
    let n = bit_len_exec(b);
    proof {
        lemma_pow2_values();
        lemma_bit_len_bound(b as nat);
    }
    if n <= 53 {
        proof {
            lemma_pow2_mono(53, 64);
            reveal_with_fuel(pow2, 65);
        }
        return b as u128;
    }
    let e = n - 53;
    let p = pow2_exec(e);
    proof {
        lemma_pow2_mono(e as nat, 11);
        reveal_with_fuel(pow2, 12);
    }
    let q = round_half_even_exec(b as u128, p);
    proof {
        lemma_f64_round_bound(b as nat, e as nat, n as nat);
    }
    q * p
}

proof fn lemma_f64_round_bound(b: nat, e: nat, n: nat)
    requires
        n == bit_len(b),
        54 <= n <= 64,
        e == n - 53,
    ensures
        round_half_even(b, pow2(e)) * pow2(e) <= pow2(64),
{
    lemma_bit_len_bound(b);
    lemma_pow2_mono(n, 64);
    lemma_pow2_add(e, 53);
    let p = pow2(e);
    let q = b / p;
    lemma_pow2_step(e);
    assert(p >= 1);
    assert(q * p <= b) by (nonlinear_arith)
        requires q == b / p, p >= 1;
    assert(q < pow2(53)) by (nonlinear_arith)
        requires q == b / p, p >= 1, b < pow2(n), pow2(n) == p * pow2(53);
    assert((q + 1) * p <= pow2(53) * p) by (nonlinear_arith)
        requires q + 1 <= pow2(53), p >= 1;
    lemma_pow2_add(n, (64 - n) as nat);
    lemma_pow2_mono(0, (64 - n) as nat);
    assert(pow2(53) * p <= pow2(64)) by (nonlinear_arith)
        requires p * pow2(53) == pow2(n), pow2(n) <= pow2(64);
}

proof fn lemma_pow2_add(a: nat, b: nat)
    ensures
        pow2(a + b) == pow2(a) * pow2(b),
    decreases b,
{
    if b > 0 {
        let b1 = (b - 1) as nat;
        lemma_pow2_add(a, b1);
        lemma_pow2_step(a + b1);
        lemma_pow2_step(b1);
        assert(a + b1 + 1 == a + b);
        assert(b1 + 1 == b);
        assert(pow2(a) * (2 * pow2(b1)) == 2 * (pow2(a) * pow2(b1))) by (nonlinear_arith);
        assert(pow2(b) == 2 * pow2(b1));
        assert(pow2(a + b) == 2 * pow2(a + b1));
    } else {
        assert(pow2(0) == 1);
        assert(a + b == a);
    }
}

/// Writes `n` with a decimal point before its last one or two digits.
fn fixed_point_chars(n: u128, decimals: u32) -> (v: Vec<char>)
    requires
        decimals == 1 || decimals == 2,
    ensures
        v@ == fixed_point(n as nat, decimals as nat),
{
    if decimals == 1 {
        let mut v = decimal_chars(n / 10);
        v.push('.');
        v.push(((n % 10) as u8 + 48) as char);
        v
    } else {
        let mut v = decimal_chars(n / 100);
        v.push('.');
        v.push((((n % 100) / 10) as u8 + 48) as char);
        v.push(((n % 10) as u8 + 48) as char);
        v
    }
}

/// Writes `b` bytes in units of `1024^k` with `decimals` decimals, as `f64`
/// formatting with that precision prints the quotient.
pub fn scaled_chars(b: u64, k: u32, decimals: u32) -> (v: Vec<char>)
    requires
        k <= 4,
        decimals == 1 || decimals == 2,
    ensures
        v@ == scaled_text(b as nat, k as nat, decimals as nat),
{
    let f = f64_round_exec(b);
    let ten_pow: u128 = if decimals == 1 { 10 } else { 100 };
    let den = pow2_exec(10 * k);
    proof {
        lemma_pow2_step(10 * k as nat);
        lemma_pow2_64();
    }
    let n = round_half_even_exec(f * ten_pow, den);
    fixed_point_chars(n, decimals)
}

/// Unit index (B, KB, MB, GB, TB) chosen for a byte count: the largest
/// power of 1024 not above it, at most TB.
pub open spec fn unit_index(b: nat) -> nat {
    if b < 1024 {
        0
    } else if b < 1048576 {
        1
    } else if b < 1073741824 {
        2
    } else if b < 1099511627776 {
        3
    } else {
        4
    }
}

pub open spec fn unit_name(k: nat) -> Seq<char> {
    if k == 0 {
        seq!['B']
    } else if k == 1 {
        seq!['K', 'B']
    } else if k == 2 {
        seq!['M', 'B']
    } else if k == 3 {
        seq!['G', 'B']
    } else {
        seq!['T', 'B']
    }
}

/// A byte count in the largest unit that keeps the number at least 1:
/// plain bytes below 1024 (`512 B`), otherwise two decimals (`1.50 KB`).
pub open spec fn human_readable_text(b: nat) -> Seq<char> {
    let k = unit_index(b);
    if k == 0 {
        decimal(b) + seq![' '] + unit_name(0)
    } else {
        scaled_text(b, k, 2) + seq![' '] + unit_name(k)
    }
}

fn unit_name_chars(k: u32) -> (v: Vec<char>)
    ensures
        v@ == unit_name(k as nat),
{
    let mut v = Vec::new();
    if k == 1 {
        v.push('K');
    } else if k == 2 {
        v.push('M');
    } else if k == 3 {
        v.push('G');
    } else if k >= 4 {
        v.push('T');
    }
    v.push('B');
    proof {
        if k == 0 {
            assert(v@ =~= unit_name(0));
        } else {
            assert(v@ =~= unit_name(k as nat));
        }
    }
    v
}

/// Writes a byte count in human-readable units (`512 B`, `1.50 KB`, `1.00 GB`).
pub fn human_readable_bytes(b: u64) -> (s: String)
    ensures
        s@ == human_readable_text(b as nat),
{
    let k: u32 = if b < 1024 {
        0
    } else if b < 1048576 {
        1
    } else if b < 1073741824 {
        2
    } else if b < 1099511627776 {
        3
    } else {
        4
    };
    let mut v: Vec<char> = if k == 0 { decimal_chars(b as u128) } else { scaled_chars(b, k, 2) };
    v.push(' ');
    let u = unit_name_chars(k);
    let mut out = string_of(v.as_slice());
    append_chars(&mut out, u.as_slice());
    proof {
        if k == 0 {
            assert(out@ =~= human_readable_text(b as nat));
        } else {
            assert(out@ =~= human_readable_text(b as nat));
        }
    }
    out
}

/// Errors from parsing a size string.
#[derive(Clone, Copy, Debug, PartialEq, Eq)]
pub enum SizeParseError {
    /// Nothing where the number should be.
    Empty,
    /// A character that is not a decimal digit.
    InvalidDigit,
    /// The number does not fit in 64 bits.
    Overflow,
}

/// Maps a failed number parse to the size error it stands for.
pub open spec fn size_error_of(p: NumberParse) -> SizeParseError {
    match p {
        NumberParse::Empty => SizeParseError::Empty,
        NumberParse::Overflow => SizeParseError::Overflow,
        _ => SizeParseError::InvalidDigit,
    }
}

pub open spec fn is_ascii_char(c: char) -> bool {
    (c as u32) < 128
}

/// ASCII upper case of a character (other characters unchanged).
pub open spec fn upper_ascii(c: char) -> char {
    if 'a' <= c && c <= 'z' { ((c as int) - 32) as char } else { c }
}

/// The multiplier of a size suffix letter (`T`, `G`, `M`, `K`, `B`), 0 for no suffix.
pub open spec fn suffix_multiplier(c: char) -> nat {
    if c == 'T' {
        1099511627776
    } else if c == 'G' {
        1073741824
    } else if c == 'M' {
        1048576
    } else if c == 'K' {
        1024
    } else if c == 'B' {
        1
    } else {
        0
    }
}

/// The trimmed, upper-cased size text.
pub open spec fn size_text(s: Seq<char>) -> Seq<char> {
    trimmed(s).map_values(|c: char| upper_ascii(c))
}

/// The part of the size text that holds the number.
pub open spec fn size_number_text(s: Seq<char>) -> Seq<char> {
    let u = size_text(s);
    if u.len() > 0 && suffix_multiplier(u.last()) > 0 { u.drop_last() } else { u }
}

/// What the number of a size string parses to.  Text with a character
/// outside ASCII never parses (upper-casing it yields no digits).
pub open spec fn size_number(s: Seq<char>) -> NumberParse {
    if exists|i: int| 0 <= i < trimmed(s).len() && !is_ascii_char(#[trigger] trimmed(s)[i]) {
        NumberParse::InvalidDigit
    } else {
        parse_unsigned(size_number_text(s), u64::MAX as nat)
    }
}

/// The factor the number of a size string is multiplied by.
pub open spec fn size_multiplier(s: Seq<char>) -> nat {
    let u = size_text(s);
    if u.len() > 0 && suffix_multiplier(u.last()) > 0 { suffix_multiplier(u.last()) } else { 1 }
}

/// Parses a size such as `1G`, `512m`, `2048K`, `10B` or `4096` into bytes
/// (binary multiples; surrounding white space is ignored; the suffix is
/// case-insensitive).
pub fn parse_size(size_str: &str) -> (r: Result<u64, SizeParseError>)
    requires
        size_number(size_str@) matches NumberParse::Value(v) ==> v * size_multiplier(size_str@)
            <= u64::MAX,
    ensures
        match size_number(size_str@) {
            NumberParse::Value(v) => r == Ok::<u64, SizeParseError>(
                (v * size_multiplier(size_str@)) as u64,
            ),
            other => r == Err::<u64, SizeParseError>(size_error_of(other)),
        },
{
    let all = chars_of(size_str);
    let t = trim_chars(all.as_slice());
    let mut u: Vec<char> = Vec::new();
    let mut i: usize = 0;
    while i < t.len()
        invariant
            i <= t@.len(),
            t@ == trimmed(size_str@),
            u@ == t@.subrange(0, i as int).map_values(|c: char| upper_ascii(c)),
            forall|j: int| 0 <= j < i ==> is_ascii_char(#[trigger] t@[j]),
        decreases t.len() - i,
    {
        let c = t[i];
        if c as u32 >= 128 {
            assert(!is_ascii_char(trimmed(size_str@)[i as int]));
            return Err(SizeParseError::InvalidDigit);
        }
        let uc = if 'a' <= c && c <= 'z' { ((c as u32 - 32) as u8) as char } else { c };
        u.push(uc);
        i += 1;
        assert(u@ =~= t@.subrange(0, i as int).map_values(|c: char| upper_ascii(c)));
    }
    assert(t@.subrange(0, t@.len() as int) =~= t@);
    assert(u@ == size_text(size_str@));
    let n = u.len();
    let mult: u64 = if n == 0 {
        1
    } else if u[n - 1] == 'T' {
        1099511627776
    } else if u[n - 1] == 'G' {
        1073741824
    } else if u[n - 1] == 'M' {
        1048576
    } else if u[n - 1] == 'K' {
        1024
    } else if u[n - 1] == 'B' {
        1
    } else {
        1
    };
    let has_suffix = n > 0 && (u[n - 1] == 'T' || u[n - 1] == 'G' || u[n - 1] == 'M' || u[n - 1]
        == 'K' || u[n - 1] == 'B');
    let number: &[char] = if has_suffix { slice_prefix(u.as_slice(), n - 1) } else { u.as_slice() };
    assert(number@ == size_number_text(size_str@)) by {
        if has_suffix {
            assert(u@.drop_last() =~= u@.subrange(0, n - 1));
        }
    }
    assert(mult == size_multiplier(size_str@));
    match parse_decimal(number, u64::MAX) {
        NumberParse::Value(v) => Ok(v * mult),
        NumberParse::Empty => Err(SizeParseError::Empty),
        NumberParse::Overflow => Err(SizeParseError::Overflow),
        NumberParse::InvalidDigit => Err(SizeParseError::InvalidDigit),
    }
}

/// The first `n` elements of a slice.
pub fn slice_prefix<T>(s: &[T], n: usize) -> (r: &[T])
    requires
        n <= s@.len(),
    ensures
        r@ == s@.subrange(0, n as int),
{
    vstd::slice::slice_subrange(s, 0, n)
}


/// A number written in decimal digits, alone or followed by a size suffix
/// (`K`, `M`, `G`, `T` or `B`, in either case), is read as the number
/// times the suffix's binary multiple (one without a suffix).
pub proof fn size_with_suffix_law(digits: Seq<char>, suffix: Option<char>)
    requires
        digits.len() > 0,
        all_digits(digits),
        digits_value(digits) <= u64::MAX,
        suffix matches Some(c) ==> suffix_multiplier(upper_ascii(c)) > 0,
    ensures
        ({
            let s = match suffix { Some(c) => digits.push(c), None => digits };
            &&& size_number(s) == NumberParse::Value(digits_value(digits) as u64)
            &&& size_multiplier(s) == match suffix { Some(c) => suffix_multiplier(upper_ascii(c)), None => 1 }
        }),
{
    let s = match suffix { Some(c) => digits.push(c), None => digits };
    assert(is_digit(digits[0]));
    assert(is_digit(digits.last()));
    if let Some(c) = suffix {
        let u = upper_ascii(c);
        assert(u == 'T' || u == 'G' || u == 'M' || u == 'K' || u == 'B');
        assert(s.last() == c);
        assert(s[0] == digits[0]);
    }
    assert(!is_unicode_whitespace(s[0]));
    assert(!is_unicode_whitespace(s.last()));
    assert(trimmed(s) == s);
    assert forall|i: int| 0 <= i < s.len() implies is_ascii_char(#[trigger] s[i]) by {
        if i < digits.len() {
            assert(s[i] == digits[i]);
            assert(is_digit(digits[i]));
        }
    }
    let u = size_text(s);
    assert(u == s.map_values(|c: char| upper_ascii(c)));
    assert forall|i: int| 0 <= i < digits.len() implies #[trigger] u[i] == digits[i] by {
        assert(s[i] == digits[i]);
        assert(is_digit(digits[i]));
    }
    assert(!(digits[0] == '+'));
    match suffix {
        Some(c) => {
            assert(u.last() == upper_ascii(c));
            assert(size_number_text(s) =~= digits);
        },
        None => {
            assert(suffix_multiplier(u.last()) == 0) by {
                assert(u.last() == digits.last());
            }
            assert(size_number_text(s) =~= digits);
        },
    }
    assert(number_body(digits) == digits);
}


proof fn lemma_trimmed_ends(s: Seq<char>)
    ensures
        trimmed(s).len() > 0 ==> !is_unicode_whitespace(trimmed(s)[0]) && !is_unicode_whitespace(trimmed(s).last()),
    decreases s.len(),
{
    if s.len() > 0 && is_unicode_whitespace(s[0]) {
        lemma_trimmed_ends(s.drop_first());
    } else if s.len() > 0 && is_unicode_whitespace(s.last()) {
        lemma_trimmed_ends(s.drop_last());
    }
}

/// A size reads the same once trimmed and upper-cased: surrounding white
/// space and the case of the suffix make no difference.
pub proof fn size_parse_ignores_case_and_space(s: Seq<char>)
    ensures
        size_number(size_text(s)) == size_number(s),
        size_multiplier(size_text(s)) == size_multiplier(s),
{
    let t = trimmed(s);
    let u = size_text(s);
    lemma_trimmed_ends(s);
    assert(u.len() == t.len());
    if u.len() > 0 {
        assert(u[0] == upper_ascii(t[0]));
        assert(u.last() == upper_ascii(t.last()));
        assert(!is_unicode_whitespace(u[0]));
        assert(!is_unicode_whitespace(u.last()));
    } else {
        assert(u =~= Seq::<char>::empty());
    }
    assert(trimmed(u) == u);
    assert(size_text(u) =~= u) by {
        assert forall|i: int| 0 <= i < u.len() implies #[trigger] size_text(u)[i] == u[i] by {
            assert(u[i] == upper_ascii(t[i]));
        }
    }
    assert((exists|i: int| 0 <= i < trimmed(u).len() && !is_ascii_char(#[trigger] trimmed(u)[i]))
        == (exists|i: int| 0 <= i < t.len() && !is_ascii_char(#[trigger] t[i]))) by {
        if exists|i: int| 0 <= i < t.len() && !is_ascii_char(#[trigger] t[i]) {
            let i = choose|i: int| 0 <= i < t.len() && !is_ascii_char(#[trigger] t[i]);
            assert(u[i] == upper_ascii(t[i]));
            assert(!is_ascii_char(trimmed(u)[i]));
        }
        if exists|i: int| 0 <= i < trimmed(u).len() && !is_ascii_char(#[trigger] trimmed(u)[i]) {
            let i = choose|i: int| 0 <= i < trimmed(u).len() && !is_ascii_char(#[trigger] trimmed(u)[i]);
            assert(u[i] == upper_ascii(t[i]));
            assert(!is_ascii_char(t[i]));
        }
    }
}

} // verus!
