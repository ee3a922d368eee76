//! Character-level helpers shared by the parsers and formatters: reading a
//! string's characters, building strings, decimal numbers, trimming.
use vstd::prelude::*;

verus! {

/// Appends one character to a string.  Calls `String::push`, which the
/// standard library documents as appending the character to the end.
#[verifier::external_body]
pub(crate) fn push_char(s: &mut String, c: char)
    ensures
        final(s)@ == old(s)@.push(c),
{
    s.push(c);
}

/// The characters of a string slice, in order.
pub fn chars_of(s: &str) -> (v: Vec<char>)
    ensures
        v@ == s@,
{
    let mut v: Vec<char> = Vec::new();
    broadcast use vstd::string::axiom_spec_iter;
    for c in it: s.chars()
        invariant
            v@ == it.seq().take(it.index() as int),
            it.seq() == s@,
    {
        v.push(c);
        assert(v@ =~= it.seq().take(it.index() as int + 1));
    }
    proof {
        assert(v@ =~= s@);
    }
    v
}

/// Builds a string from characters.
pub fn string_of(chars: &[char]) -> (s: String)
    ensures
        s@ == chars@,
{
    let mut s = String::new();
    let mut i: usize = 0;
    while i < chars.len()
        invariant
            i <= chars@.len(),
            s@ == chars@.subrange(0, i as int),
        decreases chars.len() - i,
    {
        push_char(&mut s, chars[i]);
        i += 1;
        assert(s@ =~= chars@.subrange(0, i as int));
    }
    assert(chars@.subrange(0, chars@.len() as int) =~= chars@);
    s
}

/// Appends the characters of `t` to `s`.
pub fn append_chars(s: &mut String, t: &[char])
    ensures
        final(s)@ == old(s)@ + t@,
{
    let ghost s0 = s@;
    let mut i: usize = 0;
    while i < t.len()
        invariant
            i <= t@.len(),
            s@ == s0 + t@.subrange(0, i as int),
        decreases t.len() - i,
    {
        push_char(s, t[i]);
        i += 1;
        assert(s@ =~= s0 + t@.subrange(0, i as int));
    }
    assert(t@.subrange(0, t@.len() as int) =~= t@);
}

/// Whether a string and a text hold the same characters.
pub fn str_eq(a: &String, b: &str) -> (r: bool)
    ensures
        r == (a@ == b@),
{
    let bs = b.to_owned();
    *a == bs
}

/// Appends the characters of a string slice to `s`.
pub fn append_str(s: &mut String, t: &str)
    ensures
        final(s)@ == old(s)@ + t@,
{
    let v = chars_of(t);
    append_chars(s, v.as_slice());
}

/// The character of a decimal digit.
pub open spec fn digit_char(d: int) -> char {
    (d + 48) as char
}

/// The value of a decimal digit character.
pub open spec fn char_digit(c: char) -> int {
    c as int - 48
}

pub open spec fn is_digit(c: char) -> bool {
    '0' <= c && c <= '9'
}

/// The decimal representation of `n`, without leading zeros.
pub open spec fn decimal(n: nat) -> Seq<char>
    decreases n,
{
    if n < 10 {
        seq![digit_char(n as int)]
    } else {
        decimal(n / 10).push(digit_char((n % 10) as int))
    }
}

/// Writes `n` in decimal.
pub fn decimal_chars(n: u128) -> (v: Vec<char>)
    ensures
        v@ == decimal(n as nat),
    decreases n,
{
    if n < 10 {
        let mut v = Vec::new();
        v.push(((n as u8) + 48) as char);
        assert(v@ =~= decimal(n as nat));
        v
    } else {
        let mut v = decimal_chars(n / 10);
        v.push((((n % 10) as u8) + 48) as char);
        v
    }
}

/// The value of a sequence of decimal digits.
pub open spec fn digits_value(s: Seq<char>) -> nat
    decreases s.len(),
{
    if s.len() == 0 {
        0
    } else {
        (digits_value(s.drop_last()) * 10 + char_digit(s.last())) as nat
    }
}

pub open spec fn all_digits(s: Seq<char>) -> bool {
    forall|i: int| 0 <= i < s.len() ==> is_digit(#[trigger] s[i])
}

/// What parsing a decimal unsigned integer of a given width yields.
pub enum NumberParse {
    Value(u64),
    Empty,
    InvalidDigit,
    Overflow,
}

/// How `str::parse` reads an unsigned integer whose largest value is `max`:
/// an optional `+`, then at least one decimal digit.
pub open spec fn parse_unsigned(s: Seq<char>, max: nat) -> NumberParse {
    let body = number_body(s);
    if s.len() == 0 {
        NumberParse::Empty
    } else if body.len() == 0 || !all_digits(body) {
        NumberParse::InvalidDigit
    } else if digits_value(body) > max {
        NumberParse::Overflow
    } else {
        NumberParse::Value(digits_value(body) as u64)
    }
}

proof fn lemma_digits_value_prefix(s: Seq<char>, i: int)
    requires
        0 <= i < s.len(),
        all_digits(s),
    ensures
        digits_value(s.subrange(0, i + 1)) == digits_value(s.subrange(0, i)) * 10 + char_digit(s[i]),
{
    assert(s.subrange(0, i + 1).drop_last() =~= s.subrange(0, i));
}

proof fn lemma_digits_value_monotone(s: Seq<char>, i: int, j: int)
    requires
        0 <= i <= j <= s.len(),
        all_digits(s),
    ensures
        digits_value(s.subrange(0, i)) <= digits_value(s.subrange(0, j)),
    decreases j - i,
{
    if i < j {
        lemma_digits_value_monotone(s, i, j - 1);
        lemma_digits_value_prefix(s, j - 1);
    }
}

/// The digits part of a number: the text after an optional leading `+`.
pub open spec fn number_body(s: Seq<char>) -> Seq<char> {
    if s.len() > 0 && s[0] == '+' { s.drop_first() } else { s }
}

/// Parses a decimal number as `str::parse` does for an unsigned integer
/// type whose largest value is `max`.
pub fn parse_decimal(s: &[char], max: u64) -> (r: NumberParse)
    ensures
        r == parse_unsigned(s@, max as nat),
{
    if s.len() == 0 {
        return NumberParse::Empty;
    }
    let start: usize = if s[0] == '+' { 1 } else { 0 };
    let ghost body = number_body(s@);
    assert(body =~= s@.subrange(start as int, s@.len() as int));
    if start == s.len() {
        return NumberParse::InvalidDigit;
    }
    let mut i: usize = start;
    while i < s.len()
        invariant
            start <= i <= s@.len(),
            body == s@.subrange(start as int, s@.len() as int),
            body == number_body(s@),
            s@.len() > 0,
            forall|t: int| start <= t < i ==> is_digit(#[trigger] s@[t]),
        decreases s.len() - i,
    {
        if !('0' <= s[i] && s[i] <= '9') {
            assert(body[i - start] == s@[i as int]);
            assert(!is_digit(body[i - start]));
            assert(!all_digits(body));
            assert(body.len() != 0);
            return NumberParse::InvalidDigit;
        }
        i += 1;
    }
    assert(all_digits(body)) by {
        assert forall|t: int| 0 <= t < body.len() implies is_digit(#[trigger] body[t]) by {
            assert(body[t] == s@[t + start]);
        }
    }
    let mut value: u128 = 0;
    let mut j: usize = start;
    while j < s.len()
        invariant
            start <= j <= s@.len(),
            all_digits(body),
            body == s@.subrange(start as int, s@.len() as int),
            body == number_body(s@),
            s@.len() > 0,
            value == digits_value(body.subrange(0, j - start)),
            value <= max,
        decreases s.len() - j,
    {
        proof {
            lemma_digits_value_prefix(body, j - start);
        }
        assert(body[j - start] == s@[j as int]);
        assert(is_digit(body[j - start]));
        let d = (s[j] as u32 - 48) as u128;
        let next = value * 10 + d;
        if next > max as u128 {
            proof {
                lemma_digits_value_monotone(body, j - start + 1, body.len() as int);
                assert(body.subrange(0, body.len() as int) =~= body);
                assert(d == char_digit(body[j - start]));
                assert(next == digits_value(body.subrange(0, j - start + 1)));
                assert(digits_value(body) > max);
            }
            return NumberParse::Overflow;
        }
        value = next;
        j += 1;
    }
    assert(body.subrange(0, body.len() as int) =~= body);
    NumberParse::Value(value as u64)
}

/// Characters with the Unicode `White_Space` property, which `str::trim` removes.
pub open spec fn is_unicode_whitespace(c: char) -> bool {
    let x = c as int;
    (0x09 <= x <= 0x0D) || x == 0x20 || x == 0x85 || x == 0xA0 || x == 0x1680 || (0x2000 <= x
        <= 0x200A) || x == 0x2028 || x == 0x2029 || x == 0x202F || x == 0x205F || x == 0x3000
}

pub fn is_whitespace(c: char) -> (b: bool)
    ensures
        b == is_unicode_whitespace(c),
{
    let x = c as u32;
    (0x09 <= x && x <= 0x0D) || x == 0x20 || x == 0x85 || x == 0xA0 || x == 0x1680 || (0x2000
        <= x && x <= 0x200A) || x == 0x2028 || x == 0x2029 || x == 0x202F || x == 0x205F || x
        == 0x3000
}

/// Index of the first character that is not white space (or the length).
pub open spec fn trim_start_index(s: Seq<char>) -> int
    decreases s.len(),
{
    if s.len() > 0 && is_unicode_whitespace(s[0]) {
        1 + trim_start_index(s.drop_first())
    } else {
        0
    }
}

/// `s` with leading and trailing white space removed, as `str::trim` does.
pub open spec fn trimmed(s: Seq<char>) -> Seq<char>
    decreases s.len(),
{
    if s.len() > 0 && is_unicode_whitespace(s[0]) {
        trimmed(s.drop_first())
    } else if s.len() > 0 && is_unicode_whitespace(s.last()) {
        trimmed(s.drop_last())
    } else {
        s
    }
}

proof fn lemma_trimmed_range(s: Seq<char>, lo: int, hi: int)
    requires
        0 <= lo <= hi <= s.len(),
        forall|t: int| 0 <= t < lo ==> is_unicode_whitespace(#[trigger] s[t]),
        forall|t: int| hi <= t < s.len() ==> is_unicode_whitespace(#[trigger] s[t]),
        (lo < hi && !is_unicode_whitespace(s[lo]) && !is_unicode_whitespace(s[hi - 1])) || (lo == hi
            && hi == s.len()),
    ensures
        trimmed(s) == s.subrange(lo, hi),
    decreases s.len(),
{
    if s.len() > 0 && is_unicode_whitespace(s[0]) {
        assert(lo > 0);
        lemma_trimmed_range(s.drop_first(), lo - 1, hi - 1);
        assert(s.drop_first().subrange(lo - 1, hi - 1) =~= s.subrange(lo, hi));
    } else if s.len() > 0 && is_unicode_whitespace(s.last()) {
        assert(lo == 0);
        assert(hi < s.len());
        lemma_trimmed_range(s.drop_last(), lo, hi);
        assert(s.drop_last().subrange(lo, hi) =~= s.subrange(lo, hi));
    } else {
        if s.len() > 0 {
            assert(lo == 0);
            assert(hi == s.len());
        }
        assert(s.subrange(lo, hi) =~= s);
    }
}

/// The characters of `s` without leading and trailing white space.
pub fn trim_chars(s: &[char]) -> (r: Vec<char>)
    ensures
        r@ == trimmed(s@),
{
    let mut lo: usize = 0;
    while lo < s.len() && is_whitespace(s[lo])
        invariant
            lo <= s@.len(),
            forall|t: int| 0 <= t < lo ==> is_unicode_whitespace(#[trigger] s@[t]),
        decreases s.len() - lo,
    {
        lo += 1;
    }
    let mut hi: usize = s.len();
    while hi > lo && is_whitespace(s[hi - 1])
        invariant
            lo <= hi <= s@.len(),
            forall|t: int| hi <= t < s@.len() ==> is_unicode_whitespace(#[trigger] s@[t]),
        decreases hi,
    {
        hi -= 1;
    }
    let mut r: Vec<char> = Vec::new();
    let mut i = lo;
    while i < hi
        invariant
            lo <= i <= hi <= s@.len(),
            r@ == s@.subrange(lo as int, i as int),
        decreases hi - i,
    {
        r.push(s[i]);
        i += 1;
        assert(r@ =~= s@.subrange(lo as int, i as int));
    }
    proof {
        lemma_trimmed_range(s@, lo as int, hi as int);
    }
    r
}


/// The lowercase hexadecimal digit of `n` (`0 <= n < 16`).
pub open spec fn hex_digit(n: int) -> char {
    if n < 10 { (n + 48) as char } else { (n - 10 + 97) as char }
}

/// The last `n` hexadecimal digits of `x`, most significant first.
pub open spec fn hex_digits(x: nat, n: nat) -> Seq<char>
    decreases n,
{
    if n == 0 {
        Seq::empty()
    } else {
        hex_digits(x / 16, (n - 1) as nat).push(hex_digit((x % 16) as int))
    }
}

/// The hyphenated text of a UUID (`xxxxxxxx-xxxx-xxxx-xxxx-xxxxxxxxxxxx`,
/// lowercase), as the `uuid` crate displays it.
pub open spec fn uuid_text(id: u128) -> Seq<char> {
    let h = hex_digits(id as nat, 32);
    h.subrange(0, 8) + seq!['-'] + h.subrange(8, 12) + seq!['-'] + h.subrange(12, 16) + seq!['-']
        + h.subrange(16, 20) + seq!['-'] + h.subrange(20, 32)
}

/// The decimal text of `n` is made of digits, does not start with `+`,
/// and reads back as `n`.
pub proof fn lemma_decimal_reads_back(n: nat)
    ensures
        decimal(n).len() > 0,
        all_digits(decimal(n)),
        decimal(n)[0] != '+',
        digits_value(decimal(n)) == n,
    decreases n,
{
    if n >= 10 {
        lemma_decimal_reads_back(n / 10);
        let d = decimal(n);
        assert(d.drop_last() =~= decimal(n / 10));
        assert forall|i: int| 0 <= i < d.len() implies is_digit(#[trigger] d[i]) by {
            if i < d.len() - 1 {
                assert(d[i] == decimal(n / 10)[i]);
            }
        }
        assert(d[0] == decimal(n / 10)[0]);
        assert(char_digit(digit_char((n % 10) as int)) == n % 10);
        assert(d.last() == digit_char((n % 10) as int));
        assert(digits_value(d) == digits_value(decimal(n / 10)) * 10 + n % 10);
        assert((n / 10) * 10 + n % 10 == n);
    } else {
        let d = decimal(n);
        assert(char_digit(digit_char(n as int)) == n);
        assert(d.drop_last() =~= Seq::<char>::empty());
        assert(digits_value(d.drop_last()) == 0);
        assert(d.last() == digit_char(n as int));
        assert(digits_value(d) == digits_value(d.drop_last()) * 10 + char_digit(d.last()));
    }
}

/// No hexadecimal digit is a colon.
pub proof fn lemma_hex_digits_no_colon(x: nat, n: nat)
    ensures
        forall|i: int| 0 <= i < n ==> #[trigger] hex_digits(x, n)[i] != ':',
        hex_digits(x, n).len() == n,
    decreases n,
{
    if n > 0 {
        lemma_hex_digits_no_colon(x / 16, (n - 1) as nat);
        let d = (x % 16) as int;
        assert(hex_digit(d) != ':');
        assert forall|i: int| 0 <= i < n implies #[trigger] hex_digits(x, n)[i] != ':' by {
            if i < n - 1 {
                assert(hex_digits(x, n)[i] == hex_digits(x / 16, (n - 1) as nat)[i]);
            }
        }
    }
}

/// A UUID's text holds no colon.
pub proof fn lemma_uuid_text_no_colon(id: u128)
    ensures
        uuid_text(id).len() == 36,
        forall|i: int| 0 <= i < 36 ==> #[trigger] uuid_text(id)[i] != ':',
{
    lemma_hex_digits_no_colon(id as nat, 32);
    let h = hex_digits(id as nat, 32);
    let t = uuid_text(id);
    assert forall|i: int| 0 <= i < 36 implies #[trigger] t[i] != ':' by {
        if i < 8 {
            assert(t[i] == h[i]);
        } else if i == 8 || i == 13 || i == 18 || i == 23 {
        } else if i < 13 {
            assert(t[i] == h[i - 1]);
        } else if i < 18 {
            assert(t[i] == h[i - 2]);
        } else if i < 23 {
            assert(t[i] == h[i - 3]);
        } else {
            assert(t[i] == h[i - 4]);
        }
    }
}

fn hex_digits_exec(x: u128, n: u32) -> (v: Vec<char>)
    ensures
        v@ == hex_digits(x as nat, n as nat),
    decreases n,
{
    if n == 0 {
        Vec::new()
    } else {
        let mut v = hex_digits_exec(x / 16, n - 1);
        let d = (x % 16) as u8;
        let c = if d < 10 { (d + 48) as char } else { (d - 10 + 97) as char };
        v.push(c);
        v
    }
}

/// Writes a UUID in its hyphenated lowercase form.
pub fn uuid_chars(id: u128) -> (v: Vec<char>)
    ensures
        v@ == uuid_text(id),
{
    let h = hex_digits_exec(id, 32);
    proof {
        lemma_hex_len(id as nat, 32);
    }
    let mut v: Vec<char> = Vec::new();
    let mut i: usize = 0;
    while i < 32
        invariant
            h@.len() == 32,
            i <= 32,
            v@ == uuid_prefix(h@, i as int),
        decreases 32 - i,
    {
        if i == 8 || i == 12 || i == 16 || i == 20 {
            v.push('-');
        }
        v.push(h[i]);
        i += 1;
        proof {
            lemma_uuid_prefix_step(h@, i as int);
        }
        assert(v@ =~= uuid_prefix(h@, i as int));
    }
    proof {
        lemma_uuid_prefix_full(h@);
    }
    v
}

/// The text of a UUID has 36 characters.
pub proof fn lemma_uuid_text_len(id: u128)
    ensures
        uuid_text(id).len() == 36,
{
    lemma_hex_len(id as nat, 32);
}

proof fn lemma_hex_len(x: nat, n: nat)
    ensures
        hex_digits(x, n).len() == n,
    decreases n,
{
    if n > 0 {
        lemma_hex_len(x / 16, (n - 1) as nat);
    }
}

/// The first `i` hex digits of `h` with the UUID hyphens before digits 8, 12, 16 and 20.
pub open spec fn uuid_prefix(h: Seq<char>, i: int) -> Seq<char>
    decreases i,
{
    if i <= 0 {
        Seq::empty()
    } else if i - 1 == 8 || i - 1 == 12 || i - 1 == 16 || i - 1 == 20 {
        uuid_prefix(h, i - 1).push('-').push(h[i - 1])
    } else {
        uuid_prefix(h, i - 1).push(h[i - 1])
    }
}

proof fn lemma_uuid_prefix_step(h: Seq<char>, i: int)
    requires
        1 <= i,
    ensures
        uuid_prefix(h, i) == (if i - 1 == 8 || i - 1 == 12 || i - 1 == 16 || i - 1 == 20 {
            uuid_prefix(h, i - 1).push('-').push(h[i - 1])
        } else {
            uuid_prefix(h, i - 1).push(h[i - 1])
        }),
{
}

proof fn lemma_uuid_prefix_full(h: Seq<char>)
    requires
        h.len() == 32,
    ensures
        uuid_prefix(h, 32) == h.subrange(0, 8) + seq!['-'] + h.subrange(8, 12) + seq!['-']
            + h.subrange(12, 16) + seq!['-'] + h.subrange(16, 20) + seq!['-'] + h.subrange(20, 32),
{
    reveal_with_fuel(uuid_prefix, 33);
    assert(uuid_prefix(h, 32) =~= h.subrange(0, 8) + seq!['-'] + h.subrange(8, 12) + seq!['-']
        + h.subrange(12, 16) + seq!['-'] + h.subrange(16, 20) + seq!['-'] + h.subrange(20, 32));
}

/// A path with `name` appended, as `Path::join` does on Unix: an absolute
/// `name` replaces the path, and a separator is added unless the path is
/// empty or already ends with one.
pub open spec fn path_join(base: Seq<char>, name: Seq<char>) -> Seq<char> {
    if name.len() > 0 && name[0] == '/' {
        name
    } else if base.len() == 0 {
        name
    } else if base.last() == '/' {
        base + name
    } else {
        base + seq!['/'] + name
    }
}

/// Joins a path and a name as `Path::join` does on Unix.
pub fn join_path(base: &str, name: &[char]) -> (r: String)
    ensures
        r@ == path_join(base@, name@),
{
    let b = chars_of(base);
    if name.len() > 0 && name[0] == '/' {
        return string_of(name);
    }
    if b.len() == 0 {
        return string_of(name);
    }
    let mut out = string_of(b.as_slice());
    if b[b.len() - 1] != '/' {
        push_char(&mut out, '/');
    }
    append_chars(&mut out, name);
    out
}

/// Clones every string of a list.
pub fn clone_strings(v: &Vec<String>) -> (r: Vec<String>)
    ensures
        r@ == v@,
{
    let mut r: Vec<String> = Vec::new();
    let mut i: usize = 0;
    while i < v.len()
        invariant
            i <= v@.len(),
            r@ == v@.subrange(0, i as int),
        decreases v.len() - i,
    {
        r.push(v[i].clone());
        i += 1;
        assert(r@ =~= v@.subrange(0, i as int));
    }
    assert(v@.subrange(0, v@.len() as int) =~= v@);
    r
}

/// Clones a list of key-value string pairs.
pub fn clone_pairs(v: &Vec<(String, String)>) -> (r: Vec<(String, String)>)
    ensures
        r@ == v@,
{
    let mut r: Vec<(String, String)> = Vec::new();
    let mut i: usize = 0;
    while i < v.len()
        invariant
            i <= v@.len(),
            r@ == v@.subrange(0, i as int),
        decreases v.len() - i,
    {
        r.push((v[i].0.clone(), v[i].1.clone()));
        i += 1;
        assert(r@ =~= v@.subrange(0, i as int));
    }
    assert(v@.subrange(0, v@.len() as int) =~= v@);
    r
}

/// Clones an optional string.
pub fn clone_opt_string(s: &Option<String>) -> (r: Option<String>)
    ensures
        r == *s,
{
    match s {
        Some(x) => Some(x.clone()),
        None => None,
    }
}

} // verus!
