//! Characters, decimal numbers and the string operations the other modules share.
//!
//! Every text is modelled as its sequence of characters; byte lengths appear
//! only where a byte offset is what a function hands out.

use vstd::prelude::*;
use crate::lists::take_push;
use vstd::utf8::{encode_scalar, encode_utf8, is_ascii_chars};

verus! {

broadcast use crate::lists::group_lists;

// ---------------------------------------------------------------------------
// std functions without a specification in vstd
// ---------------------------------------------------------------------------

/// `String::push`: appends one character.
pub assume_specification[ String::push ](s: &mut String, c: char)
    ensures
        final(s)@ == old(s)@.push(c),
;

/// `String::push_str`: appends a whole text.
pub assume_specification[ String::push_str ](s: &mut String, other: &str)
    ensures
        final(s)@ == old(s)@ + other@,
;

/// `String::pop`: takes the last character off, if there is one.
pub assume_specification[ String::pop ](s: &mut String) -> (c: Option<char>)
    ensures
        match c {
            Some(x) => old(s)@.len() > 0 && x == old(s)@.last() && final(s)@ == old(
                s,
            )@.drop_last(),
            None => old(s)@.len() == 0 && final(s)@ == old(s)@,
        },
;

/// Whether a character beyond ASCII has the Unicode `White_Space` property.
pub uninterp spec fn unicode_white_space(c: char) -> bool;

/// `char::is_whitespace`: a fixed property of the character; of the ASCII ones the space
/// and the controls from tab to carriage return have it.
pub assume_specification[ char::is_whitespace ](c: char) -> (b: bool)
    ensures
        b == (if (c as u32) < 128 {
            c == ' ' || 9 <= c as u32 <= 13
        } else {
            unicode_white_space(c)
        }),
;

/// Whether a character is white space.
pub open spec fn white_space(c: char) -> bool {
    if (c as u32) < 128 {
        c == ' ' || 9 <= c as u32 <= 13
    } else {
        unicode_white_space(c)
    }
}

/// A text beyond ASCII in lower case, by Unicode's rules.
pub uninterp spec fn unicode_lowercase(s: Seq<char>) -> Seq<char>;

/// `str::to_lowercase`: depends on the text alone, and on ASCII text lowers
/// `A` to `Z` and keeps every other character.
#[verifier::external_body]
pub(crate) fn to_lowercase(s: &str) -> (r: String)
    ensures
        r@ == (if is_ascii_chars(s@) {
            ascii_lower(s@)
        } else {
            unicode_lowercase(s@)
        }),
{
    s.to_lowercase()
}

/// A text in lower case.
pub open spec fn lowercase(s: Seq<char>) -> Seq<char> {
    if is_ascii_chars(s) {
        ascii_lower(s)
    } else {
        unicode_lowercase(s)
    }
}

/// A text beyond ASCII in upper case, by Unicode's rules.
pub uninterp spec fn unicode_uppercase(s: Seq<char>) -> Seq<char>;

/// `str::to_uppercase`: depends on the text alone, and on ASCII text raises `a` to
/// `z` and keeps every other character.
#[verifier::external_body]
pub(crate) fn to_uppercase(s: &str) -> (r: String)
    ensures
        r@ == (if is_ascii_chars(s@) {
            ascii_upper(s@)
        } else {
            unicode_uppercase(s@)
        }),
{
    s.to_uppercase()
}

/// A text in upper case.
pub open spec fn uppercase(s: Seq<char>) -> Seq<char> {
    if is_ascii_chars(s) {
        ascii_upper(s)
    } else {
        unicode_uppercase(s)
    }
}

/// A character beyond ASCII in upper case, by Unicode's rules; some become several.
pub uninterp spec fn unicode_upper_char(c: char) -> Seq<char>;

/// `char::to_uppercase`: depends on the character alone; an ASCII character stays
/// one, with `a` to `z` raised.
#[verifier::external_body]
pub(crate) fn upper_char(c: char) -> (r: String)
    ensures
        r@ == (if (c as u32) < 128 {
            seq![ascii_upper_char(c)]
        } else {
            unicode_upper_char(c)
        }),
{
    c.to_uppercase().to_string()
}

/// A character in upper case.
pub open spec fn uppercase_of(c: char) -> Seq<char> {
    if (c as u32) < 128 {
        seq![ascii_upper_char(c)]
    } else {
        unicode_upper_char(c)
    }
}

// ---------------------------------------------------------------------------
// Characters of a text
// ---------------------------------------------------------------------------

/// The characters of `s`, in order.
pub fn chars_of(s: &str) -> (v: Vec<char>)
    ensures
        v@ == s@,
{
    let mut v: Vec<char> = Vec::new();
    for c in it: s.chars()
        invariant
            v@ == it.seq().take(it.index() as int),
            it.seq() == s@,
    {
        v.push(c);
        assert(it.seq().take(it.index() as int + 1) =~= it.seq().take(it.index() as int).push(c));
    }
    assert(s@.take(s@.len() as int) =~= s@);
    v
}

/// The text holding the characters `v[from..to]`.
pub fn string_of(v: &Vec<char>, from: usize, to: usize) -> (s: String)
    requires
        from <= to <= v@.len(),
    ensures
        s@ == v@.subrange(from as int, to as int),
{
    let mut s = String::new();
    let mut i: usize = from;
    while i < to
        invariant
            from <= i <= to <= v@.len(),
            s@ == v@.subrange(from as int, i as int),
        decreases to - i,
    {
        s.push(v[i]);
        assert(v@.subrange(from as int, i as int + 1) =~= v@.subrange(from as int, i as int).push(
            v@[i as int],
        ));
        i = i + 1;
    }
    assert(i == to);
    s
}

/// Whether two texts are the same.
pub fn same(a: &str, b: &str) -> (r: bool)
    ensures
        r == (a@ == b@),
{
    let x = chars_of(a);
    let y = chars_of(b);
    if x.len() != y.len() {
        return false;
    }
    let mut i: usize = 0;
    while i < x.len()
        invariant
            x@ == a@,
            y@ == b@,
            x@.len() == y@.len(),
            i <= x@.len(),
            forall|k: int| 0 <= k < i ==> x@[k] == y@[k],
        decreases x@.len() - i,
    {
        if x[i] != y[i] {
            assert(a@[i as int] != b@[i as int]);
            return false;
        }
        i = i + 1;
    }
    assert(a@ =~= b@);
    true
}


// ---------------------------------------------------------------------------
// ASCII case
// ---------------------------------------------------------------------------

/// `A` to `Z` in lower case; every other character as it is.
pub open spec fn ascii_lower_char(c: char) -> char {
    if 'A' <= c <= 'Z' {
        (c as u32 + 32) as char
    } else {
        c
    }
}

/// A text with its ASCII letters in lower case.
pub open spec fn ascii_lower(s: Seq<char>) -> Seq<char> {
    s.map_values(|c: char| ascii_lower_char(c))
}

/// `a` to `z` in upper case; every other character as it is.
pub open spec fn ascii_upper_char(c: char) -> char {
    if 'a' <= c <= 'z' {
        (c as u32 - 32) as char
    } else {
        c
    }
}

/// A text with its ASCII letters in upper case.
pub open spec fn ascii_upper(s: Seq<char>) -> Seq<char> {
    s.map_values(|c: char| ascii_upper_char(c))
}

/// One character with ASCII upper case folded to lower.
pub fn lower_char(c: char) -> (r: char)
    ensures
        r == ascii_lower_char(c),
{
    if 'A' <= c && c <= 'Z' {
        ((c as u8) + 32) as char
    } else {
        c
    }
}

/// The characters of `s` with ASCII upper case folded to lower.
pub fn lower_chars(s: &str) -> (v: Vec<char>)
    ensures
        v@ == ascii_lower(s@),
{
    let cs = chars_of(s);
    let mut v: Vec<char> = Vec::new();
    let mut i: usize = 0;
    while i < cs.len()
        invariant
            cs@ == s@,
            i <= cs@.len(),
            v@ == ascii_lower(s@).take(i as int),
        decreases cs@.len() - i,
    {
        v.push(lower_char(cs[i]));
        i = i + 1;
        assert(v@ =~= ascii_lower(s@).take(i as int));
    }
    assert(v@ =~= ascii_lower(s@));
    v
}

/// Whether two texts agree up to ASCII case.
pub fn same_ignoring_ascii_case(a: &str, b: &str) -> (r: bool)
    ensures
        r == (ascii_lower(a@) == ascii_lower(b@)),
{
    let x = lower_chars(a);
    let y = lower_chars(b);
    equal_chars(&x, &y)
}

/// Whether two character vectors hold the same text.
pub fn equal_chars(x: &Vec<char>, y: &Vec<char>) -> (r: bool)
    ensures
        r == (x@ == y@),
{
    if x.len() != y.len() {
        return false;
    }
    let mut i: usize = 0;
    while i < x.len()
        invariant
            x@.len() == y@.len(),
            i <= x@.len(),
            forall|k: int| 0 <= k < i ==> x@[k] == y@[k],
        decreases x@.len() - i,
    {
        if x[i] != y[i] {
            return false;
        }
        i = i + 1;
    }
    assert(x@ =~= y@);
    true
}

// ---------------------------------------------------------------------------
// Decimal numbers
// ---------------------------------------------------------------------------

/// The character of a decimal digit.
pub open spec fn digit_char(d: int) -> char {
    (48 + d) as char
}

/// A natural number in decimal, without leading zeros.
pub open spec fn decimal(n: nat) -> Seq<char>
    decreases n,
{
    if n < 10 {
        seq![digit_char(n as int)]
    } else {
        decimal(n / 10).push(digit_char((n % 10) as int))
    }
}

/// An integer in decimal, with a leading minus when negative.
pub open spec fn decimal_int(n: int) -> Seq<char> {
    if n < 0 {
        seq!['-'] + decimal((-n) as nat)
    } else {
        decimal(n as nat)
    }
}

fn digit_of(d: u8) -> (c: char)
    requires
        d < 10,
    ensures
        c == digit_char(d as int),
{
    (48 + d) as char
}

/// Appends `n` in decimal.
pub fn push_decimal(s: &mut String, n: u64)
    ensures
        final(s)@ == old(s)@ + decimal(n as nat),
    decreases n,
{
    if n >= 10 {
        push_decimal(s, n / 10);
    }
    s.push(digit_of((n % 10) as u8));
    proof {
        if n < 10 {
            assert(s@ =~= old(s)@ + seq![digit_char(n as int)]);
        } else {
            assert(s@ =~= old(s)@ + decimal((n / 10) as nat).push(digit_char((n % 10) as int)));
        }
    }
}

/// `n` in decimal.
pub fn decimal_of(n: u64) -> (s: String)
    ensures
        s@ == decimal(n as nat),
{
    let mut s = String::new();
    push_decimal(&mut s, n);
    assert(s@ =~= decimal(n as nat));
    s
}

/// Appends `n` in decimal, with its sign when negative.
pub fn push_decimal_int(s: &mut String, n: i64)
    ensures
        final(s)@ == old(s)@ + decimal_int(n as int),
{
    if n < 0 {
        s.push('-');
        let magnitude: u64 = magnitude_of(n);
        push_decimal(s, magnitude);
        assert(s@ =~= old(s)@ + decimal_int(n as int));
    } else {
        push_decimal(s, n as u64);
    }
}

/// The magnitude of a number, which fits `u64` even for the least `i64`.
pub fn magnitude_of(n: i64) -> (m: u64)
    ensures
        m == if n < 0 { -(n as int) } else { n as int },
{
    if n >= 0 {
        n as u64
    } else {
        (-(n + 1)) as u64 + 1
    }
}

/// `n` in decimal, with its sign when negative.
pub fn decimal_of_int(n: i64) -> (s: String)
    ensures
        s@ == decimal_int(n as int),
{
    let mut s = String::new();
    push_decimal_int(&mut s, n);
    assert(s@ =~= decimal_int(n as int));
    s
}

/// Whether a character is an ASCII digit.
pub open spec fn is_digit(c: char) -> bool {
    '0' <= c <= '9'
}

/// Whether a text is one or more ASCII digits.
pub open spec fn all_digits(s: Seq<char>) -> bool {
    s.len() > 0 && forall|i: int| 0 <= i < s.len() ==> is_digit(#[trigger] s[i])
}

/// The number that a run of digits writes.
pub open spec fn digits_value(s: Seq<char>) -> nat
    decreases s.len(),
{
    if s.len() == 0 {
        0
    } else {
        digits_value(s.drop_last()) * 10 + (s.last() as nat - 48) as nat
    }
}

/// What an unsigned decimal reader makes of a text: one or more digits after an
/// optional plus, with a value of at most `max`.
pub open spec fn unsigned_value(s: Seq<char>, max: nat) -> Option<nat> {
    let digits = if s.len() > 0 && s[0] == '+' {
        s.skip(1)
    } else {
        s
    };
    if all_digits(digits) && digits_value(digits) <= max {
        Some(digits_value(digits))
    } else {
        None
    }
}

/// What a signed decimal reader makes of a text: one or more digits after an
/// optional sign, with a value between `min` and `max`.
pub open spec fn signed_value(s: Seq<char>, min: int, max: int) -> Option<int> {
    let signed = s.len() > 0 && (s[0] == '+' || s[0] == '-');
    let digits = if signed {
        s.skip(1)
    } else {
        s
    };
    let value: int = if signed && s[0] == '-' {
        -(digits_value(digits) as int)
    } else {
        digits_value(digits) as int
    };
    if all_digits(digits) && min <= value <= max {
        Some(value)
    } else {
        None
    }
}

/// A longer run of digits never writes a smaller number.
proof fn digits_value_grows(s: Seq<char>, k: int)
    requires
        all_digits(s),
        0 <= k <= s.len(),
    ensures
        digits_value(s.take(k)) <= digits_value(s),
    decreases s.len() - k,
{
    if k < s.len() {
        let next = s.take(k + 1);
        assert(next.drop_last() =~= s.take(k));
        assert(is_digit(s[k]));
        assert(digits_value(next) == digits_value(s.take(k)) * 10 + (s[k] as nat - 48) as nat);
        digits_value_grows(s, k + 1);
    } else {
        assert(s.take(k) =~= s);
    }
}

/// Reads the digits `cs[from..]` as a number of at most `max`.
pub fn read_digits(cs: &Vec<char>, from: usize, max: u64) -> (r: Option<u64>)
    requires
        from <= cs@.len(),
    ensures
        match r {
            Some(v) => all_digits(cs@.skip(from as int)) && v == digits_value(
                cs@.skip(from as int),
            ) && v <= max,
            None => !all_digits(cs@.skip(from as int)) || digits_value(cs@.skip(from as int))
                > max,
        },
{
    let ghost digits = cs@.skip(from as int);
    if from == cs.len() {
        return None;
    }
    let mut i: usize = from;
    while i < cs.len()
        invariant
            from <= i <= cs@.len(),
            digits == cs@.skip(from as int),
            forall|k: int| 0 <= k < i - from ==> is_digit(#[trigger] digits[k]),
        decreases cs@.len() - i,
    {
        let c = cs[i];
        assert(digits[i - from] == c);
        if c < '0' || c > '9' {
            return None;
        }
        i = i + 1;
    }
    assert(all_digits(digits));
    let mut value: u64 = 0;
    let mut j: usize = from;
    while j < cs.len()
        invariant
            from <= j <= cs@.len(),
            digits == cs@.skip(from as int),
            all_digits(digits),
            value == digits_value(digits.take(j - from)),
            value <= max,
        decreases cs@.len() - j,
    {
        let c = cs[j];
        assert(digits[j - from] == c);
        assert(is_digit(digits[j - from]));
        let d: u64 = (c as u64) - 48;
        proof {
            let next = digits.take(j - from + 1);
            assert(next.drop_last() =~= digits.take(j - from));
            assert(next.last() == c);
            assert(digits_value(next) == value * 10 + d);
            digits_value_grows(digits, j - from + 1);
        }
        let grown: u128 = (value as u128) * 10 + (d as u128);
        if grown > max as u128 {
            return None;
        }
        value = grown as u64;
        j = j + 1;
    }
    assert(digits.take(digits.len() as int) =~= digits);
    Some(value)
}

/// Reads an unsigned decimal of at most `max`; a leading plus is allowed.
pub fn read_unsigned(s: &str, max: u64) -> (r: Option<u64>)
    ensures
        match r {
            Some(v) => unsigned_value(s@, max as nat) == Some(v as nat),
            None => unsigned_value(s@, max as nat) is None,
        },
{
    let cs = chars_of(s);
    assert(cs@.skip(0) =~= cs@);
    let from: usize = if cs.len() > 0 && cs[0] == '+' {
        1
    } else {
        0
    };
    read_digits(&cs, from, max)
}

/// Reads a signed decimal of any `i64`; a leading sign is allowed.
pub fn read_i64(s: &str) -> (r: Option<i64>)
    ensures
        match r {
            Some(v) => signed_value(s@, i64::MIN as int, i64::MAX as int) == Some(v as int),
            None => signed_value(s@, i64::MIN as int, i64::MAX as int) is None,
        },
{
    let cs = chars_of(s);
    assert(cs@.skip(0) =~= cs@);
    if cs.len() > 0 && cs[0] == '-' {
        match read_digits(&cs, 1, 0x8000_0000_0000_0000) {
            Some(m) => {
                if m == 0 {
                    Some(0)
                } else {
                    Some(-((m - 1) as i64) - 1)
                }
            },
            None => None,
        }
    } else {
        let from: usize = if cs.len() > 0 && cs[0] == '+' {
            1
        } else {
            0
        };
        match read_digits(&cs, from, 0x7fff_ffff_ffff_ffff) {
            Some(m) => Some(m as i64),
            None => None,
        }
    }
}

/// Reads a signed decimal of any `i32`; a leading sign is allowed.
pub fn read_i32(s: &str) -> (r: Option<i32>)
    ensures
        match r {
            Some(v) => signed_value(s@, i32::MIN as int, i32::MAX as int) == Some(v as int),
            None => signed_value(s@, i32::MIN as int, i32::MAX as int) is None,
        },
{
    match read_i64(s) {
        Some(v) => if -0x8000_0000 <= v && v <= 0x7fff_ffff {
            Some(v as i32)
        } else {
            None
        },
        None => None,
    }
}

/// Whether a character is an ASCII digit.
pub fn is_digit_char(c: char) -> (r: bool)
    ensures
        r == is_digit(c),
{
    '0' <= c && c <= '9'
}

// ---------------------------------------------------------------------------
// Laws of decimal numbers
// ---------------------------------------------------------------------------

/// Writing a number in decimal and reading it back gives the number.
pub proof fn decimal_reads_back(n: nat)
    ensures
        all_digits(decimal(n)),
        digits_value(decimal(n)) == n,
    decreases n,
{
    if n < 10 {
        let s = decimal(n);
        assert(s.drop_last() =~= Seq::<char>::empty());
        assert(digits_value(s.drop_last()) == 0);
        assert(digit_char(n as int) as nat == 48 + n);
    } else {
        decimal_reads_back(n / 10);
        let s = decimal(n);
        assert(s.drop_last() =~= decimal(n / 10));
        assert(digit_char((n % 10) as int) as nat == 48 + n % 10);
        assert forall|i: int| 0 <= i < s.len() implies is_digit(#[trigger] s[i]) by {
            if i < s.len() - 1 {
                assert(s[i] == decimal(n / 10)[i]);
            }
        }
    }
}

/// Two numbers with the same decimal text are the same number.
pub proof fn decimal_is_injective(a: nat, b: nat)
    requires
        decimal(a) == decimal(b),
    ensures
        a == b,
{
    decimal_reads_back(a);
    decimal_reads_back(b);
}

/// Writing a signed number and reading it back gives the number.
pub proof fn decimal_int_reads_back(n: int, min: int, max: int)
    requires
        min <= n <= max,
    ensures
        signed_value(decimal_int(n), min, max) == Some(n),
{
    if n < 0 {
        decimal_reads_back((-n) as nat);
        assert(decimal_int(n).skip(1) =~= decimal((-n) as nat));
    } else {
        decimal_reads_back(n as nat);
        assert(is_digit(decimal(n as nat)[0]));
    }
}

// ---------------------------------------------------------------------------
// Searching and cutting
// ---------------------------------------------------------------------------

/// The texts of a list of strings.
pub open spec fn texts(v: Seq<String>) -> Seq<Seq<char>> {
    v.map_values(|s: String| s@)
}

/// The text of an optional string.
pub open spec fn opt_text(o: Option<String>) -> Option<Seq<char>> {
    match o {
        Some(s) => Some(s@),
        None => None,
    }
}

/// The text of an optional string slice.
pub open spec fn opt_str(o: Option<&str>) -> Option<Seq<char>> {
    match o {
        Some(s) => Some(s@),
        None => None,
    }
}

/// `s` without its leading white space.
pub open spec fn trimmed_start(s: Seq<char>) -> Seq<char>
    decreases s.len(),
{
    if s.len() > 0 && white_space(s[0]) {
        trimmed_start(s.skip(1))
    } else {
        s
    }
}

/// `s` without its trailing white space.
pub open spec fn trimmed_end(s: Seq<char>) -> Seq<char>
    decreases s.len(),
{
    if s.len() > 0 && white_space(s.last()) {
        trimmed_end(s.drop_last())
    } else {
        s
    }
}

/// `s` without white space at either end.
pub open spec fn trimmed(s: Seq<char>) -> Seq<char> {
    trimmed_end(trimmed_start(s))
}

/// Whether `t` occurs somewhere in `s`.
pub open spec fn contains_text(s: Seq<char>, t: Seq<char>) -> bool {
    exists|i: int|
        0 <= i && i + t.len() <= s.len() && #[trigger] s.subrange(i, i + t.len()) == t
}

/// Whether `s` begins with `p`.
pub open spec fn begins_with(s: Seq<char>, p: Seq<char>) -> bool {
    p.len() <= s.len() && s.take(p.len() as int) == p
}

/// Whether `s` ends with `p`.
pub open spec fn ends_with(s: Seq<char>, p: Seq<char>) -> bool {
    p.len() <= s.len() && s.skip(s.len() - p.len()) == p
}

/// What follows the prefix `p` in `s`, if `s` begins with it.
pub open spec fn after_prefix(s: Seq<char>, p: Seq<char>) -> Option<Seq<char>> {
    if begins_with(s, p) {
        Some(s.skip(p.len() as int))
    } else {
        None
    }
}

/// Position of the first `c` in `s`, or the length of `s` if there is none.
pub open spec fn first_index(s: Seq<char>, c: char) -> int
    decreases s.len(),
{
    if s.len() == 0 || s[0] == c {
        0
    } else {
        1 + first_index(s.skip(1), c)
    }
}

/// Position of the last `c` in `s`, or -1 if there is none.
pub open spec fn last_index(s: Seq<char>, c: char) -> int
    decreases s.len(),
{
    if s.len() == 0 {
        -1
    } else if s.last() == c {
        s.len() - 1
    } else {
        last_index(s.drop_last(), c)
    }
}

/// The pieces of `s` between the separators `c`; one piece more than separators.
pub open spec fn pieces(s: Seq<char>, c: char) -> Seq<Seq<char>>
    decreases s.len(),
{
    let i = first_index(s, c);
    if 0 <= i < s.len() {
        seq![s.take(i)] + pieces(s.skip(i + 1), c)
    } else {
        seq![s]
    }
}

/// The first index is where the character is first met.
pub proof fn first_index_at(s: Seq<char>, c: char, i: int)
    requires
        0 <= i <= s.len(),
        forall|k: int| 0 <= k < i ==> s[k] != c,
        i < s.len() ==> s[i] == c,
    ensures
        first_index(s, c) == i,
    decreases s.len(),
{
    if i > 0 {
        assert forall|k: int| 0 <= k < i - 1 implies s.skip(1)[k] != c by {
            assert(s[k + 1] != c);
        }
        first_index_at(s.skip(1), c, i - 1);
    }
}

/// The last index is where the character is last met.
pub proof fn last_index_at(s: Seq<char>, c: char, i: int)
    requires
        -1 <= i < s.len(),
        forall|k: int| i < k < s.len() ==> s[k] != c,
        i >= 0 ==> s[i] == c,
    ensures
        last_index(s, c) == i,
    decreases s.len(),
{
    if s.len() > 0 && i < s.len() - 1 {
        assert(s[s.len() - 1] != c);
        last_index_at(s.drop_last(), c, i);
    }
}

/// Position of the first `c` in `cs`, or its length.
pub fn find_char(cs: &Vec<char>, c: char) -> (r: usize)
    ensures
        r == first_index(cs@, c),
        r <= cs@.len(),
{
    let mut i: usize = 0;
    while i < cs.len() && cs[i] != c
        invariant
            i <= cs@.len(),
            forall|k: int| 0 <= k < i ==> cs@[k] != c,
        decreases cs@.len() - i,
    {
        i = i + 1;
    }
    proof {
        first_index_at(cs@, c, i as int);
    }
    i
}

/// Position of the last `c` in `cs`.
pub fn rfind_char(cs: &Vec<char>, c: char) -> (r: Option<usize>)
    ensures
        match r {
            Some(i) => i == last_index(cs@, c) && i < cs@.len() && cs@[i as int] == c,
            None => last_index(cs@, c) == -1,
        },
{
    let mut i: usize = cs.len();
    while i > 0
        invariant
            i <= cs@.len(),
            forall|k: int| i <= k < cs@.len() ==> cs@[k] != c,
        decreases i,
    {
        if cs[i - 1] == c {
            proof {
                last_index_at(cs@, c, i - 1);
            }
            return Some(i - 1);
        }
        i = i - 1;
    }
    proof {
        last_index_at(cs@, c, -1);
    }
    None
}

/// Whether `cs[at..]` begins with `p`.
pub fn matches_at(cs: &Vec<char>, at: usize, p: &Vec<char>) -> (r: bool)
    requires
        at <= cs@.len(),
    ensures
        r == (at + p@.len() <= cs@.len() && cs@.subrange(at as int, at + p@.len()) == p@),
{
    if p.len() > cs.len() - at {
        return false;
    }
    let mut i: usize = 0;
    while i < p.len()
        invariant
            at + p@.len() <= cs.len(),
            i <= p@.len(),
            forall|k: int| 0 <= k < i ==> cs@[at + k] == p@[k],
        decreases p@.len() - i,
    {
        if cs[at + i] != p[i] {
            assert(cs@.subrange(at as int, at + p@.len())[i as int] != p@[i as int]);
            return false;
        }
        i = i + 1;
    }
    assert(cs@.subrange(at as int, at + p@.len()) =~= p@);
    true
}

/// Whether `s` begins with `p`.
pub fn has_prefix(s: &str, p: &str) -> (r: bool)
    ensures
        r == begins_with(s@, p@),
{
    let cs = chars_of(s);
    let ps = chars_of(p);
    matches_at(&cs, 0, &ps)
}

/// What follows the prefix `p` in `s`, if `s` begins with it.
pub fn strip_prefix(s: &str, p: &str) -> (r: Option<String>)
    ensures
        opt_text(r) == after_prefix(s@, p@),
{
    let cs = chars_of(s);
    let ps = chars_of(p);
    if matches_at(&cs, 0, &ps) {
        Some(string_of(&cs, ps.len(), cs.len()))
    } else {
        None
    }
}

/// Whether `t` occurs somewhere in `s`.
pub fn contains(s: &str, t: &str) -> (r: bool)
    ensures
        r == contains_text(s@, t@),
{
    let cs = chars_of(s);
    let ts = chars_of(t);
    let mut i: usize = 0;
    while i <= cs.len()
        invariant
            cs@ == s@,
            ts@ == t@,
            i <= cs@.len() + 1,
            forall|k: int|
                0 <= k < i && k + t@.len() <= s@.len() ==> #[trigger] s@.subrange(
                    k,
                    k + t@.len(),
                ) != t@,
        decreases cs@.len() + 1 - i,
    {
        if matches_at(&cs, i, &ts) {
            return true;
        }
        if i == cs.len() {
            return false;
        }
        i = i + 1;
    }
    false
}

/// `s` without white space at either end.
pub fn trim(s: &str) -> (r: String)
    ensures
        r@ == trimmed(s@),
{
    let cs = chars_of(s);
    let mut from: usize = 0;
    assert(cs@.skip(0) =~= cs@);
    while from < cs.len() && cs[from].is_whitespace()
        invariant
            from <= cs@.len(),
            trimmed_start(cs@) == trimmed_start(cs@.skip(from as int)),
        decreases cs@.len() - from,
    {
        assert(cs@.skip(from as int).skip(1) =~= cs@.skip(from as int + 1));
        from = from + 1;
    }
    let mut to: usize = cs.len();
    let ghost rest = cs@.skip(from as int);
    assert(trimmed_start(rest) == rest);
    assert(cs@.subrange(from as int, to as int) =~= rest);
    while to > from && cs[to - 1].is_whitespace()
        invariant
            from <= to <= cs@.len(),
            trimmed_end(rest) == trimmed_end(cs@.subrange(from as int, to as int)),
        decreases to,
    {
        assert(cs@.subrange(from as int, to as int).drop_last() =~= cs@.subrange(
            from as int,
            to - 1,
        ));
        to = to - 1;
    }
    string_of(&cs, from, to)
}

/// The pieces of `s` between the separators `c`.
pub fn split(s: &str, c: char) -> (r: Vec<String>)
    ensures
        texts(r@) == pieces(s@, c),
{
    let cs = chars_of(s);
    let mut out: Vec<String> = Vec::new();
    let mut start: usize = 0;
    let mut i: usize = 0;
    assert(cs@.skip(0) =~= cs@);
    assert(texts(out@) + pieces(cs@, c) =~= pieces(cs@, c));
    while i < cs.len()
        invariant
            cs@ == s@,
            start <= i <= cs@.len(),
            forall|k: int| start <= k < i ==> cs@[k] != c,
            texts(out@) + pieces(cs@.skip(start as int), c) == pieces(s@, c),
        decreases cs@.len() - i,
    {
        if cs[i] == c {
            let ghost before = texts(out@);
            proof {
                let rest = cs@.skip(start as int);
                first_index_at(rest, c, i - start);
                assert(rest.take(i - start) =~= cs@.subrange(start as int, i as int));
                assert(rest.skip(i - start + 1) =~= cs@.skip(i as int + 1));
            }
            out.push(string_of(&cs, start, i));
            start = i + 1;
            proof {
                let piece = out@.last()@;
                assert(texts(out@) =~= before.push(piece));
                assert(before.push(piece) + pieces(cs@.skip(start as int), c) =~= before + (seq![
                    piece,
                ] + pieces(cs@.skip(start as int), c)));
            }
        }
        i = i + 1;
    }
    let ghost before = texts(out@);
    proof {
        let rest = cs@.skip(start as int);
        first_index_at(rest, c, rest.len() as int);
        assert(rest =~= cs@.subrange(start as int, cs@.len() as int));
    }
    out.push(string_of(&cs, start, cs.len()));
    assert(texts(out@) =~= before + seq![out@.last()@]);
    out
}

// ---------------------------------------------------------------------------
// Byte lengths
// ---------------------------------------------------------------------------

/// Length of a character in UTF-8.
pub open spec fn utf8_len(c: char) -> nat {
    if c as u32 <= 0x7f {
        1
    } else if c as u32 <= 0x7ff {
        2
    } else if c as u32 <= 0xffff {
        3
    } else {
        4
    }
}

/// Length of a text in UTF-8.
pub open spec fn byte_len(s: Seq<char>) -> nat {
    encode_utf8(s).len()
}

/// Encoding two texts one after the other is encoding their concatenation.
pub proof fn encode_concat(a: Seq<char>, b: Seq<char>)
    ensures
        encode_utf8(a + b) == encode_utf8(a) + encode_utf8(b),
    decreases a.len(),
{
    if a.len() == 0 {
        assert(a + b =~= b);
        assert(encode_utf8(a) + encode_utf8(b) =~= encode_utf8(b));
    } else {
        encode_concat(a.drop_first(), b);
        assert((a + b).drop_first() =~= a.drop_first() + b);
        assert((a + b)[0] == a[0]);
        assert(encode_utf8(a + b) =~= encode_utf8(a) + encode_utf8(b));
    }
}

/// One character more lengthens a text by the length of the character.
pub proof fn byte_len_push(s: Seq<char>, c: char)
    ensures
        byte_len(s.push(c)) == byte_len(s) + utf8_len(c),
{
    let one = seq![c];
    assert(s.push(c) =~= s + one);
    encode_concat(s, one);
    assert(one.drop_first() =~= Seq::<char>::empty());
    assert(encode_utf8(one.drop_first()) =~= Seq::<u8>::empty());
    assert(encode_utf8(one) =~= encode_scalar(c as u32));
    vstd::utf8::char_is_scalar(c);
    assert(encode_scalar(c as u32).len() == utf8_len(c));
}

/// A shorter prefix is at most as long in bytes.
pub proof fn byte_len_take(s: Seq<char>, k: int)
    requires
        0 <= k <= s.len(),
    ensures
        byte_len(s.take(k)) <= byte_len(s),
{
    encode_concat(s.take(k), s.skip(k));
    assert(s.take(k) + s.skip(k) =~= s);
}

/// Length of a text in UTF-8.
pub fn byte_length(s: &str) -> (r: usize)
    ensures
        r == byte_len(s@),
{
    s.as_bytes().len()
}

/// Length in UTF-8 of the first `k` characters of `s`.
pub fn byte_offset(s: &str, k: usize) -> (r: usize)
    requires
        k <= s@.len(),
    ensures
        r == byte_len(s@.take(k as int)),
{
    let cs = chars_of(s);
    let total = byte_length(s);
    let mut n: usize = 0;
    let mut i: usize = 0;
    assert(s@.take(0) =~= Seq::<char>::empty());
    while i < k
        invariant
            cs@ == s@,
            i <= k <= s@.len(),
            n == byte_len(s@.take(i as int)),
            total == byte_len(s@),
        decreases k - i,
    {
        proof {
            assert(s@.take(i as int + 1) =~= s@.take(i as int).push(s@[i as int]));
            byte_len_push(s@.take(i as int), s@[i as int]);
            byte_len_take(s@, i as int + 1);
        }
        n = n + char_byte_len(cs[i]);
        i = i + 1;
    }
    n
}

/// Length of a character in UTF-8.
pub fn char_byte_len(c: char) -> (r: usize)
    ensures
        r == utf8_len(c),
{
    let u: u32 = c as u32;
    if u <= 0x7f {
        1
    } else if u <= 0x7ff {
        2
    } else if u <= 0xffff {
        3
    } else {
        4
    }
}

/// The beginning of a text that takes exactly `n` bytes, if `n` falls between two
/// of its characters.
pub open spec fn byte_prefix(s: Seq<char>, n: nat) -> Option<Seq<char>> {
    if exists|k: int| 0 <= k <= s.len() && #[trigger] byte_len(s.take(k)) == n {
        let k = choose|k: int| 0 <= k <= s.len() && #[trigger] byte_len(s.take(k)) == n;
        Some(s.take(k))
    } else {
        None
    }
}

/// Every character takes at least one byte, so longer beginnings take more.
proof fn byte_len_grows(s: Seq<char>, j: int, k: int)
    requires
        0 <= j < k <= s.len(),
    ensures
        byte_len(s.take(j)) < byte_len(s.take(k)),
    decreases k - j,
{
    assert(s.take(k) =~= s.take(k - 1).push(s[k - 1]));
    byte_len_push(s.take(k - 1), s[k - 1]);
    if j < k - 1 {
        byte_len_grows(s, j, k - 1);
    }
}

/// The beginning of `s` that takes exactly `n` bytes.
pub fn cut_bytes(s: &str, n: usize) -> (r: Option<String>)
    ensures
        opt_text(r) == byte_prefix(s@, n as nat),
{
    let cs = chars_of(s);
    let mut size: usize = 0;
    let mut i: usize = 0;
    assert(s@.take(0) =~= Seq::<char>::empty());
    while i < cs.len() && size < n
        invariant
            cs@ == s@,
            i <= cs@.len(),
            size <= n,
            size == byte_len(s@.take(i as int)),
            forall|k: int| 0 <= k < i ==> #[trigger] byte_len(s@.take(k)) < n,
        decreases cs@.len() - i,
    {
        let width = char_byte_len(cs[i]);
        proof {
            assert(s@.take(i as int + 1) =~= s@.take(i as int).push(s@[i as int]));
            byte_len_push(s@.take(i as int), s@[i as int]);
        }
        if width > n - size {
            proof {
                assert forall|k: int| 0 <= k <= s@.len() implies #[trigger] byte_len(s@.take(k))
                    != n by {
                    if k > i + 1 {
                        byte_len_grows(s@, i as int + 1, k);
                    } else if k == i + 1 {
                        assert(s@.take(k) == s@.take(i as int + 1));
                    } else if k == i {
                        assert(s@.take(k) == s@.take(i as int));
                    }
                }
            }
            return None;
        }
        size = size + width;
        i = i + 1;
    }
    if size == n {
        proof {
            let k = choose|k: int| 0 <= k <= s@.len() && #[trigger] byte_len(s@.take(k)) == n;
            assert(byte_len(s@.take(i as int)) == n);
            if k < i {
                byte_len_grows(s@, k, i as int);
            } else if i < k {
                byte_len_grows(s@, i as int, k);
            }
            assert(s@.subrange(0, i as int) =~= s@.take(i as int));
        }
        Some(string_of(&cs, 0, i))
    } else {
        proof {
            assert forall|k: int| 0 <= k <= s@.len() implies #[trigger] byte_len(s@.take(k)) != n by {
                if k == i {
                    assert(s@.take(k) == s@.take(i as int));
                }
            }
        }
        None
    }
}

// ---------------------------------------------------------------------------
// Lists of texts
// ---------------------------------------------------------------------------

/// A copy of a list of texts.
pub fn copy_texts(v: &Vec<String>) -> (r: Vec<String>)
    ensures
        texts(r@) == texts(v@),
{
    let mut out: Vec<String> = Vec::new();
    let mut i: usize = 0;
    while i < v.len()
        invariant
            i <= v@.len(),
            texts(out@) == texts(v@).take(i as int),
        decreases v@.len() - i,
    {
        out.push(v[i].clone());
        proof {
            take_push(texts(v@), i as int);
        }
        i = i + 1;
    }
    assert(texts(out@) =~= texts(v@));
    out
}

/// A list of texts with another text between each two.
pub open spec fn joined(parts: Seq<Seq<char>>, between: Seq<char>) -> Seq<char>
    decreases parts.len(),
{
    if parts.len() == 0 {
        Seq::empty()
    } else if parts.len() == 1 {
        parts[0]
    } else {
        joined(parts.drop_last(), between) + between + parts.last()
    }
}

/// A list of texts with another text between each two.
pub fn join(parts: &Vec<String>, between: &str) -> (r: String)
    ensures
        r@ == joined(texts(parts@), between@),
{
    let mut out = String::new();
    let mut i: usize = 0;
    assert(texts(parts@).take(0) =~= Seq::<Seq<char>>::empty());
    while i < parts.len()
        invariant
            i <= parts@.len(),
            out@ == joined(texts(parts@).take(i as int), between@),
        decreases parts@.len() - i,
    {
        let ghost sofar = texts(parts@).take(i as int);
        let ghost next = texts(parts@).take(i as int + 1);
        proof {
            assert(next.drop_last() =~= sofar);
            assert(next.last() == parts@[i as int]@);
        }
        if i > 0 {
            out.push_str(between);
        }
        out.push_str(parts[i].as_str());
        proof {
            if i == 0 {
                assert(out@ =~= next[0]);
            }
        }
        i = i + 1;
    }
    assert(texts(parts@).take(i as int) =~= texts(parts@));
    out
}

/// `a` followed by `b`.
pub fn concat(a: &str, b: &str) -> (r: String)
    ensures
        r@ == a@ + b@,
{
    let mut s = a.to_owned();
    s.push_str(b);
    s
}

/// `a`, `b` and `c` in a row.
pub fn concat3(a: &str, b: &str, c: &str) -> (r: String)
    ensures
        r@ == a@ + b@ + c@,
{
    let mut s = a.to_owned();
    s.push_str(b);
    s.push_str(c);
    s
}

/// A number with a text on either side.
pub fn around_decimal(before: &str, n: u64, after: &str) -> (r: String)
    ensures
        r@ == before@ + decimal(n as nat) + after@,
{
    let mut s = before.to_owned();
    push_decimal(&mut s, n);
    s.push_str(after);
    s
}

// ---------------------------------------------------------------------------
// Bytes
// ---------------------------------------------------------------------------

/// Texts with the same bytes are the same.
pub proof fn same_bytes_same_text(a: Seq<char>, b: Seq<char>)
    ensures
        (encode_utf8(a) == encode_utf8(b)) == (a == b),
{
    if encode_utf8(a) == encode_utf8(b) {
        vstd::utf8::encode_utf8_decode_utf8(a);
        vstd::utf8::encode_utf8_decode_utf8(b);
    }
}

/// The character of a hexadecimal digit, in lower case.
pub open spec fn hex_digit(n: int) -> char {
    if n < 10 {
        (48 + n) as char
    } else {
        (87 + n) as char
    }
}

/// Bytes in hexadecimal, two lower-case digits each.
pub open spec fn hex(bytes: Seq<u8>) -> Seq<char>
    decreases bytes.len(),
{
    if bytes.len() == 0 {
        Seq::empty()
    } else {
        hex(bytes.drop_last()).push(hex_digit(bytes.last() as int / 16)).push(
            hex_digit(bytes.last() as int % 16),
        )
    }
}

fn hex_char(n: u8) -> (c: char)
    requires
        n < 16,
    ensures
        c == hex_digit(n as int),
{
    if n < 10 {
        (48 + n) as char
    } else {
        (87 + n) as char
    }
}

/// Bytes in hexadecimal.
pub fn hex_of(bytes: &Vec<u8>) -> (r: String)
    ensures
        r@ == hex(bytes@),
{
    let mut out = String::new();
    let mut i: usize = 0;
    assert(bytes@.take(0) =~= Seq::<u8>::empty());
    while i < bytes.len()
        invariant
            i <= bytes@.len(),
            out@ == hex(bytes@.take(i as int)),
        decreases bytes@.len() - i,
    {
        proof {
            assert(bytes@.take(i as int + 1).drop_last() =~= bytes@.take(i as int));
        }
        out.push(hex_char(bytes[i] / 16));
        out.push(hex_char(bytes[i] % 16));
        i = i + 1;
    }
    assert(bytes@.take(i as int) =~= bytes@);
    out
}

// ---------------------------------------------------------------------------
// Whole seconds
// ---------------------------------------------------------------------------

/// A number divided by another, towards zero.
pub open spec fn toward_zero(n: int, d: int) -> int {
    if n < 0 {
        -((-n) / d)
    } else {
        n / d
    }
}

/// A thousandth of a number, towards zero.
pub fn thousandth(n: i64) -> (r: i64)
    ensures
        r == toward_zero(n as int, 1000),
{
    if n >= 0 {
        n / 1000
    } else {
        -((magnitude_of(n) / 1000) as i64)
    }
}

// ---------------------------------------------------------------------------
// Narrow numbers
// ---------------------------------------------------------------------------

/// A number in 32 bits, signed.
pub open spec fn as_i32(n: int) -> int {
    (n + 0x8000_0000) % 0x1_0000_0000 - 0x8000_0000
}

/// A number in 32 bits, signed.
pub fn wrapped_i32(n: usize) -> (r: i32)
    ensures
        r == as_i32(n as int),
{
    let low: u64 = (n as u64) % 0x1_0000_0000;
    if low < 0x8000_0000 {
        low as i32
    } else {
        (low as i64 - 0x1_0000_0000) as i32
    }
}

// ---------------------------------------------------------------------------
// Laws of texts
// ---------------------------------------------------------------------------

/// A text is found wherever it stands, and only where it stands.
pub proof fn texts_are_found_inside(s: Seq<char>, t: Seq<char>)
    ensures
        contains_text(s, t) <==> exists|a: Seq<char>, c: Seq<char>| s == #[trigger] (a + t + c),
{
    if contains_text(s, t) {
        let i = choose|i: int|
            0 <= i && i + t.len() <= s.len() && #[trigger] s.subrange(i, i + t.len()) == t;
        let a = s.take(i);
        let c = s.skip(i + t.len());
        assert(s =~= a + t + c) by {
            assert forall|k: int| 0 <= k < s.len() implies s[k] == (a + t + c)[k] by {
                if i <= k < i + t.len() {
                    assert(s.subrange(i, i + t.len())[k - i] == t[k - i]);
                }
            }
        }
    }
    if exists|a: Seq<char>, c: Seq<char>| s == #[trigger] (a + t + c) {
        let (a, c) = choose|a: Seq<char>, c: Seq<char>| s == #[trigger] (a + t + c);
        assert(s.subrange(a.len() as int, a.len() as int + t.len()) =~= t);
    }
}

/// A text stands in another in any case: what is around it, and which letters are capitals,
/// does not matter.
pub proof fn texts_are_found_in_any_case(
    before: Seq<char>,
    part: Seq<char>,
    after: Seq<char>,
    asked: Seq<char>,
)
    requires
        is_ascii_chars(before + part + after),
        is_ascii_chars(asked),
        asked.len() == part.len(),
        forall|i: int|
            0 <= i < part.len() ==> #[trigger] part[i] == asked[i] || (part[i] as int - asked[i]
                as int == 32 && 'A' <= asked[i] <= 'Z') || (asked[i] as int - part[i] as int == 32
                && 'A' <= part[i] <= 'Z'),
    ensures
        contains_text(lowercase(before + part + after), lowercase(asked)),
{
    let s = before + part + after;
    assert forall|i: int| 0 <= i < part.len() implies ascii_lower_char(#[trigger] part[i])
        == ascii_lower_char(asked[i]) by {
        assert(s[before.len() + i] == part[i]);
        assert(asked[i] <= '\u{7f}');
    }
    assert(ascii_lower(asked) =~= ascii_lower(part));
    assert(ascii_lower(s) =~= ascii_lower(before) + ascii_lower(part) + ascii_lower(after));
    texts_are_found_inside(lowercase(s), lowercase(asked));
}

/// A text begins with another if that stands in front of something.
pub proof fn beginnings_stand_in_front(s: Seq<char>, p: Seq<char>)
    ensures
        begins_with(s, p) <==> exists|rest: Seq<char>| s == #[trigger] (p + rest),
        forall|rest: Seq<char>| after_prefix(#[trigger] (p + rest), p) == Some(rest),
{
    if begins_with(s, p) {
        assert(s =~= p + s.skip(p.len() as int));
    }
    if exists|rest: Seq<char>| s == #[trigger] (p + rest) {
        let rest = choose|rest: Seq<char>| s == #[trigger] (p + rest);
        assert(s.take(p.len() as int) =~= p);
    }
    assert forall|rest: Seq<char>| after_prefix(#[trigger] (p + rest), p) == Some(rest) by {
        assert((p + rest).take(p.len() as int) =~= p);
        assert((p + rest).skip(p.len() as int) =~= rest);
    }
}

/// A text ends with another if something stands in front of that.
pub proof fn endings_stand_behind(s: Seq<char>, p: Seq<char>)
    ensures
        ends_with(s, p) <==> exists|rest: Seq<char>| s == #[trigger] (rest + p),
{
    if ends_with(s, p) {
        assert(s =~= s.take(s.len() - p.len()) + p);
    }
    if exists|rest: Seq<char>| s == #[trigger] (rest + p) {
        let rest = choose|rest: Seq<char>| s == #[trigger] (rest + p);
        assert(s.skip(s.len() - p.len()) =~= p);
    }
}

/// The first bytes of a text that begins with ASCII are its first characters.
pub proof fn ascii_prefix_is_bytes(s: Seq<char>, n: nat)
    requires
        n <= s.len(),
        is_ascii_chars(s.take(n as int)),
    ensures
        byte_prefix(s, n) == Some(s.take(n as int)),
{
    ascii_bytes_are_chars(s.take(n as int));
    assert(byte_len(s.take(n as int)) == n);
    let k = choose|k: int| 0 <= k <= s.len() && #[trigger] byte_len(s.take(k)) == n;
    if k < n {
        byte_len_grows(s, k, n as int);
    } else if k > n {
        byte_len_grows(s, n as int, k);
    }
}

proof fn ascii_bytes_are_chars(s: Seq<char>)
    requires
        is_ascii_chars(s),
    ensures
        byte_len(s) == s.len(),
    decreases s.len(),
{
    if s.len() > 0 {
        let before = s.drop_last();
        assert forall|i: int| 0 <= i < before.len() implies '\0' <= #[trigger] before[i]
            <= '\u{7f}' by {
            assert(before[i] == s[i]);
        }
        ascii_bytes_are_chars(before);
        byte_len_push(before, s.last());
        assert(before.push(s.last()) =~= s);
        assert(s[s.len() - 1] <= '\u{7f}');
    } else {
        assert(encode_utf8(s).len() == 0) by {
            reveal_with_fuel(encode_utf8, 2);
        }
    }
}

/// What is joined holds each of its parts.
pub proof fn joined_holds_its_parts(parts: Seq<Seq<char>>, between: Seq<char>, k: int)
    requires
        0 <= k < parts.len(),
    ensures
        contains_text(joined(parts, between), parts[k]),
    decreases parts.len(),
{
    let all = joined(parts, between);
    if parts.len() == 1 {
        assert(all.subrange(0, 0int + parts[k].len()) =~= parts[k]);
    } else if k == parts.len() - 1 {
        let lead = joined(parts.drop_last(), between) + between;
        assert(all =~= lead + parts[k] + Seq::empty());
        texts_are_found_inside(all, parts[k]);
    } else {
        let before = joined(parts.drop_last(), between);
        joined_holds_its_parts(parts.drop_last(), between, k);
        assert(parts.drop_last()[k] == parts[k]);
        texts_are_found_inside(before, parts[k]);
        let (a, c) = choose|a: Seq<char>, c: Seq<char>| before == #[trigger] (a + parts[k] + c);
        assert(all =~= a + parts[k] + (c + between + parts.last()));
        texts_are_found_inside(all, parts[k]);
    }
}

/// Texts that are joined are as long as their parts and what stands between them.
pub proof fn joined_lists_join(a: Seq<Seq<char>>, b: Seq<Seq<char>>, between: Seq<char>)
    requires
        a.len() > 0,
        b.len() > 0,
    ensures
        joined(a + b, between) == joined(a, between) + between + joined(b, between),
    decreases b.len(),
{
    let all = a + b;
    if b.len() == 1 {
        assert(all.drop_last() =~= a);
        assert(all.last() == b[0]);
    } else {
        joined_lists_join(a, b.drop_last(), between);
        assert(all.drop_last() =~= a + b.drop_last());
        assert(joined(all, between) =~= joined(a, between) + between + joined(b, between));
    }
}

/// The pieces of a text hold no separator, and joined by it are the text.
pub proof fn pieces_join_again(s: Seq<char>, c: char)
    ensures
        pieces(s, c).len() >= 1,
        joined(pieces(s, c), seq![c]) == s,
        forall|i: int| 0 <= i < pieces(s, c).len() ==> !(#[trigger] pieces(s, c)[i]).contains(c),
    decreases s.len(),
{
    first_index_facts(s, c);
    let i = first_index(s, c);
    if i < s.len() {
        let rest = s.skip(i + 1);
        pieces_join_again(rest, c);
        let one = seq![s.take(i)];
        joined_lists_join(one, pieces(rest, c), seq![c]);
        assert(joined(one, seq![c]) == s.take(i));
        assert(s =~= s.take(i) + seq![c] + rest);
    }
}

proof fn first_index_facts(s: Seq<char>, c: char)
    ensures
        0 <= first_index(s, c) <= s.len(),
        first_index(s, c) < s.len() ==> s[first_index(s, c)] == c,
        forall|k: int| 0 <= k < first_index(s, c) ==> s[k] != c,
    decreases s.len(),
{
    if s.len() > 0 && s[0] != c {
        first_index_facts(s.skip(1), c);
        assert forall|k: int| 0 <= k < first_index(s, c) implies s[k] != c by {
            if k > 0 {
                assert(s.skip(1)[k - 1] == s[k]);
            }
        }
    }
}

/// Trimming takes white space off both ends, all of it and nothing else.
pub proof fn trimming_takes_white_space(s: Seq<char>)
    ensures
        exists|a: Seq<char>, c: Seq<char>|
            {
                &&& s == #[trigger] (a + trimmed(s) + c)
                &&& forall|i: int| 0 <= i < a.len() ==> white_space(#[trigger] a[i])
                &&& forall|i: int| 0 <= i < c.len() ==> white_space(#[trigger] c[i])
            },
        trimmed(s).len() > 0 ==> !white_space(trimmed(s)[0]) && !white_space(trimmed(s).last()),
{
    let front = trimmed_start(s);
    let a = front_of(s);
    let t = trimmed(s);
    let c = back_of(front);
    assert(s =~= a + t + c);
    if t.len() > 0 {
        assert(front[0] == t[0]);
    }
}

proof fn front_of(s: Seq<char>) -> (a: Seq<char>)
    ensures
        s == a + trimmed_start(s),
        forall|i: int| 0 <= i < a.len() ==> white_space(#[trigger] a[i]),
        trimmed_start(s).len() > 0 ==> !white_space(trimmed_start(s)[0]),
    decreases s.len(),
{
    if s.len() > 0 && white_space(s[0]) {
        let rest = front_of(s.skip(1));
        let a = seq![s[0]] + rest;
        assert(s =~= seq![s[0]] + s.skip(1));
        assert(s =~= a + trimmed_start(s));
        a
    } else {
        assert(s =~= Seq::empty() + s);
        Seq::empty()
    }
}

proof fn back_of(s: Seq<char>) -> (c: Seq<char>)
    ensures
        s == trimmed_end(s) + c,
        forall|i: int| 0 <= i < c.len() ==> white_space(#[trigger] c[i]),
        trimmed_end(s).len() > 0 ==> !white_space(trimmed_end(s).last()),
    decreases s.len(),
{
    if s.len() > 0 && white_space(s.last()) {
        let rest = back_of(s.drop_last());
        let c = rest.push(s.last());
        assert(s =~= s.drop_last().push(s.last()));
        assert(s =~= trimmed_end(s) + c);
        c
    } else {
        assert(s =~= s + Seq::empty());
        Seq::empty()
    }
}

/// A number in 32 bits is the number up to multiples of their range, and the number itself
/// where it fits.
pub proof fn narrow_numbers_agree(n: int)
    ensures
        i32::MIN <= as_i32(n) <= i32::MAX,
        (n - as_i32(n)) % 0x1_0000_0000 == 0,
        i32::MIN <= n <= i32::MAX ==> as_i32(n) == n,
{
}

/// Cutting a fraction off moves toward zero, by less than one.
pub proof fn fractions_are_cut(n: int, d: int)
    requires
        d > 0,
    ensures
        n >= 0 ==> 0 <= n - toward_zero(n, d) * d < d,
        n <= 0 ==> 0 <= toward_zero(n, d) * d - n < d,
{
    let m = if n < 0 {
        -n
    } else {
        n
    };
    assert(0 <= m - (m / d) * d < d) by (nonlinear_arith)
        requires
            d > 0,
            m >= 0,
    ;
    if n < 0 {
        assert(toward_zero(n, d) * d == -((m / d) * d)) by (nonlinear_arith)
            requires
                toward_zero(n, d) == -(m / d),
        ;
    }
}

/// A number as it is written has no white space around it and no dash in it.
pub proof fn numbers_are_plain(n: nat)
    ensures
        trimmed(decimal(n)) == decimal(n),
        decimal(n).len() > 0,
        !decimal(n).contains('-'),
        !decimal(n).contains('/'),
        forall|max: nat| n <= max ==> #[trigger] unsigned_value(decimal(n), max) == Some(n),
{
    decimal_reads_back(n);
    let s = decimal(n);
    assert(is_digit(s[0]));
    assert(is_digit(s[s.len() - 1]));
    assert(trimmed_start(s) == s);
    if s.contains('-') {
        let i = choose|i: int| 0 <= i < s.len() && s[i] == '-';
        assert(is_digit(s[i]));
    }
    if s.contains('/') {
        let i = choose|i: int| 0 <= i < s.len() && s[i] == '/';
        assert(is_digit(s[i]));
    }
}

/// Where a character stands first, it is found there.
pub proof fn first_index_behind(a: Seq<char>, c: char, b: Seq<char>)
    requires
        !a.contains(c),
    ensures
        first_index(a + seq![c] + b, c) == a.len(),
{
    let s = a + seq![c] + b;
    assert forall|k: int| 0 <= k < a.len() implies s[k] != c by {
        assert(s[k] == a[k]);
    }
    first_index_at(s, c, a.len() as int);
}

/// The pieces of two texts with the separator between them are those of the one and then
/// those of the other.
pub proof fn pieces_of_both(a: Seq<char>, c: char, b: Seq<char>)
    ensures
        pieces(a + seq![c] + b, c) == pieces(a, c) + pieces(b, c),
    decreases a.len(),
{
    let s = a + seq![c] + b;
    first_index_facts(a, c);
    let i = first_index(a, c);
    assert forall|k: int| 0 <= k < i implies s[k] != c by {
        assert(s[k] == a[k]);
    }
    assert(s[i] == c);
    first_index_at(s, c, i);
    assert(s.take(i) =~= a.take(i));
    if i < a.len() {
        let rest = a.skip(i + 1);
        assert(s.skip(i + 1) =~= rest + seq![c] + b);
        pieces_of_both(rest, c, b);
        assert(pieces(s, c) =~= pieces(a, c) + pieces(b, c));
    } else {
        assert(a.take(i) =~= a);
        assert(s.skip(i + 1) =~= b);
        assert(pieces(s, c) =~= pieces(a, c) + pieces(b, c));
    }
}

/// Hexadecimal has two digits for each byte, the higher one first.
pub proof fn hex_writes_each_byte(bytes: Seq<u8>, k: int)
    requires
        0 <= k < bytes.len(),
    ensures
        hex(bytes).len() == 2 * bytes.len(),
        hex(bytes)[2 * k] == hex_digit(bytes[k] as int / 16),
        hex(bytes)[2 * k + 1] == hex_digit(bytes[k] as int % 16),
    decreases bytes.len(),
{
    let before = bytes.drop_last();
    hex_is_twice_as_long(before);
    if k < bytes.len() - 1 {
        hex_writes_each_byte(before, k);
        assert(before[k] == bytes[k]);
    }
}

proof fn hex_is_twice_as_long(bytes: Seq<u8>)
    ensures
        hex(bytes).len() == 2 * bytes.len(),
    decreases bytes.len(),
{
    if bytes.len() > 0 {
        hex_is_twice_as_long(bytes.drop_last());
    }
}

/// The digits of hexadecimal are `0` to `9` and `a` to `f`.
pub proof fn hex_digits_are_lower_case(n: int)
    requires
        0 <= n < 16,
    ensures
        n < 10 ==> '0' <= hex_digit(n) <= '9' && hex_digit(n) as int == 48 + n,
        n >= 10 ==> 'a' <= hex_digit(n) <= 'f' && hex_digit(n) as int == 97 + (n - 10),
{
}

/// A text with anything but digits behind its sign, or with none, is no number; nor is one
/// that is too large or too small.
pub proof fn other_texts_are_no_numbers(s: Seq<char>, k: int, min: int, max: int)
    requires
        0 < k < s.len(),
        !('0' <= s[k] <= '9'),
    ensures
        signed_value(s, min, max) is None,
        max >= 0 ==> unsigned_value(s, max as nat) is None,
        signed_value(Seq::empty(), min, max) is None,
        max >= 0 ==> unsigned_value(Seq::empty(), max as nat) is None,
        forall|n: int| n < min || n > max ==> signed_value(#[trigger] decimal_int(n), min, max) is None,
{
    assert(!all_digits(s)) by {
        assert(!is_digit(s[k]));
    }
    assert(!all_digits(s.skip(1))) by {
        assert(s.skip(1)[k - 1] == s[k]);
        assert(!is_digit(s.skip(1)[k - 1]));
    }
    assert forall|n: int| n < min || n > max implies signed_value(
        #[trigger] decimal_int(n),
        min,
        max,
    ) is None by {
        let m = if n < 0 {
            -n
        } else {
            n
        };
        decimal_reads_back(m as nat);
        let d = decimal(m as nat);
        assert(is_digit(d[0]));
        if n < 0 {
            assert(decimal_int(n).skip(1) =~= d);
        }
    }
}

/// The value of digits goes by their places: each one more makes the others worth ten times
/// as much.
pub proof fn digits_count_by_place(s: Seq<char>, c: char)
    requires
        '0' <= c <= '9',
    ensures
        digits_value(s.push(c)) == digits_value(s) * 10 + (c as int - 48),
        digits_value(Seq::empty()) == 0,
{
    assert(s.push(c).drop_last() =~= s);
}

/// A sign may stand before a number; a minus makes it negative.
pub proof fn signs_stand_before_numbers(n: nat, min: int, max: int)
    requires
        min <= n <= max,
        min <= -n <= max,
    ensures
        signed_value(seq!['+'] + decimal(n), min, max) == Some(n as int),
        signed_value(seq!['-'] + decimal(n), min, max) == Some(-(n as int)),
        unsigned_value(seq!['+'] + decimal(n), max as nat) == Some(n),
{
    decimal_reads_back(n);
    assert((seq!['+'] + decimal(n)).skip(1) =~= decimal(n));
    assert((seq!['-'] + decimal(n)).skip(1) =~= decimal(n));
}

/// The first bytes of a text are what it begins with, as many as are asked for.
pub proof fn byte_prefixes_begin_the_text(s: Seq<char>, n: nat)
    ensures
        byte_prefix(s, n) is Some ==> begins_with(s, byte_prefix(s, n)->0) && byte_len(
            byte_prefix(s, n)->0,
        ) == n,
        byte_prefix(s, n) is None ==> forall|k: int|
            0 <= k <= s.len() ==> #[trigger] byte_len(s.take(k)) != n,
{
    if byte_prefix(s, n) is Some {
        let p = byte_prefix(s, n)->0;
        assert(s.take(p.len() as int) =~= p);
    }
}

/// Capitals become small letters, and small ones capitals, one for one; nothing else changes.
pub proof fn letters_change_case(s: Seq<char>, i: int)
    requires
        is_ascii_chars(s),
        0 <= i < s.len(),
    ensures
        lowercase(s).len() == s.len(),
        uppercase(s).len() == s.len(),
        'A' <= s[i] <= 'Z' ==> lowercase(s)[i] as int == s[i] as int + 32,
        !('A' <= s[i] <= 'Z') ==> lowercase(s)[i] == s[i],
        'a' <= s[i] <= 'z' ==> uppercase(s)[i] as int == s[i] as int - 32,
        !('a' <= s[i] <= 'z') ==> uppercase(s)[i] == s[i],
{
}

} // verus!
