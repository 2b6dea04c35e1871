//! Character-level text helpers shared by the name parsers and
//! formatters: whitespace trimming, ASCII case folding, decimal and
//! hexadecimal digits.

use vstd::prelude::*;
use vstd::string::*;

verus! {

/// Unicode `White_Space` characters (what `char::is_whitespace` and
/// `str::trim` treat as whitespace).
pub open spec fn is_white_space(c: char) -> bool {
    ||| ('\u{9}' <= c && c <= '\u{d}')
    ||| c == ' '
    ||| c == '\u{85}'
    ||| c == '\u{a0}'
    ||| c == '\u{1680}'
    ||| ('\u{2000}' <= c && c <= '\u{200a}')
    ||| c == '\u{2028}'
    ||| c == '\u{2029}'
    ||| c == '\u{202f}'
    ||| c == '\u{205f}'
    ||| c == '\u{3000}'
}

/// `s` without its leading whitespace.
pub open spec fn trim_start(s: Seq<char>) -> Seq<char>
    decreases s.len(),
{
    if s.len() > 0 && is_white_space(s[0]) {
        trim_start(s.drop_first())
    } else {
        s
    }
}

/// `s` without its trailing whitespace.
pub open spec fn trim_end(s: Seq<char>) -> Seq<char>
    decreases s.len(),
{
    if s.len() > 0 && is_white_space(s.last()) {
        trim_end(s.drop_last())
    } else {
        s
    }
}

/// `s` without leading and trailing whitespace (what `str::trim` gives).
pub open spec fn trimmed(s: Seq<char>) -> Seq<char> {
    trim_end(trim_start(s))
}

/// ASCII upper-case letters map to lower case; every other character
/// is kept.
pub open spec fn ascii_lower(c: char) -> char {
    if c == 'A' {
        'a'
    } else if c == 'B' {
        'b'
    } else if c == 'C' {
        'c'
    } else if c == 'D' {
        'd'
    } else if c == 'E' {
        'e'
    } else if c == 'F' {
        'f'
    } else if c == 'G' {
        'g'
    } else if c == 'H' {
        'h'
    } else if c == 'I' {
        'i'
    } else if c == 'J' {
        'j'
    } else if c == 'K' {
        'k'
    } else if c == 'L' {
        'l'
    } else if c == 'M' {
        'm'
    } else if c == 'N' {
        'n'
    } else if c == 'O' {
        'o'
    } else if c == 'P' {
        'p'
    } else if c == 'Q' {
        'q'
    } else if c == 'R' {
        'r'
    } else if c == 'S' {
        's'
    } else if c == 'T' {
        't'
    } else if c == 'U' {
        'u'
    } else if c == 'V' {
        'v'
    } else if c == 'W' {
        'w'
    } else if c == 'X' {
        'x'
    } else if c == 'Y' {
        'y'
    } else if c == 'Z' {
        'z'
    } else {
        c
    }
}

/// `s` with ASCII letters folded to lower case.
pub open spec fn lowered(s: Seq<char>) -> Seq<char> {
    s.map_values(|c: char| ascii_lower(c))
}

/// The decimal digit character for `d` (`0..=9`).
pub open spec fn digit_char(d: nat) -> char {
    if d == 0 {
        '0'
    } else if d == 1 {
        '1'
    } else if d == 2 {
        '2'
    } else if d == 3 {
        '3'
    } else if d == 4 {
        '4'
    } else if d == 5 {
        '5'
    } else if d == 6 {
        '6'
    } else if d == 7 {
        '7'
    } else if d == 8 {
        '8'
    } else {
        '9'
    }
}

/// The upper-case hexadecimal digit character for `d` (`0..=15`).
pub open spec fn hex_char(d: nat) -> char {
    if d < 10 {
        digit_char(d)
    } else if d == 10 {
        'A'
    } else if d == 11 {
        'B'
    } else if d == 12 {
        'C'
    } else if d == 13 {
        'D'
    } else if d == 14 {
        'E'
    } else {
        'F'
    }
}

/// The value of a decimal digit character.
pub open spec fn digit_value(c: char) -> Option<nat> {
    if c == '0' {
        Some(0)
    } else if c == '1' {
        Some(1)
    } else if c == '2' {
        Some(2)
    } else if c == '3' {
        Some(3)
    } else if c == '4' {
        Some(4)
    } else if c == '5' {
        Some(5)
    } else if c == '6' {
        Some(6)
    } else if c == '7' {
        Some(7)
    } else if c == '8' {
        Some(8)
    } else if c == '9' {
        Some(9)
    } else {
        None
    }
}

/// Decimal representation of `n`, most significant digit first, no
/// leading zeros.
pub open spec fn decimal_chars(n: nat) -> Seq<char>
    decreases n,
{
    if n < 10 {
        seq![digit_char(n)]
    } else {
        decimal_chars(n / 10).push(digit_char(n % 10))
    }
}

/// The `width` least significant hexadecimal digits of `n`, most
/// significant first, upper case.
pub open spec fn hex_chars(n: nat, width: nat) -> Seq<char>
    decreases width,
{
    if width == 0 {
        seq![]
    } else {
        hex_chars(n / 16, (width - 1) as nat).push(hex_char(n % 16))
    }
}

/// The number a run of decimal digits spells, or `None` when a
/// character is not a digit.
pub open spec fn digits_value(s: Seq<char>) -> Option<nat>
    decreases s.len(),
{
    if s.len() == 0 {
        Some(0)
    } else {
        match (digits_value(s.drop_last()), digit_value(s.last())) {
            (Some(a), Some(d)) => Some(a * 10 + d),
            _ => None,
        }
    }
}

/// What `str::parse::<u16>` accepts: an optional `+`, then one or more
/// decimal digits spelling a number no larger than `u16::MAX`.
pub open spec fn parse_u16_chars(s: Seq<char>) -> Option<u16> {
    let body = if s.len() > 0 && s[0] == '+' {
        s.drop_first()
    } else {
        s
    };
    parse_digit_run(body)
}

/// One or more decimal digits spelling a number no larger than
/// `u16::MAX`.
pub open spec fn parse_digit_run(body: Seq<char>) -> Option<u16> {
    if body.len() == 0 {
        None
    } else {
        match digits_value(body) {
            Some(v) => if v <= u16::MAX {
                Some(v as u16)
            } else {
                None
            },
            None => None,
        }
    }
}

/// Appends a character to a `String`.
///
/// Trusted: calls `String::push`, which std documents as appending the
/// given `char` to the end of the string.
#[verifier::external_body]
pub(crate) fn push_char(s: &mut String, c: char)
    ensures
        final(s)@ == old(s)@.push(c),
{
    s.push(c);
}

/// The Unicode lower-case mapping of a string, as `str::to_lowercase`
/// computes it.
pub uninterp spec fn unicode_lowercase(s: Seq<char>) -> Seq<char>;

/// The Unicode lower-case form of `s`.
///
/// Trusted: calls `str::to_lowercase`, whose result depends on the
/// characters of its argument alone; it is named by
/// [`unicode_lowercase`] and nothing more is claimed of it.
#[verifier::external_body]
pub(crate) fn to_unicode_lowercase(s: &str) -> (r: String)
    ensures
        r@ == unicode_lowercase(s@),
{
    s.to_lowercase()
}

/// The characters of `s`, one per element.
pub fn chars_of(s: &str) -> (v: Vec<char>)
    ensures
        v@ == s@,
{
    let n = s.unicode_len();
    let mut v: Vec<char> = Vec::new();
    let mut i: usize = 0;
    while i < n
        invariant
            n == s@.len(),
            i <= n,
            v@ == s@.subrange(0, i as int),
        decreases n - i,
    {
        v.push(s.get_char(i));
        i += 1;
    }
    assert(v@ =~= s@);
    v
}

/// Whether `c` is Unicode whitespace.
pub fn char_is_white_space(c: char) -> (b: bool)
    ensures
        b == is_white_space(c),
{
    ('\u{9}' <= c && c <= '\u{d}') || c == ' ' || c == '\u{85}' || c == '\u{a0}' || c
        == '\u{1680}' || ('\u{2000}' <= c && c <= '\u{200a}') || c == '\u{2028}' || c
        == '\u{2029}' || c == '\u{202f}' || c == '\u{205f}' || c == '\u{3000}'
}

proof fn lemma_trim_start_skip(s: Seq<char>, i: int)
    requires
        0 <= i < s.len(),
        is_white_space(s[i]),
    ensures
        trim_start(s.subrange(i, s.len() as int)) == trim_start(s.subrange(i + 1, s.len() as int)),
{
    assert(s.subrange(i, s.len() as int).drop_first() =~= s.subrange(i + 1, s.len() as int));
}

/// `v` without leading and trailing whitespace.
pub fn trim_chars(v: &Vec<char>) -> (r: Vec<char>)
    ensures
        r@ == trimmed(v@),
{
    let n = v.len();
    let mut i: usize = 0;
    assert(v@.subrange(0, n as int) =~= v@);
    while i < n && char_is_white_space(v[i])
        invariant
            n == v@.len(),
            i <= n,
            trim_start(v@.subrange(i as int, n as int)) == trim_start(v@),
        decreases n - i,
    {
        proof {
            lemma_trim_start_skip(v@, i as int);
        }
        i += 1;
    }
    assert(v@.subrange(0, n as int) =~= v@);
    let ghost s = v@.subrange(i as int, n as int);
    assert(trim_start(s) == s);
    let mut j: usize = n;
    while j > i && char_is_white_space(v[j - 1])
        invariant
            n == v@.len(),
            i <= j <= n,
            s == v@.subrange(i as int, n as int),
            trim_end(v@.subrange(i as int, j as int)) == trim_end(s),
        decreases j,
    {
        proof {
            let t = v@.subrange(i as int, j as int);
            assert(t.drop_last() =~= v@.subrange(i as int, j - 1));
        }
        j -= 1;
    }
    let ghost t = v@.subrange(i as int, j as int);
    assert(trim_end(t) == t);
    let mut r: Vec<char> = Vec::new();
    let mut k: usize = i;
    while k < j
        invariant
            n == v@.len(),
            i <= k <= j <= n,
            r@ == v@.subrange(i as int, k as int),
        decreases j - k,
    {
        r.push(v[k]);
        k += 1;
    }
    r
}

/// ASCII lower-case of one character.
pub fn char_ascii_lower(c: char) -> (r: char)
    ensures
        r == ascii_lower(c),
{
        match c {
            'A' => 'a',
            'B' => 'b',
            'C' => 'c',
            'D' => 'd',
            'E' => 'e',
            'F' => 'f',
            'G' => 'g',
            'H' => 'h',
            'I' => 'i',
            'J' => 'j',
            'K' => 'k',
            'L' => 'l',
            'M' => 'm',
            'N' => 'n',
            'O' => 'o',
            'P' => 'p',
            'Q' => 'q',
            'R' => 'r',
            'S' => 's',
            'T' => 't',
            'U' => 'u',
            'V' => 'v',
            'W' => 'w',
            'X' => 'x',
            'Y' => 'y',
            'Z' => 'z',
            other => other,
        }
}

/// `v` with ASCII letters folded to lower case.
pub fn lower_chars(v: &Vec<char>) -> (r: Vec<char>)
    ensures
        r@ == lowered(v@),
{
    let mut r: Vec<char> = Vec::new();
    let mut i: usize = 0;
    while i < v.len()
        invariant
            i <= v@.len(),
            r@ == lowered(v@.subrange(0, i as int)),
        decreases v@.len() - i,
    {
        r.push(char_ascii_lower(v[i]));
        i += 1;
        assert(r@ =~= lowered(v@.subrange(0, i as int)));
    }
    assert(v@.subrange(0, v@.len() as int) =~= v@);
    r
}

/// The string made of the characters of `v`.
pub fn string_of_chars(v: &Vec<char>) -> (s: String)
    ensures
        s@ == v@,
{
    let mut s = String::new();
    let mut i: usize = 0;
    while i < v.len()
        invariant
            i <= v@.len(),
            s@ == v@.subrange(0, i as int),
        decreases v@.len() - i,
    {
        push_char(&mut s, v[i]);
        i += 1;
        assert(s@ =~= v@.subrange(0, i as int));
    }
    assert(v@.subrange(0, v@.len() as int) =~= v@);
    s
}

/// Whether the characters in `v` are exactly those of `s`.
pub fn seq_equals_str(v: &Vec<char>, s: &str) -> (b: bool)
    ensures
        b == (v@ == s@),
{
    let n = s.unicode_len();
    if v.len() != n {
        return false;
    }
    let mut i: usize = 0;
    while i < n
        invariant
            n == s@.len(),
            v@.len() == n,
            i <= n,
            forall|j: int| 0 <= j < i ==> v@[j] == s@[j],
        decreases n - i,
    {
        if v[i] != s.get_char(i) {
            return false;
        }
        i += 1;
    }
    assert(v@ =~= s@);
    true
}

/// Whether `v` begins with the characters of `s`.
pub fn starts_with_str(v: &Vec<char>, s: &str) -> (b: bool)
    ensures
        b == (s@.len() <= v@.len() && v@.subrange(0, s@.len() as int) == s@),
{
    let n = s.unicode_len();
    if v.len() < n {
        return false;
    }
    let mut i: usize = 0;
    while i < n
        invariant
            n == s@.len(),
            n <= v@.len(),
            i <= n,
            forall|j: int| 0 <= j < i ==> v@[j] == s@[j],
        decreases n - i,
    {
        if v[i] != s.get_char(i) {
            assert(v@.subrange(0, n as int)[i as int] != s@[i as int]);
            return false;
        }
        i += 1;
    }
    assert(v@.subrange(0, n as int) =~= s@);
    true
}

/// The decimal digit character for `d`.
pub fn digit_char_of(d: u64) -> (c: char)
    requires
        d < 10,
    ensures
        c == digit_char(d as nat),
{
        match d {
            0 => '0',
            1 => '1',
            2 => '2',
            3 => '3',
            4 => '4',
            5 => '5',
            6 => '6',
            7 => '7',
            8 => '8',
            _ => '9',
        }
}

/// The upper-case hexadecimal digit character for `d`.
pub fn hex_char_of(d: u64) -> (c: char)
    requires
        d < 16,
    ensures
        c == hex_char(d as nat),
{
        match d {
            0 => '0',
            1 => '1',
            2 => '2',
            3 => '3',
            4 => '4',
            5 => '5',
            6 => '6',
            7 => '7',
            8 => '8',
            9 => '9',
            10 => 'A',
            11 => 'B',
            12 => 'C',
            13 => 'D',
            14 => 'E',
            _ => 'F',
        }
}

/// The value of a decimal digit character, if it is one.
pub fn digit_value_of(c: char) -> (r: Option<u64>)
    ensures
        r matches Some(d) ==> digit_value(c) == Some(d as nat),
        r is None ==> digit_value(c) is None,
{
        match c {
            '0' => Some(0),
            '1' => Some(1),
            '2' => Some(2),
            '3' => Some(3),
            '4' => Some(4),
            '5' => Some(5),
            '6' => Some(6),
            '7' => Some(7),
            '8' => Some(8),
            '9' => Some(9),
            _ => None,
        }
}

/// Append the decimal representation of `n`.
pub fn append_decimal(s: &mut String, n: u64)
    ensures
        final(s)@ == old(s)@ + decimal_chars(n as nat),
    decreases n,
{
    if n >= 10 {
        append_decimal(s, n / 10);
    }
    let ghost mid = s@;
    push_char(s, digit_char_of(n % 10));
    proof {
        if n >= 10 {
            assert(s@ =~= old(s)@ + decimal_chars(n as nat));
        } else {
            assert(s@ =~= old(s)@ + decimal_chars(n as nat));
        }
    }
}

/// Append the `width` least significant upper-case hexadecimal digits
/// of `n`.
pub fn append_hex(s: &mut String, n: u64, width: u64)
    ensures
        final(s)@ == old(s)@ + hex_chars(n as nat, width as nat),
    decreases width,
{
    if width == 0 {
        assert(hex_chars(n as nat, 0) =~= seq![]);
        assert(s@ =~= old(s)@ + hex_chars(n as nat, width as nat));
        return;
    }
    append_hex(s, n / 16, width - 1);
    push_char(s, hex_char_of(n % 16));
    assert(s@ =~= old(s)@ + hex_chars(n as nat, width as nat));
}

/// Parse `v[start..]` the way `str::parse::<u16>` parses a string.
pub fn parse_u16_from(v: &Vec<char>, start: usize) -> (r: Option<u16>)
    requires
        start <= v@.len(),
    ensures
        r == parse_u16_chars(v@.subrange(start as int, v@.len() as int)),
{
    let ghost s = v@.subrange(start as int, v@.len() as int);
    let n = v.len();
    let mut i: usize = start;
    if i < n && v[i] == '+' {
        i += 1;
    }
    let ghost body = v@.subrange(i as int, n as int);
    proof {
        if s.len() > 0 && s[0] == '+' {
            assert(body =~= s.drop_first());
        } else {
            assert(body =~= s);
        }
    }
    if i == n {
        return None;
    }
    let body_start = i;
    let mut acc: u64 = 0;
    let mut overflow = false;
    while i < n
        invariant
            n == v@.len(),
            body_start <= i <= n,
            body_start < n,
            body == v@.subrange(body_start as int, n as int),
            parse_u16_chars(s) == parse_digit_run(body),
            s == v@.subrange(start as int, n as int),
            digits_value(v@.subrange(body_start as int, i as int)) is Some,
            overflow == (digits_value(v@.subrange(body_start as int, i as int))->0 > 0xffff),
            !overflow ==> acc == digits_value(v@.subrange(body_start as int, i as int))->0,
        decreases n - i,
    {
        let ghost prefix = v@.subrange(body_start as int, i as int);
        let ghost next = v@.subrange(body_start as int, i + 1);
        assert(next.drop_last() =~= prefix);
        match digit_value_of(v[i]) {
            Some(d) => {
                if !overflow {
                    let x = acc * 10 + d;
                    if x > 0xffff {
                        overflow = true;
                    } else {
                        acc = x;
                    }
                }
            },
            None => {
                proof {
                    // a non-digit makes every longer prefix fail too
                    lemma_digits_none_extends(v@.subrange(body_start as int, n as int), (i - body_start) as int);
                    assert(digits_value(body) is None);
                }
                return None;
            },
        }
        i += 1;
    }
    assert(v@.subrange(body_start as int, i as int) =~= body);
    if overflow {
        None
    } else {
        Some(acc as u16)
    }
}

/// Once a prefix holds a non-digit, every extension fails.
proof fn lemma_digits_none_extends(s: Seq<char>, k: int)
    requires
        0 <= k < s.len(),
        digit_value(s[k]) is None,
    ensures
        digits_value(s) is None,
    decreases s.len(),
{
    if k < s.len() - 1 {
        lemma_digits_none_extends(s.drop_last(), k);
    }
}

/// The decimal representation of a number is a non-empty run of digits
/// that does not start with `+` and spells that number.
pub proof fn lemma_decimal_chars(n: nat)
    ensures
        decimal_chars(n).len() > 0,
        digits_value(decimal_chars(n)) == Some(n),
        digit_value(decimal_chars(n)[0]) is Some,
        forall|i: int| 0 <= i < decimal_chars(n).len() ==> digit_value(#[trigger] decimal_chars(n)[i]) is Some,
    decreases n,
{
    lemma_digit_round_trip(n % 10);
    vstd::arithmetic::div_mod::lemma_fundamental_div_mod(n as int, 10);
    if n >= 10 {
        lemma_decimal_chars(n / 10);
        let p = decimal_chars(n / 10);
        let d = decimal_chars(n);
        assert(d.drop_last() =~= p);
        assert(d.last() == digit_char(n % 10));
        assert(digits_value(p) == Some(n / 10));
        assert(digits_value(d) == Some((n / 10) * 10 + n % 10));
        assert(d[0] == p[0]);
        assert forall|i: int| 0 <= i < d.len() implies digit_value(#[trigger] d[i]) is Some by {
            if i < d.len() - 1 {
                assert(d[i] == p[i]);
            }
        }
    } else {
        let d = decimal_chars(n);
        assert(d.drop_last() =~= Seq::<char>::empty());
        assert(digits_value(d.drop_last()) == Some(0nat));
        assert(d.last() == digit_char(n));
        assert(n % 10 == n);
    }
}

proof fn lemma_digit_round_trip(d: nat)
    requires
        d < 10,
    ensures
        digit_value(digit_char(d)) == Some(d),
{
}

/// A number's decimal representation parses back to the number.
pub proof fn lemma_decimal_parses_back(n: u16)
    ensures
        parse_u16_chars(decimal_chars(n as nat)) == Some(n),
{
    lemma_decimal_chars(n as nat);
    let d = decimal_chars(n as nat);
    assert(d[0] != '+');
}

/// Trimming and case folding leave a word without whitespace ends or
/// upper-case letters unchanged.
pub proof fn lemma_plain_word_is_its_own_key(s: Seq<char>)
    requires
        s.len() > 0,
        !is_white_space(s[0]),
        !is_white_space(s.last()),
        forall|i: int| 0 <= i < s.len() ==> ascii_lower(#[trigger] s[i]) == s[i],
    ensures
        lowered(trimmed(s)) == s,
{
    assert(trim_start(s) == s);
    assert(trim_end(s) == s);
    assert(lowered(s) =~= s);
}

} // verus!
