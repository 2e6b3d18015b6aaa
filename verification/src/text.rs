//! Character-level helpers shared by the readers and writers of level text:
//! finding separators, trimming white space, and decimal numbers.

use vstd::prelude::*;
use vstd::slice::*;
use vstd::string::*;

verus! {

/// Whether `c` is white space: a character with the Unicode property
/// `White_Space`.
pub open spec fn is_whitespace(c: char) -> bool {
    let n = c as u32;
    ||| 0x09 <= n <= 0x0D
    ||| n == 0x20
    ||| n == 0x85
    ||| n == 0xA0
    ||| n == 0x1680
    ||| 0x2000 <= n <= 0x200A
    ||| n == 0x2028
    ||| n == 0x2029
    ||| n == 0x202F
    ||| n == 0x205F
    ||| n == 0x3000
}

/// `s` without the white space it starts with.
pub open spec fn trim_start(s: Seq<char>) -> Seq<char>
    decreases s.len(),
{
    if s.len() > 0 && is_whitespace(s[0]) {
        trim_start(s.drop_first())
    } else {
        s
    }
}

/// `s` without the white space it ends with.
pub open spec fn trim_end(s: Seq<char>) -> Seq<char>
    decreases s.len(),
{
    if s.len() > 0 && is_whitespace(s.last()) {
        trim_end(s.drop_last())
    } else {
        s
    }
}

/// `s` without the white space at either end.
pub open spec fn trim(s: Seq<char>) -> Seq<char> {
    trim_end(trim_start(s))
}

/// The index of the first `c` in `s`, or the length of `s` if it holds none.
pub open spec fn find(s: Seq<char>, c: char) -> nat
    decreases s.len(),
{
    if s.len() == 0 {
        0
    } else if s[0] == c {
        0
    } else {
        1 + find(s.drop_first(), c)
    }
}

/// Whether `c` is one of the digits `0` to `9`.
pub open spec fn is_digit(c: char) -> bool {
    48 <= c as u32 <= 57
}

/// The number that the digit `c` stands for.
pub open spec fn digit_value(c: char) -> int {
    c as u32 - 48
}

/// The digit that stands for `d`.
pub open spec fn digit_char(d: int) -> char {
    if d == 0 {
        '0'
    } else if d == 1 {
        '1'
    } else if d == 2 {
        '2'
    } else if d == 3 {
        '3'
    } else if d == 4 {
        '4'
    } else if d == 5 {
        '5'
    } else if d == 6 {
        '6'
    } else if d == 7 {
        '7'
    } else if d == 8 {
        '8'
    } else {
        '9'
    }
}

/// Whether `s` holds digits only.
pub open spec fn all_digits(s: Seq<char>) -> bool {
    forall|i: int| 0 <= i < s.len() ==> is_digit(#[trigger] s[i])
}

/// The number that the digits of `s` denote in base ten.
pub open spec fn decimal(s: Seq<char>) -> int
    decreases s.len(),
{
    if s.len() == 0 {
        0
    } else {
        decimal(s.drop_last()) * 10 + digit_value(s.last())
    }
}

/// The 16-bit number that `s` denotes: an optional sign, then one digit or
/// more, with a value that fits. Anything else denotes no number.
pub open spec fn parse_i16(s: Seq<char>) -> Option<i16> {
    let negative = s.len() > 0 && s[0] == '-';
    let signed = negative || (s.len() > 0 && s[0] == '+');
    let digits = if signed {
        s.drop_first()
    } else {
        s
    };
    let value = if negative {
        -decimal(digits)
    } else {
        decimal(digits)
    };
    if digits.len() > 0 && all_digits(digits) && i16::MIN <= value <= i16::MAX {
        Some(value as i16)
    } else {
        None
    }
}

/// The digits of `n` in base ten, without leading zeros.
pub open spec fn print_nat(n: nat) -> Seq<char>
    decreases n,
{
    if n < 10 {
        seq![digit_char(n as int)]
    } else {
        print_nat(n / 10).push(digit_char((n % 10) as int))
    }
}

/// The number `v` in base ten, with a minus sign if it is negative.
pub open spec fn print_int(v: int) -> Seq<char> {
    if v < 0 {
        seq!['-'] + print_nat((-v) as nat)
    } else {
        print_nat(v as nat)
    }
}

/// The characters of a string slice, in order.
pub fn chars_of(s: &str) -> (v: Vec<char>)
    ensures
        v@ == s@,
{
    let mut v: Vec<char> = Vec::new();
    for c in it: s.chars()
        invariant
            v@ == it.seq().take(it.index() as int),
            it.seq() == s@,
    {
        v.push(c);
    }
    v
}

/// Whether the characters of `chars` are exactly those of `word`.
pub fn is_word(chars: &[char], word: &str) -> (r: bool)
    ensures
        r == (chars@ == word@),
{
    let n: usize = word.unicode_len();
    if chars.len() != n {
        return false;
    }
    let mut i: usize = 0;
    while i < n
        invariant
            i <= n,
            n == chars@.len(),
            n == word@.len(),
            forall|j: int| 0 <= j < i ==> chars@[j] == word@[j],
        decreases n - i,
    {
        if chars[i] != word.get_char(i) {
            return false;
        }
        i += 1;
    }
    assert(chars@ =~= word@);
    true
}

/// Whether `c` is white space.
pub fn whitespace(c: char) -> (r: bool)
    ensures
        r == is_whitespace(c),
{
    let n: u32 = c as u32;
    (0x09 <= n && n <= 0x0D) || n == 0x20 || n == 0x85 || n == 0xA0 || n == 0x1680 || (0x2000
        <= n && n <= 0x200A) || n == 0x2028 || n == 0x2029 || n == 0x202F || n == 0x205F || n
        == 0x3000
}

/// The part of `s` that is left when the white space at both ends is taken
/// away.
pub fn trimmed(s: &[char]) -> (r: &[char])
    ensures
        r@ == trim(s@),
{
    let mut rest: &[char] = s;
    while rest.len() > 0 && whitespace(rest[0])
        invariant
            trim_start(s@) == trim_start(rest@),
        decreases rest.len(),
    {
        rest = slice_subrange(rest, 1, rest.len());
    }
    let ghost front = rest@;
    while rest.len() > 0 && whitespace(rest[rest.len() - 1])
        invariant
            trim_end(front) == trim_end(rest@),
        decreases rest.len(),
    {
        rest = slice_subrange(rest, 0, rest.len() - 1);
    }
    rest
}

/// The index of the first `c` in `s`, or the length of `s` if it holds none.
pub fn position_of(s: &[char], c: char) -> (n: usize)
    ensures
        n == find(s@, c),
        n <= s.len(),
{
    let mut i: usize = 0;
    proof {
        assert(s@.subrange(0, s.len() as int) == s@);
    }
    while i < s.len() && s[i] != c
        invariant
            i <= s.len(),
            find(s@, c) == i + find(s@.subrange(i as int, s.len() as int), c),
        decreases s.len() - i,
    {
        proof {
            let tail = s@.subrange(i as int, s.len() as int);
            assert(tail.drop_first() == s@.subrange(i + 1, s.len() as int));
        }
        i += 1;
    }
    i
}

/// Each prefix of a run of digits denotes no more than the whole run.
pub proof fn lemma_decimal_grows(s: Seq<char>, k: int)
    requires
        all_digits(s),
        0 <= k <= s.len(),
    ensures
        0 <= decimal(s.take(k)) <= decimal(s),
    decreases s.len() - k,
{
    if k == s.len() {
        assert(s.take(k) == s);
        lemma_decimal_nonnegative(s);
    } else {
        lemma_decimal_grows(s, k + 1);
        assert(s.take(k + 1).drop_last() == s.take(k));
        lemma_decimal_nonnegative(s.take(k));
        assert(is_digit(s.take(k + 1).last()));
    }
}

/// A run of digits denotes no negative number.
pub proof fn lemma_decimal_nonnegative(s: Seq<char>)
    requires
        all_digits(s),
    ensures
        0 <= decimal(s),
    decreases s.len(),
{
    if s.len() > 0 {
        lemma_decimal_nonnegative(s.drop_last());
        assert(is_digit(s.last()));
    }
}

/// Reads a 16-bit number: an optional sign, then one digit or more, with a
/// value that fits.
pub fn parse_number(s: &[char]) -> (r: Option<i16>)
    ensures
        r == parse_i16(s@),
{
    if s.len() == 0 {
        return None;
    }
    let negative: bool = s[0] == '-';
    let signed: bool = negative || s[0] == '+';
    let digits: &[char] = if signed {
        slice_subrange(s, 1, s.len())
    } else {
        s
    };
    if digits.len() == 0 {
        return None;
    }
    let mut value: i32 = 0;
    let mut i: usize = 0;
    while i < digits.len()
        invariant
            i <= digits.len(),
            s.len() > 0,
            digits.len() > 0,
            negative == (s@[0] == '-'),
            signed == (negative || s@[0] == '+'),
            digits@ == (if signed {
                s@.drop_first()
            } else {
                s@
            }),
            all_digits(digits@.take(i as int)),
            value == decimal(digits@.take(i as int)),
            0 <= value <= 32768,
        decreases digits.len() - i,
    {
        let c: char = digits[i];
        let n: u32 = c as u32;
        proof {
            assert(digits@.take(i + 1).drop_last() == digits@.take(i as int));
            assert(digits@.take(i + 1).last() == c);
        }
        if n < 48 || n > 57 {
            assert(!is_digit(digits@[i as int]));
            return None;
        }
        let next: i32 = value * 10 + (n - 48) as i32;
        if next > 32768 {
            proof {
                if all_digits(digits@) {
                    lemma_decimal_grows(digits@, i + 1);
                }
            }
            return None;
        }
        value = next;
        i += 1;
    }
    proof {
        assert(digits@.take(i as int) == digits@);
    }
    if negative {
        Some((-value) as i16)
    } else if value <= 32767 {
        Some(value as i16)
    } else {
        None
    }
}

fn push_digit(out: &mut String, d: u32)
    requires
        d < 10,
    ensures
        final(out)@ == old(out)@.push(digit_char(d as int)),
{
    proof {
        reveal_strlit("0");
        reveal_strlit("1");
        reveal_strlit("2");
        reveal_strlit("3");
        reveal_strlit("4");
        reveal_strlit("5");
        reveal_strlit("6");
        reveal_strlit("7");
        reveal_strlit("8");
        reveal_strlit("9");
    }
    let digit: &str = if d == 0 {
        "0"
    } else if d == 1 {
        "1"
    } else if d == 2 {
        "2"
    } else if d == 3 {
        "3"
    } else if d == 4 {
        "4"
    } else if d == 5 {
        "5"
    } else if d == 6 {
        "6"
    } else if d == 7 {
        "7"
    } else if d == 8 {
        "8"
    } else {
        "9"
    };
    assert(digit@ =~= seq![digit_char(d as int)]);
    out.append(digit);
    assert(out@ =~= old(out)@.push(digit_char(d as int)));
}

fn push_nat(out: &mut String, n: u32)
    ensures
        final(out)@ == old(out)@ + print_nat(n as nat),
    decreases n,
{
    if n >= 10 {
        push_nat(out, n / 10);
    }
    push_digit(out, n % 10);
    assert(out@ =~= old(out)@ + print_nat(n as nat));
}

/// Appends the number `v` in base ten to `out`.
pub fn push_number(out: &mut String, v: i16)
    ensures
        final(out)@ == old(out)@ + print_int(v as int),
{
    if v < 0 {
        proof {
            reveal_strlit("-");
        }
        out.append("-");
        push_nat(out, (-(v as i32)) as u32);
        assert(out@ =~= old(out)@ + print_int(v as int));
    } else {
        push_nat(out, v as u32);
    }
}

} // verus!
