//! Numerals: unsigned decimal numbers read from and written as text, and the
//! syntax of a real number as the measurement tools print it.

use vstd::prelude::*;

verus! {

pub open spec fn is_digit(c: char) -> bool {
    '0' <= c <= '9'
}

/// The number a decimal digit stands for.
pub open spec fn digit_value(c: char) -> nat {
    (c as u32 - '0' as u32) as nat
}

pub open spec fn all_digits(s: Seq<char>) -> bool {
    forall|i: int| 0 <= i < s.len() ==> is_digit(#[trigger] s[i])
}

/// The number that a run of decimal digits denotes.
pub open spec fn digits_value(s: Seq<char>) -> nat
    decreases s.len(),
{
    if s.len() == 0 {
        0
    } else {
        digits_value(s.drop_last()) * 10 + digit_value(s.last())
    }
}

/// The digits of an unsigned decimal numeral: the text itself, or what
/// follows one leading `+`.
pub open spec fn unsigned_digits(s: Seq<char>) -> Seq<char> {
    if s.len() > 0 && s[0] == '+' {
        s.drop_first()
    } else {
        s
    }
}

/// What an unsigned decimal numeral reads as, where the number is at most
/// `max`: one or more digits, after an optional `+`. Nothing else is a
/// numeral: no `-`, no white space, no empty text.
pub open spec fn parse_unsigned(s: Seq<char>, max: nat) -> Option<nat> {
    let d = unsigned_digits(s);
    if d.len() > 0 && all_digits(d) && digits_value(d) <= max {
        Some(digits_value(d))
    } else {
        None
    }
}

/// A numeral with more digits denotes no smaller a number.
pub proof fn lemma_digits_value_grows(s: Seq<char>, k: int)
    requires
        0 <= k <= s.len(),
    ensures
        digits_value(s.take(k)) <= digits_value(s),
    decreases s.len() - k,
{
    if k == s.len() {
        assert(s.take(k) == s);
    } else {
        lemma_digits_value_grows(s, k + 1);
        assert(s.take(k + 1).drop_last() == s.take(k));
        assert(digits_value(s.take(k + 1)) >= digits_value(s.take(k)) * 10) by (nonlinear_arith)
            requires
                digits_value(s.take(k + 1)) == digits_value(s.take(k)) * 10 + digit_value(
                    s.take(k + 1).last(),
                ),
        ;
    }
}

/// Reads an unsigned decimal numeral that is at most `max`.
pub fn parse_decimal(s: &[char], max: u64) -> (r: Option<u64>)
    ensures
        r.is_some() == parse_unsigned(s@, max as nat).is_some(),
        r matches Some(n) ==> parse_unsigned(s@, max as nat) == Some(n as nat),
{
    let start: usize = if s.len() > 0 && s[0] == '+' {
        1
    } else {
        0
    };
    let ghost d = unsigned_digits(s@);
    proof {
        assert(d == s@.skip(start as int));
    }
    if start == s.len() {
        return None;
    }
    let mut acc: u64 = 0;
    let mut i: usize = start;
    while i < s.len()
        invariant
            start <= i <= s.len(),
            d == s@.skip(start as int),
            d == unsigned_digits(s@),
            all_digits(d.take(i - start)),
            acc == digits_value(d.take(i - start)),
            acc <= max,
        decreases s.len() - i,
    {
        let c: char = s[i];
        let ghost k = i - start;
        proof {
            assert(d[k] == c);
            assert(d.take(k + 1).drop_last() == d.take(k));
            assert(d.take(k + 1).last() == c);
        }
        if c < '0' || c > '9' {
            proof {
                assert(!is_digit(d[k]));
            }
            return None;
        }
        let v: u64 = (c as u32 - '0' as u32) as u64;
        proof {
            lemma_digits_value_grows(d, k + 1);
            assert(digits_value(d.take(k + 1)) == acc * 10 + v);
        }
        if v > max || acc > (max - v) / 10 {
            return None;
        }
        acc = acc * 10 + v;
        proof {
            assert forall|j: int| 0 <= j < d.take(k + 1).len() implies is_digit(
                #[trigger] d.take(k + 1)[j],
            ) by {
                if j < k {
                    assert(d.take(k)[j] == d.take(k + 1)[j]);
                }
            }
        }
        i += 1;
    }
    proof {
        assert(d.take(i - start) == d);
    }
    Some(acc)
}

/// The character of a decimal digit.
pub open spec fn digit_char(d: nat) -> char {
    if d == 0 {
        '0'
    } else if d == 1 {
        '1'
    } else if d == 2 {
        '2'
    } else if d == 3 {
        '3'
    } else if d == 4 {
        '4'
    } else if d == 5 {
        '5'
    } else if d == 6 {
        '6'
    } else if d == 7 {
        '7'
    } else if d == 8 {
        '8'
    } else {
        '9'
    }
}

/// A number written in decimal, without sign or leading zeros.
pub open spec fn decimal(n: nat) -> Seq<char>
    decreases n,
{
    if n < 10 {
        seq![digit_char(n)]
    } else {
        decimal(n / 10).push(digit_char(n % 10))
    }
}

fn digit_of(d: u64) -> (c: char)
    requires
        d < 10,
    ensures
        c == digit_char(d as nat),
{
    if d == 0 {
        '0'
    } else if d == 1 {
        '1'
    } else if d == 2 {
        '2'
    } else if d == 3 {
        '3'
    } else if d == 4 {
        '4'
    } else if d == 5 {
        '5'
    } else if d == 6 {
        '6'
    } else if d == 7 {
        '7'
    } else if d == 8 {
        '8'
    } else {
        '9'
    }
}

/// Appends `n` in decimal to `out`.
pub fn push_decimal(out: &mut Vec<char>, n: u64)
    ensures
        final(out)@ == old(out)@ + decimal(n as nat),
    decreases n,
{
    if n >= 10 {
        push_decimal(out, n / 10);
    }
    out.push(digit_of(n % 10));
}

/// What is written in decimal reads back as the same number.
pub proof fn lemma_decimal_reads_back(n: nat)
    ensures
        decimal(n).len() > 0,
        all_digits(decimal(n)),
        digits_value(decimal(n)) == n,
        decimal(n)[0] != '+',
    decreases n,
{
    if n < 10 {
        let s = decimal(n);
        assert(s.drop_last() == Seq::<char>::empty());
        assert(digits_value(s.drop_last()) == 0);
    } else {
        lemma_decimal_reads_back(n / 10);
        let s = decimal(n);
        assert(s.drop_last() == decimal(n / 10));
        assert(s[0] == decimal(n / 10)[0]);
    }
}

/// The length of the run of digits that `s` begins with.
pub open spec fn digit_run(s: Seq<char>) -> int
    decreases s.len(),
{
    if s.len() > 0 && is_digit(s[0]) {
        1 + digit_run(s.drop_first())
    } else {
        0
    }
}

/// Whether `c` is the lower-case letter `l` or its capital.
pub open spec fn same_letter(c: char, l: char) -> bool {
    c == l || ('A' <= c <= 'Z' && c as u32 + 32 == l as u32)
}

/// A numeral without the sign it may begin with.
pub open spec fn without_sign(s: Seq<char>) -> Seq<char> {
    if s.len() > 0 && (s[0] == '+' || s[0] == '-') {
        s.drop_first()
    } else {
        s
    }
}

/// An exponent: `e` or `E`, an optional sign, one or more digits.
pub open spec fn is_exponent(s: Seq<char>) -> bool {
    &&& s.len() > 0
    &&& (s[0] == 'e' || s[0] == 'E')
    &&& without_sign(s.drop_first()).len() > 0
    &&& all_digits(without_sign(s.drop_first()))
}

/// A number in decimal notation: digits with at most one point among them,
/// at least one digit before or after the point, and an optional exponent.
pub open spec fn is_decimal_number(s: Seq<char>) -> bool {
    let a = digit_run(s);
    let r = s.skip(a);
    if r.len() > 0 && r[0] == '.' {
        let b = digit_run(r.drop_first());
        let t = r.drop_first().skip(b);
        a + b > 0 && (t.len() == 0 || is_exponent(t))
    } else {
        a > 0 && (r.len() == 0 || is_exponent(r))
    }
}

/// One of the words `inf`, `infinity` and `nan`, in any mix of cases.
pub open spec fn is_special_number(s: Seq<char>) -> bool {
    ||| s.len() == 3 && same_letter(s[0], 'i') && same_letter(s[1], 'n') && same_letter(s[2], 'f')
    ||| s.len() == 3 && same_letter(s[0], 'n') && same_letter(s[1], 'a') && same_letter(s[2], 'n')
    ||| s.len() == 8 && same_letter(s[0], 'i') && same_letter(s[1], 'n') && same_letter(s[2], 'f')
        && same_letter(s[3], 'i') && same_letter(s[4], 'n') && same_letter(s[5], 'i')
        && same_letter(s[6], 't') && same_letter(s[7], 'y')
}

/// The syntax of a real number in a statistics record: an optional sign,
/// then a number in decimal notation or one of the special words. White space
/// is no part of it, and the empty text is no number.
pub open spec fn is_real_literal(s: Seq<char>) -> bool {
    is_decimal_number(without_sign(s)) || is_special_number(without_sign(s))
}

pub proof fn lemma_digit_run(s: Seq<char>)
    ensures
        0 <= digit_run(s) <= s.len(),
        all_digits(s.take(digit_run(s))),
        digit_run(s) < s.len() ==> !is_digit(s[digit_run(s)]),
    decreases s.len(),
{
    if s.len() > 0 && is_digit(s[0]) {
        let t = s.drop_first();
        lemma_digit_run(t);
        let n = digit_run(s);
        assert forall|i: int| 0 <= i < s.take(n).len() implies is_digit(#[trigger] s.take(n)[i]) by {
            if i > 0 {
                assert(s.take(n)[i] == t.take(n - 1)[i - 1]);
            }
        }
        if n < s.len() {
            assert(s[n] == t[n - 1]);
        }
    }
}

/// A text is all digits exactly if its leading run of digits is all of it.
pub proof fn lemma_all_digits_run(s: Seq<char>)
    ensures
        all_digits(s) <==> digit_run(s) == s.len(),
    decreases s.len(),
{
    lemma_digit_run(s);
    if digit_run(s) == s.len() {
        assert(s.take(s.len() as int) == s);
    } else {
        assert(!is_digit(s[digit_run(s)]));
    }
}

fn char_is_digit(c: char) -> (r: bool)
    ensures
        r == is_digit(c),
{
    '0' <= c && c <= '9'
}

fn is_letter(c: char, l: char) -> (r: bool)
    requires
        'a' <= l <= 'z',
    ensures
        r == same_letter(c, l),
{
    c == l || ('A' <= c && c <= 'Z' && c as u32 + 32 == l as u32)
}

/// The end of the run of digits that begins at `from`.
fn skip_digits(s: &[char], from: usize) -> (to: usize)
    requires
        from <= s.len(),
    ensures
        from <= to <= s.len(),
        to - from == digit_run(s@.skip(from as int)),
{
    let mut i: usize = from;
    while i < s.len() && char_is_digit(s[i])
        invariant
            from <= i <= s.len(),
            digit_run(s@.skip(from as int)) == (i - from) + digit_run(s@.skip(i as int)),
        decreases s.len() - i,
    {
        proof {
            assert(s@.skip(i as int).drop_first() == s@.skip(i + 1));
        }
        i += 1;
    }
    i
}

fn exponent_at(s: &[char], from: usize) -> (r: bool)
    requires
        from <= s.len(),
    ensures
        r == is_exponent(s@.skip(from as int)),
{
    let ghost e = s@.skip(from as int);
    if from == s.len() {
        return false;
    }
    if s[from] != 'e' && s[from] != 'E' {
        return false;
    }
    let mut i: usize = from + 1;
    proof {
        assert(e.drop_first() == s@.skip(from + 1));
    }
    if i < s.len() && (s[i] == '+' || s[i] == '-') {
        proof {
            assert(s@.skip(i as int).drop_first() == s@.skip(i + 1));
        }
        i += 1;
    }
    proof {
        assert(without_sign(e.drop_first()) == s@.skip(i as int));
        lemma_all_digits_run(s@.skip(i as int));
    }
    let j: usize = skip_digits(s, i);
    i < s.len() && j == s.len()
}

fn special_number(s: &[char]) -> (r: bool)
    ensures
        r == is_special_number(s@),
{
    if s.len() == 3 {
        (is_letter(s[0], 'i') && is_letter(s[1], 'n') && is_letter(s[2], 'f')) || (is_letter(
            s[0],
            'n',
        ) && is_letter(s[1], 'a') && is_letter(s[2], 'n'))
    } else if s.len() == 8 {
        is_letter(s[0], 'i') && is_letter(s[1], 'n') && is_letter(s[2], 'f') && is_letter(s[3], 'i')
            && is_letter(s[4], 'n') && is_letter(s[5], 'i') && is_letter(s[6], 't') && is_letter(
            s[7],
            'y',
        )
    } else {
        false
    }
}

fn decimal_number(s: &[char]) -> (r: bool)
    ensures
        r == is_decimal_number(s@),
{
    proof {
        assert(s@.skip(0) == s@);
    }
    let a: usize = skip_digits(s, 0);
    let ghost rest = s@.skip(a as int);
    if a < s.len() && s[a] == '.' {
        proof {
            assert(rest.drop_first() == s@.skip(a + 1));
        }
        let b: usize = skip_digits(s, a + 1);
        proof {
            assert(rest.drop_first().skip(b - (a + 1)) == s@.skip(b as int));
        }
        (a > 0 || b > a + 1) && (b == s.len() || exponent_at(s, b))
    } else {
        a > 0 && (a == s.len() || exponent_at(s, a))
    }
}

/// Whether a text has the syntax of a real number.
pub fn is_real(s: &[char]) -> (r: bool)
    ensures
        r == is_real_literal(s@),
{
    if s.len() > 0 && (s[0] == '+' || s[0] == '-') {
        let body: &[char] = &s[1..s.len()];
        proof {
            assert(body@ == s@.drop_first());
        }
        decimal_number(body) || special_number(body)
    } else {
        decimal_number(s) || special_number(s)
    }
}

/// A number written in decimal is read as that number, wherever the number
/// is within the bound of the reading.
pub proof fn lemma_decimal_parses(n: nat, max: nat)
    requires
        n <= max,
    ensures
        parse_unsigned(decimal(n), max) == Some(n),
{
    lemma_decimal_reads_back(n);
}

} // verus!
