//! Whole numbers and their decimal notation.

use crate::text::chars_of;
use vstd::prelude::*;

verus! {

/// `c` is one of the ten decimal digits.
pub open spec fn is_digit(c: char) -> bool {
    '0' <= c <= '9'
}

/// The value of the digit `c`.
pub open spec fn digit_value(c: char) -> nat {
    (c as int - '0' as int) as nat
}

/// The digit whose value is `d`.
pub open spec fn digit_char(d: nat) -> char {
    ('0' as int + d) as char
}

/// Every character of `s` is a digit.
pub open spec fn all_digits(s: Seq<char>) -> bool {
    forall|i: int| 0 <= i < s.len() ==> is_digit(#[trigger] s[i])
}

/// The number that a sequence of digits denotes.
pub open spec fn digits_value(s: Seq<char>) -> nat
    decreases s.len(),
{
    if s.len() == 0 {
        0
    } else {
        digits_value(s.drop_last()) * 10 + digit_value(s.last())
    }
}

/// `s` without a plus sign in front.
pub open spec fn unsigned(s: Seq<char>) -> Seq<char> {
    if s.len() > 0 && s[0] == '+' {
        s.drop_first()
    } else {
        s
    }
}

/// The number that `s` denotes, if `s` is a number of at most `max`: one digit
/// or more, with an optional plus sign in front and nothing else.
pub open spec fn number_of(s: Seq<char>, max: nat) -> Option<nat> {
    let t = unsigned(s);
    if t.len() > 0 && all_digits(t) && digits_value(t) <= max {
        Some(digits_value(t))
    } else {
        None
    }
}

/// The decimal notation of `n`, without leading zeros.
pub open spec fn decimal(n: nat) -> Seq<char>
    decreases n,
{
    if n < 10 {
        seq![digit_char(n)]
    } else {
        decimal(n / 10).push(digit_char(n % 10))
    }
}

proof fn lemma_prefix_value(s: Seq<char>, n: int)
    requires
        0 <= n <= s.len(),
    ensures
        digits_value(s.take(n)) <= digits_value(s),
    decreases s.len() - n,
{
    if n < s.len() {
        lemma_prefix_value(s, n + 1);
        assert(s.take(n + 1).drop_last() =~= s.take(n));
    } else {
        assert(s.take(n) =~= s);
    }
}

/// Parses a number of at most `max`.
pub fn parse_number(s: &str, max: u64) -> (r: Option<u64>)
    ensures
        r is Some <==> number_of(s@, max as nat) is Some,
        r is Some ==> r->0 == number_of(s@, max as nat)->0,
{
    let chars: Vec<char> = chars_of(s);
    let total: usize = chars.len();
    let start: usize = if total > 0 && chars[0] == '+' { 1 } else { 0 };
    let ghost t = unsigned(s@);
    assert(t =~= s@.skip(start as int));
    if start == total {
        return None;
    }
    let mut value: u64 = 0;
    let mut i: usize = start;
    assert(t.take(0) =~= Seq::empty());
    while i < total
        invariant
            chars@ == s@,
            total == s@.len(),
            start <= i <= total,
            t == unsigned(s@),
            t == s@.skip(start as int),
            value <= max,
            value == digits_value(t.take(i - start)),
            forall|k: int| 0 <= k < i - start ==> is_digit(#[trigger] t[k]),
        decreases total - i,
    {
        let c: char = chars[i];
        let ghost next = t.take(i - start + 1);
        assert(next.drop_last() =~= t.take(i - start));
        assert(t[i - start] == c);
        assert(next.last() == c);
        if c < '0' || c > '9' {
            assert(!is_digit(t[i - start]));
            return None;
        }
        let d: u64 = (c as u32 - '0' as u32) as u64;
        if value > max / 10 || d > max - value * 10 {
            proof {
                lemma_prefix_value(t, i - start + 1);
            }
            return None;
        }
        value = value * 10 + d;
        i += 1;
    }
    assert(t.take(i - start) =~= t);
    Some(value)
}

/// Parses a number that fits in eight bits.
pub fn parse_u8(s: &str) -> (r: Option<u8>)
    ensures
        r is Some <==> number_of(s@, u8::MAX as nat) is Some,
        r is Some ==> r->0 == number_of(s@, u8::MAX as nat)->0,
{
    match parse_number(s, 255) {
        Some(n) => Some(n as u8),
        None => None,
    }
}

/// Parses a number that fits in 64 bits.
pub fn parse_u64(s: &str) -> (r: Option<u64>)
    ensures
        r is Some <==> number_of(s@, u64::MAX as nat) is Some,
        r is Some ==> r->0 == number_of(s@, u64::MAX as nat)->0,
{
    parse_number(s, u64::MAX)
}

fn digit_text(d: u64) -> (r: &'static str)
    requires
        d < 10,
    ensures
        r@ == seq![digit_char(d as nat)],
{
    proof {
        reveal_strlit("0");
        reveal_strlit("1");
        reveal_strlit("2");
        reveal_strlit("3");
        reveal_strlit("4");
        reveal_strlit("5");
        reveal_strlit("6");
        reveal_strlit("7");
        reveal_strlit("8");
        reveal_strlit("9");
    }
    let r: &'static str = match d {
        0 => "0",
        1 => "1",
        2 => "2",
        3 => "3",
        4 => "4",
        5 => "5",
        6 => "6",
        7 => "7",
        8 => "8",
        _ => "9",
    };
    assert(r@ =~= seq![digit_char(d as nat)]);
    r
}

/// The decimal notation of `n`.
pub fn decimal_text(n: u64) -> (r: String)
    ensures
        r@ == decimal(n as nat),
    decreases n,
{
    if n < 10 {
        digit_text(n).to_string()
    } else {
        let mut r: String = decimal_text(n / 10);
        r.append(digit_text(n % 10));
        assert(r@ =~= decimal(n as nat));
        r
    }
}

/// A number is read back from its decimal notation, wherever it is within the
/// bound of the reader.
pub proof fn law_decimal_reads_back(n: nat, max: nat)
    requires
        n <= max,
    ensures
        number_of(decimal(n), max) == Some(n),
{
    lemma_decimal(n);
    assert(decimal(n)[0] != '+');
}

proof fn lemma_decimal(n: nat)
    ensures
        decimal(n).len() > 0,
        all_digits(decimal(n)),
        digits_value(decimal(n)) == n,
    decreases n,
{
    assert(digit_value(digit_char(n % 10)) == n % 10);
    if n < 10 {
        assert(decimal(n).drop_last() =~= Seq::empty());
        assert(digits_value(Seq::<char>::empty()) == 0);
    } else {
        lemma_decimal(n / 10);
        assert(decimal(n).drop_last() =~= decimal(n / 10));
        assert forall|i: int| 0 <= i < decimal(n).len() implies is_digit(#[trigger] decimal(n)[i]) by {
            if i < decimal(n / 10).len() {
                assert(decimal(n)[i] == decimal(n / 10)[i]);
            }
        }
    }
}

/// The decimal notation has no leading zero, unless it is the digit zero alone.
proof fn lemma_decimal_leads(n: nat)
    ensures
        n > 0 ==> decimal(n)[0] != '0',
        n == 0 ==> decimal(n) == seq!['0'],
    decreases n,
{
    if n >= 10 {
        lemma_decimal_leads(n / 10);
        lemma_decimal(n / 10);
    }
}

proof fn lemma_zeros(count: nat, s: Seq<char>)
    ensures
        digits_value(Seq::new(count, |i: int| '0') + s) == digits_value(s),
    decreases s.len(),
{
    let zeros = Seq::new(count, |i: int| '0');
    if s.len() == 0 {
        assert(zeros + s =~= zeros);
        lemma_only_zeros(count);
    } else {
        assert((zeros + s).drop_last() =~= zeros + s.drop_last());
        lemma_zeros(count, s.drop_last());
    }
}

proof fn lemma_only_zeros(count: nat)
    ensures
        digits_value(Seq::new(count, |i: int| '0')) == 0,
    decreases count,
{
    if count > 0 {
        assert(Seq::new(count, |i: int| '0').drop_last() =~= Seq::new(
            (count - 1) as nat,
            |i: int| '0',
        ));
        lemma_only_zeros((count - 1) as nat);
    }
}

/// A number may be written with leading zeros and a plus sign in front, and is
/// rejected if it is above the bound.
pub proof fn law_number_notation(n: nat, zeros: nat, max: nat)
    ensures
        ({
            let digits = Seq::new(zeros, |i: int| '0') + decimal(n);
            &&& n <= max ==> number_of(digits, max) == Some(n)
            &&& n <= max ==> number_of(seq!['+'] + digits, max) == Some(n)
            &&& n > max ==> number_of(digits, max) is None
            &&& n > max ==> number_of(seq!['+'] + digits, max) is None
        }),
{
    let digits = Seq::new(zeros, |i: int| '0') + decimal(n);
    lemma_decimal(n);
    lemma_zeros(zeros, decimal(n));
    assert forall|i: int| 0 <= i < digits.len() implies is_digit(#[trigger] digits[i]) by {
        if i >= zeros {
            assert(digits[i] == decimal(n)[i - zeros]);
        }
    }
    assert(is_digit(digits[0]));
    assert((seq!['+'] + digits).drop_first() =~= digits);
}

/// Anything but digits, with at most one plus sign in front, is no number.
pub proof fn law_no_number(s: Seq<char>, i: int, max: nat)
    ensures
        number_of(Seq::empty(), max) is None,
        number_of(seq!['+'], max) is None,
        0 <= i < s.len() && !('0' <= s[i] <= '9') && (i > 0 || s[i] != '+') ==> number_of(
            s,
            max,
        ) is None,
        number_of(s, max) is Some ==> number_of(s, max)->0 <= max,
{
    assert(seq!['+'].drop_first() =~= Seq::empty());
    if 0 <= i < s.len() && !('0' <= s[i] <= '9') && (i > 0 || s[i] != '+') {
        let t = unsigned(s);
        if s[0] == '+' {
            assert(t[i - 1] == s[i]);
            assert(!is_digit(t[i - 1]));
        } else {
            assert(!is_digit(t[i]));
        }
    }
}

/// The digits of a number, from the last: the `k`th is what remains of the
/// `k`th tenth part after division by ten. There is no leading zero.
pub proof fn law_decimal_digits(n: nat, k: nat)
    ensures
        decimal(n).len() > 0,
        k < decimal(n).len() ==> decimal(n)[decimal(n).len() - 1 - k] as int == '0' as int + (n
            / tenfold(k)) % 10,
        k >= decimal(n).len() ==> n / tenfold(k) == 0,
        decimal(n)[0] == '0' ==> n == 0 && decimal(n).len() == 1,
    decreases n,
{
    lemma_decimal(n);
    lemma_decimal_leads(n);
    lemma_tenfold(k);
    if k == 0 {
        assert(tenfold(0) == 1);
        assert(n / 1 == n) by (nonlinear_arith);
        if n < 10 {
            assert(n % 10 == n);
        }
    } else if n < 10 {
        assert(n / tenfold(k) == 0) by (nonlinear_arith)
            requires
                n < 10,
                tenfold(k) >= 10,
        ;
    } else {
        let j = (k - 1) as nat;
        law_decimal_digits(n / 10, j);
        lemma_tenfold(j);
        assert(n / (10 * tenfold(j)) == (n / 10) / tenfold(j)) by {
            vstd::arithmetic::div_mod::lemma_div_denominator(n as int, 10, tenfold(j) as int);
        }
    }
}

/// Ten, multiplied with itself `k` times.
pub open spec fn tenfold(k: nat) -> nat
    decreases k,
{
    if k == 0 {
        1
    } else {
        10 * tenfold((k - 1) as nat)
    }
}

proof fn lemma_tenfold(k: nat)
    ensures
        tenfold(k) >= 1,
        k > 0 ==> tenfold(k) >= 10,
    decreases k,
{
    if k > 0 {
        lemma_tenfold((k - 1) as nat);
    }
}

} // verus!
