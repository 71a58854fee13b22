//! Decimal notation: writing integers, and reading them back.

use vstd::arithmetic::div_mod::lemma_div_denominator;
use vstd::arithmetic::power::lemma_pow0;
use vstd::arithmetic::power::lemma_pow1;
use vstd::arithmetic::power::lemma_pow_positive;
use vstd::arithmetic::power::pow;
use vstd::prelude::*;
use vstd::string::StringExecFns;

use crate::text::chars_of;

verus! {

/// The character for the digit `d`, which is below ten.
pub open spec fn digit_char(d: nat) -> char {
    (48 + d) as char
}

/// The decimal notation of `n`: no sign, no leading zero but for zero itself.
pub open spec fn decimal(n: nat) -> Seq<char>
    decreases n,
{
    if n < 10 {
        seq![digit_char(n)]
    } else {
        decimal(n / 10).push(digit_char(n % 10))
    }
}

/// Whether `c` is one of the ten ASCII digits.
pub open spec fn is_digit(c: char) -> bool {
    '0' <= c <= '9'
}

/// Whether `s` is one digit or more, and nothing else.
pub open spec fn all_digits(s: Seq<char>) -> bool {
    &&& s.len() > 0
    &&& forall|i: int| 0 <= i < s.len() ==> is_digit(#[trigger] s[i])
}

/// The number that a row of digits stands for.
pub open spec fn digits_value(s: Seq<char>) -> nat
    decreases s.len(),
{
    if s.len() == 0 {
        0
    } else {
        (digits_value(s.drop_last()) * 10 + (s.last() as int - 48)) as nat
    }
}

/// `s` without the plus sign at its front, where it has one.
pub open spec fn without_plus(s: Seq<char>) -> Seq<char> {
    if s.len() > 0 && s[0] == '+' {
        s.skip(1)
    } else {
        s
    }
}

/// The number that `s` gives as an unsigned integer of at most `max`: digits,
/// behind a plus sign or not.
pub open spec fn unsigned_number(s: Seq<char>, max: nat) -> Option<nat> {
    let digits = without_plus(s);
    if all_digits(digits) && digits_value(digits) <= max {
        Some(digits_value(digits))
    } else {
        None
    }
}

/// The number that `s` gives as a 32-bit signed integer: digits, behind a plus
/// or a minus sign or neither.
pub open spec fn i32_number(s: Seq<char>) -> Option<i32> {
    if s.len() > 0 && s[0] == '-' {
        let digits = s.skip(1);
        if all_digits(digits) && digits_value(digits) <= i32::MAX + 1 {
            Some((0 - digits_value(digits)) as i32)
        } else {
            None
        }
    } else {
        match unsigned_number(s, i32::MAX as nat) {
            Some(n) => Some(n as i32),
            None => None,
        }
    }
}

/// The digit `d` as a string of one character.
fn digit_str(d: u64) -> (s: &'static str)
    requires
        d < 10,
    ensures
        s@ == seq![digit_char(d as nat)],
{
    proof {
        reveal_strlit("0");
        reveal_strlit("1");
        reveal_strlit("2");
        reveal_strlit("3");
        reveal_strlit("4");
        reveal_strlit("5");
        reveal_strlit("6");
        reveal_strlit("7");
        reveal_strlit("8");
        reveal_strlit("9");
    }
    if d == 0 {
        "0"
    } else if d == 1 {
        "1"
    } else if d == 2 {
        "2"
    } else if d == 3 {
        "3"
    } else if d == 4 {
        "4"
    } else if d == 5 {
        "5"
    } else if d == 6 {
        "6"
    } else if d == 7 {
        "7"
    } else if d == 8 {
        "8"
    } else {
        "9"
    }
}

/// Writes `n` in decimal.
pub fn decimal_string(n: u64) -> (s: String)
    ensures
        s@ == decimal(n as nat),
    decreases n,
{
    if n < 10 {
        digit_str(n).to_owned()
    } else {
        let mut s = decimal_string(n / 10);
        s.append(digit_str(n % 10));
        s
    }
}

/// Reads the characters of `v` from `from` on as digits, where they are digits
/// and their number is at most `max`.
fn read_digits(v: &Vec<char>, from: usize, max: u64) -> (r: Option<u64>)
    requires
        from <= v@.len(),
    ensures
        match r {
            Some(n) => all_digits(v@.skip(from as int)) && n == digits_value(v@.skip(from as int))
                && n <= max,
            None => !all_digits(v@.skip(from as int)) || digits_value(v@.skip(from as int)) > max,
        },
{
    let ghost s = v@.skip(from as int);
    if from == v.len() {
        return None;
    }
    let mut acc: u64 = 0;
    let mut i: usize = from;
    assert(s.take(0) =~= Seq::<char>::empty());
    while i < v.len()
        invariant
            from <= i <= v@.len(),
            s == v@.skip(from as int),
            acc == digits_value(s.take(i - from)),
            acc <= max,
            forall|j: int| 0 <= j < i - from ==> is_digit(#[trigger] s[j]),
        decreases v@.len() - i,
    {
        let c = v[i];
        assert(s[i - from] == c);
        if !('0' <= c && c <= '9') {
            return None;
        }
        let d: u64 = c as u64 - 48;
        assert(s.take(i - from + 1).drop_last() =~= s.take(i - from));
        if d > max || acc > (max - d) / 10 {
            proof {
                assert(digits_value(s.take(i - from + 1)) > max);
                if all_digits(s) {
                    lemma_digits_value_grows(s, i - from + 1);
                }
            }
            return None;
        }
        acc = acc * 10 + d;
        i += 1;
    }
    assert(s.take(s.len() as int) =~= s);
    Some(acc)
}

/// Reads `s` as an unsigned integer of at most `max`.
fn read_unsigned(s: &str, max: u64) -> (r: Option<u64>)
    ensures
        match r {
            Some(n) => unsigned_number(s@, max as nat) == Some(n as nat),
            None => unsigned_number(s@, max as nat) is None,
        },
{
    let v = chars_of(s);
    if v.len() > 0 && v[0] == '+' {
        read_digits(&v, 1, max)
    } else {
        assert(v@.skip(0) =~= v@);
        read_digits(&v, 0, max)
    }
}

/// Reads `s` as an unsigned 64-bit integer.
pub fn read_u64(s: &str) -> (r: Option<u64>)
    ensures
        match r {
            Some(n) => unsigned_number(s@, u64::MAX as nat) == Some(n as nat),
            None => unsigned_number(s@, u64::MAX as nat) is None,
        },
{
    read_unsigned(s, u64::MAX)
}

/// Reads `s` as an unsigned integer of the machine's word size.
pub fn read_usize(s: &str) -> (r: Option<usize>)
    ensures
        match r {
            Some(n) => unsigned_number(s@, usize::MAX as nat) == Some(n as nat),
            None => unsigned_number(s@, usize::MAX as nat) is None,
        },
{
    match read_unsigned(s, usize::MAX as u64) {
        Some(n) => Some(n as usize),
        None => None,
    }
}

/// Reads `s` as a signed 32-bit integer.
pub fn read_i32(s: &str) -> (r: Option<i32>)
    ensures
        r == i32_number(s@),
{
    let v = chars_of(s);
    if v.len() > 0 && v[0] == '-' {
        match read_digits(&v, 1, 0x8000_0000) {
            Some(n) => {
                let m: i64 = 0 - (n as i64);
                Some(m as i32)
            },
            None => None,
        }
    } else {
        match read_unsigned(s, 0x7fff_ffff) {
            Some(n) => Some(n as i32),
            None => None,
        }
    }
}

proof fn lemma_digits_value_grows(s: Seq<char>, k: int)
    requires
        all_digits(s),
        0 <= k <= s.len(),
    ensures
        digits_value(s.take(k)) <= digits_value(s),
    decreases s.len(),
{
    if k == s.len() {
        assert(s.take(k) =~= s);
    } else if k == 0 {
    } else {
        assert(s.drop_last().take(k) =~= s.take(k));
        lemma_digits_value_grows(s.drop_last(), k);
    }
}

/// What decimal notation is made of: digits alone, the first of them not zero
/// unless the number is zero, and the number that they stand for is the one
/// that was written.
pub proof fn law_decimal_value(n: nat)
    ensures
        all_digits(decimal(n)),
        digits_value(decimal(n)) == n,
        n > 0 ==> decimal(n)[0] != '0',
    decreases n,
{
    if n < 10 {
        reveal_with_fuel(digits_value, 2);
        assert(decimal(n).drop_last() =~= Seq::<char>::empty());
    } else {
        law_decimal_value(n / 10);
        assert(decimal(n).drop_last() =~= decimal(n / 10));
        assert(decimal(n)[0] == decimal(n / 10)[0]);
    }
}

/// Reading what was written gives the number back, whatever bound at or above
/// it is read under.
pub proof fn law_decimal_reads_back(n: nat, max: nat)
    requires
        n <= max,
    ensures
        unsigned_number(decimal(n), max) == Some(n),
{
    law_decimal_value(n);
    assert(is_digit(decimal(n)[0]));
}

/// Different numbers have different notations.
pub proof fn law_decimal_injective(m: nat, n: nat)
    requires
        decimal(m) == decimal(n),
    ensures
        m == n,
{
    law_decimal_value(m);
    law_decimal_value(n);
}

/// The digits of a number stand at their places: the digit at a place is how
/// often the power of ten of that place goes into what the higher places leave.
/// There are as many digits as the number needs.
#[verifier::spinoff_prover]
pub proof fn law_digits_stand_at_their_places(n: nat)
    ensures
        ({
            let s = decimal(n);
            &&& s.len() > 0
            &&& n < pow(10, s.len())
            &&& s.len() > 1 ==> n >= pow(10, (s.len() - 1) as nat)
            &&& forall|i: int|
                0 <= i < s.len() ==> (#[trigger] s[i]) as int == 48 + (n as int / pow(
                    10,
                    (s.len() - 1 - i) as nat,
                )) % 10
        }),
    decreases n,
{
    let s = decimal(n);
    lemma_pow0(10);
    lemma_pow1(10);
    if n < 10 {
        assert(s.len() == 1);
    } else {
        law_digits_stand_at_their_places(n / 10);
        let t = decimal(n / 10);
        assert(s =~= t.push(digit_char(n % 10)));
        assert(pow(10, s.len()) == 10 * pow(10, t.len())) by {
            reveal(pow);
        }
        assert(t.len() > 1 ==> pow(10, t.len()) == 10 * pow(10, (t.len() - 1) as nat)) by {
            reveal(pow);
        }
        assert forall|i: int| 0 <= i < s.len() implies (#[trigger] s[i]) as int == 48 + (n as int
            / pow(10, (s.len() - 1 - i) as nat)) % 10 by {
            if i < t.len() {
                let e = (t.len() - 1 - i) as nat;
                assert(s[i] == t[i]);
                assert((s.len() - 1 - i) as nat == e + 1);
                assert(t[i] as int == 48 + ((n / 10) as int / pow(10, e)) % 10);
                lemma_next_place(n, e);
            } else {
                assert((s.len() - 1 - i) as nat == 0);
                assert(s[i] == digit_char(n % 10));
                assert(pow(10, 0) == 1);
                assert(n as int / 1 == n as int);
                assert(s[i] as int == 48 + n % 10);
            }
        }
    }
}

/// The digit at a place is the digit of a tenth of the number one place lower.
#[verifier::spinoff_prover]
proof fn lemma_next_place(n: nat, e: nat)
    ensures
        (n / 10) as int / pow(10, e) == n as int / pow(10, e + 1),
{
    let p = pow(10, e);
    assert(pow(10, e + 1) == 10 * p) by {
        reveal(pow);
    }
    lemma_pow_positive(10, e);
    lemma_div_denominator(n as int, 10, p);
    assert((n as int / 10) / p == n as int / (10 * p));
}

/// How a number is read, digit by digit: one more digit makes ten times the
/// number and the digit, as long as that is no more than the largest number
/// allowed. The digits start the text or stand behind a plus sign, there is at
/// least one, and any other character makes the text no number.
pub proof fn law_one_more_digit(s: Seq<char>, c: char, max: nat)
    ensures
        unsigned_number(Seq::empty(), max) is None,
        unsigned_number(s.push(c), max) == if !(48 <= c as int <= 57) {
            None
        } else if s.len() == 0 || (s.len() == 1 && s[0] == '+') {
            if c as int - 48 <= max {
                Some((c as int - 48) as nat)
            } else {
                None
            }
        } else {
            match unsigned_number(s, max) {
                Some(n) => if 10 * n + (c as int - 48) <= max {
                    Some((10 * n + (c as int - 48)) as nat)
                } else {
                    None
                },
                None => None,
            }
        },
{
    let t = s.push(c);
    let d = without_plus(t);
    let e = without_plus(s);
    assert(!all_digits(without_plus(Seq::empty())));
    if s.len() == 0 {
        if c == '+' {
            assert(d.len() == 0);
        } else {
            assert(d =~= seq![c]);
            reveal_with_fuel(digits_value, 2);
            assert(d.drop_last() =~= Seq::<char>::empty());
            if 48 <= c as int <= 57 {
                assert(all_digits(d));
            } else {
                assert(!is_digit(d[0]));
            }
        }
    } else {
        assert(d =~= e.push(c));
        assert(d.drop_last() =~= e);
        assert(d[d.len() - 1] == c);
        if 48 <= c as int <= 57 {
            assert(is_digit(c));
            if e.len() == 0 {
                reveal_with_fuel(digits_value, 2);
                assert(all_digits(d));
                assert(s.len() == 1 && s[0] == '+');
            } else {
                assert(all_digits(d) <==> all_digits(e)) by {
                    if all_digits(e) {
                        assert forall|i: int| 0 <= i < d.len() implies is_digit(#[trigger] d[i]) by {
                            if i < e.len() {
                                assert(d[i] == e[i]);
                            }
                        }
                    }
                    if all_digits(d) {
                        assert forall|i: int| 0 <= i < e.len() implies is_digit(#[trigger] e[i]) by {
                            assert(d[i] == e[i]);
                        }
                    }
                }
                if s.len() == 1 && s[0] == '+' {
                    assert(e.len() == 0);
                }
                assert(all_digits(e) ==> digits_value(d) == 10 * digits_value(e) + (c as int - 48));
            }
        } else {
            assert(!is_digit(d[d.len() - 1]));
        }
    }
}

/// A signed number is an unsigned one, or a minus sign and an unsigned one that
/// has no sign of its own, within the 32 bits.
pub proof fn law_signed_numbers(s: Seq<char>)
    ensures
        i32_number(s) == if s.len() > 0 && s[0] == '-' {
            if s.len() > 1 && s[1] == '+' {
                None
            } else {
                match unsigned_number(s.skip(1), 0x8000_0000) {
                    Some(n) => Some((0 - n) as i32),
                    None => None,
                }
            }
        } else {
            match unsigned_number(s, 0x7fff_ffff) {
                Some(n) => Some(n as i32),
                None => None,
            }
        },
{
    if s.len() > 1 && s[0] == '-' {
        assert(s.skip(1)[0] == s[1]);
    }
}

} // verus!
