//! Numbers as text: decimal output, and input in a given radix.

use crate::text::{chars_of, owned};
use vstd::prelude::*;
use vstd::string::*;

verus! {

// ---------------------------------------------------------------------------
// Output
// ---------------------------------------------------------------------------

/// The character for a decimal digit.
pub open spec fn digit_char(d: nat) -> char {
    ((48 + d) as u8) as char
}

/// The decimal digits of a number, without leading zeros.
pub open spec fn decimal(n: nat) -> Seq<char>
    decreases n,
{
    if n < 10 {
        seq![digit_char(n)]
    } else {
        decimal(n / 10).push(digit_char(n % 10))
    }
}

/// The decimal form of a number with its sign, which is written only before
/// negative numbers.
pub open spec fn signed(n: int) -> Seq<char> {
    if n < 0 {
        seq!['-'] + decimal((-n) as nat)
    } else {
        decimal(n as nat)
    }
}

/// The decimal form of an unsigned number.
pub fn decimal_of(n: u64) -> (s: String)
    ensures
        s@ == decimal(n as nat),
    decreases n,
{
    if n < 10 {
        let mut s: String = String::new();
        s.push((48 + n as u8) as char);
        proof {
            assert(s@ =~= decimal(n as nat));
        }
        s
    } else {
        let mut s: String = decimal_of(n / 10);
        s.push((48 + (n % 10) as u8) as char);
        s
    }
}

/// The decimal form of a signed number.
pub fn signed_of(n: i32) -> (s: String)
    ensures
        s@ == signed(n as int),
{
    if n < 0 {
        let mut s: String = String::new();
        s.push('-');
        let m: i64 = n as i64;
        let digits: String = decimal_of((-m) as u64);
        s.append(digits.as_str());
        proof {
            assert(s@ =~= signed(n as int));
        }
        s
    } else {
        decimal_of(n as u64)
    }
}

// ---------------------------------------------------------------------------
// Input
// ---------------------------------------------------------------------------

/// Whether a character is a digit in a radix of at most ten.
pub open spec fn is_digit(c: char, radix: nat) -> bool {
    48 <= c as u32 && (c as u32 - 48) < radix
}

/// Whether a text is not empty and holds digits only.
pub open spec fn all_digits(s: Seq<char>, radix: nat) -> bool {
    s.len() > 0 && forall|i: int| 0 <= i < s.len() ==> is_digit(#[trigger] s[i], radix)
}

/// The number that a sequence of digits stands for.
pub open spec fn value(s: Seq<char>, radix: nat) -> nat
    decreases s.len(),
{
    if s.len() == 0 {
        0
    } else {
        value(s.drop_last(), radix) * radix + (s.last() as u32 - 48) as nat
    }
}

/// The text without one plus sign at its beginning.
pub open spec fn without_plus(s: Seq<char>) -> Seq<char> {
    if s.len() > 0 && s[0] == '+' {
        s.skip(1)
    } else {
        s
    }
}

/// The number that a text stands for: digits, with or without a plus sign
/// before them, whose value is at most `max`.
pub open spec fn parse_nat(s: Seq<char>, radix: nat, max: nat) -> Option<nat> {
    let t = without_plus(s);
    if all_digits(t, radix) && value(t, radix) <= max {
        Some(value(t, radix))
    } else {
        None
    }
}

/// The number that a text stands for: digits, with or without a sign before
/// them, whose value a 64-bit signed number can hold.
pub open spec fn parse_int(s: Seq<char>) -> Option<int> {
    if s.len() > 0 && s[0] == '-' {
        let t = s.skip(1);
        if all_digits(t, 10) && value(t, 10) <= 0x8000_0000_0000_0000 {
            Some(-(value(t, 10) as int))
        } else {
            None
        }
    } else {
        match parse_nat(s, 10, 0x7fff_ffff_ffff_ffff) {
            Some(n) => Some(n as int),
            None => None,
        }
    }
}

/// A prefix of a sequence of digits stands for no larger number.
proof fn lemma_value_prefix(s: Seq<char>, radix: nat, k: int)
    requires
        0 <= k <= s.len(),
        radix >= 1,
    ensures
        value(s.take(k), radix) <= value(s, radix),
    decreases s.len(),
{
    if k == s.len() {
        assert(s.take(k) =~= s);
    } else {
        lemma_value_prefix(s.drop_last(), radix, k);
        assert(s.drop_last().take(k) =~= s.take(k));
        let v = value(s.drop_last(), radix);
        assert(v <= v * radix) by (nonlinear_arith)
            requires
                radix >= 1,
        ;
    }
}

/// The value of the digits `v[from..]`, if they are digits and the value is at
/// most `max`.
fn read_digits(v: &Vec<char>, from: usize, radix: u8, max: u64) -> (r: Option<u64>)
    requires
        from <= v@.len(),
        1 <= radix <= 10,
    ensures
        match r {
            Some(n) => all_digits(v@.skip(from as int), radix as nat) && value(
                v@.skip(from as int),
                radix as nat,
            ) == n && n <= max,
            None => !(all_digits(v@.skip(from as int), radix as nat) && value(
                v@.skip(from as int),
                radix as nat,
            ) <= max),
        },
{
    let ghost t = v@.skip(from as int);
    if from == v.len() {
        return None;
    }
    let mut acc: u64 = 0;
    let mut i: usize = from;
    proof {
        assert(t.take(0) =~= seq![]);
    }
    while i < v.len()
        invariant
            t == v@.skip(from as int),
            from <= i <= v@.len(),
            1 <= radix <= 10,
            acc <= max,
            acc == value(t.take(i - from), radix as nat),
            forall|k: int| 0 <= k < i - from ==> is_digit(#[trigger] t[k], radix as nat),
        decreases v.len() - i,
    {
        let c: u32 = v[i] as u32;
        proof {
            assert(t[i - from] == v@[i as int]);
        }
        if c < 48 || c - 48 >= radix as u32 {
            return None;
        }
        proof {
            assert(0 <= (acc as int) * (radix as int) <= 0xffff_ffff_ffff_ffff * 10)
                by (nonlinear_arith)
                requires
                    0 <= acc <= 0xffff_ffff_ffff_ffff,
                    0 <= radix <= 10,
            ;
        }
        let next: u128 = (acc as u128) * (radix as u128) + (c - 48) as u128;
        proof {
            let p = t.take(i - from + 1);
            assert(p.drop_last() =~= t.take(i - from));
            lemma_value_prefix(t, radix as nat, i - from + 1);
        }
        if next > max as u128 {
            return None;
        }
        acc = next as u64;
        i = i + 1;
    }
    proof {
        assert(t.take(i - from) =~= t);
    }
    Some(acc)
}

/// The number that a string stands for in a radix, if it is at most `max`.
pub fn parse_unsigned(s: &str, radix: u8, max: u64) -> (r: Option<u64>)
    requires
        1 <= radix <= 10,
    ensures
        match r {
            Some(n) => parse_nat(s@, radix as nat, max as nat) == Some(n as nat),
            None => parse_nat(s@, radix as nat, max as nat) is None,
        },
{
    let v: Vec<char> = chars_of(s);
    if v.len() > 0 && v[0] == '+' {
        read_digits(&v, 1, radix, max)
    } else {
        proof {
            assert(v@.skip(0) =~= v@);
        }
        read_digits(&v, 0, radix, max)
    }
}

/// The number that a string stands for, or zero where it stands for none that
/// 64 bits hold.
pub fn u64_or_zero(s: &str) -> (n: u64)
    ensures
        n == nat_or_zero(s@),
{
    match parse_unsigned(s, 10, u64::MAX) {
        Some(n) => n,
        None => 0,
    }
}

/// The number that a text stands for, or zero where it stands for none that
/// 64 bits hold.
pub open spec fn nat_or_zero(s: Seq<char>) -> nat {
    match parse_nat(s, 10, u64::MAX as nat) {
        Some(n) => n,
        None => 0,
    }
}

/// The signed number that a text stands for, or zero where it stands for none.
pub open spec fn int_or_zero(s: Seq<char>) -> int {
    match parse_int(s) {
        Some(n) => n,
        None => 0,
    }
}

/// The signed number that a string stands for, or zero.
pub fn i64_or_zero(s: &str) -> (n: i64)
    ensures
        n == int_or_zero(s@),
{
    let v: Vec<char> = chars_of(s);
    if v.len() > 0 && v[0] == '-' {
        match read_digits(&v, 1, 10, 0x8000_0000_0000_0000) {
            Some(n) => if n == 0x8000_0000_0000_0000 {
                i64::MIN
            } else {
                -(n as i64)
            },
            None => 0,
        }
    } else {
        match parse_unsigned(s, 10, 0x7fff_ffff_ffff_ffff) {
            Some(n) => n as i64,
            None => 0,
        }
    }
}

/// What is wrong with digits, read from the left: the first character that is
/// no digit, or the digit with which the number becomes too large.
pub open spec fn digits_problem(s: Seq<char>, from: int, before: nat, max: nat) -> Seq<char>
    decreases s.len() - from,
{
    if from < 0 || from >= s.len() {
        seq![]
    } else if !is_digit(s[from], 10) {
        "invalid digit found in string"@
    } else {
        let n = before * 10 + (s[from] as u32 - 48) as nat;
        if n > max {
            "number too large to fit in target type"@
        } else {
            digits_problem(s, from + 1, n, max)
        }
    }
}

/// Why a text stands for no decimal number up to `max`.
pub open spec fn parse_problem(s: Seq<char>, max: nat) -> Seq<char> {
    if s.len() == 0 {
        "cannot parse integer from empty string"@
    } else if without_plus(s).len() == 0 {
        "invalid digit found in string"@
    } else {
        digits_problem(without_plus(s), 0, 0, max)
    }
}

/// Why a string stands for no decimal number up to `max`.
pub fn parse_problem_of(s: &str, max: u64) -> (r: String)
    ensures
        r@ == parse_problem(s@, max as nat),
{
    let v: Vec<char> = chars_of(s);
    if v.len() == 0 {
        return owned("cannot parse integer from empty string");
    }
    let from: usize = if v[0] == '+' {
        1
    } else {
        0
    };
    if from == v.len() {
        return owned("invalid digit found in string");
    }
    let ghost t = without_plus(s@);
    proof {
        assert(t =~= v@.skip(from as int));
    }
    let mut acc: u64 = 0;
    let mut i: usize = from;
    while i < v.len()
        invariant
            from <= i <= v@.len(),
            t == v@.skip(from as int),
            t == without_plus(s@),
            t.len() > 0,
            s@.len() > 0,
            digits_problem(t, 0, 0, max as nat) == digits_problem(
                t,
                i - from,
                acc as nat,
                max as nat,
            ),
        decreases v.len() - i,
    {
        proof {
            assert(t[i - from] == v@[i as int]);
        }
        let c: u32 = v[i] as u32;
        if c < 48 || c - 48 >= 10 {
            return owned("invalid digit found in string");
        }
        let next: u128 = acc as u128 * 10 + (c - 48) as u128;
        if next > max as u128 {
            return owned("number too large to fit in target type");
        }
        acc = next as u64;
        i = i + 1;
    }
    let r: String = String::new();
    proof {
        assert(r@ =~= seq![]);
    }
    r
}

// ---------------------------------------------------------------------------
// Laws
// ---------------------------------------------------------------------------

/// Reading a number's decimal form gives the number back.
pub proof fn law_decimal_round_trip(n: nat, max: nat)
    requires
        n <= max,
    ensures
        parse_nat(decimal(n), 10, max) == Some(n),
{
    lemma_decimal(n);
    assert(decimal(n)[0] != '+') by {
        assert(is_digit(decimal(n)[0], 10));
    }
}

/// A number's decimal form holds digits only and has the number as its value.
pub proof fn lemma_decimal(n: nat)
    ensures
        all_digits(decimal(n), 10),
        value(decimal(n), 10) == n,
    decreases n,
{
    if n < 10 {
        let s = decimal(n);
        assert(s.drop_last() =~= seq![]);
        assert(value(s.drop_last(), 10) == 0);
    } else {
        lemma_decimal(n / 10);
        let s = decimal(n);
        assert(s.drop_last() =~= decimal(n / 10));
    }
}

/// The digits, from zero to nine.
pub open spec fn digits() -> Seq<char> {
    seq!['0', '1', '2', '3', '4', '5', '6', '7', '8', '9']
}

/// A number is written with a digit for each power of ten, the highest first:
/// a digit more at the end makes it ten times as large, and that digit larger.
pub proof fn law_decimal_is_positional(n: nat, d: nat)
    requires
        d < 10,
    ensures
        decimal(d) == seq![digits()[d as int]],
        n > 0 ==> decimal(10 * n + d) == decimal(n).push(digits()[d as int]),
{
    assert(digit_char(d) == digits()[d as int]);
    if n > 0 {
        assert((10 * n + d) / 10 == n && (10 * n + d) % 10 == d);
    }
}

/// Reading undoes writing, digit by digit: a digit more at the end makes the
/// number that is read ten times as large, and that digit larger.
pub proof fn law_digits_are_read_in_order(s: Seq<char>, d: nat)
    requires
        d < 10,
        all_digits(s, 10),
    ensures
        all_digits(s.push(digits()[d as int]), 10),
        value(s.push(digits()[d as int]), 10) == 10 * value(s, 10) + d,
        value(seq![digits()[d as int]], 10) == d,
{
    let c = digits()[d as int];
    assert(digit_char(d) == c);
    let t = s.push(c);
    assert(t.drop_last() =~= s);
    assert forall|i: int| 0 <= i < t.len() implies is_digit(#[trigger] t[i], 10) by {
        if i < s.len() {
            assert(t[i] == s[i]);
        }
    }
    assert(seq![c].drop_last() =~= Seq::<char>::empty());
    assert(value(seq![c].drop_last(), 10) == 0);
    assert(seq![c].last() == c);
}

/// A number is written with a minus sign exactly if it is negative, and is read
/// back with its sign.
pub proof fn law_signed_round_trip(n: int)
    requires
        -0x8000_0000_0000_0000 <= n <= 0x7fff_ffff_ffff_ffff,
    ensures
        parse_int(signed(n)) == Some(n),
        n < 0 <==> signed(n)[0] == '-',
{
    let m = if n < 0 {
        (-n) as nat
    } else {
        n as nat
    };
    lemma_decimal(m);
    assert(is_digit(decimal(m)[0], 10));
    if n < 0 {
        assert(signed(n).skip(1) =~= decimal(m));
    } else {
        law_decimal_round_trip(m, 0x7fff_ffff_ffff_ffff);
    }
}

} // verus!
