//! Numbers written out in decimal and in hexadecimal.
use vstd::arithmetic::div_mod::{
    lemma_div_decreases, lemma_div_non_zero, lemma_fundamental_div_mod,
    lemma_fundamental_div_mod_converse,
};
use vstd::prelude::*;

verus! {

/// The character for one digit: `0` to `9`, then `a` to `f`.
pub open spec fn digit_char(digit: nat) -> char
    recommends
        digit < 16,
{
    if digit < 10 {
        (48 + digit) as char
    } else {
        (87 + digit) as char
    }
}

/// The digit that a character stands for.
pub open spec fn digit_value(c: char) -> nat {
    if c as int <= 57 {
        (c as int - 48) as nat
    } else {
        (c as int - 87) as nat
    }
}

/// Whether `c` is one of `0` to `9` and `a` to `f`.
pub open spec fn is_digit_char(c: char) -> bool {
    48 <= c as int <= 57 || 97 <= c as int <= 102
}

/// `n` written in `base`, most significant digit first, without leading zeros.
pub open spec fn digits(n: nat, base: nat) -> Seq<char>
    recommends
        2 <= base <= 16,
    decreases n,
{
    if n < base || base < 2 {
        seq![digit_char(n)]
    } else {
        proof {
            lemma_div_decreases(n as int, base as int);
        }
        digits(n / base, base).push(digit_char(n % base))
    }
}

/// `n` written in decimal.
pub open spec fn decimal(n: nat) -> Seq<char> {
    digits(n, 10)
}

/// The number that a text of digits in `base` stands for.
pub open spec fn number(text: Seq<char>, base: nat) -> nat
    decreases text.len(),
{
    if text.len() == 0 {
        0
    } else {
        number(text.drop_last(), base) * base + digit_value(text.last())
    }
}

/// Reading a written number gives the number back.
pub proof fn lemma_number_of_digits(n: nat, base: nat)
    requires
        2 <= base <= 16,
    ensures
        number(digits(n, base), base) == n,
    decreases n,
{
    let text = digits(n, base);
    if n < base {
        assert(number(text.drop_last(), base) == 0);
    } else {
        lemma_div_decreases(n as int, base as int);
        lemma_fundamental_div_mod(n as int, base as int);
        lemma_number_of_digits(n / base, base);
        assert(text.drop_last() =~= digits(n / base, base));
        assert((n / base) * base == base * (n / base)) by (nonlinear_arith);
    }
}

/// Different numbers are written differently.
pub proof fn lemma_digits_injective(m: nat, n: nat, base: nat)
    requires
        2 <= base <= 16,
        digits(m, base) == digits(n, base),
    ensures
        m == n,
{
    lemma_number_of_digits(m, base);
    lemma_number_of_digits(n, base);
}

/// A written number is not empty and holds nothing but digits.
pub proof fn lemma_digits_chars(n: nat, base: nat)
    requires
        2 <= base <= 16,
    ensures
        digits(n, base).len() > 0,
        forall|i: int|
            0 <= i < digits(n, base).len() ==> is_digit_char(#[trigger] digits(n, base)[i]),
    decreases n,
{
    if n >= base {
        lemma_div_decreases(n as int, base as int);
        lemma_digits_chars(n / base, base);
    }
}

/// A number below the base is written with one character: `0` to `9` for the
/// numbers up to nine, and `a` to `f` for those from ten on.
pub proof fn lemma_one_digit(digit: nat, base: nat)
    requires
        2 <= base <= 16,
        digit < base,
    ensures
        digits(digit, base) == seq!["0123456789abcdef"@[digit as int]],
{
    reveal_strlit("0123456789abcdef");
}

/// Multiplying by the base and adding a digit writes that digit behind the
/// number, and changes nothing before it.
pub proof fn lemma_one_more_digit(n: nat, digit: nat, base: nat)
    requires
        2 <= base <= 16,
        n > 0,
        digit < base,
    ensures
        digits(n * base + digit, base) == digits(n, base).push(
            "0123456789abcdef"@[digit as int],
        ),
{
    reveal_strlit("0123456789abcdef");
    let longer = n * base + digit;
    assert(longer >= base) by (nonlinear_arith)
        requires
            longer == n * base + digit,
            n > 0,
    ;
    lemma_fundamental_div_mod_converse(longer as int, base as int, n as int, digit as int);
}

/// What decimal is: one of `0` to `9` for the numbers below ten, and for ten
/// times a number and a digit the number with the digit behind it.
pub proof fn lemma_decimal(n: nat, digit: nat)
    requires
        digit < 10,
    ensures
        decimal(digit) == seq!["0123456789"@[digit as int]],
        n > 0 ==> decimal(10 * n + digit) == decimal(n).push("0123456789"@[digit as int]),
{
    reveal_strlit("0123456789");
    reveal_strlit("0123456789abcdef");
    lemma_one_digit(digit, 10);
    if n > 0 {
        lemma_one_more_digit(n, digit, 10);
    }
}

/// No number but zero is written with a zero in front.
pub proof fn lemma_no_leading_zero(n: nat, base: nat)
    requires
        2 <= base <= 16,
        n > 0,
    ensures
        digits(n, base)[0] != '0',
    decreases n,
{
    if n >= base {
        lemma_div_decreases(n as int, base as int);
        lemma_div_non_zero(n as int, base as int);
        lemma_no_leading_zero(n / base, base);
        lemma_digits_chars(n / base, base);
    }
}

/// Two texts that agree up to and past their first `mark` agree on both sides
/// of it.
pub proof fn lemma_split_at_mark(
    left: Seq<char>,
    right: Seq<char>,
    other_left: Seq<char>,
    other_right: Seq<char>,
    mark: char,
)
    requires
        !left.contains(mark),
        !other_left.contains(mark),
        left + seq![mark] + right == other_left + seq![mark] + other_right,
    ensures
        left == other_left,
        right == other_right,
{
    let whole = left + seq![mark] + right;
    let other = other_left + seq![mark] + other_right;
    if left.len() < other_left.len() {
        assert(other[left.len() as int] == other_left[left.len() as int]);
    }
    if other_left.len() < left.len() {
        assert(whole[other_left.len() as int] == left[other_left.len() as int]);
    }
    assert forall|i: int| 0 <= i < left.len() implies left[i] == other_left[i] by {
        assert(whole[i] == other[i]);
    }
    assert(whole.len() == other.len());
    assert forall|i: int| 0 <= i < right.len() implies right[i] == other_right[i] by {
        assert(whole[left.len() + 1 + i] == other[left.len() + 1 + i]);
    }
}

/// Appends one digit to `text`.
fn push_digit(text: &mut String, digit: u8)
    requires
        digit < 16,
    ensures
        final(text)@ == old(text)@.push(digit_char(digit as nat)),
{
    proof {
        reveal_strlit("0");
        reveal_strlit("1");
        reveal_strlit("2");
        reveal_strlit("3");
        reveal_strlit("4");
        reveal_strlit("5");
        reveal_strlit("6");
        reveal_strlit("7");
        reveal_strlit("8");
        reveal_strlit("9");
        reveal_strlit("a");
        reveal_strlit("b");
        reveal_strlit("c");
        reveal_strlit("d");
        reveal_strlit("e");
        reveal_strlit("f");
    }
    let written = match digit {
        0 => "0",
        1 => "1",
        2 => "2",
        3 => "3",
        4 => "4",
        5 => "5",
        6 => "6",
        7 => "7",
        8 => "8",
        9 => "9",
        10 => "a",
        11 => "b",
        12 => "c",
        13 => "d",
        14 => "e",
        _ => "f",
    };
    text.append(written);
}

/// `n` written in `base`.
pub fn digits_text(n: u64, base: u64) -> (text: String)
    requires
        2 <= base <= 16,
    ensures
        text@ == digits(n as nat, base as nat),
    decreases n,
{
    if n < base {
        let mut text = String::new();
        push_digit(&mut text, n as u8);
        text
    } else {
        proof {
            lemma_div_decreases(n as int, base as int);
        }
        let mut text = digits_text(n / base, base);
        push_digit(&mut text, (n % base) as u8);
        text
    }
}

/// `n` written in decimal.
pub fn decimal_text(n: u64) -> (text: String)
    ensures
        text@ == decimal(n as nat),
{
    digits_text(n, 10)
}

} // verus!
