//! Decimal digits of line numbers.
use vstd::prelude::*;

verus! {

/// The character of a decimal digit `d` (`d < 10`).
pub open spec fn digit_char(d: nat) -> char {
    ((d + 48) as u8) as char
}

/// The base-10 text form of `n`, without sign or leading zeros.
pub open spec fn decimal(n: nat) -> Seq<char>
    decreases n,
{
    if n < 10 {
        seq![digit_char(n)]
    } else {
        decimal(n / 10).push(digit_char(n % 10))
    }
}

/// The number of decimal digits of `n`; zero has one digit.
pub open spec fn digit_count(n: nat) -> nat
    decreases n,
{
    if n < 10 {
        1
    } else {
        1 + digit_count(n / 10)
    }
}

/// The digit count of a number is the length of its base-10 text.
pub proof fn lemma_digit_count_is_text_length(n: nat)
    ensures
        digit_count(n) == decimal(n).len(),
    decreases n,
{
    if n >= 10 {
        lemma_digit_count_is_text_length(n / 10);
    }
}

/// Ten to the power `k`.
pub open spec fn pow10(k: nat) -> nat
    decreases k,
{
    if k == 0 {
        1
    } else {
        10 * pow10((k - 1) as nat)
    }
}

/// A number below `10^k` has at most `k` digits.
pub proof fn lemma_digit_count_below_power(n: nat, k: nat)
    requires
        k >= 1,
        n < pow10(k),
    ensures
        digit_count(n) <= k,
    decreases k,
{
    if n >= 10 {
        let j = (k - 1) as nat;
        if j == 0 {
            assert(pow10(1) == 10 * pow10(0));
        } else {
            assert(n / 10 < pow10(j)) by {
                assert(pow10(k) == 10 * pow10(j));
            }
            lemma_digit_count_below_power(n / 10, j);
        }
    }
}

/// Every machine-sized number has at most twenty digits.
pub proof fn lemma_digit_count_of_usize(n: usize)
    ensures
        1 <= digit_count(n as nat) <= 20,
{
    reveal_with_fuel(pow10, 21);
    assert(pow10(20) == 100000000000000000000nat);
    lemma_digit_count_below_power(n as nat, 20);
}

/// Returns how many decimal digits `n` has (one for zero).
pub fn count_digits(n: usize) -> (r: usize)
    ensures
        r == digit_count(n as nat),
        1 <= r <= 20,
{
    proof {
        lemma_digit_count_of_usize(n);
    }
    let mut digits: usize = 1;
    let mut rest: usize = n;
    while rest >= 10
        invariant
            digits + digit_count(rest as nat) == 1 + digit_count(n as nat),
            1 <= digit_count(rest as nat),
            digit_count(n as nat) <= 20,
        decreases rest,
    {
        rest = rest / 10;
        digits = digits + 1;
    }
    digits
}

/// The one-character text of the decimal digit `d`.
fn digit_text(d: usize) -> (r: &'static str)
    requires
        d < 10,
    ensures
        r@ == seq![digit_char(d as nat)],
{
    proof {
        reveal_strlit("0");
        reveal_strlit("1");
        reveal_strlit("2");
        reveal_strlit("3");
        reveal_strlit("4");
        reveal_strlit("5");
        reveal_strlit("6");
        reveal_strlit("7");
        reveal_strlit("8");
        reveal_strlit("9");
    }
    let r = match d {
        0 => "0",
        1 => "1",
        2 => "2",
        3 => "3",
        4 => "4",
        5 => "5",
        6 => "6",
        7 => "7",
        8 => "8",
        _ => "9",
    };
    assert(r@ =~= seq![digit_char(d as nat)]);
    r
}

/// Returns the base-10 text form of `n`.
pub fn decimal_text(n: usize) -> (r: String)
    ensures
        r@ == decimal(n as nat),
    decreases n,
{
    if n < 10 {
        String::from_str(digit_text(n))
    } else {
        let head = decimal_text(n / 10);
        head.concat(digit_text(n % 10))
    }
}

} // verus!
