//! Names of meshes: an asteroid's mesh goes by the asteroid's identifier,
//! written in decimal.

use vstd::prelude::*;

verus! {

/// The character that stands for a digit below ten.
pub open spec fn digit(d: nat) -> char {
    if d == 0 {
        '0'
    } else if d == 1 {
        '1'
    } else if d == 2 {
        '2'
    } else if d == 3 {
        '3'
    } else if d == 4 {
        '4'
    } else if d == 5 {
        '5'
    } else if d == 6 {
        '6'
    } else if d == 7 {
        '7'
    } else if d == 8 {
        '8'
    } else {
        '9'
    }
}

/// The decimal digits of `n`, the most significant first, without leading
/// zeros.
pub open spec fn digits(n: nat) -> Seq<char>
    decreases n,
{
    if n < 10 {
        seq![digit(n)]
    } else {
        digits(n / 10).push(digit(n % 10))
    }
}

/// An integer written in decimal, with a minus sign in front if it is
/// negative.
pub open spec fn decimal(i: int) -> Seq<char> {
    if i < 0 {
        seq!['-'] + digits((-i) as nat)
    } else {
        digits(i as nat)
    }
}

/// Different digits are different characters, and none of them is the minus
/// sign.
pub proof fn lemma_digit_injective(a: nat, b: nat)
    requires
        a < 10,
        b < 10,
    ensures
        digit(a) == digit(b) ==> a == b,
        digit(a) != '-',
{
}

/// A number has at least one digit, and a minus sign is none of them.
pub proof fn lemma_digits_shape(n: nat)
    ensures
        digits(n).len() >= 1,
        n >= 10 ==> digits(n).len() >= 2,
        forall|k: int| 0 <= k < digits(n).len() ==> digits(n)[k] != '-',
    decreases n,
{
    if n >= 10 {
        lemma_digits_shape(n / 10);
        lemma_digit_injective(n % 10, 0);
    } else {
        lemma_digit_injective(n, 0);
    }
}

/// Different numbers have different digits.
pub proof fn lemma_digits_injective(a: nat, b: nat)
    requires
        digits(a) == digits(b),
    ensures
        a == b,
    decreases a,
{
    lemma_digits_shape(a);
    lemma_digits_shape(b);
    if a < 10 || b < 10 {
        // One digit on either side: it is the same digit.
        assert(digits(a)[0] == digit(a));
        assert(digits(b)[0] == digit(b));
        lemma_digit_injective(a, b);
    } else {
        // The last digits agree, and so does what stands before them.
        assert(digits(a).last() == digit(a % 10));
        assert(digits(b).last() == digit(b % 10));
        assert(digits(a).drop_last() == digits(a / 10));
        assert(digits(b).drop_last() == digits(b / 10));
        lemma_digit_injective(a % 10, b % 10);
        lemma_digits_injective(a / 10, b / 10);
    }
}

/// Different integers are written differently.
pub proof fn lemma_decimal_injective(a: int, b: int)
    requires
        decimal(a) == decimal(b),
    ensures
        a == b,
{
    let size_a = (if a < 0 { -a } else { a }) as nat;
    let size_b = (if b < 0 { -b } else { b }) as nat;
    lemma_digits_shape(size_a);
    lemma_digits_shape(size_b);
    if a < 0 && b < 0 {
        assert(decimal(a).subrange(1, decimal(a).len() as int) == digits(size_a));
        assert(decimal(b).subrange(1, decimal(b).len() as int) == digits(size_b));
        lemma_digits_injective(size_a, size_b);
    } else if a >= 0 && b >= 0 {
        lemma_digits_injective(size_a, size_b);
    } else if a < 0 {
        // Only one of the two begins with a minus sign.
        assert(decimal(a)[0] == '-');
        assert(decimal(b)[0] == digits(size_b)[0]);
    } else {
        assert(decimal(b)[0] == '-');
        assert(decimal(a)[0] == digits(size_a)[0]);
    }
}

/// The text of one digit.
fn digit_text(d: u32) -> (text: &'static str)
    requires
        d < 10,
    ensures
        text@ == seq![digit(d as nat)],
{
    proof {
        reveal_strlit("0");
        reveal_strlit("1");
        reveal_strlit("2");
        reveal_strlit("3");
        reveal_strlit("4");
        reveal_strlit("5");
        reveal_strlit("6");
        reveal_strlit("7");
        reveal_strlit("8");
        reveal_strlit("9");
    }
    let text = if d == 0 {
        "0"
    } else if d == 1 {
        "1"
    } else if d == 2 {
        "2"
    } else if d == 3 {
        "3"
    } else if d == 4 {
        "4"
    } else if d == 5 {
        "5"
    } else if d == 6 {
        "6"
    } else if d == 7 {
        "7"
    } else if d == 8 {
        "8"
    } else {
        "9"
    };
    text
}

/// Appends the digits of `n` to `text`.
fn push_digits(n: u32, text: &mut String)
    ensures
        final(text)@ == old(text)@ + digits(n as nat),
    decreases n,
{
    if n >= 10 {
        push_digits(n / 10, text);
    }
    text.append(digit_text(n % 10));
}

/// Writes `i` in decimal.
pub fn decimal_text(i: i32) -> (text: String)
    ensures
        text@ == decimal(i as int),
{
    let mut text = String::new();
    if i < 0 {
        proof {
            reveal_strlit("-");
        }
        text.append("-");
        push_digits((-(i as i64)) as u32, &mut text);
    } else {
        push_digits(i as u32, &mut text);
    }
    text
}

} // verus!
