//! Decimal text for the integer and fixed-point arguments of requests.
use vstd::prelude::*;

verus! {

/// The decimal digit for `d`, which is below ten.
pub open spec fn digit(d: nat) -> char {
    if d == 0 {
        '0'
    } else if d == 1 {
        '1'
    } else if d == 2 {
        '2'
    } else if d == 3 {
        '3'
    } else if d == 4 {
        '4'
    } else if d == 5 {
        '5'
    } else if d == 6 {
        '6'
    } else if d == 7 {
        '7'
    } else if d == 8 {
        '8'
    } else {
        '9'
    }
}

/// Decimal digits of `n`, without leading zeros.
pub open spec fn natural_text(n: nat) -> Seq<char>
    decreases n,
{
    if n < 10 {
        seq![digit(n)]
    } else {
        natural_text(n / 10).push(digit(n % 10))
    }
}

/// Decimal text of `n`, with a leading `-` when it is negative.
pub open spec fn integer_text(n: int) -> Seq<char> {
    if n < 0 {
        seq!['-'] + natural_text((-n) as nat)
    } else {
        natural_text(n as nat)
    }
}

/// `m` thousandths written with exactly three decimals, such as `-30.000`.
pub open spec fn thousandths_text(m: int) -> Seq<char> {
    let a: nat = if m < 0 {
        (-m) as nat
    } else {
        m as nat
    };
    let sign: Seq<char> = if m < 0 {
        seq!['-']
    } else {
        seq![]
    };
    sign + natural_text(a / 1000) + seq!['.', digit(a / 100 % 10), digit(a / 10 % 10), digit(a % 10)]
}

fn digit_str(d: u64) -> (r: &'static str)
    requires
        d < 10,
    ensures
        r@ == seq![digit(d as nat)],
{
    proof {
        reveal_strlit("0");
        reveal_strlit("1");
        reveal_strlit("2");
        reveal_strlit("3");
        reveal_strlit("4");
        reveal_strlit("5");
        reveal_strlit("6");
        reveal_strlit("7");
        reveal_strlit("8");
        reveal_strlit("9");
    }
    if d == 0 {
        "0"
    } else if d == 1 {
        "1"
    } else if d == 2 {
        "2"
    } else if d == 3 {
        "3"
    } else if d == 4 {
        "4"
    } else if d == 5 {
        "5"
    } else if d == 6 {
        "6"
    } else if d == 7 {
        "7"
    } else if d == 8 {
        "8"
    } else {
        "9"
    }
}

fn push_natural(text: &mut String, n: u64)
    ensures
        final(text)@ == old(text)@ + natural_text(n as nat),
    decreases n,
{
    if n >= 10 {
        push_natural(text, n / 10);
    }
    text.append(digit_str(n % 10));
    proof {
        assert(final(text)@ =~= old(text)@ + natural_text(n as nat));
    }
}

fn magnitude(n: i64) -> (r: u64)
    ensures
        r as int == if n < 0 {
            -n
        } else {
            n as int
        },
{
    if n < 0 {
        ((-(n as i128)) as u64)
    } else {
        n as u64
    }
}

/// Decimal text of `n`.
pub fn integer_string(n: i64) -> (r: String)
    ensures
        r@ == integer_text(n as int),
{
    let mut text = String::new();
    if n < 0 {
        text.append("-");
    }
    push_natural(&mut text, magnitude(n));
    proof {
        reveal_strlit("-");
        assert(text@ =~= integer_text(n as int));
    }
    text
}

/// `m` thousandths with exactly three decimals.
pub fn thousandths_string(m: i64) -> (r: String)
    ensures
        r@ == thousandths_text(m as int),
{
    let a = magnitude(m);
    let mut text = String::new();
    if m < 0 {
        text.append("-");
    }
    push_natural(&mut text, a / 1000);
    text.append(".");
    text.append(digit_str(a / 100 % 10));
    text.append(digit_str(a / 10 % 10));
    text.append(digit_str(a % 10));
    proof {
        reveal_strlit("-");
        reveal_strlit(".");
        assert(text@ =~= thousandths_text(m as int));
    }
    text
}

} // verus!
