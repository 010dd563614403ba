//! Decimal rendering of integers into strings.
use vstd::prelude::*;
use vstd::string::*;

verus! {

pub open spec fn digit_char(d: int) -> char {
    if d == 0 {
        '0'
    } else if d == 1 {
        '1'
    } else if d == 2 {
        '2'
    } else if d == 3 {
        '3'
    } else if d == 4 {
        '4'
    } else if d == 5 {
        '5'
    } else if d == 6 {
        '6'
    } else if d == 7 {
        '7'
    } else if d == 8 {
        '8'
    } else {
        '9'
    }
}

/// The decimal digits of `n`, without leading zeros.
pub open spec fn decimal(n: nat) -> Seq<char>
    decreases n,
{
    if n < 10 {
        seq![digit_char(n as int)]
    } else {
        decimal(n / 10) + seq![digit_char((n % 10) as int)]
    }
}

/// The decimal digits of `n`, left-padded with zeros to at least two digits.
pub open spec fn decimal2(n: nat) -> Seq<char> {
    if n < 10 {
        seq!['0'] + decimal(n)
    } else {
        decimal(n)
    }
}

/// `v / 1000` written with exactly three decimals, as `-1.250`.
pub open spec fn milli(v: int) -> Seq<char> {
    let a = if v < 0 {
        -v
    } else {
        v
    };
    let frac = (a % 1000) as nat;
    (if v < 0 {
        seq!['-']
    } else {
        Seq::<char>::empty()
    }) + decimal((a / 1000) as nat) + seq!['.', digit_char((frac / 100) as int), digit_char(
        ((frac / 10) % 10) as int,
    ), digit_char((frac % 10) as int)]
}

fn digit_str(d: u64) -> (r: &'static str)
    requires
        d < 10,
    ensures
        r@ == seq![digit_char(d as int)],
{
    if d == 0 {
        proof {
            reveal_strlit("0");
        }
        "0"
    } else if d == 1 {
        proof {
            reveal_strlit("1");
        }
        "1"
    } else if d == 2 {
        proof {
            reveal_strlit("2");
        }
        "2"
    } else if d == 3 {
        proof {
            reveal_strlit("3");
        }
        "3"
    } else if d == 4 {
        proof {
            reveal_strlit("4");
        }
        "4"
    } else if d == 5 {
        proof {
            reveal_strlit("5");
        }
        "5"
    } else if d == 6 {
        proof {
            reveal_strlit("6");
        }
        "6"
    } else if d == 7 {
        proof {
            reveal_strlit("7");
        }
        "7"
    } else if d == 8 {
        proof {
            reveal_strlit("8");
        }
        "8"
    } else {
        proof {
            reveal_strlit("9");
        }
        "9"
    }
}

/// Appends the decimal digits of `n` to `w`.
pub fn push_decimal(w: &mut String, n: u64)
    ensures
        final(w)@ == old(w)@ + decimal(n as nat),
    decreases n,
{
    if n < 10 {
        w.append(digit_str(n));
    } else {
        push_decimal(w, n / 10);
        w.append(digit_str(n % 10));
        assert(w@ =~= old(w)@ + decimal(n as nat));
    }
}

/// Appends the decimal digits of `n` to `w`, padded with zeros to two digits.
pub fn push_decimal2(w: &mut String, n: u64)
    ensures
        final(w)@ == old(w)@ + decimal2(n as nat),
{
    if n < 10 {
        w.append(digit_str(0));
    }
    push_decimal(w, n);
    assert(w@ =~= old(w)@ + decimal2(n as nat));
}

/// Appends `v / 1000` with three decimals to `w`.
pub fn push_milli(w: &mut String, v: i64)
    ensures
        final(w)@ == old(w)@ + milli(v as int),
{
    let a: u64 = if v < 0 {
        (-(v as i128)) as u64
    } else {
        v as u64
    };
    if v < 0 {
        proof {
            reveal_strlit("-");
        }
        w.append("-");
    }
    push_decimal(w, a / 1000);
    proof {
        reveal_strlit(".");
    }
    w.append(".");
    let frac: u64 = a % 1000;
    w.append(digit_str(frac / 100));
    w.append(digit_str((frac / 10) % 10));
    w.append(digit_str(frac % 10));
    assert(w@ =~= old(w)@ + milli(v as int));
}

} // verus!
