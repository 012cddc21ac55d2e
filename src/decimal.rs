use vstd::prelude::*;

verus! {

pub open spec fn digit(d: nat) -> char {
    seq!['0', '1', '2', '3', '4', '5', '6', '7', '8', '9'][d as int]
}

/// Decimal digits of `n`, most significant first, with no leading zeros.
pub open spec fn dec(n: nat) -> Seq<char>
    decreases n,
{
    if n < 10 {
        seq![digit(n)]
    } else {
        dec(n / 10).push(digit(n % 10))
    }
}

/// Decimal text of a signed value: a minus sign before the digits of a negative one.
pub open spec fn dec_int(i: int) -> Seq<char> {
    if i < 0 {
        seq!['-'] + dec((-i) as nat)
    } else {
        dec(i as nat)
    }
}

fn digit_text(d: u64) -> (r: &'static str)
    requires
        d < 10,
    ensures
        r@ == seq![digit(d as nat)],
{
    proof {
        reveal_strlit("0");
        reveal_strlit("1");
        reveal_strlit("2");
        reveal_strlit("3");
        reveal_strlit("4");
        reveal_strlit("5");
        reveal_strlit("6");
        reveal_strlit("7");
        reveal_strlit("8");
        reveal_strlit("9");
    }
    if d == 0 {
        "0"
    } else if d == 1 {
        "1"
    } else if d == 2 {
        "2"
    } else if d == 3 {
        "3"
    } else if d == 4 {
        "4"
    } else if d == 5 {
        "5"
    } else if d == 6 {
        "6"
    } else if d == 7 {
        "7"
    } else if d == 8 {
        "8"
    } else {
        "9"
    }
}

/// Decimal text of an unsigned value.
pub fn decimal_u64(n: u64) -> (r: String)
    ensures
        r@ == dec(n as nat),
{
    let mut m: u64 = n;
    let mut s = String::new();
    while m >= 10
        invariant
            dec(n as nat) == dec(m as nat) + s@,
        decreases m,
    {
        let d = digit_text(m % 10);
        let head = String::from_str(d);
        proof {
            assert(dec(m as nat) == dec((m / 10) as nat).push(digit((m % 10) as nat)));
            assert(dec(m as nat) + s@ =~= dec((m / 10) as nat) + (d@ + s@));
        }
        s = head.concat(s.as_str());
        m = m / 10;
    }
    let d = digit_text(m);
    let head = String::from_str(d);
    assert(dec(m as nat) == d@);
    head.concat(s.as_str())
}

/// Decimal text of a signed 32-bit value.
pub fn decimal_i32(i: i32) -> (r: String)
    ensures
        r@ == dec_int(i as int),
{
    if i < 0 {
        let magnitude: u64 = (-(i as i64)) as u64;
        let digits = decimal_u64(magnitude);
        let sign = String::from_str("-");
        proof {
            reveal_strlit("-");
        }
        sign.concat(digits.as_str())
    } else {
        decimal_u64(i as u64)
    }
}

} // verus!
