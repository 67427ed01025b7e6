use vstd::prelude::*;
use vstd::string::*;

verus! {

/// The decimal digit character for `d` (`0 <= d < 10`).
pub open spec fn digit_char(d: int) -> char {
    if d == 0 {
        '0'
    } else if d == 1 {
        '1'
    } else if d == 2 {
        '2'
    } else if d == 3 {
        '3'
    } else if d == 4 {
        '4'
    } else if d == 5 {
        '5'
    } else if d == 6 {
        '6'
    } else if d == 7 {
        '7'
    } else if d == 8 {
        '8'
    } else {
        '9'
    }
}

/// Decimal digits of `n`, most significant first, without leading zeros.
pub open spec fn nat_text(n: nat) -> Seq<char>
    decreases n,
{
    if n < 10 {
        seq![digit_char(n as int)]
    } else {
        nat_text(n / 10).push(digit_char((n % 10) as int))
    }
}

/// Decimal text of an integer: a `-` before the digits of a negative value.
pub open spec fn int_text(i: int) -> Seq<char> {
    if i < 0 {
        seq!['-'] + nat_text((-i) as nat)
    } else {
        nat_text(i as nat)
    }
}

fn digit_str(d: u32) -> (r: &'static str)
    requires
        d < 10,
    ensures
        r@ == seq![digit_char(d as int)],
{
    match d {
        0 => {
            proof { reveal_strlit("0"); }
            "0"
        },
        1 => {
            proof { reveal_strlit("1"); }
            "1"
        },
        2 => {
            proof { reveal_strlit("2"); }
            "2"
        },
        3 => {
            proof { reveal_strlit("3"); }
            "3"
        },
        4 => {
            proof { reveal_strlit("4"); }
            "4"
        },
        5 => {
            proof { reveal_strlit("5"); }
            "5"
        },
        6 => {
            proof { reveal_strlit("6"); }
            "6"
        },
        7 => {
            proof { reveal_strlit("7"); }
            "7"
        },
        8 => {
            proof { reveal_strlit("8"); }
            "8"
        },
        _ => {
            proof { reveal_strlit("9"); }
            "9"
        },
    }
}

/// Appends the decimal digits of `n`.
pub fn push_nat(buffer: &mut String, n: u64)
    ensures
        final(buffer)@ == old(buffer)@ + nat_text(n as nat),
    decreases n,
{
    if n >= 10 {
        push_nat(buffer, n / 10);
    }
    buffer.append(digit_str((n % 10) as u32));
    assert(nat_text(n as nat) == if n < 10 { seq![digit_char(n as int)] } else {
        nat_text((n / 10) as nat).push(digit_char((n % 10) as int))
    });
    assert(final(buffer)@ =~= old(buffer)@ + nat_text(n as nat));
}

/// Appends the decimal text of `i`.
pub fn push_int(buffer: &mut String, i: i32)
    ensures
        final(buffer)@ == old(buffer)@ + int_text(i as int),
{
    if i < 0 {
        proof { reveal_strlit("-"); }
        buffer.append("-");
        let magnitude: u64 = (-(i as i64)) as u64;
        push_nat(buffer, magnitude);
        assert(final(buffer)@ =~= old(buffer)@ + int_text(i as int));
    } else {
        push_nat(buffer, i as u64);
    }
}

} // verus!
