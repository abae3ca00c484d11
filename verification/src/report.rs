use vstd::prelude::*;

verus! {

/// The character for one decimal digit.
pub open spec fn digit_char(d: int) -> char {
    if d == 0 {
        '0'
    } else if d == 1 {
        '1'
    } else if d == 2 {
        '2'
    } else if d == 3 {
        '3'
    } else if d == 4 {
        '4'
    } else if d == 5 {
        '5'
    } else if d == 6 {
        '6'
    } else if d == 7 {
        '7'
    } else if d == 8 {
        '8'
    } else {
        '9'
    }
}

/// The usual decimal rendering of a natural number, most significant
/// digit first, with no leading zeros (and a single `'0'` for zero).
pub open spec fn dec_rep(n: nat) -> Seq<char>
    decreases n,
{
    if n < 10 {
        seq![digit_char(n as int)]
    } else {
        dec_rep(n / 10).push(digit_char((n % 10) as int))
    }
}

/// The four fraction digits of a value below 10000, zero padded.
pub open spec fn frac_rep(f: nat) -> Seq<char> {
    seq![
        digit_char(f as int / 1000 % 10),
        digit_char(f as int / 100 % 10),
        digit_char(f as int / 10 % 10),
        digit_char(f as int % 10),
    ]
}

/// The fixed four-decimal-place rendering of `v` units of 1/10000: an
/// optional minus sign, the whole part, a point, and four fraction digits.
pub open spec fn fixed_rep(v: int) -> Seq<char> {
    let a = if v < 0 {
        -v
    } else {
        v
    };
    let sign: Seq<char> = if v < 0 {
        seq!['-']
    } else {
        Seq::empty()
    };
    sign + dec_rep((a / 10000) as nat) + seq!['.'] + frac_rep((a % 10000) as nat)
}

fn digit_str(d: u8) -> (c: &'static str)
    requires
        d < 10,
    ensures
        c@ =~= seq![digit_char(d as int)],
{
    proof {
        reveal_strlit("0");
        reveal_strlit("1");
        reveal_strlit("2");
        reveal_strlit("3");
        reveal_strlit("4");
        reveal_strlit("5");
        reveal_strlit("6");
        reveal_strlit("7");
        reveal_strlit("8");
        reveal_strlit("9");
    }
    match d {
        0 => "0",
        1 => "1",
        2 => "2",
        3 => "3",
        4 => "4",
        5 => "5",
        6 => "6",
        7 => "7",
        8 => "8",
        _ => "9",
    }
}

fn push_digit(s: &mut String, d: u8)
    requires
        d < 10,
    ensures
        final(s)@ == old(s)@.push(digit_char(d as int)),
{
    let c = digit_str(d);
    s.append(c);
    proof {
        assert(final(s)@ =~= old(s)@.push(digit_char(d as int)));
    }
}

fn push_dec(s: &mut String, n: u128)
    ensures
        final(s)@ == old(s)@ + dec_rep(n as nat),
    decreases n,
{
    if n < 10 {
        push_digit(s, n as u8);
        proof {
            assert(final(s)@ =~= old(s)@ + dec_rep(n as nat));
        }
    } else {
        push_dec(s, n / 10);
        push_digit(s, (n % 10) as u8);
        proof {
            assert(final(s)@ =~= old(s)@ + dec_rep(n as nat));
        }
    }
}

/// The decimal rendering of an unsigned number.
pub fn decimal_string(n: u128) -> (r: String)
    ensures
        r@ == dec_rep(n as nat),
{
    let mut s = String::new();
    push_dec(&mut s, n);
    proof {
        assert(s@ =~= dec_rep(n as nat));
    }
    s
}

/// The fixed four-decimal-place rendering of a balance held in units of
/// 1/10000 of the currency, for the report.
pub fn format_fixed(v: i128) -> (r: String)
    requires
        v > i128::MIN,
    ensures
        r@ == fixed_rep(v as int),
{
    let mut s = String::new();
    let a: u128 = if v < 0 {
        proof {
            reveal_strlit("-");
        }
        s.append("-");
        (-v) as u128
    } else {
        v as u128
    };
    push_dec(&mut s, a / 10000);
    proof {
        reveal_strlit(".");
    }
    s.append(".");
    let f: u128 = a % 10000;
    push_digit(&mut s, (f / 1000) as u8);
    push_digit(&mut s, (f / 100 % 10) as u8);
    push_digit(&mut s, (f / 10 % 10) as u8);
    push_digit(&mut s, (f % 10) as u8);
    proof {
        assert(s@ =~= fixed_rep(v as int));
    }
    s
}

/// The lowercase rendering of a boolean, for the report's `locked` field.
pub fn bool_string(b: bool) -> (r: String)
    ensures
        r@ == if b {
            "true"@
        } else {
            "false"@
        },
{
    if b {
        String::from_str("true")
    } else {
        String::from_str("false")
    }
}

} // verus!
