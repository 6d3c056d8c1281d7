use vstd::prelude::*;
use vstd::string::*;

verus! {

/// The delimiter a bar uses between its blocks unless told otherwise.
pub fn delimiter() -> (r: &'static str)
    ensures
        r@ == seq![' ', '|', ' '],
{
    proof {
        reveal_strlit(" | ");
    }
    " | "
}

/// The character of the decimal digit `d`.
pub open spec fn digit_char(d: int) -> char {
    seq!['0', '1', '2', '3', '4', '5', '6', '7', '8', '9'][d]
}

/// The decimal digits of `n`, without leading zeros.
pub open spec fn decimal(n: nat) -> Seq<char>
    decreases n,
{
    if n < 10 {
        seq![digit_char(n as int)]
    } else {
        decimal(n / 10).push(digit_char((n % 10) as int))
    }
}

/// `n` in decimal, with a leading zero when it has one digit.
pub open spec fn two_digits(n: nat) -> Seq<char> {
    if n < 10 {
        seq!['0', digit_char(n as int)]
    } else {
        decimal(n)
    }
}

/// A twelve-hour clock reading as `hh:mm:ss AM` or `hh:mm:ss PM`.
pub open spec fn clock_text(hour: nat, minute: nat, second: nat, is_pm: bool) -> Seq<char> {
    two_digits(hour) + seq![':'] + two_digits(minute) + seq![':'] + two_digits(second) + if is_pm {
        seq![' ', 'P', 'M']
    } else {
        seq![' ', 'A', 'M']
    }
}

fn digit_str(d: u32) -> (r: &'static str)
    requires
        d < 10,
    ensures
        r@ == seq![digit_char(d as int)],
{
    proof {
        reveal_strlit("0");
        reveal_strlit("1");
        reveal_strlit("2");
        reveal_strlit("3");
        reveal_strlit("4");
        reveal_strlit("5");
        reveal_strlit("6");
        reveal_strlit("7");
        reveal_strlit("8");
        reveal_strlit("9");
    }
    let r = match d {
        0 => "0",
        1 => "1",
        2 => "2",
        3 => "3",
        4 => "4",
        5 => "5",
        6 => "6",
        7 => "7",
        8 => "8",
        _ => "9",
    };
    assert(r@ =~= seq![digit_char(d as int)]);
    r
}

fn push_decimal(out: &mut String, n: u32)
    ensures
        final(out)@ == old(out)@ + decimal(n as nat),
    decreases n,
{
    if n >= 10 {
        push_decimal(out, n / 10);
    }
    out.append(digit_str(n % 10));
    assert(final(out)@ =~= old(out)@ + decimal(n as nat));
}

fn push_two_digits(out: &mut String, n: u32)
    ensures
        final(out)@ == old(out)@ + two_digits(n as nat),
{
    if n < 10 {
        out.append(digit_str(0));
    }
    push_decimal(out, n);
    assert(final(out)@ =~= old(out)@ + two_digits(n as nat));
}

/// Formats a twelve-hour clock reading, each field with at least two digits.
pub fn clock_label(hour: u32, minute: u32, second: u32, is_pm: bool) -> (r: String)
    ensures
        r@ == clock_text(hour as nat, minute as nat, second as nat, is_pm),
{
    let mut out = String::new();
    proof {
        reveal_strlit(":");
        reveal_strlit(" PM");
        reveal_strlit(" AM");
    }
    push_two_digits(&mut out, hour);
    out.append(":");
    push_two_digits(&mut out, minute);
    out.append(":");
    push_two_digits(&mut out, second);
    if is_pm {
        out.append(" PM");
    } else {
        out.append(" AM");
    }
    assert(out@ =~= clock_text(hour as nat, minute as nat, second as nat, is_pm));
    out
}

} // verus!
