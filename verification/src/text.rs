//! Decimal rendering of integers and the error messages built from it.
use vstd::prelude::*;

verus! {

/// The character of a decimal digit.
pub open spec fn digit_char(d: nat) -> char
    recommends
        d < 10,
{
    if d == 0 { '0' }
    else if d == 1 { '1' }
    else if d == 2 { '2' }
    else if d == 3 { '3' }
    else if d == 4 { '4' }
    else if d == 5 { '5' }
    else if d == 6 { '6' }
    else if d == 7 { '7' }
    else if d == 8 { '8' }
    else { '9' }
}

/// The decimal digits of a natural number, most significant first, without leading zeros
/// (zero is written `0`).
pub open spec fn nat_digits(n: nat) -> Seq<char>
    decreases n,
{
    if n < 10 {
        seq![digit_char(n)]
    } else {
        nat_digits(n / 10).push(digit_char(n % 10))
    }
}

/// How `{}` writes an integer: an optional minus sign, then its decimal digits.
pub open spec fn int_repr(n: int) -> Seq<char> {
    if n < 0 {
        seq!['-'] + nat_digits((-n) as nat)
    } else {
        nat_digits(n as nat)
    }
}

fn digit_str(d: u64) -> (s: &'static str)
    requires
        d < 10,
    ensures
        s@ == seq![digit_char(d as nat)],
{
    proof {
        reveal_strlit("0");
        reveal_strlit("1");
        reveal_strlit("2");
        reveal_strlit("3");
        reveal_strlit("4");
        reveal_strlit("5");
        reveal_strlit("6");
        reveal_strlit("7");
        reveal_strlit("8");
        reveal_strlit("9");
    }
    if d == 0 { "0" }
    else if d == 1 { "1" }
    else if d == 2 { "2" }
    else if d == 3 { "3" }
    else if d == 4 { "4" }
    else if d == 5 { "5" }
    else if d == 6 { "6" }
    else if d == 7 { "7" }
    else if d == 8 { "8" }
    else { "9" }
}

fn append_digits(out: &mut String, n: u64)
    ensures
        final(out)@ == old(out)@ + nat_digits(n as nat),
    decreases n,
{
    if n >= 10 {
        append_digits(out, n / 10);
    }
    out.append(digit_str(n % 10));
    proof {
        assert(old(out)@ + nat_digits(n as nat) =~= if n >= 10 {
            old(out)@ + nat_digits((n / 10) as nat) + seq![digit_char((n % 10) as nat)]
        } else {
            old(out)@ + seq![digit_char((n % 10) as nat)]
        });
    }
}

/// Appends the decimal form of `n` to `out`.
pub fn append_int(out: &mut String, n: i64)
    ensures
        final(out)@ == old(out)@ + int_repr(n as int),
{
    if n < 0 {
        proof {
            reveal_strlit("-");
        }
        out.append("-");
        let magnitude: u64 = if n == i64::MIN {
            9223372036854775808u64
        } else {
            (-n) as u64
        };
        append_digits(out, magnitude);
        assert(out@ =~= old(out)@ + int_repr(n as int));
    } else {
        append_digits(out, n as u64);
    }
}

/// `prefix` followed by the decimal form of `code`, as `format!("{prefix}{code}")` writes it.
pub fn message_with_code(prefix: &str, code: i64) -> (m: String)
    ensures
        m@ == prefix@ + int_repr(code as int),
{
    let mut m = String::from_str(prefix);
    append_int(&mut m, code);
    m
}

} // verus!
