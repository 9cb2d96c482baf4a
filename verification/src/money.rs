//! Amounts of money. The service keeps shillings with cents; here an
//! amount is a whole number of cents, and this module writes it out the
//! way the service's messages show it.

use vstd::prelude::*;

verus! {

/// The decimal digit character for `d < 10`.
pub open spec fn digit_char(d: nat) -> char {
    if d == 0 { '0' }
    else if d == 1 { '1' }
    else if d == 2 { '2' }
    else if d == 3 { '3' }
    else if d == 4 { '4' }
    else if d == 5 { '5' }
    else if d == 6 { '6' }
    else if d == 7 { '7' }
    else if d == 8 { '8' }
    else { '9' }
}

/// The decimal digits of `n`, most significant first, without leading zeros.
pub open spec fn digits(n: nat) -> Seq<char>
    decreases n,
{
    if n < 10 {
        seq![digit_char(n)]
    } else {
        digits(n / 10).push(digit_char(n % 10))
    }
}

fn digit(d: u64) -> (c: char)
    requires
        d < 10,
    ensures
        c == digit_char(d as nat),
{
    if d == 0 { '0' }
    else if d == 1 { '1' }
    else if d == 2 { '2' }
    else if d == 3 { '3' }
    else if d == 4 { '4' }
    else if d == 5 { '5' }
    else if d == 6 { '6' }
    else if d == 7 { '7' }
    else if d == 8 { '8' }
    else { '9' }
}

/// Appends the decimal digits of `n` to `s`.
pub fn push_digits(s: &mut String, n: u64)
    ensures
        final(s)@ == old(s)@ + digits(n as nat),
    decreases n,
{
    if n < 10 {
        s.push(digit(n));
    } else {
        push_digits(s, n / 10);
        s.push(digit(n % 10));
    }
}

/// The decimal form of a natural number.
pub fn nat_to_string(n: u64) -> (s: String)
    ensures
        s@ == digits(n as nat),
{
    let mut s = String::new();
    push_digits(&mut s, n);
    s
}

/// The sign of a negative amount.
pub open spec fn sign_of(cents: int) -> Seq<char> {
    if cents < 0 { "-"@ } else { ""@ }
}

/// The magnitude of an amount.
pub open spec fn magnitude(cents: int) -> nat {
    if cents < 0 { (-cents) as nat } else { cents as nat }
}

/// The two-digit cents part, `00` to `99`.
pub open spec fn two_digits(c: nat) -> Seq<char> {
    seq![digit_char(c / 10), digit_char(c % 10)]
}

/// An amount with exactly two decimals, as `{:.2}` shows it: `1250`
/// cents reads `12.50`.
pub open spec fn spec_amount_2dp(cents: int) -> Seq<char> {
    sign_of(cents) + digits(magnitude(cents) / 100) + "."@ + two_digits(magnitude(cents) % 100)
}

/// An amount in its shortest decimal form, as `{}` shows a shilling value
/// held to the cent: `10000` cents reads `100`, `1250` reads `12.5`, `1205`
/// reads `12.05`.
pub open spec fn spec_amount_short(cents: int) -> Seq<char> {
    let m = magnitude(cents);
    let frac = m % 100;
    let head = sign_of(cents) + digits(m / 100);
    if frac == 0 {
        head
    } else if frac % 10 == 0 {
        head + "."@ + seq![digit_char(frac / 10)]
    } else {
        head + "."@ + two_digits(frac)
    }
}

fn magnitude_of(cents: i64) -> (m: u64)
    ensures
        m as nat == magnitude(cents as int),
{
    if cents < 0 {
        (-(cents as i128)) as u64
    } else {
        cents as u64
    }
}

/// The amount with exactly two decimals.
pub fn amount_2dp(cents: i64) -> (s: String)
    ensures
        s@ == spec_amount_2dp(cents as int),
{
    let m = magnitude_of(cents);
    let mut s = String::new();
    if cents < 0 {
        s.push('-');
    }
    push_digits(&mut s, m / 100);
    s.push('.');
    let frac = m % 100;
    s.push(digit(frac / 10));
    s.push(digit(frac % 10));
    proof {
        reveal_strlit("-");
        reveal_strlit(".");
        reveal_strlit("");
        assert(s@ =~= spec_amount_2dp(cents as int));
    }
    s
}

/// The amount in its shortest decimal form.
pub fn amount_short(cents: i64) -> (s: String)
    ensures
        s@ == spec_amount_short(cents as int),
{
    let m = magnitude_of(cents);
    let mut s = String::new();
    if cents < 0 {
        s.push('-');
    }
    push_digits(&mut s, m / 100);
    let frac = m % 100;
    if frac != 0 {
        s.push('.');
        s.push(digit(frac / 10));
        if frac % 10 != 0 {
            s.push(digit(frac % 10));
        }
    }
    proof {
        reveal_strlit("-");
        reveal_strlit(".");
        reveal_strlit("");
        assert(s@ =~= spec_amount_short(cents as int));
    }
    s
}

} // verus!
