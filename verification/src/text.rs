//! Numbers as decimal text, for the texts of errors.
use vstd::prelude::*;
use vstd::string::*;

verus! {

/// The decimal digit `d` as text.
pub open spec fn digit(d: nat) -> Seq<char> {
    if d == 0 {
        "0"@
    } else if d == 1 {
        "1"@
    } else if d == 2 {
        "2"@
    } else if d == 3 {
        "3"@
    } else if d == 4 {
        "4"@
    } else if d == 5 {
        "5"@
    } else if d == 6 {
        "6"@
    } else if d == 7 {
        "7"@
    } else if d == 8 {
        "8"@
    } else {
        "9"@
    }
}

/// The decimal digits of `n` without leading zeros: none for 0.
pub open spec fn digits(n: nat) -> Seq<char>
    decreases n,
{
    if n == 0 {
        Seq::empty()
    } else {
        digits(n / 10) + digit(n % 10)
    }
}

/// `n` as decimal text.
pub open spec fn decimal(n: nat) -> Seq<char> {
    if n == 0 {
        "0"@
    } else {
        digits(n)
    }
}

/// The decimal digit `d` as text.
fn digit_text(d: u64) -> (r: &'static str)
    requires
        d < 10,
    ensures
        r@ == digit(d as nat),
{
    if d == 0 {
        "0"
    } else if d == 1 {
        "1"
    } else if d == 2 {
        "2"
    } else if d == 3 {
        "3"
    } else if d == 4 {
        "4"
    } else if d == 5 {
        "5"
    } else if d == 6 {
        "6"
    } else if d == 7 {
        "7"
    } else if d == 8 {
        "8"
    } else {
        "9"
    }
}

/// `n` as decimal text.
pub fn decimal_text(n: u64) -> (r: String)
    ensures
        r@ == decimal(n as nat),
{
    if n == 0 {
        return "0".to_owned();
    }
    let mut text = String::new();
    let mut rest = n;
    assert(digits(rest as nat) + text@ =~= digits(n as nat));
    while rest > 0
        invariant
            digits(n as nat) == digits(rest as nat) + text@,
        decreases rest,
    {
        let ghost before = text@;
        text = digit_text(rest % 10).to_owned().concat(text.as_str());
        assert(digits(rest as nat) + before =~= digits((rest / 10) as nat) + text@);
        rest = rest / 10;
    }
    assert(digits(0) + text@ =~= text@);
    text
}

} // verus!
