//! Decimal text for fixed-point quantities.
//!
//! A fixed-point value `v` with `exp` fractional digits stands for `v / 10^exp`.
//! It is printed with a chosen number of decimal places, rounded to the nearest
//! representable value, ties to even.
use vstd::prelude::*;
use vstd::string::StringExecFns;

verus! {

/// `10^n`.
pub open spec fn pow10(n: nat) -> nat
    decreases n,
{
    if n == 0 {
        1
    } else {
        10 * pow10((n - 1) as nat)
    }
}

/// The character of a decimal digit.
pub open spec fn digit_char(d: nat) -> char {
    if d == 0 {
        '0'
    } else if d == 1 {
        '1'
    } else if d == 2 {
        '2'
    } else if d == 3 {
        '3'
    } else if d == 4 {
        '4'
    } else if d == 5 {
        '5'
    } else if d == 6 {
        '6'
    } else if d == 7 {
        '7'
    } else if d == 8 {
        '8'
    } else {
        '9'
    }
}

/// The decimal digits of `n`, most significant first, without leading zeros.
pub open spec fn digits(n: nat) -> Seq<char>
    decreases n,
{
    if n < 10 {
        seq![digit_char(n)]
    } else {
        digits(n / 10).push(digit_char(n % 10))
    }
}

/// The last `width` decimal digits of `n`, padded with zeros on the left.
pub open spec fn padded_digits(n: nat, width: nat) -> Seq<char>
    decreases width,
{
    if width == 0 {
        seq![]
    } else {
        padded_digits(n / 10, (width - 1) as nat).push(digit_char(n % 10))
    }
}

/// `v / d` rounded to the nearest integer, ties to the even one.
pub open spec fn round_half_even(v: nat, d: nat) -> nat
    recommends
        d > 0,
{
    let q = v / d;
    let r = v % d;
    if 2 * r > d {
        q + 1
    } else if 2 * r < d {
        q
    } else if q % 2 == 0 {
        q
    } else {
        q + 1
    }
}

/// Text of `n / 10^places` with exactly `places` decimals.
pub open spec fn scaled_text(n: nat, places: nat) -> Seq<char> {
    if places == 0 {
        digits(n)
    } else {
        digits(n / pow10(places)) + seq!['.'] + padded_digits(n % pow10(places), places)
    }
}

/// Text of the fixed-point value `v` (with `exp` fractional digits) printed
/// with `places` decimals; a minus sign leads a negative value.
pub open spec fn fixed_text(v: int, exp: nat, places: nat) -> Seq<char>
    recommends
        places <= exp,
{
    let mag: nat = if v < 0 {
        (-v) as nat
    } else {
        v as nat
    };
    let rounded = round_half_even(mag, pow10((exp - places) as nat));
    if v < 0 {
        seq!['-'] + scaled_text(rounded, places)
    } else {
        scaled_text(rounded, places)
    }
}

fn digit_str(d: u128) -> (r: &'static str)
    requires
        d < 10,
    ensures
        r@ == seq![digit_char(d as nat)],
{
    proof {
        reveal_strlit("0");
        reveal_strlit("1");
        reveal_strlit("2");
        reveal_strlit("3");
        reveal_strlit("4");
        reveal_strlit("5");
        reveal_strlit("6");
        reveal_strlit("7");
        reveal_strlit("8");
        reveal_strlit("9");
    }
    if d == 0 {
        "0"
    } else if d == 1 {
        "1"
    } else if d == 2 {
        "2"
    } else if d == 3 {
        "3"
    } else if d == 4 {
        "4"
    } else if d == 5 {
        "5"
    } else if d == 6 {
        "6"
    } else if d == 7 {
        "7"
    } else if d == 8 {
        "8"
    } else {
        "9"
    }
}

fn push_digits(out: &mut String, n: u128)
    ensures
        final(out)@ == old(out)@ + digits(n as nat),
    decreases n,
{
    if n >= 10 {
        push_digits(out, n / 10);
    }
    out.append(digit_str(n % 10));
    assert(final(out)@ =~= old(out)@ + digits(n as nat));
}

fn push_padded(out: &mut String, n: u128, width: u32)
    ensures
        final(out)@ == old(out)@ + padded_digits(n as nat, width as nat),
    decreases width,
{
    if width > 0 {
        push_padded(out, n / 10, width - 1);
        out.append(digit_str(n % 10));
    }
    assert(final(out)@ =~= old(out)@ + padded_digits(n as nat, width as nat));
}

fn pow10_exec(n: u32) -> (r: u128)
    requires
        n <= 38,
    ensures
        r == pow10(n as nat),
{
    let mut r: u128 = 1;
    let mut i: u32 = 0;
    proof {
        lemma_pow10_mono(0, 38);
        lemma_pow10_38();
    }
    while i < n
        invariant
            i <= n <= 38,
            r == pow10(i as nat),
            r <= pow10(38),
            pow10(38) == 100000000000000000000000000000000000000,
        decreases n - i,
    {
        proof {
            lemma_pow10_mono(i as nat + 1, 38);
        }
        r = r * 10;
        i = i + 1;
    }
    r
}

proof fn lemma_pow10_38()
    ensures
        pow10(38) == 100000000000000000000000000000000000000,
{
    reveal_with_fuel(pow10, 39);
}

/// `10^a <= 10^b` when `a <= b`.
proof fn lemma_pow10_mono(a: nat, b: nat)
    requires
        a <= b,
    ensures
        pow10(a) <= pow10(b),
        pow10(a) >= 1,
    decreases b,
{
    if a < b {
        lemma_pow10_mono(a, (b - 1) as nat);
    }
    if b > 0 {
        lemma_pow10_mono(0, (b - 1) as nat);
    }
}

/// Writes the fixed-point value `v` (with `exp` fractional digits) with
/// `places` decimals.
pub fn format_fixed(v: i128, exp: u32, places: u32) -> (r: String)
    requires
        places <= exp <= 38,
    ensures
        r@ == fixed_text(v as int, exp as nat, places as nat),
{
    proof {
        reveal_strlit("-");
        reveal_strlit(".");
        lemma_pow10_mono((exp - places) as nat, 38);
        lemma_pow10_mono(places as nat, 38);
    }
    let mag: u128 = if v < 0 {
        ((-(v + 1)) as u128) + 1
    } else {
        v as u128
    };
    let d = pow10_exec(exp - places);
    let q = mag / d;
    let rem = mag % d;
    let rounded: u128 = if rem > d - rem {
        q + 1
    } else if rem < d - rem {
        q
    } else if q % 2 == 0 {
        q
    } else {
        q + 1
    };
    let mut out = String::new();
    if v < 0 {
        out.append("-");
    }
    if places == 0 {
        push_digits(&mut out, rounded);
    } else {
        let p = pow10_exec(places);
        push_digits(&mut out, rounded / p);
        out.append(".");
        push_padded(&mut out, rounded % p, places);
    }
    proof {
        assert(out@ =~= fixed_text(v as int, exp as nat, places as nat));
    }
    out
}

} // verus!
