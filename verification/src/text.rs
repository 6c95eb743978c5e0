//! Decimal text of unsigned numbers, as it appears in sizes and wire frames.

use vstd::prelude::*;
use vstd::string::StringExecFns;

verus! {

/// The character of one decimal digit.
pub open spec fn digit_char(d: nat) -> char
    recommends
        d < 10,
{
    if d == 0 {
        '0'
    } else if d == 1 {
        '1'
    } else if d == 2 {
        '2'
    } else if d == 3 {
        '3'
    } else if d == 4 {
        '4'
    } else if d == 5 {
        '5'
    } else if d == 6 {
        '6'
    } else if d == 7 {
        '7'
    } else if d == 8 {
        '8'
    } else {
        '9'
    }
}

/// The decimal digits of `n`, most significant first, without leading zeros.
pub open spec fn decimal_text(n: nat) -> Seq<char>
    decreases n,
{
    if n < 10 {
        seq![digit_char(n)]
    } else {
        decimal_text(n / 10).push(digit_char(n % 10))
    }
}

/// Digits collected least significant first, read most significant first.
pub open spec fn reversed_digits(digits: Seq<u8>) -> Seq<char> {
    Seq::new(digits.len(), |i: int| digit_char(digits[digits.len() - 1 - i] as nat))
}

/// A number has at least one digit, and only digits.
pub proof fn lemma_decimal_text_digits(n: nat)
    ensures
        decimal_text(n).len() >= 1,
        forall|i: int|
            0 <= i < decimal_text(n).len() ==> '0' <= #[trigger] decimal_text(n)[i] <= '9',
        n > 0 ==> decimal_text(n)[0] != '0',
    decreases n,
{
    if n >= 10 {
        lemma_decimal_text_digits(n / 10);
    }
}

pub(crate) fn digit_str(d: u8) -> (s: &'static str)
    requires
        d < 10,
    ensures
        s@ == seq![digit_char(d as nat)],
{
    proof {
        reveal_strlit("0");
        reveal_strlit("1");
        reveal_strlit("2");
        reveal_strlit("3");
        reveal_strlit("4");
        reveal_strlit("5");
        reveal_strlit("6");
        reveal_strlit("7");
        reveal_strlit("8");
        reveal_strlit("9");
    }
    let s = if d == 0 {
        "0"
    } else if d == 1 {
        "1"
    } else if d == 2 {
        "2"
    } else if d == 3 {
        "3"
    } else if d == 4 {
        "4"
    } else if d == 5 {
        "5"
    } else if d == 6 {
        "6"
    } else if d == 7 {
        "7"
    } else if d == 8 {
        "8"
    } else {
        "9"
    };
    assert(s@ =~= seq![digit_char(d as nat)]);
    s
}

/// Appends the decimal text of `n` to `out`.
pub fn push_decimal(out: &mut String, n: u64)
    ensures
        final(out)@ == old(out)@ + decimal_text(n as nat),
{
    let mut digits: Vec<u8> = Vec::new();
    let mut rest: u64 = n;
    proof {
        assert(decimal_text(n as nat) =~= decimal_text(rest as nat) + reversed_digits(digits@));
    }
    while rest >= 10
        invariant
            decimal_text(n as nat) == decimal_text(rest as nat) + reversed_digits(digits@),
            forall|k: int| 0 <= k < digits@.len() ==> digits@[k] < 10,
        decreases rest,
    {
        let d: u8 = (rest % 10) as u8;
        proof {
            let grown = digits@.push(d);
            assert(reversed_digits(grown) =~= seq![digit_char(d as nat)] + reversed_digits(
                digits@,
            ));
            assert(decimal_text(rest as nat) == decimal_text((rest / 10) as nat).push(
                digit_char(d as nat),
            ));
            assert(decimal_text(n as nat) =~= decimal_text((rest / 10) as nat) + reversed_digits(
                grown,
            ));
        }
        digits.push(d);
        rest = rest / 10;
    }
    proof {
        let d = rest as u8;
        let grown = digits@.push(d);
        assert(reversed_digits(grown) =~= seq![digit_char(d as nat)] + reversed_digits(digits@));
        assert(decimal_text(n as nat) =~= reversed_digits(grown));
    }
    digits.push(rest as u8);
    let len = digits.len();
    let mut i: usize = len;
    proof {
        assert(old(out)@ + reversed_digits(digits@).take(0) =~= old(out)@);
    }
    while i > 0
        invariant
            i <= len == digits@.len(),
            forall|k: int| 0 <= k < digits@.len() ==> digits@[k] < 10,
            out@ == old(out)@ + reversed_digits(digits@).take(len - i),
        decreases i,
    {
        i = i - 1;
        let s = digit_str(digits[i]);
        proof {
            let text = reversed_digits(digits@);
            assert(text.take(len - i) =~= text.take(len - i - 1) + s@);
            assert(old(out)@ + text.take(len - i) =~= (old(out)@ + text.take(len - i - 1)) + s@);
        }
        out.append(s);
    }
    proof {
        let text = reversed_digits(digits@);
        assert(text.take(len as int) =~= text);
    }
}

/// The decimal text of `n`.
pub fn decimal(n: u64) -> (text: String)
    ensures
        text@ == decimal_text(n as nat),
{
    let mut out = String::new();
    push_decimal(&mut out, n);
    proof {
        assert(Seq::<char>::empty() + decimal_text(n as nat) =~= decimal_text(n as nat));
    }
    out
}

/// Number of microseconds in a second.
pub const MICROS_PER_SECOND: u64 = 1000000;

/// The digits of a fraction whose first digit weighs `scale`, most
/// significant first, without trailing zeros.
pub open spec fn fraction_text(frac: nat, scale: nat) -> Seq<char>
    decreases scale,
{
    if frac == 0 || scale == 0 {
        Seq::empty()
    } else {
        seq![digit_char(frac / scale)] + fraction_text(frac % scale, scale / 10)
    }
}

/// A count of microseconds written as seconds: the whole seconds in decimal,
/// then, where the count is no whole number of seconds, a point and the
/// fraction in as few digits as it takes.
pub open spec fn seconds_text(micros: nat) -> Seq<char> {
    let whole = micros / (MICROS_PER_SECOND as nat);
    let frac = micros % (MICROS_PER_SECOND as nat);
    if frac == 0 {
        decimal_text(whole)
    } else {
        decimal_text(whole) + seq!['.'] + fraction_text(frac, 100000)
    }
}

/// Appends `micros` microseconds, written as seconds, to `out`.
pub fn push_seconds(out: &mut String, micros: u64)
    ensures
        final(out)@ == old(out)@ + seconds_text(micros as nat),
{
    let whole: u64 = micros / MICROS_PER_SECOND;
    let frac: u64 = micros % MICROS_PER_SECOND;
    push_decimal(out, whole);
    if frac != 0 {
        proof {
            reveal_strlit(".");
            assert("."@ =~= seq!['.']);
        }
        out.append(".");
        let ghost head = out@;
        let mut rest: u64 = frac;
        let mut scale: u64 = 100000;
        proof {
            assert(head + fraction_text(frac as nat, 100000) =~= out@ + fraction_text(
                rest as nat,
                scale as nat,
            ));
        }
        while rest != 0 && scale != 0
            invariant
                rest == 0 || rest < 10 * scale,
                scale == 100000 || scale == 10000 || scale == 1000 || scale == 100 || scale == 10
                    || scale == 1 || scale == 0,
                out@ + fraction_text(rest as nat, scale as nat) == head + fraction_text(
                    frac as nat,
                    100000,
                ),
            decreases scale,
        {
            assert(rest / scale < 10) by (nonlinear_arith)
                requires
                    rest < 10 * scale,
                    scale > 0,
            ;
            let d: u8 = (rest / scale) as u8;
            let s = digit_str(d);
            proof {
                assert(out@ + fraction_text(rest as nat, scale as nat) =~= (out@ + s@)
                    + fraction_text((rest % scale) as nat, (scale / 10) as nat));
            }
            out.append(s);
            rest = rest % scale;
            scale = scale / 10;
        }
        proof {
            assert(fraction_text(rest as nat, scale as nat) =~= Seq::<char>::empty()) by {
                if rest != 0 {
                    assert(scale == 0);
                }
            }
            assert(out@ + Seq::<char>::empty() =~= out@);
            assert(final(out)@ =~= old(out)@ + (decimal_text(whole as nat) + seq!['.']
                + fraction_text(frac as nat, 100000)));
        }
    }
}

} // verus!
