//! Decimal rendering of fixed-point numeric values.
//!
//! A numeric value is held as an integer count of millionths (see the
//! `numbers` module); its canonical text is the plain decimal form with
//! trailing fractional zeros removed, `-` for negative values, and no
//! exponent.

use vstd::prelude::*;

verus! {

pub open spec fn abs_int(x: int) -> int {
    if x < 0 {
        -x
    } else {
        x
    }
}

pub open spec fn dec_digit_char(d: int) -> char {
    if d == 0 {
        '0'
    } else if d == 1 {
        '1'
    } else if d == 2 {
        '2'
    } else if d == 3 {
        '3'
    } else if d == 4 {
        '4'
    } else if d == 5 {
        '5'
    } else if d == 6 {
        '6'
    } else if d == 7 {
        '7'
    } else if d == 8 {
        '8'
    } else {
        '9'
    }
}

/// Decimal digits of `n`, most significant first, no leading zeros
/// (a single `0` for zero).
pub open spec fn dec_rep(n: nat) -> Seq<char>
    decreases n,
{
    if n < 10 {
        seq![dec_digit_char(n as int)]
    } else {
        dec_rep(n / 10).push(dec_digit_char((n % 10) as int))
    }
}

/// The last `w` decimal digits of `n`, zero padded to exactly `w` characters.
pub open spec fn padded_rep(n: nat, w: nat) -> Seq<char>
    decreases w,
{
    if w == 0 {
        Seq::empty()
    } else {
        padded_rep(n / 10, (w - 1) as nat).push(dec_digit_char((n % 10) as int))
    }
}

/// Drops trailing decimal zeros from a fraction of `w` digits with value `f`,
/// keeping at least one digit.
pub open spec fn frac_strip(f: nat, w: nat) -> (nat, nat)
    decreases w,
{
    if w > 1 && f % 10 == 0 {
        frac_strip(f / 10, (w - 1) as nat)
    } else {
        (f, w)
    }
}

/// Canonical decimal text of a value held as millionths.
pub open spec fn css_decimal_chars(units: int) -> Seq<char> {
    let m = abs_int(units) as nat;
    let ip = m / 1000000;
    let fp = m % 1000000;
    let sign: Seq<char> = if units < 0 {
        seq!['-']
    } else {
        Seq::empty()
    };
    if fp == 0 {
        sign + dec_rep(ip)
    } else {
        let fw = frac_strip(fp, 6);
        sign + dec_rep(ip) + seq!['.'] + padded_rep(fw.0, fw.1)
    }
}

// --- injectivity: values that print identically are equal ---------------

pub open spec fn is_dec_digit_char(c: char) -> bool {
    ||| c == '0'
    ||| c == '1'
    ||| c == '2'
    ||| c == '3'
    ||| c == '4'
    ||| c == '5'
    ||| c == '6'
    ||| c == '7'
    ||| c == '8'
    ||| c == '9'
}

pub open spec fn pow10(w: nat) -> int
    decreases w,
{
    if w == 0 {
        1
    } else {
        10 * pow10((w - 1) as nat)
    }
}

proof fn lemma_dec_rep_digits(n: nat)
    ensures
        dec_rep(n).len() >= 1,
        forall|i: int| 0 <= i < dec_rep(n).len() ==> is_dec_digit_char(#[trigger] dec_rep(n)[i]),
        n < 10 <==> dec_rep(n).len() == 1,
    decreases n,
{
    if n >= 10 {
        lemma_dec_rep_digits(n / 10);
    }
}

proof fn lemma_padded_rep_digits(n: nat, w: nat)
    ensures
        padded_rep(n, w).len() == w,
        forall|i: int|
            0 <= i < padded_rep(n, w).len() ==> is_dec_digit_char(#[trigger] padded_rep(n, w)[i]),
    decreases w,
{
    if w > 0 {
        lemma_padded_rep_digits(n / 10, (w - 1) as nat);
    }
}

proof fn lemma_dec_rep_injective(a: nat, b: nat)
    requires
        dec_rep(a) == dec_rep(b),
    ensures
        a == b,
    decreases a,
{
    lemma_dec_rep_digits(a);
    lemma_dec_rep_digits(b);
    if a < 10 && b < 10 {
        assert(dec_rep(a)[0] == dec_digit_char(a as int));
        assert(dec_rep(b)[0] == dec_digit_char(b as int));
    } else if a >= 10 && b >= 10 {
        assert(dec_rep(a).last() == dec_digit_char((a % 10) as int));
        assert(dec_rep(b).last() == dec_digit_char((b % 10) as int));
        assert(dec_rep(a).drop_last() =~= dec_rep(a / 10));
        assert(dec_rep(b).drop_last() =~= dec_rep(b / 10));
        lemma_dec_rep_injective(a / 10, b / 10);
        assert(a == 10 * (a / 10) + a % 10) by (nonlinear_arith);
        assert(b == 10 * (b / 10) + b % 10) by (nonlinear_arith);
    }
}

proof fn lemma_padded_rep_injective(a: nat, b: nat, w: nat)
    requires
        padded_rep(a, w) == padded_rep(b, w),
        a < pow10(w),
        b < pow10(w),
    ensures
        a == b,
    decreases w,
{
    if w == 0 {
    } else {
        lemma_padded_rep_digits(a, w);
        lemma_padded_rep_digits(b, w);
        assert(padded_rep(a, w).last() == dec_digit_char((a % 10) as int));
        assert(padded_rep(b, w).last() == dec_digit_char((b % 10) as int));
        assert(padded_rep(a, w).drop_last() =~= padded_rep(a / 10, (w - 1) as nat));
        assert(padded_rep(b, w).drop_last() =~= padded_rep(b / 10, (w - 1) as nat));
        assert(a / 10 < pow10((w - 1) as nat) && b / 10 < pow10((w - 1) as nat))
            by (nonlinear_arith)
            requires
                a < 10 * pow10((w - 1) as nat),
                b < 10 * pow10((w - 1) as nat),
                pow10((w - 1) as nat) >= 0,
        ;
        lemma_padded_rep_injective(a / 10, b / 10, (w - 1) as nat);
        assert(a == 10 * (a / 10) + a % 10) by (nonlinear_arith);
        assert(b == 10 * (b / 10) + b % 10) by (nonlinear_arith);
    }
}

/// What stripping trailing zeros leaves: a width within bounds, a value
/// that fits it, and the original fraction recoverable by re-padding.
proof fn lemma_frac_strip_props(f: nat, w: nat)
    requires
        1 <= w,
        f < pow10(w),
    ensures
        1 <= frac_strip(f, w).1 <= w,
        frac_strip(f, w).0 < pow10(frac_strip(f, w).1),
        f == frac_strip(f, w).0 * pow10((w - frac_strip(f, w).1) as nat),
    decreases w,
{
    if w > 1 && f % 10 == 0 {
        assert(f / 10 < pow10((w - 1) as nat)) by (nonlinear_arith)
            requires
                f < 10 * pow10((w - 1) as nat),
                pow10((w - 1) as nat) >= 0,
        ;
        lemma_frac_strip_props(f / 10, (w - 1) as nat);
        let g = frac_strip(f, w).0;
        let v = frac_strip(f, w).1;
        assert(f / 10 == g * pow10((w - 1 - v) as nat));
        assert(f == 10 * (f / 10) + f % 10) by (nonlinear_arith);
        assert(f == 10 * (g * pow10((w - 1 - v) as nat)));
        assert(10 * (g * pow10((w - 1 - v) as nat)) == g * (10 * pow10((w - 1 - v) as nat)))
            by (nonlinear_arith);
        assert(pow10((w - v) as nat) == 10 * pow10((w - v - 1) as nat));
    } else {
        assert(pow10(0nat) == 1);
        assert(f * 1 == f) by (nonlinear_arith);
    }
}

/// The text after any sign: integer part, and the stripped fraction where
/// one exists.
pub open spec fn magnitude_chars(m: nat) -> Seq<char> {
    let ip = m / 1000000;
    let fp = m % 1000000;
    if fp == 0 {
        dec_rep(ip)
    } else {
        let fw = frac_strip(fp, 6);
        dec_rep(ip) + seq!['.'] + padded_rep(fw.0, fw.1)
    }
}

proof fn lemma_css_decimal_chars_decomposition(u: int)
    ensures
        u < 0 ==> css_decimal_chars(u) == seq!['-'] + magnitude_chars(abs_int(u) as nat),
        u >= 0 ==> css_decimal_chars(u) == magnitude_chars(abs_int(u) as nat),
{
    let m = abs_int(u) as nat;
    let fp = m % 1000000;
    if fp == 0 {
        if u < 0 {
            assert(css_decimal_chars(u) =~= seq!['-'] + magnitude_chars(m));
        } else {
            assert(css_decimal_chars(u) =~= magnitude_chars(m));
        }
    } else {
        if u < 0 {
            assert(css_decimal_chars(u) =~= seq!['-'] + magnitude_chars(m));
        } else {
            assert(css_decimal_chars(u) =~= magnitude_chars(m));
        }
    }
}

proof fn lemma_magnitude_chars_injective(ma: nat, mb: nat)
    requires
        magnitude_chars(ma) == magnitude_chars(mb),
    ensures
        ma == mb,
{
    let ipa = ma / 1000000;
    let fpa = ma % 1000000;
    let ipb = mb / 1000000;
    let fpb = mb % 1000000;
    lemma_dec_rep_digits(ipa);
    lemma_dec_rep_digits(ipb);
    assert(ma == 1000000 * ipa + fpa);
    assert(mb == 1000000 * ipb + fpb);
    assert(fpa < 1000000 && fpb < 1000000);
    assert(pow10(0) == 1);
    assert(pow10(1) == 10);
    assert(pow10(2) == 100);
    assert(pow10(3) == 1000);
    assert(pow10(4) == 10000);
    assert(pow10(5) == 100000);
    assert(pow10(6) == 1000000);
    if fpa == 0 && fpb == 0 {
        lemma_dec_rep_injective(ipa, ipb);
    } else if fpa == 0 && fpb != 0 {
        lemma_frac_strip_props(fpb, 6);
        let rep_b = dec_rep(ipb);
        let lb = rep_b.len() as int;
        assert(magnitude_chars(mb)[lb] == '.');
        assert(is_dec_digit_char(magnitude_chars(ma)[lb]));
        assert(false);
    } else if fpa != 0 && fpb == 0 {
        lemma_frac_strip_props(fpa, 6);
        let rep_a = dec_rep(ipa);
        let la = rep_a.len() as int;
        assert(magnitude_chars(ma)[la] == '.');
        assert(is_dec_digit_char(magnitude_chars(mb)[la]));
        assert(false);
    } else {
        lemma_frac_strip_props(fpa, 6);
        lemma_frac_strip_props(fpb, 6);
        let ga = frac_strip(fpa, 6).0;
        let va = frac_strip(fpa, 6).1;
        let gb = frac_strip(fpb, 6).0;
        let vb = frac_strip(fpb, 6).1;
        lemma_padded_rep_digits(ga, va);
        lemma_padded_rep_digits(gb, vb);
        let rep_a = dec_rep(ipa);
        let rep_b = dec_rep(ipb);
        let la = rep_a.len() as int;
        let lb = rep_b.len() as int;
        if la < lb {
            assert(magnitude_chars(ma)[la] == '.');
            assert(magnitude_chars(mb)[la] == rep_b[la]);
            assert(is_dec_digit_char(rep_b[la]));
            assert(false);
        }
        if lb < la {
            assert(magnitude_chars(mb)[lb] == '.');
            assert(magnitude_chars(ma)[lb] == rep_a[lb]);
            assert(is_dec_digit_char(rep_a[lb]));
            assert(false);
        }
        assert(la == lb);
        assert(magnitude_chars(ma).len() == la + 1 + va);
        assert(magnitude_chars(mb).len() == lb + 1 + vb);
        assert(va == vb);
        assert forall|i: int| 0 <= i < la implies rep_a[i] == rep_b[i] by {
            assert(magnitude_chars(ma)[i] == rep_a[i]);
            assert(magnitude_chars(mb)[i] == rep_b[i]);
        }
        assert(rep_a =~= rep_b);
        lemma_dec_rep_injective(ipa, ipb);
        assert forall|i: int| 0 <= i < va implies padded_rep(ga, va)[i] == padded_rep(
            gb,
            vb,
        )[i] by {
            assert(magnitude_chars(ma)[la + 1 + i] == padded_rep(ga, va)[i]);
            assert(magnitude_chars(mb)[lb + 1 + i] == padded_rep(gb, vb)[i]);
        }
        assert(padded_rep(ga, va) =~= padded_rep(gb, vb));
        lemma_padded_rep_injective(ga, gb, va);
        assert(fpa == ga * pow10((6 - va) as nat));
        assert(fpb == gb * pow10((6 - vb) as nat));
    }
}

/// The canonical decimal text is injective: two unit counts that print
/// identically are the same count, so values that print identically always
/// compare equal.
pub proof fn lemma_css_decimal_chars_injective(a: int, b: int)
    requires
        css_decimal_chars(a) == css_decimal_chars(b),
    ensures
        a == b,
{
    lemma_css_decimal_chars_decomposition(a);
    lemma_css_decimal_chars_decomposition(b);
    let ma = abs_int(a) as nat;
    let mb = abs_int(b) as nat;
    let ipa = ma / 1000000;
    let ipb = mb / 1000000;
    lemma_dec_rep_digits(ipa);
    lemma_dec_rep_digits(ipb);
    assert(magnitude_chars(ma)[0] == dec_rep(ipa)[0] && is_dec_digit_char(magnitude_chars(ma)[0]));
    assert(magnitude_chars(mb)[0] == dec_rep(ipb)[0] && is_dec_digit_char(magnitude_chars(mb)[0]));
    if a < 0 && b >= 0 {
        assert(css_decimal_chars(a)[0] == '-');
        assert(css_decimal_chars(b)[0] == magnitude_chars(mb)[0]);
        assert(false);
    }
    if a >= 0 && b < 0 {
        assert(css_decimal_chars(b)[0] == '-');
        assert(css_decimal_chars(a)[0] == magnitude_chars(ma)[0]);
        assert(false);
    }
    if a < 0 && b < 0 {
        assert(css_decimal_chars(a) == seq!['-'] + magnitude_chars(ma));
        assert(css_decimal_chars(b) == seq!['-'] + magnitude_chars(mb));
        assert((seq!['-'] + magnitude_chars(ma)).len() == 1 + magnitude_chars(ma).len());
        assert((seq!['-'] + magnitude_chars(mb)).len() == 1 + magnitude_chars(mb).len());
        assert(magnitude_chars(ma).len() == magnitude_chars(mb).len());
        assert forall|i: int| 0 <= i < magnitude_chars(ma).len() implies magnitude_chars(
            ma,
        )[i] == magnitude_chars(mb)[i] by {
            assert((seq!['-'] + magnitude_chars(ma))[i + 1] == magnitude_chars(ma)[i]);
            assert((seq!['-'] + magnitude_chars(mb))[i + 1] == magnitude_chars(mb)[i]);
        }
        assert(magnitude_chars(ma) =~= magnitude_chars(mb));
        lemma_magnitude_chars_injective(ma, mb);
    } else {
        lemma_magnitude_chars_injective(ma, mb);
    }
}

fn push_dec_digit(s: &mut String, d: u64)
    requires
        d < 10,
    ensures
        final(s)@ == old(s)@ + seq![dec_digit_char(d as int)],
{
    proof {
        reveal_strlit("0");
        reveal_strlit("1");
        reveal_strlit("2");
        reveal_strlit("3");
        reveal_strlit("4");
        reveal_strlit("5");
        reveal_strlit("6");
        reveal_strlit("7");
        reveal_strlit("8");
        reveal_strlit("9");
    }
    if d == 0 {
        s.append("0");
    } else if d == 1 {
        s.append("1");
    } else if d == 2 {
        s.append("2");
    } else if d == 3 {
        s.append("3");
    } else if d == 4 {
        s.append("4");
    } else if d == 5 {
        s.append("5");
    } else if d == 6 {
        s.append("6");
    } else if d == 7 {
        s.append("7");
    } else if d == 8 {
        s.append("8");
    } else {
        s.append("9");
    }
    assert(s@ =~= old(s)@ + seq![dec_digit_char(d as int)]);
}

fn push_dec_rep(s: &mut String, n: u64)
    ensures
        final(s)@ == old(s)@ + dec_rep(n as nat),
    decreases n,
{
    if n < 10 {
        push_dec_digit(s, n);
    } else {
        push_dec_rep(s, n / 10);
        push_dec_digit(s, n % 10);
        assert(s@ =~= old(s)@ + dec_rep(n as nat));
    }
}

fn push_padded_rep(s: &mut String, n: u64, w: u64)
    ensures
        final(s)@ == old(s)@ + padded_rep(n as nat, w as nat),
    decreases w,
{
    if w == 0 {
        assert(s@ =~= old(s)@ + padded_rep(n as nat, 0));
    } else {
        push_padded_rep(s, n / 10, w - 1);
        push_dec_digit(s, n % 10);
        assert(s@ =~= old(s)@ + padded_rep(n as nat, w as nat));
    }
}

/// Renders a count of millionths as canonical decimal text.
pub fn units_to_decimal_string(units: i64) -> (r: String)
    ensures
        r@ == css_decimal_chars(units as int),
{
    proof {
        reveal_strlit("-");
        reveal_strlit(".");
    }
    let mut s = String::new();
    let m: u64 = if units < 0 {
        s.append("-");
        (-(units as i128)) as u64
    } else {
        units as u64
    };
    assert(m as int == abs_int(units as int));
    let ip: u64 = m / 1000000;
    let fp: u64 = m % 1000000;
    push_dec_rep(&mut s, ip);
    if fp != 0 {
        s.append(".");
        let mut f: u64 = fp;
        let mut w: u64 = 6;
        while w > 1 && f % 10 == 0
            invariant
                1 <= w <= 6,
                frac_strip(fp as nat, 6) == frac_strip(f as nat, w as nat),
            decreases w,
        {
            f = f / 10;
            w = w - 1;
        }
        push_padded_rep(&mut s, f, w);
    }
    assert(s@ =~= css_decimal_chars(units as int));
    s
}

} // verus!
