//! Numbers as the screens print them: reading durations and byte counts.

use vstd::prelude::*;

verus! {

pub open spec fn digit_char(d: int) -> char {
    if d == 0 {
        '0'
    } else if d == 1 {
        '1'
    } else if d == 2 {
        '2'
    } else if d == 3 {
        '3'
    } else if d == 4 {
        '4'
    } else if d == 5 {
        '5'
    } else if d == 6 {
        '6'
    } else if d == 7 {
        '7'
    } else if d == 8 {
        '8'
    } else {
        '9'
    }
}

/// Decimal digits of a natural number, without leading zeros.
pub open spec fn decimal(n: nat) -> Seq<char>
    decreases n,
{
    if n < 10 {
        seq![digit_char(n as int)]
    } else {
        decimal(n / 10).push(digit_char((n % 10) as int))
    }
}

/// An integer as `{}` prints it.
pub open spec fn int_text(n: int) -> Seq<char> {
    if n < 0 {
        seq!['-'] + decimal((-n) as nat)
    } else {
        decimal(n as nat)
    }
}

/// A number below 100 printed on two digits, as `{:02}` does.
pub open spec fn two_digits(n: nat) -> Seq<char> {
    if n < 10 {
        seq!['0', digit_char(n as int)]
    } else {
        decimal(n)
    }
}

/// Integer division rounding towards zero, as Rust's `/` does.
pub open spec fn div_trunc(a: int, b: int) -> int {
    if a >= 0 {
        a / b
    } else {
        -((-a) / b)
    }
}

pub(crate) fn push_digit(s: &mut String, d: u64)
    requires
        d < 10,
    ensures
        final(s)@ == old(s)@.push(digit_char(d as int)),
{
    proof {
        reveal_strlit("0");
        reveal_strlit("1");
        reveal_strlit("2");
        reveal_strlit("3");
        reveal_strlit("4");
        reveal_strlit("5");
        reveal_strlit("6");
        reveal_strlit("7");
        reveal_strlit("8");
        reveal_strlit("9");
    }
    if d == 0 {
        s.append("0");
    } else if d == 1 {
        s.append("1");
    } else if d == 2 {
        s.append("2");
    } else if d == 3 {
        s.append("3");
    } else if d == 4 {
        s.append("4");
    } else if d == 5 {
        s.append("5");
    } else if d == 6 {
        s.append("6");
    } else if d == 7 {
        s.append("7");
    } else if d == 8 {
        s.append("8");
    } else {
        s.append("9");
    }
}

pub(crate) fn push_decimal(s: &mut String, n: u64)
    ensures
        final(s)@ == old(s)@ + decimal(n as nat),
    decreases n,
{
    if n >= 10 {
        push_decimal(s, n / 10);
    }
    push_digit(s, n % 10);
    proof {
        assert(old(s)@ + decimal(n as nat) =~= (if n >= 10 {
            old(s)@ + decimal((n / 10) as nat)
        } else {
            old(s)@
        }).push(digit_char((n % 10) as int)));
    }
}

pub(crate) fn push_int(s: &mut String, n: i64)
    ensures
        final(s)@ == old(s)@ + int_text(n as int),
{
    if n < 0 {
        proof {
            reveal_strlit("-");
        }
        s.append("-");
        let magnitude: u64 = (-(n as i128)) as u64;
        push_decimal(s, magnitude);
        proof {
            assert(old(s)@ + int_text(n as int) =~= old(s)@ + seq!['-'] + decimal(magnitude as nat));
        }
    } else {
        push_decimal(s, n as u64);
    }
}

/// A reading duration as the history shows it ("12 min", "1 h 05").
pub open spec fn duration_text(millis: i64) -> Seq<char> {
    let seconds = div_trunc(millis as int, 1000);
    if seconds < 60 {
        int_text(seconds) + " s"@
    } else {
        let minutes = seconds / 60;
        if minutes < 60 {
            int_text(minutes) + " min"@
        } else {
            int_text(minutes / 60) + " h "@ + two_digits((minutes % 60) as nat)
        }
    }
}

/// Renders a reading duration compactly ("12 min", "1 h 05").
pub fn format_duration(millis: i64) -> (s: String)
    ensures
        s@ == duration_text(millis),
{
    let seconds: i64 = if millis >= 0 {
        millis / 1000
    } else {
        (-((-(millis as i128)) / 1000)) as i64
    };
    let mut s = String::new();
    if seconds < 60 {
        push_int(&mut s, seconds);
        s.append(" s");
        return s;
    }
    let minutes = seconds / 60;
    if minutes < 60 {
        push_int(&mut s, minutes);
        s.append(" min");
        return s;
    }
    push_int(&mut s, minutes / 60);
    s.append(" h ");
    let rest = minutes % 60;
    if rest < 10 {
        push_digit(&mut s, 0);
        push_digit(&mut s, rest as u64);
        proof {
            assert(decimal(rest as nat) == seq![digit_char(rest as int)]);
        }
    } else {
        push_decimal(&mut s, rest as u64);
    }
    proof {
        assert(s@ =~= duration_text(millis));
    }
    s
}

pub open spec fn pow2n(k: nat) -> nat
    decreases k,
{
    if k == 0 {
        1
    } else {
        2 * pow2n((k - 1) as nat)
    }
}

pub open spec fn pow1024(k: nat) -> nat
    decreases k,
{
    if k == 0 {
        1
    } else {
        1024 * pow1024((k - 1) as nat)
    }
}

/// Smallest `e >= k` with `n` below `2^(53 + e)`: the number of low bits an
/// `f64` cannot hold.
pub open spec fn dropped_bits(n: nat, k: nat) -> nat
    decreases 12 - k,
{
    if n < pow2n(53 + k) || k >= 12 {
        k
    } else {
        dropped_bits(n, k + 1)
    }
}

/// `q / d` rounded to the nearest integer, ties to the even one.
pub open spec fn div_round_even(q: nat, d: nat) -> nat {
    let whole = q / d;
    let r = q % d;
    if 2 * r > d || (2 * r == d && whole % 2 == 1) {
        whole + 1
    } else {
        whole
    }
}

/// The value `n as f64` takes: `n` rounded to 53 significant bits, ties to
/// even.
pub open spec fn as_double(n: nat) -> nat {
    let e = dropped_bits(n, 0);
    if e == 0 {
        n
    } else {
        div_round_even(n, pow2n(e)) * pow2n(e)
    }
}

/// How many times a value of `m` can be divided by 1024 while it stays at or
/// above 1024, at most four times (TB is the largest unit).
pub open spec fn unit_of(m: nat, k: nat) -> nat
    decreases 4 - k,
{
    if k < 4 && m >= pow1024(k + 1) {
        unit_of(m, k + 1)
    } else {
        k
    }
}

pub open spec fn unit_name(unit: nat) -> Seq<char> {
    if unit == 0 {
        "B"@
    } else if unit == 1 {
        "KB"@
    } else if unit == 2 {
        "MB"@
    } else if unit == 3 {
        "GB"@
    } else {
        "TB"@
    }
}

/// A byte count as the screens print it: whole bytes below a kilobyte,
/// otherwise the value in the largest unit that keeps it at or above one,
/// with one decimal, computed as the `f64` the count converts to and
/// rounded half to even.
pub open spec fn bytes_text(bytes: u64) -> Seq<char> {
    let m = as_double(bytes as nat);
    let unit = unit_of(m, 0);
    if unit == 0 {
        decimal(bytes as nat) + " "@ + unit_name(0)
    } else {
        let tenths = div_round_even(m * 10, pow1024(unit));
        decimal(tenths / 10) + "."@ + seq![digit_char((tenths % 10) as int)] + " "@ + unit_name(
            unit,
        )
    }
}

proof fn lemma_pow2n_positive(k: nat)
    ensures
        pow2n(k) >= 1,
    decreases k,
{
    if k > 0 {
        lemma_pow2n_positive((k - 1) as nat);
    }
}

proof fn lemma_pow2n_add(a: nat, b: nat)
    ensures
        pow2n(a + b) == pow2n(a) * pow2n(b),
    decreases b,
{
    if b > 0 {
        lemma_pow2n_add(a, (b - 1) as nat);
        let x = pow2n(a);
        let y = pow2n((b - 1) as nat);
        assert(pow2n(a + b) == 2 * pow2n((a + (b - 1)) as nat));
        assert(pow2n((a + (b - 1)) as nat) == x * y);
        assert(pow2n(b) == 2 * y);
        assert(x * (2 * y) == 2 * (x * y)) by (nonlinear_arith);
        assert(pow2n(a) * pow2n(b) == x * (2 * y));
    } else {
        assert(pow2n(0) == 1);
        assert(a + b == a);
        assert(pow2n(a) * 1 == pow2n(a));
    }
}

proof fn lemma_pow2n_values()
    ensures
        pow2n(53) == 0x20_0000_0000_0000,
        pow2n(64) == 0x1_0000_0000_0000_0000,
        pow2n(11) == 2048,
{
    reveal_with_fuel(pow2n, 12);
    assert(pow2n(10) == 1024);
    assert(pow2n(3) == 8);
    assert(pow2n(11) == 2048);
    lemma_pow2n_add(10, 10);
    lemma_pow2n_add(20, 10);
    lemma_pow2n_add(30, 10);
    lemma_pow2n_add(40, 10);
    lemma_pow2n_add(50, 3);
    lemma_pow2n_add(53, 11);
}

proof fn lemma_pow2n_at_most_2048(e: nat)
    requires
        e <= 11,
    ensures
        1 <= pow2n(e) <= 2048,
{
    lemma_pow2n_values();
    lemma_pow2n_add(e, (11 - e) as nat);
    lemma_pow2n_positive(e);
    lemma_pow2n_positive((11 - e) as nat);
    assert(pow2n(e) <= pow2n(e) * pow2n((11 - e) as nat)) by (nonlinear_arith)
        requires
            pow2n((11 - e) as nat) >= 1,
    ;
}

/// `n` converted to `f64`, on integers: the conversion's rounding to 53
/// significant bits, ties to even.
fn to_double(n: u64) -> (m: u128)
    ensures
        m == as_double(n as nat),
        m <= 0x1_0000_0000_0000_0000,
{
    proof {
        lemma_pow2n_values();
    }
    let mut e: u64 = 0;
    let mut scale: u128 = 1;
    let mut limit: u128 = 0x20_0000_0000_0000;
    while (n as u128) >= limit
        invariant
            e <= 11,
            scale == pow2n(e as nat),
            limit == pow2n((53 + e) as nat),
            limit == scale * 0x20_0000_0000_0000,
            dropped_bits(n as nat, 0) == dropped_bits(n as nat, e as nat),
            e > 0 ==> n >= 0x20_0000_0000_0000,
            pow2n(64) == 0x1_0000_0000_0000_0000,
            pow2n(53) == 0x20_0000_0000_0000,
        decreases 11 - e,
    {
        proof {
            if e == 11 {
                assert(limit == pow2n(64));
                assert(false);
            }
            lemma_pow2n_at_most_2048(e as nat);
            assert(pow2n((53 + e + 1) as nat) == 2 * pow2n((53 + e) as nat));
            assert(pow2n((e + 1) as nat) == 2 * pow2n(e as nat));
        }
        scale = scale * 2;
        limit = limit * 2;
        e = e + 1;
    }
    if e == 0 {
        return n as u128;
    }
    proof {
        lemma_pow2n_at_most_2048(e as nat);
        assert(n < pow2n((53 + e) as nat));
    }
    let whole = (n as u128) / scale;
    let r = (n as u128) % scale;
    let rounded = if 2 * r > scale || (2 * r == scale && whole % 2 == 1) {
        whole + 1
    } else {
        whole
    };
    proof {
        assert(whole < 0x20_0000_0000_0000) by (nonlinear_arith)
            requires
                whole == (n as u128) / scale,
                scale >= 1,
                n < scale * 0x20_0000_0000_0000,
        ;
        assert(rounded * scale <= 0x20_0000_0000_0000 * 2048) by (nonlinear_arith)
            requires
                rounded <= 0x20_0000_0000_0000,
                1 <= scale <= 2048,
        ;
    }
    rounded * scale
}

/// Formats a byte count for display ("512 B", "2.0 KB", "5.0 MB").
pub fn format_bytes(bytes: u64) -> (s: String)
    ensures
        s@ == bytes_text(bytes),
{
    let m = to_double(bytes);
    let mut unit: u64 = 0;
    let mut div: u128 = 1;
    proof {
        reveal_with_fuel(pow1024, 5);
    }
    while unit < 4 && m >= div * 1024
        invariant
            unit <= 4,
            div == pow1024(unit as nat),
            unit == 0 ==> div == 1,
            unit == 1 ==> div == 1024,
            unit == 2 ==> div == 0x10_0000,
            unit == 3 ==> div == 0x4000_0000,
            unit == 4 ==> div == 0x100_0000_0000,
            m <= 0x1_0000_0000_0000_0000,
            unit_of(m as nat, 0) == unit_of(m as nat, unit as nat),
        decreases 4 - unit,
    {
        div = div * 1024;
        unit = unit + 1;
    }
    let mut s = String::new();
    proof {
        reveal_strlit(" ");
        reveal_strlit(".");
    }
    if unit == 0 {
        push_decimal(&mut s, bytes);
        s.append(" ");
        s.append("B");
        return s;
    }
    let scaled = m * 10;
    let whole = scaled / div;
    let r = scaled % div;
    let tenths = if 2 * r > div || (2 * r == div && whole % 2 == 1) {
        whole + 1
    } else {
        whole
    };
    proof {
        assert(whole <= scaled / 1024) by (nonlinear_arith)
            requires
                whole == scaled / div,
                div >= 1024,
        ;
    }
    push_decimal(&mut s, (tenths / 10) as u64);
    s.append(".");
    push_digit(&mut s, (tenths % 10) as u64);
    s.append(" ");
    if unit == 1 {
        s.append("KB");
    } else if unit == 2 {
        s.append("MB");
    } else if unit == 3 {
        s.append("GB");
    } else {
        s.append("TB");
    }
    proof {
        assert(s@ =~= bytes_text(bytes));
    }
    s
}

/// A count of entries as the lists print it: "1 entry", "3 entries".
pub open spec fn entries_text(n: nat) -> Seq<char> {
    decimal(n) + (if n == 1 {
        " entry"@
    } else {
        " entries"@
    })
}

/// Prints a count of entries: "1 entry", "3 entries".
pub fn entries_label(n: usize) -> (s: String)
    ensures
        s@ == entries_text(n as nat),
{
    let mut s = String::new();
    push_decimal(&mut s, n as u64);
    if n == 1 {
        s.append(" entry");
    } else {
        s.append(" entries");
    }
    s
}

} // verus!
