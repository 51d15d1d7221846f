//! Pure helpers for the chart planner: decimal formatting, hex color
//! parsing, wall-clock time labels, and the X-axis label count.
//!
//! All of it is exact integer and string logic; durations are carried in
//! microseconds.

use vstd::prelude::*;

verus! {

/// The decimal digit character of `d`.
pub open spec fn spec_digit(d: nat) -> char
    recommends
        d < 10,
{
    if d == 0 {
        '0'
    } else if d == 1 {
        '1'
    } else if d == 2 {
        '2'
    } else if d == 3 {
        '3'
    } else if d == 4 {
        '4'
    } else if d == 5 {
        '5'
    } else if d == 6 {
        '6'
    } else if d == 7 {
        '7'
    } else if d == 8 {
        '8'
    } else {
        '9'
    }
}

/// The decimal representation of `n`, without leading zeros.
pub open spec fn spec_decimal(n: nat) -> Seq<char>
    decreases n,
{
    if n < 10 {
        seq![spec_digit(n)]
    } else {
        spec_decimal(n / 10) + seq![spec_digit(n % 10)]
    }
}

/// The decimal digit of `d` as a one-character string slice.
fn digit_str(d: u128) -> (s: &'static str)
    requires
        d < 10,
    ensures
        s@ == seq![spec_digit(d as nat)],
{
    proof {
        reveal_strlit("0");
        reveal_strlit("1");
        reveal_strlit("2");
        reveal_strlit("3");
        reveal_strlit("4");
        reveal_strlit("5");
        reveal_strlit("6");
        reveal_strlit("7");
        reveal_strlit("8");
        reveal_strlit("9");
    }
    if d == 0 {
        "0"
    } else if d == 1 {
        "1"
    } else if d == 2 {
        "2"
    } else if d == 3 {
        "3"
    } else if d == 4 {
        "4"
    } else if d == 5 {
        "5"
    } else if d == 6 {
        "6"
    } else if d == 7 {
        "7"
    } else if d == 8 {
        "8"
    } else {
        "9"
    }
}

/// Append the decimal representation of `n` to `s`.
pub fn push_decimal(s: &mut String, n: u128)
    ensures
        final(s)@ == old(s)@ + spec_decimal(n as nat),
    decreases n,
{
    if n < 10 {
        s.append(digit_str(n));
    } else {
        push_decimal(s, n / 10);
        s.append(digit_str(n % 10));
    }
}

/// The decimal representation of `n` as a string.
pub fn format_decimal(n: u128) -> (r: String)
    ensures
        r@ == spec_decimal(n as nat),
{
    let mut s = String::new();
    push_decimal(&mut s, n);
    proof {
        assert(s@ =~= spec_decimal(n as nat));
    }
    s
}

/// The numeric value of a hexadecimal digit character.
pub open spec fn spec_hex_digit(c: char) -> Option<nat> {
    let v = c as nat;
    if '0' as nat <= v <= '9' as nat {
        Some((v - '0' as nat) as nat)
    } else if 'a' as nat <= v <= 'f' as nat {
        Some((v - 'a' as nat + 10) as nat)
    } else if 'A' as nat <= v <= 'F' as nat {
        Some((v - 'A' as nat + 10) as nat)
    } else {
        None
    }
}

/// The numeric value of a hexadecimal digit character.
fn hex_digit(c: char) -> (r: Option<u8>)
    ensures
        match r {
            Some(v) => spec_hex_digit(c) == Some(v as nat) && v < 16,
            None => spec_hex_digit(c) is None,
        },
{
    let v = c as u32;
    if 48 <= v && v <= 57 {
        Some((v - 48) as u8)
    } else if 97 <= v && v <= 102 {
        Some((v - 97 + 10) as u8)
    } else if 65 <= v && v <= 70 {
        Some((v - 65 + 10) as u8)
    } else {
        None
    }
}

/// The string with its leading `#` characters removed.
pub open spec fn spec_trim_hash(s: Seq<char>) -> Seq<char>
    decreases s.len(),
{
    if s.len() > 0 && s[0] == '#' {
        spec_trim_hash(s.skip(1))
    } else {
        s
    }
}

/// The color component encoded by the two hex digits at `i`, or zero when
/// they are missing or malformed.
pub open spec fn spec_hex_pair(s: Seq<char>, i: int) -> nat {
    if 0 <= i && i + 2 <= s.len() && spec_hex_digit(s[i]) is Some && spec_hex_digit(
        s[i + 1],
    ) is Some {
        spec_hex_digit(s[i])->Some_0 * 16 + spec_hex_digit(s[i + 1])->Some_0
    } else {
        0
    }
}

/// An RGB color.
#[derive(Clone, Copy, Debug, PartialEq, Eq, Structural)]
pub struct Rgb {
    pub r: u8,
    pub g: u8,
    pub b: u8,
}

/// The color parsed from a hex string: the first three hex pairs after
/// any leading `#` characters; a missing or malformed pair reads as zero.
pub open spec fn spec_parse_hex_color(s: Seq<char>) -> Rgb {
    let t = spec_trim_hash(s);
    Rgb {
        r: spec_hex_pair(t, 0) as u8,
        g: spec_hex_pair(t, 2) as u8,
        b: spec_hex_pair(t, 4) as u8,
    }
}

/// Parse a `#RRGGBB` color string.
pub fn parse_hex_color(s: &str) -> (c: Rgb)
    ensures
        c == spec_parse_hex_color(s@),
{
    let n = s.unicode_len();
    let mut from: usize = 0;
    proof {
        assert(s@.skip(0) =~= s@);
    }
    while from < n && s.get_char(from) == '#'
        invariant
            from <= n,
            n == s@.len(),
            spec_trim_hash(s@) == spec_trim_hash(s@.skip(from as int)),
        decreases n - from,
    {
        proof {
            assert(s@.skip(from as int)[0] == '#');
            assert(s@.skip(from as int).skip(1) =~= s@.skip(from + 1));
        }
        from += 1;
    }
    proof {
        if from < n {
            assert(s@.skip(from as int)[0] == s@[from as int]);
        } else {
            assert(s@.skip(from as int).len() == 0);
        }
        assert(spec_trim_hash(s@.skip(from as int)) =~= s@.skip(from as int));
    }
    let t_len = n - from;
    let r = hex_pair_at(s, from, t_len, 0);
    let g = hex_pair_at(s, from, t_len, 2);
    let b = hex_pair_at(s, from, t_len, 4);
    Rgb { r, g, b }
}

/// Read the color component at offset `i` of the trimmed string starting
/// at `from`.
fn hex_pair_at(s: &str, from: usize, t_len: usize, i: usize) -> (v: u8)
    requires
        from + t_len == s@.len(),
        from + t_len <= usize::MAX,
        i + 2 <= usize::MAX,
    ensures
        v as nat == spec_hex_pair(s@.skip(from as int), i as int),
{
    let ghost t = s@.skip(from as int);
    if i + 2 <= t_len {
        proof {
            assert(t[i as int] == s@[from + i]);
            assert(t[i + 1] == s@[from + i + 1]);
        }
        let c0 = s.get_char(from + i);
        let c1 = s.get_char(from + i + 1);
        match (hex_digit(c0), hex_digit(c1)) {
            (Some(h), Some(l)) => h * 16 + l,
            _ => 0,
        }
    } else {
        0
    }
}

/// Ten to the `k`.
pub open spec fn spec_pow10(k: nat) -> nat
    decreases k,
{
    if k == 0 {
        1
    } else {
        10 * spec_pow10((k - 1) as nat)
    }
}

/// The decimal representation of `n` zero-padded to exactly `width`
/// digits (modulo ten to the `width`).
pub open spec fn spec_padded(n: nat, width: nat) -> Seq<char>
    decreases width,
{
    if width == 0 {
        Seq::empty()
    } else {
        spec_padded(n / 10, (width - 1) as nat) + seq![spec_digit(n % 10)]
    }
}

/// The string with its trailing `0` characters removed.
pub open spec fn spec_trim_zeros(s: Seq<char>) -> Seq<char>
    decreases s.len(),
{
    if s.len() > 0 && s.last() == '0' {
        spec_trim_zeros(s.drop_last())
    } else {
        s
    }
}

/// The fractional-second suffix of a time label: a dot followed by the
/// six-digit microsecond field with its trailing zeros removed, or
/// nothing for a whole second.
pub open spec fn spec_frac(micros: nat) -> Seq<char> {
    if micros == 0 {
        Seq::empty()
    } else {
        seq!['.'] + spec_trim_zeros(spec_padded(micros, 6))
    }
}

/// The number of microseconds covered by `sample` samples at `rate`
/// hertz, rounded to the nearest microsecond.
pub open spec fn spec_total_micros(sample: nat, rate: nat) -> nat
    recommends
        rate > 0,
{
    ((sample * 1_000_000 + rate / 2) / rate) as nat
}

/// The wall-clock label of a sample index: hours, minutes, seconds and
/// fractional seconds, with the leading zero fields omitted; `0` when the
/// sample rate is zero.
pub open spec fn spec_time_label(sample: nat, rate: nat) -> Seq<char> {
    if rate == 0 {
        "0"@
    } else {
        let total = spec_total_micros(sample, rate);
        let hours = total / 3_600_000_000;
        let minutes = (total % 3_600_000_000) / 60_000_000;
        let seconds = (total % 60_000_000) / 1_000_000;
        let micros = total % 1_000_000;
        if hours > 0 {
            spec_decimal(hours) + "h "@ + spec_decimal(minutes) + "m "@ + spec_decimal(seconds)
                + spec_frac(micros) + "s"@
        } else if minutes > 0 {
            spec_decimal(minutes) + "m "@ + spec_decimal(seconds) + spec_frac(micros) + "s"@
        } else {
            spec_decimal(seconds) + spec_frac(micros) + "s"@
        }
    }
}

/// Append the decimal representation of `n` zero-padded to `width`
/// digits.
fn push_padded(s: &mut String, n: u128, width: usize)
    ensures
        final(s)@ == old(s)@ + spec_padded(n as nat, width as nat),
    decreases width,
{
    if width == 0 {
        proof {
            assert(old(s)@ + spec_padded(n as nat, 0) =~= old(s)@);
        }
    } else {
        push_padded(s, n / 10, width - 1);
        s.append(digit_str(n % 10));
    }
}

/// The last digit of a non-zero-width padded field, and the rest.
proof fn lemma_padded_step(n: nat, width: nat)
    requires
        width >= 1,
    ensures
        spec_padded(n, width).len() == width,
        spec_padded(n, width).last() == spec_digit(n % 10),
        spec_padded(n, width).drop_last() =~= spec_padded(n / 10, (width - 1) as nat),
    decreases width,
{
    if width == 1 {
        assert(spec_padded(n / 10, 0) =~= Seq::<char>::empty());
    } else {
        lemma_padded_step(n / 10, (width - 1) as nat);
    }
}

/// Append the fractional-second suffix for `micros`.
fn push_frac(s: &mut String, micros: u128)
    requires
        micros < 1_000_000,
    ensures
        final(s)@ == old(s)@ + spec_frac(micros as nat),
{
    if micros == 0 {
        proof {
            assert(old(s)@ + spec_frac(0) =~= old(s)@);
        }
        return ;
    }
    proof {
        reveal_strlit(".");
    }
    s.append(".");
    let mut mm: u128 = micros;
    let mut k: usize = 6;
    proof {
        assert(spec_pow10((6 - k) as nat) == 1);
    }
    while mm % 10 == 0
        invariant
            1 <= k <= 6,
            mm > 0,
            micros < 1_000_000,
            mm as nat * spec_pow10((6 - k) as nat) == micros as nat,
            spec_trim_zeros(spec_padded(micros as nat, 6)) == spec_trim_zeros(
                spec_padded(mm as nat, k as nat),
            ),
        decreases mm,
    {
        proof {
            lemma_padded_step(mm as nat, k as nat);
            assert(spec_trim_zeros(spec_padded(mm as nat, k as nat)) == spec_trim_zeros(
                spec_padded((mm / 10) as nat, (k - 1) as nat),
            ));
            assert((mm / 10) as nat * spec_pow10((6 - (k - 1)) as nat) == micros as nat)
                by (nonlinear_arith)
                requires
                    mm % 10 == 0,
                    mm > 0,
                    k >= 1,
                    spec_pow10((6 - (k - 1)) as nat) == 10 * spec_pow10((6 - k) as nat),
                    mm as nat * spec_pow10((6 - k) as nat) == micros as nat,
            ;
            assert(k >= 2) by {
                if k == 1 {
                    assert(spec_pow10(0) == 1);
                    assert(spec_pow10(1) == 10);
                    assert(spec_pow10(2) == 100);
                    assert(spec_pow10(3) == 1_000);
                    assert(spec_pow10(4) == 10_000);
                    assert(spec_pow10(5) == 100_000);
                    assert(mm as nat * 100_000 == micros as nat);
                    assert(mm >= 10) by (nonlinear_arith)
                        requires
                            mm % 10 == 0,
                            mm > 0,
                    ;
                    assert(micros as nat >= 1_000_000) by (nonlinear_arith)
                        requires
                            mm as nat * 100_000 == micros as nat,
                            mm >= 10,
                    ;
                }
            }
        }
        mm = mm / 10;
        k = k - 1;
    }
    proof {
        lemma_padded_step(mm as nat, k as nat);
        assert(spec_digit((mm % 10) as nat) != '0');
        assert(spec_trim_zeros(spec_padded(mm as nat, k as nat)) == spec_padded(
            mm as nat,
            k as nat,
        ));
    }
    push_padded(s, mm, k);
}

/// Render the wall-clock label of a sample index at the given sample
/// rate.
pub fn time_formatter(sample: usize, rate_hz: u32) -> (r: String)
    ensures
        r@ == spec_time_label(sample as nat, rate_hz as nat),
{
    proof {
        reveal_strlit("0");
        reveal_strlit("h ");
        reveal_strlit("m ");
        reveal_strlit("s");
    }
    if rate_hz == 0 {
        return "0".to_owned();
    }
    let total: u128 = ((sample as u128) * 1_000_000 + (rate_hz / 2) as u128) / (rate_hz as u128);
    let hours: u128 = total / 3_600_000_000;
    let minutes: u128 = (total % 3_600_000_000) / 60_000_000;
    let seconds: u128 = (total % 60_000_000) / 1_000_000;
    let micros: u128 = total % 1_000_000;
    let mut s = String::new();
    if hours > 0 {
        push_decimal(&mut s, hours);
        s.append("h ");
        push_decimal(&mut s, minutes);
        s.append("m ");
        push_decimal(&mut s, seconds);
        push_frac(&mut s, micros);
        s.append("s");
    } else if minutes > 0 {
        push_decimal(&mut s, minutes);
        s.append("m ");
        push_decimal(&mut s, seconds);
        push_frac(&mut s, micros);
        s.append("s");
    } else {
        push_decimal(&mut s, seconds);
        push_frac(&mut s, micros);
        s.append("s");
    }
    proof {
        assert(s@ =~= spec_time_label(sample as nat, rate_hz as nat));
    }
    s
}

/// The number of X axis labels for a run of `data_len` samples at `rate`
/// hertz: about eight labels at a nice 1-2-5 step over the duration, and
/// never fewer than two.
pub open spec fn spec_num_x_labels(data_len: nat, rate: nat) -> nat {
    if rate == 0 || data_len == 0 {
        2
    } else {
        let duration = spec_total_micros(data_len, rate);
        let rough = duration / 7;
        if rough == 0 {
            2
        } else {
            let step = spec_nice_step(rough);
            let labels = duration / step + 1;
            if labels < 2 {
                2
            } else {
                labels as nat
            }
        }
    }
}

/// The smallest value of the form 1, 2 or 5 times a power of ten that is
/// at least `rough`.
pub open spec fn spec_nice_step(rough: nat) -> nat
    recommends
        rough > 0,
{
    let base = spec_pow10_below(rough);
    if rough <= base {
        base
    } else if rough <= 2 * base {
        2 * base
    } else if rough <= 5 * base {
        5 * base
    } else {
        10 * base
    }
}

/// The largest power of ten at most `n`.
pub open spec fn spec_pow10_below(n: nat) -> nat
    recommends
        n > 0,
    decreases n,
{
    if n < 10 {
        1
    } else {
        10 * spec_pow10_below(n / 10)
    }
}

/// The largest power of ten at most `n`, computed.
fn pow10_below(n: u128) -> (b: u128)
    requires
        n > 0,
    ensures
        b as nat == spec_pow10_below(n as nat),
        1 <= b <= n,
        (n as nat) < 10 * (b as nat),
    decreases n,
{
    if n < 10 {
        1
    } else {
        let inner = pow10_below(n / 10);
        proof {
            assert(10 * inner <= n) by (nonlinear_arith)
                requires
                    inner <= n / 10,
                    n >= 10,
                    inner >= 1,
                    n as int / 10 * 10 <= n,
            ;
            assert((n as nat) < 10 * (10 * (inner as nat))) by (nonlinear_arith)
                requires
                    (n as nat) / 10 < 10 * (inner as nat),
                    n as int <= n as int / 10 * 10 + 9,
                    inner >= 1,
            ;
        }
        10 * inner
    }
}

/// Compute the number of X axis labels.
pub fn num_x_labels(data_len: usize, rate_hz: u32) -> (r: usize)
    ensures
        r as nat == spec_num_x_labels(data_len as nat, rate_hz as nat),
        r >= 2,
{
    if rate_hz == 0 || data_len == 0 {
        return 2;
    }
    let duration: u128 = ((data_len as u128) * 1_000_000 + (rate_hz / 2) as u128) / (
    rate_hz as u128);
    let rough: u128 = duration / 7;
    if rough == 0 {
        return 2;
    }
    let base = pow10_below(rough);
    let step: u128 = if rough <= base {
        base
    } else if rough <= 2 * base {
        2 * base
    } else if rough <= 5 * base {
        5 * base
    } else {
        10 * base
    };
    proof {
        assert((rough as nat) < 10 * (base as nat));
        assert(step >= rough);
        assert(duration <= 7 * rough + 6) by (nonlinear_arith)
            requires
                rough == duration / 7,
                duration >= 0,
        ;
        vstd::arithmetic::div_mod::lemma_div_is_ordered_by_denominator(
            duration as int,
            rough as int,
            step as int,
        );
        assert(duration as int <= 13 * rough) by (nonlinear_arith)
            requires
                duration <= 7 * rough + 6,
                rough >= 1,
        ;
        vstd::arithmetic::div_mod::lemma_div_is_ordered(
            duration as int,
            13 * rough as int,
            rough as int,
        );
        vstd::arithmetic::div_mod::lemma_div_by_multiple(13, rough as int);
        assert(duration / step <= 13);
    }
    let labels: u128 = duration / step + 1;
    if labels < 2 {
        2
    } else {
        labels as usize
    }
}

} // verus!
