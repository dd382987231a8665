//! Human-readable rendering of durations and byte counts.
//!
//! Everything is exact integer arithmetic: a value is scaled to the chosen
//! unit in tenths (or thousandths for seconds), rounding half up, and the
//! decimal digits are spelled out one by one.

use vstd::prelude::*;

verus! {

/// The character for one decimal digit.
pub open spec fn digit_char(d: nat) -> char
    recommends
        d < 10,
{
    ((48 + d) as u8) as char
}

/// The decimal digits of `n`, most significant first, no leading zeros.
pub open spec fn dec_digits(n: nat) -> Seq<char>
    decreases n,
{
    if n < 10 {
        seq![digit_char(n)]
    } else {
        dec_digits(n / 10).push(digit_char(n % 10))
    }
}

/// The decimal digits of `n`, zero-padded on the left to three places.
pub open spec fn dec_digits_pad3(n: nat) -> Seq<char>
    recommends
        n < 1000,
{
    if n < 10 {
        seq!['0', '0'] + dec_digits(n)
    } else if n < 100 {
        seq!['0'] + dec_digits(n)
    } else {
        dec_digits(n)
    }
}

/// `x / d`, rounded to the nearest whole number, halves up.
pub open spec fn round_div(x: int, d: int) -> int
    recommends
        d > 0,
{
    (x + d / 2) / d
}

/// The decimal representation of `n`.
pub fn u64_to_dec(n: u64) -> (r: String)
    ensures
        r@ == dec_digits(n as nat),
{
    let mut digits: Vec<char> = Vec::new();
    let mut m: u64 = n;
    proof {
        assert(dec_digits(n as nat) =~= dec_digits(m as nat) + digits@.reverse());
    }
    while m >= 10
        invariant
            dec_digits(n as nat) == dec_digits(m as nat) + digits@.reverse(),
        decreases m,
    {
        let ghost digits_pre = digits@;
        let ghost m_pre = m;
        let d = (m % 10) as u8;
        digits.push((d + 48) as char);
        m = m / 10;
        proof {
            let c = digit_char((m_pre % 10) as nat);
            assert(digits@.reverse() =~= seq![c] + digits_pre.reverse());
            assert(dec_digits((m_pre / 10) as nat) + digits@.reverse() =~= dec_digits(
                m_pre as nat,
            ) + digits_pre.reverse());
        }
    }
    let ghost digits_mid = digits@;
    let ghost m_last = m;
    digits.push(((m as u8) + 48) as char);
    proof {
        assert(digits@.reverse() =~= seq![digit_char(m_last as nat)] + digits_mid.reverse());
        assert(dec_digits(n as nat) =~= digits@.reverse());
    }
    let mut r = String::new();
    let mut k = digits.len();
    proof {
        assert(r@ =~= digits@.skip(k as int).reverse());
    }
    while k > 0
        invariant
            k <= digits@.len(),
            r@ == digits@.skip(k as int).reverse(),
        decreases k,
    {
        k = k - 1;
        r.push(digits[k]);
        proof {
            assert(r@ =~= digits@.skip(k as int).reverse());
        }
    }
    proof {
        assert(r@ =~= digits@.reverse());
    }
    r
}

/// The decimal representation of `n`, zero-padded to three places.
fn u64_to_dec_pad3(n: u64) -> (r: String)
    requires
        n < 1000,
    ensures
        r@ == dec_digits_pad3(n as nat),
{
    let digits = u64_to_dec(n);
    if n < 10 {
        let mut r = String::new();
        r.push('0');
        r.push('0');
        r.append(digits.as_str());
        proof {
            assert(r@ =~= dec_digits_pad3(n as nat));
        }
        r
    } else if n < 100 {
        let mut r = String::new();
        r.push('0');
        r.append(digits.as_str());
        proof {
            assert(r@ =~= dec_digits_pad3(n as nat));
        }
        r
    } else {
        digits
    }
}

/// `t` tenths of a unit, rendered with one decimal and a two-character
/// unit suffix.
fn render_tenths(t: u64, u1: char, u2: char) -> (r: String)
    ensures
        r@ == dec_digits((t / 10) as nat) + seq!['.'] + dec_digits((t % 10) as nat) + seq![
            ' ',
            u1,
            u2,
        ],
{
    let mut r = u64_to_dec(t / 10);
    r.push('.');
    let frac = u64_to_dec(t % 10);
    r.append(frac.as_str());
    r.push(' ');
    r.push(u1);
    r.push(u2);
    proof {
        assert(r@ =~= dec_digits((t / 10) as nat) + seq!['.'] + dec_digits((t % 10) as nat)
            + seq![' ', u1, u2]);
    }
    r
}

/// How a duration of `nanos` nanoseconds is displayed: minutes and seconds
/// above one minute, seconds with three decimals above one second,
/// milliseconds with one decimal above one millisecond, else whole
/// microseconds; each scaled value rounded half up.
pub open spec fn spec_format_duration(nanos: nat) -> Seq<char> {
    if nanos >= 60_000_000_000 {
        let ms = round_div((nanos % 60_000_000_000) as int, 1_000_000);
        dec_digits((nanos / 60_000_000_000) as nat) + seq!['m', ' '] + dec_digits(
            (ms / 1000) as nat,
        ) + seq!['.'] + dec_digits_pad3((ms % 1000) as nat) + seq!['s']
    } else if nanos >= 1_000_000_000 {
        let ms = round_div(nanos as int, 1_000_000);
        dec_digits((ms / 1000) as nat) + seq!['.'] + dec_digits_pad3((ms % 1000) as nat)
            + seq!['s']
    } else if nanos >= 1_000_000 {
        let tenths = round_div(nanos as int, 100_000);
        dec_digits((tenths / 10) as nat) + seq!['.'] + dec_digits((tenths % 10) as nat) + seq![
            'm',
            's',
        ]
    } else {
        dec_digits(round_div(nanos as int, 1000) as nat) + seq!['\u{b5}', 's']
    }
}

/// Format a duration given in whole nanoseconds.
pub fn format_duration(nanos: u64) -> (r: String)
    ensures
        r@ == spec_format_duration(nanos as nat),
{
    if nanos >= 60_000_000_000 {
        let mins = nanos / 60_000_000_000;
        let rem = nanos % 60_000_000_000;
        let ms = (rem + 500_000) / 1_000_000;
        let mut r = u64_to_dec(mins);
        r.push('m');
        r.push(' ');
        let whole = u64_to_dec(ms / 1000);
        r.append(whole.as_str());
        r.push('.');
        let frac = u64_to_dec_pad3(ms % 1000);
        r.append(frac.as_str());
        r.push('s');
        proof {
            assert(r@ =~= spec_format_duration(nanos as nat));
        }
        r
    } else if nanos >= 1_000_000_000 {
        let ms = (nanos + 500_000) / 1_000_000;
        let mut r = u64_to_dec(ms / 1000);
        r.push('.');
        let frac = u64_to_dec_pad3(ms % 1000);
        r.append(frac.as_str());
        r.push('s');
        proof {
            assert(r@ =~= spec_format_duration(nanos as nat));
        }
        r
    } else if nanos >= 1_000_000 {
        let tenths = (nanos + 50_000) / 100_000;
        let mut r = u64_to_dec(tenths / 10);
        r.push('.');
        let frac = u64_to_dec(tenths % 10);
        r.append(frac.as_str());
        r.push('m');
        r.push('s');
        proof {
            assert(r@ =~= spec_format_duration(nanos as nat));
        }
        r
    } else {
        let us = (nanos + 500) / 1000;
        let mut r = u64_to_dec(us);
        r.push('\u{b5}');
        r.push('s');
        proof {
            assert(r@ =~= spec_format_duration(nanos as nat));
        }
        r
    }
}

/// How a byte count is displayed: "N/A" for 0 (unmeasured), else scaled to
/// GB, MB or KB with one decimal, rounding half up, or whole bytes below
/// one KB.
pub open spec fn spec_format_bytes(bytes: nat) -> Seq<char> {
    if bytes == 0 {
        seq!['N', '/', 'A']
    } else if bytes >= 1_073_741_824 {
        let tenths = round_div(bytes * 10 as int, 1_073_741_824);
        dec_digits((tenths / 10) as nat) + seq!['.'] + dec_digits((tenths % 10) as nat) + seq![
            ' ',
            'G',
            'B',
        ]
    } else if bytes >= 1_048_576 {
        let tenths = round_div(bytes * 10 as int, 1_048_576);
        dec_digits((tenths / 10) as nat) + seq!['.'] + dec_digits((tenths % 10) as nat) + seq![
            ' ',
            'M',
            'B',
        ]
    } else if bytes >= 1024 {
        let tenths = round_div(bytes * 10 as int, 1024);
        dec_digits((tenths / 10) as nat) + seq!['.'] + dec_digits((tenths % 10) as nat) + seq![
            ' ',
            'K',
            'B',
        ]
    } else {
        dec_digits(bytes) + seq![' ', 'B']
    }
}

/// Format a byte count.
pub fn format_bytes(bytes: u64) -> (r: String)
    ensures
        r@ == spec_format_bytes(bytes as nat),
{
    if bytes == 0 {
        let mut r = String::new();
        r.push('N');
        r.push('/');
        r.push('A');
        proof {
            assert(r@ =~= spec_format_bytes(bytes as nat));
        }
        r
    } else if bytes >= 1_073_741_824 {
        let t128 = ((bytes as u128) * 10 + 536_870_912) / 1_073_741_824;
        assert(t128 <= u64::MAX as u128);
        let t = t128 as u64;
        let r = render_tenths(t, 'G', 'B');
        proof {
            assert(r@ =~= spec_format_bytes(bytes as nat));
        }
        r
    } else if bytes >= 1_048_576 {
        let t = (bytes * 10 + 524_288) / 1_048_576;
        let r = render_tenths(t, 'M', 'B');
        proof {
            assert(r@ =~= spec_format_bytes(bytes as nat));
        }
        r
    } else if bytes >= 1024 {
        let t = (bytes * 10 + 512) / 1024;
        let r = render_tenths(t, 'K', 'B');
        proof {
            assert(r@ =~= spec_format_bytes(bytes as nat));
        }
        r
    } else {
        let mut r = u64_to_dec(bytes);
        r.push(' ');
        r.push('B');
        proof {
            assert(r@ =~= spec_format_bytes(bytes as nat));
        }
        r
    }
}

} // verus!
