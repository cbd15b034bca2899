//! Human-readable rendering of durations and byte counts, built
//! character by character so that the exact output is part of the
//! contract. Fractions are truncated, not rounded: a size of 1535 bytes
//! prints as 1.49k.

use vstd::prelude::*;
use vstd::string::StrSliceExecFns;
use vstd::string::StringExecFns;

verus! {

/// The ASCII character of one decimal digit.
pub open spec fn digit_char(d: nat) -> char {
    if d == 0 {
        '0'
    } else if d == 1 {
        '1'
    } else if d == 2 {
        '2'
    } else if d == 3 {
        '3'
    } else if d == 4 {
        '4'
    } else if d == 5 {
        '5'
    } else if d == 6 {
        '6'
    } else if d == 7 {
        '7'
    } else if d == 8 {
        '8'
    } else {
        '9'
    }
}

/// The decimal numeral of `n`, most significant digit first.
pub open spec fn spec_dec(n: nat) -> Seq<char>
    decreases n,
{
    if n < 10 {
        seq![digit_char(n)]
    } else {
        spec_dec(n / 10).push(digit_char(n % 10))
    }
}

/// The numeral of `n` padded with one leading zero to at least two
/// digits, as clock fields are written.
pub open spec fn spec_pad2(n: nat) -> Seq<char> {
    if n < 10 {
        seq!['0'] + spec_dec(n)
    } else {
        spec_dec(n)
    }
}

/// `s` padded on the left with spaces to width `w`; a longer `s` stands
/// unchanged.
pub open spec fn spec_pad_left(s: Seq<char>, w: nat) -> Seq<char> {
    if s.len() >= w {
        s
    } else {
        Seq::new((w - s.len()) as nat, |i: int| ' ') + s
    }
}

/// One digit as a borrowed one-character string.
fn digit_str(d: u64) -> (r: &'static str)
    requires
        d < 10,
    ensures
        r@ == seq![digit_char(d as nat)],
{
    proof {
        reveal_strlit("0");
        reveal_strlit("1");
        reveal_strlit("2");
        reveal_strlit("3");
        reveal_strlit("4");
        reveal_strlit("5");
        reveal_strlit("6");
        reveal_strlit("7");
        reveal_strlit("8");
        reveal_strlit("9");
    }
    match d {
        0 => "0",
        1 => "1",
        2 => "2",
        3 => "3",
        4 => "4",
        5 => "5",
        6 => "6",
        7 => "7",
        8 => "8",
        _ => "9",
    }
}

/// Writes `n` in decimal.
pub fn u64_to_string(n: u64) -> (r: String)
    ensures
        r@ == spec_dec(n as nat),
    decreases n,
{
    if n < 10 {
        digit_str(n).to_owned()
    } else {
        let mut s = u64_to_string(n / 10);
        s.append(digit_str(n % 10));
        proof {
            assert(s@ =~= spec_dec(n as nat));
        }
        s
    }
}

/// Writes `n` with at least two digits, zero-padded.
fn pad2(n: u64) -> (r: String)
    ensures
        r@ == spec_pad2(n as nat),
{
    if n < 10 {
        proof {
            reveal_strlit("0");
        }
        let mut s = "0".to_owned();
        s.append(digit_str(n));
        proof {
            assert(s@ =~= spec_pad2(n as nat));
        }
        s
    } else {
        u64_to_string(n)
    }
}

/// Pads `s` on the left with spaces to width `w`.
fn pad_left(s: String, w: usize) -> (r: String)
    ensures
        r@ == spec_pad_left(s@, w as nat),
{
    let l = s.as_str().unicode_len();
    if l >= w {
        proof {
            assert(s@ =~= spec_pad_left(s@, w as nat));
        }
        s
    } else {
        let mut p = String::new();
        let mut i: usize = 0;
        while i < w - l
            invariant
                0 <= i <= w - l,
                l == s@.len(),
                l < w,
                p@ =~= Seq::new(i as nat, |k: int| ' '),
            decreases w - l - i,
        {
            proof {
                reveal_strlit(" ");
            }
            p.append(" ");
            proof {
                assert(p@ =~= Seq::new((i + 1) as nat, |k: int| ' '));
            }
            i = i + 1;
        }
        p.append(s.as_str());
        proof {
            assert(p@ =~= spec_pad_left(s@, w as nat));
        }
        p
    }
}

/// What `human_duration` prints for `secs` seconds of uptime: days only
/// when there are any, then zero-padded hours, minutes and seconds.
pub open spec fn spec_human_duration(secs: nat) -> Seq<char> {
    let days = secs / 86400;
    let rem = secs % 86400;
    let hours = rem / 3600;
    let rem2 = rem % 3600;
    let mins = rem2 / 60;
    let s = rem2 % 60;
    let clock = spec_pad2(hours) + ":"@ + spec_pad2(mins) + ":"@ + spec_pad2(s);
    if days > 0 {
        let unit = if days > 1 {
            " days, "@
        } else {
            " day, "@
        };
        spec_dec(days) + unit + clock
    } else {
        clock
    }
}

/// Writes a duration the way the system information pane shows uptime:
/// `HH:MM:SS`, preceded by a day count when a day or more has passed.
pub fn human_duration(secs: u64) -> (r: String)
    ensures
        r@ == spec_human_duration(secs as nat),
{
    let days = secs / 86400;
    let rem = secs % 86400;
    let hours = rem / 3600;
    let rem2 = rem % 3600;
    let mins = rem2 / 60;
    let s = rem2 % 60;
    let mut out = if days > 0 {
        let mut d = u64_to_string(days);
        if days > 1 {
            d.append(" days, ");
        } else {
            d.append(" day, ");
        }
        d
    } else {
        String::new()
    };
    out.append(pad2(hours).as_str());
    out.append(":");
    out.append(pad2(mins).as_str());
    out.append(":");
    out.append(pad2(s).as_str());
    proof {
        assert(out@ =~= spec_human_duration(secs as nat));
    }
    out
}

/// A size in hundredths of a unit, written with two decimals, truncated.
pub open spec fn spec_fixed2(hundredths: nat) -> Seq<char> {
    spec_dec(hundredths / 100) + "."@ + spec_pad2(hundredths % 100)
}

/// What `human_bytes` prints: byte counts over a kibibyte scale to the
/// largest binary unit strictly exceeded, with two truncated decimals and
/// a unit letter; smaller counts print as bare digits. In fixed-width
/// form the number is space-padded to seven characters for table columns.
pub open spec fn spec_human_bytes(bytes: nat, fixed_width: bool) -> Seq<char> {
    if bytes > 1024 {
        let div: nat = if bytes > 1099511627776 {
            1099511627776
        } else if bytes > 1073741824 {
            1073741824
        } else if bytes > 1048576 {
            1048576
        } else {
            1024
        };
        let prefix: char = if bytes > 1099511627776 {
            'T'
        } else if bytes > 1073741824 {
            'G'
        } else if bytes > 1048576 {
            'M'
        } else {
            'k'
        };
        let num = spec_fixed2(bytes * 100 / div);
        (if fixed_width {
            spec_pad_left(num, 7)
        } else {
            num
        }).push(prefix)
    } else {
        if fixed_width {
            spec_pad_left(spec_dec(bytes), 7)
        } else {
            spec_dec(bytes)
        }
    }
}

/// The scaled value with two decimals: 100 * bytes / divisor, computed
/// without overflow.
fn scale_hundredths(bytes: usize, div: u64) -> (r: u64)
    requires
        div >= 1024,
        bytes > div,
    ensures
        r == (bytes * 100) as nat / div as nat,
{
    proof {
        assert((bytes as u128) * 100 <= (usize::MAX as u128) * 100) by (nonlinear_arith)
            requires
                bytes <= usize::MAX,
        ;
    }
    let num: u128 = (bytes as u128) * 100;
    let q = num / (div as u128);
    proof {
        assert(num / (div as u128) <= num / 1024) by (nonlinear_arith)
            requires
                div >= 1024,
                num >= 0,
        ;
        assert((usize::MAX as u128) * 100 / 1024 <= u64::MAX) by (nonlinear_arith);
        assert(num / 1024 <= (usize::MAX as u128) * 100 / 1024) by (nonlinear_arith)
            requires
                num <= (usize::MAX as u128) * 100,
        ;
    }
    q as u64
}

/// Writes a byte count the way the tables show memory figures.
pub fn human_bytes(bytes: usize, fixed_width: bool) -> (r: String)
    ensures
        r@ == spec_human_bytes(bytes as nat, fixed_width),
{
    let b = bytes as u64;
    if b > 1024 {
        let (div, prefix): (u64, &'static str) = if b > 1099511627776u64 {
            (1099511627776u64, "T")
        } else if b > 1073741824 {
            (1073741824u64, "G")
        } else if b > 1048576 {
            (1048576u64, "M")
        } else {
            (1024u64, "k")
        };
        let hundredths = scale_hundredths(bytes, div);
        let mut num = u64_to_string(hundredths / 100);
        num.append(".");
        num.append(pad2(hundredths % 100).as_str());
        proof {
            reveal_strlit("T");
            reveal_strlit("G");
            reveal_strlit("M");
            reveal_strlit("k");
            assert(num@ =~= spec_fixed2((bytes * 100) as nat / div as nat));
        }
        let mut out = if fixed_width {
            pad_left(num, 7)
        } else {
            num
        };
        out.append(prefix);
        proof {
            assert(out@ =~= spec_human_bytes(bytes as nat, fixed_width));
        }
        out
    } else {
        let digits = u64_to_string(bytes as u64);
        let out = if fixed_width {
            pad_left(digits, 7)
        } else {
            digits
        };
        proof {
            assert(out@ =~= spec_human_bytes(bytes as nat, fixed_width));
        }
        out
    }
}

} // verus!
