//! Size and duration formatting for the bundling report.

use vstd::prelude::*;

verus! {

/// The decimal digit character for `d`.
pub open spec fn digit_char(d: int) -> char {
    if d == 0 {
        '0'
    } else if d == 1 {
        '1'
    } else if d == 2 {
        '2'
    } else if d == 3 {
        '3'
    } else if d == 4 {
        '4'
    } else if d == 5 {
        '5'
    } else if d == 6 {
        '6'
    } else if d == 7 {
        '7'
    } else if d == 8 {
        '8'
    } else {
        '9'
    }
}

/// The decimal digits of `n`, most significant first, with no leading zero
/// except for `n == 0` itself.
pub open spec fn dec_digits(n: nat) -> Seq<char>
    decreases n,
{
    if n < 10 {
        seq![digit_char(n as int)]
    } else {
        dec_digits(n / 10).push(digit_char((n % 10) as int))
    }
}

fn digit_str(d: u128) -> (r: &'static str)
    requires
        d < 10,
    ensures
        r@ == seq![digit_char(d as int)],
{
    let r: &'static str = if d == 0 {
        "0"
    } else if d == 1 {
        "1"
    } else if d == 2 {
        "2"
    } else if d == 3 {
        "3"
    } else if d == 4 {
        "4"
    } else if d == 5 {
        "5"
    } else if d == 6 {
        "6"
    } else if d == 7 {
        "7"
    } else if d == 8 {
        "8"
    } else {
        "9"
    };
    proof {
        reveal_strlit("0");
        reveal_strlit("1");
        reveal_strlit("2");
        reveal_strlit("3");
        reveal_strlit("4");
        reveal_strlit("5");
        reveal_strlit("6");
        reveal_strlit("7");
        reveal_strlit("8");
        reveal_strlit("9");
        assert(r@ =~= seq![digit_char(d as int)]);
    }
    r
}

/// Writes `n` in decimal.
pub fn u128_to_dec(n: u128) -> (r: String)
    ensures
        r@ == dec_digits(n as nat),
    decreases n,
{
    if n < 10 {
        let d = digit_str(n);
        d.to_owned()
    } else {
        let mut s = u128_to_dec(n / 10);
        let d = digit_str(n % 10);
        s.append(d);
        proof {
            assert(dec_digits((n / 10) as nat) + seq![digit_char((n % 10) as int)] =~= dec_digits(
                (n / 10) as nat,
            ).push(digit_char((n % 10) as int)));
        }
        s
    }
}

/// The milliseconds count followed by the unit, e.g. `288ms`.
pub open spec fn spec_format_time_passed(n: nat) -> Seq<char> {
    dec_digits(n) + seq!['m', 's']
}

/// Formats a wall-clock duration in milliseconds for the build log.
pub fn format_time_passed(time_passed: u128) -> (r: String)
    ensures
        r@ == spec_format_time_passed(time_passed as nat),
{
    let mut s = u128_to_dec(time_passed);
    s.append("ms");
    proof {
        reveal_strlit("ms");
        assert("ms"@ =~= seq!['m', 's']);
    }
    s
}

/// `h` hundredths written with two decimal places, e.g. `105` to `1.05`.
pub open spec fn spec_two_decimals(h: nat) -> Seq<char> {
    dec_digits(h / 100) + seq!['.'] + (if h % 100 < 10 {
        seq!['0', digit_char((h % 100) as int)]
    } else {
        dec_digits(h % 100)
    })
}

/// A byte count rounded half-up to hundredths of a kilobyte below one
/// megabyte (crossing over where the rounded value would exceed
/// `999.99 kB`), and to hundredths of a megabyte from there on.
pub open spec fn spec_format_size(size: nat) -> Seq<char> {
    if size > 999994 {
        spec_two_decimals((size + 5000) / 10000) + seq![' ', 'M', 'B']
    } else {
        spec_two_decimals((size + 5) / 10) + seq![' ', 'k', 'B']
    }
}

fn two_decimals(h: u128) -> (r: String)
    ensures
        r@ == spec_two_decimals(h as nat),
{
    let mut s = u128_to_dec(h / 100);
    s.append(".");
    let frac = h % 100;
    if frac < 10 {
        s.append("0");
        let d = digit_str(frac);
        s.append(d);
    } else {
        let f = u128_to_dec(frac);
        s.append(f.as_str());
    }
    proof {
        reveal_strlit(".");
        reveal_strlit("0");
        assert("."@ =~= seq!['.']);
        assert("0"@ =~= seq!['0']);
        assert(s@ =~= spec_two_decimals(h as nat));
    }
    s
}

/// Formats a file size in bytes for the build report.
pub fn format_size(size_in_bytes: usize) -> (r: String)
    ensures
        r@ == spec_format_size(size_in_bytes as nat),
{
    let size = size_in_bytes as u128;
    if size > 999994 {
        let mut s = two_decimals((size + 5000) / 10000);
        s.append(" MB");
        proof {
            reveal_strlit(" MB");
            assert(" MB"@ =~= seq![' ', 'M', 'B']);
        }
        s
    } else {
        let mut s = two_decimals((size + 5) / 10);
        s.append(" kB");
        proof {
            reveal_strlit(" kB");
            assert(" kB"@ =~= seq![' ', 'k', 'B']);
        }
        s
    }
}

} // verus!
