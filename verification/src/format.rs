//! Compact magnitude formatting for damage labels.
//!
//! Values are bucketed top-down by absolute size: hundred-billions are
//! shown in billions with one decimal and a `G` suffix, billions in
//! whole millions with an `M` suffix, millions in millions with one
//! decimal and an `M` suffix, thousands as whole thousands with a `K`
//! suffix, and anything smaller as a plain integer. The decimal tiers
//! round half away from zero; the `K` and plain tiers truncate.

use vstd::prelude::*;

verus! {

/// The decimal digit character for `d` (0 through 9).
pub open spec fn digit_char(d: int) -> char {
    if d == 0 {
        '0'
    } else if d == 1 {
        '1'
    } else if d == 2 {
        '2'
    } else if d == 3 {
        '3'
    } else if d == 4 {
        '4'
    } else if d == 5 {
        '5'
    } else if d == 6 {
        '6'
    } else if d == 7 {
        '7'
    } else if d == 8 {
        '8'
    } else {
        '9'
    }
}

/// The decimal digit string of `n`, most significant digit first, with
/// no leading zeros ("0" for zero).
pub open spec fn dec_digits(n: nat) -> Seq<char>
    decreases n,
{
    if n < 10 {
        seq![digit_char(n as int)]
    } else {
        dec_digits(n / 10).push(digit_char((n % 10) as int))
    }
}

/// The compact label for a damage value, by magnitude bracket. Each
/// bracket is inclusive of its lower bound; the decimal tiers round
/// half up and the `K` and plain tiers truncate.
pub open spec fn format_spec(v: nat) -> Seq<char> {
    if v >= 100_000_000_000 {
        let t = v / 100_000_000 + (if v % 100_000_000 >= 50_000_000 {
            1int
        } else {
            0int
        });
        dec_digits((t / 10) as nat) + seq!['.'] + seq![digit_char(t % 10)] + seq!['G']
    } else if v >= 1_000_000_000 {
        let m = v / 1_000_000 + (if v % 1_000_000 >= 500_000 {
            1int
        } else {
            0int
        });
        dec_digits(m as nat) + seq!['M']
    } else if v >= 1_000_000 {
        let t = v / 100_000 + (if v % 100_000 >= 50_000 {
            1int
        } else {
            0int
        });
        dec_digits((t / 10) as nat) + seq!['.'] + seq![digit_char(t % 10)] + seq!['M']
    } else if v >= 1_000 {
        dec_digits((v / 1_000) as nat) + seq!['K']
    } else {
        dec_digits(v)
    }
}

/// The single-character string holding the digit `d`.
pub fn digit_str(d: u64) -> (s: &'static str)
    requires
        d < 10,
    ensures
        s@ =~= seq![digit_char(d as int)],
{
    let digits = "0123456789";
    proof {
        reveal_strlit("0123456789");
    }
    let r = digits.substring_char(d as usize, d as usize + 1);
    proof {
        assert(r@ =~= seq![digit_char(d as int)]);
    }
    r
}

/// The decimal digit string of `n`, as a `String`.
pub fn digits_string(n: u64) -> (s: String)
    ensures
        s@ == dec_digits(n as nat),
    decreases n,
{
    if n < 10 {
        String::from_str(digit_str(n))
    } else {
        let mut s = digits_string(n / 10);
        s.append(digit_str(n % 10));
        proof {
            assert(s@ =~= dec_digits((n / 10) as nat).push(digit_char((n % 10) as int)));
        }
        s
    }
}

/// Compact display label for a damage value.
pub fn format_damage(value: u64) -> (s: String)
    ensures
        s@ == format_spec(value as nat),
{
    proof {
        reveal_strlit(".");
        reveal_strlit("G");
        reveal_strlit("M");
        reveal_strlit("K");
    }
    if value >= 100_000_000_000 {
        let t = value / 100_000_000 + (if value % 100_000_000 >= 50_000_000 {
            1
        } else {
            0
        });
        let mut s = digits_string(t / 10);
        s.append(".");
        s.append(digit_str(t % 10));
        s.append("G");
        proof {
            assert(s@ =~= format_spec(value as nat));
        }
        s
    } else if value >= 1_000_000_000 {
        let m = value / 1_000_000 + (if value % 1_000_000 >= 500_000 {
            1
        } else {
            0
        });
        let mut s = digits_string(m);
        s.append("M");
        proof {
            assert(s@ =~= format_spec(value as nat));
        }
        s
    } else if value >= 1_000_000 {
        let t = value / 100_000 + (if value % 100_000 >= 50_000 {
            1
        } else {
            0
        });
        let mut s = digits_string(t / 10);
        s.append(".");
        s.append(digit_str(t % 10));
        s.append("M");
        proof {
            assert(s@ =~= format_spec(value as nat));
        }
        s
    } else if value >= 1_000 {
        let mut s = digits_string(value / 1_000);
        s.append("K");
        proof {
            assert(s@ =~= format_spec(value as nat));
        }
        s
    } else {
        let s = digits_string(value);
        s
    }
}

} // verus!
