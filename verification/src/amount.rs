//! Amounts of TEC in fixed point: one TEC is 100,000,000 units.

use vstd::prelude::*;
use crate::text::{decimal_text, digit, digit_char, push_char, push_decimal};

verus! {

/// Units in one TEC.
pub const COIN: i64 = 100_000_000;

/// Largest number of TEC that will ever be issued by mining, in units.
pub const MAX_SUPPLY: i128 = 1_000_000_000_000_000;

/// `w` decimal digits of `n`, zero-padded on the left (the lowest `w` digits).
pub open spec fn padded_text(n: nat, w: nat) -> Seq<char>
    decreases w,
{
    if w == 0 {
        Seq::empty()
    } else {
        padded_text(n / 10, (w - 1) as nat).push(digit_char((n % 10) as int))
    }
}

/// The `w`-digit fraction `f` without its trailing zeros.
pub open spec fn fraction_text(f: nat, w: nat) -> Seq<char>
    decreases w,
{
    if w > 0 && f % 10 == 0 {
        fraction_text(f / 10, (w - 1) as nat)
    } else {
        padded_text(f, w)
    }
}

pub open spec fn magnitude(a: int) -> nat {
    if a < 0 {
        (-a) as nat
    } else {
        a as nat
    }
}

/// An amount in TEC as a decimal: sign, whole TEC, and the fraction without
/// trailing zeros (no point when there is no fraction), e.g. `10.001`, `100`.
pub open spec fn amount_text(a: int) -> Seq<char> {
    let m = magnitude(a);
    (if a < 0 { seq!['-'] } else { Seq::empty() }) + decimal_text(m / (COIN as nat)) + if m % (COIN as nat) != 0 {
        seq!['.'] + fraction_text(m % (COIN as nat), 8)
    } else {
        Seq::empty()
    }
}

/// A positive amount below 1000 units (below 0.00001 TEC) as `serde_json`
/// writes the number of TEC: its significant digits, a point after the first
/// when there are more, and the power of ten, e.g. `1e-8`, `1.23e-6`.
pub open spec fn tiny_amount_json(m: nat) -> Seq<char> {
    if m < 10 {
        seq![digit_char(m as int), 'e', '-', '8']
    } else if m < 100 {
        if m % 10 == 0 {
            seq![digit_char((m / 10) as int), 'e', '-', '7']
        } else {
            seq![digit_char((m / 10) as int), '.', digit_char((m % 10) as int), 'e', '-', '7']
        }
    } else if m % 100 == 0 {
        seq![digit_char((m / 100) as int), 'e', '-', '6']
    } else if m % 10 == 0 {
        seq![digit_char((m / 100) as int), '.', digit_char(((m / 10) % 10) as int), 'e', '-', '6']
    } else {
        seq![
            digit_char((m / 100) as int),
            '.',
            digit_char(((m / 10) % 10) as int),
            digit_char((m % 10) as int),
            'e',
            '-',
            '6',
        ]
    }
}

/// An amount as the JSON number `serde_json` writes for the TEC it stands
/// for: amounts below 0.00001 TEC in exponent form, others as `amount_text`,
/// with `.0` when whole.
pub open spec fn amount_json(a: int) -> Seq<char> {
    let m = magnitude(a);
    if 0 < m < 1000 {
        (if a < 0 { seq!['-'] } else { Seq::empty() }) + tiny_amount_json(m)
    } else {
        amount_text(a) + if m % (COIN as nat) == 0 {
            seq!['.', '0']
        } else {
            Seq::empty()
        }
    }
}

fn push_tiny_amount(s: &mut String, m: u64)
    requires
        0 < m < 1000,
    ensures
        final(s)@ == old(s)@ + tiny_amount_json(m as nat),
{
    let ghost s0 = s@;
    if m < 10 {
        push_char(s, digit(m as u8));
        push_char(s, 'e');
        push_char(s, '-');
        push_char(s, '8');
    } else if m < 100 {
        push_char(s, digit((m / 10) as u8));
        if m % 10 != 0 {
            push_char(s, '.');
            push_char(s, digit((m % 10) as u8));
        }
        push_char(s, 'e');
        push_char(s, '-');
        push_char(s, '7');
    } else {
        push_char(s, digit((m / 100) as u8));
        if m % 100 != 0 {
            push_char(s, '.');
            push_char(s, digit(((m / 10) % 10) as u8));
            if m % 10 != 0 {
                push_char(s, digit((m % 10) as u8));
            }
        }
        push_char(s, 'e');
        push_char(s, '-');
        push_char(s, '6');
    }
    proof {
        assert(s@ =~= s0 + tiny_amount_json(m as nat));
    }
}

fn push_padded(s: &mut String, n: u64, w: u64)
    ensures
        final(s)@ == old(s)@ + padded_text(n as nat, w as nat),
    decreases w,
{
    if w > 0 {
        push_padded(s, n / 10, w - 1);
        push_char(s, digit((n % 10) as u8));
    }
    proof {
        if w == 0 {
            assert(final(s)@ =~= old(s)@ + padded_text(n as nat, w as nat));
        } else {
            assert(final(s)@ =~= old(s)@ + padded_text(n as nat, w as nat));
        }
    }
}

fn push_fraction(s: &mut String, f: u64, w: u64)
    ensures
        final(s)@ == old(s)@ + fraction_text(f as nat, w as nat),
    decreases w,
{
    if w > 0 && f % 10 == 0 {
        push_fraction(s, f / 10, w - 1);
    } else {
        push_padded(s, f, w);
    }
}

/// Appends the decimal text of an amount.
pub fn push_amount(s: &mut String, a: i64)
    ensures
        final(s)@ == old(s)@ + amount_text(a as int),
{
    let ghost s0 = s@;
    let m: u64 = if a < 0 {
        push_char(s, '-');
        (0i128 - a as i128) as u64
    } else {
        a as u64
    };
    let ghost s1 = s@;
    push_decimal(s, m / 100_000_000);
    let f = m % 100_000_000;
    if f != 0 {
        push_char(s, '.');
        push_fraction(s, f, 8);
    }
    proof {
        assert(m as nat == magnitude(a as int));
        assert(s@ =~= s0 + amount_text(a as int));
    }
}

/// Appends the JSON number of an amount.
pub fn push_amount_json(s: &mut String, a: i64)
    ensures
        final(s)@ == old(s)@ + amount_json(a as int),
{
    let ghost s0 = s@;
    let m: u64 = if a < 0 {
        (0i128 - a as i128) as u64
    } else {
        a as u64
    };
    assert(m as nat == magnitude(a as int));
    if 0 < m && m < 1000 {
        if a < 0 {
            push_char(s, '-');
        }
        push_tiny_amount(s, m);
        proof {
            assert(s@ =~= s0 + amount_json(a as int));
        }
        return;
    }
    push_amount(s, a);
    if m % 100_000_000 == 0 {
        push_char(s, '.');
        push_char(s, '0');
    }
    proof {
        assert(s@ =~= s0 + amount_json(a as int));
    }
}

/// The decimal text of an amount.
pub fn amount_string(a: i64) -> (s: String)
    ensures
        s@ == amount_text(a as int),
{
    let mut s = String::new();
    push_amount(&mut s, a);
    proof {
        assert(s@ =~= amount_text(a as int));
    }
    s
}

} // verus!
