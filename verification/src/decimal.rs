//! Decimal rendering of the numeric version fields. The zero-padded form is
//! the heart of the sort-key design: on equally wide fields, lexicographic
//! character order coincides with numeric order.

use vstd::prelude::*;

use crate::order::{lemma_lex_lt_push, lex_lt};
use vstd::string::StringExecFns;

verus! {

/// The digit character of `d` (meaningful for `d < 10`).
pub open spec fn digit_char(d: nat) -> char {
    if d == 0 {
        '0'
    } else if d == 1 {
        '1'
    } else if d == 2 {
        '2'
    } else if d == 3 {
        '3'
    } else if d == 4 {
        '4'
    } else if d == 5 {
        '5'
    } else if d == 6 {
        '6'
    } else if d == 7 {
        '7'
    } else if d == 8 {
        '8'
    } else {
        '9'
    }
}

/// `n` in decimal, zero-padded to exactly `width` digits.
pub open spec fn padded_decimal(n: nat, width: nat) -> Seq<char>
    decreases width,
{
    if width == 0 {
        Seq::empty()
    } else {
        padded_decimal(n / 10, (width - 1) as nat).push(digit_char(n % 10))
    }
}

/// `n` in decimal with no leading zero (except for `n == 0` itself).
pub open spec fn decimal(n: nat) -> Seq<char>
    decreases n,
{
    if n < 10 {
        seq![digit_char(n)]
    } else {
        decimal(n / 10).push(digit_char(n % 10))
    }
}

pub open spec fn pow10(w: nat) -> nat
    decreases w,
{
    if w == 0 {
        1
    } else {
        10 * pow10((w - 1) as nat)
    }
}

pub proof fn lemma_padded_decimal_len(n: nat, width: nat)
    ensures
        padded_decimal(n, width).len() == width,
    decreases width,
{
    if width > 0 {
        lemma_padded_decimal_len(n / 10, (width - 1) as nat);
    }
}

/// Every `u64` fits in twenty decimal digits.
pub proof fn lemma_u64_fits_twenty_digits()
    ensures
        pow10(20) > 0xFFFF_FFFF_FFFF_FFFFnat,
{
    reveal_with_fuel(pow10, 21);
}

/// On numbers below `10^width`, the zero-padded form is injective and its
/// lexicographic order is exactly the numeric order.
pub proof fn lemma_padded_decimal_order(a: nat, b: nat, width: nat)
    requires
        a < pow10(width),
        b < pow10(width),
    ensures
        lex_lt(padded_decimal(a, width), padded_decimal(b, width)) == (a < b),
        (padded_decimal(a, width) == padded_decimal(b, width)) == (a == b),
    decreases width,
{
    if width == 0 {
        assert(padded_decimal(a, 0) =~= padded_decimal(b, 0));
    } else {
        let w1 = (width - 1) as nat;
        let a1 = a / 10;
        let b1 = b / 10;
        let da = a % 10;
        let db = b % 10;
        assert(a == 10 * a1 + da && da < 10);
        assert(b == 10 * b1 + db && db < 10);
        assert(a1 < pow10(w1));
        assert(b1 < pow10(w1));
        lemma_padded_decimal_order(a1, b1, w1);
        lemma_padded_decimal_len(a1, w1);
        lemma_padded_decimal_len(b1, w1);
        lemma_lex_lt_push(
            padded_decimal(a1, w1),
            padded_decimal(b1, w1),
            digit_char(da),
            digit_char(db),
        );
        assert((digit_char(da) < digit_char(db)) == (da < db));
        assert((digit_char(da) == digit_char(db)) == (da == db));
    }
}

/// Appends the digit character of `d`.
pub(crate) fn push_digit(out: &mut String, d: u8)
    requires
        d < 10,
    ensures
        final(out)@ == old(out)@ + seq![digit_char(d as nat)],
{
    if d == 0 {
        proof {
            reveal_strlit("0");
            assert("0"@ =~= seq![digit_char(0)]);
        }
        out.append("0");
    } else if d == 1 {
        proof {
            reveal_strlit("1");
            assert("1"@ =~= seq![digit_char(1)]);
        }
        out.append("1");
    } else if d == 2 {
        proof {
            reveal_strlit("2");
            assert("2"@ =~= seq![digit_char(2)]);
        }
        out.append("2");
    } else if d == 3 {
        proof {
            reveal_strlit("3");
            assert("3"@ =~= seq![digit_char(3)]);
        }
        out.append("3");
    } else if d == 4 {
        proof {
            reveal_strlit("4");
            assert("4"@ =~= seq![digit_char(4)]);
        }
        out.append("4");
    } else if d == 5 {
        proof {
            reveal_strlit("5");
            assert("5"@ =~= seq![digit_char(5)]);
        }
        out.append("5");
    } else if d == 6 {
        proof {
            reveal_strlit("6");
            assert("6"@ =~= seq![digit_char(6)]);
        }
        out.append("6");
    } else if d == 7 {
        proof {
            reveal_strlit("7");
            assert("7"@ =~= seq![digit_char(7)]);
        }
        out.append("7");
    } else if d == 8 {
        proof {
            reveal_strlit("8");
            assert("8"@ =~= seq![digit_char(8)]);
        }
        out.append("8");
    } else {
        proof {
            reveal_strlit("9");
            assert("9"@ =~= seq![digit_char(9)]);
        }
        out.append("9");
    }
}

/// Appends `n` zero-padded to `width` digits.
pub fn push_padded_decimal(out: &mut String, n: u64, width: u8)
    ensures
        final(out)@ == old(out)@ + padded_decimal(n as nat, width as nat),
    decreases width,
{
    if width == 0 {
        proof {
            assert(out@ + padded_decimal(n as nat, 0) =~= out@);
        }
    } else {
        push_padded_decimal(out, n / 10, width - 1);
        push_digit(out, (n % 10) as u8);
        proof {
            assert((n % 10) as u8 as nat == n as nat % 10);
            assert((n / 10) as nat == n as nat / 10);
            assert(out@ =~= old(out)@ + padded_decimal(n as nat, width as nat));
        }
    }
}

/// Appends `n` in decimal with no leading zero.
pub fn push_decimal(out: &mut String, n: u64)
    ensures
        final(out)@ == old(out)@ + decimal(n as nat),
    decreases n,
{
    if n < 10 {
        push_digit(out, n as u8);
        proof {
            assert(out@ =~= old(out)@ + decimal(n as nat));
        }
    } else {
        push_decimal(out, n / 10);
        push_digit(out, (n % 10) as u8);
        proof {
            assert((n % 10) as u8 as nat == n as nat % 10);
            assert((n / 10) as nat == n as nat / 10);
            assert(out@ =~= old(out)@ + decimal(n as nat));
        }
    }
}

} // verus!
