//! Fixed-point decimals for the API's fractional settings.

use vstd::prelude::*;
use vstd::string::*;
use crate::text::{decimal_text, decimal_text_of, digit_char, digit_str};

verus! {

/// A decimal number with three fractional digits, held as a count of
/// thousandths: `Decimal { thousandths: 1500 }` is 1.5.
#[derive(Clone, Copy, Debug, PartialEq, Eq, Structural)]
pub struct Decimal {
    pub thousandths: i64,
}

impl Decimal {
    /// The decimal `thousandths / 1000`.
    pub fn from_thousandths(thousandths: i64) -> (r: Decimal)
        ensures
            r.thousandths == thousandths,
    {
        Decimal { thousandths }
    }

    /// The nearest value to `self` within `[0, limit]`.
    pub fn clamp_to(self, limit: Decimal) -> (r: Decimal)
        requires
            limit.thousandths >= 0,
        ensures
            r.thousandths == clamped(self.thousandths as int, limit.thousandths as int),
    {
        if self.thousandths < 0 {
            Decimal { thousandths: 0 }
        } else if self.thousandths > limit.thousandths {
            limit
        } else {
            self
        }
    }
}

/// `v` moved into `[0, limit]`: values below 0 become 0, values above `limit`
/// become `limit`, values inside are kept.
pub open spec fn clamped(v: int, limit: int) -> int {
    if v < 0 {
        0
    } else if v > limit {
        limit
    } else {
        v
    }
}

/// The fractional digits of `f` thousandths, `0 < f < 1000`, after a dot and
/// without trailing zeros.
pub open spec fn fraction_text(f: nat) -> Seq<char> {
    if f % 100 == 0 {
        seq!['.', digit_char(f / 100)]
    } else if f % 10 == 0 {
        seq!['.', digit_char(f / 100), digit_char((f / 10) % 10)]
    } else {
        seq!['.', digit_char(f / 100), digit_char((f / 10) % 10), digit_char(f % 10)]
    }
}

/// The shortest decimal notation of `m` thousandths, `m >= 0`: `1000` is `1`,
/// `500` is `0.5`, `1250` is `1.25`.
pub open spec fn unsigned_notation(m: nat) -> Seq<char> {
    if m % 1000 == 0 {
        decimal_text(m / 1000)
    } else {
        decimal_text(m / 1000) + fraction_text(m % 1000)
    }
}

/// The shortest decimal notation of `t` thousandths, with a minus sign when
/// negative.
pub open spec fn decimal_notation(t: int) -> Seq<char> {
    if t < 0 {
        seq!['-'] + unsigned_notation((-t) as nat)
    } else {
        unsigned_notation(t as nat)
    }
}

impl Decimal {
    /// The shortest decimal notation of this number.
    pub fn to_text(&self) -> (r: String)
        ensures
            r@ == decimal_notation(self.thousandths as int),
    {
        let t = self.thousandths;
        let m: u64 = if t < 0 {
            (-(t as i128)) as u64
        } else {
            t as u64
        };
        assert(m as int == if t < 0 { -(t as int) } else { t as int });
        let mut out = decimal_text_of(m / 1000);
        let f = m % 1000;
        if f != 0 {
            proof {
                reveal_strlit(".");
            }
            out.append(".");
            out.append(digit_str(f / 100));
            if f % 100 != 0 {
                out.append(digit_str((f / 10) % 10));
                if f % 10 != 0 {
                    out.append(digit_str(f % 10));
                }
            }
            assert(out@ =~= decimal_text((m / 1000) as nat) + fraction_text(f as nat));
        }
        if t < 0 {
            proof {
                reveal_strlit("-");
            }
            let neg = String::from_str("-");
            let r = neg.concat(out.as_str());
            assert(r@ =~= seq!['-'] + unsigned_notation(m as nat));
            r
        } else {
            out
        }
    }
}

} // verus!
