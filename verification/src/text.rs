//! Display text for the parameters: fixed-point values rendered with
//! two decimal places and a unit suffix.  Purely presentational; never
//! part of the signal path.

use vstd::prelude::*;
use crate::fixed::trunc_div;
use crate::comp::{DuckComp, Strategy};
use crate::curves::gain_to_db_spec;

verus! {

/// The single decimal digit `d` as text.
pub open spec fn digit_seq(d: int) -> Seq<char> {
    if d == 0 {
        "0"@
    } else if d == 1 {
        "1"@
    } else if d == 2 {
        "2"@
    } else if d == 3 {
        "3"@
    } else if d == 4 {
        "4"@
    } else if d == 5 {
        "5"@
    } else if d == 6 {
        "6"@
    } else if d == 7 {
        "7"@
    } else if d == 8 {
        "8"@
    } else {
        "9"@
    }
}

/// The decimal rendering of a non-negative number.
pub open spec fn dec_seq(n: int) -> Seq<char>
    decreases n,
{
    if n <= 9 {
        digit_seq(n)
    } else {
        dec_seq(n / 10) + digit_seq(n % 10)
    }
}

/// A value in hundredths rendered with sign, integer part, and exactly
/// two decimal places.
pub open spec fn fixed2_seq(x: int) -> Seq<char> {
    let a = if x >= 0 {
        x
    } else {
        -x
    };
    let sign = if x < 0 {
        "-"@
    } else {
        ""@
    };
    sign + dec_seq(a / 100) + "."@ + digit_seq((a / 10) % 10) + digit_seq(a % 10)
}

/// One decimal digit as a string slice.
fn digit_str(d: u64) -> (r: &'static str)
    requires
        d <= 9,
    ensures
        r@ == digit_seq(d as int),
{
    if d == 0 {
        "0"
    } else if d == 1 {
        "1"
    } else if d == 2 {
        "2"
    } else if d == 3 {
        "3"
    } else if d == 4 {
        "4"
    } else if d == 5 {
        "5"
    } else if d == 6 {
        "6"
    } else if d == 7 {
        "7"
    } else if d == 8 {
        "8"
    } else {
        "9"
    }
}

/// The decimal rendering of a non-negative number.
pub fn dec_string(n: u64) -> (s: String)
    ensures
        s@ == dec_seq(n as int),
    decreases n,
{
    if n <= 9 {
        String::from_str(digit_str(n))
    } else {
        let mut s = dec_string(n / 10);
        s.append(digit_str(n % 10));
        s
    }
}

/// A value in hundredths rendered with two decimal places.
pub fn fixed2_string(x: i64) -> (s: String)
    requires
        -9_223_372_036_854_775_807 <= x,
    ensures
        s@ == fixed2_seq(x as int),
{
    let a: u64 = if x >= 0 {
        x as u64
    } else {
        (-x) as u64
    };
    let mut s: String = if x < 0 {
        String::from_str("-")
    } else {
        String::from_str("")
    };
    s.append(dec_string(a / 100).as_str());
    s.append(".");
    s.append(digit_str((a / 10) % 10));
    s.append(digit_str(a % 10));
    s
}

/// The display text of a parameter slot: its engineering value with two
/// decimal places and a fixed unit suffix.
pub open spec fn param_text_spec(c: DuckComp, index: int) -> Seq<char> {
    match c.strategy {
        Strategy::FeedforwardRms => {
            if index == 0 {
                fixed2_seq(trunc_div(c.attack as int, 10)) + " ms"@
            } else if index == 1 {
                fixed2_seq(trunc_div(c.release as int, 10)) + " ms"@
            } else if index == 2 {
                fixed2_seq(trunc_div(gain_to_db_spec(c.threshold as int), 10_000)) + " dB"@
            } else if index == 3 {
                "1:"@ + fixed2_seq(trunc_div(c.ratio as int, 10_000))
            } else if index == 4 {
                fixed2_seq(trunc_div(gain_to_db_spec(c.makeup as int), 10_000)) + " dB"@
            } else if index == 5 {
                fixed2_seq(trunc_div(gain_to_db_spec(c.range as int), 10_000)) + " dB"@
            } else {
                ""@
            }
        },
        Strategy::FeedbackRectified => {
            if index == 0 {
                fixed2_seq(trunc_div(c.attack as int, 10_000))
            } else if index == 1 {
                fixed2_seq(trunc_div(c.release as int, 10_000))
            } else if index == 2 {
                fixed2_seq(trunc_div(gain_to_db_spec(c.threshold as int), 10_000)) + " dB"@
            } else if index == 3 {
                fixed2_seq(trunc_div(gain_to_db_spec(c.makeup as int), 10_000)) + " dB"@
            } else {
                ""@
            }
        },
    }
}

impl DuckComp {
    /// The display text of a parameter; presentation only, never part
    /// of the signal path.
    pub fn get_parameter_text(&self, index: i32) -> (t: String)
        requires
            self.wf(),
        ensures
            t@ == param_text_spec(*self, index as int),
    {
        match self.strategy {
            Strategy::FeedforwardRms => {
                if index == 0 {
                    let mut s = fixed2_string(crate::fixed::div_trunc(self.attack, 10));
                    s.append(" ms");
                    s
                } else if index == 1 {
                    let mut s = fixed2_string(crate::fixed::div_trunc(self.release, 10));
                    s.append(" ms");
                    s
                } else if index == 2 {
                    let d: i64 = crate::curves::gain_to_db(self.threshold);
                    let mut s = fixed2_string(crate::fixed::div_trunc(d, 10_000));
                    s.append(" dB");
                    s
                } else if index == 3 {
                    let mut s = String::from_str("1:");
                    s.append(fixed2_string(crate::fixed::div_trunc(self.ratio, 10_000)).as_str());
                    s
                } else if index == 4 {
                    let d: i64 = crate::curves::gain_to_db(self.makeup);
                    let mut s = fixed2_string(crate::fixed::div_trunc(d, 10_000));
                    s.append(" dB");
                    s
                } else if index == 5 {
                    let d: i64 = crate::curves::gain_to_db(self.range);
                    let mut s = fixed2_string(crate::fixed::div_trunc(d, 10_000));
                    s.append(" dB");
                    s
                } else {
                    String::from_str("")
                }
            },
            Strategy::FeedbackRectified => {
                if index == 0 {
                    fixed2_string(crate::fixed::div_trunc(self.attack, 10_000))
                } else if index == 1 {
                    fixed2_string(crate::fixed::div_trunc(self.release, 10_000))
                } else if index == 2 {
                    let d: i64 = crate::curves::gain_to_db(self.threshold);
                    let mut s = fixed2_string(crate::fixed::div_trunc(d, 10_000));
                    s.append(" dB");
                    s
                } else if index == 3 {
                    let d: i64 = crate::curves::gain_to_db(self.makeup);
                    let mut s = fixed2_string(crate::fixed::div_trunc(d, 10_000));
                    s.append(" dB");
                    s
                } else {
                    String::from_str("")
                }
            },
        }
    }
}

} // verus!
