//! Rendering a classification as the stored result line.
//!
//! A confidence is carried as a whole number of hundredths of a
//! percent (so 8700 stands for 87%), which keeps the arithmetic exact.
//! The rendered percentage drops trailing zeros after the decimal
//! point, so 8700 renders as `87` and 8750 as `87.5`.

use crate::digest::{hex_digit_char, hex_digit_str};
use vstd::prelude::*;

verus! {

/// Decimal rendering of a whole percentage from zero through one
/// hundred.
pub open spec fn whole_percent_chars(n: int) -> Seq<char>
    recommends
        0 <= n <= 100,
{
    if n == 100 {
        seq!['1', '0', '0']
    } else if n >= 10 {
        seq![hex_digit_char(n / 10), hex_digit_char(n % 10)]
    } else {
        seq![hex_digit_char(n)]
    }
}

/// Rendering of a confidence given in hundredths of a percent, with
/// trailing zeros after the decimal point dropped.
pub open spec fn percent_chars(hp: int) -> Seq<char>
    recommends
        0 <= hp <= 10000,
{
    let whole = hp / 100;
    let frac = hp % 100;
    if frac == 0 {
        whole_percent_chars(whole)
    } else if frac % 10 == 0 {
        whole_percent_chars(whole) + seq!['.', hex_digit_char(frac / 10)]
    } else {
        whole_percent_chars(whole) + seq!['.', hex_digit_char(frac / 10), hex_digit_char(frac % 10)]
    }
}

/// The stored result line for a label and a confidence.
pub open spec fn message_chars(label: Seq<char>, hp: int) -> Seq<char> {
    "The image represents a "@ + label + ", with "@ + percent_chars(hp) + "% accuracy"@
}

/// Renders a confidence, given in hundredths of a percent, as a
/// percentage.
pub fn percent_string(hp: u32) -> (r: String)
    requires
        hp <= 10000,
    ensures
        r@ == percent_chars(hp as int),
{
    let whole = hp / 100;
    let frac = hp % 100;
    let mut s = String::new();
    if whole == 100 {
        proof {
            reveal_strlit("100");
        }
        s.append("100");
        proof {
            assert(s@ =~= whole_percent_chars(whole as int));
        }
    } else if whole >= 10 {
        s.append(hex_digit_str((whole / 10) as u8));
        s.append(hex_digit_str((whole % 10) as u8));
        proof {
            assert(s@ =~= whole_percent_chars(whole as int));
        }
    } else {
        s.append(hex_digit_str(whole as u8));
        proof {
            assert(s@ =~= whole_percent_chars(whole as int));
        }
    }
    if frac != 0 {
        proof {
            reveal_strlit(".");
        }
        s.append(".");
        s.append(hex_digit_str((frac / 10) as u8));
        if frac % 10 != 0 {
            s.append(hex_digit_str((frac % 10) as u8));
            proof {
                assert(s@ =~= percent_chars(hp as int));
            }
        } else {
            proof {
                assert(s@ =~= percent_chars(hp as int));
            }
        }
    }
    s
}

/// Formats the result line that is returned to the caller and stored
/// under the input's fingerprint.
pub fn format_result(label: &String, confidence_hp: u32) -> (r: String)
    requires
        confidence_hp <= 10000,
    ensures
        r@ == message_chars(label@, confidence_hp as int),
{
    let mut s = String::from_str("The image represents a ");
    s.append(label.as_str());
    s.append(", with ");
    let pct = percent_string(confidence_hp);
    s.append(pct.as_str());
    s.append("% accuracy");
    s
}

} // verus!
