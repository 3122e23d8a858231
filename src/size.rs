//! Human-readable byte sizes.

use vstd::prelude::*;
use vstd::string::*;

verus! {

pub const ONE_KI_B: i64 = 1024;

pub const ONE_MI_B: i64 = ONE_KI_B * 1024;

pub const ONE_GI_B: i64 = ONE_MI_B * 1024;

pub const ONE_TI_B: i64 = ONE_GI_B * 1024;

pub const ONE_PI_B: i64 = ONE_TI_B * 1024;

pub open spec fn digit_char(d: nat) -> char {
    seq!['0', '1', '2', '3', '4', '5', '6', '7', '8', '9'][d as int]
}

/// Decimal digits of a natural number, most significant first, no leading zeros.
pub open spec fn digits(n: nat) -> Seq<char>
    decreases n,
{
    if n < 10 {
        seq![digit_char(n)]
    } else {
        digits(n / 10).push(digit_char(n % 10))
    }
}

/// Decimal text of an integer, with a leading '-' when it is negative.
pub open spec fn decimal(n: int) -> Seq<char> {
    if n < 0 {
        seq!['-'] + digits((-n) as nat)
    } else {
        digits(n as nat)
    }
}

/// The size in the largest binary unit (up to PiB) of which it holds at
/// least one, rounded down; sizes under one KiB (negative ones too) in bytes.
pub open spec fn pretty_size(bytes: i64) -> Seq<char> {
    if bytes < ONE_KI_B {
        decimal(bytes as int) + " Bytes"@
    } else if bytes < ONE_MI_B {
        decimal(bytes / ONE_KI_B) + " KiB"@
    } else if bytes < ONE_GI_B {
        decimal(bytes / ONE_MI_B) + " MiB"@
    } else if bytes < ONE_TI_B {
        decimal(bytes / ONE_GI_B) + " GiB"@
    } else if bytes < ONE_PI_B {
        decimal(bytes / ONE_TI_B) + " TiB"@
    } else {
        decimal(bytes / ONE_PI_B) + " PiB"@
    }
}

/// Relies on `i64`'s `Display` (through `ToString`): decimal digits without
/// leading zeros, after a '-' for a negative value.
#[verifier::external_body]
fn decimal_string(n: i64) -> (r: String)
    ensures
        r@ == decimal(n as int),
{
    n.to_string()
}

fn with_unit(n: i64, unit: &str) -> (r: String)
    ensures
        r@ == decimal(n as int) + unit@,
{
    let mut s = decimal_string(n);
    s.append(unit);
    s
}

/// Pretty print the given size using human readable format.
pub fn get_pretty_size(bytes: i64) -> (r: String)
    ensures
        r@ == pretty_size(bytes),
{
    if bytes < ONE_KI_B {
        return with_unit(bytes, " Bytes");
    }
    if bytes < ONE_MI_B {
        return with_unit(bytes / ONE_KI_B, " KiB");
    }
    if bytes < ONE_GI_B {
        return with_unit(bytes / ONE_MI_B, " MiB");
    }
    if bytes < ONE_TI_B {
        return with_unit(bytes / ONE_GI_B, " GiB");
    }
    if bytes < ONE_PI_B {
        return with_unit(bytes / ONE_TI_B, " TiB");
    }
    with_unit(bytes / ONE_PI_B, " PiB")
}

} // verus!
