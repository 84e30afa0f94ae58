//! Small formatting helpers for identifiers read from hardware.

use vstd::prelude::*;

verus! {

/// The ASCII code of the upper-case hexadecimal digit for a value 0-15.
pub open spec fn spec_hex_digit(n: int) -> int {
    if n < 10 {
        48 + n  // '0'..'9'
    } else {
        55 + n  // 'A'..'F'
    }
}

/// Formats bytes as upper-case hexadecimal ASCII, two digits per byte.
pub fn hex_upper(bytes: &[u8]) -> (r: Vec<u8>)
    ensures
        r@.len() == 2 * bytes@.len(),
        forall|i: int|
            0 <= i < bytes@.len() ==> r@[2 * i] == spec_hex_digit(#[trigger] bytes@[i] as int / 16)
                && r@[2 * i + 1] == spec_hex_digit(bytes@[i] as int % 16),
{
    let mut r: Vec<u8> = Vec::new();
    let mut i: usize = 0;
    while i < bytes.len()
        invariant
            i <= bytes@.len(),
            r@.len() == 2 * i,
            forall|k: int|
                0 <= k < i ==> r@[2 * k] == spec_hex_digit(#[trigger] bytes@[k] as int / 16)
                    && r@[2 * k + 1] == spec_hex_digit(bytes@[k] as int % 16),
        decreases bytes@.len() - i,
    {
        let b = bytes[i];
        r.push(hex_digit(b / 16));
        r.push(hex_digit(b % 16));
        i = i + 1;
    }
    r
}

/// The upper-case hexadecimal digit for a value 0-15.
fn hex_digit(n: u8) -> (r: u8)
    requires
        n < 16,
    ensures
        r == spec_hex_digit(n as int),
{
    if n < 10 {
        48 + n
    } else {
        55 + n
    }
}

} // verus!
