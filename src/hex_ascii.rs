use vstd::prelude::*;

verus! {

/// The lower-case ASCII hex digit of a number below 16.
pub open spec fn hex_digit(n: u8) -> u8
    recommends
        n < 16,
{
    if n < 10 {
        (n + 0x30) as u8
    } else {
        (n - 10 + 0x61) as u8
    }
}

/// Turn a number from 0 to 15 into its ASCII hex digit; `None` above 15.
pub fn num_to_hex_ascii(num: &u8) -> (r: Option<u8>)
    ensures
        *num < 16 ==> r == Some(hex_digit(*num)),
        *num >= 16 ==> r.is_none(),
{
    if *num <= 9 {
        Some(*num + 0x30)
    } else if *num <= 15 {
        Some(*num - 10 + 0x61)
    } else {
        None
    }
}

/// Turn a byte into its two lower-case ASCII hex digits, high nibble first.
///
/// ```text
/// 0xaf => b"af"
/// 0x1b => b"1b"
/// ```
pub fn byte_to_hex_ascii(byte: &u8) -> (r: [u8; 2])
    ensures
        r[0] == hex_digit(*byte / 16),
        r[1] == hex_digit(*byte % 16),
{
    let right_hand: u8 = *byte % 16;
    let left_hand: u8 = *byte / 16;
    let left = match num_to_hex_ascii(&left_hand) {
        Some(c) => c,
        None => 0,
    };
    let right = match num_to_hex_ascii(&right_hand) {
        Some(c) => c,
        None => 0,
    };
    [left, right]
}

} // verus!
