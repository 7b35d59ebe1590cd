//! The byte-stuffing, CRC and fixed-array primitives this protocol is built from,
//! each a call into the crate that provides it.
use vstd::prelude::*;

verus! {

/// What `crc8_rs::fetch_crc8` returns: the remainder of the buffer, read as one
/// polynomial, divided by the generator polynomial.
pub uninterp spec fn crc8_remainder(data: Seq<u8>, polynomial: u8) -> u8;

/// What `cobs_rs::stuff` returns for a buffer and a marker byte.
pub uninterp spec fn cobs_stuffed(data: Seq<u8>, marker: u8) -> Seq<u8>;

/// The decoded buffer that `cobs_rs::unstuff` returns for a buffer and a marker byte.
pub uninterp spec fn cobs_unstuffed(data: Seq<u8>, marker: u8) -> Seq<u8>;

/// `n` copies of `fill`.
pub open spec fn filled(n: int, fill: u8) -> Seq<u8> {
    Seq::new(n as nat, |i: int| fill)
}

/// Relies on `crc8_rs::has_valid_crc8`: true exactly when `fetch_crc8` of the
/// buffer is zero. Its division never ends for a zero polynomial.
#[verifier::external_body]
pub(crate) fn crc8_is_valid(data: [u8; 254], polynomial: u8) -> (r: bool)
    requires
        polynomial != 0,
    ensures
        r == (crc8_remainder(data@, polynomial) == 0),
{
    crc8_rs::has_valid_crc8(data, polynomial)
}

/// Relies on `crc8_rs::insert_crc8`: the last byte becomes the generator polynomial
/// xor the remainder of the buffer with its last byte zeroed, which makes the
/// remainder of the result zero. Its division never ends for a zero polynomial.
#[verifier::external_body]
pub(crate) fn crc8_insert(data: [u8; 254], polynomial: u8) -> (r: [u8; 254])
    requires
        polynomial != 0,
    ensures
        r@ == data@.update(253, polynomial ^ crc8_remainder(data@.update(253, 0), polynomial)),
        crc8_remainder(r@, polynomial) == 0,
{
    crc8_rs::insert_crc8(data, polynomial)
}

/// Relies on `cobs_rs::stuff`, from 254 bytes to 256: every marker is removed
/// and one added at the end, so with a zero marker the first 255 bytes are not
/// zero and the last is.
#[verifier::external_body]
pub(crate) fn cobs_stuff(data: [u8; 254], marker: u8) -> (r: [u8; 256])
    ensures
        r@ == cobs_stuffed(data@, marker),
        marker == 0 ==> forall|j: int| 0 <= j < 255 ==> r@[j] != 0,
        marker == 0 ==> r@[255] == 0,
{
    cobs_rs::stuff(data, marker)
}

/// Relies on `cobs_rs::unstuff`, from 256 bytes to 254, with a zero marker. On a
/// buffer whose first two bytes are not the marker and which holds the marker
/// further on, it returns without panicking, and the length it returns is the
/// index of the first marker minus one.
#[verifier::external_body]
pub(crate) fn cobs_unstuff(data: [u8; 256], marker: u8) -> (r: ([u8; 254], usize))
    requires
        marker == 0,
        data@[0] != 0,
        data@[1] != 0,
        exists|t: int| 2 <= t < 256 && data@[t] == 0,
    ensures
        r.0@ == cobs_unstuffed(data@, marker),
        r.1 + 1 < 256,
        data@[r.1 + 1] == 0,
        forall|j: int| 0 <= j <= r.1 ==> data@[j] != 0,
{
    cobs_rs::unstuff(data, marker)
}

/// Relies on `array_utils::drift_to_end`: the first `till` elements move to the end,
/// `margin` elements before it; everything else is `fill`.
#[verifier::external_body]
pub(crate) fn drift_to_end(array: [u8; 254], till: usize, margin: usize, fill: u8) -> (r: [u8; 254])
    requires
        till + margin <= 254,
    ensures
        r@ == filled(254 - till - margin, fill) + array@.take(till as int) + filled(
            margin as int,
            fill,
        ),
{
    array_utils::drift_to_end(array, till, margin, fill)
}

/// Relies on `array_utils::drift_to_begin`: the elements from index `from` on move
/// to the beginning, `margin` elements after it; everything else is `fill`.
#[verifier::external_body]
pub(crate) fn drift_to_begin(array: [u8; 254], from: usize, margin: usize, fill: u8) -> (r: [u8; 254])
    requires
        margin <= from <= 254,
    ensures
        r@ == filled(margin as int, fill) + array@.skip(from as int) + filled(
            (from - margin) as int,
            fill,
        ),
{
    array_utils::drift_to_begin(array, from, margin, fill)
}

/// Relies on `array_utils::superimpose`: the elements of `sub` overwrite those of
/// `main` from index `from` on.
#[verifier::external_body]
pub(crate) fn superimpose(main: [u8; 254], sub: [u8; 192], from: usize) -> (r: [u8; 254])
    requires
        from + 192 <= 254,
    ensures
        r@ == main@.take(from as int) + sub@ + main@.skip(from + 192),
{
    array_utils::superimpose(main, sub, from)
}

/// Relies on `array_utils::sized_slice`: the elements with indices `from..till`,
/// followed by `fill` up to 192 elements.
#[verifier::external_body]
pub(crate) fn sized_slice(array: [u8; 254], from: usize, till: usize, fill: u8) -> (r: [u8; 192])
    requires
        from <= till <= 254,
        till - from <= 192,
    ensures
        r@ == array@.subrange(from as int, till as int) + filled(192 - (till - from), fill),
{
    array_utils::sized_slice(array, from, till, fill)
}

/// Relies on `array_utils::array_resize`: the one element, followed by `fill` up to
/// 192 elements.
#[verifier::external_body]
pub(crate) fn array_resize(array: [u8; 1], fill: u8) -> (r: [u8; 192])
    ensures
        r@ == array@ + filled(191, fill),
{
    array_utils::array_resize(array, fill)
}

} // verus!
