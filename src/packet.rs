//! The two packet shapes and the encode / decode contract they share.
use vstd::prelude::*;
use crate::bus::{self, read_away, write_away, Bus};
use crate::error::PktError;
use crate::primitives::{
    self, cobs_stuff, cobs_unstuff, crc8_insert, crc8_is_valid, drift_to_begin, drift_to_end,
};

verus! {

/// The generator polynomial of the cyclic redundancy checks.
pub const CRC_GEN_POLY: u8 = 0xA6;

/// The largest payload a packet carries.
pub const MAX_DATA_LENGTH: usize = 192;

/// The CRC byte that follows `body` in the unstuffed buffer.
pub open spec fn crc_byte(body: Seq<u8>) -> u8 {
    let padded = primitives::filled(253 - body.len(), 0) + body + seq![0u8];
    CRC_GEN_POLY ^ primitives::crc8_remainder(padded, CRC_GEN_POLY)
}

/// The unstuffed buffer of a packet: its metadata and payload, the CRC byte, then zeros.
pub open spec fn unstuffed_image(body: Seq<u8>) -> Seq<u8> {
    body + seq![crc_byte(body)] + primitives::filled(253 - body.len(), 0)
}

/// The stuffed buffer of a packet, with the terminator forced right after the
/// stuffed content.
pub open spec fn stuffed_image(body: Seq<u8>) -> Seq<u8> {
    primitives::cobs_stuffed(unstuffed_image(body), 0).update(body.len() + 2int, 0)
}

/// The bytes a packet puts on the bus.
pub open spec fn frame_of(body: Seq<u8>) -> Seq<u8> {
    bus::up_to_terminator(stuffed_image(body))
}

/// The CRC of the first `ulen` bytes of an unstuffed buffer checks out.
pub open spec fn crc_holds(unstuffed: Seq<u8>, ulen: int) -> bool {
    let padded = primitives::filled(254 - ulen, 0) + unstuffed.take(ulen);
    primitives::crc8_remainder(padded, CRC_GEN_POLY) == 0
}

/// The verdict on an unstuffed buffer of `ulen` bytes, for packets with
/// `meta_len` metadata bytes: the CRC first, then the declared data length.
pub open spec fn unstuffed_check(unstuffed: Seq<u8>, ulen: int, meta_len: int) -> Result<(), PktError> {
    let dlen = unstuffed[meta_len - 1];
    if !crc_holds(unstuffed, ulen) {
        Err(PktError::CrcInvalid)
    } else if ulen != dlen + meta_len + 1 || dlen > MAX_DATA_LENGTH {
        Err(
            PktError::IncorrectDataLength {
                buffer_length: ulen as usize,
                data_length: dlen as usize,
            },
        )
    } else {
        Ok(())
    }
}

/// The verdict on a frame read from the bus, for packets with `meta_len`
/// metadata bytes.
pub open spec fn frame_check(raw: Seq<u8>, size: int, meta_len: int) -> Result<(), PktError> {
    if size < meta_len + 3 {
        Err(PktError::InsufficientBytes { buffer_length: size as usize })
    } else if raw[size - 1] != 0 {
        Err(PktError::CrcInvalid)
    } else {
        unstuffed_check(primitives::cobs_unstuffed(raw, 0), size - 2, meta_len)
    }
}

/// Place the CRC of the first `len` bytes right after them, zeroing the rest.
pub fn pkt_insert_crc8(buffer: [u8; 254], len: usize) -> (r: [u8; 254])
    requires
        len <= 253,
    ensures
        r@ == unstuffed_image(buffer@.take(len as int)),
        crc_holds(r@, len + 1),
{
    let drifted = drift_to_end(buffer, len, 1, 0);
    proof {
        assert(drifted@.update(253, 0) =~= drifted@);
        assert(drifted@ =~= primitives::filled(253 - len, 0) + buffer@.take(len as int) + seq![
            0u8,
        ]);
    }
    let with_crc = crc8_insert(drifted, CRC_GEN_POLY);
    let r = drift_to_begin(with_crc, 254 - len - 1, 0, 0);
    proof {
        let body = buffer@.take(len as int);
        assert(body.len() == len);
        assert(r@ =~= unstuffed_image(body));
        assert(primitives::filled(254 - (len + 1), 0) + r@.take(len + 1) =~= with_crc@);
    }
    r
}

/// Stuff an unstuffed buffer whose content is `len` bytes and its CRC byte, and
/// terminate the result right after that content.
pub fn pkt_stuff(buffer: [u8; 254], len: usize) -> (r: [u8; 256])
    requires
        len <= 253,
    ensures
        r@ == primitives::cobs_stuffed(buffer@, 0).update(len + 2, 0),
        forall|j: int| 0 <= j < len + 2 ==> r@[j] != 0,
        r@[len + 2] == 0,
        r@.len() == 256,
{
    let mut stuffed = cobs_stuff(buffer, 0);
    stuffed[len + 2] = 0;
    stuffed
}

/// Stuff an unstuffed buffer whose content is `length` bytes and its CRC byte, and
/// write the frame to the bus.
pub(crate) fn send_unstuffed<B: Bus>(bus: &mut B, unstuffed: [u8; 254], length: usize)
    requires
        length <= 253,
    ensures
        final(bus).sent() == old(bus).sent() + bus::up_to_terminator(
            primitives::cobs_stuffed(unstuffed@, 0).update(length + 2, 0),
        ),
        bus::up_to_terminator(primitives::cobs_stuffed(unstuffed@, 0).update(length + 2, 0))
            == primitives::cobs_stuffed(unstuffed@, 0).update(length + 2, 0).take(length + 3),
        final(bus).received() == old(bus).received(),
{
    let stuffed = pkt_stuff(unstuffed, length);
    write_away(bus, &stuffed);
    proof {
        let s = stuffed@;
        bus::lemma_up_to_terminator_split(s, length + 2);
        assert(s.len() == 256);
        assert(s[length + 2] == 0);
        let tail = s.skip(length + 2);
        assert(tail[0] == s[length + 2]);
        assert(bus::up_to_terminator(tail) == seq![0u8]);
        assert(s.take(length + 2) + seq![0u8] =~= s.take(length + 3));
    }
}

/// Read one frame from the bus, unstuff it and check it. On success, returns the
/// unstuffed buffer.
pub(crate) fn fetch_unstuffed<B: Bus>(bus: &mut B, meta_len: usize) -> (r: Result<[u8; 254], PktError>)
    requires
        meta_len == 2 || meta_len == 3,
    ensures
        final(bus).sent() == old(bus).sent(),
        exists|raw: Seq<u8>, size: int|
            bus::is_read_frame(raw, size) && final(bus).received() == old(bus).received()
                + raw.take(size) && frame_verdict(raw, size, meta_len as int, r),
{
    let (raw, size) = read_away(bus);
    let r = unstuff_frame(&raw, size, meta_len);
    assert(frame_verdict(raw@, size as int, meta_len as int, r));
    r
}

/// What a fetch of one frame returns, given what was read.
pub open spec fn frame_verdict(raw: Seq<u8>, size: int, meta_len: int, r: Result<[u8; 254], PktError>) -> bool {
    match r {
        Ok(u) => frame_check(raw, size, meta_len) is Ok && u@ == primitives::cobs_unstuffed(raw, 0),
        Err(e) => frame_check(raw, size, meta_len) == Err::<(), PktError>(e),
    }
}

/// Check an unstuffed buffer of `ulen` bytes: CRC first, then the declared length.
pub(crate) fn check_unstuffed(unstuffed: &[u8; 254], ulen: usize, meta_len: usize) -> (r: Result<(), PktError>)
    requires
        ulen <= 254,
        meta_len == 2 || meta_len == 3,
    ensures
        r == unstuffed_check(unstuffed@, ulen as int, meta_len as int),
{
    let drifted = drift_to_end(*unstuffed, ulen, 0, 0);
    proof {
        assert(drifted@ =~= primitives::filled(254 - ulen, 0) + unstuffed@.take(ulen as int));
    }
    if !crc8_is_valid(drifted, CRC_GEN_POLY) {
        return Err(PktError::CrcInvalid);
    }
    let data_length = unstuffed[meta_len - 1] as usize;
    if ulen != data_length + meta_len + 1 || data_length > MAX_DATA_LENGTH {
        return Err(PktError::IncorrectDataLength { buffer_length: ulen, data_length });
    }
    Ok(())
}

/// Unstuff and check a frame read from the bus. On success, returns the unstuffed
/// buffer.
pub(crate) fn unstuff_frame(raw: &[u8; 256], size: usize, meta_len: usize) -> (r: Result<[u8; 254], PktError>)
    requires
        bus::is_read_frame(raw@, size as int),
        meta_len == 2 || meta_len == 3,
    ensures
        r matches Ok(_) <==> frame_check(raw@, size as int, meta_len as int) is Ok,
        r matches Err(e) ==> frame_check(raw@, size as int, meta_len as int) == Err::<(), PktError>(e),
        r matches Ok(u) ==> u@ == primitives::cobs_unstuffed(raw@, 0),
{
    if size < meta_len + 3 {
        return Err(PktError::InsufficientBytes { buffer_length: size });
    }
    if raw[size - 1] != 0 {
        return Err(PktError::CrcInvalid);
    }
    proof {
        assert(raw@[size - 1] == 0);
    }
    let (unstuffed, ulen) = cobs_unstuff(*raw, 0);
    assert(ulen == size - 2) by {
        if ulen + 1 < size - 1 {
            assert(raw@[ulen + 1] != 0);
        }
        if ulen + 1 > size - 1 {
            assert(raw@[size - 1] != 0);
        }
    }
    match check_unstuffed(&unstuffed, ulen, meta_len) {
        Ok(()) => Ok(unstuffed),
        Err(e) => Err(e),
    }
}

/// A frame whose CRC checks out but whose declared data length exceeds 192 fails
/// with `IncorrectDataLength`, whatever the rest of the frame holds.
pub proof fn lemma_length_bound(raw: Seq<u8>, size: int, meta_len: int)
    requires
        meta_len == 2 || meta_len == 3,
        size >= meta_len + 3,
        raw[size - 1] == 0,
        crc_holds(primitives::cobs_unstuffed(raw, 0), size - 2),
        primitives::cobs_unstuffed(raw, 0)[meta_len - 1] > MAX_DATA_LENGTH,
    ensures
        frame_check(raw, size, meta_len) == Err::<(), PktError>(
            PktError::IncorrectDataLength {
                buffer_length: (size - 2) as usize,
                data_length: primitives::cobs_unstuffed(raw, 0)[meta_len - 1] as usize,
            },
        ),
{
}

} // verus!
