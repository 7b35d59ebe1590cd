//! Packets from the target to the capture board.
use vstd::prelude::*;
use crate::bus::{self, Bus};
use crate::error::PktError;
use crate::packet::{
    self, check_unstuffed, fetch_unstuffed, pkt_insert_crc8, send_unstuffed, unstuff_frame,
    MAX_DATA_LENGTH,
};
use crate::primitives::{self, sized_slice, superimpose};

verus! {

/// Metadata bytes of an outbound packet: command, data length.
pub const TC_METADATA_BYTES_LENGTH: usize = 2;

/// Target to capture board packet.
#[derive(Debug, Clone, Copy, PartialEq, Eq)]
pub struct TCPacket {
    pub cmd: u8,
    pub dlen: u8,
    pub data: [u8; 192],
}

impl TCPacket {
    /// The metadata and the meaningful payload, as they stand before the CRC byte.
    pub open spec fn body(self) -> Seq<u8> {
        seq![self.cmd, self.dlen] + self.data@.take(self.dlen as int)
    }

    /// This packet holds what the unstuffed buffer holds: its metadata, and its
    /// payload zero-padded past the declared length.
    pub open spec fn is_read_from(self, unstuffed: Seq<u8>) -> bool {
        &&& self.cmd == unstuffed[0]
        &&& self.dlen == unstuffed[1]
        &&& self.data@ == unstuffed.subrange(2, 2 + unstuffed[1]) + primitives::filled(192 - unstuffed[1], 0)
    }

    /// What a decode of a frame returns.
    pub open spec fn decoded(raw: Seq<u8>, size: int, r: Result<TCPacket, PktError>) -> bool {
        match r {
            Ok(p) => packet::frame_check(raw, size, 2) is Ok && p.is_read_from(primitives::cobs_unstuffed(raw, 0)),
            Err(e) => packet::frame_check(raw, size, 2) == Err::<(), PktError>(e),
        }
    }

    /// The declared data length of an unstuffed buffer.
    pub fn get_data_length_from_unstuffed(unstuffed_buffer: &[u8; 254]) -> (r: usize)
        ensures
            r == unstuffed_buffer@[1],
    {
        unstuffed_buffer[1] as usize
    }

    /// The packet an unstuffed buffer holds, whose declared length is in range.
    pub fn new_from_unstuffed(unstuffed_buffer: &[u8; 254]) -> (r: TCPacket)
        requires
            unstuffed_buffer@[1] <= MAX_DATA_LENGTH,
        ensures
            r.is_read_from(unstuffed_buffer@),
    {
        let dlen = unstuffed_buffer[1];
        TCPacket {
            cmd: unstuffed_buffer[0],
            dlen,
            data: sized_slice(*unstuffed_buffer, 2, dlen as usize + 2, 0),
        }
    }

    /// The declared data length.
    pub fn get_data_length(&self) -> (r: usize)
        ensures
            r == self.dlen,
    {
        self.dlen as usize
    }

    /// The whole payload buffer.
    pub fn get_data_bytes(&self) -> (r: [u8; 192])
        ensures
            r == self.data,
    {
        self.data
    }

    /// Write the metadata bytes into the front of a buffer.
    pub fn set_metadata_bytes(&self, buffer: &mut [u8; 254])
        ensures
            final(buffer)@ == old(buffer)@.update(0, self.cmd).update(1, self.dlen),
    {
        buffer[0] = self.cmd;
        buffer[1] = self.dlen;
    }

    /// The unstuffed buffer of this packet: metadata, payload, CRC byte, zeros. It
    /// passes every check of a decode and reads back as this packet, up to the
    /// bytes past the declared length.
    pub fn to_unstuffed(&self) -> (r: [u8; 254])
        requires
            self.dlen <= MAX_DATA_LENGTH,
        ensures
            r@ == packet::unstuffed_image(self.body()),
            packet::unstuffed_check(r@, self.body().len() + 1int, 2) == Ok::<(), PktError>(()),
            forall|p: TCPacket| #[trigger] p.is_read_from(r@) ==> p.cmd == self.cmd && p.dlen
                == self.dlen && p.data@.take(self.dlen as int) == self.data@.take(
                self.dlen as int,
            ),
    {
        let mut buffer = superimpose([0u8; 254], self.get_data_bytes(), TC_METADATA_BYTES_LENGTH);
        self.set_metadata_bytes(&mut buffer);
        let length = self.get_data_length() + TC_METADATA_BYTES_LENGTH;
        proof {
            assert(buffer@.take(length as int) =~= self.body());
        }
        let r = pkt_insert_crc8(buffer, length);
        proof {
            assert(r@[1] == self.dlen);
            assert forall|p: TCPacket| #[trigger] p.is_read_from(r@) implies p.cmd == self.cmd
                && p.dlen == self.dlen && p.data@.take(self.dlen as int) == self.data@.take(
                self.dlen as int,
            ) by {
                assert(p.data@.take(self.dlen as int) =~= self.data@.take(self.dlen as int));
            }
        }
        r
    }

    /// Encode this packet and write its frame to the bus.
    pub fn send<B: Bus>(&self, bus: &mut B) -> (r: Result<(), PktError>)
        requires
            self.dlen <= MAX_DATA_LENGTH,
        ensures
            r is Ok,
            final(bus).sent() == old(bus).sent() + packet::frame_of(self.body()),
            packet::frame_of(self.body()) == packet::stuffed_image(self.body()).take(
                self.body().len() + 3int,
            ),
            final(bus).received() == old(bus).received(),
    {
        let unstuffed = self.to_unstuffed();
        let length = self.dlen as usize + TC_METADATA_BYTES_LENGTH;
        send_unstuffed(bus, unstuffed, length);
        Ok(())
    }

    /// Check an unstuffed buffer of `ulen` bytes, CRC first, then the declared
    /// length against `ulen` and against 192, and read the packet from it.
    pub fn from_unstuffed(unstuffed: &[u8; 254], ulen: usize) -> (r: Result<TCPacket, PktError>)
        requires
            ulen <= 254,
        ensures
            r is Ok <==> packet::unstuffed_check(unstuffed@, ulen as int, 2) is Ok,
            r matches Ok(p) ==> p.is_read_from(unstuffed@),
            r matches Err(e) ==> packet::unstuffed_check(unstuffed@, ulen as int, 2) == Err::<
                (),
                PktError,
            >(e),
    {
        match check_unstuffed(unstuffed, ulen, TC_METADATA_BYTES_LENGTH) {
            Ok(()) => Ok(TCPacket::new_from_unstuffed(unstuffed)),
            Err(e) => Err(e),
        }
    }

    /// Decode a frame as read from the bus: at least five bytes, a terminator, a
    /// valid CRC, then a declared length that matches the content and is at most
    /// 192. A frame that fills the whole buffer without a terminator fails the CRC.
    pub fn decode(raw: &[u8; 256], size: usize) -> (r: Result<TCPacket, PktError>)
        requires
            bus::is_read_frame(raw@, size as int),
        ensures
            TCPacket::decoded(raw@, size as int, r),
    {
        match unstuff_frame(raw, size, TC_METADATA_BYTES_LENGTH) {
            Ok(unstuffed) => Ok(TCPacket::new_from_unstuffed(&unstuffed)),
            Err(e) => Err(e),
        }
    }

    /// Read one frame from the bus and decode it.
    pub fn fetch<B: Bus>(bus: &mut B) -> (r: Result<TCPacket, PktError>)
        ensures
            final(bus).sent() == old(bus).sent(),
            exists|raw: Seq<u8>, size: int|
                bus::is_read_frame(raw, size) && final(bus).received() == old(bus).received()
                    + raw.take(size) && TCPacket::decoded(raw, size, r),
    {
        let fetched = fetch_unstuffed(bus, TC_METADATA_BYTES_LENGTH);
        let ghost raw_size = choose|raw: Seq<u8>, size: int|
            bus::is_read_frame(raw, size) && bus.received() == old(bus).received() + raw.take(size)
                && packet::frame_verdict(raw, size, 2, fetched);
        match fetched {
            Ok(unstuffed) => {
                let r = Ok(TCPacket::new_from_unstuffed(&unstuffed));
                assert(TCPacket::decoded(raw_size.0, raw_size.1, r));
                r
            },
            Err(e) => {
                assert(TCPacket::decoded(raw_size.0, raw_size.1, Err(e)));
                Err(e)
            },
        }
    }
}

} // verus!
