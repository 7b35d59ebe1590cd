use simpleserial_rs::{
    pkt_insert_crc8, pkt_stuff, write_away, Bus, CTPacket, ModelStream, PktError, TCPacket,
};

fn payload(bytes: &[u8]) -> [u8; 192] {
    let mut data = [0u8; 192];
    data[..bytes.len()].copy_from_slice(bytes);
    data
}

fn drain(stream: &mut ModelStream, n: usize) -> Vec<u8> {
    (0..n).map(|_| stream.getch()).collect()
}

#[test]
fn capture_to_target_invertible() {
    let pkt = CTPacket { cmd: b'p', sub_cmd: 0, dlen: 4, data: payload(&[5, 4, 2, 1]) };
    let mut stream = ModelStream::new();
    pkt.send(&mut stream).unwrap();
    assert_eq!(pkt, CTPacket::fetch(&mut stream).unwrap());
}

#[test]
fn target_to_capture_invertible() {
    let pkt = TCPacket { cmd: b'p', dlen: 4, data: payload(&[5, 4, 2, 1]) };
    let mut stream = ModelStream::new();
    pkt.send(&mut stream).unwrap();
    assert_eq!(pkt, TCPacket::fetch(&mut stream).unwrap());
}

#[test]
fn round_trip_every_length() {
    for dlen in 0..=192usize {
        let bytes: Vec<u8> = (0..dlen).map(|i| (i * 37 % 256) as u8).collect();
        let ct = CTPacket { cmd: b'k', sub_cmd: 3, dlen: dlen as u8, data: payload(&bytes) };
        let tc = TCPacket { cmd: b'r', dlen: dlen as u8, data: payload(&bytes) };
        let mut stream = ModelStream::new();
        ct.send(&mut stream).unwrap();
        tc.send(&mut stream).unwrap();
        assert_eq!(CTPacket::fetch(&mut stream), Ok(ct));
        assert_eq!(TCPacket::fetch(&mut stream), Ok(tc));
    }
}

#[test]
fn status_frame_bytes() {
    let pkt = TCPacket { cmd: b'e', dlen: 1, data: payload(&[0]) };
    let mut stream = ModelStream::new();
    pkt.send(&mut stream).unwrap();
    assert_eq!(drain(&mut stream, 7), vec![0x03, 0x65, 0x01, 0x02, 0xb6, 0x00, 0x00]);
}

#[test]
fn insert_crc8_places_crc_after_content() {
    let mut buffer = [0u8; 254];
    buffer[0] = 0x72;
    buffer[1] = 0x01;
    buffer[2] = 0x02;
    buffer[3] = 0x55;
    buffer[10] = 0x99;
    let r = pkt_insert_crc8(buffer, 3);
    assert_eq!(&r[..4], &[0x72, 0x01, 0x02, 0x96]);
    assert!(r[4..].iter().all(|b| *b == 0));
}

#[test]
fn stuff_escapes_zeros_and_terminates() {
    let mut buffer = [0u8; 254];
    buffer[0] = 0x65;
    buffer[1] = 0x01;
    buffer[2] = 0x00;
    buffer[3] = 0xb6;
    let r = pkt_stuff(buffer, 3);
    assert_eq!(&r[..6], &[0x03, 0x65, 0x01, 0x02, 0xb6, 0x00]);
}

#[test]
fn empty_bus_is_insufficient() {
    let mut stream = ModelStream::new();
    assert_eq!(CTPacket::fetch(&mut stream), Err(PktError::InsufficientBytes { buffer_length: 1 }));
}

#[test]
fn short_frame_is_insufficient() {
    let mut stream = ModelStream::new();
    for b in [0x05u8, 0x70, 0x01, 0x00] {
        stream.putch(b);
    }
    assert_eq!(CTPacket::fetch(&mut stream), Err(PktError::InsufficientBytes { buffer_length: 4 }));
}

#[test]
fn unterminated_frame_is_rejected() {
    let mut stream = ModelStream::new();
    for _ in 0..256 {
        stream.putch(0x42);
    }
    assert_eq!(CTPacket::fetch(&mut stream), Err(PktError::CrcInvalid));
}

#[test]
fn flipped_bit_never_decodes() {
    let pkt = CTPacket { cmd: b'p', sub_cmd: 0x11, dlen: 4, data: payload(&[5, 4, 2, 1]) };
    let mut stream = ModelStream::new();
    pkt.send(&mut stream).unwrap();
    let frame = drain(&mut stream, 10);
    assert_eq!(frame[9], 0);
    assert!(frame[..9].iter().all(|b| *b != 0));
    for index in 1..9 {
        for bit in 0..8 {
            let mut corrupted = frame.clone();
            corrupted[index] ^= 1 << bit;
            if corrupted[index] == 0 {
                continue;
            }
            let mut bus = ModelStream::new();
            for b in &corrupted {
                bus.putch(*b);
            }
            match CTPacket::fetch(&mut bus) {
                Err(PktError::CrcInvalid) | Err(PktError::IncorrectDataLength { .. }) => {}
                other => panic!("bit {} of byte {} gave {:?}", bit, index, other),
            }
        }
    }
}

#[test]
fn declared_length_over_limit_is_rejected() {
    let mut buffer = [0u8; 254];
    buffer[0] = b'p';
    buffer[1] = 0x01;
    buffer[2] = 200;
    for i in 0..200 {
        buffer[3 + i] = 0x33;
    }
    let with_crc = pkt_insert_crc8(buffer, 203);
    let stuffed = pkt_stuff(with_crc, 203);
    let mut stream = ModelStream::new();
    write_away(&mut stream, &stuffed);
    assert_eq!(
        CTPacket::fetch(&mut stream),
        Err(PktError::IncorrectDataLength { buffer_length: 204, data_length: 200 })
    );
}

#[test]
fn declared_length_mismatch_is_rejected() {
    let mut buffer = [0u8; 254];
    buffer[0] = b'p';
    buffer[1] = 0x01;
    buffer[2] = 5;
    buffer[3] = 0x10;
    buffer[4] = 0x20;
    let with_crc = pkt_insert_crc8(buffer, 5);
    let stuffed = pkt_stuff(with_crc, 5);
    let mut stream = ModelStream::new();
    write_away(&mut stream, &stuffed);
    assert_eq!(
        CTPacket::fetch(&mut stream),
        Err(PktError::IncorrectDataLength { buffer_length: 6, data_length: 5 })
    );
}

#[test]
fn data_length_from_unstuffed() {
    let mut buffer = [0u8; 254];
    buffer[1] = 7;
    buffer[2] = 9;
    assert_eq!(CTPacket::get_data_length_from_unstuffed(&buffer), 9);
    assert_eq!(TCPacket::get_data_length_from_unstuffed(&buffer), 7);
}

#[test]
fn new_from_unstuffed_pads_with_zeros() {
    let mut buffer = [0xEEu8; 254];
    buffer[0] = b'k';
    buffer[1] = 2;
    buffer[2] = 3;
    let pkt = CTPacket::new_from_unstuffed(&buffer);
    assert_eq!(pkt.cmd, b'k');
    assert_eq!(pkt.sub_cmd, 2);
    assert_eq!(pkt.dlen, 3);
    assert_eq!(&pkt.data[..3], &[0xEE, 0xEE, 0xEE]);
    assert!(pkt.data[3..].iter().all(|b| *b == 0));
}

#[test]
fn from_unstuffed_accepts_packet_image() {
    let pkt = TCPacket { cmd: b'r', dlen: 3, data: payload(&[b'a', b'b', b'c']) };
    let unstuffed = pkt.to_unstuffed();
    assert_eq!(&unstuffed[..6], &[0x72, 0x03, 0x61, 0x62, 0x63, 0xb2]);
    assert_eq!(TCPacket::from_unstuffed(&unstuffed, 6), Ok(pkt));
    assert_eq!(
        TCPacket::from_unstuffed(&unstuffed, 7),
        Err(PktError::IncorrectDataLength { buffer_length: 7, data_length: 3 })
    );
}

#[test]
fn from_unstuffed_rejects_bad_crc() {
    let pkt = CTPacket { cmd: b'p', sub_cmd: 0, dlen: 4, data: payload(&[5, 4, 2, 1]) };
    let mut unstuffed = pkt.to_unstuffed();
    assert_eq!(CTPacket::from_unstuffed(&unstuffed, 8), Ok(pkt));
    unstuffed[4] ^= 0x10;
    assert_eq!(CTPacket::from_unstuffed(&unstuffed, 8), Err(PktError::CrcInvalid));
}

#[test]
fn fetch_takes_exactly_one_frame() {
    let pkt = TCPacket { cmd: b'z', dlen: 2, data: payload(&[0, 9]) };
    let mut stream = ModelStream::new();
    for b in [0x05u8, 0x70, 0x01, 0x00] {
        stream.putch(b);
    }
    pkt.send(&mut stream).unwrap();
    stream.putch(0x77);
    assert_eq!(CTPacket::fetch(&mut stream), Err(PktError::InsufficientBytes { buffer_length: 4 }));
    assert_eq!(TCPacket::fetch(&mut stream), Ok(pkt));
    assert_eq!(stream.getch(), 0x77);
}

#[test]
fn sent_frame_has_content_plus_three_bytes() {
    for dlen in [0usize, 1, 16, 192] {
        let bytes: Vec<u8> = (0..dlen).map(|i| (i % 7) as u8).collect();
        let pkt = CTPacket { cmd: b'p', sub_cmd: 1, dlen: dlen as u8, data: payload(&bytes) };
        let mut stream = ModelStream::new();
        pkt.send(&mut stream).unwrap();
        let frame = drain(&mut stream, 3 + dlen + 3);
        assert!(frame[..3 + dlen + 2].iter().all(|b| *b != 0));
        assert_eq!(frame[3 + dlen + 2], 0);
        assert_eq!(stream.getch(), 0);
    }
}
