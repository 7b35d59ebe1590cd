use simpleserial_rs::{Bus, CTPacket, CmdError, CmdOutcome, ModelStream, SimpleSerial, TCPacket};

type Handler = fn(u8, u8, &[u8]) -> CmdOutcome;

fn payload(bytes: &[u8]) -> [u8; 192] {
    let mut data = [0u8; 192];
    data[..bytes.len()].copy_from_slice(bytes);
    data
}

fn invert_16_bit_key(_scmd: u8, dlen: u8, data: &[u8]) -> CmdOutcome {
    if dlen == 16 {
        let mut buff = [0; 192];
        for i in 0..16 {
            buff[i] = data[15 - i];
        }
        Ok(Some((b'r', 16, buff)))
    } else {
        Err(CmdError::InvalidLength)
    }
}

fn silent(_scmd: u8, _dlen: u8, _data: &[u8]) -> CmdOutcome {
    Ok(None)
}

fn ack(scmd: u8, _dlen: u8, _data: &[u8]) -> CmdOutcome {
    Ok(Some((b'z', 1, payload(&[scmd]))))
}

fn custom_error(_scmd: u8, _dlen: u8, _data: &[u8]) -> CmdOutcome {
    Err(CmdError::Custom(0x42))
}

fn ok_status() -> TCPacket {
    TCPacket { cmd: b'e', dlen: 1, data: payload(&[0]) }
}

fn exchange(ss: &SimpleSerial<8, Handler>, pkt: &CTPacket, replies: usize) -> Vec<TCPacket> {
    let mut stream = ModelStream::new();
    pkt.send(&mut stream).unwrap();
    ss.attempt_handle(&mut stream).unwrap();
    let out: Vec<TCPacket> = (0..replies).map(|_| TCPacket::fetch(&mut stream).unwrap()).collect();
    assert_eq!(stream.getch(), 0, "more replies than expected");
    out
}

#[test]
fn handler_reply_then_ok() {
    let mut bus = ModelStream::new();
    let mut ss: SimpleSerial<8, Handler> = SimpleSerial::new_no_init();
    ss.push(&mut bus, b'p', invert_16_bit_key).unwrap();
    let key: Vec<u8> = (1..=16).collect();
    let pkt = CTPacket { cmd: b'p', sub_cmd: 0, dlen: 16, data: payload(&key) };
    let out = exchange(&ss, &pkt, 2);
    let reversed: Vec<u8> = (1..=16).rev().collect();
    assert_eq!(out[0], TCPacket { cmd: b'r', dlen: 16, data: payload(&reversed) });
    assert_eq!(out[1], ok_status());
}

#[test]
fn handler_error_is_reported() {
    let mut bus = ModelStream::new();
    let mut ss: SimpleSerial<8, Handler> = SimpleSerial::new_no_init();
    ss.push(&mut bus, b'p', invert_16_bit_key).unwrap();
    let pkt = CTPacket { cmd: b'p', sub_cmd: 0, dlen: 3, data: payload(&[1, 2, 3]) };
    let out = exchange(&ss, &pkt, 1);
    assert_eq!(out[0], TCPacket { cmd: b'e', dlen: 1, data: payload(&[4]) });
}

#[test]
fn every_matching_handler_runs_until_an_error() {
    let mut bus = ModelStream::new();
    let mut ss: SimpleSerial<8, Handler> = SimpleSerial::new_no_init();
    ss.push(&mut bus, b'x', ack).unwrap();
    ss.push(&mut bus, b'y', ack).unwrap();
    ss.push(&mut bus, b'x', silent).unwrap();
    ss.push(&mut bus, b'x', ack).unwrap();
    ss.push(&mut bus, b'x', custom_error).unwrap();
    ss.push(&mut bus, b'x', ack).unwrap();
    let pkt = CTPacket { cmd: b'x', sub_cmd: 9, dlen: 0, data: [0; 192] };
    let out = exchange(&ss, &pkt, 3);
    let z = TCPacket { cmd: b'z', dlen: 1, data: payload(&[9]) };
    assert_eq!(out[0], z);
    assert_eq!(out[1], z);
    assert_eq!(out[2], TCPacket { cmd: b'e', dlen: 1, data: payload(&[0x42]) });
}

#[test]
fn version_builtin() {
    let mut bus = ModelStream::new();
    let mut ss: SimpleSerial<8, Handler> = SimpleSerial::new_no_init();
    ss.push(&mut bus, b'v', custom_error).unwrap();
    let pkt = CTPacket { cmd: b'v', sub_cmd: 1, dlen: 2, data: payload(&[7, 7]) };
    let out = exchange(&ss, &pkt, 2);
    assert_eq!(out[0], TCPacket { cmd: b'r', dlen: 1, data: payload(&[2]) });
    assert_eq!(out[1], ok_status());
}

#[test]
fn list_builtin() {
    let mut bus = ModelStream::new();
    let mut ss: SimpleSerial<8, Handler> = SimpleSerial::new_no_init();
    ss.push(&mut bus, b'a', silent).unwrap();
    ss.push(&mut bus, b'b', silent).unwrap();
    ss.push(&mut bus, b'c', silent).unwrap();
    let pkt = CTPacket { cmd: b'w', sub_cmd: 0, dlen: 0, data: [0; 192] };
    let out = exchange(&ss, &pkt, 2);
    assert_eq!(out[0], TCPacket { cmd: b'r', dlen: 3, data: payload(&[b'a', b'b', b'c']) });
    assert_eq!(out[1], ok_status());
}

#[test]
fn list_builtin_when_empty() {
    let ss: SimpleSerial<8, Handler> = SimpleSerial::new_no_init();
    let pkt = CTPacket { cmd: b'w', sub_cmd: 0, dlen: 0, data: [0; 192] };
    let out = ss.handle(&pkt);
    assert_eq!(out, vec![TCPacket { cmd: b'r', dlen: 0, data: [0; 192] }, ok_status()]);
}

#[test]
fn unknown_command_gets_only_ok() {
    let mut bus = ModelStream::new();
    let mut ss: SimpleSerial<8, Handler> = SimpleSerial::new_no_init();
    ss.push(&mut bus, b'p', invert_16_bit_key).unwrap();
    let pkt = CTPacket { cmd: b'q', sub_cmd: 0, dlen: 1, data: payload(&[1]) };
    let out = exchange(&ss, &pkt, 1);
    assert_eq!(out[0], ok_status());
}

#[test]
fn registry_exhaustion() {
    let mut bus = ModelStream::new();
    let mut ss: SimpleSerial<4, Handler> = SimpleSerial::new_no_init();
    assert_eq!(ss.push(&mut bus, b'a', silent), Ok(()));
    assert_eq!(ss.push(&mut bus, b'b', silent), Ok(()));
    assert_eq!(ss.push(&mut bus, b'c', silent), Ok(()));
    assert_eq!(bus.getch(), 0);
    assert_eq!(ss.push(&mut bus, b'd', silent), Err(()));
    assert_eq!(bus.getch(), b'a');
    assert_eq!(ss.push(&mut bus, b'e', silent), Err(()));
    let pkt = CTPacket { cmd: b'w', sub_cmd: 0, dlen: 0, data: [0; 192] };
    let out = ss.handle(&pkt);
    assert_eq!(out[0], TCPacket { cmd: b'r', dlen: 3, data: payload(&[b'a', b'b', b'c']) });
}

#[test]
fn zero_capacity_refuses_everything() {
    let mut bus = ModelStream::new();
    let mut ss: SimpleSerial<0, Handler> = SimpleSerial::new_no_init();
    assert_eq!(ss.push(&mut bus, b'a', silent), Err(()));
    assert_eq!(bus.getch(), b'a');
}

#[test]
fn bad_frame_gets_no_reply() {
    let ss: SimpleSerial<8, Handler> = SimpleSerial::new_no_init();
    let mut stream = ModelStream::new();
    for b in [0x03u8, 0x10, 0x20, 0x30, 0x40, 0x00] {
        stream.putch(b);
    }
    assert!(ss.attempt_handle(&mut stream).is_err());
    assert_eq!(stream.getch(), 0);
}

#[test]
fn cmd_error_bytes() {
    assert_eq!(CmdError::OK.get_byte(), 0);
    assert_eq!(CmdError::InvalidCommand.get_byte(), 1);
    assert_eq!(CmdError::BadCRC.get_byte(), 2);
    assert_eq!(CmdError::Timeout.get_byte(), 3);
    assert_eq!(CmdError::InvalidLength.get_byte(), 4);
    assert_eq!(CmdError::UnexpectedFrameByte.get_byte(), 5);
    assert_eq!(CmdError::Custom(77).get_byte(), 77);
}
