use mcproto::codec::Cursor;
use mcproto::{Error, VarInt, VarLong};

fn varint_bytes(v: i32) -> Vec<u8> {
    let mut out = Vec::new();
    let n = VarInt(v).write_to(&mut out);
    assert_eq!(n, out.len());
    out
}

fn varlong_bytes(v: i64) -> Vec<u8> {
    let mut out = Vec::new();
    let n = VarLong(v).write_to(&mut out);
    assert_eq!(n, out.len());
    out
}

fn varint_round_trip(v: i32) {
    let enc = varint_bytes(v);
    assert!(1 <= enc.len() && enc.len() <= 5);
    let mut cur = Cursor::new(enc.as_slice());
    let got = VarInt::read_from(&mut cur).unwrap();
    assert_eq!(got.0, v);
    assert_eq!(cur.position(), enc.len());
}

fn varlong_round_trip(v: i64) {
    let enc = varlong_bytes(v);
    assert!(1 <= enc.len() && enc.len() <= 10);
    let mut cur = Cursor::new(enc.as_slice());
    let got = VarLong::read_from(&mut cur).unwrap();
    assert_eq!(got.0, v);
    assert_eq!(cur.position(), enc.len());
}

#[test]
fn varint_known_encodings() {
    assert_eq!(varint_bytes(0), vec![0x00]);
    assert_eq!(varint_bytes(1), vec![0x01]);
    assert_eq!(varint_bytes(127), vec![0x7F]);
    assert_eq!(varint_bytes(128), vec![0x80, 0x01]);
    assert_eq!(varint_bytes(300), vec![0xAC, 0x02]);
    assert_eq!(varint_bytes(25565), vec![0xDD, 0xC7, 0x01]);
    assert_eq!(varint_bytes(2097151), vec![0xFF, 0xFF, 0x7F]);
    assert_eq!(varint_bytes(i32::MAX), vec![0xFF, 0xFF, 0xFF, 0xFF, 0x07]);
    assert_eq!(varint_bytes(-1), vec![0xFF, 0xFF, 0xFF, 0xFF, 0x0F]);
    assert_eq!(varint_bytes(i32::MIN), vec![0x80, 0x80, 0x80, 0x80, 0x08]);
}

#[test]
fn varint_round_trips() {
    for v in [
        0,
        1,
        -1,
        2,
        127,
        128,
        255,
        300,
        758,
        25565,
        32767,
        -32768,
        1048576,
        i32::MAX,
        i32::MIN,
        i32::MAX - 1,
        i32::MIN + 1,
    ] {
        varint_round_trip(v);
    }
}

#[test]
fn varint_trailing_bytes_untouched() {
    let mut enc = varint_bytes(300);
    enc.extend_from_slice(&[0xAA, 0xBB, 0xCC]);
    let mut cur = Cursor::new(enc.as_slice());
    let got = VarInt::read_from(&mut cur).unwrap();
    assert_eq!(got.0, 300);
    assert_eq!(cur.position(), 2);
}

#[test]
fn varint_six_continuation_bytes_fail() {
    let data = [0x80u8, 0x80, 0x80, 0x80, 0x80, 0x80];
    let mut cur = Cursor::new(&data[..]);
    assert_eq!(VarInt::read_from(&mut cur), Err(Error::VarIntTooLong));
}

#[test]
fn varint_incomplete_reports_eof() {
    let data = [0x80u8, 0x80];
    let mut cur = Cursor::new(&data[..]);
    assert_eq!(VarInt::read_from(&mut cur), Err(Error::UnexpectedEof));
}

#[test]
fn varint_continuation_bit_is_bit_seven() {
    // 300 encodes as [0xAC, 0x02]: the first byte's high bit says more
    // follow, and only a decoder that tests bit 7 recovers 300. A decoder
    // testing bit 5 would stop after one byte on any first byte with bit 5
    // clear, e.g. for 129 = [0x81, 0x01] it would still continue, but for
    // 300's 0xAC (bit 5 set) it would misread. Exercise several multi-byte
    // values whose first byte differs in bit 5.
    varint_round_trip(300);  // first byte 0xAC: bit 5 set
    varint_round_trip(129);  // first byte 0x81: bit 5 clear
    varint_round_trip(160);  // first byte 0xA0: bit 5 set
}

#[test]
fn varlong_known_encodings() {
    assert_eq!(varlong_bytes(0), vec![0x00]);
    assert_eq!(varlong_bytes(127), vec![0x7F]);
    assert_eq!(varlong_bytes(128), vec![0x80, 0x01]);
    assert_eq!(
        varlong_bytes(-1),
        vec![0xFF, 0xFF, 0xFF, 0xFF, 0xFF, 0xFF, 0xFF, 0xFF, 0xFF, 0x01]
    );
    assert_eq!(
        varlong_bytes(i64::MIN),
        vec![0x80, 0x80, 0x80, 0x80, 0x80, 0x80, 0x80, 0x80, 0x80, 0x01]
    );
}

#[test]
fn varlong_round_trips() {
    for v in [
        0i64,
        1,
        -1,
        127,
        128,
        300,
        1 << 31,
        -(1i64 << 35),
        i64::MAX,
        i64::MIN,
    ] {
        varlong_round_trip(v);
    }
}

#[test]
fn varlong_eleven_continuation_bytes_fail() {
    let data = [0x80u8; 11];
    let mut cur = Cursor::new(&data[..]);
    assert_eq!(VarLong::read_from(&mut cur), Err(Error::VarLongTooLong));
}
