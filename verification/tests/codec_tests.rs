use mcproto::codec::Cursor;
use mcproto::containers::{ShortPrefixedVec, VarIntPrefixedVec};
use mcproto::{Error, GreedyVecU8, Identifier, ProtocolVersion, Readable, Writeable};

const V: ProtocolVersion = ProtocolVersion::V1_18_2;

fn encode<T: Writeable>(value: &T) -> Vec<u8> {
    let mut out = Vec::new();
    value.write(&mut out, V).unwrap();
    out
}

fn decode<T: Readable>(bytes: &[u8]) -> Result<T, Error> {
    let mut cur = Cursor::new(bytes);
    T::read(&mut cur, V)
}

#[test]
fn fixed_width_integers_are_big_endian() {
    assert_eq!(encode(&0xABCDu16), vec![0xAB, 0xCD]);
    assert_eq!(encode(&0x01020304u32), vec![0x01, 0x02, 0x03, 0x04]);
    assert_eq!(
        encode(&0x0102030405060708u64),
        vec![0x01, 0x02, 0x03, 0x04, 0x05, 0x06, 0x07, 0x08]
    );
    assert_eq!(encode(&(-2i32)), vec![0xFF, 0xFF, 0xFF, 0xFE]);
    assert_eq!(encode(&(-1i16)), vec![0xFF, 0xFF]);
    assert_eq!(encode(&(-1i64)), vec![0xFF; 8]);
    assert_eq!(encode(&0x7Fu8), vec![0x7F]);
    assert_eq!(encode(&(-1i8)), vec![0xFF]);
}

#[test]
fn fixed_width_integers_round_trip() {
    assert_eq!(decode::<u16>(&encode(&56578u16)).unwrap(), 56578);
    assert_eq!(decode::<u32>(&encode(&4000000000u32)).unwrap(), 4000000000);
    assert_eq!(decode::<u64>(&encode(&u64::MAX)).unwrap(), u64::MAX);
    assert_eq!(decode::<i16>(&encode(&-300i16)).unwrap(), -300);
    assert_eq!(decode::<i32>(&encode(&i32::MIN)).unwrap(), i32::MIN);
    assert_eq!(decode::<i64>(&encode(&i64::MIN)).unwrap(), i64::MIN);
    assert_eq!(decode::<u8>(&encode(&255u8)).unwrap(), 255);
    assert_eq!(decode::<i8>(&encode(&-128i8)).unwrap(), -128);
}

#[test]
fn short_integer_reads_fail_on_eof() {
    assert_eq!(decode::<u32>(&[1, 2, 3]), Err(Error::UnexpectedEof));
    assert_eq!(decode::<u16>(&[9]), Err(Error::UnexpectedEof));
    assert_eq!(decode::<u8>(&[]), Err(Error::UnexpectedEof));
}

#[test]
fn bool_is_one_byte() {
    assert_eq!(encode(&true), vec![1]);
    assert_eq!(encode(&false), vec![0]);
    assert_eq!(decode::<bool>(&[1]).unwrap(), true);
    assert_eq!(decode::<bool>(&[0]).unwrap(), false);
}

#[test]
fn bool_rejects_other_tags() {
    assert_eq!(decode::<bool>(&[2]), Err(Error::InvalidBoolTag));
    assert_eq!(decode::<bool>(&[255]), Err(Error::InvalidBoolTag));
}

#[test]
fn optional_none_is_a_single_zero_byte() {
    let none: Option<u16> = None;
    assert_eq!(encode(&none), vec![0]);
    assert_eq!(decode::<Option<u16>>(&[0]).unwrap(), None);
}

#[test]
fn optional_some_is_a_one_byte_then_the_value() {
    let some: Option<u16> = Some(0x1234);
    assert_eq!(encode(&some), vec![1, 0x12, 0x34]);
    assert_eq!(decode::<Option<u16>>(&[1, 0x12, 0x34]).unwrap(), Some(0x1234));
}

#[test]
fn optional_rejects_bad_presence_tag() {
    assert_eq!(decode::<Option<u16>>(&[7, 0x12, 0x34]), Err(Error::InvalidBoolTag));
}

#[test]
fn string_round_trips() {
    for s in ["", "a", "hello", "localhost", "héllo wörld ⚡", "s0vi_"] {
        let enc = encode(&s.to_string());
        let got = decode::<String>(&enc).unwrap();
        assert_eq!(got, s);
    }
}

#[test]
fn string_round_trips_at_maximum_length() {
    let s: String = std::iter::repeat('a').take(32767).collect();
    let enc = encode(&s);
    assert_eq!(decode::<String>(&enc).unwrap(), s);
}

#[test]
fn string_write_rejects_over_long() {
    let s: String = std::iter::repeat('a').take(32768).collect();
    let mut out = Vec::new();
    assert_eq!(s.write(&mut out, V), Err(Error::StringTooLong));
    assert!(out.is_empty());
}

#[test]
fn string_read_rejects_over_long_declared_length() {
    // A declared length of 32768 must fail even though the buffer holds that
    // many bytes and more.
    let mut bytes = vec![0x80, 0x80, 0x02];
    bytes.extend(std::iter::repeat(b'a').take(40000));
    assert_eq!(decode::<String>(&bytes), Err(Error::StringTooLong));
}

#[test]
fn string_read_rejects_invalid_utf8() {
    let bytes = vec![2, 0xC3, 0x28];
    assert_eq!(decode::<String>(&bytes), Err(Error::InvalidUtf8));
}

#[test]
fn string_read_rejects_short_buffer() {
    let bytes = vec![5, b'a', b'b'];
    assert_eq!(decode::<String>(&bytes), Err(Error::UnexpectedEof));
}

fn vec_round_trip_varint(len: usize) {
    let elems: Vec<u16> = (0..len).map(|i| (i % 65536) as u16).collect();
    let enc = encode(&VarIntPrefixedVec::<u16>::from(elems.clone()));
    let got: Vec<u16> = decode::<VarIntPrefixedVec<u16>>(&enc).unwrap().into();
    assert_eq!(got, elems);
}

#[test]
fn length_prefixed_vec_round_trips_empty() {
    vec_round_trip_varint(0);
}

#[test]
fn length_prefixed_vec_round_trips_one() {
    vec_round_trip_varint(1);
}

#[test]
fn length_prefixed_vec_round_trips_thousand() {
    vec_round_trip_varint(1000);
}

#[test]
fn short_prefixed_vec_round_trips() {
    let elems: Vec<u8> = (0..300).map(|i| (i % 256) as u8).collect();
    let enc = encode(&ShortPrefixedVec::<u8>::from(elems.clone()));
    // The prefix is a fixed 16-bit big-endian count.
    assert_eq!(&enc[0..2], &[0x01, 0x2C]);
    let got: Vec<u8> = decode::<ShortPrefixedVec<u8>>(&enc).unwrap().into();
    assert_eq!(got, elems);
}

#[test]
fn length_prefixed_vec_rejects_count_over_ceiling() {
    // A declared count of 1048577 exceeds the 1 MiB ceiling and must fail
    // before any element is read.
    let bytes = vec![0x81, 0x80, 0x40];
    assert!(matches!(
        decode::<VarIntPrefixedVec<u8>>(&bytes),
        Err(Error::SequenceTooLong)
    ));
}

#[test]
fn length_prefixed_vec_rejects_negative_count() {
    // VarInt -1.
    let bytes = vec![0xFF, 0xFF, 0xFF, 0xFF, 0x0F];
    assert!(matches!(
        decode::<VarIntPrefixedVec<u8>>(&bytes),
        Err(Error::LengthOverflow)
    ));
}

#[test]
fn length_prefixed_vec_fails_hard_on_short_element() {
    // Count 3 but only two one-byte elements follow: no partial sequence.
    let bytes = vec![3, 7, 8];
    assert!(matches!(
        decode::<VarIntPrefixedVec<u8>>(&bytes),
        Err(Error::UnexpectedEof)
    ));
}

#[test]
fn short_prefixed_vec_write_rejects_over_long() {
    let elems: Vec<u8> = vec![0; 70000];
    let mut out = Vec::new();
    assert!(matches!(
        ShortPrefixedVec::<u8>::from(elems).write(&mut out, V),
        Err(Error::LengthOverflow)
    ));
    assert!(out.is_empty());
}

#[test]
fn greedy_vec_reads_everything_left() {
    let bytes = vec![1, 2, 3, 4, 5];
    let mut cur = Cursor::new(bytes.as_slice());
    let _ = u8::read(&mut cur, V).unwrap();
    let rest: Vec<u8> = GreedyVecU8::read(&mut cur, V).unwrap().into();
    assert_eq!(rest, vec![2, 3, 4, 5]);
    assert_eq!(cur.position(), 5);
}

#[test]
fn greedy_vec_writes_verbatim() {
    let enc = encode(&GreedyVecU8::from(vec![9, 8, 7]));
    assert_eq!(enc, vec![9, 8, 7]);
}

#[test]
fn identifier_joins_with_a_colon() {
    let id = Identifier::new("minecraft".to_string(), "stone".to_string());
    assert_eq!(id.as_string(), "minecraft:stone");
}

#[test]
fn identifier_try_from_accepts_one_colon() {
    let id = Identifier::try_from("minecraft:dirt".to_string()).unwrap();
    assert_eq!(id.as_string(), "minecraft:dirt");
}

#[test]
fn identifier_try_from_rejects_no_colon() {
    assert!(matches!(
        Identifier::try_from("stone".to_string()),
        Err(Error::InvalidIdentifier)
    ));
}

#[test]
fn identifier_try_from_rejects_two_colons() {
    assert!(matches!(
        Identifier::try_from("a:b:c".to_string()),
        Err(Error::InvalidIdentifier)
    ));
}

#[test]
fn identifier_round_trips_through_bytes() {
    let id = Identifier::new("minecraft".to_string(), "oak_log".to_string());
    let enc = encode(&id);
    let got = decode::<Identifier>(&enc).unwrap();
    assert_eq!(got.as_string(), "minecraft:oak_log");
}

#[test]
fn reference_write_adds_no_bytes() {
    let v: u16 = 0x0102;
    assert_eq!(encode(&&v), encode(&v));
}
