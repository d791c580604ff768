use std::io::Read;

use mcproto::codec::Cursor;
use mcproto::{
    Error, FrameError, GreedyVecU8, NextState, PacketHandler, ProtocolVersion, Readable, VarInt,
    Writeable,
};

const V: ProtocolVersion = ProtocolVersion::V1_18_2;

fn frame(body: &[u8]) -> Vec<u8> {
    let mut out = Vec::new();
    VarInt(body.len() as i32).write_to(&mut out);
    out.extend_from_slice(body);
    out
}

fn zlib(data: &[u8]) -> Vec<u8> {
    let mut enc = flate2::bufread::ZlibEncoder::new(data, flate2::Compression::default());
    let mut out = Vec::new();
    enc.read_to_end(&mut out).unwrap();
    out
}

fn body_of(handler: &mut PacketHandler) -> Option<Vec<u8>> {
    handler
        .next_packet::<GreedyVecU8>()
        .unwrap()
        .map(|g| g.into())
}

#[test]
fn two_frames_and_a_trailing_partial() {
    let mut handler = PacketHandler::new();
    let mut wire = frame(&[42]);
    wire.extend_from_slice(&frame(&[1, 7]));
    // Three extra bytes of a third frame that declares five body bytes.
    wire.extend_from_slice(&[5, 9, 9]);
    handler.receive_bytes(&wire);

    assert_eq!(body_of(&mut handler), Some(vec![42]));
    assert_eq!(body_of(&mut handler), Some(vec![1, 7]));
    // The third attempt reports "incomplete" without consuming anything.
    assert_eq!(body_of(&mut handler), None);
    assert_eq!(body_of(&mut handler), None);
    // Supplying the three missing bytes completes the third frame.
    handler.receive_bytes(&[9, 9, 9]);
    assert_eq!(body_of(&mut handler), Some(vec![9, 9, 9, 9, 9]));
    assert_eq!(body_of(&mut handler), None);
}

#[test]
fn empty_buffer_is_incomplete() {
    let mut handler = PacketHandler::new();
    assert_eq!(body_of(&mut handler), None);
}

#[test]
fn partial_length_prefix_is_incomplete() {
    let mut handler = PacketHandler::new();
    handler.receive_bytes(&[0x80, 0x80]);
    assert_eq!(body_of(&mut handler), None);
}

#[test]
fn over_long_length_prefix_is_fatal() {
    let mut handler = PacketHandler::new();
    handler.receive_bytes(&[0x80, 0x80, 0x80, 0x80, 0x80, 0x80]);
    assert!(matches!(
        handler.next_packet::<GreedyVecU8>(),
        Err(FrameError::InvalidLength)
    ));
}

#[test]
fn negative_frame_length_is_fatal() {
    let mut handler = PacketHandler::new();
    // VarInt -1 as the frame length.
    handler.receive_bytes(&[0xFF, 0xFF, 0xFF, 0xFF, 0x0F]);
    assert!(matches!(
        handler.next_packet::<GreedyVecU8>(),
        Err(FrameError::InvalidLength)
    ));
}

#[test]
fn codec_error_inside_frame_is_fatal() {
    let mut handler = PacketHandler::new();
    // One frame whose body is an invalid boolean tag.
    handler.receive_bytes(&frame(&[7]));
    assert_eq!(
        handler.next_packet::<bool>(),
        Err(FrameError::DecodeFailure(Error::InvalidBoolTag))
    );
}

#[test]
fn typed_packets_come_out_decoded() {
    let mut handler = PacketHandler::new();
    let mut body = Vec::new();
    "hello".to_string().write(&mut body, V).unwrap();
    handler.receive_bytes(&frame(&body));
    let got: Option<String> = handler.next_packet().unwrap();
    assert_eq!(got.as_deref(), Some("hello"));
}

#[test]
fn compressed_frame_with_inner_zero_is_literal() {
    let mut handler = PacketHandler::new();
    handler.enable_compression(64);
    let mut body = vec![0u8];  // inner length 0: the rest is literal
    body.extend_from_slice(&[10, 20, 30]);
    handler.receive_bytes(&frame(&body));
    assert_eq!(body_of(&mut handler), Some(vec![10, 20, 30]));
}

#[test]
fn compressed_frame_inflates_to_declared_length() {
    let mut handler = PacketHandler::new();
    handler.enable_compression(4);
    let payload: Vec<u8> = (0..200u16).map(|i| (i % 256) as u8).collect();
    let mut body = Vec::new();
    VarInt(payload.len() as i32).write_to(&mut body);
    body.extend_from_slice(&zlib(&payload));
    handler.receive_bytes(&frame(&body));
    assert_eq!(body_of(&mut handler), Some(payload));
}

#[test]
fn compressed_frame_with_wrong_declared_length_is_fatal() {
    let mut handler = PacketHandler::new();
    handler.enable_compression(4);
    let payload: Vec<u8> = vec![7; 50];
    let mut body = Vec::new();
    VarInt(49).write_to(&mut body);  // disagrees with the real inflated size
    body.extend_from_slice(&zlib(&payload));
    handler.receive_bytes(&frame(&body));
    assert!(matches!(
        handler.next_packet::<GreedyVecU8>(),
        Err(FrameError::DecompressionFailure)
    ));
}

#[test]
fn compressed_frame_with_garbage_stream_is_fatal() {
    let mut handler = PacketHandler::new();
    handler.enable_compression(4);
    let mut body = Vec::new();
    VarInt(50).write_to(&mut body);
    body.extend_from_slice(&[1, 2, 3, 4, 5]);
    handler.receive_bytes(&frame(&body));
    assert!(matches!(
        handler.next_packet::<GreedyVecU8>(),
        Err(FrameError::DecompressionFailure)
    ));
}

#[test]
fn write_packet_frames_and_reads_back() {
    let mut writer = PacketHandler::new();
    writer.write_packet(&"round trip".to_string()).unwrap();
    let wire = writer.take_outgoing();

    let mut reader = PacketHandler::new();
    reader.receive_bytes(&wire);
    let got: Option<String> = reader.next_packet().unwrap();
    assert_eq!(got.as_deref(), Some("round trip"));
    assert!(writer.take_outgoing().is_empty());
}

#[test]
fn write_packet_compresses_at_threshold() {
    let mut writer = PacketHandler::new();
    writer.enable_compression(4);
    let long = "a string well over the four-byte threshold".to_string();
    writer.write_packet(&long).unwrap();
    let wire = writer.take_outgoing();

    let mut reader = PacketHandler::new();
    reader.enable_compression(4);
    reader.receive_bytes(&wire);
    let got: Option<String> = reader.next_packet().unwrap();
    assert_eq!(got.as_deref(), Some(long.as_str()));
}

#[test]
fn write_packet_sends_small_bodies_literal() {
    let mut writer = PacketHandler::new();
    writer.enable_compression(1000);
    writer.write_packet(&42u8).unwrap();
    let wire = writer.take_outgoing();
    // Frame length 2: inner length 0 then the literal byte.
    assert_eq!(wire, vec![2, 0, 42]);

    let mut reader = PacketHandler::new();
    reader.enable_compression(1000);
    reader.receive_bytes(&wire);
    let got: Option<u8> = reader.next_packet().unwrap();
    assert_eq!(got, Some(42));
}

#[test]
fn handshake_frame_decodes_field_by_field() {
    let mut wire = vec![16u8, 0, 246, 5, 9];
    wire.extend_from_slice(b"localhost");
    wire.extend_from_slice(&[0xDD, 0x02, 2]);

    let mut handler = PacketHandler::new();
    handler.receive_bytes(&wire);
    let body = body_of(&mut handler).unwrap();
    assert_eq!(body.len(), 16);

    let mut cur = Cursor::new(body.as_slice());
    let packet_id = VarInt::read_from(&mut cur).unwrap();
    assert_eq!(packet_id.0, 0);
    let protocol_version = VarInt::read_from(&mut cur).unwrap();
    assert_eq!(protocol_version.0, 758);
    let address = String::read(&mut cur, V).unwrap();
    assert_eq!(address, "localhost");
    let port = u16::read(&mut cur, V).unwrap();
    assert_eq!(port, 0xDD02);
    let next = VarInt::read_from(&mut cur).unwrap();
    assert_eq!(NextState::from_id(next.0), NextState::Login);
    assert_eq!(cur.position(), 16);
}

#[test]
fn next_state_mapping() {
    assert_eq!(NextState::from_id(1), NextState::Status);
    assert_eq!(NextState::from_id(2), NextState::Login);
    assert_eq!(NextState::from_id(0), NextState::Unknown);
    assert_eq!(NextState::from_id(3), NextState::Unknown);
    assert_eq!(NextState::from_id(-1), NextState::Unknown);
}
