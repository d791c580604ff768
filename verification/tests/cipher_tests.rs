use aes::cipher::{AsyncStreamCipher, KeyIvInit};
use mcproto::{EncryptionHandler, GreedyVecU8, PacketHandler};

const KEY: [u8; 16] = [
    0x00, 0x01, 0x02, 0x03, 0x04, 0x05, 0x06, 0x07, 0x08, 0x09, 0x0A, 0x0B, 0x0C, 0x0D, 0x0E,
    0x0F,
];

fn encrypt_chunked(handler: &mut EncryptionHandler, data: &[u8], chunk: usize) -> Vec<u8> {
    let mut out = Vec::new();
    for piece in data.chunks(chunk) {
        let mut buf = piece.to_vec();
        handler.encrypt(&mut buf);
        out.extend_from_slice(&buf);
    }
    out
}

fn decrypt_chunked(handler: &mut EncryptionHandler, data: &[u8], chunk: usize) -> Vec<u8> {
    let mut out = Vec::new();
    for piece in data.chunks(chunk) {
        let mut buf = piece.to_vec();
        handler.decrypt(&mut buf);
        out.extend_from_slice(&buf);
    }
    out
}

fn sample(len: usize) -> Vec<u8> {
    (0..len).map(|i| (i.wrapping_mul(31) % 251) as u8).collect()
}

#[test]
fn encrypt_then_decrypt_round_trips_per_byte() {
    let plain = sample(300);
    let mut enc = EncryptionHandler::new(KEY);
    let mut dec = EncryptionHandler::new(KEY);
    let cipher = encrypt_chunked(&mut enc, &plain, 1);
    assert_ne!(cipher, plain);
    assert_eq!(decrypt_chunked(&mut dec, &cipher, 1), plain);
}

#[test]
fn chunk_size_does_not_change_the_stream() {
    let plain = sample(600);
    let mut enc1 = EncryptionHandler::new(KEY);
    let mut enc7 = EncryptionHandler::new(KEY);
    let mut enc256 = EncryptionHandler::new(KEY);
    let c1 = encrypt_chunked(&mut enc1, &plain, 1);
    let c7 = encrypt_chunked(&mut enc7, &plain, 7);
    let c256 = encrypt_chunked(&mut enc256, &plain, 256);
    assert_eq!(c1, c7);
    assert_eq!(c7, c256);

    let mut dec7 = EncryptionHandler::new(KEY);
    assert_eq!(decrypt_chunked(&mut dec7, &c1, 7), plain);
    let mut dec256 = EncryptionHandler::new(KEY);
    assert_eq!(decrypt_chunked(&mut dec256, &c1, 256), plain);
}

#[test]
fn stream_matches_the_reference_cipher() {
    // The same key and data, run through the cfb8 crate's one-shot
    // transforms, must give byte-identical results to the handler's chunked
    // ones: the wire format is AES-128 in one-byte cipher feedback, with the
    // key doubling as the initialization vector.
    let plain = sample(200);
    let mut mine = EncryptionHandler::new(KEY);
    let cipher = encrypt_chunked(&mut mine, &plain, 7);

    let mut reference = plain.clone();
    cfb8::Encryptor::<aes::Aes128>::new_from_slices(&KEY, &KEY)
        .unwrap()
        .encrypt(&mut reference);
    assert_eq!(cipher, reference);

    let mut back = cipher.clone();
    cfb8::Decryptor::<aes::Aes128>::new_from_slices(&KEY, &KEY)
        .unwrap()
        .decrypt(&mut back);
    assert_eq!(back, plain);
}

#[test]
fn fresh_handler_restarts_the_stream() {
    let plain = sample(64);
    let mut first = EncryptionHandler::new(KEY);
    let c1 = encrypt_chunked(&mut first, &plain, 64);
    // The same handler has moved its feedback register on.
    let c2 = encrypt_chunked(&mut first, &plain, 64);
    assert_ne!(c1, c2);
    // A fresh handler derived from the same key starts over.
    let mut second = first.fresh_from_key();
    let c3 = encrypt_chunked(&mut second, &plain, 64);
    assert_eq!(c1, c3);
}

#[test]
fn encrypted_frames_round_trip_through_handlers() {
    let mut writer = PacketHandler::new();
    writer.enable_encryption(KEY);
    writer.write_packet(&"sealed".to_string()).unwrap();
    writer.write_packet(&12345u32).unwrap();
    let wire = writer.take_outgoing();

    let mut reader = PacketHandler::new();
    reader.enable_encryption(KEY);
    // Feed the ciphertext one byte at a time: decryption state must persist
    // across arbitrarily small chunks.
    for b in &wire {
        reader.receive_bytes(std::slice::from_ref(b));
    }
    let got: Option<String> = reader.next_packet().unwrap();
    assert_eq!(got.as_deref(), Some("sealed"));
    let got2: Option<u32> = reader.next_packet().unwrap();
    assert_eq!(got2, Some(12345));
}

#[test]
fn clone_keep_settings_rederives_cipher_state() {
    let plain = sample(48);
    let mut original = PacketHandler::new();
    original.enable_encryption(KEY);
    original.write_packet(&7u8).unwrap();  // moves the encrypt register on
    let _ = original.take_outgoing();

    // The clone starts from the stored key, not from in-flight state: it
    // produces the same stream a brand-new handler would.
    let mut cloned = original.clone_keep_settings();
    cloned.write_packet(&GreedyVecU8::from(plain.clone())).unwrap();
    let from_clone = cloned.take_outgoing();

    let mut fresh = PacketHandler::new();
    fresh.enable_encryption(KEY);
    fresh.write_packet(&GreedyVecU8::from(plain)).unwrap();
    assert_eq!(from_clone, fresh.take_outgoing());
}
