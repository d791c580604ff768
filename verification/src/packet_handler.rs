//! The packet framing / buffer manager: turns an arbitrarily-chunked inbound
//! byte stream into discrete, decoded packet values, and holds outbound bytes
//! pending flush. Encryption is layered underneath framing — inbound bytes
//! are decrypted as they arrive, before any length prefix is examined, and
//! outbound bytes are encrypted after a frame is fully serialized.
//! Compression wraps only the frame payload, never the length prefix.

use vstd::prelude::*;

use crate::bytes_buf::{bm_as_slice, bm_extend, bm_len, bm_new, bm_split_off, bytes_view};
use crate::cipher::{spec_cfb8_decrypt, spec_cfb8_encrypt, EncryptionHandler, EncryptionKey};
use crate::codec::{Cursor, Error, ProtocolVersion, Readable, Writeable};
use crate::compress::{zlib_compress, zlib_decompress, zlib_deflated, zlib_inflated};
use crate::varint::{spec_varint_bytes, spec_varint_value, VarInt};

verus! {

broadcast use vstd::seq_lib::lemma_seq_skip_of_skip;

/// The minimum uncompressed payload size, in bytes, at which a frame body is
/// compressed.
pub type CompressionThreshold = usize;

/// The wire format in force for every operation of a handler.
pub const PROTOCOL: ProtocolVersion = ProtocolVersion::V1_18_2;

/// Why a frame could not be turned into a packet; each of these is fatal for
/// the connection. The retryable "not enough data yet" outcome is not an
/// error: it is reported as an absent packet.
#[derive(Copy, Clone, Debug, PartialEq, Eq, Structural)]
pub enum FrameError {
    /// The frame declares a length the buffer cannot or should not satisfy.
    InvalidLength,
    /// The value codec rejected the frame's payload.
    DecodeFailure(Error),
    /// The frame's body is not the deflate stream it claims to be, or
    /// inflates to a size that disagrees with its declared inner length.
    DecompressionFailure,
}

/// What a handshake asks the connection to become next.
#[derive(Copy, Clone, Debug, PartialEq, Eq, Structural)]
pub enum NextState {
    /// A status query.
    Status,
    /// A login.
    Login,
    /// Anything else: protocol-invalid.
    Unknown,
}

impl NextState {
    /// The meaning of a handshake's next-state field: 1 asks for status, 2
    /// for login, and any other value is protocol-invalid.
    pub fn from_id(value: i32) -> (r: NextState)
        ensures
            value == 1 ==> r == NextState::Status,
            value == 2 ==> r == NextState::Login,
            value != 1 && value != 2 ==> r == NextState::Unknown,
    {
        match value {
            1 => NextState::Status,
            2 => NextState::Login,
            _ => NextState::Unknown,
        }
    }
}

/// One frame-extraction attempt over buffered plaintext bytes, before the
/// value codec runs: the frame body after the optional decompression stage
/// and the total wire bytes the frame spans, or `Err(None)` when the buffer
/// does not yet hold a complete frame (retryable), or the fatal error.
pub open spec fn spec_next_frame(buf: Seq<u8>, compressed: bool) -> Result<
    (Seq<u8>, int),
    Option<FrameError>,
> {
    match spec_varint_value(buf) {
        None => if buf.len() >= 5 {
            Err(Some(FrameError::InvalidLength))
        } else {
            Err(None)
        },
        Some((len, n)) => {
            if len < 0 {
                Err(Some(FrameError::InvalidLength))
            } else if buf.len() - n < len {
                Err(None)
            } else {
                let payload = buf.subrange(n, n + len);
                if compressed {
                    spec_inner_body(payload, n + len)
                } else {
                    Ok((payload, n + len))
                }
            }
        },
    }
}

/// The body of a complete frame payload under compression: a VarInt inner
/// length of zero means the remaining bytes are the literal body; a positive
/// one means they are a deflate stream that must inflate to exactly that many
/// bytes.
pub open spec fn spec_inner_body(payload: Seq<u8>, total: int) -> Result<
    (Seq<u8>, int),
    Option<FrameError>,
> {
    match spec_varint_value(payload) {
        None => Err(
            Some(FrameError::DecodeFailure(crate::varint::spec_varint_err(payload))),
        ),
        Some((dlen, m)) => {
            if dlen == 0 {
                Ok((payload.skip(m), total))
            } else if dlen < 0 {
                Err(Some(FrameError::InvalidLength))
            } else {
                match zlib_inflated(payload.skip(m)) {
                    None => Err(Some(FrameError::DecompressionFailure)),
                    Some(raw) => if raw.len() != dlen {
                        Err(Some(FrameError::DecompressionFailure))
                    } else {
                        Ok((raw, total))
                    },
                }
            }
        },
    }
}

/// The wire bytes of one outbound frame around an encoded body, before
/// encryption: with compression active, bodies at or above the threshold are
/// deflated behind their uncompressed length, and smaller ones are sent
/// literally behind an inner length of zero; either way a VarInt frame length
/// leads. Fails only when a length cannot be represented as a VarInt.
pub open spec fn spec_frame_bytes(body: Seq<u8>, compression: Option<CompressionThreshold>)
    -> Result<Seq<u8>, Error> {
    let inner = match compression {
        Some(threshold) => {
            if body.len() >= threshold {
                spec_varint_bytes(body.len() as i32) + zlib_deflated(body)
            } else {
                spec_varint_bytes(0) + body
            }
        },
        None => body,
    };
    if body.len() > i32::MAX || inner.len() > i32::MAX {
        Err(Error::LengthOverflow)
    } else {
        Ok(spec_varint_bytes(inner.len() as i32) + inner)
    }
}

/// Framing round trip without compression: a frame built around a body
/// decodes back to exactly that body and spans exactly its own bytes,
/// whatever follows it on the wire.
pub proof fn lemma_frame_round_trip(body: Seq<u8>, rest: Seq<u8>)
    requires
        body.len() <= i32::MAX,
    ensures
        spec_frame_bytes(body, None) matches Ok(frame) && spec_next_frame(frame + rest, false)
            == Ok::<(Seq<u8>, int), Option<FrameError>>((body, frame.len() as int)),
{
    let vb = spec_varint_bytes(body.len() as i32);
    let frame = vb + body;
    crate::varint::lemma_varint_round_trip(body.len() as i32, body + rest);
    assert(frame + rest =~= vb + (body + rest));
    assert((frame + rest).subrange(vb.len() as int, (vb.len() + body.len()) as int) =~= body);
}

/// Framing round trip with compression, below the threshold: the body goes
/// out literally behind an inner length of zero, and decodes back to exactly
/// itself.
pub proof fn lemma_frame_round_trip_below_threshold(
    body: Seq<u8>,
    threshold: CompressionThreshold,
    rest: Seq<u8>,
)
    requires
        body.len() < threshold,
        body.len() + 1 <= i32::MAX,
    ensures
        spec_frame_bytes(body, Some(threshold)) matches Ok(frame) && spec_next_frame(
            frame + rest,
            true,
        ) == Ok::<(Seq<u8>, int), Option<FrameError>>((body, frame.len() as int)),
{
    let inner = spec_varint_bytes(0) + body;
    assert(spec_varint_bytes(0) =~= seq![0u8]);
    let vb = spec_varint_bytes(inner.len() as i32);
    let frame = vb + inner;
    crate::varint::lemma_varint_round_trip(inner.len() as i32, inner + rest);
    assert(frame + rest =~= vb + (inner + rest));
    let payload = (frame + rest).subrange(vb.len() as int, (vb.len() + inner.len()) as int);
    assert(payload =~= inner);
    crate::varint::lemma_varint_round_trip(0, body);
    assert(spec_varint_bytes(0) + body =~= inner);
    assert(spec_varint_value(inner) == Some((0i32, 1int)));
    assert(inner.skip(1) =~= body);
}

/// Per-connection framing state: the accumulation buffer of decrypted inbound
/// bytes not yet consumed into a packet, the bytes queued for the outbound
/// direction, the active compression threshold, and the optional encryption
/// handler. Owned and mutated by a single connection's context.
pub struct PacketHandler {
    encryption_handler: Option<EncryptionHandler>,
    compression: Option<CompressionThreshold>,
    incoming_buf: bytes::BytesMut,
    writing_buf: Vec<u8>,
}

impl PacketHandler {
    /// The decrypted inbound bytes not yet consumed into a packet.
    pub closed spec fn spec_incoming(&self) -> Seq<u8> {
        bytes_view(self.incoming_buf)
    }

    /// The encrypted outbound bytes pending flush.
    pub closed spec fn spec_outgoing(&self) -> Seq<u8> {
        self.writing_buf@
    }

    /// The active compression threshold, if a handshake step enabled one.
    pub closed spec fn spec_compression(&self) -> Option<CompressionThreshold> {
        self.compression
    }

    /// The encryption handler, if a key-exchange step enabled one.
    pub closed spec fn spec_encryption(&self) -> Option<EncryptionHandler> {
        self.encryption_handler
    }

    /// An enabled encryption handler is well formed.
    pub open spec fn wf(&self) -> bool {
        self.spec_encryption() matches Some(h) ==> h.wf()
    }

    /// A fresh handler: empty buffers, no compression, no encryption.
    pub fn new() -> (r: PacketHandler)
        ensures
            r.wf(),
            r.spec_incoming() == Seq::<u8>::empty(),
            r.spec_outgoing() == Seq::<u8>::empty(),
            r.spec_compression() is None,
            r.spec_encryption() is None,
    {
        PacketHandler {
            encryption_handler: None,
            compression: None,
            incoming_buf: bm_new(),
            writing_buf: Vec::new(),
        }
    }

    /// A handler for a new logical stream on the same connection settings:
    /// fresh cipher state is re-derived from the stored key — never a copy of
    /// in-flight cipher state — and the buffers start empty.
    pub fn clone_keep_settings(&self) -> (r: PacketHandler)
        requires
            self.wf(),
        ensures
            r.wf(),
            r.spec_incoming() == Seq::<u8>::empty(),
            r.spec_outgoing() == Seq::<u8>::empty(),
            r.spec_compression() is None,
            match self.spec_encryption() {
                Some(h) => r.spec_encryption() matches Some(h2) && h2.spec_key() == h.spec_key()
                    && h2.spec_enc().spec_register() == h.spec_key()
                    && h2.spec_dec().spec_register() == h.spec_key() && h2.wf(),
                None => r.spec_encryption() is None,
            },
    {
        let fresh = match &self.encryption_handler {
            Some(h) => Some(h.fresh_from_key()),
            None => None,
        };
        PacketHandler {
            encryption_handler: fresh,
            compression: None,
            incoming_buf: bm_new(),
            writing_buf: Vec::new(),
        }
    }

    /// Enables encryption with a fresh handler derived from the key; done
    /// once per connection, right after key exchange.
    pub fn enable_encryption(&mut self, key: EncryptionKey)
        ensures
            final(self).wf(),
            final(self).spec_encryption() matches Some(h) && h.spec_key() == key@
                && h.spec_enc().spec_register() == key@ && h.spec_dec().spec_register() == key@,
            final(self).spec_incoming() == old(self).spec_incoming(),
            final(self).spec_outgoing() == old(self).spec_outgoing(),
            final(self).spec_compression() == old(self).spec_compression(),
    {
        self.encryption_handler = Some(EncryptionHandler::new(key));
    }

    /// Enables compression at the given threshold; done once per connection,
    /// by the handshake step that negotiates it.
    pub fn enable_compression(&mut self, threshold: CompressionThreshold)
        ensures
            final(self).wf() == old(self).wf(),
            final(self).spec_compression() == Some(threshold),
            final(self).spec_incoming() == old(self).spec_incoming(),
            final(self).spec_outgoing() == old(self).spec_outgoing(),
            final(self).spec_encryption() == old(self).spec_encryption(),
    {
        self.compression = Some(threshold);
    }

    /// Accepts raw bytes from the transport: they are decrypted in place when
    /// encryption is active — before any framing runs — and appended to the
    /// accumulation buffer.
    pub fn receive_bytes(&mut self, data: &[u8])
        requires
            old(self).wf(),
        ensures
            final(self).wf(),
            final(self).spec_outgoing() == old(self).spec_outgoing(),
            final(self).spec_compression() == old(self).spec_compression(),
            match old(self).spec_encryption() {
                None => final(self).spec_incoming() == old(self).spec_incoming() + data@ && final(self).spec_encryption() is None,
                Some(h) => {
                    let dec = spec_cfb8_decrypt(h.spec_key(), h.spec_dec().spec_register(), data@);
                    &&& final(self).spec_incoming() == old(self).spec_incoming() + dec.0
                    &&& final(self).spec_encryption() matches Some(h2) && h2.spec_key()
                        == h.spec_key() && h2.spec_enc() == h.spec_enc()
                        && h2.spec_dec().spec_register() == dec.1
                },
            },
    {
        let mut plain = vstd::slice::slice_to_vec(data);
        match &mut self.encryption_handler {
            Some(h) => {
                h.decrypt(&mut plain);
            },
            None => {},
        }
        bm_extend(&mut self.incoming_buf, plain.as_slice());
    }

    /// Attempts to produce the next packet from the accumulation buffer. An
    /// absent packet means the buffer does not yet hold a complete frame: the
    /// caller must supply more bytes and retry, and nothing was consumed. On
    /// success exactly the frame's own bytes are consumed from the front,
    /// leaving any buffered start of the next frame untouched. An error is
    /// fatal for the connection, which must not be read further.
    pub fn next_packet<T: Readable>(&mut self) -> (r: Result<Option<T>, FrameError>)
        requires
            old(self).wf(),
        ensures
            final(self).wf(),
            final(self).spec_outgoing() == old(self).spec_outgoing(),
            final(self).spec_compression() == old(self).spec_compression(),
            final(self).spec_encryption() == old(self).spec_encryption(),
            match spec_next_frame(
                old(self).spec_incoming(),
                old(self).spec_compression() is Some,
            ) {
                Err(None) => r == Ok::<Option<T>, FrameError>(None::<T>) && final(self).spec_incoming() == old(self).spec_incoming(),
                Err(Some(fe)) => r == Err::<Option<T>, FrameError>(fe) && final(self).spec_incoming() == old(self).spec_incoming(),
                Ok((body, total)) => match T::spec_read(body) {
                    Some((v, k)) => (r matches Ok(p) && p matches Some(x) && x.deep_view() == v)
                        && final(self).spec_incoming() == old(self).spec_incoming().skip(total),
                    None => r == Err::<Option<T>, FrameError>(
                        FrameError::DecodeFailure(T::spec_read_err(body)),
                    ) && final(self).spec_incoming() == old(self).spec_incoming(),
                },
            },
    {
        let buf_len = bm_len(&self.incoming_buf);
        let mut cursor = Cursor::new(bm_as_slice(&self.incoming_buf));
        let length = match VarInt::read_from(&mut cursor) {
            Ok(v) => v,
            Err(Error::UnexpectedEof) => {
                return Ok(None);
            },
            Err(_) => {
                return Err(FrameError::InvalidLength);
            },
        };
        if length.0 < 0 {
            return Err(FrameError::InvalidLength);
        }
        let prefix_len = cursor.position();
        let len = length.0 as usize;
        if buf_len - prefix_len < len {
            return Ok(None);
        }
        let payload = match cursor.read_bytes(len) {
            Ok(p) => p,
            Err(_) => {
                proof {
                    assert(false);
                }
                return Err(FrameError::InvalidLength);
            },
        };
        proof {
            assert(payload@ =~= old(self).spec_incoming().subrange(
                prefix_len as int,
                prefix_len + len,
            ));
        }
        let total = prefix_len + len;
        let body: Vec<u8> = if self.compression.is_some() {
            let mut pcur = Cursor::new(payload.as_slice());
            let data_length = match VarInt::read_from(&mut pcur) {
                Ok(v) => v,
                Err(e) => {
                    return Err(FrameError::DecodeFailure(e));
                },
            };
            if data_length.0 == 0 {
                pcur.read_to_end()
            } else if data_length.0 < 0 {
                return Err(FrameError::InvalidLength);
            } else {
                let stream = pcur.read_to_end();
                match zlib_decompress(stream.as_slice()) {
                    None => {
                        return Err(FrameError::DecompressionFailure);
                    },
                    Some(raw) => {
                        if raw.len() != data_length.0 as usize {
                            return Err(FrameError::DecompressionFailure);
                        }
                        raw
                    },
                }
            }
        } else {
            payload
        };
        proof {
            assert(body@.skip(0) =~= body@);
            assert(spec_next_frame(
                old(self).spec_incoming(),
                old(self).spec_compression() is Some,
            ) == Ok::<(Seq<u8>, int), Option<FrameError>>((body@, total as int)));
        }
        let mut bcur = Cursor::new(body.as_slice());
        let packet = match T::read(&mut bcur, PROTOCOL) {
            Ok(p) => p,
            Err(e) => {
                return Err(FrameError::DecodeFailure(e));
            },
        };
        let tail = bm_split_off(&mut self.incoming_buf, total);
        self.incoming_buf = tail;
        Ok(Some(packet))
    }

    /// Serializes one packet into a frame — compressing the body when the
    /// active threshold says so, then encrypting the whole frame when
    /// encryption is active — and appends it to the pending-write buffer. On
    /// failure nothing changes.
    pub fn write_packet<T: Writeable>(&mut self, packet: &T) -> (r: Result<(), Error>)
        requires
            old(self).wf(),
        ensures
            final(self).wf(),
            final(self).spec_incoming() == old(self).spec_incoming(),
            final(self).spec_compression() == old(self).spec_compression(),
            match packet.spec_write() {
                Err(e) => r == Err::<(), Error>(e) && final(self).spec_outgoing() == old(
                    self,
                ).spec_outgoing() && final(self).spec_encryption() == old(self).spec_encryption(),
                Ok(body) => match spec_frame_bytes(body, old(self).spec_compression()) {
                    Err(e) => r == Err::<(), Error>(e) && final(self).spec_outgoing() == old(
                        self,
                    ).spec_outgoing() && final(self).spec_encryption() == old(
                        self,
                    ).spec_encryption(),
                    Ok(frame) => r == Ok::<(), Error>(()) && (match old(self).spec_encryption() {
                        None => final(self).spec_outgoing() == old(self).spec_outgoing() + frame
                            && final(self).spec_encryption() is None,
                        Some(h) => {
                            let enc = spec_cfb8_encrypt(
                                h.spec_key(),
                                h.spec_enc().spec_register(),
                                frame,
                            );
                            &&& final(self).spec_outgoing() == old(self).spec_outgoing() + enc.0
                            &&& final(self).spec_encryption() matches Some(h2) && h2.spec_key()
                                == h.spec_key() && h2.spec_dec() == h.spec_dec()
                                && h2.spec_enc().spec_register() == enc.1
                        },
                    }),
                },
            },
    {
        let mut body: Vec<u8> = Vec::new();
        match packet.write(&mut body, PROTOCOL) {
            Ok(()) => {},
            Err(e) => {
                return Err(e);
            },
        }
        let mut inner: Vec<u8> = match self.compression {
            Some(threshold) => {
                if body.len() >= threshold {
                    if body.len() > i32::MAX as usize {
                        return Err(Error::LengthOverflow);
                    }
                    let mut inner: Vec<u8> = Vec::new();
                    VarInt(body.len() as i32).write_to(&mut inner);
                    let mut deflated = zlib_compress(body.as_slice());
                    inner.append(&mut deflated);
                    inner
                } else {
                    let mut inner: Vec<u8> = Vec::new();
                    VarInt(0).write_to(&mut inner);
                    inner.append(&mut body);
                    inner
                }
            },
            None => body,
        };
        if inner.len() > i32::MAX as usize {
            return Err(Error::LengthOverflow);
        }
        let mut frame: Vec<u8> = Vec::new();
        VarInt(inner.len() as i32).write_to(&mut frame);
        frame.append(&mut inner);
        match &mut self.encryption_handler {
            Some(h) => {
                h.encrypt(&mut frame);
            },
            None => {},
        }
        self.writing_buf.append(&mut frame);
        Ok(())
    }

    /// Hands over all encrypted outbound bytes pending flush, leaving the
    /// pending-write buffer empty; the caller sends them on the transport.
    pub fn take_outgoing(&mut self) -> (r: Vec<u8>)
        requires
            old(self).wf(),
        ensures
            final(self).wf(),
            r@ == old(self).spec_outgoing(),
            final(self).spec_outgoing() == Seq::<u8>::empty(),
            final(self).spec_incoming() == old(self).spec_incoming(),
            final(self).spec_compression() == old(self).spec_compression(),
            final(self).spec_encryption() == old(self).spec_encryption(),
    {
        let mut out: Vec<u8> = Vec::new();
        core::mem::swap(&mut out, &mut self.writing_buf);
        out
    }
}

impl Default for PacketHandler {
    /// A fresh handler, as `new` makes it.
    fn default() -> (r: PacketHandler)
        ensures
            r.wf(),
            r.spec_incoming() == Seq::<u8>::empty(),
            r.spec_outgoing() == Seq::<u8>::empty(),
            r.spec_compression() is None,
            r.spec_encryption() is None,
    {
        PacketHandler::new()
    }
}

} // verus!
