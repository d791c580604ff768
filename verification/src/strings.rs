//! The UTF-8 string codec: a VarInt byte length followed by that many UTF-8
//! bytes, re-validated as UTF-8 after extraction and bounded by a maximum
//! encoded length of 32767 bytes.

use vstd::prelude::*;
use vstd::string::StrSliceExecFns;
use vstd::utf8::{decode_utf8, encode_utf8, valid_utf8};

use crate::codec::{Cursor, Error, ProtocolVersion, Readable, Writeable};
use crate::varint::{spec_varint_bytes, spec_varint_err, spec_varint_value, VarInt};

verus! {

broadcast use vstd::seq_lib::lemma_seq_skip_of_skip, vstd::utf8::encode_utf8_valid_utf8, vstd::utf8::encode_utf8_decode_utf8;

/// The maximum encoded byte length of a string field.
pub const MAX_STRING_BYTES: usize = 32767;

/// Relies on `String::from_utf8`: it succeeds exactly when the bytes are
/// valid UTF-8, and the returned string then holds exactly the given bytes.
#[verifier::external_body]
fn string_from_utf8(bytes: Vec<u8>) -> (r: Option<String>)
    ensures
        match r {
            Some(s) => encode_utf8(s@) == bytes@,
            None => !valid_utf8(bytes@),
        },
{
    match String::from_utf8(bytes) {
        Ok(s) => Some(s),
        Err(_) => None,
    }
}

/// The string a decode yields from the front of `data`: a VarInt byte
/// length, at most 32767, then that many bytes of valid UTF-8.
pub open spec fn spec_string_read(data: Seq<u8>) -> Option<(Seq<char>, int)> {
    match spec_varint_value(data) {
        Some((len, n)) => {
            if !(0 <= len <= MAX_STRING_BYTES) {
                None
            } else if data.len() - n < len {
                None
            } else {
                let bytes = data.skip(n).take(len as int);
                if valid_utf8(bytes) {
                    Some((decode_utf8(bytes), n + len))
                } else {
                    None
                }
            }
        },
        None => None,
    }
}

/// The error a string decode reports when it fails.
pub open spec fn spec_string_read_err(data: Seq<u8>) -> Error {
    match spec_varint_value(data) {
        Some((len, n)) => {
            if !(0 <= len <= MAX_STRING_BYTES) {
                Error::StringTooLong
            } else if data.len() - n < len {
                Error::UnexpectedEof
            } else {
                Error::InvalidUtf8
            }
        },
        None => spec_varint_err(data),
    }
}

/// The wire bytes of a string: its UTF-8 bytes behind their VarInt count, or
/// an error when there are more than 32767 of them.
pub open spec fn spec_string_bytes(s: Seq<char>) -> Result<Seq<u8>, Error> {
    let bytes = encode_utf8(s);
    if bytes.len() > MAX_STRING_BYTES {
        Err(Error::StringTooLong)
    } else {
        Ok(spec_varint_bytes(bytes.len() as i32) + bytes)
    }
}

impl Readable for String {
    open spec fn spec_read(data: Seq<u8>) -> Option<(Seq<char>, int)> {
        spec_string_read(data)
    }

    open spec fn spec_read_err(data: Seq<u8>) -> Error {
        spec_string_read_err(data)
    }

    proof fn lemma_spec_read_bounds(data: Seq<u8>) {
        crate::varint::lemma_var_groups_bounds(data, 5);
    }

    fn read(buffer: &mut Cursor<'_>, _version: ProtocolVersion) -> (r: Result<Self, Error>) {
        let length = match VarInt::read_from(buffer) {
            Ok(v) => v,
            Err(e) => {
                return Err(e);
            },
        };
        if length.0 < 0 || length.0 > MAX_STRING_BYTES as i32 {
            return Err(Error::StringTooLong);
        }
        let bytes = match buffer.read_bytes(length.0 as usize) {
            Ok(b) => b,
            Err(e) => {
                return Err(e);
            },
        };
        match string_from_utf8(bytes) {
            Some(s) => Ok(s),
            None => Err(Error::InvalidUtf8),
        }
    }
}

impl Writeable for String {
    open spec fn spec_write(&self) -> Result<Seq<u8>, Error> {
        spec_string_bytes(self@)
    }

    fn write(&self, buffer: &mut Vec<u8>, _version: ProtocolVersion) -> (r: Result<(), Error>) {
        let mut bytes = self.as_str().as_bytes_vec();
        if bytes.len() > MAX_STRING_BYTES {
            return Err(Error::StringTooLong);
        }
        VarInt(bytes.len() as i32).write_to(buffer);
        buffer.append(&mut bytes);
        Ok(())
    }
}

/// String round trip: for every string of at most 32767 encoded bytes,
/// decoding its encoding, with anything at all after it, gives back exactly
/// that string and consumes exactly the encoding.
pub proof fn lemma_string_round_trip(s: Seq<char>, rest: Seq<u8>)
    requires
        encode_utf8(s).len() <= MAX_STRING_BYTES,
    ensures
        spec_string_bytes(s) matches Ok(enc) && spec_string_read(enc + rest) == Some(
            (s, enc.len() as int),
        ),
{
    let bytes = encode_utf8(s);
    let len = bytes.len() as i32;
    let vb = spec_varint_bytes(len);
    let enc = vb + bytes;
    crate::varint::lemma_varint_round_trip(len, bytes + rest);
    assert(enc + rest =~= vb + (bytes + rest));
    assert(spec_varint_value(enc + rest) == Some((len, vb.len() as int)));
    assert((enc + rest).skip(vb.len() as int) =~= bytes + rest);
    assert((bytes + rest).take(len as int) =~= bytes);
    assert(valid_utf8(bytes));
    assert(decode_utf8(bytes) == s);
}

} // verus!
