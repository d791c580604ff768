//! Codec capabilities for the primitive wire types: fixed-width big-endian
//! integers, single-byte booleans, and optional values tagged by a boolean
//! presence flag.

use vstd::prelude::*;

use crate::codec::{Cursor, Error, ProtocolVersion, Readable, Writeable};

verus! {

broadcast use vstd::seq_lib::lemma_seq_skip_of_skip;

/// The unsigned 8-bit reinterpretation of a signed 8-bit value.
pub open spec fn i8_as_u8(v: i8) -> nat {
    if v >= 0 {
        v as nat
    } else {
        (v + 0x100) as nat
    }
}

/// The signed 8-bit reinterpretation of an unsigned 8-bit value.
pub open spec fn u8_as_i8(x: nat) -> i8
    recommends
        x < 0x100,
{
    if x < 0x80 {
        x as i8
    } else {
        (x - 0x100) as i8
    }
}

/// The unsigned 16-bit reinterpretation of a signed 16-bit value.
pub open spec fn i16_as_u16(v: i16) -> nat {
    if v >= 0 {
        v as nat
    } else {
        (v + 0x1_0000) as nat
    }
}

/// The signed 16-bit reinterpretation of an unsigned 16-bit value.
pub open spec fn u16_as_i16(x: nat) -> i16
    recommends
        x < 0x1_0000,
{
    if x < 0x8000 {
        x as i16
    } else {
        (x - 0x1_0000) as i16
    }
}

/// The two big-endian bytes of an unsigned 16-bit value.
pub open spec fn spec_u16_be(x: u16) -> Seq<u8> {
    seq![(x / 0x100) as u8, (x % 0x100) as u8]
}

/// The unsigned 16-bit value held by the first two bytes of `data`.
pub open spec fn spec_u16_of(data: Seq<u8>) -> nat
    recommends
        data.len() >= 2,
{
    (data[0] * 0x100 + data[1]) as nat
}

/// The four big-endian bytes of an unsigned 32-bit value.
pub open spec fn spec_u32_be(x: u32) -> Seq<u8> {
    seq![
        (x / 0x100_0000) as u8,
        ((x / 0x1_0000) % 0x100) as u8,
        ((x / 0x100) % 0x100) as u8,
        (x % 0x100) as u8,
    ]
}

/// The unsigned 32-bit value held by the first four bytes of `data`.
pub open spec fn spec_u32_of(data: Seq<u8>) -> nat
    recommends
        data.len() >= 4,
{
    (data[0] * 0x100_0000 + data[1] * 0x1_0000 + data[2] * 0x100 + data[3]) as nat
}

/// The eight big-endian bytes of an unsigned 64-bit value.
pub open spec fn spec_u64_be(x: u64) -> Seq<u8> {
    seq![
        (x / 0x100_0000_0000_0000) as u8,
        ((x / 0x1_0000_0000_0000) % 0x100) as u8,
        ((x / 0x100_0000_0000) % 0x100) as u8,
        ((x / 0x1_0000_0000) % 0x100) as u8,
        ((x / 0x100_0000) % 0x100) as u8,
        ((x / 0x1_0000) % 0x100) as u8,
        ((x / 0x100) % 0x100) as u8,
        (x % 0x100) as u8,
    ]
}

/// The unsigned 64-bit value held by the first eight bytes of `data`.
pub open spec fn spec_u64_of(data: Seq<u8>) -> nat
    recommends
        data.len() >= 8,
{
    (data[0] * 0x100_0000_0000_0000 + data[1] * 0x1_0000_0000_0000 + data[2] * 0x100_0000_0000
        + data[3] * 0x1_0000_0000 + data[4] * 0x100_0000 + data[5] * 0x1_0000 + data[6] * 0x100
        + data[7]) as nat
}

impl Readable for u8 {
    open spec fn spec_read(data: Seq<u8>) -> Option<(u8, int)> {
        if data.len() >= 1 {
            Some((data[0], 1))
        } else {
            None
        }
    }

    open spec fn spec_read_err(data: Seq<u8>) -> Error {
        Error::UnexpectedEof
    }

    proof fn lemma_spec_read_bounds(data: Seq<u8>) {
    }

    fn read(buffer: &mut Cursor<'_>, _version: ProtocolVersion) -> (r: Result<Self, Error>) {
        buffer.read_byte()
    }
}

impl Writeable for u8 {
    open spec fn spec_write(&self) -> Result<Seq<u8>, Error> {
        Ok(seq![*self])
    }

    fn write(&self, buffer: &mut Vec<u8>, _version: ProtocolVersion) -> (r: Result<(), Error>) {
        buffer.push(*self);
        proof {
            assert(final(buffer)@ =~= old(buffer)@ + seq![*self]);
        }
        Ok(())
    }
}

impl Readable for i8 {
    open spec fn spec_read(data: Seq<u8>) -> Option<(i8, int)> {
        if data.len() >= 1 {
            Some((u8_as_i8(data[0] as nat), 1))
        } else {
            None
        }
    }

    open spec fn spec_read_err(data: Seq<u8>) -> Error {
        Error::UnexpectedEof
    }

    proof fn lemma_spec_read_bounds(data: Seq<u8>) {
    }

    fn read(buffer: &mut Cursor<'_>, _version: ProtocolVersion) -> (r: Result<Self, Error>) {
        let b = match buffer.read_byte() {
            Ok(b) => b,
            Err(e) => {
                return Err(e);
            },
        };
        if b < 0x80 {
            Ok(b as i8)
        } else {
            Ok(((b as i16) - 0x100) as i8)
        }
    }
}

impl Writeable for i8 {
    open spec fn spec_write(&self) -> Result<Seq<u8>, Error> {
        Ok(seq![i8_as_u8(*self) as u8])
    }

    fn write(&self, buffer: &mut Vec<u8>, _version: ProtocolVersion) -> (r: Result<(), Error>) {
        let b: u8 = if *self >= 0 {
            *self as u8
        } else {
            ((*self as i16) + 0x100) as u8
        };
        buffer.push(b);
        proof {
            assert(final(buffer)@ =~= old(buffer)@ + seq![i8_as_u8(*self) as u8]);
        }
        Ok(())
    }
}

impl Readable for u16 {
    open spec fn spec_read(data: Seq<u8>) -> Option<(u16, int)> {
        if data.len() >= 2 {
            Some((spec_u16_of(data) as u16, 2))
        } else {
            None
        }
    }

    open spec fn spec_read_err(data: Seq<u8>) -> Error {
        Error::UnexpectedEof
    }

    proof fn lemma_spec_read_bounds(data: Seq<u8>) {
    }

    fn read(buffer: &mut Cursor<'_>, _version: ProtocolVersion) -> (r: Result<Self, Error>) {
        let b = match buffer.read_bytes(2) {
            Ok(v) => v,
            Err(e) => {
                return Err(e);
            },
        };
        Ok((b[0] as u16) * 0x100 + (b[1] as u16))
    }
}

impl Writeable for u16 {
    open spec fn spec_write(&self) -> Result<Seq<u8>, Error> {
        Ok(spec_u16_be(*self))
    }

    fn write(&self, buffer: &mut Vec<u8>, _version: ProtocolVersion) -> (r: Result<(), Error>) {
        buffer.push((*self / 0x100) as u8);
        buffer.push((*self % 0x100) as u8);
        proof {
            assert(final(buffer)@ =~= old(buffer)@ + spec_u16_be(*self));
        }
        Ok(())
    }
}

impl Readable for u32 {
    open spec fn spec_read(data: Seq<u8>) -> Option<(u32, int)> {
        if data.len() >= 4 {
            Some((spec_u32_of(data) as u32, 4))
        } else {
            None
        }
    }

    open spec fn spec_read_err(data: Seq<u8>) -> Error {
        Error::UnexpectedEof
    }

    proof fn lemma_spec_read_bounds(data: Seq<u8>) {
    }

    fn read(buffer: &mut Cursor<'_>, _version: ProtocolVersion) -> (r: Result<Self, Error>) {
        let b = match buffer.read_bytes(4) {
            Ok(v) => v,
            Err(e) => {
                return Err(e);
            },
        };
        Ok(
            (b[0] as u32) * 0x100_0000 + (b[1] as u32) * 0x1_0000 + (b[2] as u32) * 0x100 + (
            b[3] as u32),
        )
    }
}

impl Writeable for u32 {
    open spec fn spec_write(&self) -> Result<Seq<u8>, Error> {
        Ok(spec_u32_be(*self))
    }

    fn write(&self, buffer: &mut Vec<u8>, _version: ProtocolVersion) -> (r: Result<(), Error>) {
        buffer.push((*self / 0x100_0000) as u8);
        buffer.push(((*self / 0x1_0000) % 0x100) as u8);
        buffer.push(((*self / 0x100) % 0x100) as u8);
        buffer.push((*self % 0x100) as u8);
        proof {
            assert(final(buffer)@ =~= old(buffer)@ + spec_u32_be(*self));
        }
        Ok(())
    }
}

impl Readable for u64 {
    open spec fn spec_read(data: Seq<u8>) -> Option<(u64, int)> {
        if data.len() >= 8 {
            Some((spec_u64_of(data) as u64, 8))
        } else {
            None
        }
    }

    open spec fn spec_read_err(data: Seq<u8>) -> Error {
        Error::UnexpectedEof
    }

    proof fn lemma_spec_read_bounds(data: Seq<u8>) {
    }

    fn read(buffer: &mut Cursor<'_>, _version: ProtocolVersion) -> (r: Result<Self, Error>) {
        let b = match buffer.read_bytes(8) {
            Ok(v) => v,
            Err(e) => {
                return Err(e);
            },
        };
        Ok(
            (b[0] as u64) * 0x100_0000_0000_0000 + (b[1] as u64) * 0x1_0000_0000_0000 + (
            b[2] as u64) * 0x100_0000_0000 + (b[3] as u64) * 0x1_0000_0000 + (b[4] as u64)
                * 0x100_0000 + (b[5] as u64) * 0x1_0000 + (b[6] as u64) * 0x100 + (b[7] as u64),
        )
    }
}

impl Writeable for u64 {
    open spec fn spec_write(&self) -> Result<Seq<u8>, Error> {
        Ok(spec_u64_be(*self))
    }

    fn write(&self, buffer: &mut Vec<u8>, _version: ProtocolVersion) -> (r: Result<(), Error>) {
        buffer.push((*self / 0x100_0000_0000_0000) as u8);
        buffer.push(((*self / 0x1_0000_0000_0000) % 0x100) as u8);
        buffer.push(((*self / 0x100_0000_0000) % 0x100) as u8);
        buffer.push(((*self / 0x1_0000_0000) % 0x100) as u8);
        buffer.push(((*self / 0x100_0000) % 0x100) as u8);
        buffer.push(((*self / 0x1_0000) % 0x100) as u8);
        buffer.push(((*self / 0x100) % 0x100) as u8);
        buffer.push((*self % 0x100) as u8);
        proof {
            assert(final(buffer)@ =~= old(buffer)@ + spec_u64_be(*self));
        }
        Ok(())
    }
}

impl Readable for i16 {
    open spec fn spec_read(data: Seq<u8>) -> Option<(i16, int)> {
        if data.len() >= 2 {
            Some((u16_as_i16(spec_u16_of(data)), 2))
        } else {
            None
        }
    }

    open spec fn spec_read_err(data: Seq<u8>) -> Error {
        Error::UnexpectedEof
    }

    proof fn lemma_spec_read_bounds(data: Seq<u8>) {
    }

    fn read(buffer: &mut Cursor<'_>, version: ProtocolVersion) -> (r: Result<Self, Error>) {
        let x = match u16::read(buffer, version) {
            Ok(x) => x,
            Err(e) => {
                return Err(e);
            },
        };
        if x < 0x8000 {
            Ok(x as i16)
        } else {
            Ok(((x as i32) - 0x1_0000) as i16)
        }
    }
}

impl Writeable for i16 {
    open spec fn spec_write(&self) -> Result<Seq<u8>, Error> {
        Ok(spec_u16_be(i16_as_u16(*self) as u16))
    }

    fn write(&self, buffer: &mut Vec<u8>, version: ProtocolVersion) -> (r: Result<(), Error>) {
        let x: u16 = if *self >= 0 {
            *self as u16
        } else {
            ((*self as i32) + 0x1_0000) as u16
        };
        x.write(buffer, version)
    }
}

impl Readable for i32 {
    open spec fn spec_read(data: Seq<u8>) -> Option<(i32, int)> {
        if data.len() >= 4 {
            Some((crate::varint::u32_as_i32(spec_u32_of(data)), 4))
        } else {
            None
        }
    }

    open spec fn spec_read_err(data: Seq<u8>) -> Error {
        Error::UnexpectedEof
    }

    proof fn lemma_spec_read_bounds(data: Seq<u8>) {
    }

    fn read(buffer: &mut Cursor<'_>, version: ProtocolVersion) -> (r: Result<Self, Error>) {
        let x = match u32::read(buffer, version) {
            Ok(x) => x,
            Err(e) => {
                return Err(e);
            },
        };
        if x < 0x8000_0000 {
            Ok(x as i32)
        } else {
            Ok(((x as i64) - 0x1_0000_0000i64) as i32)
        }
    }
}

impl Writeable for i32 {
    open spec fn spec_write(&self) -> Result<Seq<u8>, Error> {
        Ok(spec_u32_be(crate::varint::i32_as_u32(*self) as u32))
    }

    fn write(&self, buffer: &mut Vec<u8>, version: ProtocolVersion) -> (r: Result<(), Error>) {
        let x: u32 = if *self >= 0 {
            *self as u32
        } else {
            (((*self as i64) + 0x1_0000_0000i64) as u32)
        };
        x.write(buffer, version)
    }
}

impl Readable for i64 {
    open spec fn spec_read(data: Seq<u8>) -> Option<(i64, int)> {
        if data.len() >= 8 {
            Some((crate::varint::u64_as_i64(spec_u64_of(data)), 8))
        } else {
            None
        }
    }

    open spec fn spec_read_err(data: Seq<u8>) -> Error {
        Error::UnexpectedEof
    }

    proof fn lemma_spec_read_bounds(data: Seq<u8>) {
    }

    fn read(buffer: &mut Cursor<'_>, version: ProtocolVersion) -> (r: Result<Self, Error>) {
        let x = match u64::read(buffer, version) {
            Ok(x) => x,
            Err(e) => {
                return Err(e);
            },
        };
        if x < 0x8000_0000_0000_0000 {
            Ok(x as i64)
        } else {
            Ok(((x as i128) - 0x1_0000_0000_0000_0000i128) as i64)
        }
    }
}

impl Writeable for i64 {
    open spec fn spec_write(&self) -> Result<Seq<u8>, Error> {
        Ok(spec_u64_be(crate::varint::i64_as_u64(*self) as u64))
    }

    fn write(&self, buffer: &mut Vec<u8>, version: ProtocolVersion) -> (r: Result<(), Error>) {
        let x: u64 = if *self >= 0 {
            *self as u64
        } else {
            (((*self as i128) + 0x1_0000_0000_0000_0000i128) as u64)
        };
        x.write(buffer, version)
    }
}

impl Readable for bool {
    open spec fn spec_read(data: Seq<u8>) -> Option<(bool, int)> {
        if data.len() >= 1 && data[0] == 0 {
            Some((false, 1))
        } else if data.len() >= 1 && data[0] == 1 {
            Some((true, 1))
        } else {
            None
        }
    }

    open spec fn spec_read_err(data: Seq<u8>) -> Error {
        if data.len() == 0 {
            Error::UnexpectedEof
        } else {
            Error::InvalidBoolTag
        }
    }

    proof fn lemma_spec_read_bounds(data: Seq<u8>) {
    }

    fn read(buffer: &mut Cursor<'_>, version: ProtocolVersion) -> (r: Result<Self, Error>) {
        let x = match u8::read(buffer, version) {
            Ok(x) => x,
            Err(e) => {
                return Err(e);
            },
        };
        match x {
            0 => Ok(false),
            1 => Ok(true),
            _ => Err(Error::InvalidBoolTag),
        }
    }
}

impl Writeable for bool {
    open spec fn spec_write(&self) -> Result<Seq<u8>, Error> {
        Ok(seq![if *self { 1u8 } else { 0u8 }])
    }

    fn write(&self, buffer: &mut Vec<u8>, version: ProtocolVersion) -> (r: Result<(), Error>) {
        let x: u8 = if *self {
            1
        } else {
            0
        };
        x.write(buffer, version)
    }
}

impl<T: Readable> Readable for Option<T> {
    /// A boolean presence flag, then the inner value only when present.
    open spec fn spec_read(data: Seq<u8>) -> Option<(Option<T::V>, int)> {
        match <bool as Readable>::spec_read(data) {
            Some((present, n)) => if present {
                match T::spec_read(data.skip(n)) {
                    Some((v, m)) => Some((Some(v), n + m)),
                    None => None,
                }
            } else {
                Some((None, n))
            },
            None => None,
        }
    }

    open spec fn spec_read_err(data: Seq<u8>) -> Error {
        match <bool as Readable>::spec_read(data) {
            Some((present, n)) => T::spec_read_err(data.skip(n)),
            None => <bool as Readable>::spec_read_err(data),
        }
    }

    proof fn lemma_spec_read_bounds(data: Seq<u8>) {
        match <bool as Readable>::spec_read(data) {
            Some((present, n)) => {
                if present {
                    T::lemma_spec_read_bounds(data.skip(n));
                }
            },
            None => {},
        }
    }

    fn read(buffer: &mut Cursor<'_>, version: ProtocolVersion) -> (r: Result<Self, Error>) {
        let present = match bool::read(buffer, version) {
            Ok(p) => p,
            Err(e) => {
                return Err(e);
            },
        };
        if present {
            match T::read(buffer, version) {
                Ok(v) => Ok(Some(v)),
                Err(e) => Err(e),
            }
        } else {
            Ok(None)
        }
    }
}

impl<T: Writeable> Writeable for Option<T> {
    /// `None` is a single zero byte; `Some(x)` is a one byte followed by the
    /// encoding of `x`.
    open spec fn spec_write(&self) -> Result<Seq<u8>, Error> {
        match self {
            None => Ok(seq![0u8]),
            Some(v) => match v.spec_write() {
                Ok(b) => Ok(seq![1u8] + b),
                Err(e) => Err(e),
            },
        }
    }

    fn write(&self, buffer: &mut Vec<u8>, version: ProtocolVersion) -> (r: Result<(), Error>) {
        match self {
            None => {
                buffer.push(0);
                proof {
                    assert(final(buffer)@ =~= old(buffer)@ + seq![0u8]);
                }
                Ok(())
            },
            Some(v) => {
                let mut tmp: Vec<u8> = Vec::new();
                match v.write(&mut tmp, version) {
                    Ok(()) => {
                        buffer.push(1);
                        buffer.append(&mut tmp);
                        proof {
                            assert(final(buffer)@ =~= old(buffer)@ + (seq![1u8]
                                + v.spec_write().unwrap()));
                        }
                        Ok(())
                    },
                    Err(e) => Err(e),
                }
            },
        }
    }
}

/// The optional-value encoding convention: a missing value is exactly one
/// zero byte, and a present value is exactly a one byte followed by the inner
/// value's own encoding. This tagging, not a sentinel, is what makes the
/// optional round trip.
pub proof fn lemma_optional_encoding_shape<T: Writeable>(x: Option<T>)
    ensures
        x is None ==> x.spec_write() == Ok::<Seq<u8>, Error>(seq![0u8]),
        x matches Some(v) ==> (v.spec_write() matches Ok(b) ==> x.spec_write() == Ok::<
            Seq<u8>,
            Error,
        >(seq![1u8] + b)),
        x matches Some(v) ==> (v.spec_write() matches Err(e) ==> x.spec_write() == Err::<
            Seq<u8>,
            Error,
        >(e)),
{
    match x {
        None => {},
        Some(v) => {
            match v.spec_write() {
                Ok(b) => {
                    assert(x.spec_write() == Ok::<Seq<u8>, Error>(seq![1u8] + b));
                },
                Err(e) => {
                    assert(x.spec_write() == Err::<Seq<u8>, Error>(e));
                },
            }
        },
    }
}

} // verus!
