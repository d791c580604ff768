//! The value codec: protocol version tag, error taxonomy, the byte cursor
//! that decode operations consume, and the `Readable` / `Writeable`
//! capability traits.

use vstd::prelude::*;

verus! {

/// The wire-format variant in force for a connection. Set once at handshake
/// and immutable afterwards; every codec operation takes it so that future
/// format differences can be dispatched without changing call sites.
#[derive(Copy, Clone, Debug, PartialEq, Eq, Structural)]
pub enum ProtocolVersion {
    V1_18_2,
}

/// Why a decode or encode operation failed.
#[derive(Copy, Clone, Debug, PartialEq, Eq, Structural)]
pub enum Error {
    /// The cursor was exhausted before a required field was fully read.
    UnexpectedEof,
    /// A boolean field held a byte other than 0 or 1.
    InvalidBoolTag,
    /// A string field's bytes were not valid UTF-8.
    InvalidUtf8,
    /// A variable-length 32-bit integer ran past its 5-byte ceiling.
    VarIntTooLong,
    /// A variable-length 64-bit integer ran past its 10-byte ceiling.
    VarLongTooLong,
    /// A string's declared byte length exceeded the 32767-byte maximum.
    StringTooLong,
    /// A sequence's declared element count exceeded the fixed ceiling.
    SequenceTooLong,
    /// An encode-side length did not fit in the prefix integer's range,
    /// or a decoded prefix was negative.
    LengthOverflow,
    /// An identifier did not hold exactly one colon.
    InvalidIdentifier,
}

/// A read position over an immutable byte slice. Advances monotonically;
/// owned by a codec call for its duration.
pub struct Cursor<'a> {
    data: &'a [u8],
    pos: usize,
}

impl<'a> Cursor<'a> {
    /// The whole underlying byte sequence.
    pub closed spec fn data_seq(&self) -> Seq<u8> {
        self.data@
    }

    /// The current read position.
    pub closed spec fn position_spec(&self) -> int {
        self.pos as int
    }

    /// A cursor never points past the end of its data.
    pub open spec fn wf(&self) -> bool {
        0 <= self.position_spec() <= self.data_seq().len()
    }

    /// The bytes not yet consumed.
    pub open spec fn remaining_seq(&self) -> Seq<u8> {
        self.data_seq().skip(self.position_spec())
    }

    pub fn new(data: &'a [u8]) -> (r: Cursor<'a>)
        ensures
            r.wf(),
            r.data_seq() == data@,
            r.position_spec() == 0,
    {
        Cursor { data, pos: 0 }
    }

    pub fn position(&self) -> (r: usize)
        ensures
            r == self.position_spec(),
    {
        self.pos
    }

    pub fn remaining_len(&self) -> (r: usize)
        requires
            self.wf(),
        ensures
            r == self.remaining_seq().len(),
    {
        self.data.len() - self.pos
    }

    /// Reads one byte and advances past it.
    pub fn read_byte(&mut self) -> (r: Result<u8, Error>)
        requires
            old(self).wf(),
        ensures
            final(self).wf(),
            final(self).data_seq() == old(self).data_seq(),
            old(self).remaining_seq().len() == 0 ==> r == Err::<u8, Error>(Error::UnexpectedEof)
                && final(self).position_spec() == old(self).position_spec(),
            old(self).remaining_seq().len() > 0 ==> r == Ok::<u8, Error>(
                old(self).remaining_seq()[0],
            ) && final(self).position_spec() == old(self).position_spec() + 1,
    {
        if self.pos < self.data.len() {
            let b = self.data[self.pos];
            self.pos = self.pos + 1;
            Ok(b)
        } else {
            Err(Error::UnexpectedEof)
        }
    }

    /// Reads exactly `n` bytes and advances past them.
    pub fn read_bytes(&mut self, n: usize) -> (r: Result<Vec<u8>, Error>)
        requires
            old(self).wf(),
        ensures
            final(self).wf(),
            final(self).data_seq() == old(self).data_seq(),
            old(self).remaining_seq().len() < n ==> r == Err::<Vec<u8>, Error>(
                Error::UnexpectedEof,
            ) && final(self).position_spec() == old(self).position_spec(),
            old(self).remaining_seq().len() >= n ==> r is Ok && r.unwrap()@ == old(
                self,
            ).remaining_seq().take(n as int) && final(self).position_spec() == old(
                self,
            ).position_spec() + n,
    {
        if n > self.data.len() - self.pos {
            return Err(Error::UnexpectedEof);
        }
        let mut out: Vec<u8> = Vec::new();
        let mut i: usize = 0;
        while i < n
            invariant
                self.wf(),
                i <= n,
                n <= self.data@.len() - self.pos + i,
                self.data@ == old(self).data_seq(),
                self.pos == old(self).position_spec() + i,
                out@ =~= self.data@.subrange(self.pos - i, self.pos as int),
            decreases n - i,
        {
            out.push(self.data[self.pos]);
            self.pos = self.pos + 1;
            i = i + 1;
        }
        proof {
            assert(out@ =~= old(self).remaining_seq().take(n as int));
        }
        Ok(out)
    }

    /// Reads all remaining bytes, leaving the cursor exhausted.
    pub fn read_to_end(&mut self) -> (r: Vec<u8>)
        requires
            old(self).wf(),
        ensures
            final(self).wf(),
            final(self).data_seq() == old(self).data_seq(),
            r@ == old(self).remaining_seq(),
            final(self).remaining_seq().len() == 0,
    {
        let n = self.data.len() - self.pos;
        match self.read_bytes(n) {
            Ok(v) => {
                proof {
                    assert(v@ =~= old(self).remaining_seq());
                }
                v
            },
            Err(_) => {
                proof {
                    assert(false);
                }
                Vec::new()
            },
        }
    }
}

/// Capability to decode a value of a type from a byte cursor. The decode
/// relation is stated over the type's mathematical view (`DeepView`).
pub trait Readable: DeepView + Sized {
    /// The decode relation over plain byte sequences: the view of the value
    /// produced and the number of bytes consumed, or `None` when the bytes do
    /// not start with a valid encoding of this type.
    spec fn spec_read(data: Seq<u8>) -> Option<(Self::V, int)>;

    /// The error reported when `spec_read` is `None`.
    spec fn spec_read_err(data: Seq<u8>) -> Error;

    /// `spec_read` never consumes more bytes than exist, and never a negative
    /// count.
    proof fn lemma_spec_read_bounds(data: Seq<u8>)
        ensures
            Self::spec_read(data) matches Some((v, n)) ==> 0 <= n <= data.len(),
    ;

    /// Reads this type from the given cursor, consuming exactly the bytes of
    /// one encoded value on success.
    fn read(buffer: &mut Cursor<'_>, version: ProtocolVersion) -> (r: Result<Self, Error>)
        requires
            old(buffer).wf(),
        ensures
            final(buffer).wf(),
            final(buffer).data_seq() == old(buffer).data_seq(),
            final(buffer).position_spec() >= old(buffer).position_spec(),
            match Self::spec_read(old(buffer).remaining_seq()) {
                Some((v, n)) => r matches Ok(x) && x.deep_view() == v
                    && final(buffer).position_spec() == old(buffer).position_spec() + n,
                None => r == Err::<Self, Error>(
                    Self::spec_read_err(old(buffer).remaining_seq()),
                ),
            },
    ;
}

/// Capability to encode a value of a type onto a byte buffer.
pub trait Writeable: Sized {
    /// The encode function over plain byte sequences: the exact wire bytes,
    /// or the error for a value that cannot be represented (for example a
    /// sequence whose length does not fit in its prefix integer).
    spec fn spec_write(&self) -> Result<Seq<u8>, Error>;

    /// Appends this value's encoding to the buffer. On failure the buffer is
    /// left unchanged.
    fn write(&self, buffer: &mut Vec<u8>, version: ProtocolVersion) -> (r: Result<(), Error>)
        ensures
            match self.spec_write() {
                Ok(bytes) => r == Ok::<(), Error>(()) && final(buffer)@ == old(buffer)@ + bytes,
                Err(e) => r == Err::<(), Error>(e) && final(buffer)@ == old(buffer)@,
            },
    ;
}


impl<'a, T: Writeable> Writeable for &'a T {
    /// A reference writes as the value it points to, adding no wire bytes.
    open spec fn spec_write(&self) -> Result<Seq<u8>, Error> {
        (**self).spec_write()
    }

    fn write(&self, buffer: &mut Vec<u8>, version: ProtocolVersion) -> (r: Result<(), Error>) {
        T::write(*self, buffer, version)
    }
}

} // verus!
