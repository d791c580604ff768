//! The length-prefixed sequence format — a count encoded by a
//! caller-specified prefix integer type, then that many elements back to back
//! with no separators — and the opaque tail-of-buffer byte sequence.

use core::marker::PhantomData;
use vstd::prelude::*;

use crate::codec::{Cursor, Error, ProtocolVersion, Readable, Writeable};
use crate::varint::VarInt;

verus! {

broadcast use vstd::seq_lib::lemma_seq_skip_of_skip;

/// The hard ceiling on decoded element counts: a decoded sequence never holds
/// more elements than this, whatever its declared type.
pub const MAX_LENGTH: usize = 1024 * 1024;

/// An integer type that can serve as the length prefix of a sequence: it
/// can be read and written like any codec value, and converts to and from an
/// element count.
pub trait LengthPrefix: Readable + Writeable {
    /// The element count a prefix value denotes; negative when the value does
    /// not denote a count.
    spec fn spec_len_of(v: Self::V) -> int;

    /// The prefix value denoting a count, when the count fits this type's
    /// range.
    spec fn spec_of_len(n: int) -> Option<Self>;

    /// The count this prefix value denotes.
    fn to_len(&self) -> (r: Result<usize, Error>)
        ensures
            Self::spec_len_of(self.deep_view()) >= 0 ==> (r matches Ok(n) && n
                == Self::spec_len_of(self.deep_view())),
            Self::spec_len_of(self.deep_view()) < 0 ==> r == Err::<usize, Error>(
                Error::LengthOverflow,
            ),
    ;

    /// The prefix value for a count, or `LengthOverflow` when the count does
    /// not fit.
    fn of_len(n: usize) -> (r: Result<Self, Error>)
        ensures
            match Self::spec_of_len(n as int) {
                Some(p) => r == Ok::<Self, Error>(p),
                None => r == Err::<Self, Error>(Error::LengthOverflow),
            },
    ;

}

impl LengthPrefix for VarInt {
    open spec fn spec_len_of(v: VarInt) -> int {
        v.0 as int
    }

    open spec fn spec_of_len(n: int) -> Option<VarInt> {
        if 0 <= n <= i32::MAX {
            Some(VarInt(n as i32))
        } else {
            None
        }
    }

    fn to_len(&self) -> (r: Result<usize, Error>) {
        if self.0 < 0 {
            Err(Error::LengthOverflow)
        } else {
            Ok(self.0 as usize)
        }
    }

    fn of_len(n: usize) -> (r: Result<Self, Error>) {
        if n > i32::MAX as usize {
            Err(Error::LengthOverflow)
        } else {
            Ok(VarInt(n as i32))
        }
    }

}

impl LengthPrefix for u16 {
    open spec fn spec_len_of(v: u16) -> int {
        v as int
    }

    open spec fn spec_of_len(n: int) -> Option<u16> {
        if 0 <= n <= u16::MAX {
            Some(n as u16)
        } else {
            None
        }
    }

    fn to_len(&self) -> (r: Result<usize, Error>) {
        Ok(*self as usize)
    }

    fn of_len(n: usize) -> (r: Result<Self, Error>) {
        if n > u16::MAX as usize {
            Err(Error::LengthOverflow)
        } else {
            Ok(n as u16)
        }
    }

}

/// The views of `count` elements decoded back to back from the front of
/// `data`, with the total byte count they took, or `None` when any element
/// fails: partial sequences are never produced.
pub open spec fn spec_read_elems<T: Readable>(data: Seq<u8>, count: int) -> Option<
    (Seq<T::V>, int),
>
    decreases count,
{
    if count <= 0 {
        Some((Seq::empty(), 0))
    } else {
        match T::spec_read(data) {
            Some((v, n)) => match spec_read_elems::<T>(data.skip(n), count - 1) {
                Some((vs, m)) => Some((seq![v] + vs, n + m)),
                None => None,
            },
            None => None,
        }
    }
}

/// The error of the first element that fails to decode.
pub open spec fn spec_read_elems_err<T: Readable>(data: Seq<u8>, count: int) -> Error
    decreases count,
{
    if count <= 0 {
        Error::UnexpectedEof
    } else {
        match T::spec_read(data) {
            Some((v, n)) => spec_read_elems_err::<T>(data.skip(n), count - 1),
            None => T::spec_read_err(data),
        }
    }
}

/// Decoding elements consumes a non-negative byte count, never more bytes
/// than exist, and yields exactly `count` element views.
pub proof fn lemma_read_elems_bounds<T: Readable>(data: Seq<u8>, count: int)
    ensures
        spec_read_elems::<T>(data, count) matches Some((vs, m)) ==> 0 <= m <= data.len() && (count
            <= 0 ==> vs.len() == 0) && (count > 0 ==> vs.len() == count),
    decreases count,
{
    if count <= 0 {
    } else {
        match T::spec_read(data) {
            Some((v, n)) => {
                T::lemma_spec_read_bounds(data);
                lemma_read_elems_bounds::<T>(data.skip(n), count - 1);
            },
            None => {},
        }
    }
}

/// The wire bytes of a run of elements, back to back, or the error of the
/// first element that cannot be encoded.
pub open spec fn spec_write_elems<T: Writeable>(elems: Seq<T>) -> Result<Seq<u8>, Error>
    decreases elems.len(),
{
    if elems.len() == 0 {
        Ok(Seq::empty())
    } else {
        match elems[0].spec_write() {
            Ok(b) => match spec_write_elems(elems.skip(1)) {
                Ok(rest) => Ok(b + rest),
                Err(e) => Err(e),
            },
            Err(e) => Err(e),
        }
    }
}

/// A generic length-prefixed sequence: a count of type `P` followed by that
/// many `T` values.
pub struct LengthPrefixedVec<P, T>(pub Vec<T>, pub PhantomData<P>);

impl<P, T: DeepView> DeepView for LengthPrefixedVec<P, T> {
    type V = Seq<T::V>;

    open spec fn deep_view(&self) -> Seq<T::V> {
        self.0.deep_view()
    }
}

impl<P, T> From<Vec<T>> for LengthPrefixedVec<P, T> {
    fn from(vec: Vec<T>) -> (r: Self) {
        LengthPrefixedVec(vec, PhantomData)
    }
}

impl<P, T> vstd::std_specs::convert::FromSpecImpl<Vec<T>> for LengthPrefixedVec<P, T> {
    open spec fn obeys_from_spec() -> bool {
        true
    }

    open spec fn from_spec(vec: Vec<T>) -> Self {
        LengthPrefixedVec(vec, PhantomData)
    }
}

impl<P, T> From<LengthPrefixedVec<P, T>> for Vec<T> {
    fn from(x: LengthPrefixedVec<P, T>) -> (r: Self) {
        x.0
    }
}

impl<P, T> vstd::std_specs::convert::FromSpecImpl<LengthPrefixedVec<P, T>> for Vec<T> {
    open spec fn obeys_from_spec() -> bool {
        true
    }

    open spec fn from_spec(x: LengthPrefixedVec<P, T>) -> Self {
        x.0
    }
}

impl<P: LengthPrefix, T: Readable> Readable for LengthPrefixedVec<P, T> {
    /// A prefix of type `P` holding a count of at most `MAX_LENGTH`, then
    /// exactly that many elements.
    open spec fn spec_read(data: Seq<u8>) -> Option<(Seq<T::V>, int)> {
        match P::spec_read(data) {
            Some((pv, n)) => {
                let len = P::spec_len_of(pv);
                if !(0 <= len <= MAX_LENGTH) {
                    None
                } else {
                    match spec_read_elems::<T>(data.skip(n), len) {
                        Some((vs, m)) => Some((vs, n + m)),
                        None => None,
                    }
                }
            },
            None => None,
        }
    }

    open spec fn spec_read_err(data: Seq<u8>) -> Error {
        match P::spec_read(data) {
            Some((pv, n)) => {
                let len = P::spec_len_of(pv);
                if len < 0 {
                    Error::LengthOverflow
                } else if len > MAX_LENGTH {
                    Error::SequenceTooLong
                } else {
                    spec_read_elems_err::<T>(data.skip(n), len)
                }
            },
            None => P::spec_read_err(data),
        }
    }

    proof fn lemma_spec_read_bounds(data: Seq<u8>) {
        match P::spec_read(data) {
            Some((pv, n)) => {
                P::lemma_spec_read_bounds(data);
                let len = P::spec_len_of(pv);
                if 0 <= len <= MAX_LENGTH {
                    lemma_read_elems_bounds::<T>(data.skip(n), len);
                }
            },
            None => {},
        }
    }

    fn read(buffer: &mut Cursor<'_>, version: ProtocolVersion) -> (r: Result<Self, Error>) {
        let prefix = match P::read(buffer, version) {
            Ok(p) => p,
            Err(e) => {
                return Err(e);
            },
        };
        let length = match prefix.to_len() {
            Ok(n) => n,
            Err(e) => {
                return Err(e);
            },
        };
        if length > MAX_LENGTH {
            return Err(Error::SequenceTooLong);
        }
        let ghost start_rem = buffer.remaining_seq();
        let ghost start_pos = buffer.position_spec();
        let mut out: Vec<T> = Vec::new();
        let mut i: usize = 0;
        while i < length
            invariant
                buffer.wf(),
                buffer.data_seq() == old(buffer).data_seq(),
                old(buffer).wf(),
                old(buffer).position_spec() <= start_pos <= buffer.position_spec(),
                start_rem == buffer.data_seq().skip(start_pos),
                0 <= start_pos <= buffer.data_seq().len(),
                i <= length,
                length <= MAX_LENGTH,
                out.deep_view().len() == i,
                P::spec_read(old(buffer).remaining_seq()) == Some(
                    (prefix.deep_view(), start_pos - old(buffer).position_spec()),
                ),
                P::spec_len_of(prefix.deep_view()) == length as int,
                buffer.remaining_seq() == start_rem.skip(buffer.position_spec() - start_pos),
                match spec_read_elems::<T>(buffer.remaining_seq(), length - i) {
                    Some((vs, m)) => spec_read_elems::<T>(start_rem, length as int) == Some(
                        (out.deep_view() + vs, buffer.position_spec() - start_pos + m),
                    ),
                    None => spec_read_elems::<T>(start_rem, length as int) is None
                        && spec_read_elems_err::<T>(buffer.remaining_seq(), length - i)
                        == spec_read_elems_err::<T>(start_rem, length as int),
                },
            decreases length - i,
        {
            let ghost rem_before = buffer.remaining_seq();
            let ghost out_before = out.deep_view();
            let elem = match T::read(buffer, version) {
                Ok(v) => v,
                Err(e) => {
                    proof {
                        assert(spec_read_elems::<T>(rem_before, length - i) is None);
                        assert(e == spec_read_elems_err::<T>(rem_before, length - i));
                        assert(old(buffer).remaining_seq().skip(
                            start_pos - old(buffer).position_spec(),
                        ) =~= start_rem);
                    }
                    return Err(e);
                },
            };
            proof {
                T::lemma_spec_read_bounds(rem_before);
            }
            out.push(elem);
            i = i + 1;
            proof {
                let n = buffer.position_spec() - start_pos;
                assert(buffer.remaining_seq() =~= start_rem.skip(n));
                assert(out.deep_view() =~= out_before + seq![elem.deep_view()]);
                match spec_read_elems::<T>(buffer.remaining_seq(), length - i) {
                    Some((vs, m)) => {
                        assert((out_before + seq![elem.deep_view()]) + vs =~= out_before + (seq![
                            elem.deep_view()] + vs));
                    },
                    None => {},
                }
            }
        }
        proof {
            assert(out.deep_view() + Seq::<T::V>::empty() =~= out.deep_view());
            assert(old(buffer).remaining_seq().skip(start_pos - old(buffer).position_spec())
                =~= start_rem);
        }
        Ok(LengthPrefixedVec(out, PhantomData))
    }
}

impl<P: LengthPrefix, T: Writeable> Writeable for LengthPrefixedVec<P, T> {
    /// The count, encoded as a `P`, then each element in order; fails when
    /// the count does not fit `P`'s range, with the buffer left unchanged.
    open spec fn spec_write(&self) -> Result<Seq<u8>, Error> {
        match P::spec_of_len(self.0.len() as int) {
            Some(p) => match p.spec_write() {
                Ok(pb) => match spec_write_elems(self.0@) {
                    Ok(eb) => Ok(pb + eb),
                    Err(e) => Err(e),
                },
                Err(e) => Err(e),
            },
            None => Err(Error::LengthOverflow),
        }
    }

    fn write(&self, buffer: &mut Vec<u8>, version: ProtocolVersion) -> (r: Result<(), Error>) {
        let prefix = match P::of_len(self.0.len()) {
            Ok(p) => p,
            Err(e) => {
                return Err(e);
            },
        };
        let mut tmp: Vec<u8> = Vec::new();
        match prefix.write(&mut tmp, version) {
            Ok(()) => {},
            Err(e) => {
                return Err(e);
            },
        }
        let mut i: usize = 0;
        while i < self.0.len()
            invariant
                i <= self.0.len(),
                P::spec_of_len(self.0.len() as int) == Some(prefix),
                prefix.spec_write() matches Ok(pb) && (match spec_write_elems(self.0@.skip(
                    i as int,
                )) {
                    Ok(rest) => spec_write_elems(self.0@) matches Ok(eb) && tmp@ + rest == pb + eb,
                    Err(e) => spec_write_elems(self.0@) == Err::<Seq<u8>, Error>(e),
                }),
            decreases self.0.len() - i,
        {
            let ghost before = self.0@.skip(i as int);
            let ghost tmp_before = tmp@;
            match self.0[i].write(&mut tmp, version) {
                Ok(()) => {},
                Err(e) => {
                    proof {
                        assert(before[0] == self.0@[i as int]);
                        assert(spec_write_elems(before) == Err::<Seq<u8>, Error>(e));
                    }
                    return Err(e);
                },
            }
            i = i + 1;
            proof {
                assert(before[0] == self.0@[i - 1]);
                assert(before.skip(1) =~= self.0@.skip(i as int));
                match before[0].spec_write() {
                    Ok(b) => {
                        match spec_write_elems(self.0@.skip(i as int)) {
                            Ok(rest2) => {
                                assert((tmp_before + b) + rest2 =~= tmp_before + (b + rest2));
                            },
                            Err(_) => {},
                        }
                    },
                    Err(_) => {
                        assert(false);
                    },
                }
            }
        }
        proof {
            assert(self.0@.skip(self.0.len() as int) =~= Seq::<T>::empty());
            match spec_write_elems(self.0@) {
                Ok(eb) => {
                    assert(tmp@ + Seq::<u8>::empty() =~= tmp@);
                },
                Err(e) => {},
            }
        }
        buffer.append(&mut tmp);
        Ok(())
    }
}

/// Encoding bytes back to back is the identity: each byte encodes as itself.
pub proof fn lemma_write_byte_elems(elems: Seq<u8>)
    ensures
        spec_write_elems::<u8>(elems) == Ok::<Seq<u8>, Error>(elems),
    decreases elems.len(),
{
    if elems.len() == 0 {
        assert(Seq::<u8>::empty() =~= elems);
    } else {
        lemma_write_byte_elems(elems.skip(1));
        assert(seq![elems[0]] + elems.skip(1) =~= elems);
    }
}

/// Decoding `count` byte elements back to back takes exactly the first
/// `count` bytes.
pub proof fn lemma_read_byte_elems(data: Seq<u8>, count: int)
    requires
        0 <= count <= data.len(),
    ensures
        spec_read_elems::<u8>(data, count) == Some((data.take(count), count)),
    decreases count,
{
    if count <= 0 {
        assert(data.take(0) =~= Seq::<u8>::empty());
    } else {
        lemma_read_byte_elems(data.skip(1), count - 1);
        assert(seq![data[0]] + data.skip(1).take(count - 1) =~= data.take(count));
    }
}

/// Length-prefixed sequence round trip for byte elements: for every sequence
/// of at most the ceiling many bytes, its elements encode as themselves, and
/// decoding the count followed by the elements, with anything at all after
/// them, gives the sequence back and consumes exactly its encoding.
pub proof fn lemma_byte_vec_round_trip(elems: Seq<u8>, rest: Seq<u8>)
    requires
        elems.len() <= MAX_LENGTH,
    ensures
        spec_write_elems::<u8>(elems) == Ok::<Seq<u8>, Error>(elems),
        ({
            let enc = crate::varint::spec_varint_bytes(elems.len() as i32) + elems;
            <VarIntPrefixedVec<u8> as Readable>::spec_read(enc + rest) == Some(
                (elems, enc.len() as int),
            )
        }),
{
    lemma_write_byte_elems(elems);
    let vb = crate::varint::spec_varint_bytes(elems.len() as i32);
    let enc = vb + elems;
    crate::varint::lemma_varint_round_trip(elems.len() as i32, elems + rest);
    assert(enc + rest =~= vb + (elems + rest));
    assert((enc + rest).skip(vb.len() as int) =~= elems + rest);
    lemma_read_byte_elems(elems + rest, elems.len() as int);
    assert((elems + rest).take(elems.len() as int) =~= elems);
}

/// A sequence of VarInt-prefixed elements: the general case.
pub type VarIntPrefixedVec<T> = LengthPrefixedVec<VarInt, T>;

/// A sequence prefixed by a fixed 16-bit big-endian count: legacy short
/// fields.
pub type ShortPrefixedVec<T> = LengthPrefixedVec<u16, T>;

/// The opaque tail of a buffer: reads and writes all remaining bytes
/// verbatim, with no length prefix; only valid as the last field of a packet.
pub struct GreedyVecU8(pub Vec<u8>);

impl DeepView for GreedyVecU8 {
    type V = Seq<u8>;

    open spec fn deep_view(&self) -> Seq<u8> {
        self.0@
    }
}

impl Readable for GreedyVecU8 {
    open spec fn spec_read(data: Seq<u8>) -> Option<(Seq<u8>, int)> {
        Some((data, data.len() as int))
    }

    open spec fn spec_read_err(data: Seq<u8>) -> Error {
        Error::UnexpectedEof
    }

    proof fn lemma_spec_read_bounds(data: Seq<u8>) {
    }

    fn read(buffer: &mut Cursor<'_>, _version: ProtocolVersion) -> (r: Result<Self, Error>) {
        Ok(GreedyVecU8(buffer.read_to_end()))
    }
}

impl Writeable for GreedyVecU8 {
    open spec fn spec_write(&self) -> Result<Seq<u8>, Error> {
        Ok(self.0@)
    }

    fn write(&self, buffer: &mut Vec<u8>, _version: ProtocolVersion) -> (r: Result<(), Error>) {
        buffer.extend_from_slice(self.0.as_slice());
        Ok(())
    }
}

impl From<Vec<u8>> for GreedyVecU8 {
    fn from(vec: Vec<u8>) -> (r: Self) {
        GreedyVecU8(vec)
    }
}

impl vstd::std_specs::convert::FromSpecImpl<Vec<u8>> for GreedyVecU8 {
    open spec fn obeys_from_spec() -> bool {
        true
    }

    open spec fn from_spec(vec: Vec<u8>) -> Self {
        GreedyVecU8(vec)
    }
}

impl From<GreedyVecU8> for Vec<u8> {
    fn from(x: GreedyVecU8) -> (r: Self) {
        x.0
    }
}

impl vstd::std_specs::convert::FromSpecImpl<GreedyVecU8> for Vec<u8> {
    open spec fn obeys_from_spec() -> bool {
        true
    }

    open spec fn from_spec(x: GreedyVecU8) -> Self {
        x.0
    }
}

} // verus!
