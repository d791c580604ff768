//! The variable-length integer formats: VarInt (32-bit signed) and VarLong
//! (64-bit signed). Both encode the value's unsigned reinterpretation in
//! little-endian groups of 7 bits, setting the high bit of every byte that is
//! followed by another. Decoding rejects representations longer than 5 bytes
//! (VarInt) or 10 bytes (VarLong); encoding always produces the
//! minimal-length representation.

use vstd::prelude::*;
use vstd::seq_lib::*;
use vstd::arithmetic::div_mod::{lemma_div_is_strictly_smaller, lemma_fundamental_div_mod};

use crate::codec::{Cursor, Error, ProtocolVersion, Readable, Writeable};

verus! {

/// 128 raised to `k`: the weight of the `k`-th 7-bit group.
pub open spec fn pow128(k: nat) -> nat
    decreases k,
{
    if k == 0 {
        1
    } else {
        128 * pow128((k - 1) as nat)
    }
}

/// The variable-length encoding of an unsigned value: its lowest 7 bits, with
/// the continuation bit set whenever more non-zero bits remain, then the rest.
pub open spec fn spec_varuint_bytes(x: nat) -> Seq<u8>
    decreases x,
{
    if x < 128 {
        seq![x as u8]
    } else {
        seq![(x % 128 + 128) as u8] + spec_varuint_bytes(x / 128)
    }
}

/// Reassembles the unsigned value from at most `max` little-endian 7-bit
/// groups at the front of `data`: the value and how many bytes it took, or
/// `None` when the bytes run out, or the group limit is passed, before a byte
/// with a clear continuation bit.
pub open spec fn spec_var_groups(data: Seq<u8>, max: nat) -> Option<(nat, int)>
    decreases max,
{
    if data.len() == 0 || max == 0 {
        None
    } else if data[0] < 128 {
        Some((data[0] as nat, 1))
    } else {
        match spec_var_groups(data.skip(1), (max - 1) as nat) {
            Some((v, n)) => Some((((data[0] - 128) + 128 * v) as nat, n + 1)),
            None => None,
        }
    }
}

/// The unsigned 32-bit reinterpretation of a signed 32-bit value.
pub open spec fn i32_as_u32(v: i32) -> nat {
    if v >= 0 {
        v as nat
    } else {
        (v + 0x1_0000_0000) as nat
    }
}

/// The signed 32-bit reinterpretation of an unsigned 32-bit value.
pub open spec fn u32_as_i32(x: nat) -> i32
    recommends
        x < 0x1_0000_0000,
{
    if x < 0x8000_0000 {
        x as i32
    } else {
        (x - 0x1_0000_0000) as i32
    }
}

/// The unsigned 64-bit reinterpretation of a signed 64-bit value.
pub open spec fn i64_as_u64(v: i64) -> nat {
    if v >= 0 {
        v as nat
    } else {
        (v + 0x1_0000_0000_0000_0000) as nat
    }
}

/// The signed 64-bit reinterpretation of an unsigned 64-bit value.
pub open spec fn u64_as_i64(x: nat) -> i64
    recommends
        x < 0x1_0000_0000_0000_0000,
{
    if x < 0x8000_0000_0000_0000 {
        x as i64
    } else {
        (x - 0x1_0000_0000_0000_0000) as i64
    }
}

/// The wire bytes of a VarInt.
pub open spec fn spec_varint_bytes(v: i32) -> Seq<u8> {
    spec_varuint_bytes(i32_as_u32(v))
}

/// The wire bytes of a VarLong.
pub open spec fn spec_varlong_bytes(v: i64) -> Seq<u8> {
    spec_varuint_bytes(i64_as_u64(v))
}

/// The value and byte count a VarInt decode yields from the front of `data`,
/// or `None` when it fails. Groups past the 32nd bit are truncated, as the
/// unsigned value is reassembled modulo 2^32.
pub open spec fn spec_varint_value(data: Seq<u8>) -> Option<(i32, int)> {
    match spec_var_groups(data, 5) {
        Some((v, n)) => Some((u32_as_i32(v % 0x1_0000_0000), n)),
        None => None,
    }
}

/// The value and byte count a VarLong decode yields from the front of `data`.
pub open spec fn spec_varlong_value(data: Seq<u8>) -> Option<(i64, int)> {
    match spec_var_groups(data, 10) {
        Some((v, n)) => Some((u64_as_i64(v % 0x1_0000_0000_0000_0000), n)),
        None => None,
    }
}

/// The first `max` bytes exist and all carry the continuation bit: the
/// representation is over-long.
pub open spec fn spec_var_too_long(data: Seq<u8>, max: nat) -> bool {
    data.len() >= max && (forall|i: int| 0 <= i < max ==> data[i] >= 128)
}

/// The error a VarInt decode reports when it fails.
pub open spec fn spec_varint_err(data: Seq<u8>) -> Error {
    if data.len() >= 5 {
        Error::VarIntTooLong
    } else {
        Error::UnexpectedEof
    }
}

/// The error a VarLong decode reports when it fails.
pub open spec fn spec_varlong_err(data: Seq<u8>) -> Error {
    if data.len() >= 10 {
        Error::VarLongTooLong
    } else {
        Error::UnexpectedEof
    }
}

/// A signed 32-bit integer paired with its variable-length wire form.
#[derive(Copy, Clone, Debug, PartialEq, Eq)]
pub struct VarInt(pub i32);

/// A signed 64-bit integer paired with its variable-length wire form.
#[derive(Copy, Clone, Debug, PartialEq, Eq)]
pub struct VarLong(pub i64);

impl View for VarInt {
    type V = VarInt;

    open spec fn view(&self) -> VarInt {
        *self
    }
}

impl DeepView for VarInt {
    type V = VarInt;

    open spec fn deep_view(&self) -> VarInt {
        *self
    }
}

impl From<i64> for VarLong {
    fn from(x: i64) -> (r: Self) {
        VarLong(x)
    }
}

impl vstd::std_specs::convert::FromSpecImpl<i64> for VarLong {
    open spec fn obeys_from_spec() -> bool {
        true
    }

    open spec fn from_spec(x: i64) -> Self {
        VarLong(x)
    }
}

impl From<VarLong> for i64 {
    fn from(x: VarLong) -> (r: Self) {
        x.0
    }
}

impl vstd::std_specs::convert::FromSpecImpl<VarLong> for i64 {
    open spec fn obeys_from_spec() -> bool {
        true
    }

    open spec fn from_spec(x: VarLong) -> Self {
        x.0
    }
}

impl View for VarLong {
    type V = VarLong;

    open spec fn view(&self) -> VarLong {
        *self
    }
}

impl DeepView for VarLong {
    type V = VarLong;

    open spec fn deep_view(&self) -> VarLong {
        *self
    }
}

/// Appends the variable-length encoding of `x` to `writer`.
fn write_varuint64(x: u64, writer: &mut Vec<u8>)
    ensures
        final(writer)@ == old(writer)@ + spec_varuint_bytes(x as nat),
    decreases x,
{
    if x < 128 {
        writer.push(x as u8);
        proof {
            assert(final(writer)@ =~= old(writer)@ + spec_varuint_bytes(x as nat));
        }
    } else {
        proof {
            lemma_div_is_strictly_smaller(x as int, 128);
        }
        writer.push((x % 128 + 128) as u8);
        write_varuint64(x / 128, writer);
        proof {
            assert(final(writer)@ =~= old(writer)@ + spec_varuint_bytes(x as nat));
        }
    }
}

/// Reads at most `max` 7-bit groups from the cursor and reassembles them.
/// Reports `VarIntTooLong` when the group limit is passed (the caller renames
/// the error for the 64-bit format) and `UnexpectedEof` when the bytes run
/// out first.
fn read_var_groups(reader: &mut Cursor<'_>, max: u32) -> (r: Result<(u128, usize), Error>)
    requires
        old(reader).wf(),
        max <= 10,
    ensures
        final(reader).wf(),
        final(reader).data_seq() == old(reader).data_seq(),
        final(reader).position_spec() >= old(reader).position_spec(),
        match spec_var_groups(old(reader).remaining_seq(), max as nat) {
            Some((v, n)) => r matches Ok((rv, rn)) && rv as nat == v && rn == n && v < pow128(
                max as nat,
            ) && final(reader).position_spec() == old(reader).position_spec() + n,
            None => r matches Err(e) && e == (if old(reader).remaining_seq().len() >= max {
                Error::VarIntTooLong
            } else {
                Error::UnexpectedEof
            }),
        },
    decreases max,
{
    if max == 0 {
        return Err(Error::VarIntTooLong);
    }
    let b = match reader.read_byte() {
        Ok(b) => b,
        Err(_) => {
            return Err(Error::UnexpectedEof);
        },
    };
    if b < 128 {
        proof {
            assert(pow128(1) == 128) by {
                reveal_with_fuel(pow128, 2);
            }
            assert(pow128(max as nat) >= pow128(1)) by {
                lemma_pow128_increases(1, max as nat);
            }
        }
        Ok((b as u128, 1))
    } else {
        proof {
            old(reader).data_seq().lemma_seq_skip_skip(old(reader).position_spec());
            assert(reader.remaining_seq() == old(reader).remaining_seq().skip(1));
        }
        let ghost mid_rem = reader.remaining_seq();
        match read_var_groups(reader, max - 1) {
            Ok((v, n)) => {
                proof {
                    let ghost m = (max - 1) as nat;
                    lemma_var_groups_bounds(mid_rem, m);
                    lemma_pow128_increases(m, 9);
                    assert(pow128(9) == 0x8000_0000_0000_0000) by {
                        reveal_with_fuel(pow128, 10);
                    }
                    assert((b - 128) + 128 * (v as nat) < 128 * pow128(m)) by (nonlinear_arith)
                        requires
                            (v as nat) < pow128(m),
                            b < 256,
                            b >= 128,
                            pow128(m) >= 1,
                    ;
                    assert(pow128(max as nat) == 128 * pow128(m));
                }
                Ok(((b - 128) as u128 + 128 * v, n + 1))
            },
            Err(e) => Err(e),
        }
    }
}

/// `pow128` is at least 1 and does not decrease with its argument.
pub proof fn lemma_pow128_increases(j: nat, k: nat)
    requires
        j <= k,
    ensures
        1 <= pow128(j) <= pow128(k),
    decreases k,
{
    if k == 0 {
    } else {
        let p = pow128((k - 1) as nat);
        if j == k {
            lemma_pow128_increases((k - 1) as nat, (k - 1) as nat);
        } else {
            lemma_pow128_increases(j, (k - 1) as nat);
        }
        assert(pow128(k) >= p) by (nonlinear_arith)
            requires
                pow128(k) == 128 * p,
                p >= 1,
        ;
    }
}

/// The variable-length encoding of any unsigned value below `pow128(k)`
/// takes at least one and at most `k` bytes.
pub proof fn lemma_varuint_bytes_len(x: nat, k: nat)
    requires
        k >= 1,
        x < pow128(k),
    ensures
        1 <= spec_varuint_bytes(x).len() <= k,
    decreases x,
{
    if x < 128 {
    } else {
        lemma_div_is_strictly_smaller(x as int, 128);
        assert(x / 128 < pow128((k - 1) as nat)) by (nonlinear_arith)
            requires
                x < 128 * pow128((k - 1) as nat),
                x >= 128,
        ;
        assert((k - 1) as nat >= 1) by {
            if k == 1 {
                lemma_pow128_increases(0, 0);
                assert(x < 128);
            }
        }
        lemma_varuint_bytes_len(x / 128, (k - 1) as nat);
    }
}

/// Decoding the variable-length encoding of `x`, with anything at all after
/// it, gives back exactly `x` and consumes exactly the encoding.
pub proof fn lemma_varuint_round_trip(x: nat, rest: Seq<u8>, max: nat)
    requires
        spec_varuint_bytes(x).len() <= max,
    ensures
        spec_var_groups(spec_varuint_bytes(x) + rest, max) == Some(
            (x, spec_varuint_bytes(x).len() as int),
        ),
    decreases x,
{
    let enc = spec_varuint_bytes(x);
    if x < 128 {
        assert((enc + rest)[0] == x as u8);
        assert(spec_var_groups(enc + rest, max) == Some((x, 1int)));
    } else {
        lemma_div_is_strictly_smaller(x as int, 128);
        let tail = spec_varuint_bytes(x / 128);
        lemma_varuint_round_trip(x / 128, rest, (max - 1) as nat);
        assert((enc + rest).skip(1) =~= tail + rest);
        assert((enc + rest)[0] == (x % 128 + 128) as u8);
        lemma_fundamental_div_mod(x as int, 128);
        assert(((enc + rest)[0] - 128) + 128 * (x / 128) == x);
    }
}

impl VarInt {
    /// Appends this value's wire bytes to the writer and reports how many
    /// bytes that took, always between 1 and 5.
    pub fn write_to(&self, writer: &mut Vec<u8>) -> (r: usize)
        ensures
            final(writer)@ == old(writer)@ + spec_varint_bytes(self.0),
            r == spec_varint_bytes(self.0).len(),
            1 <= r <= 5,
    {
        let x: u32 = if self.0 >= 0 {
            self.0 as u32
        } else {
            ((self.0 as i64) + 0x1_0000_0000i64) as u32
        };
        proof {
            assert(x as nat == i32_as_u32(self.0));
            assert(pow128(5) == 0x8_0000_0000) by {
                reveal_with_fuel(pow128, 6);
            }
            lemma_varuint_bytes_len(x as nat, 5);
        }
        let before = writer.len();
        write_varuint64(x as u64, writer);
        writer.len() - before
    }

    /// Reads a VarInt from the cursor: at most 5 little-endian 7-bit groups,
    /// reassembled modulo 2^32.
    pub fn read_from(reader: &mut Cursor<'_>) -> (r: Result<VarInt, Error>)
        requires
            old(reader).wf(),
        ensures
            final(reader).wf(),
            final(reader).data_seq() == old(reader).data_seq(),
            final(reader).position_spec() >= old(reader).position_spec(),
            match spec_varint_value(old(reader).remaining_seq()) {
                Some((v, n)) => r == Ok::<VarInt, Error>(VarInt(v)) && final(reader).position_spec() == old(reader).position_spec() + n,
                None => r == Err::<VarInt, Error>(spec_varint_err(old(reader).remaining_seq())),
            },
    {
        match read_var_groups(reader, 5) {
            Ok((v, _n)) => {
                let low = (v % 0x1_0000_0000) as u32;
                let out: i32 = if low < 0x8000_0000 {
                    low as i32
                } else {
                    (((low as i64) - 0x1_0000_0000i64) as i32)
                };
                Ok(VarInt(out))
            },
            Err(e) => Err(e),
        }
    }
}

impl VarLong {
    /// Appends this value's wire bytes to the writer and reports how many
    /// bytes that took, always between 1 and 10.
    pub fn write_to(&self, writer: &mut Vec<u8>) -> (r: usize)
        ensures
            final(writer)@ == old(writer)@ + spec_varlong_bytes(self.0),
            r == spec_varlong_bytes(self.0).len(),
            1 <= r <= 10,
    {
        let x: u64 = if self.0 >= 0 {
            self.0 as u64
        } else {
            ((self.0 as i128) + 0x1_0000_0000_0000_0000i128) as u64
        };
        proof {
            assert(x as nat == i64_as_u64(self.0));
            assert(pow128(10) == 0x40_0000_0000_0000_0000) by {
                reveal_with_fuel(pow128, 11);
            }
            lemma_varuint_bytes_len(x as nat, 10);
        }
        let before = writer.len();
        write_varuint64(x, writer);
        writer.len() - before
    }

    /// Reads a VarLong from the cursor: at most 10 little-endian 7-bit
    /// groups, reassembled modulo 2^64.
    pub fn read_from(reader: &mut Cursor<'_>) -> (r: Result<VarLong, Error>)
        requires
            old(reader).wf(),
        ensures
            final(reader).wf(),
            final(reader).data_seq() == old(reader).data_seq(),
            final(reader).position_spec() >= old(reader).position_spec(),
            match spec_varlong_value(old(reader).remaining_seq()) {
                Some((v, n)) => r == Ok::<VarLong, Error>(VarLong(v)) && final(reader).position_spec() == old(reader).position_spec() + n,
                None => r == Err::<VarLong, Error>(spec_varlong_err(old(reader).remaining_seq())),
            },
    {
        match read_var_groups(reader, 10) {
            Ok((v, _n)) => {
                let low = (v % 0x1_0000_0000_0000_0000) as u64;
                let out: i64 = if low < 0x8000_0000_0000_0000 {
                    low as i64
                } else {
                    (((low as i128) - 0x1_0000_0000_0000_0000i128) as i64)
                };
                Ok(VarLong(out))
            },
            Err(e) => Err(Error::to_varlong_err(e)),
        }
    }
}

impl Error {
    /// Renames the 32-bit over-length error to its 64-bit counterpart.
    fn to_varlong_err(self) -> (r: Error)
        ensures
            r == (if self == Error::VarIntTooLong {
                Error::VarLongTooLong
            } else {
                self
            }),
    {
        match self {
            Error::VarIntTooLong => Error::VarLongTooLong,
            e => e,
        }
    }
}

/// VarInt round trip: for every 32-bit value, decoding its encoding yields
/// the value back, the encoding is 1 to 5 bytes long, and trailing bytes are
/// neither read nor disturbed.
pub proof fn lemma_varint_round_trip(v: i32, rest: Seq<u8>)
    ensures
        1 <= spec_varint_bytes(v).len() <= 5,
        spec_varint_value(spec_varint_bytes(v) + rest) == Some(
            (v, spec_varint_bytes(v).len() as int),
        ),
{
    let x = i32_as_u32(v);
    assert(pow128(5) == 0x8_0000_0000) by {
        reveal_with_fuel(pow128, 6);
    }
    lemma_varuint_bytes_len(x, 5);
    lemma_varuint_round_trip(x, rest, 5);
    assert(u32_as_i32(x % 0x1_0000_0000) == v);
}

/// VarLong round trip: for every 64-bit value, decoding its encoding yields
/// the value back, the encoding is 1 to 10 bytes long, and trailing bytes are
/// neither read nor disturbed.
pub proof fn lemma_varlong_round_trip(v: i64, rest: Seq<u8>)
    ensures
        1 <= spec_varlong_bytes(v).len() <= 10,
        spec_varlong_value(spec_varlong_bytes(v) + rest) == Some(
            (v, spec_varlong_bytes(v).len() as int),
        ),
{
    let x = i64_as_u64(v);
    assert(pow128(10) == 0x40_0000_0000_0000_0000) by {
        reveal_with_fuel(pow128, 11);
    }
    lemma_varuint_bytes_len(x, 10);
    lemma_varuint_round_trip(x, rest, 10);
    assert(u64_as_i64(x % 0x1_0000_0000_0000_0000) == v);
}

impl Readable for VarInt {
    open spec fn spec_read(data: Seq<u8>) -> Option<(VarInt, int)> {
        match spec_varint_value(data) {
            Some((v, n)) => Some((VarInt(v), n)),
            None => None,
        }
    }

    open spec fn spec_read_err(data: Seq<u8>) -> Error {
        spec_varint_err(data)
    }

    proof fn lemma_spec_read_bounds(data: Seq<u8>) {
        lemma_var_groups_bounds(data, 5);
    }

    fn read(buffer: &mut Cursor<'_>, version: ProtocolVersion) -> (r: Result<Self, Error>) {
        Self::read_from(buffer)
    }
}

impl Writeable for VarInt {
    open spec fn spec_write(&self) -> Result<Seq<u8>, Error> {
        Ok(spec_varint_bytes(self.0))
    }

    fn write(&self, buffer: &mut Vec<u8>, version: ProtocolVersion) -> (r: Result<(), Error>) {
        self.write_to(buffer);
        Ok(())
    }
}

impl Readable for VarLong {
    open spec fn spec_read(data: Seq<u8>) -> Option<(VarLong, int)> {
        match spec_varlong_value(data) {
            Some((v, n)) => Some((VarLong(v), n)),
            None => None,
        }
    }

    open spec fn spec_read_err(data: Seq<u8>) -> Error {
        spec_varlong_err(data)
    }

    proof fn lemma_spec_read_bounds(data: Seq<u8>) {
        lemma_var_groups_bounds(data, 10);
    }

    fn read(buffer: &mut Cursor<'_>, version: ProtocolVersion) -> (r: Result<Self, Error>) {
        Self::read_from(buffer)
    }
}

impl Writeable for VarLong {
    open spec fn spec_write(&self) -> Result<Seq<u8>, Error> {
        Ok(spec_varlong_bytes(self.0))
    }

    fn write(&self, buffer: &mut Vec<u8>, version: ProtocolVersion) -> (r: Result<(), Error>) {
        self.write_to(buffer);
        Ok(())
    }
}

/// A successful group decode consumes between 1 and `max` bytes, never more
/// than exist.
pub proof fn lemma_var_groups_bounds(data: Seq<u8>, max: nat)
    ensures
        spec_var_groups(data, max) matches Some((v, n)) ==> 1 <= n <= max && n <= data.len(),
    decreases max,
{
    if data.len() == 0 || max == 0 {
    } else if data[0] < 128 {
    } else {
        lemma_var_groups_bounds(data.skip(1), (max - 1) as nat);
    }
}

} // verus!
