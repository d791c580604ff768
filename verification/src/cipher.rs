//! The stream-cipher stage: an AES-128 block cipher operated in a feedback
//! mode with one-byte granularity, so data can be transformed as it streams
//! in arbitrary chunk sizes without block-alignment padding. Each direction
//! carries its own running 16-byte feedback register that persists across
//! calls for the life of a connection; the 16-byte key doubles as the
//! initialization vector.

use aes::cipher::generic_array::GenericArray;
use aes::cipher::{BlockEncrypt, KeyInit};
use vstd::prelude::*;

verus! {

broadcast use vstd::seq_lib::lemma_seq_skip_of_skip;

/// A 16-byte symmetric key, also used as the initialization vector.
pub type EncryptionKey = [u8; 16];

/// The AES-128 block function: what `aes::Aes128` computes for a 16-byte key
/// and a 16-byte block, a value depending on those arguments alone.
pub uninterp spec fn aes128_block(key: Seq<u8>, block: Seq<u8>) -> Seq<u8>;

/// Relies on `aes::Aes128` (`cipher::KeyInit::new_from_slice`,
/// `cipher::BlockEncrypt::encrypt_block`): encrypting a 16-byte block with a
/// 16-byte key yields the 16-byte AES-128 ciphertext block, a pure function
/// of key and block.
#[verifier::external_body]
fn aes128_encrypt_block(key: &Vec<u8>, block: &Vec<u8>) -> (r: Vec<u8>)
    requires
        key@.len() == 16,
        block@.len() == 16,
    ensures
        r@ == aes128_block(key@, block@),
        r@.len() == 16,
{
    let c = aes::Aes128::new_from_slice(key).unwrap();
    let mut b: GenericArray<u8, _> = GenericArray::clone_from_slice(block);
    c.encrypt_block(&mut b);
    b.to_vec()
}

/// The ciphertext and final feedback register that one cipher direction
/// produces from a plaintext: each byte is the plaintext byte XORed with the
/// first byte of the encrypted register, and the register then shifts that
/// ciphertext byte in.
pub open spec fn spec_cfb8_encrypt(key: Seq<u8>, reg: Seq<u8>, plain: Seq<u8>) -> (Seq<u8>, Seq<
    u8,
>)
    decreases plain.len(),
{
    if plain.len() == 0 {
        (Seq::empty(), reg)
    } else {
        let c = plain[0] ^ aes128_block(key, reg)[0];
        let next = spec_cfb8_encrypt(key, reg.skip(1).push(c), plain.skip(1));
        (seq![c] + next.0, next.1)
    }
}

/// The plaintext and final feedback register that the other cipher direction
/// produces from a ciphertext; the register shifts in the ciphertext byte,
/// exactly as the encrypting direction did.
pub open spec fn spec_cfb8_decrypt(key: Seq<u8>, reg: Seq<u8>, cipher: Seq<u8>) -> (Seq<u8>, Seq<
    u8,
>)
    decreases cipher.len(),
{
    if cipher.len() == 0 {
        (Seq::empty(), reg)
    } else {
        let p = cipher[0] ^ aes128_block(key, reg)[0];
        let next = spec_cfb8_decrypt(key, reg.skip(1).push(cipher[0]), cipher.skip(1));
        (seq![p] + next.0, next.1)
    }
}

/// Encrypting then decrypting any byte sequence from equal cipher states
/// yields the original sequence, and leaves the two registers equal again:
/// the per-byte feedback stays in lockstep because both directions shift in
/// the ciphertext byte.
pub proof fn lemma_cfb8_round_trip(key: Seq<u8>, reg: Seq<u8>, plain: Seq<u8>)
    ensures
        spec_cfb8_decrypt(key, reg, spec_cfb8_encrypt(key, reg, plain).0).0 == plain,
        spec_cfb8_decrypt(key, reg, spec_cfb8_encrypt(key, reg, plain).0).1 == spec_cfb8_encrypt(
            key,
            reg,
            plain,
        ).1,
    decreases plain.len(),
{
    if plain.len() == 0 {
        assert(spec_cfb8_decrypt(key, reg, spec_cfb8_encrypt(key, reg, plain).0).0 =~= plain);
    } else {
        let e = aes128_block(key, reg)[0];
        let p0 = plain[0];
        let c0 = (p0 ^ e) as u8;
        assert((p0 ^ e) ^ e == p0) by (bit_vector);
        let reg2 = reg.skip(1).push(c0);
        lemma_cfb8_round_trip(key, reg2, plain.skip(1));
        let cipher = spec_cfb8_encrypt(key, reg, plain).0;
        assert(cipher == seq![c0] + spec_cfb8_encrypt(key, reg2, plain.skip(1)).0);
        assert(cipher[0] == c0);
        assert(cipher.skip(1) =~= spec_cfb8_encrypt(key, reg2, plain.skip(1)).0);
        assert(spec_cfb8_decrypt(key, reg, cipher).0 =~= plain);
    }
}

/// Transforming a concatenation from one state equals transforming the first
/// part, then the second from the state the first part left behind: the
/// stream can be fed in chunks of any size with no change in the outcome.
pub proof fn lemma_cfb8_encrypt_chunks(key: Seq<u8>, reg: Seq<u8>, a: Seq<u8>, b: Seq<u8>)
    ensures
        spec_cfb8_encrypt(key, reg, a + b).0 == spec_cfb8_encrypt(key, reg, a).0
            + spec_cfb8_encrypt(key, spec_cfb8_encrypt(key, reg, a).1, b).0,
        spec_cfb8_encrypt(key, reg, a + b).1 == spec_cfb8_encrypt(
            key,
            spec_cfb8_encrypt(key, reg, a).1,
            b,
        ).1,
    decreases a.len(),
{
    if a.len() == 0 {
        assert(a + b =~= b);
        assert(spec_cfb8_encrypt(key, reg, a).0 + spec_cfb8_encrypt(key, reg, b).0
            =~= spec_cfb8_encrypt(key, reg, b).0);
    } else {
        let ab = a + b;
        assert(ab.len() > 0 && ab[0] == a[0]);
        let c = (a[0] ^ aes128_block(key, reg)[0]) as u8;
        let reg2 = reg.skip(1).push(c);
        lemma_cfb8_encrypt_chunks(key, reg2, a.skip(1), b);
        assert(ab.skip(1) =~= a.skip(1) + b);
        assert(seq![c] + (spec_cfb8_encrypt(key, reg2, a.skip(1)).0 + spec_cfb8_encrypt(
            key,
            spec_cfb8_encrypt(key, reg2, a.skip(1)).1,
            b,
        ).0) =~= (seq![c] + spec_cfb8_encrypt(key, reg2, a.skip(1)).0) + spec_cfb8_encrypt(
            key,
            spec_cfb8_encrypt(key, reg2, a.skip(1)).1,
            b,
        ).0);
    }
}

/// One direction of the stream cipher: the key and the running feedback
/// register.
pub struct Cfb8State {
    key: Vec<u8>,
    register: Vec<u8>,
}

impl Cfb8State {
    /// The 16-byte key.
    pub closed spec fn spec_key(&self) -> Seq<u8> {
        self.key@
    }

    /// The current feedback register.
    pub closed spec fn spec_register(&self) -> Seq<u8> {
        self.register@
    }

    /// Key and register are each 16 bytes.
    pub open spec fn wf(&self) -> bool {
        self.spec_key().len() == 16 && self.spec_register().len() == 16
    }

    /// A fresh direction state: the register starts at the initialization
    /// vector, which is the key itself.
    pub fn new(key: &EncryptionKey) -> (r: Cfb8State)
        ensures
            r.wf(),
            r.spec_key() == key@,
            r.spec_register() == key@,
    {
        let k = vstd::slice::slice_to_vec(key.as_slice());
        let reg = vstd::slice::slice_to_vec(key.as_slice());
        Cfb8State { key: k, register: reg }
    }

    /// Encrypts the buffer in place, one byte of feedback at a time, and
    /// leaves the register where the last byte put it.
    pub fn encrypt_in_place(&mut self, data: &mut Vec<u8>)
        requires
            old(self).wf(),
        ensures
            final(self).wf(),
            final(self).spec_key() == old(self).spec_key(),
            final(data)@ == spec_cfb8_encrypt(
                old(self).spec_key(),
                old(self).spec_register(),
                old(data)@,
            ).0,
            final(self).spec_register() == spec_cfb8_encrypt(
                old(self).spec_key(),
                old(self).spec_register(),
                old(data)@,
            ).1,
    {
        let ghost key0 = self.spec_key();
        let ghost data0 = data@;
        proof {
            assert(data0.skip(0) =~= data0);
            assert(data0.take(0) =~= Seq::<u8>::empty());
            assert(Seq::<u8>::empty() + spec_cfb8_encrypt(key0, self.spec_register(), data0).0
                =~= spec_cfb8_encrypt(key0, self.spec_register(), data0).0);
        }
        let mut i: usize = 0;
        while i < data.len()
            invariant
                self.wf(),
                self.spec_key() == key0,
                i <= data.len(),
                data@.len() == data0.len(),
                data@.skip(i as int) == data0.skip(i as int),
                ({
                    let rest = spec_cfb8_encrypt(key0, self.spec_register(), data0.skip(i as int));
                    spec_cfb8_encrypt(key0, old(self).spec_register(), data0) == (
                        data@.take(i as int) + rest.0,
                        rest.1,
                    )
                }),
            decreases data.len() - i,
        {
            let ghost reg_before = self.spec_register();
            let ghost data_before = data@;
            let e = aes128_encrypt_block(&self.key, &self.register);
            let c = data[i] ^ e[0];
            data.set(i, c);
            self.register.remove(0);
            self.register.push(c);
            i = i + 1;
            proof {
                assert(data0.skip(i - 1)[0] == data0[i - 1] && data_before[i - 1] == data0[i - 1]);
                assert(self.spec_register() =~= reg_before.skip(1).push(c));
                assert(data0.skip(i - 1).skip(1) =~= data0.skip(i as int));
                assert(data_before.skip(i - 1).skip(1) =~= data_before.skip(i as int));
                assert(data@.skip(i as int) =~= data_before.skip(i as int));
                assert(data@.skip(i as int) == data0.skip(i as int));
                let rest = spec_cfb8_encrypt(key0, self.spec_register(), data0.skip(i as int));
                assert(data@.take(i as int) =~= data_before.take(i - 1) + seq![c]);
                assert((data_before.take(i - 1) + seq![c]) + rest.0 =~= data_before.take(i - 1) + (
                seq![c] + rest.0));
            }
        }
        proof {
            assert(data0.skip(data@.len() as int) =~= Seq::<u8>::empty());
            assert(data@.take(data@.len() as int) + Seq::<u8>::empty() =~= data@);
            assert(data@.take(data@.len() as int) =~= data@);
        }
    }

    /// Decrypts the buffer in place; the register shifts in the ciphertext
    /// bytes it consumes, mirroring the encrypting direction.
    pub fn decrypt_in_place(&mut self, data: &mut Vec<u8>)
        requires
            old(self).wf(),
        ensures
            final(self).wf(),
            final(self).spec_key() == old(self).spec_key(),
            final(data)@ == spec_cfb8_decrypt(
                old(self).spec_key(),
                old(self).spec_register(),
                old(data)@,
            ).0,
            final(self).spec_register() == spec_cfb8_decrypt(
                old(self).spec_key(),
                old(self).spec_register(),
                old(data)@,
            ).1,
    {
        let ghost key0 = self.spec_key();
        let ghost data0 = data@;
        proof {
            assert(data0.skip(0) =~= data0);
            assert(data0.take(0) =~= Seq::<u8>::empty());
            assert(Seq::<u8>::empty() + spec_cfb8_decrypt(key0, self.spec_register(), data0).0
                =~= spec_cfb8_decrypt(key0, self.spec_register(), data0).0);
        }
        let mut i: usize = 0;
        while i < data.len()
            invariant
                self.wf(),
                self.spec_key() == key0,
                i <= data.len(),
                data@.len() == data0.len(),
                data@.skip(i as int) == data0.skip(i as int),
                ({
                    let rest = spec_cfb8_decrypt(key0, self.spec_register(), data0.skip(i as int));
                    spec_cfb8_decrypt(key0, old(self).spec_register(), data0) == (
                        data@.take(i as int) + rest.0,
                        rest.1,
                    )
                }),
            decreases data.len() - i,
        {
            let ghost reg_before = self.spec_register();
            let ghost data_before = data@;
            let e = aes128_encrypt_block(&self.key, &self.register);
            let cin = data[i];
            let p = cin ^ e[0];
            data.set(i, p);
            self.register.remove(0);
            self.register.push(cin);
            i = i + 1;
            proof {
                assert(data0.skip(i - 1)[0] == data0[i - 1] && data_before[i - 1] == data0[i - 1]);
                assert(self.spec_register() =~= reg_before.skip(1).push(cin));
                assert(data0.skip(i - 1).skip(1) =~= data0.skip(i as int));
                assert(data_before.skip(i - 1).skip(1) =~= data_before.skip(i as int));
                assert(data@.skip(i as int) =~= data_before.skip(i as int));
                assert(data@.skip(i as int) == data0.skip(i as int));
                let rest = spec_cfb8_decrypt(key0, self.spec_register(), data0.skip(i as int));
                assert(data@.take(i as int) =~= data_before.take(i - 1) + seq![p]);
                assert((data_before.take(i - 1) + seq![p]) + rest.0 =~= data_before.take(i - 1) + (
                seq![p] + rest.0));
            }
        }
        proof {
            assert(data0.skip(data@.len() as int) =~= Seq::<u8>::empty());
            assert(data@.take(data@.len() as int) + Seq::<u8>::empty() =~= data@);
            assert(data@.take(data@.len() as int) =~= data@);
        }
    }
}

/// Holds the 16-byte key and the two independent, stateful directional
/// cipher contexts derived from it. Created once per connection after key
/// exchange; never reconstructed mid-stream, since rebuilding from the key
/// resets the feedback registers.
pub struct EncryptionHandler {
    key: EncryptionKey,
    encryptor: Cfb8State,
    decryption: Cfb8State,
}

impl EncryptionHandler {
    /// The stored key.
    pub closed spec fn spec_key(&self) -> Seq<u8> {
        self.key@
    }

    /// The encrypt-direction state.
    pub closed spec fn spec_enc(&self) -> Cfb8State {
        self.encryptor
    }

    /// The decrypt-direction state.
    pub closed spec fn spec_dec(&self) -> Cfb8State {
        self.decryption
    }

    /// Both directions are well formed and keyed by the stored key.
    pub open spec fn wf(&self) -> bool {
        self.spec_enc().wf() && self.spec_dec().wf() && self.spec_enc().spec_key()
            == self.spec_key() && self.spec_dec().spec_key() == self.spec_key()
            && self.spec_key().len() == 16
    }

    /// Derives a fresh handler from a key: both feedback registers start at
    /// the initialization vector, which is the key itself.
    pub fn new(key: EncryptionKey) -> (r: EncryptionHandler)
        ensures
            r.wf(),
            r.spec_key() == key@,
            r.spec_enc().spec_register() == key@,
            r.spec_dec().spec_register() == key@,
    {
        EncryptionHandler { key, encryptor: Cfb8State::new(&key), decryption: Cfb8State::new(&key) }
    }

    /// A fresh handler re-derived from this one's stored key, never a copy of
    /// in-flight cipher state.
    pub fn fresh_from_key(&self) -> (r: EncryptionHandler)
        ensures
            r.wf(),
            r.spec_key() == self.spec_key(),
            r.spec_enc().spec_register() == self.spec_key(),
            r.spec_dec().spec_register() == self.spec_key(),
    {
        EncryptionHandler::new(self.key)
    }

    /// Encrypts outbound bytes in place through the encrypt-direction state.
    pub fn encrypt(&mut self, data: &mut Vec<u8>)
        requires
            old(self).wf(),
        ensures
            final(self).wf(),
            final(self).spec_key() == old(self).spec_key(),
            final(self).spec_dec() == old(self).spec_dec(),
            final(data)@ == spec_cfb8_encrypt(
                old(self).spec_key(),
                old(self).spec_enc().spec_register(),
                old(data)@,
            ).0,
            final(self).spec_enc().spec_register() == spec_cfb8_encrypt(
                old(self).spec_key(),
                old(self).spec_enc().spec_register(),
                old(data)@,
            ).1,
    {
        self.encryptor.encrypt_in_place(data);
    }

    /// Decrypts inbound bytes in place through the decrypt-direction state.
    pub fn decrypt(&mut self, data: &mut Vec<u8>)
        requires
            old(self).wf(),
        ensures
            final(self).wf(),
            final(self).spec_key() == old(self).spec_key(),
            final(self).spec_enc() == old(self).spec_enc(),
            final(data)@ == spec_cfb8_decrypt(
                old(self).spec_key(),
                old(self).spec_dec().spec_register(),
                old(data)@,
            ).0,
            final(self).spec_dec().spec_register() == spec_cfb8_decrypt(
                old(self).spec_key(),
                old(self).spec_dec().spec_register(),
                old(data)@,
            ).1,
    {
        self.decryption.decrypt_in_place(data);
    }
}

} // verus!
