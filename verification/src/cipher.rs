//! The per-device frame cipher: a 128-bit key and whitening block are
//! derived from the 9-byte manufacturer identifier, and every 20-byte frame
//! is transformed by two overlapping IV-whitened AES-128 block operations.
use aes::cipher::{BlockDecrypt, BlockEncrypt, KeyInit};
use vstd::prelude::*;

verus! {

/// Connection-setup failures tied to the device's identity.
#[derive(Clone, Copy, PartialEq, Eq, Structural, Debug)]
pub enum DeviceError {
    /// The required characteristics were not found on the device.
    InvaidCharacteristics,
    /// The advertisement carried no manufacturer data entry.
    NoDeviceIdentifier,
    /// The manufacturer data entry is not exactly 9 bytes.
    InvalidDeviceIdentifier,
}

/// What `aes::Aes128` returns when one 16-byte block is encrypted under a
/// 16-byte key. AES is a keyed deterministic permutation, so the result is
/// a function of the key and the block alone.
pub uninterp spec fn aes128_encrypted(key: Seq<u8>, block: Seq<u8>) -> Seq<u8>;

/// What `aes::Aes128` returns when one 16-byte block is decrypted under a
/// 16-byte key.
pub uninterp spec fn aes128_decrypted(key: Seq<u8>, block: Seq<u8>) -> Seq<u8>;

/// Relies on `aes::Aes128` (`cipher::KeyInit::new_from_slice` and
/// `cipher::BlockEncrypt::encrypt_block`): a block cipher is a keyed
/// deterministic permutation of 16-byte blocks, and `decrypt_block` is its
/// inverse.
#[verifier::external_body]
fn aes128_block_encrypt(key: &Vec<u8>, block: &Vec<u8>) -> (r: Vec<u8>)
    requires
        key@.len() == 16,
        block@.len() == 16,
    ensures
        r@.len() == 16,
        r@ == aes128_encrypted(key@, block@),
        aes128_decrypted(key@, r@) == block@,
{
    let cipher = aes::Aes128::new_from_slice(key).unwrap();
    let mut b = aes::cipher::generic_array::GenericArray::clone_from_slice(block);
    cipher.encrypt_block(&mut b);
    b.to_vec()
}

/// Relies on `aes::Aes128` (`cipher::KeyInit::new_from_slice` and
/// `cipher::BlockDecrypt::decrypt_block`): the decryption permutation, whose
/// inverse is `encrypt_block`.
#[verifier::external_body]
fn aes128_block_decrypt(key: &Vec<u8>, block: &Vec<u8>) -> (r: Vec<u8>)
    requires
        key@.len() == 16,
        block@.len() == 16,
    ensures
        r@.len() == 16,
        r@ == aes128_decrypted(key@, block@),
        aes128_encrypted(key@, r@) == block@,
{
    let cipher = aes::Aes128::new_from_slice(key).unwrap();
    let mut b = aes::cipher::generic_array::GenericArray::clone_from_slice(block);
    cipher.decrypt_block(&mut b);
    b.to_vec()
}

/// Byte-wise exclusive or of two equally long byte strings.
pub open spec fn xor_bytes(a: Seq<u8>, b: Seq<u8>) -> Seq<u8> {
    Seq::new(a.len(), |i| a[i] ^ b[i])
}

proof fn lemma_xor_cancels(a: u8, b: u8)
    by (bit_vector)
    ensures
        (a ^ b) ^ b == a,
{
}

/// The fixed 16-byte base secrets of the protocol.
pub open spec fn base_key() -> Seq<u8> {
    seq![
        0x01u8,
        0x02u8,
        0x42u8,
        0x28u8,
        0x31u8,
        0x91u8,
        0x16u8,
        0x07u8,
        0x20u8,
        0x05u8,
        0x18u8,
        0x54u8,
        0x42u8,
        0x11u8,
        0x12u8,
        0x53u8,
    ]
}

pub open spec fn base_iv() -> Seq<u8> {
    seq![
        0x11u8,
        0x03u8,
        0x32u8,
        0x28u8,
        0x21u8,
        0x01u8,
        0x76u8,
        0x27u8,
        0x20u8,
        0x95u8,
        0x78u8,
        0x14u8,
        0x32u8,
        0x12u8,
        0x02u8,
        0x43u8,
    ]
}

/// The working secret: the 6-byte device key is added byte by byte, modulo
/// 255, onto the first 6 bytes of the base secret.
pub open spec fn derived_secret(base: Seq<u8>, device_key: Seq<u8>) -> Seq<u8> {
    Seq::new(
        base.len(),
        |i: int|
            if i < device_key.len() {
                ((base[i] + device_key[i]) % 255) as u8
            } else {
                base[i]
            },
    )
}

/// One frame encrypted: the first 16 bytes are whitened with the IV block
/// and cipher-encrypted, then bytes 4..20 (overlapping the first block) are
/// whitened and cipher-encrypted in turn.
pub open spec fn spec_encrypt_frame(key: Seq<u8>, iv: Seq<u8>, v: Seq<u8>) -> Seq<u8> {
    let v1 = aes128_encrypted(key, xor_bytes(v.take(16), iv)) + v.skip(16);
    v1.take(4) + aes128_encrypted(key, xor_bytes(v1.skip(4), iv))
}

/// One frame decrypted: the exact mirror, so the trailing block is undone
/// first; the overlap in bytes 4..16 makes this order mandatory.
pub open spec fn spec_decrypt_frame(key: Seq<u8>, iv: Seq<u8>, v: Seq<u8>) -> Seq<u8> {
    let v1 = v.take(4) + xor_bytes(aes128_decrypted(key, v.skip(4)), iv);
    xor_bytes(aes128_decrypted(key, v1.take(16)), iv) + v1.skip(16)
}

/// The per-connection cipher state: the derived key and whitening block.
#[derive(Clone, Debug)]
pub struct GanCubeV2Cipher {
    key: Vec<u8>,
    iv: Vec<u8>,
}

impl GanCubeV2Cipher {
    pub closed spec fn spec_key(self) -> Seq<u8> {
        self.key@
    }

    pub closed spec fn spec_iv(self) -> Seq<u8> {
        self.iv@
    }

    pub open spec fn wf(self) -> bool {
        self.spec_key().len() == 16 && self.spec_iv().len() == 16
    }

    /// Derive the cipher for one device from the manufacturer data entry of
    /// its advertisement, if that entry is present and exactly 9 bytes long;
    /// bytes 3..9 of it are the device key.
    pub fn make_cipher(manufacturer_data: Option<&Vec<u8>>) -> (r: Result<
        GanCubeV2Cipher,
        DeviceError,
    >)
        ensures
            match r {
                Ok(c) => {
                    &&& manufacturer_data is Some
                    &&& manufacturer_data.unwrap()@.len() == 9
                    &&& c.wf()
                    &&& c.spec_key() == derived_secret(
                        base_key(),
                        manufacturer_data.unwrap()@.subrange(3, 9),
                    )
                    &&& c.spec_iv() == derived_secret(
                        base_iv(),
                        manufacturer_data.unwrap()@.subrange(3, 9),
                    )
                },
                Err(DeviceError::NoDeviceIdentifier) => manufacturer_data is None,
                Err(DeviceError::InvalidDeviceIdentifier) => manufacturer_data is Some
                    && manufacturer_data.unwrap()@.len() != 9,
                Err(_) => false,
            },
    {
        let data = match manufacturer_data {
            Some(d) => d,
            None => {
                return Err(DeviceError::NoDeviceIdentifier);
            },
        };
        if data.len() != 9 {
            return Err(DeviceError::InvalidDeviceIdentifier);
        }
        let base_key_bytes: Vec<u8> = vec![
            0x01u8, 0x02, 0x42, 0x28, 0x31, 0x91, 0x16, 0x07, 0x20, 0x05, 0x18, 0x54, 0x42, 0x11,
            0x12, 0x53,
        ];
        let base_iv_bytes: Vec<u8> = vec![
            0x11u8, 0x03, 0x32, 0x28, 0x21, 0x01, 0x76, 0x27, 0x20, 0x95, 0x78, 0x14, 0x32, 0x12,
            0x02, 0x43,
        ];
        assert(base_key_bytes@ =~= base_key());
        assert(base_iv_bytes@ =~= base_iv());
        let mut device_key: Vec<u8> = Vec::new();
        let mut i: usize = 3;
        while i < 9
            invariant
                3 <= i <= 9,
                data@.len() == 9,
                device_key@.len() == i - 3,
                forall|j: int| 0 <= j < i - 3 ==> device_key@[j] == data@[3 + j],
            decreases 9 - i,
        {
            device_key.push(data[i]);
            i = i + 1;
        }
        assert(device_key@ =~= data@.subrange(3, 9));
        let key = add_device_key(&base_key_bytes, &device_key);
        let iv = add_device_key(&base_iv_bytes, &device_key);
        Ok(GanCubeV2Cipher { key, iv })
    }

    /// The derived 128-bit cipher key.
    pub fn key_bytes(&self) -> (r: Vec<u8>)
        ensures
            r@ == self.spec_key(),
    {
        let mut r: Vec<u8> = Vec::new();
        let mut i: usize = 0;
        while i < self.key.len()
            invariant
                i <= self.key@.len(),
                r@ == self.key@.take(i as int),
            decreases self.key@.len() - i,
        {
            r.push(self.key[i]);
            assert(r@ =~= self.key@.take(i + 1));
            i = i + 1;
        }
        assert(r@ =~= self.key@);
        r
    }

    /// The derived 128-bit whitening block.
    pub fn iv_bytes(&self) -> (r: Vec<u8>)
        ensures
            r@ == self.spec_iv(),
    {
        let mut r: Vec<u8> = Vec::new();
        let mut i: usize = 0;
        while i < self.iv.len()
            invariant
                i <= self.iv@.len(),
                r@ == self.iv@.take(i as int),
            decreases self.iv@.len() - i,
        {
            r.push(self.iv[i]);
            assert(r@ =~= self.iv@.take(i + 1));
            i = i + 1;
        }
        assert(r@ =~= self.iv@);
        r
    }

    /// Encrypt a 20-byte frame in place. The second ensures clause is the
    /// round-trip law: spec-decrypting the output recovers the input
    /// bit for bit.
    pub fn encrypt(&self, value: &mut Vec<u8>)
        requires
            self.wf(),
            old(value)@.len() == 20,
        ensures
            final(value)@.len() == 20,
            final(value)@ == spec_encrypt_frame(self.spec_key(), self.spec_iv(), old(value)@),
            spec_decrypt_frame(self.spec_key(), self.spec_iv(), final(value)@) == old(value)@,
    {
        let ghost k = self.key@;
        let ghost ivv = self.iv@;
        let ghost o = value@;
        let b1 = copy_block(value, 0);
        let w1 = xor16(&b1, &self.iv);
        assert(w1@ =~= xor_bytes(o.take(16), ivv));
        let e1 = aes128_block_encrypt(&self.key, &w1);
        write_block(value, 0, &e1);
        let ghost v1 = aes128_encrypted(k, xor_bytes(o.take(16), ivv)) + o.skip(16);
        assert(value@ =~= v1);
        let b2 = copy_block(value, 4);
        let w2 = xor16(&b2, &self.iv);
        assert(b2@ =~= v1.skip(4));
        assert(w2@ =~= xor_bytes(v1.skip(4), ivv));
        let e2 = aes128_block_encrypt(&self.key, &w2);
        write_block(value, 4, &e2);
        assert(value@ =~= v1.take(4) + aes128_encrypted(k, xor_bytes(v1.skip(4), ivv)));
        proof {
            let c = value@;
            // undoing the trailing block recovers the middle state
            assert(c.skip(4) =~= e2@);
            assert(xor_bytes(aes128_decrypted(k, c.skip(4)), ivv) =~= v1.skip(4)) by {
                assert(aes128_decrypted(k, c.skip(4)) == w2@);
                assert forall|i: int| 0 <= i < 16 implies xor_bytes(w2@, ivv)[i] == v1.skip(4)[i] by {
                    lemma_xor_cancels(v1.skip(4)[i], ivv[i]);
                }
            }
            let v1r = c.take(4) + xor_bytes(aes128_decrypted(k, c.skip(4)), ivv);
            assert(v1r =~= v1);
            // undoing the leading block recovers the plain frame
            assert(v1r.take(16) =~= e1@);
            assert(xor_bytes(aes128_decrypted(k, v1r.take(16)), ivv) =~= o.take(16)) by {
                assert(aes128_decrypted(k, v1r.take(16)) == w1@);
                assert forall|i: int| 0 <= i < 16 implies xor_bytes(w1@, ivv)[i] == o.take(
                    16,
                )[i] by {
                    lemma_xor_cancels(o.take(16)[i], ivv[i]);
                }
            }
            assert(v1r.skip(16) =~= o.skip(16));
            assert(spec_decrypt_frame(k, ivv, c) =~= o);
        }
    }

    /// Decrypt a 20-byte frame in place: the mirror of `encrypt`, trailing
    /// block first because of the overlap in bytes 4..16.
    pub fn decrypt(&self, value: &mut Vec<u8>)
        requires
            self.wf(),
            old(value)@.len() == 20,
        ensures
            final(value)@.len() == 20,
            final(value)@ == spec_decrypt_frame(self.spec_key(), self.spec_iv(), old(value)@),
            spec_encrypt_frame(self.spec_key(), self.spec_iv(), final(value)@) == old(value)@,
    {
        let ghost k = self.key@;
        let ghost ivv = self.iv@;
        let ghost o = value@;
        let b2 = copy_block(value, 4);
        let d2 = aes128_block_decrypt(&self.key, &b2);
        let p2 = xor16(&d2, &self.iv);
        write_block(value, 4, &p2);
        assert(b2@ =~= o.skip(4));
        let ghost v1 = o.take(4) + xor_bytes(aes128_decrypted(k, o.skip(4)), ivv);
        assert(value@ =~= v1);
        let b1 = copy_block(value, 0);
        let d1 = aes128_block_decrypt(&self.key, &b1);
        let p1 = xor16(&d1, &self.iv);
        write_block(value, 0, &p1);
        assert(b1@ =~= v1.take(16));
        assert(value@ =~= xor_bytes(aes128_decrypted(k, v1.take(16)), ivv) + v1.skip(16));
        proof {
            let c = value@;
            // re-whitening and re-encrypting the leading block gives back
            // the state with only the trailing block undone
            assert(xor_bytes(c.take(16), ivv) =~= d1@) by {
                assert(c.take(16) =~= p1@);
                assert forall|i: int| 0 <= i < 16 implies xor_bytes(p1@, ivv)[i] == d1@[i] by {
                    lemma_xor_cancels(d1@[i], ivv[i]);
                }
            }
            assert(aes128_encrypted(k, d1@) == b1@);
            let e1 = aes128_encrypted(k, xor_bytes(c.take(16), ivv)) + c.skip(16);
            assert(e1 =~= v1);
            // and re-encrypting the trailing block gives back the input
            assert(xor_bytes(e1.skip(4), ivv) =~= d2@) by {
                assert(e1.skip(4) =~= p2@);
                assert forall|i: int| 0 <= i < 16 implies xor_bytes(p2@, ivv)[i] == d2@[i] by {
                    lemma_xor_cancels(d2@[i], ivv[i]);
                }
            }
            assert(aes128_encrypted(k, d2@) == b2@);
            assert(e1.take(4) =~= o.take(4));
            assert(spec_encrypt_frame(k, ivv, c) =~= o);
        }
    }
}

/// The mod-255 byte-wise addition of the key schedule.
fn add_device_key(base: &Vec<u8>, device_key: &Vec<u8>) -> (r: Vec<u8>)
    requires
        base@.len() == 16,
        device_key@.len() <= 16,
    ensures
        r@ == derived_secret(base@, device_key@),
{
    let mut r: Vec<u8> = Vec::new();
    let mut i: usize = 0;
    while i < 16
        invariant
            i <= 16,
            base@.len() == 16,
            device_key@.len() <= 16,
            r@.len() == i,
            forall|j: int| 0 <= j < i ==> r@[j] == derived_secret(base@, device_key@)[j],
        decreases 16 - i,
    {
        if i < device_key.len() {
            let sum = (base[i] as u16 + device_key[i] as u16) % 255;
            r.push(sum as u8);
        } else {
            r.push(base[i]);
        }
        i = i + 1;
    }
    assert(r@ =~= derived_secret(base@, device_key@));
    r
}

/// Copy the 16-byte block starting at `start` out of a frame.
fn copy_block(value: &Vec<u8>, start: usize) -> (r: Vec<u8>)
    requires
        start + 16 <= value@.len(),
    ensures
        r@ == value@.subrange(start as int, start + 16),
{
    let n = value.len();
    let mut r: Vec<u8> = Vec::new();
    let mut i: usize = 0;
    while i < 16
        invariant
            i <= 16,
            start + 16 <= n == value@.len(),
            r@.len() == i,
            forall|j: int| 0 <= j < i ==> r@[j] == value@[start + j],
        decreases 16 - i,
    {
        r.push(value[start + i]);
        i = i + 1;
    }
    assert(r@ =~= value@.subrange(start as int, start + 16));
    r
}

/// Exclusive-or two 16-byte blocks.
fn xor16(a: &Vec<u8>, b: &Vec<u8>) -> (r: Vec<u8>)
    requires
        a@.len() == 16,
        b@.len() == 16,
    ensures
        r@ == xor_bytes(a@, b@),
{
    let mut r: Vec<u8> = Vec::new();
    let mut i: usize = 0;
    while i < 16
        invariant
            i <= 16,
            a@.len() == 16,
            b@.len() == 16,
            r@.len() == i,
            forall|j: int| 0 <= j < i ==> r@[j] == (a@[j] ^ b@[j]),
        decreases 16 - i,
    {
        r.push(a[i] ^ b[i]);
        i = i + 1;
    }
    assert(r@ =~= xor_bytes(a@, b@));
    r
}

/// Write a 16-byte block into a frame at `start`, leaving the rest alone.
fn write_block(value: &mut Vec<u8>, start: usize, block: &Vec<u8>)
    requires
        start + 16 <= old(value)@.len(),
        block@.len() == 16,
    ensures
        final(value)@.len() == old(value)@.len(),
        forall|i: int|
            0 <= i < final(value)@.len() ==> final(value)@[i] == (if start <= i < start + 16 {
                block@[i - start]
            } else {
                old(value)@[i]
            }),
{
    let n = value.len();
    let mut i: usize = 0;
    while i < 16
        invariant
            i <= 16,
            start + 16 <= n,
            n == value@.len(),
            value@.len() == old(value)@.len(),
            block@.len() == 16,
            forall|j: int|
                0 <= j < value@.len() ==> value@[j] == (if start <= j < start + i {
                    block@[j - start]
                } else {
                    old(value)@[j]
                }),
        decreases 16 - i,
    {
        value.set(start + i, block[i]);
        i = i + 1;
    }
}

} // verus!
