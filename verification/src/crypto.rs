//! Protocol encryption and decryption: AES-128 ECB (with PKCS7 padding,
//! versions 3.1 through 3.4) and AES-128 GCM (versions 3.4 and 3.5), with
//! an optional base64 layer outside the AES step.
//!
//! The AES block operations, the GCM seal/open pair, and the base64 codec
//! come from outside crates and are introduced through trusted wrappers;
//! everything around them (padding, block chaining, framing of the GCM
//! output) is verified.
use vstd::prelude::*;

use crate::error::TuyaError;

use aes::cipher::{BlockCipherDecrypt, BlockCipherEncrypt, KeyInit};
use aes_gcm::aead::{Aead, Payload};
use base64::Engine;
use rand::Rng;

verus! {

/// One byte of the AES-128 encryption of a block. The block cipher is a
/// function of key and block alone.
pub uninterp spec fn aes_enc_byte(key: Seq<u8>, block: Seq<u8>, i: int) -> u8;

/// One byte of the AES-128 decryption of a block.
pub uninterp spec fn aes_dec_byte(key: Seq<u8>, block: Seq<u8>, i: int) -> u8;

/// The AES-128 encryption of a 16-byte block.
pub open spec fn aes128_enc(key: Seq<u8>, block: Seq<u8>) -> Seq<u8> {
    Seq::new(16, |i: int| aes_enc_byte(key, block, i))
}

/// The AES-128 decryption of a 16-byte block.
pub open spec fn aes128_dec(key: Seq<u8>, block: Seq<u8>) -> Seq<u8> {
    Seq::new(16, |i: int| aes_dec_byte(key, block, i))
}

/// One byte of the AES-128-GCM sealing (ciphertext followed by the 16-byte
/// tag) of a message under a key, a 12-byte nonce and associated data.
pub uninterp spec fn gcm_seal_byte(
    key: Seq<u8>,
    nonce: Seq<u8>,
    aad: Seq<u8>,
    msg: Seq<u8>,
    i: int,
) -> u8;

/// The AES-128-GCM sealing of `msg`: its ciphertext followed by the tag.
pub open spec fn gcm_seal(key: Seq<u8>, nonce: Seq<u8>, aad: Seq<u8>, msg: Seq<u8>) -> Seq<u8> {
    Seq::new(msg.len() + 16, |i: int| gcm_seal_byte(key, nonce, aad, msg, i))
}

/// The AES-128-GCM opening of a ciphertext-with-tag: the plaintext when the
/// tag authenticates under the same key, nonce and associated data, `None`
/// otherwise.
pub uninterp spec fn gcm_open(key: Seq<u8>, nonce: Seq<u8>, aad: Seq<u8>, ct: Seq<u8>) -> Option<
    Seq<u8>,
>;

/// The base64 (standard alphabet, padded) encoding of a byte sequence.
pub uninterp spec fn b64_encode_of(data: Seq<u8>) -> Seq<u8>;

/// The base64 decoding of a byte sequence: `None` unless the input is the
/// canonical encoding of some byte sequence.
pub uninterp spec fn b64_decode_of(data: Seq<u8>) -> Option<Seq<u8>>;

/// Relies on `aes::Aes128` (`encrypt_block`): AES-128 encryption of one
/// block, a function of key and block alone; decrypting the result with the
/// same key gives the block back.
#[verifier::external_body]
fn aes_encrypt_block(key: &[u8], block: &[u8]) -> (r: Vec<u8>)
    requires
        key@.len() == 16,
        block@.len() == 16,
    ensures
        r@ == aes128_enc(key@, block@),
        forall|i: int| 0 <= i < 16 ==> r@[i] == aes_enc_byte(key@, block@, i),
        aes128_dec(key@, r@) == block@,
{
    let cipher = aes::Aes128::new_from_slice(key).expect("16-byte key");
    let mut b = aes::Block::default();
    b.copy_from_slice(block);
    cipher.encrypt_block(&mut b);
    b.as_slice().to_vec()
}

/// Relies on `aes::Aes128` (`decrypt_block`): AES-128 decryption of one
/// block, the inverse of `encrypt_block` under the same key.
#[verifier::external_body]
fn aes_decrypt_block(key: &[u8], block: &[u8]) -> (r: Vec<u8>)
    requires
        key@.len() == 16,
        block@.len() == 16,
    ensures
        r@ == aes128_dec(key@, block@),
        forall|i: int| 0 <= i < 16 ==> r@[i] == aes_dec_byte(key@, block@, i),
        aes128_enc(key@, r@) == block@,
{
    let cipher = aes::Aes128::new_from_slice(key).expect("16-byte key");
    let mut b = aes::Block::default();
    b.copy_from_slice(block);
    cipher.decrypt_block(&mut b);
    b.as_slice().to_vec()
}

/// The associated data a caller handed over, empty where it gave none.
pub open spec fn aad_view(h: Option<&[u8]>) -> Seq<u8> {
    match h {
        Some(x) => x@,
        None => Seq::<u8>::empty(),
    }
}

/// Relies on `aes_gcm::Aes128Gcm` (`Aead::encrypt`): returns ciphertext
/// followed by the 16-byte tag; fails only when the message or the
/// associated data is longer than the GCM limits; opening the result under
/// the same key, nonce and associated data gives the message back.
#[verifier::external_body]
fn gcm_encrypt(key: &[u8], nonce: &[u8], aad: Option<&[u8]>, msg: &[u8]) -> (r: Result<
    Vec<u8>,
    TuyaError,
>)
    requires
        key@.len() == 16,
        nonce@.len() == 12,
    ensures
        match r {
            Ok(ct) => ct@ == gcm_seal(key@, nonce@, aad_view(aad), msg@) && (forall|i: int|
                0 <= i < ct@.len() ==> ct@[i] == gcm_seal_byte(
                    key@,
                    nonce@,
                    aad_view(aad),
                    msg@,
                    i,
                )) && gcm_open(key@, nonce@, aad_view(aad), ct@) == Some(msg@) && msg@.len()
                <= 0xFFFFFFFE0u64 && aad_view(aad).len() <= 0x1FFFFFFFFFFFFFFFu64,
            Err(e) => (msg@.len() > 0xFFFFFFFE0u64 || aad_view(aad).len() > 0x1FFFFFFFFFFFFFFFu64)
                && e is EncryptionFailed,
        },
{
    let cipher = aes_gcm::Aes128Gcm::new_from_slice(key).expect("16-byte key");
    let nonce_arr = aes_gcm::Nonce::try_from(nonce).expect("12-byte nonce");
    let payload = Payload { msg, aad: aad.unwrap_or(&[]) };
    cipher.encrypt(&nonce_arr, payload).map_err(|_| TuyaError::EncryptionFailed)
}

/// Relies on `aes_gcm::Aes128Gcm` (`Aead::decrypt`): succeeds exactly when
/// the ciphertext-with-tag authenticates under the key, nonce and
/// associated data, and then returns the sealed plaintext.
#[verifier::external_body]
fn gcm_decrypt(key: &[u8], nonce: &[u8], aad: Option<&[u8]>, ct: &[u8]) -> (r: Result<
    Vec<u8>,
    TuyaError,
>)
    requires
        key@.len() == 16,
        nonce@.len() == 12,
    ensures
        match r {
            Ok(p) => gcm_open(key@, nonce@, aad_view(aad), ct@) == Some(p@) && ct@ == gcm_seal(
                key@,
                nonce@,
                aad_view(aad),
                p@,
            ),
            Err(e) => gcm_open(key@, nonce@, aad_view(aad), ct@) is None && e is DecryptionFailed,
        },
{
    let cipher = aes_gcm::Aes128Gcm::new_from_slice(key).expect("16-byte key");
    let nonce_arr = aes_gcm::Nonce::try_from(nonce).expect("12-byte nonce");
    let payload = Payload { msg: ct, aad: aad.unwrap_or(&[]) };
    cipher.decrypt(&nonce_arr, payload).map_err(|_| TuyaError::DecryptionFailed)
}

/// Relies on `base64::engine::general_purpose::STANDARD` (`encode`): the
/// padded standard-alphabet encoding, whose decoding gives the data back.
#[verifier::external_body]
fn b64_encode(data: &[u8]) -> (r: Vec<u8>)
    ensures
        r@ == b64_encode_of(data@),
        b64_decode_of(r@) == Some(data@),
{
    base64::engine::general_purpose::STANDARD.encode(data).into_bytes()
}

/// Relies on `base64::engine::general_purpose::STANDARD` (`decode`): accepts
/// exactly the canonical padded encodings and returns the encoded bytes.
#[verifier::external_body]
fn b64_decode(data: &[u8]) -> (r: Result<Vec<u8>, TuyaError>)
    ensures
        match r {
            Ok(p) => b64_decode_of(data@) == Some(p@) && data@ == b64_encode_of(p@),
            Err(e) => b64_decode_of(data@) is None && e is DecryptionFailed,
        },
{
    base64::engine::general_purpose::STANDARD.decode(data).map_err(|_| TuyaError::DecryptionFailed)
}

/// Relies on `rand::rng()` (`Rng::fill_bytes`): `n` bytes from the
/// thread-local generator; nothing is known of their values.
#[verifier::external_body]
pub fn random_bytes(n: usize) -> (r: Vec<u8>)
    ensures
        r@.len() == n,
{
    let mut buf = vec![0u8; n];
    rand::rng().fill_bytes(&mut buf);
    buf
}

/// The PKCS7 pad length for data of length `n`: always in 1..=16, and a
/// full block of 16 when the data is block-aligned.
pub open spec fn spec_pad_len(n: nat) -> nat {
    (16 - (n % 16)) as nat
}

/// Data with its PKCS7 padding: `spec_pad_len` bytes, each holding that
/// length.
pub open spec fn pkcs7_pad(d: Seq<u8>) -> Seq<u8> {
    d + Seq::new(spec_pad_len(d.len()), |i: int| spec_pad_len(d.len()) as u8)
}

/// Strip PKCS7 padding: the empty sequence passes through; otherwise the
/// last byte must name a pad length in 1..=16, not exceeding the data, and
/// every padding byte must equal it.
pub open spec fn pkcs7_unpad(p: Seq<u8>) -> Option<Seq<u8>> {
    if p.len() == 0 {
        Some(p)
    } else {
        let k = p[p.len() - 1] as int;
        if 1 <= k <= 16 && k <= p.len() && (forall|i: int|
            p.len() - k <= i < p.len() ==> #[trigger] p[i] == p[p.len() - 1]) {
            Some(p.take(p.len() - k))
        } else {
            None
        }
    }
}

/// Stripping the padding that `pkcs7_pad` added gives the data back.
pub proof fn lemma_pkcs7_roundtrip(d: Seq<u8>)
    ensures
        pkcs7_unpad(pkcs7_pad(d)) == Some(d),
{
    let p = pkcs7_pad(d);
    let k = spec_pad_len(d.len());
    assert(p.len() == d.len() + k);
    assert(p[p.len() - 1] == k as u8);
    assert(forall|i: int| p.len() - k <= i < p.len() ==> #[trigger] p[i] == p[p.len() - 1]);
    assert(p.take(p.len() - k as int) =~= d);
}

/// ECB composition of the AES-128 block encryption over whole blocks.
pub open spec fn ecb_enc_blocks(key: Seq<u8>, d: Seq<u8>) -> Seq<u8>
    decreases d.len(),
{
    if d.len() < 16 {
        Seq::empty()
    } else {
        aes128_enc(key, d.take(16)) + ecb_enc_blocks(key, d.skip(16))
    }
}

/// ECB composition of the AES-128 block decryption over whole blocks.
pub open spec fn ecb_dec_blocks(key: Seq<u8>, d: Seq<u8>) -> Seq<u8>
    decreases d.len(),
{
    if d.len() < 16 {
        Seq::empty()
    } else {
        aes128_dec(key, d.take(16)) + ecb_dec_blocks(key, d.skip(16))
    }
}

/// ECB encryption of block-aligned data keeps its length.
pub proof fn lemma_ecb_enc_len(key: Seq<u8>, d: Seq<u8>)
    requires
        d.len() % 16 == 0,
    ensures
        ecb_enc_blocks(key, d).len() == d.len(),
    decreases d.len(),
{
    if d.len() == 0 {
    } else {
        assert(d.skip(16).len() % 16 == 0);
        lemma_ecb_enc_len(key, d.skip(16));
    }
}

/// Appending one block to block-aligned data appends its encryption.
proof fn lemma_ecb_enc_append(key: Seq<u8>, s: Seq<u8>, b: Seq<u8>)
    requires
        s.len() % 16 == 0,
        b.len() == 16,
    ensures
        ecb_enc_blocks(key, s + b) == ecb_enc_blocks(key, s) + aes128_enc(key, b),
    decreases s.len(),
{
    if s.len() == 0 {
        assert(s + b =~= b);
        assert(b.take(16) =~= b);
        assert(b.skip(16) =~= Seq::<u8>::empty());
        assert(ecb_enc_blocks(key, b.skip(16)) =~= Seq::<u8>::empty());
        assert(ecb_enc_blocks(key, s + b) =~= aes128_enc(key, b));
        assert(ecb_enc_blocks(key, s) + aes128_enc(key, b) =~= aes128_enc(key, b));
    } else {
        assert((s + b).take(16) =~= s.take(16));
        assert((s + b).skip(16) =~= s.skip(16) + b);
        lemma_ecb_enc_append(key, s.skip(16), b);
        assert(ecb_enc_blocks(key, s + b) =~= ecb_enc_blocks(key, s) + aes128_enc(key, b));
    }
}

/// Appending one block to block-aligned data appends its decryption.
proof fn lemma_ecb_dec_append(key: Seq<u8>, s: Seq<u8>, b: Seq<u8>)
    requires
        s.len() % 16 == 0,
        b.len() == 16,
    ensures
        ecb_dec_blocks(key, s + b) == ecb_dec_blocks(key, s) + aes128_dec(key, b),
    decreases s.len(),
{
    if s.len() == 0 {
        assert(s + b =~= b);
        assert(b.take(16) =~= b);
        assert(b.skip(16) =~= Seq::<u8>::empty());
        assert(ecb_dec_blocks(key, b.skip(16)) =~= Seq::<u8>::empty());
        assert(ecb_dec_blocks(key, s + b) =~= aes128_dec(key, b));
        assert(ecb_dec_blocks(key, s) + aes128_dec(key, b) =~= aes128_dec(key, b));
    } else {
        assert((s + b).take(16) =~= s.take(16));
        assert((s + b).skip(16) =~= s.skip(16) + b);
        lemma_ecb_dec_append(key, s.skip(16), b);
        assert(ecb_dec_blocks(key, s + b) =~= ecb_dec_blocks(key, s) + aes128_dec(key, b));
    }
}

/// Encrypt block-aligned data in ECB mode, block by block. The result
/// decrypts back to the input.
fn ecb_encrypt_data(key: &[u8], data: &[u8]) -> (r: Vec<u8>)
    requires
        key@.len() == 16,
        data@.len() % 16 == 0,
    ensures
        r@ == ecb_enc_blocks(key@, data@),
        ecb_dec_blocks(key@, r@) == data@,
        r@.len() == data@.len(),
{
    let len: usize = data.len();
    let mut out: Vec<u8> = Vec::new();
    let mut i: usize = 0;
    while i < len
        invariant
            len == data@.len(),
            key@.len() == 16,
            len % 16 == 0,
            i % 16 == 0,
            i <= len,
            out@ == ecb_enc_blocks(key@, data@.take(i as int)),
            ecb_dec_blocks(key@, out@) == data@.take(i as int),
            out@.len() == i,
        decreases len - i,
    {
        let eb = aes_encrypt_block(key, &data[i..i + 16]);
        let ghost prev = out@;
        crate::encoding::append_bytes(&mut out, eb.as_slice());
        i = i + 16;
        proof {
            lemma_ecb_enc_append(key@, data@.take(i - 16), data@.subrange(i - 16, i as int));
            lemma_ecb_dec_append(key@, prev, eb@);
            assert(data@.take(i as int) =~= data@.take(i - 16) + data@.subrange(i - 16, i as int));
        }
    }
    proof {
        assert(data@.take(len as int) =~= data@);
    }
    out
}

/// Decrypt block-aligned data in ECB mode, block by block.
fn ecb_decrypt_data(key: &[u8], data: &[u8]) -> (r: Vec<u8>)
    requires
        key@.len() == 16,
        data@.len() % 16 == 0,
    ensures
        r@ == ecb_dec_blocks(key@, data@),
        r@.len() == data@.len(),
{
    let len: usize = data.len();
    let mut out: Vec<u8> = Vec::new();
    let mut i: usize = 0;
    while i < len
        invariant
            len == data@.len(),
            key@.len() == 16,
            len % 16 == 0,
            i % 16 == 0,
            i <= len,
            out@ == ecb_dec_blocks(key@, data@.take(i as int)),
            out@.len() == i,
        decreases len - i,
    {
        let db = aes_decrypt_block(key, &data[i..i + 16]);
        crate::encoding::append_bytes(&mut out, db.as_slice());
        i = i + 16;
        proof {
            lemma_ecb_dec_append(key@, data@.take(i - 16), data@.subrange(i - 16, i as int));
            assert(data@.take(i as int) =~= data@.take(i - 16) + data@.subrange(i - 16, i as int));
        }
    }
    proof {
        assert(data@.take(len as int) =~= data@);
    }
    out
}

/// AES-128 encryption and decryption over a fixed 16-byte key, in ECB mode
/// (no IV) or GCM mode (with IV).
pub struct TuyaCipher {
    key: Vec<u8>,
}

impl TuyaCipher {
    /// The cipher holds a 16-byte key.
    pub closed spec fn wf(&self) -> bool {
        self.key@.len() == 16
    }

    /// The key this cipher was built over.
    pub closed spec fn spec_key(&self) -> Seq<u8> {
        self.key@
    }

    /// Build a cipher over a key, which must be 16 bytes.
    pub fn new(key: &[u8]) -> (r: Result<TuyaCipher, TuyaError>)
        ensures
            match r {
                Ok(c) => key@.len() == 16 && c.wf() && c.spec_key() == key@,
                Err(e) => key@.len() != 16 && e is EncryptionFailed,
            },
    {
        if key.len() != 16 {
            return Err(TuyaError::EncryptionFailed);
        }
        Ok(TuyaCipher { key: vstd::slice::slice_to_vec(key) })
    }

    /// Encrypt `data`.
    ///
    /// With an IV the mode is GCM: the result is `IV ‖ ciphertext ‖ tag`,
    /// sealed under the first 12 bytes of the IV, with `header` as
    /// associated data. Without an IV the mode is ECB: with `padding` the
    /// data is PKCS7-padded first, otherwise its length must already be a
    /// multiple of 16. With `use_base64` the result is base64-encoded last.
    pub fn encrypt(
        &self,
        data: &[u8],
        use_base64: bool,
        iv: Option<&[u8]>,
        header: Option<&[u8]>,
        padding: bool,
    ) -> (r: Result<Vec<u8>, TuyaError>)
        requires
            self.wf(),
            iv matches Some(v) ==> v@.len() >= 12 && v@.len() + data@.len() + 16 <= usize::MAX,
            data@.len() + 16 < usize::MAX,
        ensures
            self.spec_encrypt_ok(data@, iv, header, padding) matches Some(enc) ==> (r matches Ok(v)
                && v@ == (if use_base64 {
                b64_encode_of(enc)
            } else {
                enc
            })),
            self.spec_encrypt_ok(data@, iv, header, padding) is None ==> (r matches Err(e)
                && e is EncryptionFailed),
            r matches Ok(v) ==> ((iv is None && padding) ==> self.spec_decrypt(
                v@,
                use_base64,
                None,
                None,
            ) == Some(data@)),
            r matches Ok(v) ==> (iv matches Some(ivb) ==> (!use_base64 ==> self.spec_decrypt(
                v@.skip(ivb@.len() as int),
                false,
                iv,
                header,
            ) == Some(data@))),
    {
        let encrypted: Vec<u8> = match iv {
            Some(iv_bytes) => {
                let nonce = &iv_bytes[0..12];
                let ct = gcm_encrypt(self.key.as_slice(), nonce, header, data)?;
                let mut result = vstd::slice::slice_to_vec(iv_bytes);
                crate::encoding::append_bytes(&mut result, ct.as_slice());
                proof {
                    assert(nonce@ =~= iv_bytes@.take(12));
                    assert(result@.skip(iv_bytes@.len() as int) =~= ct@);
                }
                result
            },
            None => {
                if padding {
                    let padded = pkcs7_pad_data(data);
                    proof {
                        lemma_pkcs7_roundtrip(data@);
                    }
                    ecb_encrypt_data(self.key.as_slice(), padded.as_slice())
                } else {
                    if data.len() % 16 != 0 {
                        return Err(TuyaError::EncryptionFailed);
                    }
                    ecb_encrypt_data(self.key.as_slice(), data)
                }
            },
        };
        if use_base64 {
            Ok(b64_encode(encrypted.as_slice()))
        } else {
            Ok(encrypted)
        }
    }

    /// What a successful `encrypt` returns, before the base64 layer:
    /// `None` where encryption is refused.
    pub open spec fn spec_encrypt_ok(
        &self,
        data: Seq<u8>,
        iv: Option<&[u8]>,
        header: Option<&[u8]>,
        padding: bool,
    ) -> Option<Seq<u8>> {
        match iv {
            Some(v) => {
                if data.len() > 0xFFFFFFFE0u64 || aad_view(header).len() > 0x1FFFFFFFFFFFFFFFu64 {
                    None
                } else {
                    Some(v@ + gcm_seal(self.spec_key(), v@.take(12), aad_view(header), data))
                }
            },
            None => {
                if padding {
                    Some(spec_ecb_encrypt_padded(self.spec_key(), data))
                } else if data.len() % 16 == 0 {
                    Some(ecb_enc_blocks(self.spec_key(), data))
                } else {
                    None
                }
            },
        }
    }

    /// Decrypt `data`.
    ///
    /// With `use_base64` the input is base64-decoded first. With an IV the
    /// mode is GCM over ciphertext-with-tag (the caller strips the IV
    /// beforehand); without one the mode is ECB, requiring block-aligned
    /// input and valid PKCS7 padding.
    pub fn decrypt(
        &self,
        data: &[u8],
        use_base64: bool,
        iv: Option<&[u8]>,
        header: Option<&[u8]>,
    ) -> (r: Result<Vec<u8>, TuyaError>)
        requires
            self.wf(),
            iv matches Some(v) ==> v@.len() >= 12,
        ensures
            match r {
                Ok(p) => self.spec_decrypt(data@, use_base64, iv, header) == Some(p@),
                Err(e) => self.spec_decrypt(data@, use_base64, iv, header) is None
                    && e is DecryptionFailed,
            },
    {
        let input: Vec<u8> = if use_base64 {
            b64_decode(data)?
        } else {
            vstd::slice::slice_to_vec(data)
        };
        match iv {
            Some(iv_bytes) => {
                let nonce = &iv_bytes[0..12];
                proof {
                    assert(nonce@ =~= iv_bytes@.take(12));
                }
                gcm_decrypt(self.key.as_slice(), nonce, header, input.as_slice())
            },
            None => {
                if input.len() % 16 != 0 {
                    return Err(TuyaError::DecryptionFailed);
                }
                let plain = ecb_decrypt_data(self.key.as_slice(), input.as_slice());
                pkcs7_unpad_data(plain)
            },
        }
    }

    /// What `decrypt` returns: `None` where decryption is refused.
    pub open spec fn spec_decrypt(
        &self,
        data: Seq<u8>,
        use_base64: bool,
        iv: Option<&[u8]>,
        header: Option<&[u8]>,
    ) -> Option<Seq<u8>> {
        let input = if use_base64 {
            b64_decode_of(data)
        } else {
            Some(data)
        };
        match input {
            None => None,
            Some(inp) => match iv {
                Some(v) => gcm_open(self.spec_key(), v@.take(12), aad_view(header), inp),
                None => {
                    if inp.len() % 16 != 0 {
                        None
                    } else {
                        pkcs7_unpad(ecb_dec_blocks(self.spec_key(), inp))
                    }
                },
            },
        }
    }
}

/// The ECB decryption of block-aligned data followed by PKCS7 unpadding:
/// `None` where the length or the padding is invalid.
pub open spec fn spec_ecb_decrypt(key: Seq<u8>, data: Seq<u8>) -> Option<Seq<u8>> {
    if data.len() % 16 != 0 {
        None
    } else {
        pkcs7_unpad(ecb_dec_blocks(key, data))
    }
}

/// The ECB encryption of PKCS7-padded data.
pub open spec fn spec_ecb_encrypt_padded(key: Seq<u8>, data: Seq<u8>) -> Seq<u8> {
    ecb_enc_blocks(key, pkcs7_pad(data))
}

/// Append PKCS7 padding to a copy of the data.
fn pkcs7_pad_data(data: &[u8]) -> (r: Vec<u8>)
    requires
        data@.len() + 16 < usize::MAX,
    ensures
        r@ == pkcs7_pad(data@),
        r@.len() % 16 == 0,
{
    let mut out = vstd::slice::slice_to_vec(data);
    let pad: u8 = 16 - ((data.len() % 16) as u8);
    let mut i: u8 = 0;
    while i < pad
        invariant
            pad == spec_pad_len(data@.len()),
            i <= pad,
            out@ == data@ + Seq::new(i as nat, |j: int| pad),
        decreases pad - i,
    {
        out.push(pad);
        i = i + 1;
        proof {
            assert(out@ =~= data@ + Seq::new(i as nat, |j: int| pad));
        }
    }
    proof {
        assert(out@ =~= pkcs7_pad(data@));
    }
    out
}

/// Validate and strip PKCS7 padding, as `pkcs7_unpad` describes.
fn pkcs7_unpad_data(data: Vec<u8>) -> (r: Result<Vec<u8>, TuyaError>)
    ensures
        match r {
            Ok(p) => pkcs7_unpad(data@) == Some(p@),
            Err(e) => pkcs7_unpad(data@) is None && e is DecryptionFailed,
        },
{
    let len = data.len();
    if len == 0 {
        return Ok(data);
    }
    let pad = data[len - 1];
    let pad_us = pad as usize;
    if pad_us == 0 || pad_us > 16 || pad_us > len {
        return Err(TuyaError::DecryptionFailed);
    }
    let mut i: usize = 0;
    while i < pad_us
        invariant
            len == data@.len(),
            0 < pad_us <= 16,
            pad_us <= len,
            pad == data@[len - 1],
            pad_us == pad as int,
            i <= pad_us,
            forall|j: int| len - i <= j < len ==> data@[j] == pad,
        decreases pad_us - i,
    {
        if data[len - 1 - i] != pad {
            return Err(TuyaError::DecryptionFailed);
        }
        i = i + 1;
    }
    let out = vstd::slice::slice_to_vec(&data.as_slice()[0..len - pad_us]);
    proof {
        assert(out@ =~= data@.take(len - pad_us as int));
    }
    Ok(out)
}

} // verus!
