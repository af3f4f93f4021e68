use vstd::prelude::*;
use vstd::string::StringSliceAdditionalSpecFns;
use crate::crypto::{CIPHER_INPUT_MAX, aes128_cbc_decrypt_of, aes128_cbc_encrypt_of, aes_decrypt, aes_encrypt, random_iv, sha256, sha256_of};

verus! {

/// Why a frame could not be built or opened.
#[derive(Debug, Clone, Copy, PartialEq, Eq, Structural)]
pub enum FrameError {
    /// The data does not fit the 32-bit length field or the cipher.
    TooLong,
    /// The length field disagrees with the bytes that follow it.
    BadLength,
    /// The session key is not sixteen bytes long.
    BadKey,
    /// The cipher rejected the data, or the random source failed.
    Crypto,
}

/// Bytes of the random IV that opens every frame.
pub const IV_LEN: usize = 16;
/// Bytes of the session key.
pub const KEY_LEN: usize = 16;
/// Bytes of the RSA block that carries the session key.
pub const KEY_BLOCK_LEN: usize = 256;

/// The serialized payload followed by 1 to 16 zero bytes, up to the next multiple
/// of 16 (a full block of zeros when already aligned).
pub open spec fn padded(data: Seq<u8>) -> Seq<u8> {
    data + Seq::new((16 - data.len() % 16) as nat, |i: int| 0u8)
}

/// The four big-endian bytes of `n`.
pub open spec fn be32(n: u32) -> Seq<u8> {
    seq![(n >> 24u32) as u8, (n >> 16u32) as u8, (n >> 8u32) as u8, n as u8]
}

/// The number that four big-endian bytes encode.
pub open spec fn from_be32(b: Seq<u8>) -> u32
    recommends
        b.len() == 4,
{
    ((b[0] as u32) << 24u32) | ((b[1] as u32) << 16u32) | ((b[2] as u32) << 8u32) | (b[3] as u32)
}

/// A frame on the wire: IV, big-endian ciphertext length, ciphertext.
pub open spec fn frame(iv: Seq<u8>, ciphertext: Seq<u8>) -> Seq<u8> {
    iv + be32(ciphertext.len() as u32) + ciphertext
}

/// Pads a serialized payload with zeros to a whole number of 16-byte blocks.
pub fn pad_plaintext(data: &mut Vec<u8>)
    requires
        old(data).len() + 16 <= usize::MAX,
    ensures
        final(data)@ == padded(old(data)@),
        final(data)@.len() % 16 == 0,
{
    let padding: usize = 16 - data.len() % 16;
    let ghost start = data@;
    let mut i: usize = 0;
    while i < padding
        invariant
            padding == 16 - start.len() % 16,
            i <= padding,
            data@ == start + Seq::new(i as nat, |k: int| 0u8),
        decreases padding - i,
    {
        data.push(0u8);
        i = i + 1;
        proof {
            assert(data@ =~= start + Seq::new(i as nat, |k: int| 0u8));
        }
    }
}

/// Writes `n` as four big-endian bytes.
pub fn to_be32(n: u32) -> (r: [u8; 4])
    ensures
        r@ == be32(n),
{
    let r = [(n >> 24u32) as u8, (n >> 16u32) as u8, (n >> 8u32) as u8, n as u8];
    proof {
        assert(r@ =~= be32(n));
    }
    r
}

/// Reads four big-endian bytes as a length.
pub fn frame_length(b: &[u8; 4]) -> (r: u32)
    ensures
        r == from_be32(b@),
{
    ((b[0] as u32) << 24u32) | ((b[1] as u32) << 16u32) | ((b[2] as u32) << 8u32) | (b[3] as u32)
}

/// Reading back the four bytes written for a length gives that length.
pub proof fn lemma_be32_round_trip(n: u32)
    ensures
        from_be32(be32(n)) == n,
{
    let b = be32(n);
    let b0 = (n >> 24u32) as u8;
    let b1 = (n >> 16u32) as u8;
    let b2 = (n >> 8u32) as u8;
    let b3 = n as u8;
    assert(b[0] == b0 && b[1] == b1 && b[2] == b2 && b[3] == b3);
    assert(((b0 as u32) << 24u32) | ((b1 as u32) << 16u32) | ((b2 as u32) << 8u32) | (b3 as u32) == n)
        by (bit_vector)
        requires
            b0 == (n >> 24u32) as u8,
            b1 == (n >> 16u32) as u8,
            b2 == (n >> 8u32) as u8,
            b3 == n as u8,
    ;
}

/// Lays out a frame from its IV and ciphertext; `None` when the ciphertext is too
/// long for the length field.
pub fn encode_frame(iv: &[u8; 16], ciphertext: &Vec<u8>) -> (r: Option<Vec<u8>>)
    ensures
        match r {
            Some(v) => ciphertext.len() <= u32::MAX && v@ == frame(iv@, ciphertext@),
            None => ciphertext.len() > u32::MAX,
        },
{
    if ciphertext.len() > 0xffff_ffffusize {
        return None;
    }
    let len = to_be32(ciphertext.len() as u32);
    let mut out: Vec<u8> = Vec::new();
    let mut i: usize = 0;
    while i < 16
        invariant
            i <= 16,
            out@ == iv@.subrange(0, i as int),
        decreases 16 - i,
    {
        out.push(iv[i]);
        i = i + 1;
        proof { assert(out@ =~= iv@.subrange(0, i as int)); }
    }
    let mut j: usize = 0;
    while j < 4
        invariant
            j <= 4,
            out@ == iv@ + len@.subrange(0, j as int),
        decreases 4 - j,
    {
        out.push(len[j]);
        j = j + 1;
        proof { assert(out@ =~= iv@ + len@.subrange(0, j as int)); }
    }
    let mut k: usize = 0;
    while k < ciphertext.len()
        invariant
            k <= ciphertext.len(),
            out@ == iv@ + len@ + ciphertext@.subrange(0, k as int),
        decreases ciphertext.len() - k,
    {
        out.push(ciphertext[k]);
        k = k + 1;
        proof { assert(out@ =~= iv@ + len@ + ciphertext@.subrange(0, k as int)); }
    }
    proof {
        assert(ciphertext@.subrange(0, ciphertext.len() as int) =~= ciphertext@);
        assert(len@.subrange(0, 4) =~= len@);
        assert(iv@.subrange(0, 16) =~= iv@);
    }
    Some(out)
}

/// Splits a whole frame into its IV and ciphertext, checking the length field.
pub fn split_frame(bytes: &Vec<u8>) -> (r: Result<([u8; 16], Vec<u8>), FrameError>)
    ensures
        match r {
            Ok((iv, ct)) => bytes@ == iv@ + be32(ct.len() as u32) + ct@ && ct.len() <= u32::MAX,
            Err(e) => e == FrameError::BadLength && !(exists|iv: Seq<u8>, ct: Seq<u8>|
                iv.len() == 16 && ct.len() <= u32::MAX && bytes@ == #[trigger] frame(iv, ct)),
        },
{
    if bytes.len() < 20 {
        proof {
            assert forall|iv: Seq<u8>, ct: Seq<u8>| iv.len() == 16 && ct.len() <= u32::MAX implies bytes@ != #[trigger] frame(iv, ct) by {
                assert(frame(iv, ct).len() >= 20);
            }
        }
        return Err(FrameError::BadLength);
    }
    let mut iv = [0u8; 16];
    let mut i: usize = 0;
    while i < 16
        invariant
            i <= 16,
            bytes.len() >= 20,
            iv@.len() == 16,
            forall|k: int| 0 <= k < i ==> iv@[k] == bytes@[k],
        decreases 16 - i,
    {
        iv[i] = bytes[i];
        i = i + 1;
    }
    let header = [bytes[16], bytes[17], bytes[18], bytes[19]];
    let len = frame_length(&header);
    if len as usize != bytes.len() - 20 {
        proof {
            assert forall|iv2: Seq<u8>, ct: Seq<u8>| iv2.len() == 16 && ct.len() <= u32::MAX implies bytes@ != #[trigger] frame(iv2, ct) by {
                if bytes@ == frame(iv2, ct) {
                    let f = frame(iv2, ct);
                    assert(f.subrange(16, 20) =~= be32(ct.len() as u32));
                    assert(header@ =~= bytes@.subrange(16, 20));
                    lemma_be32_round_trip(ct.len() as u32);
                }
            }
        }
        return Err(FrameError::BadLength);
    }
    let mut ct: Vec<u8> = Vec::new();
    let mut k: usize = 20;
    while k < bytes.len()
        invariant
            20 <= k <= bytes.len(),
            ct@ == bytes@.subrange(20, k as int),
        decreases bytes.len() - k,
    {
        ct.push(bytes[k]);
        k = k + 1;
        proof { assert(ct@ =~= bytes@.subrange(20, k as int)); }
    }
    proof {
        assert(header@ =~= bytes@.subrange(16, 20));
        assert(ct.len() == len);
        lemma_be32_round_trip(len);
        assert(header@ =~= be32(len)) by {
            let h0 = header@[0];
            let h1 = header@[1];
            let h2 = header@[2];
            let h3 = header@[3];
            assert(((((h0 as u32) << 24u32) | ((h1 as u32) << 16u32) | ((h2 as u32) << 8u32) | (h3 as u32)) >> 24u32) as u8 == h0
                && ((((h0 as u32) << 24u32) | ((h1 as u32) << 16u32) | ((h2 as u32) << 8u32) | (h3 as u32)) >> 16u32) as u8 == h1
                && ((((h0 as u32) << 24u32) | ((h1 as u32) << 16u32) | ((h2 as u32) << 8u32) | (h3 as u32)) >> 8u32) as u8 == h2
                && (((h0 as u32) << 24u32) | ((h1 as u32) << 16u32) | ((h2 as u32) << 8u32) | (h3 as u32)) as u8 == h3)
                by (bit_vector);
        }
        assert(bytes@ =~= iv@ + be32(ct.len() as u32) + ct@);
    }
    Ok((iv, ct))
}

/// A frame determines its IV and ciphertext: splitting a frame that was laid out
/// from an IV and a ciphertext gives exactly those back.
pub proof fn lemma_frame_round_trip(iv: Seq<u8>, ct: Seq<u8>, iv2: Seq<u8>, ct2: Seq<u8>)
    requires
        iv.len() == 16,
        iv2.len() == 16,
        frame(iv, ct) == iv2 + be32(ct2.len() as u32) + ct2,
    ensures
        iv2 == iv,
        ct2 == ct,
{
    let f = frame(iv, ct);
    assert(f.subrange(0, 16) =~= iv);
    assert((iv2 + be32(ct2.len() as u32) + ct2).subrange(0, 16) =~= iv2);
    assert(f.len() == 20 + ct.len());
    assert(f.subrange(20, f.len() as int) =~= ct);
    assert((iv2 + be32(ct2.len() as u32) + ct2).subrange(20, f.len() as int) =~= ct2);
}

/// How sealing a payload under `key` and `iv` ends: the frame, or why there is none.
pub open spec fn sealed(key: Seq<u8>, iv: Seq<u8>, payload: Seq<u8>) -> Result<Seq<u8>, FrameError> {
    if key.len() != 16 {
        Err(FrameError::BadKey)
    } else if padded(payload).len() > CIPHER_INPUT_MAX {
        Err(FrameError::TooLong)
    } else if aes128_cbc_encrypt_of(key, iv, padded(payload)).len() > u32::MAX {
        Err(FrameError::TooLong)
    } else {
        Ok(frame(iv, aes128_cbc_encrypt_of(key, iv, padded(payload))))
    }
}

/// Pads a serialized payload and encrypts it under the session key and `iv`, laying
/// out the frame that carries it.
pub fn seal_frame(key: &[u8], iv: &[u8; 16], payload: &Vec<u8>) -> (r: Result<Vec<u8>, FrameError>)
    ensures
        match sealed(key@, iv@, payload@) {
            Ok(f) => r matches Ok(v) && v@ == f,
            Err(e) => r == Err::<Vec<u8>, FrameError>(e),
        },
{
    if key.len() != 16 {
        return Err(FrameError::BadKey);
    }
    if payload.len() > CIPHER_INPUT_MAX - 16 {
        return Err(FrameError::TooLong);
    }
    let mut data = payload.clone();
    pad_plaintext(&mut data);
    match aes_encrypt(key, iv.as_slice(), data.as_slice()) {
        None => Err(FrameError::Crypto),
        Some(ct) => match encode_frame(iv, &ct) {
            Some(v) => Ok(v),
            None => Err(FrameError::TooLong),
        },
    }
}

/// Seals a payload under a freshly drawn random IV. Only the random source can make
/// it fail where `seal_frame` would succeed.
pub fn seal_frame_fresh(key: &[u8], payload: &Vec<u8>) -> (r: Result<Vec<u8>, FrameError>)
    ensures
        key@.len() != 16 ==> r == Err::<Vec<u8>, FrameError>(FrameError::BadKey),
        r matches Ok(v) ==> exists|iv: Seq<u8>| iv.len() == 16 && #[trigger] sealed(key@, iv, payload@) == Ok::<Seq<u8>, FrameError>(v@),
        r matches Err(e) ==> e == FrameError::Crypto
            || exists|iv: Seq<u8>| iv.len() == 16 && #[trigger] sealed(key@, iv, payload@) == Err::<Seq<u8>, FrameError>(e),
{
    if key.len() != 16 {
        proof {
            let zero = Seq::new(16, |i: int| 0u8);
            assert(sealed(key@, zero, payload@) == Err::<Seq<u8>, FrameError>(FrameError::BadKey));
        }
        return Err(FrameError::BadKey);
    }
    match random_iv() {
        None => Err(FrameError::Crypto),
        Some(iv) => {
            let r = seal_frame(key, &iv, payload);
            proof {
                assert(iv@.len() == 16);
            }
            r
        },
    }
}

/// How opening a frame's ciphertext ends: the decrypted bytes, or why there are none.
pub open spec fn opened(key: Seq<u8>, iv: Seq<u8>, ciphertext: Seq<u8>) -> Result<Seq<u8>, FrameError> {
    if key.len() != 16 {
        Err(FrameError::BadKey)
    } else if ciphertext.len() > CIPHER_INPUT_MAX {
        Err(FrameError::TooLong)
    } else {
        match aes128_cbc_decrypt_of(key, iv, ciphertext) {
            Some(p) => Ok(p),
            None => Err(FrameError::Crypto),
        }
    }
}

/// Decrypts the ciphertext of a frame under the session key; the serialized payload
/// follows, with its zero padding still attached.
pub fn open_frame(key: &[u8], iv: &[u8; 16], ciphertext: &Vec<u8>) -> (r: Result<Vec<u8>, FrameError>)
    ensures
        match opened(key@, iv@, ciphertext@) {
            Ok(p) => r matches Ok(v) && v@ == p,
            Err(e) => r == Err::<Vec<u8>, FrameError>(e),
        },
{
    if key.len() != 16 {
        return Err(FrameError::BadKey);
    }
    if ciphertext.len() > CIPHER_INPUT_MAX {
        return Err(FrameError::TooLong);
    }
    match aes_decrypt(key, iv.as_slice(), ciphertext.as_slice()) {
        Some(v) => Ok(v),
        None => Err(FrameError::Crypto),
    }
}

/// A serialized payload preceded by its own big-endian length.
pub open spec fn size_prefixed(payload: Seq<u8>) -> Seq<u8> {
    be32(payload.len() as u32) + payload
}

/// Puts the length of a serialized payload in front of it, so that the receiver
/// finds its end whatever padding follows; `None` when it is too long for the field.
pub fn prefix_payload(payload: &Vec<u8>) -> (r: Option<Vec<u8>>)
    ensures
        match r {
            Some(v) => payload.len() <= u32::MAX && v@ == size_prefixed(payload@),
            None => payload.len() > u32::MAX,
        },
{
    if payload.len() > 0xffff_ffffusize {
        return None;
    }
    let len = to_be32(payload.len() as u32);
    let mut out: Vec<u8> = Vec::new();
    let mut j: usize = 0;
    while j < 4
        invariant
            j <= 4,
            out@ == len@.subrange(0, j as int),
        decreases 4 - j,
    {
        out.push(len[j]);
        j = j + 1;
        proof { assert(out@ =~= len@.subrange(0, j as int)); }
    }
    let mut k: usize = 0;
    while k < payload.len()
        invariant
            k <= payload.len(),
            out@ == len@ + payload@.subrange(0, k as int),
        decreases payload.len() - k,
    {
        out.push(payload[k]);
        k = k + 1;
        proof { assert(out@ =~= len@ + payload@.subrange(0, k as int)); }
    }
    proof {
        assert(len@.subrange(0, 4) =~= len@);
        assert(payload@.subrange(0, payload.len() as int) =~= payload@);
    }
    Some(out)
}

/// Recovers a size-prefixed payload from decrypted bytes, ignoring what follows it;
/// `None` when the bytes are shorter than the length they announce.
pub fn unprefix_payload(bytes: &Vec<u8>) -> (r: Option<Vec<u8>>)
    ensures
        match r {
            Some(v) => bytes.len() >= 4 && v@ == bytes@.subrange(4, 4 + from_be32(bytes@.subrange(0, 4)) as int),
            None => bytes.len() < 4 || bytes.len() - 4 < from_be32(bytes@.subrange(0, 4)),
        },
{
    if bytes.len() < 4 {
        return None;
    }
    let header = [bytes[0], bytes[1], bytes[2], bytes[3]];
    proof { assert(header@ =~= bytes@.subrange(0, 4)); }
    let len = frame_length(&header);
    if (len as usize) > bytes.len() - 4 {
        return None;
    }
    let end: usize = 4 + len as usize;
    let mut out: Vec<u8> = Vec::new();
    let mut k: usize = 4;
    while k < end
        invariant
            4 <= k <= end,
            end <= bytes.len(),
            out@ == bytes@.subrange(4, k as int),
        decreases end - k,
    {
        out.push(bytes[k]);
        k = k + 1;
        proof { assert(out@ =~= bytes@.subrange(4, k as int)); }
    }
    Some(out)
}

/// The size prefix finds the payload again after any zero padding: padding a
/// size-prefixed payload and stripping it gives the payload back.
pub proof fn lemma_size_prefix_survives_padding(payload: Seq<u8>)
    requires
        payload.len() <= u32::MAX,
    ensures
        padded(size_prefixed(payload)).subrange(0, 4) == be32(payload.len() as u32),
        from_be32(padded(size_prefixed(payload)).subrange(0, 4)) == payload.len(),
        padded(size_prefixed(payload)).subrange(4, 4 + payload.len() as int) == payload,
{
    let p = padded(size_prefixed(payload));
    assert(p.subrange(0, 4) =~= be32(payload.len() as u32));
    lemma_be32_round_trip(payload.len() as u32);
    assert(p.subrange(4, 4 + payload.len() as int) =~= payload);
}

/// The session key: the first sixteen bytes of the decrypted key block.
pub fn session_key(block: &Vec<u8>) -> (r: Option<[u8; 16]>)
    ensures
        match r {
            Some(k) => block.len() >= 16 && k@ == block@.subrange(0, 16),
            None => block.len() < 16,
        },
{
    if block.len() < 16 {
        return None;
    }
    let mut key = [0u8; 16];
    let mut i: usize = 0;
    while i < 16
        invariant
            i <= 16,
            block.len() >= 16,
            key@.len() == 16,
            forall|k: int| 0 <= k < i ==> key@[k] == block@[k],
        decreases 16 - i,
    {
        key[i] = block[i];
        i = i + 1;
    }
    proof { assert(key@ =~= block@.subrange(0, 16)); }
    Some(key)
}

/// The SHA-256 digest of a password, as sent at login.
pub fn hash_pw(pw: &str) -> (r: [u8; 32])
    ensures
        r@ == sha256_of(pw.spec_bytes()),
{
    sha256(pw.as_bytes())
}

} // verus!
