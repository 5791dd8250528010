//! The container codec: framing a sealed message into a byte stream, and
//! validating and opening such a stream again.

use vstd::prelude::*;
use crate::aead::{cipher_binds_tag, cipher_inverts, open, opened_bytes, seal, sealed_bytes};
use crate::error::CodecError;
use crate::format::{
    declared_ad_len, declared_ct_len, parsed, prefix_bytes, put_u16, put_u32, CipherSuite,
    Container, HEADER_LEN, KEY_LEN, LUAUCX_VERSION, MAGIC, NONCE_LEN, TAG_LEN,
};
use crate::reader::{read_bytes, read_u16, read_u32, read_u8};

verus! {

/// The fields of a validated container, borrowed from the buffer they were
/// found in.
#[derive(Clone, Copy, Debug)]
pub struct Fields<'a> {
    pub key_id: u16,
    pub nonce: &'a [u8],
    pub tag: &'a [u8],
    pub ciphertext: &'a [u8],
    pub ad: &'a [u8],
}

impl<'a> View for Fields<'a> {
    type V = Container;

    open spec fn view(&self) -> Container {
        Container {
            key_id: self.key_id,
            nonce: self.nonce@,
            tag: self.tag@,
            ciphertext: self.ciphertext@,
            ad: self.ad@,
        }
    }
}

/// Whether two byte strings hold the same bytes.
pub fn bytes_equal(a: &[u8], b: &[u8]) -> (same: bool)
    ensures
        same <==> a@ == b@,
{
    if a.len() != b.len() {
        return false;
    }
    let mut i: usize = 0;
    while i < a.len()
        invariant
            a@.len() == b@.len(),
            i <= a@.len(),
            a@.subrange(0, i as int) == b@.subrange(0, i as int),
        decreases a@.len() - i,
    {
        if a[i] != b[i] {
            return false;
        }
        i += 1;
        assert(a@.subrange(0, i as int) == a@.subrange(0, i - 1).push(a@[i - 1]));
        assert(b@.subrange(0, i as int) == b@.subrange(0, i - 1).push(b@[i - 1]));
    }
    assert(a@ == a@.subrange(0, i as int));
    assert(b@ == b@.subrange(0, i as int));
    true
}

/// Frames a sealed message: appends to `out_buf` the container that carries
/// `key_id`, `nonce`, the ciphertext and tag taken from `sealed`, and `ad`.
///
/// Returns the number of bytes appended. Nothing is appended on failure:
/// `TruncatedInput` where `sealed` is too short to end in a tag,
/// `PayloadTooLarge` where a length does not fit its 32-bit field.
pub fn write_container(
    key_id: u16,
    nonce: &[u8; NONCE_LEN],
    sealed: &[u8],
    ad: &[u8],
    out_buf: &mut Vec<u8>,
) -> (r: Result<usize, CodecError>)
    ensures
        match r {
            Ok(n) => {
                &&& sealed@.len() >= TAG_LEN
                &&& sealed@.len() - TAG_LEN <= u32::MAX
                &&& ad@.len() <= u32::MAX
                &&& final(out_buf)@ == old(out_buf)@ + Container::framing(
                    key_id,
                    nonce@,
                    sealed@,
                    ad@,
                ).to_bytes()
                &&& n == HEADER_LEN + (sealed@.len() - TAG_LEN) + ad@.len()
            },
            Err(e) => {
                &&& final(out_buf)@ == old(out_buf)@
                &&& if sealed@.len() < TAG_LEN {
                    e == CodecError::TruncatedInput
                } else {
                    &&& e == CodecError::PayloadTooLarge
                    &&& (sealed@.len() - TAG_LEN > u32::MAX || ad@.len() > u32::MAX)
                }
            },
        },
{
    if sealed.len() < TAG_LEN {
        return Err(CodecError::TruncatedInput);
    }
    let ct_len: usize = sealed.len() - TAG_LEN;
    if ct_len > 0xffff_ffff || ad.len() > 0xffff_ffff {
        return Err(CodecError::PayloadTooLarge);
    }
    let (ct, tag) = sealed.split_at(ct_len);
    let before: usize = out_buf.len();
    let magic = MAGIC;
    out_buf.extend_from_slice(magic.as_slice());
    out_buf.push(LUAUCX_VERSION);
    out_buf.push(CipherSuite::XChaCha20Poly1305.id());
    put_u16(out_buf, key_id);
    put_u32(out_buf, ad.len() as u32);
    put_u32(out_buf, ct.len() as u32);
    out_buf.extend_from_slice(nonce.as_slice());
    out_buf.extend_from_slice(tag);
    out_buf.extend_from_slice(ct);
    out_buf.extend_from_slice(ad);
    Ok(out_buf.len() - before)
}

/// Validates a buffer and slices it into its fields, reading nothing past
/// the buffer's end and never calling the cipher.
///
/// The checks run cheapest first: the fixed header is present, the magic
/// matches, the version and the cipher id are the supported ones, the key id
/// is the expected one where one is expected, and the declared lengths lie
/// within the buffer.
pub fn parse_container<'a>(blob: &'a [u8], expected_key_id: Option<u16>) -> (r: Result<
    Fields<'a>,
    CodecError,
>)
    ensures
        match r {
            Ok(fields) => parsed(blob@, expected_key_id) == Ok::<Container, CodecError>(fields@),
            Err(e) => parsed(blob@, expected_key_id) == Err::<Container, CodecError>(e),
        },
{
    if blob.len() < HEADER_LEN {
        return Err(CodecError::TruncatedInput);
    }
    let mut off: usize = 0;
    let magic = read_bytes(blob, &mut off, 8)?;
    let expected_magic = MAGIC;
    if !bytes_equal(magic, expected_magic.as_slice()) {
        return Err(CodecError::BadMagic);
    }
    let version = read_u8(blob, &mut off)?;
    if version != LUAUCX_VERSION {
        return Err(CodecError::UnsupportedVersion(version));
    }
    let cipher_id = read_u8(blob, &mut off)?;
    match CipherSuite::from_id(cipher_id) {
        CipherSuite::XChaCha20Poly1305 => {},
        CipherSuite::Unsupported(id) => {
            return Err(CodecError::UnsupportedCipher(id));
        },
    }
    let key_id = read_u16(blob, &mut off)?;
    match expected_key_id {
        Some(expected) => {
            if expected != key_id {
                return Err(CodecError::KeyIdMismatch { expected, found: key_id });
            }
        },
        None => {},
    }
    let ad_len = read_u32(blob, &mut off)? as usize;
    let ct_len = read_u32(blob, &mut off)? as usize;
    let nonce = read_bytes(blob, &mut off, NONCE_LEN)?;
    let tag = read_bytes(blob, &mut off, TAG_LEN)?;
    let ciphertext = read_bytes(blob, &mut off, ct_len)?;
    let ad = read_bytes(blob, &mut off, ad_len)?;
    Ok(Fields { key_id, nonce, tag, ciphertext, ad })
}

/// The container that encoding produces for a given nonce: the framing of
/// what the cipher seals.
pub open spec fn encoded(
    bytecode: Seq<u8>,
    nonce: Seq<u8>,
    key: Seq<u8>,
    key_id: u16,
    ad: Seq<u8>,
) -> Seq<u8> {
    Container::framing(key_id, nonce, sealed_bytes(key, nonce, bytecode, ad), ad).to_bytes()
}

/// Why encoding fails, if it does: the key's length is checked first, then
/// the two lengths that the header must declare.
pub open spec fn encode_failure(bytecode_len: nat, key_len: nat, ad_len: nat) -> Option<
    CodecError,
> {
    if key_len != KEY_LEN {
        Some(CodecError::InvalidKeyLength)
    } else if bytecode_len > u32::MAX || ad_len > u32::MAX {
        Some(CodecError::PayloadTooLarge)
    } else {
        None
    }
}

/// Decides from the lengths alone whether encoding can go ahead, and why not
/// if it cannot.
pub fn check_lengths(bytecode_len: usize, key_len: usize, ad_len: usize) -> (failure: Option<
    CodecError,
>)
    ensures
        failure == encode_failure(bytecode_len as nat, key_len as nat, ad_len as nat),
{
    if key_len != KEY_LEN {
        Some(CodecError::InvalidKeyLength)
    } else if bytecode_len > 0xffff_ffff || ad_len > 0xffff_ffff {
        Some(CodecError::PayloadTooLarge)
    } else {
        None
    }
}

/// What decoding yields: the plaintext and the associated data, or the first
/// failure in the order key length, header validation, tag verification.
pub open spec fn decoded(blob: Seq<u8>, key: Seq<u8>, expected_key_id: Option<u16>) -> Result<
    (Seq<u8>, Seq<u8>),
    CodecError,
> {
    if key.len() != KEY_LEN {
        Err(CodecError::InvalidKeyLength)
    } else {
        match parsed(blob, expected_key_id) {
            Err(e) => Err(e),
            Ok(c) => match opened_bytes(key, c.nonce, c.sealed(), c.ad) {
                Some(plaintext) => Ok((plaintext, c.ad)),
                None => Err(CodecError::AuthenticationFailed),
            },
        }
    }
}

/// Hands out what the cipher opened: the associated data to `ad_buf`, where
/// one is given, and the plaintext to `out_buf`. Where the cipher refused,
/// nothing is written and the failure is `AuthenticationFailed`.
///
/// Returns the plaintext's length, and the associated data's length where it
/// was written.
pub fn deliver(
    opened: Option<Vec<u8>>,
    ad: &[u8],
    out_buf: &mut Vec<u8>,
    ad_buf: Option<&mut Vec<u8>>,
) -> (r: Result<(usize, Option<usize>), CodecError>)
    ensures
        match opened {
            Some(plaintext) => {
                &&& final(out_buf)@ == old(out_buf)@ + plaintext@
                &&& match ad_buf {
                    Some(sink) => {
                        &&& final(sink)@ == sink@ + ad@
                        &&& r == Ok::<_, CodecError>((plaintext@.len() as usize, Some(ad@.len() as usize)))
                    },
                    None => r == Ok::<_, CodecError>((plaintext@.len() as usize, None::<usize>)),
                }
            },
            None => {
                &&& r == Err::<(usize, Option<usize>), _>(CodecError::AuthenticationFailed)
                &&& final(out_buf)@ == old(out_buf)@
                &&& ad_buf matches Some(sink) ==> final(sink)@ == sink@
            },
        },
{
    match opened {
        Some(plaintext) => {
            let ad_written = match ad_buf {
                Some(sink) => {
                    sink.extend_from_slice(ad);
                    Some(ad.len())
                },
                None => None,
            };
            out_buf.extend_from_slice(plaintext.as_slice());
            Ok((plaintext.len(), ad_written))
        },
        None => Err(CodecError::AuthenticationFailed),
    }
}

/// Encrypts `bytecode` under `key` and `nonce`, binding `ad` to the tag, and
/// appends the container to `out_buf`.
///
/// Succeeds exactly when the key is 32 bytes and both `bytecode` and `ad`
/// have lengths that fit 32 bits. The result is then the number of bytes
/// appended. Their first twenty are the prefix that declares `key_id` and
/// the lengths of `ad` and `bytecode`; the ciphertext is as long as
/// `bytecode`; decoding them under the same key gives `bytecode` and `ad`
/// back, whether or not the key id is checked; and the cipher refuses the
/// same ciphertext under any other tag.
pub fn encrypt_with_nonce(
    bytecode: &[u8],
    nonce: &[u8; NONCE_LEN],
    key: &[u8],
    key_id: u16,
    ad: &[u8],
    out_buf: &mut Vec<u8>,
) -> (r: Result<usize, CodecError>)
    ensures
        match r {
            Ok(n) => {
                &&& encode_failure(bytecode@.len(), key@.len(), ad@.len()) is None
                &&& final(out_buf)@ == old(out_buf)@ + encoded(
                    bytecode@,
                    nonce@,
                    key@,
                    key_id,
                    ad@,
                )
                &&& n == HEADER_LEN + bytecode@.len() + ad@.len()
                &&& n == encoded(bytecode@, nonce@, key@, key_id, ad@).len()
                &&& encoded(bytecode@, nonce@, key@, key_id, ad@).subrange(0, 20) == prefix_bytes(
                    key_id,
                    ad@.len() as u32,
                    bytecode@.len() as u32,
                )
                &&& nonce_of(encoded(bytecode@, nonce@, key@, key_id, ad@)) == nonce@
                &&& cipher_inverts(key@, nonce@, bytecode@, ad@)
                &&& cipher_binds_tag(key@, nonce@, bytecode@, ad@)
                &&& decoded(encoded(bytecode@, nonce@, key@, key_id, ad@), key@, Some(key_id))
                    == Ok::<_, CodecError>((bytecode@, ad@))
                &&& decoded(encoded(bytecode@, nonce@, key@, key_id, ad@), key@, None)
                    == Ok::<_, CodecError>((bytecode@, ad@))
            },
            Err(e) => {
                &&& encode_failure(bytecode@.len(), key@.len(), ad@.len()) == Some(e)
                &&& final(out_buf)@ == old(out_buf)@
            },
        },
{
    match check_lengths(bytecode.len(), key.len(), ad.len()) {
        Some(failure) => {
            return Err(failure);
        },
        None => {},
    }
    let sealed = match seal(key, nonce.as_slice(), bytecode, ad) {
        Ok(sealed) => sealed,
        Err(_) => {
            return Err(CodecError::PayloadTooLarge);
        },
    };
    proof {
        lemma_framing_parses(key_id, nonce@, sealed@, ad@, Some(key_id));
        lemma_framing_parses(key_id, nonce@, sealed@, ad@, None);
    }
    write_container(key_id, nonce, sealed.as_slice(), ad, out_buf)
}

/// Calls `rand::fill` on a fresh 24-byte array: a nonce drawn from the
/// thread-local generator, which is seeded by the operating system.
///
/// Trusted, and nothing is claimed of the bytes that come back.
#[verifier::external_body]
fn random_nonce() -> (nonce: [u8; NONCE_LEN]) {
    let mut nonce = [0; NONCE_LEN];
    rand::fill(&mut nonce);
    nonce
}

/// The nonce a container carries.
pub open spec fn nonce_of(container: Seq<u8>) -> Seq<u8> {
    container.subrange(20, 44)
}

/// Encrypts `bytecode` under `key`, binding `ad` to the tag, and appends the
/// container to `out_buf`. The nonce is the one given, or 24 fresh random
/// bytes where none is given.
///
/// Succeeds exactly when the key is 32 bytes and both `bytecode` and `ad`
/// have lengths that fit 32 bits; nothing is appended otherwise. On success
/// the bytes appended are the encoding under the nonce they carry, which is
/// the given one if one was given; the result is their number; their first
/// twenty are the prefix that declares `key_id` and the lengths of `ad` and
/// `bytecode`; and decoding them under the same key gives `bytecode` and
/// `ad` back. The lengths are tested before a nonce is drawn.
pub fn encrypt_bytecode_into(
    bytecode: &[u8],
    nonce: Option<[u8; NONCE_LEN]>,
    key: &[u8],
    key_id: u16,
    ad: &[u8],
    out_buf: &mut Vec<u8>,
) -> (r: Result<usize, CodecError>)
    ensures
        match r {
            Ok(n) => {
                let container = final(out_buf)@.skip(old(out_buf)@.len() as int);
                &&& encode_failure(bytecode@.len(), key@.len(), ad@.len()) is None
                &&& final(out_buf)@ == old(out_buf)@ + container
                &&& container == encoded(bytecode@, nonce_of(container), key@, key_id, ad@)
                &&& nonce matches Some(given) ==> nonce_of(container) == given@
                &&& n == HEADER_LEN + bytecode@.len() + ad@.len()
                &&& n == container.len()
                &&& container.subrange(0, 20) == prefix_bytes(
                    key_id,
                    ad@.len() as u32,
                    bytecode@.len() as u32,
                )
                &&& cipher_inverts(key@, nonce_of(container), bytecode@, ad@)
                &&& cipher_binds_tag(key@, nonce_of(container), bytecode@, ad@)
                &&& decoded(container, key@, Some(key_id)) == Ok::<_, CodecError>((bytecode@, ad@))
                &&& decoded(container, key@, None) == Ok::<_, CodecError>((bytecode@, ad@))
            },
            Err(e) => {
                &&& encode_failure(bytecode@.len(), key@.len(), ad@.len()) == Some(e)
                &&& final(out_buf)@ == old(out_buf)@
            },
        },
{
    match check_lengths(bytecode.len(), key.len(), ad.len()) {
        Some(failure) => {
            return Err(failure);
        },
        None => {},
    }
    let nonce = match nonce {
        Some(given) => given,
        None => random_nonce(),
    };
    let r = encrypt_with_nonce(bytecode, &nonce, key, key_id, ad, out_buf);
    proof {
        if r is Ok {
            let container = encoded(bytecode@, nonce@, key@, key_id, ad@);
            assert(out_buf@.skip(old(out_buf)@.len() as int) == container);
        }
    }
    r
}

/// Validates `blob`, opens it under `key`, and hands out what it held: the
/// associated data to `ad_buf`, where one is given, and the plaintext to
/// `out_buf`.
///
/// The outcome is `decoded(blob, key, expected_key_id)`. On success the
/// result is the plaintext's length, which is the ciphertext length that the
/// header declares, and the associated data's length where it was written,
/// which is the one that the header declares. On any failure both sinks are
/// left as they were; a failure of validation is found before the cipher is
/// called.
pub fn decrypt_bytecode_into(
    blob: &[u8],
    key: &[u8],
    expected_key_id: Option<u16>,
    out_buf: &mut Vec<u8>,
    ad_buf: Option<&mut Vec<u8>>,
) -> (r: Result<(usize, Option<usize>), CodecError>)
    ensures
        match decoded(blob@, key@, expected_key_id) {
            Ok((plaintext, ad)) => {
                &&& final(out_buf)@ == old(out_buf)@ + plaintext
                &&& match ad_buf {
                    Some(sink) => {
                        &&& final(sink)@ == sink@ + ad
                        &&& r == Ok::<_, CodecError>((plaintext.len() as usize, Some(ad.len() as usize)))
                    },
                    None => r == Ok::<_, CodecError>((plaintext.len() as usize, None::<usize>)),
                }
            },
            Err(e) => {
                &&& r == Err::<(usize, Option<usize>), _>(e)
                &&& final(out_buf)@ == old(out_buf)@
                &&& ad_buf matches Some(sink) ==> final(sink)@ == sink@
            },
        },
        r is Ok <==> decoded(blob@, key@, expected_key_id) is Ok,
        r matches Ok((plaintext_len, ad_len)) ==> {
            &&& plaintext_len == declared_ct_len(blob@)
            &&& final(out_buf)@.len() == old(out_buf)@.len() + plaintext_len
            &&& ad_len is Some <==> ad_buf is Some
            &&& ad_len matches Some(written) ==> written == declared_ad_len(blob@)
        },
        r is Err ==> final(out_buf)@ == old(out_buf)@,
{
    if key.len() != KEY_LEN {
        return Err(CodecError::InvalidKeyLength);
    }
    let fields = match parse_container(blob, expected_key_id) {
        Ok(fields) => fields,
        Err(e) => {
            return Err(e);
        },
    };
    let mut sealed: Vec<u8> = Vec::new();
    sealed.extend_from_slice(fields.ciphertext);
    sealed.extend_from_slice(fields.tag);
    assert(sealed@ == fields@.sealed());
    let opened = match open(key, fields.nonce, sealed.as_slice(), fields.ad) {
        Ok(plaintext) => Some(plaintext),
        Err(_) => None,
    };
    deliver(opened, fields.ad, out_buf, ad_buf)
}

/// A framed sealed message parses back into the fields it was framed from,
/// whether no key id is expected or its own.
pub proof fn lemma_framing_parses(
    key_id: u16,
    nonce: Seq<u8>,
    sealed: Seq<u8>,
    ad: Seq<u8>,
    expected_key_id: Option<u16>,
)
    requires
        nonce.len() == NONCE_LEN,
        sealed.len() >= TAG_LEN,
        sealed.len() - TAG_LEN <= u32::MAX,
        ad.len() <= u32::MAX,
        expected_key_id is Some ==> expected_key_id == Some(key_id),
    ensures
        Container::framing(key_id, nonce, sealed, ad).well_formed(),
        Container::framing(key_id, nonce, sealed, ad).sealed() == sealed,
        Container::framing(key_id, nonce, sealed, ad).to_bytes().len() == HEADER_LEN + (sealed.len()
            - TAG_LEN) + ad.len(),
        Container::framing(key_id, nonce, sealed, ad).to_bytes().subrange(0, 20) == prefix_bytes(
            key_id,
            ad.len() as u32,
            (sealed.len() - TAG_LEN) as u32,
        ),
        parsed(Container::framing(key_id, nonce, sealed, ad).to_bytes(), expected_key_id) == Ok::<
            _,
            CodecError,
        >(Container::framing(key_id, nonce, sealed, ad)),
{
    let c = Container::framing(key_id, nonce, sealed, ad);
    assert(c.sealed() == sealed);
    crate::format::lemma_container_parses(c, Seq::empty(), expected_key_id);
    assert(c.to_bytes() + Seq::<u8>::empty() == c.to_bytes());
    crate::format::lemma_prefix_fields(key_id, ad.len() as u32, (sealed.len() - TAG_LEN) as u32);
}

} // verus!
