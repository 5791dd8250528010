//! The wire layout of a container: constants, little-endian integers, and the
//! mathematical model of the byte stream.
//!
//! | field      | offset       | size     |
//! |------------|--------------|----------|
//! | magic      | 0            | 8        |
//! | version    | 8            | 1        |
//! | cipher id  | 9            | 1        |
//! | key id     | 10           | 2, LE    |
//! | ad length  | 12           | 4, LE    |
//! | ct length  | 16           | 4, LE    |
//! | nonce      | 20           | 24       |
//! | tag        | 44           | 16       |
//! | ciphertext | 60           | ct length|
//! | ad         | 60 + ct len  | ad length|

use vstd::prelude::*;
use crate::error::CodecError;

verus! {

/// The eight bytes every container starts with: `LUAUBYTX`.
pub const MAGIC: [u8; 8] = [0x4c, 0x55, 0x41, 0x55, 0x42, 0x59, 0x54, 0x58];

/// The one format revision this codec reads and writes.
pub const LUAUCX_VERSION: u8 = 1;

/// The cipher id of XChaCha20-Poly1305.
pub const AEAD_XCHACHA20: u8 = 1;

/// Length of a key in bytes.
pub const KEY_LEN: usize = 32;

/// Length of a nonce in bytes.
pub const NONCE_LEN: usize = 24;

/// Length of an authentication tag in bytes.
pub const TAG_LEN: usize = 16;

/// Length of everything that precedes the ciphertext.
pub const HEADER_LEN: usize = 60;

/// The key id written when the caller names none.
pub const DEFAULT_KEY_ID: u16 = 0;

/// The magic as a sequence.
pub open spec fn magic_bytes() -> Seq<u8> {
    seq![0x4cu8, 0x55u8, 0x41u8, 0x55u8, 0x42u8, 0x59u8, 0x54u8, 0x58u8]
}

/// The two bytes of `x`, least significant first.
pub open spec fn u16_le(x: u16) -> Seq<u8> {
    seq![(x % 256) as u8, (x / 256) as u8]
}

/// The four bytes of `x`, least significant first.
pub open spec fn u32_le(x: u32) -> Seq<u8> {
    seq![
        (x % 256) as u8,
        (x / 256 % 256) as u8,
        (x / 65536 % 256) as u8,
        (x / 16777216) as u8,
    ]
}

/// The number whose little-endian bytes are `s[at]`, `s[at + 1]`.
pub open spec fn u16_at(s: Seq<u8>, at: int) -> u16
    recommends
        0 <= at,
        at + 2 <= s.len(),
{
    (s[at] + 256 * s[at + 1]) as u16
}

/// The number whose little-endian bytes are `s[at]` .. `s[at + 3]`.
pub open spec fn u32_at(s: Seq<u8>, at: int) -> u32
    recommends
        0 <= at,
        at + 4 <= s.len(),
{
    (s[at] + 256 * s[at + 1] + 65536 * s[at + 2] + 16777216 * s[at + 3]) as u32
}

/// Reading back what `u16_le` wrote gives the number again.
pub proof fn lemma_u16_le_round_trip(x: u16)
    ensures
        u16_le(x).len() == 2,
        u16_at(u16_le(x), 0) == x,
{
}

/// Reading back what `u32_le` wrote gives the number again.
pub proof fn lemma_u32_le_round_trip(x: u32)
    ensures
        u32_le(x).len() == 4,
        u32_at(u32_le(x), 0) == x,
{
}

/// Appends the little-endian bytes of `x`.
pub fn put_u16(out: &mut Vec<u8>, x: u16)
    ensures
        final(out)@ == old(out)@ + u16_le(x),
{
    out.push((x % 256) as u8);
    out.push((x / 256) as u8);
}

/// Appends the little-endian bytes of `x`.
pub fn put_u32(out: &mut Vec<u8>, x: u32)
    ensures
        final(out)@ == old(out)@ + u32_le(x),
{
    out.push((x % 256) as u8);
    out.push((x / 256 % 256) as u8);
    out.push((x / 65536 % 256) as u8);
    out.push((x / 16777216) as u8);
}

/// The cipher suite a cipher id byte names.
#[derive(Clone, Copy, Debug, PartialEq, Eq, Structural)]
pub enum CipherSuite {
    /// XChaCha20 with Poly1305: 256-bit key, 192-bit nonce, 128-bit tag.
    XChaCha20Poly1305,
    /// An id this codec has no suite for, carried as read.
    Unsupported(u8),
}

impl CipherSuite {
    /// The suite that `id` names.
    pub open spec fn spec_from_id(id: u8) -> CipherSuite {
        if id == AEAD_XCHACHA20 {
            CipherSuite::XChaCha20Poly1305
        } else {
            CipherSuite::Unsupported(id)
        }
    }

    /// The id byte that names this suite.
    pub open spec fn spec_id(self) -> u8 {
        match self {
            CipherSuite::XChaCha20Poly1305 => AEAD_XCHACHA20,
            CipherSuite::Unsupported(id) => id,
        }
    }

    /// The suite that `id` names.
    #[verifier::when_used_as_spec(spec_from_id)]
    pub fn from_id(id: u8) -> (suite: CipherSuite)
        ensures
            suite == Self::spec_from_id(id),
    {
        if id == AEAD_XCHACHA20 {
            CipherSuite::XChaCha20Poly1305
        } else {
            CipherSuite::Unsupported(id)
        }
    }

    /// The id byte that names this suite.
    #[verifier::when_used_as_spec(spec_id)]
    pub fn id(self) -> (id: u8)
        ensures
            id == self.spec_id(),
    {
        match self {
            CipherSuite::XChaCha20Poly1305 => AEAD_XCHACHA20,
            CipherSuite::Unsupported(id) => id,
        }
    }
}

/// The first twenty bytes of a container: magic, version, cipher id, key id
/// and the two declared lengths.
pub open spec fn prefix_bytes(key_id: u16, ad_len: u32, ct_len: u32) -> Seq<u8> {
    magic_bytes() + seq![LUAUCX_VERSION, AEAD_XCHACHA20] + u16_le(key_id) + u32_le(ad_len)
        + u32_le(ct_len)
}

/// A container as mathematics: the fields that vary from one to the next.
pub struct Container {
    pub key_id: u16,
    pub nonce: Seq<u8>,
    pub tag: Seq<u8>,
    pub ciphertext: Seq<u8>,
    pub ad: Seq<u8>,
}

impl Container {
    /// Nonce and tag have their fixed sizes, and both bodies have lengths
    /// that a 32-bit field can declare.
    pub open spec fn well_formed(self) -> bool {
        &&& self.nonce.len() == NONCE_LEN
        &&& self.tag.len() == TAG_LEN
        &&& self.ciphertext.len() <= u32::MAX
        &&& self.ad.len() <= u32::MAX
    }

    /// The byte stream: prefix, nonce, tag, ciphertext, associated data.
    pub open spec fn to_bytes(self) -> Seq<u8> {
        prefix_bytes(self.key_id, self.ad.len() as u32, self.ciphertext.len() as u32)
            + self.nonce + self.tag + self.ciphertext + self.ad
    }

    /// What the cipher is given to open: ciphertext followed by tag.
    pub open spec fn sealed(self) -> Seq<u8> {
        self.ciphertext + self.tag
    }

    /// The container that frames a sealed message, the last sixteen bytes of
    /// which are the tag.
    pub open spec fn framing(key_id: u16, nonce: Seq<u8>, sealed: Seq<u8>, ad: Seq<u8>) -> Container
        recommends
            sealed.len() >= TAG_LEN,
    {
        Container {
            key_id,
            nonce,
            tag: sealed.subrange(sealed.len() - TAG_LEN, sealed.len() as int),
            ciphertext: sealed.subrange(0, sealed.len() - TAG_LEN),
            ad,
        }
    }
}

/// The key id a buffer declares.
pub open spec fn declared_key_id(blob: Seq<u8>) -> u16 {
    u16_at(blob, 10)
}

/// The associated-data length a buffer declares.
pub open spec fn declared_ad_len(blob: Seq<u8>) -> u32 {
    u32_at(blob, 12)
}

/// The ciphertext length a buffer declares.
pub open spec fn declared_ct_len(blob: Seq<u8>) -> u32 {
    u32_at(blob, 16)
}

/// What validating and slicing a buffer yields. The checks run in this
/// order, and the first that fails decides the error: fixed header present,
/// magic, version, cipher id, key id (where one is expected), declared
/// lengths within the buffer. Bytes after the associated data are ignored.
pub open spec fn parsed(blob: Seq<u8>, expected_key_id: Option<u16>) -> Result<
    Container,
    CodecError,
> {
    let ct_len = declared_ct_len(blob) as int;
    let ad_len = declared_ad_len(blob) as int;
    if blob.len() < HEADER_LEN {
        Err(CodecError::TruncatedInput)
    } else if blob.subrange(0, 8) != magic_bytes() {
        Err(CodecError::BadMagic)
    } else if blob[8] != LUAUCX_VERSION {
        Err(CodecError::UnsupportedVersion(blob[8]))
    } else if blob[9] != AEAD_XCHACHA20 {
        Err(CodecError::UnsupportedCipher(blob[9]))
    } else if expected_key_id is Some && expected_key_id->0 != declared_key_id(blob) {
        Err(
            CodecError::KeyIdMismatch {
                expected: expected_key_id->0,
                found: declared_key_id(blob),
            },
        )
    } else if blob.len() - HEADER_LEN < ct_len + ad_len {
        Err(CodecError::TruncatedInput)
    } else {
        Ok(
            Container {
                key_id: declared_key_id(blob),
                nonce: blob.subrange(20, 44),
                tag: blob.subrange(44, 60),
                ciphertext: blob.subrange(60, 60 + ct_len),
                ad: blob.subrange(60 + ct_len, 60 + ct_len + ad_len),
            },
        )
    }
}

/// What the twenty bytes of a prefix hold, field by field.
pub proof fn lemma_prefix_fields(key_id: u16, ad_len: u32, ct_len: u32)
    ensures
        prefix_bytes(key_id, ad_len, ct_len).len() == 20,
        prefix_bytes(key_id, ad_len, ct_len).subrange(0, 8) == magic_bytes(),
        prefix_bytes(key_id, ad_len, ct_len)[8] == LUAUCX_VERSION,
        prefix_bytes(key_id, ad_len, ct_len)[9] == AEAD_XCHACHA20,
        declared_key_id(prefix_bytes(key_id, ad_len, ct_len)) == key_id,
        declared_ad_len(prefix_bytes(key_id, ad_len, ct_len)) == ad_len,
        declared_ct_len(prefix_bytes(key_id, ad_len, ct_len)) == ct_len,
{
    let p = prefix_bytes(key_id, ad_len, ct_len);
    let k = u16_le(key_id);
    let a = u32_le(ad_len);
    let c = u32_le(ct_len);
    assert(p.len() == 20);
    assert(p.subrange(0, 8) == magic_bytes());
    assert(p[10] == k[0] && p[11] == k[1]);
    assert(p[12] == a[0] && p[13] == a[1] && p[14] == a[2] && p[15] == a[3]);
    assert(p[16] == c[0] && p[17] == c[1] && p[18] == c[2] && p[19] == c[3]);
    lemma_u16_le_round_trip(key_id);
    lemma_u32_le_round_trip(ad_len);
    lemma_u32_le_round_trip(ct_len);
}

/// Two buffers that agree on their first twenty bytes declare the same
/// magic, version, cipher id, key id and lengths.
pub proof fn lemma_prefix_decides(a: Seq<u8>, b: Seq<u8>)
    requires
        a.len() >= 20,
        b.len() >= 20,
        a.subrange(0, 20) == b.subrange(0, 20),
    ensures
        a.subrange(0, 8) == b.subrange(0, 8),
        a[8] == b[8],
        a[9] == b[9],
        declared_key_id(a) == declared_key_id(b),
        declared_ad_len(a) == declared_ad_len(b),
        declared_ct_len(a) == declared_ct_len(b),
{
    assert forall|i: int| 0 <= i < 20 implies a[i] == b[i] by {
        assert(a[i] == a.subrange(0, 20)[i]);
        assert(b[i] == b.subrange(0, 20)[i]);
    }
    assert(a.subrange(0, 8) == b.subrange(0, 8));
}

/// The bytes of a well-formed container, followed by anything at all, parse
/// back into that container, provided that the key id expected, if any, is
/// its own.
pub proof fn lemma_container_parses(c: Container, rest: Seq<u8>, expected_key_id: Option<u16>)
    requires
        c.well_formed(),
        expected_key_id is Some ==> expected_key_id == Some(c.key_id),
    ensures
        c.to_bytes().len() == HEADER_LEN + c.ciphertext.len() + c.ad.len(),
        parsed(c.to_bytes() + rest, expected_key_id) == Ok::<_, CodecError>(c),
{
    let blob = c.to_bytes() + rest;
    let ad_len = c.ad.len() as u32;
    let ct_len = c.ciphertext.len() as u32;
    let prefix = prefix_bytes(c.key_id, ad_len, ct_len);
    lemma_prefix_fields(c.key_id, ad_len, ct_len);
    assert(blob.len() == 60 + ct_len + ad_len + rest.len());
    assert(blob.subrange(0, 20) == prefix);
    assert(prefix.subrange(0, 20) == prefix);
    lemma_prefix_decides(blob, prefix);
    assert(blob.subrange(20, 44) == c.nonce);
    assert(blob.subrange(44, 60) == c.tag);
    assert(blob.subrange(60, 60 + ct_len) == c.ciphertext);
    assert(blob.subrange(60 + ct_len, 60 + ct_len + ad_len) == c.ad);
}

/// Writing out the number read at `at` gives the two bytes found there.
pub proof fn lemma_u16_at_round_trip(s: Seq<u8>, at: int)
    requires
        0 <= at,
        at + 2 <= s.len(),
    ensures
        u16_le(u16_at(s, at)) == s.subrange(at, at + 2),
{
    let b0 = s[at] as int;
    let b1 = s[at + 1] as int;
    let x = u16_at(s, at);
    assert(x == b0 + 256 * b1);
    assert(x % 256 == b0 && x / 256 == b1);
    assert(u16_le(x) =~= s.subrange(at, at + 2));
}

/// Writing out the number read at `at` gives the four bytes found there.
pub proof fn lemma_u32_at_round_trip(s: Seq<u8>, at: int)
    requires
        0 <= at,
        at + 4 <= s.len(),
    ensures
        u32_le(u32_at(s, at)) == s.subrange(at, at + 4),
{
    let b0 = s[at] as int;
    let b1 = s[at + 1] as int;
    let b2 = s[at + 2] as int;
    let b3 = s[at + 3] as int;
    let x = u32_at(s, at);
    assert(x == b0 + 256 * b1 + 65536 * b2 + 16777216 * b3);
    assert(x % 256 == b0);
    assert(x / 256 == b1 + 256 * b2 + 65536 * b3);
    assert(x / 65536 == b2 + 256 * b3);
    assert(x / 16777216 == b3);
    assert(u32_le(x) =~= s.subrange(at, at + 4));
}

/// A buffer that parses begins with exactly the bytes of the container it
/// parses into, and that container is well formed: the layout can be read
/// in one way only.
pub proof fn lemma_parsed_is_canonical(blob: Seq<u8>, expected_key_id: Option<u16>)
    requires
        parsed(blob, expected_key_id) is Ok,
    ensures
        ({
            let c = parsed(blob, expected_key_id)->Ok_0;
            &&& c.well_formed()
            &&& expected_key_id is Some ==> expected_key_id == Some(c.key_id)
            &&& c.to_bytes().len() <= blob.len()
            &&& blob.subrange(0, c.to_bytes().len() as int) == c.to_bytes()
        }),
{
    let c = parsed(blob, expected_key_id)->Ok_0;
    let ad_len = declared_ad_len(blob);
    let ct_len = declared_ct_len(blob);
    let prefix = prefix_bytes(c.key_id, ad_len, ct_len);
    assert(c.ad.len() == ad_len);
    assert(c.ciphertext.len() == ct_len);
    lemma_u16_at_round_trip(blob, 10);
    lemma_u32_at_round_trip(blob, 12);
    lemma_u32_at_round_trip(blob, 16);
    assert(prefix == blob.subrange(0, 20)) by {
        let fixed = seq![LUAUCX_VERSION, AEAD_XCHACHA20];
        assert(fixed =~= blob.subrange(8, 10));
        assert(blob.subrange(0, 8) + blob.subrange(8, 10) + blob.subrange(10, 12) + blob.subrange(
            12,
            16,
        ) + blob.subrange(16, 20) =~= blob.subrange(0, 20));
    }
    assert(c.to_bytes() == blob.subrange(0, 60 + ct_len + ad_len)) by {
        assert(blob.subrange(0, 20) + c.nonce + c.tag + c.ciphertext + c.ad =~= blob.subrange(
            0,
            60 + ct_len + ad_len,
        ));
    }
}

} // verus!
