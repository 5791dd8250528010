//! What holds of the codec as a whole, proved from the definitions that the
//! contracts of encoding and decoding are stated in.

use vstd::prelude::*;
use crate::aead::{cipher_binds_tag, cipher_inverts, opened_bytes, sealed_bytes};
use crate::error::{CodecError, ErrorKind};
use crate::format::{
    declared_ad_len, declared_ct_len, declared_key_id, lemma_prefix_decides, lemma_prefix_fields,
    magic_bytes, parsed, prefix_bytes, Container, AEAD_XCHACHA20, HEADER_LEN, KEY_LEN,
    LUAUCX_VERSION, NONCE_LEN,
};
use crate::luaucx::{decoded, encoded, lemma_framing_parses, nonce_of};

verus! {

/// Whether a buffer holds the whole fixed header, with the magic, the
/// version and the cipher id that this codec accepts.
pub open spec fn header_accepted(blob: Seq<u8>) -> bool {
    &&& blob.len() >= HEADER_LEN
    &&& blob.subrange(0, 8) == magic_bytes()
    &&& blob[8] == LUAUCX_VERSION
    &&& blob[9] == AEAD_XCHACHA20
}

/// Encoding and then decoding under the same key gives the plaintext and
/// the associated data back, whether the decoder expects the key id that
/// was written or none, wherever the cipher opens what it sealed. Every
/// successful encoding reports that the cipher did.
pub proof fn theorem_round_trip(
    bytecode: Seq<u8>,
    nonce: Seq<u8>,
    key: Seq<u8>,
    key_id: u16,
    ad: Seq<u8>,
    expected_key_id: Option<u16>,
)
    requires
        key.len() == KEY_LEN,
        nonce.len() == NONCE_LEN,
        bytecode.len() <= u32::MAX,
        ad.len() <= u32::MAX,
        expected_key_id is Some ==> expected_key_id == Some(key_id),
        cipher_inverts(key, nonce, bytecode, ad),
    ensures
        encoded(bytecode, nonce, key, key_id, ad).len() == HEADER_LEN + bytecode.len() + ad.len(),
        decoded(encoded(bytecode, nonce, key, key_id, ad), key, expected_key_id) == Ok::<
            _,
            CodecError,
        >((bytecode, ad)),
{
    lemma_framing_parses(key_id, nonce, sealed_bytes(key, nonce, bytecode, ad), ad, expected_key_id);
}

/// The first twenty bytes of an encoding are the magic, the version, the
/// cipher id, the key id, the length of the associated data and the length
/// of the plaintext, the numbers little-endian, wherever the cipher opens
/// what it sealed.
pub proof fn theorem_header_declares_inputs(
    bytecode: Seq<u8>,
    nonce: Seq<u8>,
    key: Seq<u8>,
    key_id: u16,
    ad: Seq<u8>,
)
    requires
        bytecode.len() <= u32::MAX,
        ad.len() <= u32::MAX,
        cipher_inverts(key, nonce, bytecode, ad),
    ensures
        encoded(bytecode, nonce, key, key_id, ad).len() >= 20,
        encoded(bytecode, nonce, key, key_id, ad).subrange(0, 20) == prefix_bytes(
            key_id,
            ad.len() as u32,
            bytecode.len() as u32,
        ),
        encoded(bytecode, nonce, key, key_id, ad).subrange(0, 8) == magic_bytes(),
        encoded(bytecode, nonce, key, key_id, ad)[8] == LUAUCX_VERSION,
        encoded(bytecode, nonce, key, key_id, ad)[9] == AEAD_XCHACHA20,
        declared_key_id(encoded(bytecode, nonce, key, key_id, ad)) == key_id,
        declared_ad_len(encoded(bytecode, nonce, key, key_id, ad)) == ad.len(),
        declared_ct_len(encoded(bytecode, nonce, key, key_id, ad)) == bytecode.len(),
{
    let blob = encoded(bytecode, nonce, key, key_id, ad);
    let prefix = prefix_bytes(key_id, ad.len() as u32, bytecode.len() as u32);
    lemma_prefix_fields(key_id, ad.len() as u32, bytecode.len() as u32);
    assert(blob.subrange(0, 20) == prefix);
    assert(prefix.subrange(0, 20) == prefix);
    lemma_prefix_decides(blob, prefix);
}

/// Encodings of the same input under two nonces are equally long and agree
/// on their first twenty bytes, wherever the cipher opens what it sealed:
/// the nonce changes nothing before itself.
pub proof fn theorem_nonce_leaves_prefix(
    bytecode: Seq<u8>,
    nonce_a: Seq<u8>,
    nonce_b: Seq<u8>,
    key: Seq<u8>,
    key_id: u16,
    ad: Seq<u8>,
)
    requires
        nonce_a.len() == nonce_b.len(),
        cipher_inverts(key, nonce_a, bytecode, ad),
        cipher_inverts(key, nonce_b, bytecode, ad),
    ensures
        encoded(bytecode, nonce_a, key, key_id, ad).len() == encoded(
            bytecode,
            nonce_b,
            key,
            key_id,
            ad,
        ).len(),
        encoded(bytecode, nonce_a, key, key_id, ad).subrange(0, 20) == encoded(
            bytecode,
            nonce_b,
            key,
            key_id,
            ad,
        ).subrange(0, 20),
{
    let prefix = prefix_bytes(key_id, ad.len() as u32, bytecode.len() as u32);
    lemma_prefix_fields(key_id, ad.len() as u32, bytecode.len() as u32);
    assert(encoded(bytecode, nonce_a, key, key_id, ad).subrange(0, 20) == prefix);
    assert(encoded(bytecode, nonce_b, key, key_id, ad).subrange(0, 20) == prefix);
}

/// A buffer shorter than the fixed header is refused as truncated, whatever
/// it holds.
pub proof fn theorem_short_header_rejected(
    blob: Seq<u8>,
    key: Seq<u8>,
    expected_key_id: Option<u16>,
)
    requires
        key.len() == KEY_LEN,
        blob.len() < HEADER_LEN,
    ensures
        decoded(blob, key, expected_key_id) == Err::<(Seq<u8>, Seq<u8>), _>(
            CodecError::TruncatedInput,
        ),
{
}

/// A buffer with the right magic and any version byte but the supported one
/// is refused as a format error that carries the byte, whatever the rest
/// holds.
pub proof fn theorem_unsupported_version_rejected(
    blob: Seq<u8>,
    key: Seq<u8>,
    expected_key_id: Option<u16>,
)
    requires
        key.len() == KEY_LEN,
        blob.len() >= HEADER_LEN,
        blob.subrange(0, 8) == magic_bytes(),
        blob[8] != LUAUCX_VERSION,
    ensures
        decoded(blob, key, expected_key_id) == Err::<(Seq<u8>, Seq<u8>), _>(
            CodecError::UnsupportedVersion(blob[8]),
        ),
        CodecError::UnsupportedVersion(blob[8]).spec_kind() == ErrorKind::Format,
{
}

/// A buffer with the right magic and version and any cipher id byte but the
/// supported one is refused as a format error that carries the byte,
/// whatever the rest holds.
pub proof fn theorem_unsupported_cipher_rejected(
    blob: Seq<u8>,
    key: Seq<u8>,
    expected_key_id: Option<u16>,
)
    requires
        key.len() == KEY_LEN,
        blob.len() >= HEADER_LEN,
        blob.subrange(0, 8) == magic_bytes(),
        blob[8] == LUAUCX_VERSION,
        blob[9] != AEAD_XCHACHA20,
    ensures
        decoded(blob, key, expected_key_id) == Err::<(Seq<u8>, Seq<u8>), _>(
            CodecError::UnsupportedCipher(blob[9]),
        ),
        CodecError::UnsupportedCipher(blob[9]).spec_kind() == ErrorKind::Format,
{
}

/// Writing another version byte, or another cipher id byte, into the bytes
/// of a well-formed container makes decoding fail with a format error.
pub proof fn theorem_altered_constants_rejected(
    c: Container,
    key: Seq<u8>,
    expected_key_id: Option<u16>,
    byte: u8,
)
    requires
        key.len() == KEY_LEN,
        c.well_formed(),
    ensures
        byte != LUAUCX_VERSION ==> decoded(c.to_bytes().update(8, byte), key, expected_key_id)
            == Err::<(Seq<u8>, Seq<u8>), _>(CodecError::UnsupportedVersion(byte)),
        byte != AEAD_XCHACHA20 ==> decoded(c.to_bytes().update(9, byte), key, expected_key_id)
            == Err::<(Seq<u8>, Seq<u8>), _>(CodecError::UnsupportedCipher(byte)),
{
    let blob = c.to_bytes();
    crate::format::lemma_container_parses(c, Seq::empty(), None);
    assert(blob + Seq::<u8>::empty() == blob);
    assert(header_accepted(blob));
    assert(blob.update(8, byte).subrange(0, 8) == blob.subrange(0, 8));
    assert(blob.update(9, byte).subrange(0, 8) == blob.subrange(0, 8));
}

/// Where the decoder expects a key id that the header does not declare,
/// decoding fails with `KeyIdMismatch`, and so does decoding of every other
/// buffer with the same first twelve bytes: nothing behind the key id, the
/// ciphertext and the tag included, is looked at.
pub proof fn theorem_key_id_gate(blob: Seq<u8>, other: Seq<u8>, key: Seq<u8>, expected: u16)
    requires
        key.len() == KEY_LEN,
        header_accepted(blob),
        expected != declared_key_id(blob),
        other.len() >= HEADER_LEN,
        other.subrange(0, 12) == blob.subrange(0, 12),
    ensures
        decoded(blob, key, Some(expected)) == Err::<(Seq<u8>, Seq<u8>), _>(
            CodecError::KeyIdMismatch { expected, found: declared_key_id(blob) },
        ),
        decoded(other, key, Some(expected)) == decoded(blob, key, Some(expected)),
{
    assert forall|i: int| 0 <= i < 12 implies other[i] == blob[i] by {
        assert(other[i] == other.subrange(0, 12)[i]);
        assert(blob[i] == blob.subrange(0, 12)[i]);
    }
    assert(other.subrange(0, 8) == blob.subrange(0, 8));
}

/// A header that declares more ciphertext and associated data than the
/// buffer holds behind the fixed header is refused as truncated.
pub proof fn theorem_declared_lengths_bounded(
    blob: Seq<u8>,
    key: Seq<u8>,
    expected_key_id: Option<u16>,
)
    requires
        key.len() == KEY_LEN,
        header_accepted(blob),
        expected_key_id is Some ==> expected_key_id == Some(declared_key_id(blob)),
        declared_ct_len(blob) + declared_ad_len(blob) > blob.len() - HEADER_LEN,
    ensures
        decoded(blob, key, expected_key_id) == Err::<(Seq<u8>, Seq<u8>), _>(
            CodecError::TruncatedInput,
        ),
{
}

/// Encodings of the same input under two different nonces differ, since
/// each carries its nonce.
pub proof fn theorem_distinct_nonces_distinct_containers(
    bytecode: Seq<u8>,
    nonce_a: Seq<u8>,
    nonce_b: Seq<u8>,
    key: Seq<u8>,
    key_id: u16,
    ad: Seq<u8>,
)
    requires
        nonce_a.len() == NONCE_LEN,
        nonce_b.len() == NONCE_LEN,
        nonce_a != nonce_b,
    ensures
        nonce_of(encoded(bytecode, nonce_a, key, key_id, ad)) == nonce_a,
        nonce_of(encoded(bytecode, nonce_b, key, key_id, ad)) == nonce_b,
        encoded(bytecode, nonce_a, key, key_id, ad) != encoded(bytecode, nonce_b, key, key_id, ad),
{
    lemma_nonce_carried(key_id, nonce_a, sealed_bytes(key, nonce_a, bytecode, ad), ad);
    lemma_nonce_carried(key_id, nonce_b, sealed_bytes(key, nonce_b, bytecode, ad), ad);
}

/// A framing carries its nonce at bytes 20 to 43.
proof fn lemma_nonce_carried(key_id: u16, nonce: Seq<u8>, sealed: Seq<u8>, ad: Seq<u8>)
    requires
        nonce.len() == NONCE_LEN,
    ensures
        nonce_of(Container::framing(key_id, nonce, sealed, ad).to_bytes()) == nonce,
{
    let c = Container::framing(key_id, nonce, sealed, ad);
    crate::format::lemma_prefix_fields(c.key_id, c.ad.len() as u32, c.ciphertext.len() as u32);
    assert(c.to_bytes().subrange(20, 44) == nonce);
}

/// Changing one byte behind the declared lengths of a buffer that passes
/// validation (in the nonce, the tag, the ciphertext or the associated
/// data) leaves validation as it was and changes what the cipher is asked
/// to open. Decoding the changed buffer can then fail in one way only, with
/// `AuthenticationFailed`, and does so exactly where the cipher refuses the
/// changed input. That the cipher does refuse it is the cipher's promise,
/// and is not proved here; for a changed tag it is certain, and
/// `theorem_tag_tamper_rejected` says so.
pub proof fn theorem_body_tamper_left_to_cipher(
    blob: Seq<u8>,
    key: Seq<u8>,
    expected_key_id: Option<u16>,
    at: int,
    byte: u8,
)
    requires
        key.len() == KEY_LEN,
        parsed(blob, expected_key_id) is Ok,
        20 <= at < HEADER_LEN + declared_ct_len(blob) + declared_ad_len(blob),
        byte != blob[at],
    ensures
        parsed(blob.update(at, byte), expected_key_id) is Ok,
        ({
            let before = parsed(blob, expected_key_id)->Ok_0;
            let after = parsed(blob.update(at, byte), expected_key_id)->Ok_0;
            &&& after.key_id == before.key_id
            &&& after.nonce.len() == before.nonce.len()
            &&& after.sealed().len() == before.sealed().len()
            &&& after.ad.len() == before.ad.len()
            &&& (after.nonce != before.nonce || after.sealed() != before.sealed() || after.ad
                != before.ad)
            &&& decoded(blob.update(at, byte), key, expected_key_id) == match opened_bytes(
                key,
                after.nonce,
                after.sealed(),
                after.ad,
            ) {
                Some(plaintext) => Ok::<_, CodecError>((plaintext, after.ad)),
                None => Err(CodecError::AuthenticationFailed),
            }
        }),
{
    let changed = blob.update(at, byte);
    let before = parsed(blob, expected_key_id)->Ok_0;
    assert(changed.subrange(0, 20) == blob.subrange(0, 20));
    lemma_prefix_decides(changed, blob);
    let after = parsed(changed, expected_key_id)->Ok_0;
    let ct_len = declared_ct_len(blob) as int;
    if at < 44 {
        assert(after.nonce[at - 20] == byte);
        assert(before.nonce[at - 20] == blob[at]);
    } else if at < 60 {
        assert(after.tag[at - 44] == byte);
        assert(before.tag[at - 44] == blob[at]);
        assert(after.sealed()[ct_len + at - 44] == byte);
        assert(before.sealed()[ct_len + at - 44] == blob[at]);
    } else if at < 60 + ct_len {
        assert(after.ciphertext[at - 60] == byte);
        assert(before.ciphertext[at - 60] == blob[at]);
        assert(after.sealed()[at - 60] == byte);
        assert(before.sealed()[at - 60] == blob[at]);
    } else {
        assert(after.ad[at - 60 - ct_len] == byte);
        assert(before.ad[at - 60 - ct_len] == blob[at]);
    }
}

/// Changing one byte of the tag of an encoding makes decoding fail with
/// `AuthenticationFailed`, wherever the cipher opens what it sealed and
/// accepts no other tag for it. Every successful encoding reports that the
/// cipher did both.
pub proof fn theorem_tag_tamper_rejected(
    bytecode: Seq<u8>,
    nonce: Seq<u8>,
    key: Seq<u8>,
    key_id: u16,
    ad: Seq<u8>,
    expected_key_id: Option<u16>,
    at: int,
    byte: u8,
)
    requires
        key.len() == KEY_LEN,
        nonce.len() == NONCE_LEN,
        bytecode.len() <= u32::MAX,
        ad.len() <= u32::MAX,
        expected_key_id is Some ==> expected_key_id == Some(key_id),
        cipher_inverts(key, nonce, bytecode, ad),
        cipher_binds_tag(key, nonce, bytecode, ad),
        44 <= at < HEADER_LEN,
        byte != encoded(bytecode, nonce, key, key_id, ad)[at],
    ensures
        decoded(encoded(bytecode, nonce, key, key_id, ad).update(at, byte), key, expected_key_id)
            == Err::<(Seq<u8>, Seq<u8>), _>(CodecError::AuthenticationFailed),
{
    let sealed = sealed_bytes(key, nonce, bytecode, ad);
    let c = Container::framing(key_id, nonce, sealed, ad);
    let blob = c.to_bytes();
    let changed = blob.update(at, byte);
    let ct_len = bytecode.len() as int;
    lemma_framing_parses(key_id, nonce, sealed, ad, expected_key_id);
    theorem_header_declares_inputs(bytecode, nonce, key, key_id, ad);
    assert(changed.subrange(0, 20) == blob.subrange(0, 20));
    lemma_prefix_decides(changed, blob);
    let after = parsed(changed, expected_key_id)->Ok_0;
    assert(after.nonce == c.nonce);
    assert(after.ciphertext == c.ciphertext);
    assert(after.ad == c.ad);
    let other = after.sealed();
    assert(other.len() == sealed.len());
    assert(other.subrange(0, sealed.len() - 16) == sealed.subrange(0, sealed.len() - 16));
    assert(other[ct_len + at - 44] == byte);
    assert(sealed[ct_len + at - 44] == blob[at]) by {
        assert(c.sealed() == sealed);
        assert(c.sealed()[ct_len + at - 44] == c.tag[at - 44]);
        assert(blob.subrange(44, 60) == c.tag);
        assert(blob.subrange(44, 60)[at - 44] == blob[at]);
    }
    assert(other != sealed);
    assert(opened_bytes(key, nonce, other, ad) is None);
}

} // verus!
