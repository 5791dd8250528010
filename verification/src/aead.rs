//! The one place that touches the cipher: XChaCha20-Poly1305, with a 32-byte
//! key, a 24-byte nonce and a 16-byte tag.
//!
//! Nothing in this file is proved. The two functions below call the cipher,
//! and their contracts are taken on trust from its implementation. What the
//! cipher computes is given a name rather than a definition.

use vstd::prelude::*;
use chacha20poly1305::XChaCha20Poly1305;
use chacha20poly1305::aead::{Aead, KeyInit, Payload};

verus! {

/// The cipher's error. It carries no detail, by the cipher's design.
#[verifier::external_type_specification]
#[verifier::external_body]
pub struct ExAeadError(chacha20poly1305::aead::Error);

/// What `XChaCha20Poly1305::encrypt` returns on success for this key, nonce,
/// message and associated data: the ciphertext followed by the tag.
pub uninterp spec fn sealed_bytes(key: Seq<u8>, nonce: Seq<u8>, msg: Seq<u8>, aad: Seq<u8>) -> Seq<u8>;

/// What `XChaCha20Poly1305::decrypt` returns for this key, nonce, sealed
/// message (ciphertext followed by tag) and associated data: the plaintext,
/// or `None` where it refuses.
pub uninterp spec fn opened_bytes(key: Seq<u8>, nonce: Seq<u8>, sealed: Seq<u8>, aad: Seq<u8>) -> Option<Seq<u8>>;

/// The longest message, in bytes, that is handed to the cipher. The cipher's
/// own limit lies far beyond it; just below that limit the cipher panics
/// rather than refuses, so no call goes near it.
pub open spec fn max_message_len() -> int {
    0xffff_ffff
}

/// Whether the cipher opens what it seals for these inputs: the sealed
/// message is 16 bytes longer than the message, and opening it under the same
/// key, nonce and associated data gives the message back. `seal` promises
/// this of every message it seals.
pub open spec fn cipher_inverts(key: Seq<u8>, nonce: Seq<u8>, msg: Seq<u8>, aad: Seq<u8>) -> bool {
    let sealed = sealed_bytes(key, nonce, msg, aad);
    &&& sealed.len() == msg.len() + 16
    &&& opened_bytes(key, nonce, sealed, aad) == Some(msg)
}

/// Whether `sealed` ends in the only tag that the cipher accepts for its
/// ciphertext: every other byte string of the same length that begins with
/// the same ciphertext is refused.
pub open spec fn tag_is_binding(key: Seq<u8>, nonce: Seq<u8>, sealed: Seq<u8>, aad: Seq<u8>) -> bool {
    forall|other: Seq<u8>|
        #![trigger opened_bytes(key, nonce, other, aad)]
        other.len() == sealed.len() && other.subrange(0, sealed.len() - 16) == sealed.subrange(
            0,
            sealed.len() - 16,
        ) && other != sealed ==> opened_bytes(key, nonce, other, aad) is None
}

/// Whether the cipher binds the tag of what it seals for these inputs.
/// `seal` promises this of every message it seals.
pub open spec fn cipher_binds_tag(key: Seq<u8>, nonce: Seq<u8>, msg: Seq<u8>, aad: Seq<u8>) -> bool {
    tag_is_binding(key, nonce, sealed_bytes(key, nonce, msg, aad), aad)
}

/// Calls `XChaCha20Poly1305::new` on the key and then `Aead::encrypt` with
/// the nonce, the message and the associated data.
///
/// Trusted: on a message of at most `max_message_len()` bytes the cipher
/// succeeds; its output is the message's length plus 16; decrypting that
/// output under the same key, nonce and associated data gives the message
/// back; and decrypting the same ciphertext with any other tag is refused,
/// since the cipher computes the tag from key, nonce, associated data and
/// ciphertext and compares it with the one given. The key must be 32 bytes
/// and the nonce 24, or the conversion to the cipher's key and nonce types
/// panics.
#[verifier::external_body]
pub(crate) fn seal(key: &[u8], nonce: &[u8], msg: &[u8], aad: &[u8]) -> (r: Result<
    Vec<u8>,
    chacha20poly1305::aead::Error,
>)
    requires
        key@.len() == 32,
        nonce@.len() == 24,
        msg@.len() <= max_message_len(),
    ensures
        r is Ok,
        r matches Ok(sealed) ==> {
            &&& sealed@ == sealed_bytes(key@, nonce@, msg@, aad@)
            &&& sealed@.len() == msg@.len() + 16
            &&& opened_bytes(key@, nonce@, sealed@, aad@) == Some(msg@)
            &&& tag_is_binding(key@, nonce@, sealed@, aad@)
        },
{
    let cipher = XChaCha20Poly1305::new(key.into());
    cipher.encrypt(nonce.into(), Payload { msg, aad })
}

/// Calls `XChaCha20Poly1305::new` on the key and then `Aead::decrypt` with
/// the nonce, the sealed message and the associated data.
///
/// Trusted: the result is the named one, and a plaintext that comes back is
/// 16 bytes shorter than the sealed message. The key must be 32 bytes and the
/// nonce 24, or the conversion to the cipher's key and nonce types panics;
/// the sealed message must be no longer than `max_message_len()` plus a tag.
#[verifier::external_body]
pub(crate) fn open(key: &[u8], nonce: &[u8], sealed: &[u8], aad: &[u8]) -> (r: Result<
    Vec<u8>,
    chacha20poly1305::aead::Error,
>)
    requires
        key@.len() == 32,
        nonce@.len() == 24,
        sealed@.len() <= max_message_len() + 16,
    ensures
        match r {
            Ok(msg) => {
                &&& opened_bytes(key@, nonce@, sealed@, aad@) == Some(msg@)
                &&& msg@.len() + 16 == sealed@.len()
            },
            Err(_) => opened_bytes(key@, nonce@, sealed@, aad@) is None,
        },
{
    let cipher = XChaCha20Poly1305::new(key.into());
    cipher.decrypt(nonce.into(), Payload { msg: sealed, aad })
}

} // verus!
