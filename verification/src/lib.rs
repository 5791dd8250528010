//! An authenticated, encrypted container for compiled bytecode.
//!
//! A container is a 60-byte header (magic, version, cipher id, key id, two
//! declared lengths, nonce, tag) followed by the ciphertext and by associated
//! data that is authenticated but not encrypted. `encrypt_bytecode_into`
//! writes one; `decrypt_bytecode_into` validates one and gives back what it
//! held.

pub mod aead;
pub mod cli;
pub mod error;
pub mod format;
pub mod luaucx;
pub mod reader;
pub mod theorems;

pub use cli::{CompileLevels, Mode, Target, MAX_LEVEL};
pub use error::{CodecError, ErrorKind};
pub use format::{
    CipherSuite, AEAD_XCHACHA20, DEFAULT_KEY_ID, HEADER_LEN, KEY_LEN, LUAUCX_VERSION, MAGIC,
    NONCE_LEN, TAG_LEN,
};
pub use luaucx::{
    bytes_equal, check_lengths, decrypt_bytecode_into, deliver, encrypt_bytecode_into, encrypt_with_nonce,
    parse_container, write_container, Fields,
};
pub use reader::{read_bytes, read_u16, read_u32, read_u8};
