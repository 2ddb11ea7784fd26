//! Password-keyed file encryption: a deterministic AES-256 transform, a Base64
//! text layer around it, and the decisions of one encrypt or decrypt run.
pub mod base64;
pub mod cipher;
pub mod codec;
pub mod naming;
pub mod pipeline;

pub use crate::cipher::{decrypt_bytes, encrypt_bytes, transform, CipherError};
pub use crate::codec::{decode, decode_base64, encode, encode_base64, CodecError, Format};
pub use crate::naming::{append_extension, derive_output_path, Direction};
pub use crate::pipeline::{
    after_remove, is_stdio_path, map_io_error, run_transform, Cli, Completion, IoError,
    IoErrorKind, IoOperation, PipelineError,
};
