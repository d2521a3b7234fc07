//! Signature-deciphering engine for an obfuscated streaming-platform script.
//!
//! A deployed player script obfuscates each media source's access signature
//! with a short sequence of array operations drawn from a fixed vocabulary:
//! reverse, slice-from, remove-prefix and swap-first.  The script renames the
//! operations with every deployment but never changes their shapes.  This
//! crate statically discovers, from the script's source text, which minified
//! property key stands for which operation, extracts the ordered call
//! sequence the script applies, caches that sequence per script version, and
//! replays it against a cipher string to recover the plaintext signature.

pub mod cache;
pub mod extract;
pub mod humantime;
pub mod text;
pub mod tokens;
pub mod transform;
pub mod video;

pub use cache::TokenCache;
pub use extract::{extract_actions, extract_version_id, ExtractError};
pub use humantime::HumanTime;
pub use text::between;
pub use tokens::{ActionToken, OperationKind};
pub use transform::decipher;
pub use video::{Assets, SourceRecord, Video, VideoConfig};
