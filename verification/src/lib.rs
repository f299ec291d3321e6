//! Strings that are always held in Unicode canonical composed form (NFC).
//!
//! Two texts that differ in their code points but are canonically equivalent
//! become the same [`Nfc`] value, so equality, hashing and ordering of `Nfc`
//! values need no further normalization. A caseless variant folds case as
//! well, and a path variant turns backslashes into slashes first.
//!
//! - [`text`] holds the `Nfc` type, its constructors and its conversions;
//! - [`normalize`] names the Unicode transforms and states what is trusted
//!   about the crates that compute them;
//! - [`separator`] rewrites path separators;
//! - [`order`] orders `Nfc` values, on top of [`bytes`] and [`encoding`];
//! - [`laws`] proves how these operations relate to one another.
pub mod bytes;
pub mod encoding;
pub mod laws;
pub mod normalize;
pub mod order;
pub mod separator;
pub mod text;

pub use text::Nfc;
