//! Deterministic avatar derivation: hash a nickname into a hex fingerprint,
//! derive a foreground color from its leading characters, and map successive
//! fingerprint chunks to a row-major grid of colored cells.

use vstd::prelude::*;

pub mod avatar;
pub mod color;
pub mod digest;
pub mod grid;
pub mod hex;

pub use avatar::Avatar;
pub use color::hex_2_rgb;
pub use digest::compute_fingerprint;
pub use grid::derive_grid;
pub use grid::split_string;
pub use grid::Cell;
pub use grid::MAX_FINGERPRINT_CHARS;

verus! {

/// A parse failure on digest-derived data. Both variants point at an
/// invariant violation: a well-formed fingerprint is always lowercase hex.
#[derive(Clone, Copy, Debug, PartialEq, Eq, Structural)]
pub enum AvatarError {
    /// A color fragment was shorter than six characters or not lowercase hex.
    MalformedFragment,
    /// A fingerprint chunk failed to parse as lowercase hex.
    MalformedFingerprint,
}

} // verus!
