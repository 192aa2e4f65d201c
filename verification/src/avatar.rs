//! The avatar itself: a nickname, its fingerprint, and the two colors. The
//! fingerprint is computed once at construction; the foreground color is
//! re-derived from the fingerprint whenever the cells are derived, and the
//! background color may be set by the caller beforehand.

use vstd::prelude::*;

use crate::color::color_of;
use crate::color::front_valid;
use crate::color::hex_2_rgb;
use crate::digest::compute_fingerprint;
use crate::digest::fingerprint_of;
use crate::grid::derive_grid;
use crate::grid::grid_of;
use crate::grid::Cell;
use crate::grid::MAX_FINGERPRINT_CHARS;
use crate::hex::all_hex_digits;
use crate::AvatarError;

verus! {

/// One derivation instance: the nickname is kept verbatim, the fingerprint is
/// its hash, and the colors are the current fill choices.
pub struct Avatar {
    pub nickname: String,
    pub hash: String,
    pub avatar_color: (u8, u8, u8),
    pub background_color: (u8, u8, u8),
}

/// The state an avatar is left in by deriving its cells: the foreground
/// color is re-derived from the fingerprint; nothing else moves.
pub open spec fn drawn(a: Avatar) -> Avatar {
    Avatar { avatar_color: color_of(a.hash@), ..a }
}

/// The cells one derivation emits: the grid of the fingerprint, filled with
/// the derived foreground color against the avatar's background color.
pub open spec fn draw_output(a: Avatar) -> Seq<Cell> {
    grid_of(a.hash@, color_of(a.hash@), a.background_color)
}

impl Avatar {
    /// The construction-time invariant: the fingerprint is exactly the hex
    /// rendering of the nickname's digest — 56 lowercase hex characters.
    pub open spec fn wf(self) -> bool {
        self.hash@ == fingerprint_of(self.nickname@) && self.hash@.len() == 56
            && all_hex_digits(self.hash@)
    }

    /// Create an avatar: compute the nickname's fingerprint, default the
    /// background to white and the foreground to black pending derivation.
    pub fn new(nickname: &str) -> (r: Avatar)
        ensures
            r.wf(),
            r.nickname@ == nickname@,
            r.hash@ == fingerprint_of(nickname@),
            r.avatar_color == (0u8, 0u8, 0u8),
            r.background_color == (255u8, 255u8, 255u8),
    {
        let hash = compute_fingerprint(nickname);
        Avatar {
            nickname: nickname.to_owned(),
            hash,
            avatar_color: (0, 0, 0),
            background_color: (255, 255, 255),
        }
    }

    /// Set the background color; callable any time before the cells are
    /// derived.
    pub fn set_background_color(&mut self, r: u8, g: u8, b: u8)
        ensures
            final(self).background_color == (r, g, b),
            final(self).nickname == old(self).nickname,
            final(self).hash == old(self).hash,
            final(self).avatar_color == old(self).avatar_color,
    {
        self.background_color = (r, g, b);
    }

    /// Derive the foreground color from the fingerprint's first six
    /// characters. A well-formed fingerprint always has a valid front, so
    /// this cannot fail.
    pub fn initialize_avatar_color(&mut self)
        requires
            front_valid(old(self).hash@),
        ensures
            final(self).avatar_color == color_of(old(self).hash@),
            final(self).nickname == old(self).nickname,
            final(self).hash == old(self).hash,
            final(self).background_color == old(self).background_color,
    {
        let r = hex_2_rgb(self.hash.as_str());
        match r {
            Ok(c) => {
                self.avatar_color = c;
            },
            Err(_) => {
                proof {
                    assert(false);
                }
            },
        }
    }

    /// Derive the foreground color, then the grid cells, in chunk order. On a
    /// well-formed fingerprint this always succeeds; a fragment or chunk that
    /// is not lowercase hex is reported instead of drawn.
    pub fn derive_cells(&mut self) -> (r: Result<Vec<Cell>, AvatarError>)
        requires
            old(self).hash@.len() <= MAX_FINGERPRINT_CHARS,
        ensures
            final(self).nickname == old(self).nickname,
            final(self).hash == old(self).hash,
            final(self).background_color == old(self).background_color,
            r is Ok <==> front_valid(old(self).hash@) && all_hex_digits(old(self).hash@),
            r matches Ok(cells) ==> *final(self) == drawn(*old(self)) && cells@ == draw_output(
                *old(self),
            ),
            !front_valid(old(self).hash@) ==> r == Err::<Vec<Cell>, AvatarError>(
                AvatarError::MalformedFragment,
            ) && final(self).avatar_color == old(self).avatar_color,
            front_valid(old(self).hash@) && !all_hex_digits(old(self).hash@) ==> r == Err::<
                Vec<Cell>,
                AvatarError,
            >(AvatarError::MalformedFingerprint) && *final(self) == drawn(*old(self)),
            old(self).wf() ==> r is Ok,
    {
        let color = match hex_2_rgb(self.hash.as_str()) {
            Ok(c) => c,
            Err(e) => {
                return Err(e);
            },
        };
        self.avatar_color = color;
        match derive_grid(self.hash.as_str(), self.avatar_color, self.background_color) {
            Ok(cells) => Ok(cells),
            Err(e) => Err(e),
        }
    }
}

/// Deriving the cells is idempotent: a second derivation from the state the
/// first one left behind moves nothing and emits the same cells.
pub proof fn lemma_draw_idempotent(a: Avatar)
    ensures
        drawn(drawn(a)) == drawn(a),
        draw_output(drawn(a)) == draw_output(a),
{
}

} // verus!
