//! Foreground color derivation: the first six fingerprint characters, read as
//! three two-digit hex bytes, give the avatar color. The first pair is red,
//! the second pair blue, the third pair green — that pair order is part of
//! the output contract and is kept as it stands.

use vstd::prelude::*;
use vstd::string::StrSliceExecFns;

use crate::hex::all_hex_digits;
use crate::hex::hex_digit_value;
use crate::hex::hex_num_of;
use crate::hex::is_hex_digit;
use crate::hex::pow16;
use crate::hex::chunk_value;
use crate::AvatarError;

verus! {

/// The value of the `k`-th two-character pair of `s`.
pub open spec fn pair_value(s: Seq<char>, k: int) -> nat
    recommends
        0 <= k,
        2 * k + 2 <= s.len(),
{
    hex_num_of(s.subrange(2 * k, 2 * k + 2))
}

/// True when `s` starts with six lowercase hex digits: exactly the inputs on
/// which color derivation succeeds.
pub open spec fn front_valid(s: Seq<char>) -> bool {
    s.len() >= 6 && forall|i: int| 0 <= i < 6 ==> is_hex_digit(#[trigger] s[i])
}

/// The color written by the first six characters of a fingerprint, as an
/// `(r, g, b)` triple: pair one is red, pair two blue, pair three green.
pub open spec fn color_of(s: Seq<char>) -> (u8, u8, u8)
    recommends
        front_valid(s),
{
    (pair_value(s, 0) as u8, pair_value(s, 2) as u8, pair_value(s, 1) as u8)
}

/// Each pair of hex digits writes a number below 256, so every derived
/// channel fits an eight-bit channel without truncation.
pub proof fn lemma_color_in_range(s: Seq<char>, k: int)
    requires
        front_valid(s),
        0 <= k < 3,
    ensures
        pair_value(s, k) < 256,
        (pair_value(s, k) as u8) as nat == pair_value(s, k),
{
    let pair = s.subrange(2 * k, 2 * k + 2);
    let front = s.subrange(2 * k, 2 * k + 1);
    assert(pair.drop_last() =~= front);
    assert(front.drop_last() =~= s.subrange(2 * k, 2 * k));
    assert(hex_num_of(front.drop_last()) == 0);
    assert(hex_num_of(front) == hex_digit_value(s[2 * k]));
    assert(hex_num_of(pair) == 16 * hex_digit_value(s[2 * k]) + hex_digit_value(s[2 * k + 1]));
}

/// Split a six-character hex fragment into three byte values and return them
/// as an `(r, g, b)` triple, reading the second pair as blue and the third as
/// green. Fails with `MalformedFragment` exactly when the fragment is shorter
/// than six characters or one of the six is not a lowercase hex digit.
pub fn hex_2_rgb(hex: &str) -> (r: Result<(u8, u8, u8), AvatarError>)
    ensures
        r is Ok <==> front_valid(hex@),
        r matches Ok(c) ==> c == color_of(hex@),
        r is Err ==> r == Err::<(u8, u8, u8), AvatarError>(AvatarError::MalformedFragment),
{
    if hex.unicode_len() < 6 {
        return Err(AvatarError::MalformedFragment);
    }
    proof {
        reveal_with_fuel(pow16, 3);
    }
    let p0 = chunk_value(hex, 0, 2);
    let p1 = chunk_value(hex, 2, 4);
    let p2 = chunk_value(hex, 4, 6);
    match (p0, p1, p2) {
        (Some(v0), Some(v1), Some(v2)) => {
            proof {
                assert forall|i: int| 0 <= i < 6 implies is_hex_digit(#[trigger] hex@[i]) by {
                    if i < 2 {
                        assert(hex@.subrange(0, 2)[i] == hex@[i]);
                    } else if i < 4 {
                        assert(hex@.subrange(2, 4)[i - 2] == hex@[i]);
                    } else {
                        assert(hex@.subrange(4, 6)[i - 4] == hex@[i]);
                    }
                }
            }
            Ok(((v0 as u8), (v2 as u8), (v1 as u8)))
        },
        _ => {
            proof {
                if front_valid(hex@) {
                    assert forall|i: int| 0 <= i < 2 implies is_hex_digit(
                        #[trigger] hex@.subrange(0, 2)[i],
                    ) by {}
                    assert forall|i: int| 0 <= i < 2 implies is_hex_digit(
                        #[trigger] hex@.subrange(2, 4)[i],
                    ) by {}
                    assert forall|i: int| 0 <= i < 2 implies is_hex_digit(
                        #[trigger] hex@.subrange(4, 6)[i],
                    ) by {}
                }
            }
            Err(AvatarError::MalformedFragment)
        },
    }
}

} // verus!
