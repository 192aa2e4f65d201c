//! Grid derivation: split a fingerprint into consecutive three-character
//! chunks, parse each as a base-16 number, and lay the chunks into a
//! five-column, row-major grid of colored cells. An even chunk is filled with
//! the foreground color, an odd one with the background color. A cell's drawn
//! rectangle grows with its index — width and height equal position plus 50 —
//! which reproduces the established output exactly.

use vstd::prelude::*;
use vstd::arithmetic::div_mod::lemma_basic_div;
use vstd::arithmetic::div_mod::lemma_fundamental_div_mod_converse;
use vstd::string::StrSliceExecFns;

use crate::hex::all_hex_digits;
use crate::hex::chunk_value;
use crate::hex::hex_num_of;
use crate::hex::is_hex_digit;
use crate::AvatarError;

verus! {

/// Fingerprints longer than this could push a cell's coordinates past `u32`;
/// every fingerprint the library derives is 56 characters.
pub const MAX_FINGERPRINT_CHARS: usize = 200000000;

/// One rectangle of the rendered grid: position, drawn size, and fill color
/// as an `(r, g, b)` triple.
#[derive(Clone, Copy, Debug, PartialEq, Eq)]
pub struct Cell {
    pub x: u32,
    pub y: u32,
    pub width: u32,
    pub height: u32,
    pub color: (u8, u8, u8),
}

/// How many chunks a fingerprint of the given length splits into: full
/// three-character chunks, plus one shorter trailing chunk if the length is
/// not a multiple of three.
pub open spec fn chunk_count(len: nat) -> nat {
    (len + 2) / 3
}

/// The `i`-th three-character chunk of `s`; the last chunk may be shorter.
pub open spec fn chunk_of(s: Seq<char>, i: int) -> Seq<char>
    recommends
        0 <= i < chunk_count(s.len()),
{
    s.subrange(3 * i, if 3 * i + 3 <= s.len() { 3 * i + 3 } else { s.len() as int })
}

/// The cell that chunk `i` produces: column `i mod 5`, row `i div 5`, cells
/// 50 units apart, the rectangle reaching from the origin past the cell's
/// position, filled by chunk parity.
pub open spec fn cell_at(s: Seq<char>, foreground: (u8, u8, u8), background: (u8, u8, u8), i: int) -> Cell
    recommends
        0 <= i < chunk_count(s.len()),
{
    Cell {
        x: ((i % 5) * 50) as u32,
        y: ((i / 5) * 50) as u32,
        width: ((i % 5) * 50 + 50) as u32,
        height: ((i / 5) * 50 + 50) as u32,
        color: if hex_num_of(chunk_of(s, i)) % 2 == 0 {
            foreground
        } else {
            background
        },
    }
}

/// The whole grid: one cell per chunk, in chunk order.
pub open spec fn grid_of(s: Seq<char>, foreground: (u8, u8, u8), background: (u8, u8, u8)) -> Seq<
    Cell,
> {
    Seq::new(chunk_count(s.len()), |i: int| cell_at(s, foreground, background, i))
}

/// A 56-character fingerprint yields exactly 19 cells: 18 full chunks and
/// one trailing two-character chunk.
pub proof fn lemma_grid_completeness(s: Seq<char>, foreground: (u8, u8, u8), background: (u8, u8, u8))
    requires
        s.len() == 56,
    ensures
        grid_of(s, foreground, background).len() == 19,
        chunk_of(s, 18).len() == 2,
{
}

/// Parity decides the fill: a chunk parsing to an even number is drawn in the
/// foreground color, an odd one in the background color.
pub proof fn lemma_parity_mapping(
    s: Seq<char>,
    foreground: (u8, u8, u8),
    background: (u8, u8, u8),
    i: int,
)
    requires
        0 <= i < chunk_count(s.len()),
    ensures
        hex_num_of(chunk_of(s, i)) % 2 == 0 ==> grid_of(s, foreground, background)[i].color
            == foreground,
        hex_num_of(chunk_of(s, i)) % 2 != 0 ==> grid_of(s, foreground, background)[i].color
            == background,
{
}

/// Derive the grid of one fingerprint. Succeeds exactly when every character
/// is a lowercase hex digit, and then returns one cell per chunk, in chunk
/// order; otherwise fails with `MalformedFingerprint`.
pub fn derive_grid(
    fingerprint: &str,
    foreground: (u8, u8, u8),
    background: (u8, u8, u8),
) -> (r: Result<Vec<Cell>, AvatarError>)
    requires
        fingerprint@.len() <= MAX_FINGERPRINT_CHARS,
    ensures
        r is Ok <==> all_hex_digits(fingerprint@),
        r matches Ok(cells) ==> cells@ == grid_of(fingerprint@, foreground, background),
        r is Err ==> r == Err::<Vec<Cell>, AvatarError>(AvatarError::MalformedFingerprint),
{
    let len = fingerprint.unicode_len();
    let n = (len + 2) / 3;
    let mut cells: Vec<Cell> = Vec::new();
    let mut i: usize = 0;
    while i < n
        invariant
            len == fingerprint@.len(),
            len <= MAX_FINGERPRINT_CHARS,
            n == chunk_count(len as nat),
            i <= n,
            cells@.len() == i,
            forall|j: int|
                0 <= j < i ==> cells@[j] == cell_at(fingerprint@, foreground, background, j),
            forall|k: int| 0 <= k < 3 * i && k < len ==> is_hex_digit(#[trigger] fingerprint@[k]),
        decreases n - i,
    {
        let start = 3 * i;
        let end = if len - start >= 3 {
            start + 3
        } else {
            len
        };
        match chunk_value(fingerprint, start, end) {
            None => {
                proof {
                    let sub = fingerprint@.subrange(start as int, end as int);
                    let bad = choose|k: int| 0 <= k < sub.len() && !is_hex_digit(sub[k]);
                    assert(!is_hex_digit(fingerprint@[start + bad]));
                }
                return Err(AvatarError::MalformedFingerprint);
            },
            Some(v) => {
                let x = (i % 5) * 50;
                let y = (i / 5) * 50;
                proof {
                    assert(y + 50 <= u32::MAX) by {
                        assert(i as int / 5 <= i as int);
                    }
                    assert(fingerprint@.subrange(start as int, end as int) == chunk_of(
                        fingerprint@,
                        i as int,
                    ));
                    assert forall|k: int| 0 <= k < 3 * (i + 1) && k < len implies is_hex_digit(
                        #[trigger] fingerprint@[k],
                    ) by {
                        if 3 * i <= k {
                            let sub = fingerprint@.subrange(start as int, end as int);
                            assert(sub[k - start] == fingerprint@[k]);
                        }
                    }
                }
                let cell = Cell {
                    x: x as u32,
                    y: y as u32,
                    width: (x + 50) as u32,
                    height: (y + 50) as u32,
                    color: if v % 2 == 0 {
                        foreground
                    } else {
                        background
                    },
                };
                cells.push(cell);
            },
        }
        i += 1;
    }
    proof {
        assert(cells@ =~= grid_of(fingerprint@, foreground, background));
    }
    Ok(cells)
}

/// Split a string into consecutive chunks of `chuck` characters each; the
/// final chunk may be shorter. The chunks cover the whole string in order.
pub fn split_string<'a>(text: &'a String, chuck: usize) -> (r: Vec<&'a str>)
    requires
        chuck > 0,
        vstd::string::string_is_ascii(text),
    ensures
        r@.len() == (text@.len() + chuck - 1) as nat / chuck as nat,
        forall|j: int|
            0 <= j < r@.len() ==> #[trigger] r@[j]@ == text@.subrange(
                j * chuck,
                if (j + 1) * chuck <= text@.len() { (j + 1) * chuck } else { text@.len() as int },
            ),
{
    let s = text.as_str();
    let len = s.unicode_len();
    let mut out: Vec<&'a str> = Vec::new();
    let mut from: usize = 0;
    proof {
        assert(out@.len() * chuck == 0) by (nonlinear_arith)
            requires
                out@.len() == 0,
        ;
    }
    while from < len
        invariant
            len == text@.len(),
            s@ == text@,
            vstd::string::is_ascii(s),
            chuck > 0,
            from == if out@.len() * chuck <= len { (out@.len() * chuck) as int } else { len as int },
            out@.len() == 0 || (out@.len() - 1) * chuck < len,
            forall|j: int|
                0 <= j < out@.len() ==> #[trigger] out@[j]@ == text@.subrange(
                    j * chuck,
                    if (j + 1) * chuck <= len { (j + 1) * chuck } else { len as int },
                ),
        decreases len - from,
    {
        let to = if chuck <= len - from {
            from + chuck
        } else {
            len
        };
        proof {
            assert((out@.len() + 1) * chuck == out@.len() * chuck + chuck) by (nonlinear_arith);
        }
        let piece = s.substring_ascii(from, to);
        out.push(piece);
        from = to;
    }
    proof {
        let count = out@.len() as int;
        let l = len as int;
        let c = chuck as int;
        if count == 0 {
            lemma_basic_div(l + c - 1, c);
        } else {
            assert((count - 1) * c < l);
            assert(count * c >= l) by {
                assert(from == if count * c <= l { count * c } else { l });
            }
            assert((count - 1) * c == count * c - c) by (nonlinear_arith);
            lemma_fundamental_div_mod_converse(l + c - 1, c, count, l + c - 1 - count * c);
        }
    }
    out
}

} // verus!
