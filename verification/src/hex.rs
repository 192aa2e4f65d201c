//! Lowercase hexadecimal digits: classification, digit values, the hex
//! encoding of byte sequences, and parsing of short hex fragments.

use vstd::prelude::*;
use vstd::string::StringExecFns;
use vstd::string::StrSliceExecFns;

verus! {

/// True of the sixteen characters that a lowercase hex rendering may contain.
pub open spec fn is_hex_digit(c: char) -> bool {
    ('0' <= c && c <= '9') || ('a' <= c && c <= 'f')
}

/// Numeric value of a lowercase hex digit.
pub open spec fn hex_digit_value(c: char) -> nat
    recommends
        is_hex_digit(c),
{
    if '0' <= c && c <= '9' {
        (c as nat - '0' as nat) as nat
    } else {
        (c as nat - 'a' as nat + 10) as nat
    }
}

/// The lowercase hex digit that stands for a value below sixteen.
pub open spec fn hex_char(v: nat) -> char
    recommends
        v < 16,
{
    if v == 0 {
        '0'
    } else if v == 1 {
        '1'
    } else if v == 2 {
        '2'
    } else if v == 3 {
        '3'
    } else if v == 4 {
        '4'
    } else if v == 5 {
        '5'
    } else if v == 6 {
        '6'
    } else if v == 7 {
        '7'
    } else if v == 8 {
        '8'
    } else if v == 9 {
        '9'
    } else if v == 10 {
        'a'
    } else if v == 11 {
        'b'
    } else if v == 12 {
        'c'
    } else if v == 13 {
        'd'
    } else if v == 14 {
        'e'
    } else {
        'f'
    }
}

pub proof fn lemma_hex_char_value(v: nat)
    requires
        v < 16,
    ensures
        is_hex_digit(hex_char(v)),
        hex_digit_value(hex_char(v)) == v,
{
}

/// True when every character of the sequence is a lowercase hex digit.
pub open spec fn all_hex_digits(s: Seq<char>) -> bool {
    forall|i: int| 0 <= i < s.len() ==> is_hex_digit(#[trigger] s[i])
}

/// The lowercase hex rendering of a byte sequence: two digits per byte,
/// high nibble first.
pub open spec fn hex_of(bytes: Seq<u8>) -> Seq<char> {
    Seq::new(
        bytes.len() * 2,
        |i: int|
            if i % 2 == 0 {
                hex_char((bytes[i / 2] / 16) as nat)
            } else {
                hex_char((bytes[i / 2] % 16) as nat)
            },
    )
}

/// The number written by a sequence of hex digits, most significant first.
pub open spec fn hex_num_of(s: Seq<char>) -> nat
    recommends
        all_hex_digits(s),
    decreases s.len(),
{
    if s.len() == 0 {
        0
    } else {
        16 * hex_num_of(s.drop_last()) + hex_digit_value(s.last())
    }
}

/// Sixteen to the given power; bounds the number a hex fragment can write.
pub open spec fn pow16(n: nat) -> nat
    decreases n,
{
    if n == 0 {
        1
    } else {
        16 * pow16((n - 1) as nat)
    }
}

/// A hex rendering contains hex digits only, two per byte.
pub proof fn lemma_hex_of_digits(bytes: Seq<u8>)
    ensures
        hex_of(bytes).len() == bytes.len() * 2,
        all_hex_digits(hex_of(bytes)),
{
    assert forall|i: int| 0 <= i < hex_of(bytes).len() implies is_hex_digit(
        #[trigger] hex_of(bytes)[i],
    ) by {
        let b = bytes[i / 2];
        if i % 2 == 0 {
            lemma_hex_char_value((b / 16) as nat);
        } else {
            lemma_hex_char_value((b % 16) as nat);
        }
    }
}

/// Classify a character and return its hex value, if it has one.
pub fn hex_digit_of(c: char) -> (r: Option<u8>)
    ensures
        r is Some <==> is_hex_digit(c),
        r matches Some(v) ==> v == hex_digit_value(c) && v < 16,
{
    let u = c as u32;
    if u >= 48 && u <= 57 {
        Some((u - 48) as u8)
    } else if u >= 97 && u <= 102 {
        Some((u - 97 + 10) as u8)
    } else {
        None
    }
}

/// One-character string slice holding the hex digit for a value below sixteen.
fn hex_digit_str(v: u8) -> (r: &'static str)
    requires
        v < 16,
    ensures
        r@ =~= seq![hex_char(v as nat)],
{
    proof {
        reveal_strlit("0");
        reveal_strlit("1");
        reveal_strlit("2");
        reveal_strlit("3");
        reveal_strlit("4");
        reveal_strlit("5");
        reveal_strlit("6");
        reveal_strlit("7");
        reveal_strlit("8");
        reveal_strlit("9");
        reveal_strlit("a");
        reveal_strlit("b");
        reveal_strlit("c");
        reveal_strlit("d");
        reveal_strlit("e");
        reveal_strlit("f");
    }
    if v == 0 {
        "0"
    } else if v == 1 {
        "1"
    } else if v == 2 {
        "2"
    } else if v == 3 {
        "3"
    } else if v == 4 {
        "4"
    } else if v == 5 {
        "5"
    } else if v == 6 {
        "6"
    } else if v == 7 {
        "7"
    } else if v == 8 {
        "8"
    } else if v == 9 {
        "9"
    } else if v == 10 {
        "a"
    } else if v == 11 {
        "b"
    } else if v == 12 {
        "c"
    } else if v == 13 {
        "d"
    } else if v == 14 {
        "e"
    } else {
        "f"
    }
}

/// Render a byte slice as lowercase hex, two digits per byte.
pub fn bytes_to_hex(bytes: &[u8]) -> (r: String)
    ensures
        r@ == hex_of(bytes@),
{
    let mut out = String::new();
    let mut j: usize = 0;
    while j < bytes.len()
        invariant
            j <= bytes@.len(),
            out@ =~= hex_of(bytes@.take(j as int)),
        decreases bytes@.len() - j,
    {
        let b = bytes[j];
        out.append(hex_digit_str(b / 16));
        out.append(hex_digit_str(b % 16));
        proof {
            assert(out@ =~= hex_of(bytes@.take(j as int + 1)));
        }
        j += 1;
    }
    proof {
        assert(bytes@.take(bytes@.len() as int) =~= bytes@);
    }
    out
}

/// Parse the characters of `s` in `[start, end)` as a base-16 number.
/// Returns `None` exactly when one of them is not a lowercase hex digit.
pub fn chunk_value(s: &str, start: usize, end: usize) -> (r: Option<u32>)
    requires
        start <= end <= s@.len(),
        end - start <= 3,
    ensures
        r is Some <==> all_hex_digits(s@.subrange(start as int, end as int)),
        r matches Some(v) ==> v == hex_num_of(s@.subrange(start as int, end as int)) && v < pow16(
            (end - start) as nat,
        ),
{
    let mut v: u32 = 0;
    let mut k: usize = start;
    while k < end
        invariant
            start <= k <= end <= s@.len(),
            end - start <= 3,
            all_hex_digits(s@.subrange(start as int, k as int)),
            v == hex_num_of(s@.subrange(start as int, k as int)),
            v < pow16((k - start) as nat),
        decreases end - k,
    {
        proof {
            reveal_with_fuel(pow16, 5);
        }
        let c = s.get_char(k);
        match hex_digit_of(c) {
            None => {
                proof {
                    assert(s@.subrange(start as int, end as int)[k - start] == c);
                }
                return None;
            },
            Some(d) => {
                proof {
                    assert(s@.subrange(start as int, k as int + 1).drop_last() =~= s@.subrange(
                        start as int,
                        k as int,
                    ));
                }
                v = 16 * v + (d as u32);
            },
        }
        k += 1;
    }
    proof {
        assert(s@.subrange(start as int, k as int) =~= s@.subrange(start as int, end as int));
    }
    Some(v)
}

} // verus!
