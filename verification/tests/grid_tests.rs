use solute::derive_grid;
use solute::split_string;
use solute::AvatarError;
use solute::Cell;

const FG: (u8, u8, u8) = (10, 20, 30);
const BG: (u8, u8, u8) = (200, 201, 202);

#[test]
fn grid_of_56_chars_has_19_cells() {
    let fp = "f39fc471ebbc044c18b92139f255cc3851a6641e5ca40f825969ff7f";
    assert_eq!(fp.len(), 56);
    let cells = derive_grid(fp, FG, BG).unwrap();
    assert_eq!(cells.len(), 19);
}

#[test]
fn cells_follow_the_position_and_size_rule() {
    let fp = "f39fc471ebbc044c18b92139f255cc3851a6641e5ca40f825969ff7f";
    let cells = derive_grid(fp, FG, BG).unwrap();
    for (i, cell) in cells.iter().enumerate() {
        let x = ((i % 5) * 50) as u32;
        let y = ((i / 5) * 50) as u32;
        assert_eq!(cell.x, x);
        assert_eq!(cell.y, y);
        assert_eq!(cell.width, x + 50);
        assert_eq!(cell.height, y + 50);
    }
}

#[test]
fn cell_color_follows_chunk_parity() {
    let fp = "f39fc471ebbc044c18b92139f255cc3851a6641e5ca40f825969ff7f";
    let cells = derive_grid(fp, FG, BG).unwrap();
    let bytes = fp.as_bytes();
    for (i, cell) in cells.iter().enumerate() {
        let start = 3 * i;
        let end = (start + 3).min(fp.len());
        let chunk = std::str::from_utf8(&bytes[start..end]).unwrap();
        let value = i64::from_str_radix(chunk, 16).unwrap();
        let expected = if value % 2 == 0 { FG } else { BG };
        assert_eq!(cell.color, expected, "chunk {} ({})", i, chunk);
    }
}

#[test]
fn even_and_odd_chunks_pick_foreground_and_background() {
    let cells = derive_grid("000001", FG, BG).unwrap();
    assert_eq!(
        cells,
        vec![
            Cell { x: 0, y: 0, width: 50, height: 50, color: FG },
            Cell { x: 50, y: 0, width: 100, height: 50, color: BG },
        ]
    );
}

#[test]
fn trailing_short_chunk_still_parses() {
    // five characters: one full chunk "00f" (odd) and a trailing "0e" (even)
    let cells = derive_grid("00f0e", FG, BG).unwrap();
    assert_eq!(cells.len(), 2);
    assert_eq!(cells[0].color, BG);
    assert_eq!(cells[1].color, FG);
}

#[test]
fn empty_fingerprint_yields_no_cells() {
    let cells = derive_grid("", FG, BG).unwrap();
    assert!(cells.is_empty());
}

#[test]
fn non_hex_chunk_is_rejected() {
    assert_eq!(derive_grid("00g", FG, BG), Err(AvatarError::MalformedFingerprint));
    assert_eq!(derive_grid("abc00Z", FG, BG), Err(AvatarError::MalformedFingerprint));
}

#[test]
fn split_string_chunks_in_order() {
    let text = String::from("abcdefgh");
    let chunks = split_string(&text, 3);
    assert_eq!(chunks, vec!["abc", "def", "gh"]);
}

#[test]
fn split_string_exact_multiple() {
    let text = String::from("abcdef");
    assert_eq!(split_string(&text, 2), vec!["ab", "cd", "ef"]);
    assert_eq!(split_string(&text, 6), vec!["abcdef"]);
    assert_eq!(split_string(&text, 7), vec!["abcdef"]);
}

#[test]
fn split_string_single_characters() {
    let text = String::from("xyz");
    assert_eq!(split_string(&text, 1), vec!["x", "y", "z"]);
    let empty = String::new();
    assert!(split_string(&empty, 3).is_empty());
}
